//! What an observer of the store drains: the events that pending changes
//! call for, the order in which they come, and how many of them there are.

use vstd::prelude::*;

use crate::display::{DisplayStateView, SharedDisplayView};
use crate::dto::display::{
    first_row, full_rows, has_first_row, stripe_len, Change as DisplayChange, ChangeView,
};
use crate::dto::web::{
    stripe_bytes, DisplayUpdateView, PinUpdateView, StripeUpdateView, WebEvent, WebEventView,
};
use crate::gpio::{Change, SharedPinView};
use crate::peripherals::StoreView;

verus! {

/// The content of an event that may be there.
pub open spec fn event_view(event: Option<WebEvent>) -> Option<WebEventView> {
    match event {
        Some(event) => Some(event@),
        None => None,
    }
}

/// The event that a pending change of the pin `id` calls for: the present
/// state of the pin, with its metadata where the pin is new to the
/// observer. No change, no event.
pub open spec fn pin_event(id: u8, pin: SharedPinView, change: Change) -> Option<WebEventView> {
    if change == Change::Unchanged {
        None
    } else {
        Some(
            WebEventView::PinUpdate(
                PinUpdateView {
                    id,
                    meta: if change == Change::Created {
                        Some(pin.meta)
                    } else {
                        None
                    },
                    dropped: pin.dropped,
                    value: pin.value,
                },
            ),
        )
    }
}

/// The next event that a pending change of the display `id` calls for.
/// A display that is new to the observer, or was dropped, is announced
/// first, with its metadata where it is new. Else the first dirty row gives
/// a stripe: the pixels of its dirty span, as many of them as a stripe
/// holds. What the wire has 16 bits for, the number of the row and of the
/// column, is cut to them.
pub open spec fn display_event(id: u8, display: SharedDisplayView, change: ChangeView) -> Option<
    WebEventView,
> {
    match change {
        ChangeView::Created => Some(
            WebEventView::DisplayUpdate(
                DisplayUpdateView::MetaUpdate {
                    id,
                    meta: Some(display.meta),
                    dropped: display.dropped,
                },
            ),
        ),
        ChangeView::Updated { rows, dropped } => if dropped {
            Some(
                WebEventView::DisplayUpdate(
                    DisplayUpdateView::MetaUpdate { id, meta: None, dropped: display.dropped },
                ),
            )
        } else if has_first_row(rows) {
            let row = first_row(rows);
            Some(
                WebEventView::DisplayUpdate(
                    DisplayUpdateView::StripeUpdate(
                        StripeUpdateView {
                            id,
                            row: row as u16,
                            start: rows[row].0 as u16,
                            data: stripe_bytes(
                                display.span(row, rows[row].0, stripe_len(rows[row])),
                            ),
                        },
                    ),
                ),
            )
        } else {
            None
        },
    }
}

/// Whether `id` is the first place of `changes`, before `count`, at which
/// a pin has a pending change.
pub open spec fn is_first_pending_pin(changes: Seq<Change>, count: int, id: int) -> bool {
    &&& 0 <= id < count
    &&& id < changes.len()
    &&& changes[id] != Change::Unchanged
    &&& forall|other: int| 0 <= other < id ==> #[trigger] changes[other] == Change::Unchanged
}

/// Whether a pin has a pending change at a place of `changes` before
/// `count`.
pub open spec fn has_pending_pin(changes: Seq<Change>, count: int) -> bool {
    exists|id: int| is_first_pending_pin(changes, count, id)
}

/// The first place of `changes` at which a pin has a pending change.
pub open spec fn first_pending_pin(changes: Seq<Change>, count: int) -> int
    recommends
        has_pending_pin(changes, count),
{
    choose|id: int| is_first_pending_pin(changes, count, id)
}

/// There is one first pending pin at most.
pub proof fn lemma_first_pending_pin_unique(changes: Seq<Change>, count: int, id: int)
    requires
        is_first_pending_pin(changes, count, id),
    ensures
        has_pending_pin(changes, count),
        first_pending_pin(changes, count) == id,
{
    let chosen = first_pending_pin(changes, count);
    assert(is_first_pending_pin(changes, count, chosen));
    if chosen < id {
        assert(changes[chosen] == Change::Unchanged);
    }
    if id < chosen {
        assert(changes[id] == Change::Unchanged);
    }
}

/// Pending changes of pins are drained by ascending id: once the change of
/// a pin was drained, the next pending change, if there is one, is that of
/// a pin with a greater id, and the changes of all other pins are as they
/// were.
pub proof fn lemma_pins_drained_in_order(changes: Seq<Change>, count: int)
    requires
        has_pending_pin(changes, count),
    ensures
        has_pending_pin(
            changes.update(first_pending_pin(changes, count), Change::Unchanged),
            count,
        ) ==> first_pending_pin(
            changes.update(first_pending_pin(changes, count), Change::Unchanged),
            count,
        ) > first_pending_pin(changes, count),
        forall|id: int|
            0 <= id < changes.len() && id != first_pending_pin(changes, count)
                ==> #[trigger] changes.update(
                first_pending_pin(changes, count),
                Change::Unchanged,
            )[id] == changes[id],
{
    let first = first_pending_pin(changes, count);
    let left = changes.update(first, Change::Unchanged);
    assert(is_first_pending_pin(changes, count, first));
    if has_pending_pin(left, count) {
        let next = first_pending_pin(left, count);
        assert(is_first_pending_pin(left, count, next));
        if next < first {
            assert(changes[next] == Change::Unchanged);
        }
    }
}

/// Whether `id` is the first place of `changes`, before `count`, at which
/// a display has a pending change.
pub open spec fn is_first_pending_display(changes: Seq<ChangeView>, count: int, id: int) -> bool {
    &&& 0 <= id < count
    &&& id < changes.len()
    &&& !changes[id].is_quiet()
    &&& forall|other: int| 0 <= other < id ==> (#[trigger] changes[other]).is_quiet()
}

/// Whether a display has a pending change at a place of `changes` before
/// `count`.
pub open spec fn has_pending_display(changes: Seq<ChangeView>, count: int) -> bool {
    exists|id: int| is_first_pending_display(changes, count, id)
}

/// The first place of `changes` at which a display has a pending change.
pub open spec fn first_pending_display(changes: Seq<ChangeView>, count: int) -> int
    recommends
        has_pending_display(changes, count),
{
    choose|id: int| is_first_pending_display(changes, count, id)
}

/// There is one first pending display at most.
pub proof fn lemma_first_pending_display_unique(changes: Seq<ChangeView>, count: int, id: int)
    requires
        is_first_pending_display(changes, count, id),
    ensures
        has_pending_display(changes, count),
        first_pending_display(changes, count) == id,
{
    let chosen = first_pending_display(changes, count);
    assert(is_first_pending_display(changes, count, chosen));
    if chosen < id {
        assert(changes[chosen].is_quiet());
    }
    if id < chosen {
        assert(changes[id].is_quiet());
    }
}

/// The content of the pin cursor of an observer. An observer without a
/// cursor of its own drains the records of the store.
pub open spec fn pin_cursor_view(changes: Option<Vec<Change>>) -> Option<Seq<Change>> {
    match changes {
        Some(changes) => Some(changes@),
        None => None,
    }
}

/// The content of a sequence of display changes.
pub open spec fn display_changes_view(changes: Seq<DisplayChange>) -> Seq<ChangeView> {
    Seq::new(changes.len(), |id: int| changes[id]@)
}

/// The content of the display cursor of an observer.
pub open spec fn display_cursor_view(changes: Option<Vec<DisplayChange>>) -> Option<
    Seq<ChangeView>,
> {
    match changes {
        Some(changes) => Some(display_changes_view(changes@)),
        None => None,
    }
}

/// What draining one event leaves: the event, if there was one, the store,
/// and the two cursors of the observer.
pub struct Drained {
    pub event: Option<WebEventView>,
    pub store: StoreView,
    pub pins_changes: Option<Seq<Change>>,
    pub displays_changes: Option<Seq<ChangeView>>,
}

/// A pin that is new to an observer is presented with its metadata and its
/// present state, whatever change was merged into the record after the
/// pin was created: what is new comes before what is updated.
pub proof fn lemma_created_pin_comes_first(id: u8, pin: SharedPinView, later: Change)
    ensures
        pin_event(id, pin, Change::Created.merged(later)) == Some(
            WebEventView::PinUpdate(
                PinUpdateView { id, meta: Some(pin.meta), dropped: pin.dropped, value: pin.value },
            ),
        ),
{
}

/// A display that is new to an observer is presented with its metadata
/// first, whatever change was merged into the record after the display was
/// created, and whatever record the creation was merged into. Only then its
/// pixels follow: all of them.
pub proof fn lemma_created_display_comes_first(
    id: u8,
    display: SharedDisplayView,
    other: ChangeView,
)
    ensures
        display_event(id, display, ChangeView::Created.merged(other)) == Some(
            WebEventView::DisplayUpdate(
                DisplayUpdateView::MetaUpdate {
                    id,
                    meta: Some(display.meta),
                    dropped: display.dropped,
                },
            ),
        ),
        display_event(id, display, other.merged(ChangeView::Created)) == display_event(
            id,
            display,
            ChangeView::Created,
        ),
        ChangeView::Created.merged(other).consumed(display.meta.width, display.meta.height) == (
        ChangeView::Updated {
            rows: crate::dto::display::full_rows(display.meta.width, display.meta.height),
            dropped: false,
        }),
{
}

/// That a display was dropped is told before any of its pixels.
pub proof fn lemma_dropped_display_comes_first(
    id: u8,
    display: SharedDisplayView,
    rows: Map<int, (int, int)>,
)
    ensures
        display_event(id, display, ChangeView::Updated { rows, dropped: true }) == Some(
            WebEventView::DisplayUpdate(
                DisplayUpdateView::MetaUpdate { id, meta: None, dropped: display.dropped },
            ),
        ),
        (ChangeView::Updated { rows, dropped: true }).consumed(
            display.meta.width,
            display.meta.height,
        ) == (ChangeView::Updated { rows, dropped: false }),
{
}

impl StoreView {
    /// The records of the changes of the pins, by id.
    pub open spec fn pin_changes(self) -> Seq<Change> {
        Seq::new(self.pins.len(), |id: int| self.pins[id].change)
    }

    /// The records of the changes of the displays, by id.
    pub open spec fn display_changes(self) -> Seq<ChangeView> {
        Seq::new(self.displays.len(), |id: int| self.displays[id].change)
    }

    /// The changes that an observer drains: its own, or the store's.
    pub open spec fn pin_changes_for(self, cursor: Option<Seq<Change>>) -> Seq<Change> {
        match cursor {
            Some(changes) => changes,
            None => self.pin_changes(),
        }
    }

    /// The changes that an observer drains: its own, or the store's.
    pub open spec fn display_changes_for(self, cursor: Option<Seq<ChangeView>>) -> Seq<ChangeView> {
        match cursor {
            Some(changes) => changes,
            None => self.display_changes(),
        }
    }

    /// Every dirty span of these changes lies on the display that it is
    /// for.
    pub open spec fn fits_display_changes(self, changes: Seq<ChangeView>) -> bool {
        forall|id: int|
            0 <= id < changes.len() && id < self.displays.len() ==> (#[trigger] changes[id]).fits(
                self.displays[id].display.meta.width,
                self.displays[id].display.meta.height,
            )
    }

    /// Every dirty span of a display cursor, if the observer has one, lies
    /// on the display that it is for.
    pub open spec fn fits_displays(self, cursor: Option<Seq<ChangeView>>) -> bool {
        match cursor {
            Some(changes) => self.fits_display_changes(changes),
            None => true,
        }
    }

    /// The event that an observer of the pins drains next: that of the
    /// pending change with the least id, if there is one.
    pub open spec fn pin_event_for(self, cursor: Option<Seq<Change>>) -> Option<WebEventView> {
        let changes = self.pin_changes_for(cursor);
        let count = self.pins.len() as int;
        if has_pending_pin(changes, count) {
            let id = first_pending_pin(changes, count);
            pin_event(id as u8, self.pins[id].pin, changes[id])
        } else {
            None
        }
    }

    /// The changes that are left to the observer of the pins after it
    /// drained `pin_event_for`.
    pub open spec fn pin_changes_left(self, cursor: Option<Seq<Change>>) -> Seq<Change> {
        let changes = self.pin_changes_for(cursor);
        let count = self.pins.len() as int;
        if has_pending_pin(changes, count) {
            changes.update(first_pending_pin(changes, count), Change::Unchanged)
        } else {
            changes
        }
    }

    /// The event that an observer of the displays drains next: the next one
    /// of the pending change with the least id, if there is one.
    pub open spec fn display_event_for(self, cursor: Option<Seq<ChangeView>>) -> Option<
        WebEventView,
    > {
        let changes = self.display_changes_for(cursor);
        let count = self.displays.len() as int;
        if has_pending_display(changes, count) {
            let id = first_pending_display(changes, count);
            display_event(id as u8, self.displays[id].display, changes[id])
        } else {
            None
        }
    }

    /// The changes that are left to the observer of the displays after it
    /// drained `display_event_for`.
    pub open spec fn display_changes_left(self, cursor: Option<Seq<ChangeView>>) -> Seq<
        ChangeView,
    > {
        let changes = self.display_changes_for(cursor);
        let count = self.displays.len() as int;
        if has_pending_display(changes, count) {
            let id = first_pending_display(changes, count);
            changes.update(
                id,
                changes[id].consumed(
                    self.displays[id].display.meta.width,
                    self.displays[id].display.meta.height,
                ),
            )
        } else {
            changes
        }
    }

    /// The store with other records of the changes of its pins.
    pub open spec fn with_pin_changes(self, changes: Seq<Change>) -> StoreView {
        StoreView {
            pins: Seq::new(self.pins.len(), |id: int| self.pins[id].with_change(changes[id])),
            ..self
        }
    }

    /// The store with other records of the changes of its displays.
    pub open spec fn with_display_changes(self, changes: Seq<ChangeView>) -> StoreView {
        StoreView {
            displays: Seq::new(
                self.displays.len(),
                |id: int| self.displays[id].with_change(changes[id]),
            ),
            ..self
        }
    }

    /// The records of the store after an observer of the pins drained one
    /// event. The record of the pin that the event tells of is reset: by
    /// then the change is in the cursor of every session, and the first
    /// observer that drains it takes it from the store, whether it drains
    /// the store itself or a cursor of its own.
    pub open spec fn pin_records_left(self, cursor: Option<Seq<Change>>) -> Seq<Change> {
        let changes = self.pin_changes_for(cursor);
        let count = self.pins.len() as int;
        if has_pending_pin(changes, count) {
            self.pin_changes().update(first_pending_pin(changes, count), Change::Unchanged)
        } else {
            self.pin_changes()
        }
    }

    /// The records of the store after an observer of the displays drained
    /// one event. An observer that drains the store itself leaves in the
    /// record what the event did not carry; one that drains a cursor of its
    /// own resets the record of the display that the event tells of.
    pub open spec fn display_records_left(self, cursor: Option<Seq<ChangeView>>) -> Seq<
        ChangeView,
    > {
        let changes = self.display_changes_for(cursor);
        let count = self.displays.len() as int;
        if has_pending_display(changes, count) {
            let id = first_pending_display(changes, count);
            self.display_changes().update(
                id,
                match cursor {
                    Some(_) => ChangeView::quiet(),
                    None => changes[id].consumed(
                        self.displays[id].display.meta.width,
                        self.displays[id].display.meta.height,
                    ),
                },
            )
        } else {
            self.display_changes()
        }
    }

    /// What is left after the observer of the pins drained one event.
    pub open spec fn find_pin_change(self, cursor: Option<Seq<Change>>) -> Drained {
        Drained {
            event: self.pin_event_for(cursor),
            store: self.with_pin_changes(self.pin_records_left(cursor)),
            pins_changes: match cursor {
                Some(_) => Some(self.pin_changes_left(cursor)),
                None => None,
            },
            displays_changes: None,
        }
    }

    /// What is left after the observer of the displays drained one event.
    pub open spec fn find_display_change(self, cursor: Option<Seq<ChangeView>>) -> Drained {
        Drained {
            event: self.display_event_for(cursor),
            store: self.with_display_changes(self.display_records_left(cursor)),
            pins_changes: None,
            displays_changes: match cursor {
                Some(_) => Some(self.display_changes_left(cursor)),
                None => None,
            },
        }
    }

    /// What is left after an observer drained one event: one of a pin if a
    /// pin has a pending change, else one of a display.
    pub open spec fn fetch(
        self,
        pins_changes: Option<Seq<Change>>,
        displays_changes: Option<Seq<ChangeView>>,
    ) -> Drained {
        let pins = self.find_pin_change(pins_changes);
        if pins.event is Some {
            Drained { displays_changes, ..pins }
        } else {
            let displays = pins.store.find_display_change(displays_changes);
            Drained { pins_changes: pins.pins_changes, ..displays }
        }
    }
}


impl StoreView {
    /// Draining a pin leaves the displays as they are.
    pub proof fn lemma_find_pin_change_keeps_displays(
        self,
        pins_changes: Option<Seq<Change>>,
        displays_changes: Option<Seq<ChangeView>>,
    )
        requires
            self.fits_displays(displays_changes),
        ensures
            self.find_pin_change(pins_changes).store.displays == self.displays,
            self.find_pin_change(pins_changes).store.fits_displays(displays_changes),
    {
    }
}

/// The number of pins with a pending change at the places of `changes`
/// before `upto`.
pub open spec fn pending_pins(changes: Seq<Change>, upto: int) -> nat
    decreases upto,
{
    if upto <= 0 {
        0
    } else {
        pending_pins(changes, upto - 1) + if upto - 1 < changes.len() && changes[upto - 1]
            != Change::Unchanged {
            1nat
        } else {
            0nat
        }
    }
}

/// The number of events in which the changes of the displays at the places
/// of `changes` before `upto` are drained.
pub open spec fn pending_display_events(
    displays: Seq<DisplayStateView>,
    changes: Seq<ChangeView>,
    upto: int,
) -> nat
    decreases upto,
{
    if upto <= 0 {
        0
    } else {
        pending_display_events(displays, changes, upto - 1) + if upto - 1 < changes.len() && upto
            - 1 < displays.len() {
            changes[upto - 1].events(
                displays[upto - 1].display.meta.width,
                displays[upto - 1].display.meta.height,
            )
        } else {
            0nat
        }
    }
}

/// No pin is pending before `upto` if and only if none is counted there,
/// and one is pending there if and only if there is a first one.
pub proof fn lemma_pending_pins_none(changes: Seq<Change>, upto: int)
    ensures
        pending_pins(changes, upto) == 0 <==> forall|id: int|
            0 <= id < upto && id < changes.len() ==> #[trigger] changes[id] == Change::Unchanged,
        has_pending_pin(changes, upto) <==> pending_pins(changes, upto) > 0,
    decreases upto,
{
    if upto > 0 {
        lemma_pending_pins_none(changes, upto - 1);
        if pending_pins(changes, upto - 1) > 0 {
            let first = first_pending_pin(changes, upto - 1);
            assert(is_first_pending_pin(changes, upto - 1, first));
            assert(is_first_pending_pin(changes, upto, first));
        } else if upto - 1 < changes.len() && changes[upto - 1] != Change::Unchanged {
            assert(is_first_pending_pin(changes, upto, upto - 1));
        }
    }
    if has_pending_pin(changes, upto) {
        let first = first_pending_pin(changes, upto);
        assert(is_first_pending_pin(changes, upto, first));
    }
}

/// Draining the change of a pin leaves one pin less pending.
pub proof fn lemma_pending_pins_drained(changes: Seq<Change>, upto: int, id: int)
    requires
        0 <= id < changes.len(),
        changes[id] != Change::Unchanged,
    ensures
        pending_pins(changes.update(id, Change::Unchanged), upto) == if id < upto {
            pending_pins(changes, upto) - 1
        } else {
            pending_pins(changes, upto) as int
        },
    decreases upto,
{
    if upto > 0 {
        lemma_pending_pins_drained(changes, upto - 1, id);
    }
}

/// The pin cursor after that many pin events were drained from it, or as
/// many as were pending.
pub open spec fn after_pin_events(changes: Seq<Change>, count: int, events: nat) -> Seq<Change>
    decreases events,
{
    if events == 0 || !has_pending_pin(changes, count) {
        changes
    } else {
        after_pin_events(
            changes.update(first_pending_pin(changes, count), Change::Unchanged),
            count,
            (events - 1) as nat,
        )
    }
}

/// A pending change of a pin is drained in its turn: once the pending
/// changes of the pins with lesser ids are drained, one event each, it is
/// the next to be drained, and it is still what it was.
pub proof fn lemma_pending_pin_is_reached(changes: Seq<Change>, count: int, id: int)
    requires
        0 <= id < count,
        id < changes.len(),
        changes[id] != Change::Unchanged,
    ensures
        is_first_pending_pin(
            after_pin_events(changes, count, pending_pins(changes, id)),
            count,
            id,
        ),
        after_pin_events(changes, count, pending_pins(changes, id))[id] == changes[id],
    decreases pending_pins(changes, id),
{
    lemma_pending_pins_none(changes, id);
    if pending_pins(changes, id) > 0 {
        let first = first_pending_pin(changes, id);
        assert(is_first_pending_pin(changes, id, first));
        assert(is_first_pending_pin(changes, count, first));
        lemma_first_pending_pin_unique(changes, count, first);
        lemma_pending_pins_drained(changes, id, first);
        lemma_pending_pin_is_reached(changes.update(first, Change::Unchanged), count, id);
    } else {
        assert(is_first_pending_pin(changes, count, id));
    }
}

/// No display is pending before `upto` if and only if no event is counted
/// there, and one is pending there if and only if there is a first one.
pub proof fn lemma_pending_displays_none(
    displays: Seq<DisplayStateView>,
    changes: Seq<ChangeView>,
    upto: int,
)
    requires
        upto <= displays.len(),
        forall|id: int|
            0 <= id < changes.len() && id < displays.len() ==> (#[trigger] changes[id]).fits(
                displays[id].display.meta.width,
                displays[id].display.meta.height,
            ),
    ensures
        pending_display_events(displays, changes, upto) == 0 <==> forall|id: int|
            0 <= id < upto && id < changes.len() ==> (#[trigger] changes[id]).is_quiet(),
        has_pending_display(changes, upto) <==> pending_display_events(displays, changes, upto)
            > 0,
    decreases upto,
{
    if upto > 0 {
        lemma_pending_displays_none(displays, changes, upto - 1);
        if upto - 1 < changes.len() {
            changes[upto - 1].lemma_consumed_events(
                displays[upto - 1].display.meta.width,
                displays[upto - 1].display.meta.height,
            );
        }
        if pending_display_events(displays, changes, upto - 1) > 0 {
            let first = first_pending_display(changes, upto - 1);
            assert(is_first_pending_display(changes, upto - 1, first));
            assert(is_first_pending_display(changes, upto, first));
        } else if upto - 1 < changes.len() && !changes[upto - 1].is_quiet() {
            assert(is_first_pending_display(changes, upto, upto - 1));
        }
    }
    if has_pending_display(changes, upto) {
        let first = first_pending_display(changes, upto);
        assert(is_first_pending_display(changes, upto, first));
    }
}

/// Draining an event from the change of a display leaves one event less
/// to drain.
pub proof fn lemma_pending_displays_drained(
    displays: Seq<DisplayStateView>,
    changes: Seq<ChangeView>,
    upto: int,
    id: int,
)
    requires
        0 <= id < changes.len(),
        id < displays.len(),
        !changes[id].is_quiet(),
        changes[id].fits(displays[id].display.meta.width, displays[id].display.meta.height),
    ensures
        pending_display_events(
            displays,
            changes.update(
                id,
                changes[id].consumed(
                    displays[id].display.meta.width,
                    displays[id].display.meta.height,
                ),
            ),
            upto,
        ) == if id < upto {
            pending_display_events(displays, changes, upto) - 1
        } else {
            pending_display_events(displays, changes, upto) as int
        },
    decreases upto,
{
    if upto > 0 {
        lemma_pending_displays_drained(displays, changes, upto - 1, id);
        changes[id].lemma_consumed_events(
            displays[id].display.meta.width,
            displays[id].display.meta.height,
        );
    }
}

impl StoreView {
    /// The number of events that an observer has to drain until nothing is
    /// pending: one for each pin with a pending change, and for each
    /// display the events in which its change is drained.
    pub open spec fn pending_events(
        self,
        pins_changes: Option<Seq<Change>>,
        displays_changes: Option<Seq<ChangeView>>,
    ) -> nat {
        pending_pins(self.pin_changes_for(pins_changes), self.pins.len() as int)
            + pending_display_events(
            self.displays,
            self.display_changes_for(displays_changes),
            self.displays.len() as int,
        )
    }

    /// Draining comes to an end, and tells all that is pending: an observer
    /// drains an event if and only if the number of pending events is not
    /// zero, and each event that it drains leaves one event less pending.
    /// When nothing is pending, draining changes nothing.
    pub proof fn lemma_fetch_counts_down(
        self,
        pins_changes: Option<Seq<Change>>,
        displays_changes: Option<Seq<ChangeView>>,
    )
        requires
            self.wf(),
            self.fits_displays(displays_changes),
        ensures
            self.fetch(pins_changes, displays_changes).event is Some <==> self.pending_events(
                pins_changes,
                displays_changes,
            ) > 0,
            self.fetch(pins_changes, displays_changes).event is Some ==> self.fetch(
                pins_changes,
                displays_changes,
            ).store.pending_events(
                self.fetch(pins_changes, displays_changes).pins_changes,
                self.fetch(pins_changes, displays_changes).displays_changes,
            ) == self.pending_events(pins_changes, displays_changes) - 1,
            self.fetch(pins_changes, displays_changes).event is None ==> self.fetch(
                pins_changes,
                displays_changes,
            ) == (Drained { event: None, store: self, pins_changes, displays_changes }),
    {
        let pins = self.pin_changes_for(pins_changes);
        let displays = self.display_changes_for(displays_changes);
        let pin_count = self.pins.len() as int;
        let display_count = self.displays.len() as int;
        let drained = self.fetch(pins_changes, displays_changes);
        lemma_pending_pins_none(pins, pin_count);
        assert(self.fits_display_changes(displays)) by {
            assert forall|id: int| 0 <= id < self.displays.len() implies (
            #[trigger] self.displays[id]).wf() by {}
        }
        lemma_pending_displays_none(self.displays, displays, display_count);
        if has_pending_pin(pins, pin_count) {
            let id = first_pending_pin(pins, pin_count);
            assert(is_first_pending_pin(pins, pin_count, id));
            lemma_pending_pins_drained(pins, pin_count, id);
            let left = pins.update(id, Change::Unchanged);
            assert(drained.store.pin_changes_for(drained.pins_changes) =~= left);
            assert(drained.store.displays =~= self.displays);
            assert(drained.store.display_changes_for(drained.displays_changes) =~= displays);
        } else {
            let between = self.find_pin_change(pins_changes).store;
            assert(between.pins =~= self.pins);
            assert(between == self);
            if has_pending_display(displays, display_count) {
                let id = first_pending_display(displays, display_count);
                assert(is_first_pending_display(displays, display_count, id));
                lemma_pending_displays_drained(self.displays, displays, display_count, id);
                let left = displays.update(
                    id,
                    displays[id].consumed(
                        self.displays[id].display.meta.width,
                        self.displays[id].display.meta.height,
                    ),
                );
                assert(drained.store.display_changes_for(drained.displays_changes) =~= left);
                assert(drained.store.pin_changes_for(drained.pins_changes) =~= pins);
                assert(drained.store.displays.len() == self.displays.len());
                lemma_same_sizes_same_events(
                    self.displays,
                    drained.store.displays,
                    left,
                    display_count,
                );
            } else {
                assert(drained.store.displays =~= self.displays);
            }
        }
    }
}

/// The number of events of the displays depends on their sizes alone.
pub proof fn lemma_same_sizes_same_events(
    displays: Seq<DisplayStateView>,
    others: Seq<DisplayStateView>,
    changes: Seq<ChangeView>,
    upto: int,
)
    requires
        displays.len() == others.len(),
        forall|id: int|
            0 <= id < displays.len() ==> (#[trigger] displays[id]).display.meta
                == others[id].display.meta,
    ensures
        pending_display_events(displays, changes, upto) == pending_display_events(
            others,
            changes,
            upto,
        ),
    decreases upto,
{
    if upto > 0 {
        lemma_same_sizes_same_events(displays, others, changes, upto - 1);
        if upto - 1 < displays.len() {
            assert(displays[upto - 1].display.meta == others[upto - 1].display.meta);
        }
    }
}

} // verus!
