//! The session of one remote viewer: its own cursors into the changes of
//! the store, and the two steps that its transport alternates with.

use vstd::prelude::*;

pub use crate::dto::web::{WebEvent, WebRequest};

use crate::drain::{
    display_changes_view, display_event, event_view, first_pending_display, first_pending_pin,
    has_pending_display, has_pending_pin, is_first_pending_display, is_first_pending_pin,
    lemma_first_pending_display_unique, lemma_first_pending_pin_unique, pin_event, Drained,
};
use crate::dto::display::{
    first_row, is_first_row, lemma_first_row_exists, merged_rows, Change as DisplayChange,
    ChangeView,
};
use crate::dto::web::{DisplayUpdateView, PinUpdateView, WebEventView};
use crate::gpio::Change as PinChange;
use crate::notification::Notifier;
use crate::peripherals::{PeripheralStore, Peripherals, StoreView};

verus! {

/// The changes of the pins that one viewer has not been told yet, by id.
pub type HandlerPinChanges = Vec<PinChange>;

/// The changes of the displays that one viewer has not been told yet, by
/// id.
pub type HandlerDisplayChanges = Vec<DisplayChange>;

/// Raises the signal of the store, as every change of a peripheral does:
/// the next round of the broadcast merges the records of the store into
/// the cursors of the sessions and wakes them.
pub fn peripherals_callback(store: &mut PeripheralStore)
    ensures
        final(store)@ == (StoreView { notified: true, ..old(store)@ }),
{
    store.notify();
}

/// The pin cursor of a session after the records of the store were merged
/// into it. The cursor grows, by places where nothing is pending, until it
/// has a place for each pin of the store; then the record of each pin is
/// merged into its place: what is pending as created stays so, any other
/// place takes on the record.
pub open spec fn merged_pin_cursor(cursor: Seq<PinChange>, changes: Seq<PinChange>) -> Seq<
    PinChange,
> {
    Seq::new(
        if cursor.len() >= changes.len() {
            cursor.len()
        } else {
            changes.len()
        },
        |id: int|
            if id < changes.len() {
                (if id < cursor.len() {
                    cursor[id]
                } else {
                    PinChange::Unchanged
                }).merged(changes[id])
            } else {
                cursor[id]
            },
    )
}

/// The display cursor of a session after the records of the store were
/// merged into it. The cursor grows, by places where nothing is pending,
/// until it has a place for each display of the store; then the record of
/// each display is merged into its place.
pub open spec fn merged_display_cursor(cursor: Seq<ChangeView>, changes: Seq<ChangeView>) -> Seq<
    ChangeView,
> {
    Seq::new(
        if cursor.len() >= changes.len() {
            cursor.len()
        } else {
            changes.len()
        },
        |id: int|
            if id < changes.len() {
                (if id < cursor.len() {
                    cursor[id]
                } else {
                    ChangeView::quiet()
                }).merged(changes[id])
            } else {
                cursor[id]
            },
    )
}

/// The session of one viewer.
///
/// The cursors are the session's own: nothing that another session drains
/// changes them.
pub struct Session {
    pins_changes: HandlerPinChanges,
    displays_changes: HandlerDisplayChanges,
    notification: Notifier,
}

/// The mathematical content of a `Session`.
pub struct SessionView {
    pub pins_changes: Seq<PinChange>,
    pub displays_changes: Seq<ChangeView>,
    /// Whether the session was woken, or is in the middle of draining its
    /// cursors.
    pub notified: bool,
}

impl SessionView {
    /// The session of a viewer that has just connected to `store`: every
    /// pin and every display that the store holds is new to it, and it is
    /// awake to be told of them.
    pub open spec fn present(store: StoreView) -> SessionView {
        SessionView {
            pins_changes: Seq::new(store.pins.len(), |id: int| PinChange::Created),
            displays_changes: Seq::new(store.displays.len(), |id: int| ChangeView::Created),
            notified: true,
        }
    }

    /// Every dirty span of the display cursor lies on the display of
    /// `store` that it is for.
    pub open spec fn fits(self, store: StoreView) -> bool {
        store.fits_display_changes(self.displays_changes)
    }

    /// What draining one event from the cursors of the session leaves.
    pub open spec fn fetch(self, store: StoreView) -> Drained {
        store.fetch(Some(self.pins_changes), Some(self.displays_changes))
    }

    /// The event that one step of the drain loop hands to the transport.
    pub open spec fn sent(self, store: StoreView) -> Option<WebEventView> {
        if self.notified {
            self.fetch(store).event
        } else {
            None
        }
    }

    /// The session after one step of its drain loop. A session whose signal
    /// is not raised does nothing. Else it drains one event; its signal
    /// stays raised for as long as it drains an event.
    pub open spec fn send_state(self, store: StoreView) -> SessionView {
        if self.notified {
            SessionView {
                pins_changes: self.fetch(store).pins_changes->0,
                displays_changes: self.fetch(store).displays_changes->0,
                notified: self.fetch(store).event is Some,
            }
        } else {
            self
        }
    }

    /// The store after one step of the drain loop of the session: the
    /// record of what the session was told of is reset.
    pub open spec fn drained(self, store: StoreView) -> StoreView {
        if self.notified {
            self.fetch(store).store
        } else {
            store
        }
    }

    /// The number of events that the session has to drain until nothing is
    /// pending in its cursors.
    pub open spec fn pending_events(self, store: StoreView) -> nat {
        store.pending_events(Some(self.pins_changes), Some(self.displays_changes))
    }

    /// The session after a round of the broadcast merged the records of
    /// `store` into its cursors and woke it.
    pub open spec fn merged(self, store: StoreView) -> SessionView {
        SessionView {
            pins_changes: merged_pin_cursor(self.pins_changes, store.pin_changes()),
            displays_changes: merged_display_cursor(self.displays_changes, store.display_changes()),
            notified: true,
        }
    }

    /// The event that the session drains for the pin `id` once the pins
    /// with lesser ids are drained.
    pub open spec fn told_of_pin(self, store: StoreView, id: int) -> Option<WebEventView> {
        pin_event(id as u8, store.pins[id].pin, self.pins_changes[id])
    }

    /// The next event that the session drains for the display `id` once
    /// the pins, and the displays with lesser ids, are drained.
    pub open spec fn told_of_display(self, store: StoreView, id: int) -> Option<WebEventView> {
        display_event(id as u8, store.displays[id].display, self.displays_changes[id])
    }

    /// A session that was woken drains all that is pending, and then waits:
    /// each step of its drain loop hands out an event and leaves one event
    /// less pending, for as long as an event is pending; the step that
    /// finds nothing pending hands out nothing, clears the signal, and
    /// leaves the store as it is.
    pub proof fn lemma_send_state_counts_down(self, store: StoreView)
        requires
            store.wf(),
            self.fits(store),
            self.notified,
        ensures
            self.sent(store) is Some <==> self.pending_events(store) > 0,
            self.send_state(store).notified <==> self.pending_events(store) > 0,
            self.pending_events(store) > 0 ==> self.send_state(store).pending_events(
                self.drained(store),
            ) == self.pending_events(store) - 1,
            self.pending_events(store) == 0 ==> self.send_state(store) == (SessionView {
                notified: false,
                ..self
            }) && self.drained(store) == store,
    {
        store.lemma_fetch_counts_down(Some(self.pins_changes), Some(self.displays_changes));
    }

    /// Merging the records of a store into a session that fits the store
    /// gives one that fits it.
    pub proof fn lemma_merged_fits(self, store: StoreView)
        requires
            store.wf(),
            self.fits(store),
        ensures
            self.merged(store).fits(store),
    {
        let merged = self.merged(store).displays_changes;
        assert forall|id: int| 0 <= id < merged.len() && id < store.displays.len() implies (
        #[trigger] merged[id]).fits(
            store.displays[id].display.meta.width,
            store.displays[id].display.meta.height,
        ) by {
            assert(store.displays[id].wf());
            let own = if id < self.displays_changes.len() {
                self.displays_changes[id]
            } else {
                ChangeView::quiet()
            };
            if id < self.displays_changes.len() {
                assert(self.displays_changes[id].fits(
                    store.displays[id].display.meta.width,
                    store.displays[id].display.meta.height,
                ));
            }
            own.lemma_merged_fits(
                store.display_changes()[id],
                store.displays[id].display.meta.width,
                store.displays[id].display.meta.height,
            );
        }
    }
}

/// A place of a pin cursor where `Created` is pending keeps it through a
/// round of the broadcast; any other place of a pin that the store holds
/// takes on the record of the store, whatever was pending there.
pub proof fn lemma_merged_pin_takes_on(cursor: Seq<PinChange>, changes: Seq<PinChange>, id: int)
    requires
        0 <= id < changes.len(),
    ensures
        merged_pin_cursor(cursor, changes)[id] == if id < cursor.len() && cursor[id]
            == PinChange::Created {
            PinChange::Created
        } else {
            changes[id]
        },
{
}

/// What is pending in the pin cursor of a session stays pending through a
/// round of the broadcast where it is pending as created, or where the
/// store still records a change of the pin: where no other observer has
/// drained that change from its own cursor, or the pin has changed again.
pub proof fn lemma_pending_pin_stays(cursor: Seq<PinChange>, changes: Seq<PinChange>, id: int)
    requires
        0 <= id < cursor.len(),
        cursor[id] != PinChange::Unchanged,
        cursor[id] == PinChange::Created || id >= changes.len() || changes[id]
            != PinChange::Unchanged,
    ensures
        merged_pin_cursor(cursor, changes)[id] != PinChange::Unchanged,
        cursor[id] == PinChange::Created ==> merged_pin_cursor(cursor, changes)[id]
            == PinChange::Created,
{
}

/// What is pending in the display cursor of a session stays pending,
/// whatever a broadcast merges into it.
pub proof fn lemma_pending_display_stays(
    cursor: Seq<ChangeView>,
    changes: Seq<ChangeView>,
    id: int,
)
    requires
        0 <= id < cursor.len(),
        !cursor[id].is_quiet(),
        cursor[id].wf(),
        id < changes.len() ==> changes[id].wf(),
    ensures
        !merged_display_cursor(cursor, changes)[id].is_quiet(),
{
    if id < changes.len() {
        match (cursor[id], changes[id]) {
            (
                ChangeView::Updated { rows, dropped },
                ChangeView::Updated { rows: other_rows, dropped: other_dropped },
            ) => {
                if !dropped {
                    let row = first_row(rows);
                    assert(is_first_row(rows, row));
                    let all = merged_rows(rows, other_rows);
                    assert(all.dom().contains(row));
                    assert forall|other: int| #[trigger] all.dom().contains(other) implies 0
                        <= other by {
                        if rows.dom().contains(other) {
                        }
                        if other_rows.dom().contains(other) {
                        }
                    }
                    lemma_first_row_exists(all, row);
                }
            },
            _ => {},
        }
    }
}

/// A session that has drained the change of a pin is not told of the pin
/// again until the store records another change of it.
pub proof fn lemma_drained_pin_stays(cursor: Seq<PinChange>, changes: Seq<PinChange>, id: int)
    requires
        0 <= id < cursor.len(),
        cursor[id] == PinChange::Unchanged,
        id < changes.len() ==> changes[id] == PinChange::Unchanged,
    ensures
        merged_pin_cursor(cursor, changes)[id] == PinChange::Unchanged,
{
}

/// After a pin was dropped, the next round of the broadcast leaves a
/// pending change of that pin in the cursor of every session, whatever the
/// cursor held, and wakes the session. The event that the session drains
/// for it says that the pin was dropped.
pub proof fn lemma_dropped_pin_reaches(store: StoreView, session: SessionView, id: int)
    requires
        store.has_pin(id),
    ensures
        session.merged(store.drop_pin(id)).notified,
        session.merged(store.drop_pin(id)).pins_changes.len() > id,
        session.merged(store.drop_pin(id)).pins_changes[id] != PinChange::Unchanged,
        session.merged(store.drop_pin(id)).told_of_pin(store.drop_pin(id), id) == Some(
            WebEventView::PinUpdate(
                PinUpdateView {
                    id: id as u8,
                    meta: if session.merged(store.drop_pin(id)).pins_changes[id]
                        == PinChange::Created {
                        Some(store.pins[id].pin.meta)
                    } else {
                        None
                    },
                    dropped: true,
                    value: store.pins[id].pin.value,
                },
            ),
        ),
{
}

/// After a display was dropped, the next round of the broadcast leaves a
/// pending change of that display in the cursor of every session, whatever
/// the cursor held, and wakes the session. The first event that the
/// session drains for it says that the display was dropped.
pub proof fn lemma_dropped_display_reaches(store: StoreView, session: SessionView, id: int)
    requires
        store.has_display(id),
    ensures
        session.merged(store.drop_display(id)).notified,
        session.merged(store.drop_display(id)).displays_changes.len() > id,
        !session.merged(store.drop_display(id)).displays_changes[id].is_quiet(),
        session.merged(store.drop_display(id)).told_of_display(store.drop_display(id), id)
            == Some(
            WebEventView::DisplayUpdate(
                DisplayUpdateView::MetaUpdate {
                    id: id as u8,
                    meta: if session.merged(store.drop_display(id)).displays_changes[id]
                        is Created {
                        Some(store.displays[id].display.meta)
                    } else {
                        None
                    },
                    dropped: true,
                },
            ),
        ),
{
}

/// What a session drains leaves the pins and the displays of the store as
/// they are, but for the records of their changes. So whatever another
/// session drains afterwards, and whatever that leaves in its cursors, is
/// what it would have been had the first session drained nothing.
pub proof fn lemma_drain_keeps_others(store: StoreView, one: SessionView, other: SessionView)
    ensures
        one.fetch(store).store.pins.len() == store.pins.len(),
        one.fetch(store).store.displays.len() == store.displays.len(),
        forall|id: int|
            0 <= id < store.pins.len() ==> (#[trigger] one.fetch(store).store.pins[id]).pin
                == store.pins[id].pin,
        forall|id: int|
            0 <= id < store.displays.len() ==> (#[trigger] one.fetch(
                store,
            ).store.displays[id]).display == store.displays[id].display,
        other.sent(one.fetch(store).store) == other.sent(store),
        other.send_state(one.fetch(store).store) == other.send_state(store),
{
    let pins = store.find_pin_change(Some(one.pins_changes));
    let after = one.fetch(store).store;
    assert(pins.store.displays == store.displays);
    assert(after.pins.len() == store.pins.len());
    assert(after.displays.len() == store.displays.len());
    assert forall|id: int| 0 <= id < store.pins.len() implies (#[trigger] after.pins[id]).pin
        == store.pins[id].pin by {}
    assert forall|id: int| 0 <= id < store.displays.len() implies (
    #[trigger] after.displays[id]).display == store.displays[id].display by {}
    lemma_cursor_drain_reads_values(store, after, other);
}

/// What a session drains from its cursors depends on the store by the
/// pins and the displays alone, not by the records of their changes.
pub proof fn lemma_cursor_drain_reads_values(
    store: StoreView,
    other_store: StoreView,
    session: SessionView,
)
    requires
        store.pins.len() == other_store.pins.len(),
        store.displays.len() == other_store.displays.len(),
        forall|id: int|
            0 <= id < store.pins.len() ==> (#[trigger] other_store.pins[id]).pin
                == store.pins[id].pin,
        forall|id: int|
            0 <= id < store.displays.len() ==> (#[trigger] other_store.displays[id]).display
                == store.displays[id].display,
    ensures
        session.sent(other_store) == session.sent(store),
        session.send_state(other_store) == session.send_state(store),
{
    let pins = Some(session.pins_changes);
    let displays = Some(session.displays_changes);
    let count = store.pins.len() as int;
    if has_pending_pin(session.pins_changes, count) {
        let id = first_pending_pin(session.pins_changes, count);
        assert(is_first_pending_pin(session.pins_changes, count, id));
        assert(other_store.pins[id].pin == store.pins[id].pin);
    } else {
        let between = store.find_pin_change(pins).store;
        let other_between = other_store.find_pin_change(pins).store;
        assert(between.displays == store.displays);
        assert(other_between.displays == other_store.displays);
        let display_count = store.displays.len() as int;
        if has_pending_display(session.displays_changes, display_count) {
            let id = first_pending_display(session.displays_changes, display_count);
            assert(is_first_pending_display(session.displays_changes, display_count, id));
            assert(other_store.displays[id].display == store.displays[id].display);
        }
    }
}

/// The round of the broadcast that follows a change of a pin leaves every
/// session with a pending change of that pin, and the event that a session
/// drains for it tells the state that the pin has. Two sessions are told
/// the same, but for the metadata, which the session gets to which the pin
/// is new.
pub proof fn lemma_sessions_told_alike(store: StoreView, session: SessionView, id: int)
    requires
        store.has_pin(id),
        store.pins[id].change != PinChange::Unchanged,
    ensures
        session.merged(store).pins_changes[id] != PinChange::Unchanged,
        session.merged(store).told_of_pin(store, id) == Some(
            WebEventView::PinUpdate(
                PinUpdateView {
                    id: id as u8,
                    meta: if session.merged(store).pins_changes[id] == PinChange::Created {
                        Some(store.pins[id].pin.meta)
                    } else {
                        None
                    },
                    dropped: store.pins[id].pin.dropped,
                    value: store.pins[id].pin.value,
                },
            ),
        ),
{
}

/// A session that is made for a store is told of every pin that the store
/// holds, with the metadata and the state that the pin has then, whatever
/// the store records of the pin.
pub proof fn lemma_late_session_is_told_all(store: StoreView, id: int)
    requires
        store.has_pin(id),
    ensures
        SessionView::present(store).notified,
        SessionView::present(store).told_of_pin(store, id) == Some(
            WebEventView::PinUpdate(
                PinUpdateView {
                    id: id as u8,
                    meta: Some(store.pins[id].pin.meta),
                    dropped: store.pins[id].pin.dropped,
                    value: store.pins[id].pin.value,
                },
            ),
        ),
        SessionView::present(store).merged(store).pins_changes[id] == PinChange::Created,
{
}

impl View for Session {
    type V = SessionView;

    closed spec fn view(&self) -> SessionView {
        SessionView {
            pins_changes: self.pins_changes@,
            displays_changes: display_changes_view(self.displays_changes@),
            notified: self.notification@,
        }
    }
}

impl Session {
    /// The session of a viewer that has just connected to `store`. Every
    /// pin and every display that the store holds is new to it, so that it
    /// is told the present state of each, with its metadata; and it is made
    /// awake, to be told at once.
    pub fn new(store: &PeripheralStore) -> (session: Self)
        ensures
            session@ == SessionView::present(store@),
            session@.fits(store@),
    {
        let mut pins_changes: Vec<PinChange> = Vec::new();
        let pin_count = store.pin_count();
        while pins_changes.len() < pin_count
            invariant
                pins_changes@.len() <= pin_count,
                forall|id: int|
                    0 <= id < pins_changes@.len() ==> #[trigger] pins_changes@[id]
                        == PinChange::Created,
            decreases pin_count - pins_changes@.len(),
        {
            pins_changes.push(PinChange::Created);
        }
        let mut displays_changes: Vec<DisplayChange> = Vec::new();
        let display_count = store.display_count();
        while displays_changes.len() < display_count
            invariant
                displays_changes@.len() <= display_count,
                forall|id: int|
                    0 <= id < displays_changes@.len() ==> (#[trigger] displays_changes@[id])@
                        == ChangeView::Created,
            decreases display_count - displays_changes@.len(),
        {
            displays_changes.push(DisplayChange::Created);
        }
        let mut notification = Notifier::new();
        notification.notify();
        let session = Session { pins_changes, displays_changes, notification };
        assert(session@.pins_changes =~= SessionView::present(store@).pins_changes);
        assert(session@.displays_changes =~= SessionView::present(store@).displays_changes);
        session
    }

    /// The signal that wakes the session.
    pub fn notification(&self) -> (notification: &Notifier)
        ensures
            notification@ == self@.notified,
    {
        &self.notification
    }

    /// The number of pins that the session knows of.
    pub fn known_pins(&self) -> (count: usize)
        ensures
            count == self@.pins_changes.len(),
    {
        self.pins_changes.len()
    }

    /// The number of displays that the session knows of.
    pub fn known_displays(&self) -> (count: usize)
        ensures
            count == self@.displays_changes.len(),
    {
        self.displays_changes.len()
    }

    /// Whether every dirty span of the display cursor lies on the display
    /// of `store` that it is for. It does for as long as the session is
    /// used with one store.
    pub fn fits(&self, store: &PeripheralStore) -> (fits: bool)
        ensures
            fits == self@.fits(store@),
    {
        store.fits_changes(&self.displays_changes)
    }

    /// Merges the records of `store` into the cursors of the session, and
    /// raises the signal of the session.
    pub(crate) fn merge(&mut self, store: &PeripheralStore)
        requires
            store@.wf(),
            old(self)@.fits(store@),
        ensures
            final(self)@ == old(self)@.merged(store@),
            final(self)@.fits(store@),
    {
        let ghost before = self@;
        let ghost target = before.merged(store@);
        let pin_count = store.pin_count();
        let mut id: usize = 0;
        while id < pin_count
            invariant
                id <= pin_count,
                pin_count == store@.pins.len(),
                store@.wf(),
                target == before.merged(store@),
                self.pins_changes@.len() == if before.pins_changes.len() >= id {
                    before.pins_changes.len()
                } else {
                    id as nat
                },
                forall|done: int|
                    0 <= done < id ==> #[trigger] self.pins_changes@[done]
                        == target.pins_changes[done],
                forall|left: int|
                    id <= left < self.pins_changes@.len() ==> #[trigger] self.pins_changes@[left]
                        == before.pins_changes[left],
                self.displays_changes == old(self).displays_changes,
            decreases pin_count - id,
        {
            let change = *store.pin_state(id).change();
            if id < self.pins_changes.len() {
                self.pins_changes[id].update(&change);
            } else {
                self.pins_changes.push(change);
            }
            id += 1;
        }
        assert(self.pins_changes@ =~= target.pins_changes);
        let display_count = store.display_count();
        let mut id: usize = 0;
        while id < display_count
            invariant
                id <= display_count,
                display_count == store@.displays.len(),
                store@.wf(),
                target == before.merged(store@),
                before.displays_changes == display_changes_view(old(self).displays_changes@),
                self.displays_changes@.len() == if before.displays_changes.len() >= id {
                    before.displays_changes.len()
                } else {
                    id as nat
                },
                forall|done: int|
                    0 <= done < id ==> (#[trigger] self.displays_changes@[done])@
                        == target.displays_changes[done],
                forall|left: int|
                    id <= left < self.displays_changes@.len() ==> (
                    #[trigger] self.displays_changes@[left])@ == before.displays_changes[left],
                self.pins_changes@ == target.pins_changes,
            decreases display_count - id,
        {
            if id < self.displays_changes.len() {
                self.displays_changes[id].update(store.display_state(id).change());
            } else {
                let mut fresh = DisplayChange::new();
                fresh.update(store.display_state(id).change());
                self.displays_changes.push(fresh);
            }
            id += 1;
        }
        assert(display_changes_view(self.displays_changes@) =~= target.displays_changes);
        self.notification.notify();
        proof {
            before.lemma_merged_fits(store@);
        }
    }

    /// One step of the drain loop: the next event for the transport to
    /// send, or `None` where the session has to wait for its signal.
    ///
    /// A session that was woken drains one event after the other, pins
    /// before displays and lesser ids first, until nothing is pending; then
    /// it waits again. Of the store it changes the record of what it was
    /// told of, which it resets, and nothing else; the cursors of other
    /// sessions are out of its reach.
    pub fn send_state(&mut self, store: &mut PeripheralStore) -> (event: Option<WebEvent>)
        requires
            old(store)@.wf(),
            old(self)@.fits(old(store)@),
        ensures
            event_view(event) == old(self)@.sent(old(store)@),
            final(self)@ == old(self)@.send_state(old(store)@),
            final(store)@ == old(self)@.drained(old(store)@),
            final(store)@.wf(),
            final(self)@.fits(final(store)@),
    {
        if self.notification.poll_wait() {
            let pin_event = find_pin_change(store, &mut self.pins_changes);
            let event = if pin_event.is_some() {
                pin_event
            } else {
                find_display_change(store, &mut self.displays_changes)
            };
            if event.is_some() {
                self.notification.hold();
            }
            event
        } else {
            None
        }
    }
}

/// Drains the pending change of the pin with the least id from the cursor
/// of a viewer, and resets the record that the store keeps of that pin.
/// The cursor is looked at as far as the store has pins.
pub fn find_pin_change(store: &mut PeripheralStore, changes: &mut HandlerPinChanges) -> (event:
    Option<WebEvent>)
    requires
        old(store)@.wf(),
    ensures
        (Drained {
            event: event_view(event),
            store: final(store)@,
            pins_changes: Some(final(changes)@),
            displays_changes: None,
        }) == old(store)@.find_pin_change(Some(old(changes)@)),
        final(store)@.wf(),
        final(store)@.displays == old(store)@.displays,
        event is None ==> final(store)@ == old(store)@,
{
    let ghost pending = changes@;
    let ghost before = store@;
    let count = store.pin_count();
    let mut id: usize = 0;
    while id < count && id < changes.len()
        invariant
            id <= count,
            count == store@.pins.len(),
            store@ == before,
            before == old(store)@,
            before.wf(),
            changes@ == pending,
            pending == old(changes)@,
            forall|other: int| 0 <= other < id ==> #[trigger] pending[other] == PinChange::Unchanged,
        decreases count - id,
    {
        if changes[id] != PinChange::Unchanged {
            proof {
                lemma_first_pending_pin_unique(pending, count as int, id as int);
            }
            let event = Peripherals::consume_pin_change(
                id as u8,
                store.pin_state(id).pin(),
                &mut changes[id],
            );
            store.reset_pin_change(id);
            assert(changes@ =~= pending.update(id as int, PinChange::Unchanged));
            assert(store@.displays =~= before.displays);
            return event;
        }
        id += 1;
    }
    proof {
        if has_pending_pin(pending, count as int) {
            let found = first_pending_pin(pending, count as int);
            assert(is_first_pending_pin(pending, count as int, found));
        }
        let after = before.with_pin_changes(before.pin_changes());
        assert(after.pins =~= before.pins);
    }
    None
}

/// Drains one event from the pending change of the display with the least
/// id, from the cursor of a viewer, and resets the record that the store
/// keeps of that display. The cursor is looked at as far as the store has
/// displays.
pub fn find_display_change(
    store: &mut PeripheralStore,
    changes: &mut HandlerDisplayChanges,
) -> (event: Option<WebEvent>)
    requires
        old(store)@.wf(),
        old(store)@.fits_display_changes(display_changes_view(old(changes)@)),
    ensures
        (Drained {
            event: event_view(event),
            store: final(store)@,
            pins_changes: None,
            displays_changes: Some(display_changes_view(final(changes)@)),
        }) == old(store)@.find_display_change(Some(display_changes_view(old(changes)@))),
        final(store)@.wf(),
        final(store)@.fits_display_changes(display_changes_view(final(changes)@)),
        final(store)@.pins == old(store)@.pins,
        event is None ==> final(store)@ == old(store)@,
{
    let ghost pending = display_changes_view(changes@);
    let ghost before = store@;
    let count = store.display_count();
    let mut id: usize = 0;
    while id < count && id < changes.len()
        invariant
            id <= count,
            count == store@.displays.len(),
            store@ == before,
            before == old(store)@,
            before.wf(),
            before.fits_display_changes(pending),
            display_changes_view(changes@) == pending,
            pending == display_changes_view(old(changes)@),
            forall|other: int| 0 <= other < id ==> (#[trigger] pending[other]).is_quiet(),
        decreases count - id,
    {
        assert(pending[id as int] == changes@[id as int]@);
        if changes[id].is_pending() {
            proof {
                lemma_first_pending_display_unique(pending, count as int, id as int);
                assert(before.displays[id as int].wf());
            }
            let event = Peripherals::consume_display_change(
                id as u8,
                store.display_state(id).display(),
                &mut changes[id],
            );
            store.reset_display_change(id);
            proof {
                let meta = before.displays[id as int].display.meta;
                let left = pending[id as int].consumed(meta.width, meta.height);
                pending[id as int].lemma_consumed_fits(meta.width, meta.height);
                assert(display_changes_view(changes@) =~= pending.update(id as int, left));
                assert(store@.pins =~= before.pins);
                assert forall|other: int|
                    0 <= other < display_changes_view(changes@).len() && other
                        < store@.displays.len() implies (#[trigger] display_changes_view(
                    changes@,
                )[other]).fits(
                    store@.displays[other].display.meta.width,
                    store@.displays[other].display.meta.height,
                ) by {
                    assert(store@.displays[other].display == before.displays[other].display);
                    if other != id {
                        assert(pending[other].fits(
                            before.displays[other].display.meta.width,
                            before.displays[other].display.meta.height,
                        ));
                    }
                }
            }
            return event;
        }
        id += 1;
    }
    proof {
        if has_pending_display(pending, count as int) {
            let found = first_pending_display(pending, count as int);
            assert(is_first_pending_display(pending, count as int, found));
        }
        let after = before.with_display_changes(before.display_changes());
        assert(after.displays =~= before.displays);
    }
    None
}

/// One step of the receive loop: applies what the transport received, if
/// it received a request. Returns whether the input of a pin changed.
pub fn receive(store: &mut PeripheralStore, received: Option<WebRequest>) -> (changed: bool)
    requires
        old(store)@.wf(),
        received matches Some(request) ==> old(store)@.accepts(request),
    ensures
        final(store)@.wf(),
        match received {
            Some(request) => {
                &&& final(store)@ == old(store)@.apply(request)
                &&& changed == old(store)@.changed_by(request)
            },
            None => final(store)@ == old(store)@ && !changed,
        },
{
    match received {
        Some(request) => Peripherals::apply(store, request),
        None => false,
    }
}

} // verus!
