//! The store of all pins and displays, and what is drained from it.

use vstd::prelude::*;

use crate::adc::Adc;
use crate::display::{
    lemma_offset_in_buffer, DisplayState, DisplayStateView, Displays, Pixel, SharedDisplay,
    SharedDisplayView,
};
use crate::drain::{
    display_changes_view, display_cursor_view, display_event, event_view, first_pending_display,
    first_pending_pin, has_pending_display, has_pending_pin, is_first_pending_display,
    is_first_pending_pin, lemma_first_pending_display_unique, lemma_first_pending_pin_unique,
    pin_cursor_view, pin_event, Drained,
};
use crate::dto::display::{
    rows_of, Change as DisplayChange, ChangeView, DisplayMeta, DisplayMetaView, DisplayName,
};
use crate::dto::gpio::{PinCategory, PinMeta, PinMetaView, PinName, PinType, PinValue};
use crate::dto::web::{
    encode_pixels, DisplayUpdate, PinInputUpdate, PinUpdate, StripeUpdate, WebEvent, WebRequest,
    SCREEN_MAX_STRIPE_LEN, SCREEN_MAX_STRIPE_U8_LEN, STRIPE_PIXEL_SIZE,
};
use crate::gpio::{
    Change, PinState, PinStateView, Pins, SharedPin, SharedPinView, Subscriber,
};
use crate::notification::Notifier;

verus! {

/// The largest number of pins that a store holds: their ids are bytes.
pub const MAX_PINS: usize = 256;

/// The largest number of displays that a store holds.
pub const MAX_DISPLAYS: usize = 8;

/// Why the peripherals could not be taken.
#[derive(Copy, Clone, Debug, PartialEq, Eq, Structural)]
pub enum TakeError {
    AlreadyTaken,
}

impl TakeError {
    /// The error in words.
    pub fn message(&self) -> (message: &'static str)
        ensures
            message@ == "Already taken Error"@,
    {
        match self {
            TakeError::AlreadyTaken => "Already taken Error",
        }
    }
}

/// The handles to the peripherals. There is one set of them for a store.
#[derive(Debug)]
pub struct Peripherals {
    pub pins: Pins,
    pub displays: Displays,
    pub adc0: Adc<0>,
    pub adc1: Adc<1>,
    pub adc2: Adc<2>,
    pub adc3: Adc<3>,
}

/// The single source of truth for the state of all pins and displays.
///
/// Ids are dense: the pin with id `i` is the `i`-th that was created, and
/// stays in its place for as long as the store lives, dropped or not.
pub struct PeripheralStore {
    taken: bool,
    pins: Vec<PinState>,
    displays: Vec<DisplayState>,
    notification: Notifier,
}

/// The mathematical content of a `PeripheralStore`.
pub struct StoreView {
    /// Whether the handles to the peripherals were handed out.
    pub taken: bool,
    pub pins: Seq<PinStateView>,
    pub displays: Seq<DisplayStateView>,
    /// Whether something changed since the broadcast last looked.
    pub notified: bool,
}

impl StoreView {
    pub open spec fn wf(self) -> bool {
        &&& self.pins.len() <= MAX_PINS
        &&& self.displays.len() <= MAX_DISPLAYS
        &&& forall|id: int| 0 <= id < self.pins.len() ==> (#[trigger] self.pins[id]).wf()
        &&& forall|id: int| 0 <= id < self.displays.len() ==> (#[trigger] self.displays[id]).wf()
    }

    /// Whether the store has a pin with this id.
    pub open spec fn has_pin(self, id: int) -> bool {
        0 <= id < self.pins.len()
    }

    /// Whether the store has a display with this id.
    pub open spec fn has_display(self, id: int) -> bool {
        0 <= id < self.displays.len()
    }

    /// The store with another state for the pin `id`; the viewers are to be
    /// notified where `changed` says so.
    pub open spec fn with_pin(self, id: int, pin: PinStateView, changed: bool) -> StoreView {
        StoreView { pins: self.pins.update(id, pin), notified: self.notified || changed, ..self }
    }

    /// The store with another state for the display `id`.
    pub open spec fn with_display(
        self,
        id: int,
        display: DisplayStateView,
        changed: bool,
    ) -> StoreView {
        StoreView {
            displays: self.displays.update(id, display),
            notified: self.notified || changed,
            ..self
        }
    }

    /// The store after a pin with this metadata and value was created.
    pub open spec fn create_pin(self, meta: PinMetaView, value: PinValue) -> StoreView {
        StoreView {
            pins: self.pins.push(
                PinStateView {
                    pin: SharedPinView {
                        meta,
                        value,
                        dropped: false,
                        observer: None,
                        notified: false,
                    },
                    change: Change::Created,
                },
            ),
            ..self
        }
    }

    /// The store after a display with this metadata was created.
    pub open spec fn create_display(self, meta: DisplayMetaView) -> StoreView {
        StoreView {
            displays: self.displays.push(
                DisplayStateView {
                    display: SharedDisplayView {
                        meta,
                        dropped: false,
                        buffer: Seq::new(meta.width * meta.height, |i: int| 0u32),
                    },
                    change: ChangeView::Created,
                },
            ),
            ..self
        }
    }

    /// The store after firmware set the output of pin `id`.
    pub open spec fn set_output(self, id: int, high: bool) -> StoreView {
        self.with_pin(
            id,
            self.pins[id].with_output(high),
            self.pins[id].pin.value.output_level() != high,
        )
    }

    /// The store after a viewer set the discrete input of pin `id`.
    pub open spec fn set_discrete_input(self, id: int, high: bool) -> StoreView {
        self.with_pin(
            id,
            self.pins[id].with_discrete_input(high),
            self.pins[id].discrete_input_changes(high),
        )
    }

    /// The store after a viewer set the analog input of pin `id`.
    pub open spec fn set_analog_input(self, id: int, level: u16) -> StoreView {
        self.with_pin(
            id,
            self.pins[id].with_analog_input(level),
            self.pins[id].analog_input_changes(level),
        )
    }

    /// The store after the handle of pin `id` was released.
    pub open spec fn drop_pin(self, id: int) -> StoreView {
        self.with_pin(id, self.pins[id].released(), true)
    }

    /// The store after firmware drew `pixels` on display `id`.
    pub open spec fn draw(self, id: int, pixels: Seq<Pixel>) -> StoreView {
        self.with_display(
            id,
            self.displays[id].drawn(pixels),
            self.displays[id].changed_by(pixels),
        )
    }

    /// The store after the handle of display `id` was released.
    pub open spec fn drop_display(self, id: int) -> StoreView {
        self.with_display(id, self.displays[id].released(), true)
    }
}

impl StoreView {
    /// A store stays well-formed when a pin is created whose value has the
    /// shape of its type.
    pub proof fn lemma_create_pin_wf(self, meta: PinMetaView, value: PinValue, before: StoreView)
        requires
            before.wf(),
            before.pins.len() < MAX_PINS,
            meta.pin_type.admits(value),
            self == before.create_pin(meta, value),
        ensures
            self.wf(),
    {
        assert forall|id: int| 0 <= id < self.pins.len() implies (#[trigger] self.pins[id]).wf()
        by {
            if id < before.pins.len() {
                assert(self.pins[id] == before.pins[id]);
            }
        }
    }
}

impl StoreView {
    /// Whether the store has a pin for the request that takes its kind of
    /// input: a discrete level for a pin with a discrete input, an analog
    /// level for an analog pin. That holds of a dropped pin as of any other.
    pub open spec fn accepts(self, request: WebRequest) -> bool {
        match request {
            WebRequest::PinInputUpdate(update) => {
                &&& self.has_pin(update.id() as int)
                &&& update.applies_to(self.pins[update.id() as int].pin.value)
            },
        }
    }

    /// The store after the request of a viewer was applied.
    pub open spec fn apply(self, request: WebRequest) -> StoreView
        recommends
            self.accepts(request),
    {
        match request {
            WebRequest::PinInputUpdate(update) => match update {
                PinInputUpdate::Discrete(id, high) => self.set_discrete_input(id as int, high),
                PinInputUpdate::Analog(id, level) => self.set_analog_input(id as int, level),
            },
        }
    }

    /// Whether applying the request changes the input of its pin.
    pub open spec fn changed_by(self, request: WebRequest) -> bool
        recommends
            self.accepts(request),
    {
        match request {
            WebRequest::PinInputUpdate(update) => match update {
                PinInputUpdate::Discrete(id, high) => self.pins[id as int].discrete_input_changes(
                    high,
                ),
                PinInputUpdate::Analog(id, level) => self.pins[id as int].analog_input_changes(
                    level,
                ),
            },
        }
    }
}

impl StoreView {
    /// The store after its signal was observed by the one that waits for
    /// it. Pins and displays, their records included, are as they were.
    pub open spec fn heard(self) -> StoreView {
        StoreView { notified: false, ..self }
    }
}

impl StoreView {
    /// Setting an output to the level that it has changes nothing in the
    /// store: no record of a change, no signal.
    pub proof fn lemma_set_output_same(self, id: int, high: bool)
        requires
            self.has_pin(id),
            self.pins[id].pin.value.output_level() == high,
        ensures
            self.set_output(id, high) == self,
    {
        assert(self.set_output(id, high).pins =~= self.pins);
    }

    /// Setting a discrete input to the level that it has, or the input of a
    /// dropped pin, changes nothing in the store.
    pub proof fn lemma_set_discrete_input_same(self, id: int, high: bool)
        requires
            self.has_pin(id),
            self.pins[id].pin.dropped || self.pins[id].pin.value.input_level() == high,
        ensures
            self.set_discrete_input(id, high) == self,
            !self.pins[id].discrete_input_changes(high),
    {
        assert(self.set_discrete_input(id, high).pins =~= self.pins);
    }

    /// Setting an analog input to the level that it has, or the input of a
    /// dropped pin, changes nothing in the store.
    pub proof fn lemma_set_analog_input_same(self, id: int, level: u16)
        requires
            self.has_pin(id),
            self.pins[id].pin.dropped || self.pins[id].pin.value == PinValue::Adc(level),
        ensures
            self.set_analog_input(id, level) == self,
            !self.pins[id].analog_input_changes(level),
    {
        assert(self.set_analog_input(id, level).pins =~= self.pins);
    }

    /// Drawing pixels that have their colours already, or lie outside the
    /// display, changes nothing in the store.
    pub proof fn lemma_draw_same(self, id: int, pixels: Seq<Pixel>)
        requires
            self.has_display(id),
            forall|at: int|
                0 <= at < pixels.len() ==> !self.displays[id].display.changed_by(
                    #[trigger] pixels[at],
                ),
        ensures
            self.draw(id, pixels) == self,
            !self.displays[id].changed_by(pixels),
    {
        self.displays[id].lemma_drawn_same(pixels);
        assert(self.draw(id, pixels).displays =~= self.displays);
    }

    /// No value changes without a record of it: where an operation on a
    /// pin left the pin in another state, a change of the pin is pending
    /// afterwards, and the signal of the store is raised.
    pub proof fn lemma_pin_change_is_recorded(self, id: int, high: bool, level: u16)
        requires
            self.has_pin(id),
        ensures
            self.set_output(id, high).pins[id].pin != self.pins[id].pin
                ==> self.set_output(id, high).pins[id].change != Change::Unchanged
                && self.set_output(id, high).notified,
            self.set_discrete_input(id, high).pins[id].pin != self.pins[id].pin
                ==> self.set_discrete_input(id, high).pins[id].change != Change::Unchanged
                && self.set_discrete_input(id, high).notified,
            self.set_analog_input(id, level).pins[id].pin != self.pins[id].pin
                ==> self.set_analog_input(id, level).pins[id].change != Change::Unchanged
                && self.set_analog_input(id, level).notified,
            self.drop_pin(id).pins[id].change != Change::Unchanged && self.drop_pin(id).notified,
    {
    }

    /// No pixel changes without a record of it: where drawing left a
    /// display with another buffer, a change of the display is pending
    /// afterwards, and the signal of the store is raised. The same holds
    /// after a display was dropped.
    pub proof fn lemma_display_change_is_recorded(self, id: int, pixels: Seq<Pixel>)
        requires
            self.wf(),
            self.has_display(id),
        ensures
            self.draw(id, pixels).displays[id].display != self.displays[id].display
                ==> !self.draw(id, pixels).displays[id].change.is_quiet()
                && self.draw(id, pixels).notified,
            !self.drop_display(id).displays[id].change.is_quiet(),
            self.drop_display(id).notified,
    {
        assert(self.displays[id].wf());
        if self.displays[id].changed_by(pixels) {
            self.displays[id].lemma_drawn_is_recorded(pixels);
        } else {
            self.displays[id].lemma_not_changed_same(pixels);
        }
    }

    /// Whether `later` holds every pin and every display of this store in
    /// its place, with the metadata that it has here, and dropped where it
    /// is dropped here.
    pub open spec fn precedes(self, later: StoreView) -> bool {
        &&& self.pins.len() <= later.pins.len()
        &&& self.displays.len() <= later.displays.len()
        &&& forall|id: int|
            0 <= id < self.pins.len() ==> (#[trigger] later.pins[id]).pin.meta
                == self.pins[id].pin.meta && (self.pins[id].pin.dropped
                ==> later.pins[id].pin.dropped)
        &&& forall|id: int|
            0 <= id < self.displays.len() ==> (#[trigger] later.displays[id]).display.meta
                == self.displays[id].display.meta && (self.displays[id].display.dropped
                ==> later.displays[id].display.dropped)
    }

    /// Ids are never recycled: whatever is done to a store, each of its
    /// pins and displays keeps its place and its metadata, and what was
    /// dropped stays dropped.
    pub proof fn lemma_places_are_kept(
        self,
        id: int,
        high: bool,
        level: u16,
        pixels: Seq<Pixel>,
        pin_meta: PinMetaView,
        value: PinValue,
        display_meta: DisplayMetaView,
    )
        requires
            self.wf(),
        ensures
            self.precedes(self.create_pin(pin_meta, value)),
            self.precedes(self.create_display(display_meta)),
            self.precedes(self.heard()),
            self.has_pin(id) ==> self.precedes(self.set_output(id, high)),
            self.has_pin(id) ==> self.precedes(self.set_discrete_input(id, high)),
            self.has_pin(id) ==> self.precedes(self.set_analog_input(id, level)),
            self.has_pin(id) ==> self.precedes(self.drop_pin(id)),
            self.has_display(id) ==> self.precedes(self.draw(id, pixels)),
            self.has_display(id) ==> self.precedes(self.drop_display(id)),
    {
        if self.has_display(id) {
            assert(self.displays[id].wf());
            self.displays[id].lemma_drawn_wf(pixels);
        }
    }

}

impl View for PeripheralStore {
    type V = StoreView;

    closed spec fn view(&self) -> StoreView {
        StoreView {
            taken: self.taken,
            pins: Seq::new(self.pins@.len(), |id: int| self.pins@[id]@),
            displays: Seq::new(self.displays@.len(), |id: int| self.displays@[id]@),
            notified: self.notification@,
        }
    }
}

impl PeripheralStore {
    /// A store without pins and displays, whose handles nobody has taken.
    pub fn new() -> (store: Self)
        ensures
            store@ == (StoreView {
                taken: false,
                pins: Seq::<PinStateView>::empty(),
                displays: Seq::<DisplayStateView>::empty(),
                notified: false,
            }),
            store@.wf(),
    {
        let store = PeripheralStore {
            taken: false,
            pins: Vec::new(),
            displays: Vec::new(),
            notification: Notifier::new(),
        };
        assert(store@.pins =~= Seq::<PinStateView>::empty());
        assert(store@.displays =~= Seq::<DisplayStateView>::empty());
        store
    }

    /// The number of pins that were created.
    pub fn pin_count(&self) -> (count: usize)
        ensures
            count == self@.pins.len(),
    {
        self.pins.len()
    }

    /// The number of displays that were created.
    pub fn display_count(&self) -> (count: usize)
        ensures
            count == self@.displays.len(),
    {
        self.displays.len()
    }

    /// The pin with the given id, if there is one.
    pub fn pin(&self, id: u8) -> (pin: Option<&PinState>)
        ensures
            pin is Some == self@.has_pin(id as int),
            pin matches Some(state) ==> state@ == self@.pins[id as int],
    {
        if (id as usize) < self.pins.len() {
            Some(&self.pins[id as usize])
        } else {
            None
        }
    }

    /// The display with the given id, if there is one.
    pub fn display(&self, id: u8) -> (display: Option<&DisplayState>)
        ensures
            display is Some == self@.has_display(id as int),
            display matches Some(state) ==> state@ == self@.displays[id as int],
    {
        if (id as usize) < self.displays.len() {
            Some(&self.displays[id as usize])
        } else {
            None
        }
    }

    /// The pin with the given id.
    pub(crate) fn pin_state(&self, id: usize) -> (pin: &PinState)
        requires
            self@.has_pin(id as int),
        ensures
            pin@ == self@.pins[id as int],
    {
        &self.pins[id]
    }

    /// The display with the given id.
    pub(crate) fn display_state(&self, id: usize) -> (display: &DisplayState)
        requires
            self@.has_display(id as int),
        ensures
            display@ == self@.displays[id as int],
    {
        &self.displays[id]
    }

    /// The signal that is raised when something changed for the viewers.
    pub fn notification(&self) -> (notification: &Notifier)
        ensures
            notification@ == self@.notified,
    {
        &self.notification
    }

    /// Raises the signal of the store.
    pub fn notify(&mut self)
        ensures
            final(self)@ == (StoreView { notified: true, ..old(self)@ }),
    {
        self.notification.notify();
        proof {
            assert(self@.pins =~= old(self)@.pins);
            assert(self@.displays =~= old(self)@.displays);
        }
    }

    /// Observes the signal of the store: says whether something changed
    /// since it was last observed, and clears it.
    pub fn poll_wait(&mut self) -> (woken: bool)
        ensures
            woken == old(self)@.notified,
            final(self)@ == old(self)@.heard(),
    {
        self.notification.poll_wait()
    }

    /// Resets the record of the changes of pin `id`: the step that follows
    /// the first draining of the change from the cursor of a session.
    pub(crate) fn reset_pin_change(&mut self, id: usize)
        requires
            old(self)@.wf(),
            old(self)@.has_pin(id as int),
        ensures
            final(self)@ == old(self)@.with_pin_changes(
                old(self)@.pin_changes().update(id as int, Change::Unchanged),
            ),
            final(self)@.wf(),
    {
        self.pins[id].reset_change();
        proof {
            let after = old(self)@.with_pin_changes(
                old(self)@.pin_changes().update(id as int, Change::Unchanged),
            );
            assert(self@.pins =~= after.pins);
            assert(self@.displays =~= after.displays);
            assert forall|other: int| 0 <= other < self@.pins.len() implies (
            #[trigger] self@.pins[other]).wf() by {
                assert(old(self)@.pins[other].wf());
            }
        }
    }

    /// Resets the record of the changes of display `id`: the step that
    /// follows the draining of an event from the cursor of a session.
    pub(crate) fn reset_display_change(&mut self, id: usize)
        requires
            old(self)@.wf(),
            old(self)@.has_display(id as int),
        ensures
            final(self)@ == old(self)@.with_display_changes(
                old(self)@.display_changes().update(id as int, ChangeView::quiet()),
            ),
            final(self)@.wf(),
    {
        self.displays[id].reset_change();
        proof {
            let after = old(self)@.with_display_changes(
                old(self)@.display_changes().update(id as int, ChangeView::quiet()),
            );
            assert(self@.pins =~= after.pins);
            assert(self@.displays =~= after.displays);
            assert forall|other: int| 0 <= other < self@.displays.len() implies (
            #[trigger] self@.displays[other]).wf() by {
                assert(old(self)@.displays[other].wf());
            }
        }
    }

    /// Appends a pin, new to every observer, and returns its id.
    pub fn create_pin(
        &mut self,
        name: PinName,
        category: PinCategory,
        pin_type: PinType,
        value: PinValue,
    ) -> (id: u8)
        requires
            old(self)@.wf(),
            old(self)@.pins.len() < MAX_PINS,
            pin_type.admits(value),
        ensures
            id == old(self)@.pins.len(),
            final(self)@ == old(self)@.create_pin((PinMeta { name, category, pin_type })@, value),
            final(self)@.wf(),
    {
        let id = self.pins.len() as u8;
        let state = PinState::new(name, category, pin_type, value);
        self.pins.push(state);
        proof {
            let after = old(self)@.create_pin((PinMeta { name, category, pin_type })@, value);
            assert(self@.pins =~= after.pins);
            assert(self@.displays =~= after.displays);
            after.lemma_create_pin_wf((PinMeta { name, category, pin_type })@, value, old(self)@);
        }
        id
    }

    /// Appends a display, new to every observer, with all of its pixels at
    /// the colour 0, and returns its id.
    pub fn create_display(&mut self, name: DisplayName, width: usize, height: usize) -> (id: u8)
        requires
            old(self)@.wf(),
            old(self)@.displays.len() < MAX_DISPLAYS,
            width * height <= usize::MAX,
        ensures
            id == old(self)@.displays.len(),
            final(self)@ == old(self)@.create_display((DisplayMeta { name, width, height })@),
            final(self)@.wf(),
    {
        let id = self.displays.len() as u8;
        let state = DisplayState::new(name, width, height);
        self.displays.push(state);
        proof {
            let after = old(self)@.create_display((DisplayMeta { name, width, height })@);
            assert(self@.pins =~= after.pins);
            assert(self@.displays =~= after.displays);
        }
        id
    }

    /// Sets the output of pin `id` as firmware asked. Where the output is at
    /// that level already, nothing changes; else the new level is stored,
    /// the change is recorded and the store's signal is raised. Returns
    /// whether the output changed.
    pub fn set_output(&mut self, id: u8, high: bool) -> (changed: bool)
        requires
            old(self)@.wf(),
            old(self)@.has_pin(id as int),
            old(self)@.pins[id as int].pin.value.has_output(),
        ensures
            final(self)@ == old(self)@.set_output(id as int, high),
            final(self)@.wf(),
            changed == (old(self)@.pins[id as int].pin.value.output_level() != high),
            !changed ==> final(self)@ == old(self)@,
    {
        let changed = self.pins[id as usize].set_output(high);
        if changed {
            self.notification.notify();
        }
        proof {
            if !changed {
                old(self)@.lemma_set_output_same(id as int, high);
            }
            let after = old(self)@.set_output(id as int, high);
            assert(self@.pins =~= after.pins);
            assert(self@.displays =~= after.displays);
        }
        changed
    }

    /// Sets the discrete input of pin `id` as a viewer asked. A dropped pin,
    /// and one whose input is at that level already, stays as it is; else
    /// the new level is stored, the local observer of the pin is called, if
    /// one is registered, the change is recorded, and the signals of the
    /// pin and of the store are raised. Returns whether the level changed.
    pub fn set_discrete_input(&mut self, id: u8, high: bool) -> (changed: bool)
        requires
            old(self)@.wf(),
            old(self)@.has_pin(id as int),
            old(self)@.pins[id as int].pin.value.has_input(),
        ensures
            final(self)@ == old(self)@.set_discrete_input(id as int, high),
            changed == old(self)@.pins[id as int].discrete_input_changes(high),
            final(self)@.wf(),
            !old(self)@.pins[id as int].discrete_input_changes(high) ==> final(self)@
                == old(self)@,
    {
        let changed = self.pins[id as usize].set_discrete_input(high);
        if changed {
            self.notification.notify();
        }
        proof {
            if !changed {
                old(self)@.lemma_set_discrete_input_same(id as int, high);
            }
            let after = old(self)@.set_discrete_input(id as int, high);
            assert(self@.pins =~= after.pins);
            assert(self@.displays =~= after.displays);
        }
        changed
    }

    /// Sets the analog input of pin `id` as a viewer asked, with the gating
    /// and the effects of `set_discrete_input`.
    pub fn set_analog_input(&mut self, id: u8, level: u16) -> (changed: bool)
        requires
            old(self)@.wf(),
            old(self)@.has_pin(id as int),
            old(self)@.pins[id as int].pin.value is Adc,
        ensures
            final(self)@ == old(self)@.set_analog_input(id as int, level),
            changed == old(self)@.pins[id as int].analog_input_changes(level),
            final(self)@.wf(),
            !old(self)@.pins[id as int].analog_input_changes(level) ==> final(self)@
                == old(self)@,
    {
        let changed = self.pins[id as usize].set_analog_input(level);
        if changed {
            self.notification.notify();
        }
        proof {
            if !changed {
                old(self)@.lemma_set_analog_input_same(id as int, level);
            }
            let after = old(self)@.set_analog_input(id as int, level);
            assert(self@.pins =~= after.pins);
            assert(self@.displays =~= after.displays);
        }
        changed
    }

    /// Marks pin `id` as dropped, records the change and raises the store's
    /// signal. The pin keeps its place and its id.
    pub fn drop_pin(&mut self, id: u8)
        requires
            old(self)@.wf(),
            old(self)@.has_pin(id as int),
        ensures
            final(self)@ == old(self)@.drop_pin(id as int),
            final(self)@.wf(),
    {
        self.pins[id as usize].release();
        self.notification.notify();
        proof {
            let after = old(self)@.drop_pin(id as int);
            assert(self@.pins =~= after.pins);
            assert(self@.displays =~= after.displays);
        }
    }

    /// Registers the local observer of pin `id`, in place of the one that
    /// was registered, if one was. Viewers do not see this.
    pub fn subscribe(&mut self, id: u8, callback: Box<dyn Subscriber>)
        requires
            old(self)@.wf(),
            old(self)@.has_pin(id as int),
        ensures
            final(self)@.pins[id as int].pin.observer == Some(callback),
            final(self)@ == old(self)@.with_pin(
                id as int,
                old(self)@.pins[id as int].with_observer(final(self)@.pins[id as int].pin.observer),
                false,
            ),
            final(self)@.wf(),
    {
        let observer = Some(callback);
        self.set_subscriber(id, observer);
        assert(self@.pins[id as int] == old(self)@.pins[id as int].with_observer(observer));
    }

    /// Removes the local observer of pin `id`. Viewers do not see this.
    pub fn unsubscribe(&mut self, id: u8)
        requires
            old(self)@.wf(),
            old(self)@.has_pin(id as int),
        ensures
            final(self)@ == old(self)@.with_pin(
                id as int,
                old(self)@.pins[id as int].with_observer(None),
                false,
            ),
            final(self)@.wf(),
    {
        self.set_subscriber(id, None);
    }

    /// Registers the local observer of pin `id`, in place of the one that
    /// was registered, or, given `None`, removes the one that was
    /// registered. `subscribe` and `unsubscribe` are this with `Some` and
    /// with `None`.
    pub fn set_subscriber(&mut self, id: u8, callback: Option<Box<dyn Subscriber>>)
        requires
            old(self)@.wf(),
            old(self)@.has_pin(id as int),
        ensures
            final(self)@ == old(self)@.with_pin(
                id as int,
                old(self)@.pins[id as int].with_observer(callback),
                false,
            ),
            final(self)@.wf(),
    {
        self.pins[id as usize].set_subscriber(callback);
        proof {
            let after = old(self)@.with_pin(
                id as int,
                old(self)@.pins[id as int].with_observer(callback),
                false,
            );
            assert(self@.pins =~= after.pins);
            assert(self@.displays =~= after.displays);
        }
    }

    /// Clears the own signal of pin `id`, for the one that is about to wait
    /// for a change of its input.
    pub fn reset_pin_notification(&mut self, id: u8)
        requires
            old(self)@.wf(),
            old(self)@.has_pin(id as int),
        ensures
            final(self)@ == old(self)@.with_pin(
                id as int,
                old(self)@.pins[id as int].observed(),
                false,
            ),
            final(self)@.wf(),
    {
        self.pins[id as usize].reset_notification();
        proof {
            let after = old(self)@.with_pin(
                id as int,
                old(self)@.pins[id as int].observed(),
                false,
            );
            assert(self@.pins =~= after.pins);
            assert(self@.displays =~= after.displays);
        }
    }

    /// Draws `pixels` on display `id`, one after the other. A pixel that
    /// lies outside the display is passed over; one that has its colour
    /// already changes nothing; any other is written and marked dirty.
    /// Returns whether a pixel changed; then the store's signal is raised.
    pub fn draw(&mut self, id: u8, pixels: &[Pixel]) -> (changed: bool)
        requires
            old(self)@.wf(),
            old(self)@.has_display(id as int),
        ensures
            final(self)@ == old(self)@.draw(id as int, pixels@),
            changed == old(self)@.displays[id as int].changed_by(pixels@),
            final(self)@.wf(),
            (forall|at: int|
                0 <= at < pixels@.len() ==> !old(self)@.displays[id as int].display.changed_by(
                    #[trigger] pixels@[at],
                )) ==> !changed && final(self)@ == old(self)@,
    {
        let changed = self.displays[id as usize].draw_iter(pixels);
        if changed {
            self.notification.notify();
        }
        proof {
            if forall|at: int|
                0 <= at < pixels@.len() ==> !old(self)@.displays[id as int].display.changed_by(
                    #[trigger] pixels@[at],
                ) {
                old(self)@.lemma_draw_same(id as int, pixels@);
            }
            let after = old(self)@.draw(id as int, pixels@);
            assert(self@.pins =~= after.pins);
            assert(self@.displays =~= after.displays);
            old(self)@.displays[id as int].lemma_drawn_wf(pixels@);
        }
        changed
    }

    /// Marks display `id` as dropped, records the change and raises the
    /// store's signal. The display keeps its place and its id.
    pub fn drop_display(&mut self, id: u8)
        requires
            old(self)@.wf(),
            old(self)@.has_display(id as int),
        ensures
            final(self)@ == old(self)@.drop_display(id as int),
            final(self)@.wf(),
    {
        self.displays[id as usize].release();
        self.notification.notify();
        proof {
            let after = old(self)@.drop_display(id as int);
            assert(self@.pins =~= after.pins);
            assert(self@.displays =~= after.displays);
            old(self)@.displays[id as int].lemma_released_wf();
        }
    }
}

impl PeripheralStore {
    /// Whether the store can apply the request: it has the pin, and the pin
    /// takes that kind of input.
    pub fn accepts(&self, request: &WebRequest) -> (accepted: bool)
        ensures
            accepted == self@.accepts(*request),
    {
        match request {
            WebRequest::PinInputUpdate(update) => match self.pin(update.id()) {
                Some(state) => update.accepts(state.pin().value()),
                None => false,
            },
        }
    }
}

impl PeripheralStore {
    /// Whether every dirty span of these changes lies on the display that
    /// it is for.
    pub fn fits_changes(&self, changes: &Vec<DisplayChange>) -> (fits: bool)
        ensures
            fits == self@.fits_display_changes(display_changes_view(changes@)),
    {
        let ghost cursor = display_changes_view(changes@);
        let mut id: usize = 0;
        while id < changes.len() && id < self.displays.len()
            invariant
                id <= changes@.len(),
                id <= self.displays@.len(),
                cursor == display_changes_view(changes@),
                forall|done: int|
                    0 <= done < id ==> (#[trigger] cursor[done]).fits(
                        self@.displays[done].display.meta.width,
                        self@.displays[done].display.meta.height,
                    ),
            decreases changes@.len() - id,
        {
            let meta = self.displays[id].display().meta();
            assert(cursor[id as int] == changes@[id as int]@);
            if !changes[id].fits(meta.width, meta.height) {
                return false;
            }
            id += 1;
        }
        true
    }

    /// Whether every dirty span of a display cursor, if the observer has
    /// one, lies on the display that it is for.
    pub fn fits(&self, changes: &Option<Vec<DisplayChange>>) -> (fits: bool)
        ensures
            fits == self@.fits_displays(display_cursor_view(*changes)),
    {
        match changes {
            Some(own) => self.fits_changes(own),
            None => true,
        }
    }
}

impl Peripherals {
    /// Hands out the handles to the peripherals of `store`: once. Whoever
    /// asks again gets `AlreadyTaken`, and the store stays as it is.
    pub fn take(store: &mut PeripheralStore) -> (taken: Result<Self, TakeError>)
        ensures
            taken is Ok == !old(store)@.taken,
            taken matches Err(error) ==> error == TakeError::AlreadyTaken,
            final(store)@ == (StoreView { taken: true, ..old(store)@ }),
    {
        if store.taken {
            Err(TakeError::AlreadyTaken)
        } else {
            store.taken = true;
            proof {
                assert(store@.pins =~= old(store)@.pins);
                assert(store@.displays =~= old(store)@.displays);
            }
            Ok(
                Peripherals {
                    pins: Pins::new(),
                    displays: Displays::new(),
                    adc0: Adc::new(),
                    adc1: Adc::new(),
                    adc2: Adc::new(),
                    adc3: Adc::new(),
                },
            )
        }
    }

    /// Applies the request of a viewer to the store; see
    /// `PeripheralStore::set_discrete_input`. Returns whether the input of
    /// the pin changed.
    pub fn apply(store: &mut PeripheralStore, request: WebRequest) -> (changed: bool)
        requires
            old(store)@.wf(),
            old(store)@.accepts(request),
        ensures
            final(store)@ == old(store)@.apply(request),
            final(store)@.wf(),
            changed == old(store)@.changed_by(request),
    {
        match request {
            WebRequest::PinInputUpdate(update) => match update {
                PinInputUpdate::Discrete(id, high) => store.set_discrete_input(id, high),
                PinInputUpdate::Analog(id, level) => store.set_analog_input(id, level),
            },
        }
    }

    /// Drains the change of a pin: builds the event that it calls for, if
    /// any, and resets the record.
    pub fn consume_pin_change(id: u8, pin: &SharedPin, change: &mut Change) -> (event: Option<
        WebEvent,
    >)
        ensures
            event_view(event) == pin_event(id, pin@, *old(change)),
            *final(change) == Change::Unchanged,
    {
        if *change != Change::Unchanged {
            let meta = if *change == Change::Created {
                Some(pin.meta().clone())
            } else {
                None
            };
            let event = WebEvent::PinUpdate(
                PinUpdate { id, meta, dropped: pin.dropped(), value: *pin.value() },
            );
            change.reset();
            Some(event)
        } else {
            None
        }
    }

    /// Drains one event from the change of a display: builds the next event
    /// that the record calls for, if any, and takes from the record what
    /// the event carries. The rest stays for the next call: the other dirty
    /// rows, and of a dirty span that is longer than a stripe what lies
    /// behind the stripe.
    pub fn consume_display_change(
        id: u8,
        display: &SharedDisplay,
        change: &mut DisplayChange,
    ) -> (event: Option<WebEvent>)
        requires
            display@.wf(),
            old(change)@.fits(display@.meta.width, display@.meta.height),
        ensures
            event_view(event) == display_event(id, display@, old(change)@),
            final(change)@ == old(change)@.consumed(display@.meta.width, display@.meta.height),
            event matches Some(WebEvent::DisplayUpdate(DisplayUpdate::StripeUpdate(stripe)))
                ==> stripe@.data.len() % STRIPE_PIXEL_SIZE as nat == 0 && 0 < stripe@.data.len()
                <= SCREEN_MAX_STRIPE_U8_LEN,
    {
        match change {
            DisplayChange::Created => {
                let event = WebEvent::DisplayUpdate(
                    DisplayUpdate::MetaUpdate {
                        id,
                        meta: Some(display.meta().clone()),
                        dropped: display.dropped(),
                    },
                );
                *change = DisplayChange::full(display.meta().width, display.meta().height);
                Some(event)
            },
            DisplayChange::Updated(spans, dropped) => {
                if *dropped {
                    *dropped = false;
                    Some(
                        WebEvent::DisplayUpdate(
                            DisplayUpdate::MetaUpdate {
                                id,
                                meta: None,
                                dropped: display.dropped(),
                            },
                        ),
                    )
                } else {
                    match DisplayChange::first_dirty(spans) {
                        Some(row) => {
                            let ghost rows = rows_of(spans@);
                            let (start, end) = spans[row];
                            let width = display.meta().width;
                            assert(rows.dom().contains(row as int));
                            assert(rows[row as int] == (start as int, end as int));
                            proof {
                                lemma_offset_in_buffer(
                                    start as int,
                                    row as int,
                                    width as int,
                                    display@.meta.height as int,
                                );
                            }
                            let len = if end - start <= SCREEN_MAX_STRIPE_LEN {
                                end - start
                            } else {
                                SCREEN_MAX_STRIPE_LEN
                            };
                            let buffer = display.buffer();
                            assert(row * width + width <= buffer.len());
                            let from = row * width + start;
                            let data = encode_pixels(buffer, from, len);
                            if start + len < end {
                                spans[row] = (start + len, end);
                                assert(rows_of(spans@) =~= rows.insert(
                                    row as int,
                                    (start + len, end as int),
                                ));
                            } else {
                                spans[row] = (0, 0);
                                assert(rows_of(spans@) =~= rows.remove(row as int));
                            }
                            Some(
                                WebEvent::DisplayUpdate(
                                    DisplayUpdate::StripeUpdate(
                                        StripeUpdate {
                                            id,
                                            row: #[verifier::truncate]
                                            (row as u16),
                                            start: #[verifier::truncate]
                                            (start as u16),
                                            data,
                                        },
                                    ),
                                ),
                            )
                        },
                        None => None,
                    }
                }
            },
        }
    }

    /// Drains the pending change of the pin with the least id, from the
    /// cursor of the observer or, for an observer without one, from the
    /// store. A cursor is looked at as far as the store has pins.
    pub fn find_pin_change(
        store: &mut PeripheralStore,
        changes: &mut Option<Vec<Change>>,
    ) -> (event: Option<WebEvent>)
        requires
            old(store)@.wf(),
        ensures
            (Drained {
                event: event_view(event),
                store: final(store)@,
                pins_changes: pin_cursor_view(*final(changes)),
                displays_changes: None,
            }) == old(store)@.find_pin_change(pin_cursor_view(*old(changes))),
            final(store)@.wf(),
    {
        match changes {
            Some(own) => crate::web::find_pin_change(store, own),
            None => Self::find_recorded_pin_change(store),
        }
    }

    /// Drains the recorded change of the pin with the least id from the
    /// store itself.
    fn find_recorded_pin_change(store: &mut PeripheralStore) -> (event: Option<WebEvent>)
        requires
            old(store)@.wf(),
        ensures
            (Drained {
                event: event_view(event),
                store: final(store)@,
                pins_changes: None,
                displays_changes: None,
            }) == old(store)@.find_pin_change(None),
            final(store)@.wf(),
    {
        let ghost before = store@;
        let ghost recorded = before.pin_changes();
        let count = store.pins.len();
        let mut id: usize = 0;
        while id < count
            invariant
                id <= count,
                count == store.pins@.len(),
                count <= MAX_PINS,
                store@ == before,
                before == old(store)@,
                before.wf(),
                recorded == before.pin_changes(),
                forall|other: int| 0 <= other < id ==> #[trigger] recorded[other] == Change::Unchanged,
            decreases count - id,
        {
            if *store.pins[id].change() != Change::Unchanged {
                proof {
                    lemma_first_pending_pin_unique(recorded, count as int, id as int);
                }
                let (pin, change) = store.pins[id].split();
                let event = Self::consume_pin_change(id as u8, pin, change);
                proof {
                    let after = before.find_pin_change(None).store;
                    assert(store@.pins =~= after.pins);
                    assert(store@.displays =~= after.displays);
                    assert forall|other: int| 0 <= other < store@.pins.len() implies (
                    #[trigger] store@.pins[other]).wf() by {
                        assert(before.pins[other].wf());
                    }
                }
                return event;
            }
            id += 1;
        }
        proof {
            if has_pending_pin(recorded, count as int) {
                let found = first_pending_pin(recorded, count as int);
                assert(is_first_pending_pin(recorded, count as int, found));
            }
            let after = before.find_pin_change(None).store;
            assert(store@.pins =~= after.pins);
        }
        None
    }

    /// Drains one event from the pending change of the display with the
    /// least id, from the cursor of the observer or, for an observer
    /// without one, from the store. A cursor is looked at as far as the
    /// store has displays.
    pub fn find_display_change(
        store: &mut PeripheralStore,
        changes: &mut Option<Vec<DisplayChange>>,
    ) -> (event: Option<WebEvent>)
        requires
            old(store)@.wf(),
            old(store)@.fits_displays(display_cursor_view(*old(changes))),
        ensures
            (Drained {
                event: event_view(event),
                store: final(store)@,
                pins_changes: None,
                displays_changes: display_cursor_view(*final(changes)),
            }) == old(store)@.find_display_change(display_cursor_view(*old(changes))),
            final(store)@.wf(),
            final(store)@.fits_displays(display_cursor_view(*final(changes))),
    {
        match changes {
            Some(own) => crate::web::find_display_change(store, own),
            None => Self::find_recorded_display_change(store),
        }
    }

    /// Drains one event from the recorded change of the display with the
    /// least id, from the store itself.
    fn find_recorded_display_change(store: &mut PeripheralStore) -> (event: Option<WebEvent>)
        requires
            old(store)@.wf(),
        ensures
            (Drained {
                event: event_view(event),
                store: final(store)@,
                pins_changes: None,
                displays_changes: None,
            }) == old(store)@.find_display_change(None),
            final(store)@.wf(),
    {
        let ghost before = store@;
        let ghost recorded = before.display_changes();
        let count = store.displays.len();
        let mut id: usize = 0;
        while id < count
            invariant
                id <= count,
                count == store.displays@.len(),
                count <= MAX_DISPLAYS,
                store@ == before,
                before == old(store)@,
                before.wf(),
                recorded == before.display_changes(),
                forall|other: int| 0 <= other < id ==> (#[trigger] recorded[other]).is_quiet(),
            decreases count - id,
        {
            if store.displays[id].change().is_pending() {
                proof {
                    lemma_first_pending_display_unique(recorded, count as int, id as int);
                    assert(before.displays[id as int].wf());
                }
                let (display, change) = store.displays[id].split();
                let event = Self::consume_display_change(id as u8, display, change);
                proof {
                    let after = before.find_display_change(None).store;
                    let meta = before.displays[id as int].display.meta;
                    before.displays[id as int].change.lemma_consumed_fits(meta.width, meta.height);
                    assert(store@.pins =~= after.pins);
                    assert(store@.displays =~= after.displays);
                    assert forall|other: int| 0 <= other < store@.displays.len() implies (
                    #[trigger] store@.displays[other]).wf() by {
                        assert(before.displays[other].wf());
                    }
                }
                return event;
            }
            id += 1;
        }
        proof {
            if has_pending_display(recorded, count as int) {
                let found = first_pending_display(recorded, count as int);
                assert(is_first_pending_display(recorded, count as int, found));
            }
            let after = before.find_display_change(None).store;
            assert(store@.displays =~= after.displays);
        }
        None
    }

    /// Drains one event for an observer: one of a pin, if a pin has a
    /// pending change; else one of a display, if a display has one. Returns
    /// `None` when nothing is pending. Pins come before displays, and among
    /// each the lesser id comes first.
    ///
    /// An observer without cursors drains the records of the store. One
    /// with cursors of its own drains them, and resets in the store the
    /// record of the pin or display that the event tells of: the first
    /// observer that drains a change takes it from the store.
    pub fn fetch(
        store: &mut PeripheralStore,
        pins_changes: &mut Option<Vec<Change>>,
        displays_changes: &mut Option<Vec<DisplayChange>>,
    ) -> (event: Option<WebEvent>)
        requires
            old(store)@.wf(),
            old(store)@.fits_displays(display_cursor_view(*old(displays_changes))),
        ensures
            (Drained {
                event: event_view(event),
                store: final(store)@,
                pins_changes: pin_cursor_view(*final(pins_changes)),
                displays_changes: display_cursor_view(*final(displays_changes)),
            }) == old(store)@.fetch(
                pin_cursor_view(*old(pins_changes)),
                display_cursor_view(*old(displays_changes)),
            ),
            final(store)@.wf(),
            final(store)@.fits_displays(display_cursor_view(*final(displays_changes))),
    {
        let event = Self::find_pin_change(store, pins_changes);
        if event.is_some() {
            event
        } else {
            proof {
                old(store)@.lemma_find_pin_change_keeps_displays(
                    pin_cursor_view(*old(pins_changes)),
                    display_cursor_view(*old(displays_changes)),
                );
            }
            Self::find_display_change(store, displays_changes)
        }
    }
}

} // verus!
