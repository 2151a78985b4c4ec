//! Pins: their state in the store, the record of their changes, and the
//! typed handles through which firmware reads and drives them.

use vstd::pervasive::unreached;
use vstd::prelude::*;

use core::marker::PhantomData;

use crate::adc::AdcTrait;
pub use crate::dto::gpio::{ButtonType, PinCategory, PinMeta, PinName, PinType, PinValue};

use crate::dto::gpio::PinMetaView;
use crate::notification::Notifier;
use crate::peripherals::{PeripheralStore, MAX_PINS};

verus! {

/// The mode of a handle through which the input of a pin is read.
pub trait InputMode {

}

/// The mode of a handle through which the output of a pin is driven.
pub trait OutputMode {

}

/// A pin that firmware reads.
#[derive(Debug)]
pub struct Input;

/// A pin that firmware drives.
#[derive(Debug)]
pub struct Output;

/// A pin that firmware both reads and drives.
#[derive(Debug)]
pub struct InputOutput;

impl InputMode for Input {

}

impl InputMode for InputOutput {

}

impl OutputMode for Output {

}

impl OutputMode for InputOutput {

}

/// The local observer of the input of a pin: firmware that wants to know,
/// at once, that a viewer changed the input.
pub trait Subscriber: Send {
    /// Called each time the input changed, before the change is told to
    /// anyone else.
    fn changed(&self);
}

/// The right to create pins; it comes with the peripherals when they are
/// taken.
#[derive(Debug)]
pub struct Pins {
    _taken: (),
}

impl Pins {
    pub(crate) fn new() -> (pins: Self) {
        Pins { _taken: () }
    }

    /// Creates an input pin that a viewer toggles.
    pub fn input(
        &mut self,
        store: &mut PeripheralStore,
        name: PinName,
        category: PinCategory,
        value: bool,
    ) -> (pin: Pin<Input>)
        requires
            old(store)@.wf(),
            old(store)@.pins.len() < MAX_PINS,
        ensures
            pin.id() == old(store)@.pins.len(),
            final(store)@ == old(store)@.create_pin(
                (PinMeta { name, category, pin_type: PinType::Input(ButtonType::Toggle) })@,
                PinValue::Input(value),
            ),
            final(store)@.wf(),
    {
        self.new_pin(
            store,
            name,
            category,
            PinType::Input(ButtonType::Toggle),
            PinValue::Input(value),
        )
    }

    /// Creates an input pin that a viewer presses and releases.
    pub fn input_click(
        &mut self,
        store: &mut PeripheralStore,
        name: PinName,
        category: PinCategory,
        value: bool,
    ) -> (pin: Pin<Input>)
        requires
            old(store)@.wf(),
            old(store)@.pins.len() < MAX_PINS,
        ensures
            pin.id() == old(store)@.pins.len(),
            final(store)@ == old(store)@.create_pin(
                (PinMeta { name, category, pin_type: PinType::Input(ButtonType::Click) })@,
                PinValue::Input(value),
            ),
            final(store)@.wf(),
    {
        self.new_pin(
            store,
            name,
            category,
            PinType::Input(ButtonType::Click),
            PinValue::Input(value),
        )
    }

    /// Creates an output pin.
    pub fn output(
        &mut self,
        store: &mut PeripheralStore,
        name: PinName,
        category: PinCategory,
        value: bool,
    ) -> (pin: Pin<Output>)
        requires
            old(store)@.wf(),
            old(store)@.pins.len() < MAX_PINS,
        ensures
            pin.id() == old(store)@.pins.len(),
            final(store)@ == old(store)@.create_pin(
                (PinMeta { name, category, pin_type: PinType::Output })@,
                PinValue::Output(value),
            ),
            final(store)@.wf(),
    {
        self.new_pin(store, name, category, PinType::Output, PinValue::Output(value))
    }

    /// Creates a pin that firmware reads and drives, and a viewer toggles.
    pub fn input_output(
        &mut self,
        store: &mut PeripheralStore,
        name: PinName,
        category: PinCategory,
        input: bool,
        output: bool,
    ) -> (pin: Pin<InputOutput>)
        requires
            old(store)@.wf(),
            old(store)@.pins.len() < MAX_PINS,
        ensures
            pin.id() == old(store)@.pins.len(),
            final(store)@ == old(store)@.create_pin(
                (PinMeta { name, category, pin_type: PinType::InputOutput(ButtonType::Toggle) })@,
                PinValue::InputOutput { input, output },
            ),
            final(store)@.wf(),
    {
        self.new_pin(
            store,
            name,
            category,
            PinType::InputOutput(ButtonType::Toggle),
            PinValue::InputOutput { input, output },
        )
    }

    /// Creates a pin that firmware reads and drives, and a viewer presses
    /// and releases.
    pub fn input_output_click(
        &mut self,
        store: &mut PeripheralStore,
        name: PinName,
        category: PinCategory,
        input: bool,
        output: bool,
    ) -> (pin: Pin<InputOutput>)
        requires
            old(store)@.wf(),
            old(store)@.pins.len() < MAX_PINS,
        ensures
            pin.id() == old(store)@.pins.len(),
            final(store)@ == old(store)@.create_pin(
                (PinMeta { name, category, pin_type: PinType::InputOutput(ButtonType::Click) })@,
                PinValue::InputOutput { input, output },
            ),
            final(store)@.wf(),
    {
        self.new_pin(
            store,
            name,
            category,
            PinType::InputOutput(ButtonType::Click),
            PinValue::InputOutput { input, output },
        )
    }

    /// Creates an analog input pin with the range 0 to 3300.
    pub fn adc<ADC>(
        &mut self,
        store: &mut PeripheralStore,
        name: PinName,
        category: PinCategory,
        value: u16,
    ) -> (pin: Pin<ADC>) where ADC: AdcTrait
        requires
            old(store)@.wf(),
            old(store)@.pins.len() < MAX_PINS,
        ensures
            pin.id() == old(store)@.pins.len(),
            final(store)@ == old(store)@.create_pin(
                (PinMeta { name, category, pin_type: PinType::Analog(0, 3300) })@,
                PinValue::Adc(value),
            ),
            final(store)@.wf(),
    {
        self.adc_range(store, name, category, 0, 3300, value)
    }

    /// Creates an analog input pin with the given range.
    pub fn adc_range<ADC>(
        &mut self,
        store: &mut PeripheralStore,
        name: PinName,
        category: PinCategory,
        min: u16,
        max: u16,
        value: u16,
    ) -> (pin: Pin<ADC>) where ADC: AdcTrait
        requires
            old(store)@.wf(),
            old(store)@.pins.len() < MAX_PINS,
        ensures
            pin.id() == old(store)@.pins.len(),
            final(store)@ == old(store)@.create_pin(
                (PinMeta { name, category, pin_type: PinType::Analog(min, max) })@,
                PinValue::Adc(value),
            ),
            final(store)@.wf(),
    {
        self.new_pin(store, name, category, PinType::Analog(min, max), PinValue::Adc(value))
    }

    fn new_pin<MODE>(
        &mut self,
        store: &mut PeripheralStore,
        name: PinName,
        category: PinCategory,
        pin_type: PinType,
        value: PinValue,
    ) -> (pin: Pin<MODE>)
        requires
            old(store)@.wf(),
            old(store)@.pins.len() < MAX_PINS,
            pin_type.admits(value),
        ensures
            pin.id() == old(store)@.pins.len(),
            final(store)@ == old(store)@.create_pin(
                (PinMeta { name, category, pin_type })@,
                value,
            ),
            final(store)@.wf(),
    {
        let id = store.create_pin(name, category, pin_type, value);
        Pin::new(id)
    }
}

/// The handle of a pin: the right to read or drive it, as `MODE` says.
#[derive(Debug)]
pub struct Pin<MODE> {
    id: u8,
    _mode: PhantomData<MODE>,
}

/// What the one that waits for a pin waits for.
#[derive(Copy, Clone, Debug, PartialEq, Eq, Structural)]
pub enum WaitType {
    LowLevel,
    HighLevel,
    Edge,
}

impl<MODE> Pin<MODE> {
    fn new(id: u8) -> (pin: Self)
        ensures
            pin.id() == id,
    {
        Pin { id, _mode: PhantomData }
    }

    pub closed spec fn spec_id(&self) -> u8 {
        self.id
    }

    /// The id of the pin in the store.
    #[verifier::when_used_as_spec(spec_id)]
    pub fn id(&self) -> (id: u8)
        ensures
            id == self.spec_id(),
    {
        self.id
    }

    /// Gives the handle up: the pin is marked as dropped, which the viewers
    /// are told; it keeps its place and its id.
    pub fn drop(self, store: &mut PeripheralStore)
        requires
            old(store)@.wf(),
            old(store)@.has_pin(self.id() as int),
        ensures
            final(store)@ == old(store)@.drop_pin(self.id() as int),
            final(store)@.wf(),
    {
        store.drop_pin(self.id);
    }
}

impl<MODE> Pin<MODE> where MODE: InputMode {
    /// Whether the input of the pin is high.
    pub fn is_high(&self, store: &PeripheralStore) -> (high: bool)
        requires
            store@.has_pin(self.id() as int),
            store@.pins[self.id() as int].pin.value.has_input(),
        ensures
            high == store@.pins[self.id() as int].pin.value.input_level(),
    {
        match store.pin_state(self.id as usize).pin().value() {
            PinValue::Input(value) => *value,
            PinValue::InputOutput { input, .. } => *input,
            _ => unreached(),
        }
    }

    /// Prepares a wait for the input: clears the signal of the pin, and
    /// says whether the caller has to suspend until the signal is raised
    /// (`true`), or the input is at the awaited level already (`false`).
    /// Who waits for an edge always suspends.
    pub fn wait(&self, store: &mut PeripheralStore, wait_type: WaitType) -> (suspend: bool)
        requires
            old(store)@.wf(),
            old(store)@.has_pin(self.id() as int),
            old(store)@.pins[self.id() as int].pin.value.has_input(),
        ensures
            final(store)@ == old(store)@.with_pin(
                self.id() as int,
                old(store)@.pins[self.id() as int].observed(),
                false,
            ),
            final(store)@.wf(),
            suspend == match wait_type {
                WaitType::LowLevel => old(store)@.pins[self.id() as int].pin.value.input_level(),
                WaitType::HighLevel => !old(store)@.pins[self.id() as int].pin.value.input_level(),
                WaitType::Edge => true,
            },
    {
        store.reset_pin_notification(self.id);
        match wait_type {
            WaitType::LowLevel => self.is_high(store),
            WaitType::HighLevel => !self.is_high(store),
            WaitType::Edge => true,
        }
    }

    /// Registers the local observer of the input, in place of the one that
    /// was registered, if one was: from now on it is called each time a
    /// viewer changes the input.
    pub fn subscribe(&mut self, store: &mut PeripheralStore, callback: Box<dyn Subscriber>)
        requires
            old(store)@.wf(),
            old(store)@.has_pin(old(self).id() as int),
        ensures
            final(store)@.pins[old(self).id() as int].pin.observer == Some(callback),
            final(store)@ == old(store)@.with_pin(
                old(self).id() as int,
                old(store)@.pins[old(self).id() as int].with_observer(
                    final(store)@.pins[old(self).id() as int].pin.observer,
                ),
                false,
            ),
            final(store)@.wf(),
            *final(self) == *old(self),
    {
        let observer = Some(callback);
        store.set_subscriber(self.id, observer);
        assert(store@.pins[self.id() as int] == old(store)@.pins[self.id() as int].with_observer(
            observer,
        ));
    }

    /// Removes the local observer of the input.
    pub fn unsubscribe(&mut self, store: &mut PeripheralStore)
        requires
            old(store)@.wf(),
            old(store)@.has_pin(old(self).id() as int),
        ensures
            final(store)@ == old(store)@.with_pin(
                old(self).id() as int,
                old(store)@.pins[old(self).id() as int].with_observer(None),
                false,
            ),
            final(store)@.wf(),
            *final(self) == *old(self),
    {
        store.unsubscribe(self.id);
    }
}

impl<MODE> Pin<MODE> where MODE: OutputMode {
    /// Drives the output; see `PeripheralStore::set_output`. Returns
    /// whether the output changed.
    pub fn set_output(&mut self, store: &mut PeripheralStore, high: bool) -> (changed: bool)
        requires
            old(store)@.wf(),
            old(store)@.has_pin(old(self).id() as int),
            old(store)@.pins[old(self).id() as int].pin.value.has_output(),
        ensures
            final(store)@ == old(store)@.set_output(old(self).id() as int, high),
            final(store)@.wf(),
            changed == (old(store)@.pins[old(self).id() as int].pin.value.output_level() != high),
            !changed ==> final(store)@ == old(store)@,
            *final(self) == *old(self),
    {
        store.set_output(self.id, high)
    }
}

impl<MODE> Pin<MODE> where MODE: AdcTrait {
    /// The level of the analog input.
    pub fn get_input(&self, store: &PeripheralStore) -> (level: u16)
        requires
            store@.has_pin(self.id() as int),
            store@.pins[self.id() as int].pin.value is Adc,
        ensures
            PinValue::Adc(level) == store@.pins[self.id() as int].pin.value,
    {
        match store.pin_state(self.id as usize).pin().value() {
            PinValue::Adc(value) => *value,
            _ => unreached(),
        }
    }
}

/// What changed on a pin since the record was last consumed.
#[derive(Copy, Clone, Debug, PartialEq, Eq, Structural)]
pub enum Change {
    Unchanged,
    Created,
    Updated,
}

impl Change {
    /// The record after `other` was merged into it: `Created` stays until
    /// the record is reset, anything else gives way to `other`.
    pub open spec fn merged(self, other: Change) -> Change {
        if self == Change::Created {
            Change::Created
        } else {
            other
        }
    }

    /// Forgets what is pending.
    pub fn reset(&mut self)
        ensures
            *final(self) == Change::Unchanged,
    {
        *self = Change::Unchanged;
    }

    /// Merges `other` into this record.
    pub fn update(&mut self, other: &Change)
        ensures
            *final(self) == old(self).merged(*other),
    {
        if *self != Change::Created {
            *self = *other;
        }
    }
}

/// The state of a pin that firmware and viewers share.
pub struct SharedPin {
    meta: PinMeta,
    value: PinValue,
    dropped: bool,
    callback: Option<Box<dyn Subscriber>>,
    notification: Notifier,
}

/// The mathematical content of a `SharedPin`.
pub struct SharedPinView {
    pub meta: PinMetaView,
    pub value: PinValue,
    pub dropped: bool,
    /// The local observer that is registered for changes of the input, if
    /// one is.
    pub observer: Option<Box<dyn Subscriber>>,
    /// Whether a change of the input has not been observed yet by the one
    /// that waits for the pin.
    pub notified: bool,
}

impl SharedPinView {
    /// The value has the shape of the declared type.
    pub open spec fn wf(self) -> bool {
        self.meta.pin_type.admits(self.value)
    }

    /// Whether a local observer is registered for changes of the input.
    pub open spec fn subscribed(self) -> bool {
        self.observer is Some
    }

    /// The pin after a viewer set its discrete input to `high`: a dropped
    /// pin, and one that is at that level already, is passed over.
    pub open spec fn with_discrete_input(self, high: bool) -> SharedPinView
        recommends
            self.value.has_input(),
    {
        if self.dropped || self.value.input_level() == high {
            self
        } else {
            SharedPinView { value: self.value.with_input(high), notified: true, ..self }
        }
    }

    /// The pin after a viewer set its analog input to `level`.
    pub open spec fn with_analog_input(self, level: u16) -> SharedPinView
        recommends
            self.value is Adc,
    {
        if self.dropped || self.value == PinValue::Adc(level) {
            self
        } else {
            SharedPinView { value: PinValue::Adc(level), notified: true, ..self }
        }
    }

    /// The pin after firmware set its output to `high`.
    pub open spec fn with_output(self, high: bool) -> SharedPinView
        recommends
            self.value.has_output(),
    {
        SharedPinView { value: self.value.with_output(high), ..self }
    }
}

impl View for SharedPin {
    type V = SharedPinView;

    closed spec fn view(&self) -> SharedPinView {
        SharedPinView {
            meta: self.meta@,
            value: self.value,
            dropped: self.dropped,
            observer: self.callback,
            notified: self.notification@,
        }
    }
}

impl SharedPin {
    pub(crate) fn new(
        name: PinName,
        category: PinCategory,
        pin_type: PinType,
        value: PinValue,
    ) -> (pin: Self)
        ensures
            pin@ == (SharedPinView {
                meta: (PinMeta { name, category, pin_type })@,
                value,
                dropped: false,
                observer: None,
                notified: false,
            }),
    {
        SharedPin {
            meta: PinMeta { name, category, pin_type },
            value,
            dropped: false,
            callback: None,
            notification: Notifier::new(),
        }
    }

    pub fn meta(&self) -> (meta: &PinMeta)
        ensures
            meta@ == self@.meta,
    {
        &self.meta
    }

    pub fn value(&self) -> (value: &PinValue)
        ensures
            *value == self@.value,
    {
        &self.value
    }

    pub fn dropped(&self) -> (dropped: bool)
        ensures
            dropped == self@.dropped,
    {
        self.dropped
    }

    /// Whether a local observer is registered for changes of the input.
    pub fn subscribed(&self) -> (subscribed: bool)
        ensures
            subscribed == self@.subscribed(),
    {
        self.callback.is_some()
    }

    /// The signal that is raised when a viewer changes the input.
    pub fn notification(&self) -> (notification: &Notifier)
        ensures
            notification@ == self@.notified,
    {
        &self.notification
    }

    /// Sets the discrete input as a viewer asked. Nothing happens to a
    /// dropped pin, nor where the input is at that level already. Where
    /// the level changes, the local observer is called, if one is
    /// registered, and the pin's own signal is raised. Returns whether the
    /// level changed.
    pub fn set_discrete_input(&mut self, high: bool) -> (changed: bool)
        requires
            old(self)@.value.has_input(),
        ensures
            final(self)@ == old(self)@.with_discrete_input(high),
            changed == (!old(self)@.dropped && old(self)@.value.input_level() != high),
    {
        if !self.dropped {
            let changed = match &mut self.value {
                PinValue::Input(input) => {
                    if *input != high {
                        *input = high;
                        true
                    } else {
                        false
                    }
                },
                PinValue::InputOutput { input, .. } => {
                    if *input != high {
                        *input = high;
                        true
                    } else {
                        false
                    }
                },
                _ => unreached(),
            };
            if changed {
                self.call_back();
                self.notification.notify();
            }
            changed
        } else {
            false
        }
    }

    /// Calls the local observer, if one is registered.
    fn call_back(&self) {
        match &self.callback {
            Some(callback) => {
                callback.changed();
            },
            None => {},
        }
    }

    /// Sets the analog input as a viewer asked, with the gating and the
    /// effects of `set_discrete_input`.
    pub fn set_analog_input(&mut self, value: u16) -> (changed: bool)
        requires
            old(self)@.value is Adc,
        ensures
            final(self)@ == old(self)@.with_analog_input(value),
            changed == (!old(self)@.dropped && old(self)@.value != PinValue::Adc(value)),
    {
        if !self.dropped {
            let changed = match &mut self.value {
                PinValue::Adc(adc) => {
                    if *adc != value {
                        *adc = value;
                        true
                    } else {
                        false
                    }
                },
                _ => unreached(),
            };
            if changed {
                self.call_back();
                self.notification.notify();
            }
            changed
        } else {
            false
        }
    }
}

/// A pin in the store: its shared state and the record of what changed on
/// it since the record was last consumed.
pub struct PinState {
    shared: SharedPin,
    change: Change,
}

/// The mathematical content of a `PinState`.
pub struct PinStateView {
    pub pin: SharedPinView,
    pub change: Change,
}

impl PinStateView {
    pub open spec fn wf(self) -> bool {
        self.pin.wf()
    }

    /// The pin after firmware set its output to `high`: where the output is
    /// at that level already, nothing changes; else the change is recorded.
    pub open spec fn with_output(self, high: bool) -> PinStateView
        recommends
            self.pin.value.has_output(),
    {
        if self.pin.value.output_level() == high {
            self
        } else {
            PinStateView {
                pin: self.pin.with_output(high),
                change: self.change.merged(Change::Updated),
            }
        }
    }

    /// Whether setting the discrete input to `high` changes the pin.
    pub open spec fn discrete_input_changes(self, high: bool) -> bool {
        !self.pin.dropped && self.pin.value.input_level() != high
    }

    /// The pin after a viewer set its discrete input to `high`.
    pub open spec fn with_discrete_input(self, high: bool) -> PinStateView
        recommends
            self.pin.value.has_input(),
    {
        if self.discrete_input_changes(high) {
            PinStateView {
                pin: self.pin.with_discrete_input(high),
                change: self.change.merged(Change::Updated),
            }
        } else {
            self
        }
    }

    /// Whether setting the analog input to `level` changes the pin.
    pub open spec fn analog_input_changes(self, level: u16) -> bool {
        !self.pin.dropped && self.pin.value != PinValue::Adc(level)
    }

    /// The pin after a viewer set its analog input to `level`.
    pub open spec fn with_analog_input(self, level: u16) -> PinStateView
        recommends
            self.pin.value is Adc,
    {
        if self.analog_input_changes(level) {
            PinStateView {
                pin: self.pin.with_analog_input(level),
                change: self.change.merged(Change::Updated),
            }
        } else {
            self
        }
    }

    /// The pin after its handle was released.
    pub open spec fn released(self) -> PinStateView {
        PinStateView {
            pin: SharedPinView { dropped: true, ..self.pin },
            change: self.change.merged(Change::Updated),
        }
    }

    /// The pin after a local observer was registered or removed.
    pub open spec fn with_observer(self, observer: Option<Box<dyn Subscriber>>) -> PinStateView {
        PinStateView { pin: SharedPinView { observer, ..self.pin }, ..self }
    }

    /// The pin after the one that waits for it looked at its signal.
    pub open spec fn observed(self) -> PinStateView {
        PinStateView { pin: SharedPinView { notified: false, ..self.pin }, ..self }
    }

    /// The pin with another record of changes.
    pub open spec fn with_change(self, change: Change) -> PinStateView {
        PinStateView { change, ..self }
    }
}

impl View for PinState {
    type V = PinStateView;

    closed spec fn view(&self) -> PinStateView {
        PinStateView { pin: self.shared@, change: self.change }
    }
}

impl PinState {
    /// A pin that is new to every observer.
    pub(crate) fn new(
        name: PinName,
        category: PinCategory,
        pin_type: PinType,
        value: PinValue,
    ) -> (state: Self)
        ensures
            state@ == (PinStateView {
                pin: SharedPinView {
                    meta: (PinMeta { name, category, pin_type })@,
                    value,
                    dropped: false,
                    observer: None,
                    notified: false,
                },
                change: Change::Created,
            }),
    {
        PinState {
            shared: SharedPin::new(name, category, pin_type, value),
            change: Change::Created,
        }
    }

    pub fn change(&self) -> (change: &Change)
        ensures
            *change == self@.change,
    {
        &self.change
    }

    pub fn pin(&self) -> (pin: &SharedPin)
        ensures
            pin@ == self@.pin,
    {
        &self.shared
    }

    pub fn pin_mut(&mut self) -> (pin: &mut SharedPin)
        ensures
            pin@ == old(self)@.pin,
            final(self)@ == (PinStateView { pin: final(pin)@, change: old(self)@.change }),
    {
        &mut self.shared
    }

    pub fn split(&mut self) -> (parts: (&SharedPin, &mut Change))
        ensures
            parts.0@ == old(self)@.pin,
            *parts.1 == old(self)@.change,
            final(self)@ == (PinStateView { pin: old(self)@.pin, change: *final(parts.1) }),
    {
        (&self.shared, &mut self.change)
    }

    /// Sets the output as firmware asked; returns whether it changed.
    pub(crate) fn set_output(&mut self, high: bool) -> (changed: bool)
        requires
            old(self)@.pin.value.has_output(),
        ensures
            final(self)@ == old(self)@.with_output(high),
            changed == (old(self)@.pin.value.output_level() != high),
    {
        let changed = match &mut self.shared.value {
            PinValue::Output(output) => {
                if *output != high {
                    *output = high;
                    true
                } else {
                    false
                }
            },
            PinValue::InputOutput { output, .. } => {
                if *output != high {
                    *output = high;
                    true
                } else {
                    false
                }
            },
            _ => unreached(),
        };
        if changed {
            self.change.update(&Change::Updated);
        }
        changed
    }

    /// Sets the discrete input as a viewer asked; returns whether it
    /// changed.
    pub(crate) fn set_discrete_input(&mut self, high: bool) -> (changed: bool)
        requires
            old(self)@.pin.value.has_input(),
        ensures
            final(self)@ == old(self)@.with_discrete_input(high),
            changed == old(self)@.discrete_input_changes(high),
    {
        let changed = self.shared.set_discrete_input(high);
        if changed {
            self.change.update(&Change::Updated);
        }
        changed
    }

    /// Sets the analog input as a viewer asked; returns whether it changed.
    pub(crate) fn set_analog_input(&mut self, level: u16) -> (changed: bool)
        requires
            old(self)@.pin.value is Adc,
        ensures
            final(self)@ == old(self)@.with_analog_input(level),
            changed == old(self)@.analog_input_changes(level),
    {
        let changed = self.shared.set_analog_input(level);
        if changed {
            self.change.update(&Change::Updated);
        }
        changed
    }

    /// Marks the pin as dropped.
    pub(crate) fn release(&mut self)
        ensures
            final(self)@ == old(self)@.released(),
    {
        self.shared.dropped = true;
        self.change.update(&Change::Updated);
    }

    /// Registers the local observer, or removes it.
    pub(crate) fn set_subscriber(&mut self, callback: Option<Box<dyn Subscriber>>)
        ensures
            final(self)@ == old(self)@.with_observer(callback),
    {
        self.shared.callback = callback;
    }

    /// Clears the pin's own signal, for the one that is about to wait for
    /// the pin.
    pub(crate) fn reset_notification(&mut self)
        ensures
            final(self)@ == old(self)@.observed(),
    {
        self.shared.notification.reset();
    }

    /// Forgets the record of changes.
    pub(crate) fn reset_change(&mut self)
        ensures
            final(self)@ == old(self)@.with_change(Change::Unchanged),
    {
        self.change.reset();
    }
}

} // verus!
