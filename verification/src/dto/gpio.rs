//! Pin metadata and pin values.

use vstd::prelude::*;

use crate::bounded::{clone_name, text_of, Name};

verus! {

pub type PinName = Name;

pub type PinCategory = Name;

/// How an input pin is operated in a viewer.
#[derive(Copy, Clone, Debug, PartialEq, Eq, Structural)]
pub enum ButtonType {
    Toggle,
    Click,
}

/// The declared type of a pin.
#[derive(Copy, Clone, Debug, PartialEq, Eq, Structural)]
pub enum PinType {
    Input(ButtonType),
    Output,
    InputOutput(ButtonType),
    /// An analog input with the bounds of its range.
    Analog(u16, u16),
}

impl PinType {
    pub open spec fn spec_is_click(&self) -> bool {
        *self == PinType::Input(ButtonType::Click) || *self == PinType::InputOutput(
            ButtonType::Click,
        )
    }

    /// Whether the pin is an input operated as a momentary button.
    #[verifier::when_used_as_spec(spec_is_click)]
    pub fn is_click(&self) -> (click: bool)
        ensures
            click == self.spec_is_click(),
    {
        match self {
            PinType::Input(ButtonType::Click) => true,
            PinType::InputOutput(ButtonType::Click) => true,
            _ => false,
        }
    }

    /// Whether a value of the given shape belongs to a pin of this type.
    pub open spec fn admits(self, value: PinValue) -> bool {
        match self {
            PinType::Input(_) => value is Input,
            PinType::Output => value is Output,
            PinType::InputOutput(_) => value is InputOutput,
            PinType::Analog(_, _) => value is Adc,
        }
    }
}

impl Default for PinType {
    fn default() -> (pin_type: Self)
        ensures
            pin_type == PinType::Output,
    {
        PinType::Output
    }
}

/// What a viewer needs to lay a pin out.
#[derive(Debug, Default, PartialEq, Eq)]
pub struct PinMeta {
    pub name: PinName,
    pub category: PinCategory,
    pub pin_type: PinType,
}

/// The mathematical content of a `PinMeta`.
pub struct PinMetaView {
    pub name: Seq<char>,
    pub category: Seq<char>,
    pub pin_type: PinType,
}

impl View for PinMeta {
    type V = PinMetaView;

    open spec fn view(&self) -> PinMetaView {
        PinMetaView {
            name: text_of(self.name),
            category: text_of(self.category),
            pin_type: self.pin_type,
        }
    }
}

impl Clone for PinMeta {
    fn clone(&self) -> (copy: Self)
        ensures
            copy@ == self@,
    {
        PinMeta {
            name: clone_name(&self.name),
            category: clone_name(&self.category),
            pin_type: self.pin_type,
        }
    }
}

/// The current value of a pin, in the shape of its type.
#[derive(Copy, Clone, Debug, PartialEq, Eq, Structural)]
pub enum PinValue {
    Input(bool),
    Output(bool),
    InputOutput { input: bool, output: bool },
    Adc(u16),
}

impl PinValue {
    /// Whether the value has a discrete input level.
    pub open spec fn has_input(self) -> bool {
        self is Input || self is InputOutput
    }

    /// Whether the value has an output level.
    pub open spec fn has_output(self) -> bool {
        self is Output || self is InputOutput
    }

    /// The discrete input level, where there is one.
    pub open spec fn input_level(self) -> bool
        recommends
            self.has_input(),
    {
        match self {
            PinValue::Input(input) => input,
            PinValue::InputOutput { input, .. } => input,
            _ => false,
        }
    }

    /// The output level, where there is one.
    pub open spec fn output_level(self) -> bool
        recommends
            self.has_output(),
    {
        match self {
            PinValue::Output(output) => output,
            PinValue::InputOutput { output, .. } => output,
            _ => false,
        }
    }

    /// The value with its discrete input level replaced.
    pub open spec fn with_input(self, high: bool) -> PinValue
        recommends
            self.has_input(),
    {
        match self {
            PinValue::Input(_) => PinValue::Input(high),
            PinValue::InputOutput { output, .. } => PinValue::InputOutput { input: high, output },
            other => other,
        }
    }

    /// The value with its output level replaced.
    pub open spec fn with_output(self, high: bool) -> PinValue
        recommends
            self.has_output(),
    {
        match self {
            PinValue::Output(_) => PinValue::Output(high),
            PinValue::InputOutput { input, .. } => PinValue::InputOutput { input, output: high },
            other => other,
        }
    }
}

} // verus!
