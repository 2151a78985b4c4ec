//! The requests and events of the wire protocol.

use vstd::pervasive::unreached;
use vstd::prelude::*;

use crate::bounded::{bytes_of, clone_stripe_data, new_stripe_data, push_stripe_byte, StripeData};
use crate::dto::display::{DisplayMeta, DisplayMetaView};
use crate::dto::gpio::{PinMeta, PinMetaView, PinValue};

verus! {

pub type RequestId = usize;

/// The largest number of pixels that one stripe carries. Stripes travel in
/// fixed buffers, so they are kept small.
pub const SCREEN_MAX_STRIPE_LEN: usize = 320;

/// The largest number of bytes that one stripe carries.
pub const SCREEN_MAX_STRIPE_U8_LEN: usize = SCREEN_MAX_STRIPE_LEN * STRIPE_PIXEL_SIZE;

/// The number of bytes that encode one pixel of a stripe.
pub const STRIPE_PIXEL_SIZE: usize = 3;

/// A request of a viewer.
#[derive(Debug, PartialEq, Eq)]
pub enum WebRequest {
    PinInputUpdate(PinInputUpdate),
}

/// A new input level for a pin, by the pin's id.
#[derive(Copy, Clone, Debug, PartialEq, Eq, Structural)]
pub enum PinInputUpdate {
    Discrete(u8, bool),
    Analog(u8, u16),
}

impl PinInputUpdate {
    pub open spec fn spec_id(&self) -> u8 {
        match self {
            PinInputUpdate::Discrete(id, _) => *id,
            PinInputUpdate::Analog(id, _) => *id,
        }
    }

    /// The id of the pin that the update is for.
    #[verifier::when_used_as_spec(spec_id)]
    pub fn id(&self) -> (id: u8)
        ensures
            id == self.spec_id(),
    {
        match self {
            PinInputUpdate::Discrete(id, _) => *id,
            PinInputUpdate::Analog(id, _) => *id,
        }
    }

    /// Whether the update is of the kind that a pin with this value takes.
    pub open spec fn applies_to(self, value: PinValue) -> bool {
        match self {
            PinInputUpdate::Discrete(_, _) => value.has_input(),
            PinInputUpdate::Analog(_, _) => value is Adc,
        }
    }

    /// The value that results from the update.
    pub open spec fn updated(self, value: PinValue) -> PinValue
        recommends
            self.applies_to(value),
    {
        match self {
            PinInputUpdate::Discrete(_, high) => value.with_input(high),
            PinInputUpdate::Analog(_, level) => PinValue::Adc(level),
        }
    }

    /// Exec form of `applies_to`.
    pub fn accepts(&self, value: &PinValue) -> (accepted: bool)
        ensures
            accepted == self.applies_to(*value),
    {
        match self {
            PinInputUpdate::Discrete(_, _) => match value {
                PinValue::Input(_) => true,
                PinValue::InputOutput { .. } => true,
                _ => false,
            },
            PinInputUpdate::Analog(_, _) => match value {
                PinValue::Adc(_) => true,
                _ => false,
            },
        }
    }

    /// Writes the new input level into a value of the matching kind.
    pub fn update_value(&self, pin_value: &mut PinValue)
        requires
            self.applies_to(*old(pin_value)),
        ensures
            *final(pin_value) == self.updated(*old(pin_value)),
    {
        match self {
            PinInputUpdate::Discrete(_, high) => match pin_value {
                PinValue::Input(input) => {
                    *input = *high;
                },
                PinValue::InputOutput { input, .. } => {
                    *input = *high;
                },
                _ => unreached(),
            },
            PinInputUpdate::Analog(_, level) => match pin_value {
                PinValue::Adc(input) => {
                    *input = *level;
                },
                _ => unreached(),
            },
        }
    }
}

/// An event for the viewers.
#[derive(Debug, PartialEq, Eq)]
pub enum WebEvent {
    PinUpdate(PinUpdate),
    DisplayUpdate(DisplayUpdate),
}

/// The present state of a pin. The metadata is there when the pin is new to
/// the receiver.
#[derive(Debug, PartialEq, Eq)]
pub struct PinUpdate {
    pub id: u8,
    pub meta: Option<PinMeta>,
    pub dropped: bool,
    pub value: PinValue,
}

/// A change of a display: of its metadata, or of one stripe of its pixels.
#[derive(Debug, PartialEq, Eq)]
pub enum DisplayUpdate {
    MetaUpdate { id: u8, meta: Option<DisplayMeta>, dropped: bool },
    StripeUpdate(StripeUpdate),
}

/// The pixels of one row of a display from column `start` on, three bytes
/// each: red, green, blue.
#[derive(Debug, PartialEq, Eq)]
pub struct StripeUpdate {
    pub id: u8,
    pub row: u16,
    pub start: u16,
    pub data: StripeData,
}

/// The mathematical content of a `PinUpdate`.
pub struct PinUpdateView {
    pub id: u8,
    pub meta: Option<PinMetaView>,
    pub dropped: bool,
    pub value: PinValue,
}

/// The mathematical content of a `StripeUpdate`.
pub struct StripeUpdateView {
    pub id: u8,
    pub row: u16,
    pub start: u16,
    pub data: Seq<u8>,
}

/// The mathematical content of a `DisplayUpdate`.
pub enum DisplayUpdateView {
    MetaUpdate { id: u8, meta: Option<DisplayMetaView>, dropped: bool },
    StripeUpdate(StripeUpdateView),
}

/// The mathematical content of a `WebEvent`.
pub enum WebEventView {
    PinUpdate(PinUpdateView),
    DisplayUpdate(DisplayUpdateView),
}

impl View for PinUpdate {
    type V = PinUpdateView;

    open spec fn view(&self) -> PinUpdateView {
        PinUpdateView {
            id: self.id,
            meta: match self.meta {
                Some(meta) => Some(meta@),
                None => None,
            },
            dropped: self.dropped,
            value: self.value,
        }
    }
}

impl View for StripeUpdate {
    type V = StripeUpdateView;

    open spec fn view(&self) -> StripeUpdateView {
        StripeUpdateView {
            id: self.id,
            row: self.row,
            start: self.start,
            data: bytes_of(self.data),
        }
    }
}

impl View for DisplayUpdate {
    type V = DisplayUpdateView;

    open spec fn view(&self) -> DisplayUpdateView {
        match self {
            DisplayUpdate::MetaUpdate { id, meta, dropped } => DisplayUpdateView::MetaUpdate {
                id: *id,
                meta: match meta {
                    Some(meta) => Some(meta@),
                    None => None,
                },
                dropped: *dropped,
            },
            DisplayUpdate::StripeUpdate(stripe) => DisplayUpdateView::StripeUpdate(stripe@),
        }
    }
}

impl View for WebEvent {
    type V = WebEventView;

    open spec fn view(&self) -> WebEventView {
        match self {
            WebEvent::PinUpdate(update) => WebEventView::PinUpdate(update@),
            WebEvent::DisplayUpdate(update) => WebEventView::DisplayUpdate(update@),
        }
    }
}

impl Clone for WebRequest {
    fn clone(&self) -> (copy: Self)
        ensures
            copy == *self,
    {
        match self {
            WebRequest::PinInputUpdate(update) => WebRequest::PinInputUpdate(*update),
        }
    }
}

impl Clone for PinUpdate {
    fn clone(&self) -> (copy: Self)
        ensures
            copy@ == self@,
    {
        PinUpdate {
            id: self.id,
            meta: match &self.meta {
                Some(meta) => Some(meta.clone()),
                None => None,
            },
            dropped: self.dropped,
            value: self.value,
        }
    }
}

impl Clone for StripeUpdate {
    fn clone(&self) -> (copy: Self)
        ensures
            copy@ == self@,
    {
        StripeUpdate {
            id: self.id,
            row: self.row,
            start: self.start,
            data: clone_stripe_data(&self.data),
        }
    }
}

impl Clone for DisplayUpdate {
    fn clone(&self) -> (copy: Self)
        ensures
            copy@ == self@,
    {
        match self {
            DisplayUpdate::MetaUpdate { id, meta, dropped } => DisplayUpdate::MetaUpdate {
                id: *id,
                meta: match meta {
                    Some(meta) => Some(meta.clone()),
                    None => None,
                },
                dropped: *dropped,
            },
            DisplayUpdate::StripeUpdate(stripe) => DisplayUpdate::StripeUpdate(stripe.clone()),
        }
    }
}

impl Clone for WebEvent {
    fn clone(&self) -> (copy: Self)
        ensures
            copy@ == self@,
    {
        match self {
            WebEvent::PinUpdate(update) => WebEvent::PinUpdate(update.clone()),
            WebEvent::DisplayUpdate(update) => WebEvent::DisplayUpdate(update.clone()),
        }
    }
}

impl DisplayUpdateView {
    /// The id of the display that the update is for.
    pub open spec fn id(self) -> u8 {
        match self {
            DisplayUpdateView::MetaUpdate { id, .. } => id,
            DisplayUpdateView::StripeUpdate(stripe) => stripe.id,
        }
    }
}

impl DisplayUpdate {
    /// The id of the display that the update is for.
    pub fn id(&self) -> (id: u8)
        ensures
            id == self@.id(),
    {
        match self {
            DisplayUpdate::MetaUpdate { id, .. } => *id,
            DisplayUpdate::StripeUpdate(stripe) => stripe.id,
        }
    }
}

/// One of the three bytes that encode a pixel: red (the bits 16 to 23 of
/// the colour) for `channel` 0, green (the bits 8 to 15) for 1, blue (the
/// bits 0 to 7) for 2. The bits 24 to 31 are not sent.
pub open spec fn channel_byte(pixel: u32, channel: int) -> u8 {
    if channel == 0 {
        ((pixel as int / 0x1_0000) % 0x100) as u8
    } else if channel == 1 {
        ((pixel as int / 0x100) % 0x100) as u8
    } else {
        (pixel as int % 0x100) as u8
    }
}

/// The bytes that encode a run of pixels: three for each pixel, in order.
pub open spec fn stripe_bytes(pixels: Seq<u32>) -> Seq<u8> {
    Seq::new(3 * pixels.len(), |i: int| channel_byte(pixels[i / 3], i % 3))
}

/// The three bytes that encode a pixel.
pub fn pixel_bytes(pixel: u32) -> (bytes: (u8, u8, u8))
    ensures
        bytes.0 == channel_byte(pixel, 0),
        bytes.1 == channel_byte(pixel, 1),
        bytes.2 == channel_byte(pixel, 2),
{
    let red: u32 = (pixel >> 16) & 0xff;
    let green: u32 = (pixel >> 8) & 0xff;
    let blue: u32 = pixel & 0xff;
    assert((pixel >> 16) & 0xff == (pixel / 0x1_0000) % 0x100) by (bit_vector);
    assert((pixel >> 8) & 0xff == (pixel / 0x100) % 0x100) by (bit_vector);
    assert(pixel & 0xff == pixel % 0x100) by (bit_vector);
    (red as u8, green as u8, blue as u8)
}

/// Encodes the `len` pixels of `pixels` from the place `from` on.
pub fn encode_pixels(pixels: &[u32], from: usize, len: usize) -> (data: StripeData)
    requires
        from + len <= pixels.len(),
        len <= SCREEN_MAX_STRIPE_LEN,
    ensures
        bytes_of(data) == stripe_bytes(pixels@.subrange(from as int, from + len)),
{
    let mut data = new_stripe_data();
    let mut done: usize = 0;
    assert(bytes_of(data) =~= stripe_bytes(pixels@.subrange(from as int, from + 0)));
    while done < len
        invariant
            done <= len,
            len <= SCREEN_MAX_STRIPE_LEN,
            from + len <= pixels.len(),
            bytes_of(data) == stripe_bytes(pixels@.subrange(from as int, from + done)),
        decreases len - done,
    {
        let ghost before = bytes_of(data);
        let pixel = pixels[from + done];
        let (red, green, blue) = pixel_bytes(pixel);
        let _ = push_stripe_byte(&mut data, red);
        let _ = push_stripe_byte(&mut data, green);
        let _ = push_stripe_byte(&mut data, blue);
        proof {
            let sofar = pixels@.subrange(from as int, from + done);
            let next = pixels@.subrange(from as int, from + done + 1);
            assert(before.len() == 3 * done);
            assert(bytes_of(data) == before.push(red).push(green).push(blue));
            assert forall|i: int| 0 <= i < 3 * (done + 1) implies bytes_of(data)[i]
                == #[trigger] stripe_bytes(next)[i] by {
                if i < 3 * done {
                    assert(bytes_of(data)[i] == stripe_bytes(sofar)[i]);
                    assert(sofar[i / 3] == next[i / 3]);
                } else {
                    assert(i / 3 == done);
                    assert(next[i / 3] == pixel);
                }
            }
            assert(bytes_of(data) =~= stripe_bytes(next));
        }
        done += 1;
    }
    data
}

} // verus!
