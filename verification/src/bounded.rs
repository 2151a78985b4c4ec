//! The fixed-capacity containers of `heapless` that travel in wire messages.
//!
//! Nothing in this module is proved: each function here states what the
//! `heapless` source shows of the call in its body.

use vstd::prelude::*;

use crate::dto::web::SCREEN_MAX_STRIPE_U8_LEN;

verus! {

/// Capacity, in bytes, of the names carried in pin and display metadata.
pub const NAME_CAPACITY: usize = 64;

/// A name of at most `NAME_CAPACITY` bytes.
pub type Name = heapless::String<NAME_CAPACITY>;

/// The pixel bytes of one stripe.
pub type StripeData = heapless::Vec<u8, SCREEN_MAX_STRIPE_U8_LEN>;

/// `heapless::String`: a string in a buffer of `N` bytes. Opaque here; what
/// a name holds is `text_of`.
#[verifier::external_type_specification]
#[verifier::external_body]
pub struct ExString<const N: usize>(heapless::String<N>);

/// `heapless::Vec`: a vector in a buffer of `N` items. Opaque here; what a
/// stripe buffer holds is `bytes_of`.
#[verifier::external_type_specification]
#[verifier::external_body]
#[verifier::reject_recursive_types(T)]
pub struct ExVec<T, const N: usize>(heapless::Vec<T, N>);

/// The characters that a name holds, in order.
pub uninterp spec fn text_of(name: heapless::String<NAME_CAPACITY>) -> Seq<char>;

/// The bytes that a stripe buffer holds, in order.
pub uninterp spec fn bytes_of(data: heapless::Vec<u8, SCREEN_MAX_STRIPE_U8_LEN>) -> Seq<u8>;

/// `<heapless::String<N> as Clone>::clone`: the copy holds the characters
/// that `name` holds.
#[verifier::external_body]
pub(crate) fn clone_name(name: &Name) -> (copy: Name)
    ensures
        text_of(copy) == text_of(*name),
{
    name.clone()
}

/// `heapless::Vec::new`: the new buffer is empty.
#[verifier::external_body]
pub(crate) fn new_stripe_data() -> (data: StripeData)
    ensures
        bytes_of(data) == Seq::<u8>::empty(),
{
    heapless::Vec::new()
}

/// `heapless::Vec::push`: below capacity the byte is appended and `Ok` comes
/// back; at capacity nothing changes and the byte comes back in `Err`.
#[verifier::external_body]
pub(crate) fn push_stripe_byte(data: &mut StripeData, byte: u8) -> (pushed: Result<(), u8>)
    ensures
        pushed.is_ok() == (bytes_of(*old(data)).len() < SCREEN_MAX_STRIPE_U8_LEN),
        pushed.is_ok() ==> bytes_of(*final(data)) == bytes_of(*old(data)).push(byte),
        pushed matches Err(back) ==> back == byte && bytes_of(*final(data)) == bytes_of(*old(data)),
{
    data.push(byte)
}

/// `<heapless::Vec<T, N> as Clone>::clone`: the copy holds the bytes that
/// `data` holds.
#[verifier::external_body]
pub(crate) fn clone_stripe_data(data: &StripeData) -> (copy: StripeData)
    ensures
        bytes_of(copy) == bytes_of(*data),
{
    data.clone()
}

} // verus!
