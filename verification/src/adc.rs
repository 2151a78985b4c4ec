//! The analog-to-digital converters that analog pins are read through.

use vstd::prelude::*;

use core::marker::PhantomData;

verus! {

/// A converter, by the number of its channel.
pub trait AdcTrait {
    fn channel() -> u8;
}

/// The converter with the channel `ID`.
#[derive(Debug)]
pub struct Adc<const ID: u8>(PhantomData<u8>);

impl<const ID: u8> Adc<ID> {
    pub fn new() -> Self {
        Adc(PhantomData)
    }
}

impl<const ID: u8> AdcTrait for Adc<ID> {
    fn channel() -> (channel: u8)
        ensures
            channel == ID,
    {
        ID
    }
}

} // verus!
