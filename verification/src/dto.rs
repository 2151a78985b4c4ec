//! The values that cross the wire between the store and its remote viewers.

pub mod display;
pub mod gpio;
pub mod web;
