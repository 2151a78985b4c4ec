//! A simulated hardware abstraction layer: digital and analog pins and
//! framebuffer displays, held in one store, observed by any number of remote
//! sessions that each drain their own minimal sequence of update events.
//!
//! The store and the sessions are plain state, and each operation on them
//! is one step. What suspends a task or moves bytes is left to the program
//! around this library: a task suspends on the waker of a signal, which
//! the operations here raise, and sends what a step hands out.
//!
//! - `peripherals`: the store, what firmware and viewers do to it, and the
//!   draining of its changes.
//! - `gpio`, `display`, `adc`: pins and displays in the store, and the
//!   handles of firmware to them.
//! - `web`, `ws`, `io`: the sessions of the viewers, the broadcast that
//!   feeds them, and the observer that drains the store itself.
//! - `drain`: which events pending changes call for, in which order, and
//!   how many.
//! - `dto`: the messages of the wire protocol.
//! - `notification`: the coalescing wake signal, and the wakers of
//!   `channel-bridge` behind it.
//! - `bounded`: the fixed-capacity containers that messages carry.

pub mod adc;
pub mod bounded;
pub mod display;
pub mod drain;
pub mod dto;
pub mod gpio;
pub mod io;
pub mod notification;
pub mod peripherals;
pub mod web;
pub mod ws;
