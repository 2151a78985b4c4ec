//! The step of an observer of the store: what it sends when it was woken.
//!
//! An observer has a signal that wakes it, and may have cursors of its own.
//! One without cursors drains the records of the store itself, and is the
//! only observer of that store: its signal is the one that every change of
//! a peripheral is to raise.

use vstd::prelude::*;

pub use crate::dto::web::{WebEvent, WebRequest};

use crate::drain::{display_cursor_view, event_view, pin_cursor_view, Drained};
use crate::dto::display::Change as DisplayChange;
use crate::gpio::Change as PinChange;
use crate::notification::Notifier;
use crate::peripherals::{PeripheralStore, Peripherals};

verus! {

/// Raises the signal of the observer, as every change of a peripheral is to
/// do where the observer drains the store itself.
pub fn peripherals_callback(notification: &mut Notifier)
    ensures
        final(notification)@,
{
    notification.notify();
}

/// One step of the drain loop: the next event for the transport to send,
/// or `None` where the observer has to wait for its signal.
///
/// An observer whose signal is not raised does nothing. One whose signal is
/// raised drains one event, pins before displays and lesser ids first; its
/// signal stays raised for as long as it drains an event, so that the next
/// step goes on draining, and is cleared when nothing is pending.
pub fn send(
    store: &mut PeripheralStore,
    pins_changes: &mut Option<Vec<PinChange>>,
    displays_changes: &mut Option<Vec<DisplayChange>>,
    notification: &mut Notifier,
) -> (event: Option<WebEvent>)
    requires
        old(store)@.wf(),
        old(store)@.fits_displays(display_cursor_view(*old(displays_changes))),
    ensures
        final(store)@.wf(),
        final(store)@.fits_displays(display_cursor_view(*final(displays_changes))),
        final(notification)@ == (event is Some),
        !old(notification)@ ==> event is None,
        !old(notification)@ ==> final(store)@ == old(store)@,
        !old(notification)@ ==> *final(pins_changes) == *old(pins_changes),
        !old(notification)@ ==> *final(displays_changes) == *old(displays_changes),
        old(notification)@ ==> (Drained {
            event: event_view(event),
            store: final(store)@,
            pins_changes: pin_cursor_view(*final(pins_changes)),
            displays_changes: display_cursor_view(*final(displays_changes)),
        }) == old(store)@.fetch(
            pin_cursor_view(*old(pins_changes)),
            display_cursor_view(*old(displays_changes)),
        ),
{
    if notification.poll_wait() {
        let event = Peripherals::fetch(store, pins_changes, displays_changes);
        if event.is_some() {
            notification.hold();
        }
        event
    } else {
        None
    }
}

} // verus!
