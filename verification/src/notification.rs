//! A single-slot, coalescing wake signal.

use vstd::prelude::*;

use std::sync::Arc;

use channel_bridge::notification::Notification;

verus! {

/// `channel_bridge::notification::Notification`: what a suspended task
/// waits on. Opaque here: nothing is claimed of what it holds.
#[verifier::external_type_specification]
#[verifier::external_body]
pub struct ExNotification(Notification);

/// `Notification::new` makes a notification that nobody waits on yet.
/// Nothing is claimed of the result.
pub assume_specification[ Notification::new ]() -> Notification;

/// `Notification::notify` wakes the task that waits on the notification, or
/// the next one that will. Nothing is claimed: the call only has to
/// return, which it does.
pub assume_specification[ Notification::notify ](notification: &Notification);

/// `Notification::reset` forgets that the notification was notified.
/// Nothing is claimed: the call only has to return, which it does.
pub assume_specification[ Notification::reset ](notification: &Notification);

/// `<Arc<Notification> as Clone>::clone` gives another handle to the same
/// allocation: what the result points to is what `waker` points to.
#[verifier::external_body]
fn share(waker: &Arc<Notification>) -> (shared: Arc<Notification>)
    ensures
        shared == *waker,
{
    waker.clone()
}

/// A binary signal between the one that changes something and the one that
/// waits for changes. Any number of `notify` calls before the signal is
/// observed count as one; observing it clears it.
///
/// The signal has two sides. The flag is the state that the steps of this
/// library decide by: whether a notification is pending. The waker is what
/// a task suspends on, outside this library, until the signal is raised.
pub struct Notifier {
    triggered: bool,
    waker: Arc<Notification>,
}

impl View for Notifier {
    type V = bool;

    /// Whether a notification is pending.
    closed spec fn view(&self) -> bool {
        self.triggered
    }
}

impl Notifier {
    /// The notification that the signal wakes, and that a task suspends on.
    /// A signal keeps the one that it was made with.
    pub closed spec fn waker_of(&self) -> Arc<Notification> {
        self.waker
    }

    /// A signal with nothing pending.
    pub fn new() -> (notifier: Self)
        ensures
            !notifier@,
    {
        Notifier { triggered: false, waker: Arc::new(Notification::new()) }
    }

    /// Forgets a pending notification.
    pub fn reset(&mut self)
        ensures
            !final(self)@,
            final(self).waker_of() == old(self).waker_of(),
    {
        self.triggered = false;
        self.waker.reset();
    }

    /// Raises the signal, and wakes the task that waits for it. Raising a
    /// raised signal changes nothing.
    pub fn notify(&mut self)
        ensures
            final(self)@,
            final(self).waker_of() == old(self).waker_of(),
    {
        self.triggered = true;
        self.waker.notify();
    }

    /// Whether a notification is pending.
    pub fn triggered(&self) -> (pending: bool)
        ensures
            pending == self@,
    {
        self.triggered
    }

    /// Observes the signal: says whether a notification was pending, and
    /// clears it. Where this returns `false` the caller has to wait for the
    /// next `notify`.
    pub fn poll_wait(&mut self) -> (woken: bool)
        ensures
            woken == old(self)@,
            !final(self)@,
            final(self).waker_of() == old(self).waker_of(),
    {
        let woken = self.triggered;
        self.triggered = false;
        self.waker.reset();
        woken
    }

    /// Keeps the signal raised for the one that has just observed it, and
    /// is not done: nobody is woken.
    pub fn hold(&mut self)
        ensures
            final(self)@,
            final(self).waker_of() == old(self).waker_of(),
    {
        self.triggered = true;
    }

    /// What a task suspends on until the signal is raised: another handle
    /// to the notification that `notify` wakes.
    pub fn waker(&self) -> (waker: Arc<Notification>)
        ensures
            waker == self.waker_of(),
    {
        share(&self.waker)
    }
}

} // verus!
