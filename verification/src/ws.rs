//! The broadcast that brings the changes of the store to the sessions.

use vstd::prelude::*;

use crate::peripherals::PeripheralStore;
use crate::web::Session;

verus! {

/// The number of viewers that are served at a time.
pub const WS_MAX_CONNECTIONS: usize = 2;

/// The largest frame that the transport of a viewer carries.
pub const WS_MAX_FRAME_LEN: usize = 512;

/// One round of the broadcast, to be made whenever the signal of the store
/// was raised. The cursors of every session grow until they have a place
/// for each pin and each display of the store; the record that the store
/// keeps of each is merged into its place; every session is woken. The
/// store is left as it is, its records included: a record is reset when
/// the first session drains the change. Only the signal of the store is
/// cleared, by which the round was called.
pub fn broadcast(store: &mut PeripheralStore, sessions: &mut Vec<Session>)
    requires
        old(store)@.wf(),
        forall|at: int|
            0 <= at < old(sessions)@.len() ==> (#[trigger] old(sessions)@[at])@.fits(old(store)@),
    ensures
        final(store)@ == old(store)@.heard(),
        final(store)@.wf(),
        final(sessions)@.len() == old(sessions)@.len(),
        forall|at: int|
            0 <= at < old(sessions)@.len() ==> (#[trigger] final(sessions)@[at])@
                == old(sessions)@[at]@.merged(old(store)@),
        forall|at: int|
            0 <= at < old(sessions)@.len() ==> (#[trigger] final(sessions)@[at])@.fits(final(store)@),
{
    let mut at: usize = 0;
    while at < sessions.len()
        invariant
            at <= sessions@.len(),
            sessions@.len() == old(sessions)@.len(),
            store@ == old(store)@,
            store@.wf(),
            forall|done: int|
                0 <= done < at ==> (#[trigger] sessions@[done])@
                    == old(sessions)@[done]@.merged(store@),
            forall|done: int| 0 <= done < at ==> (#[trigger] sessions@[done])@.fits(store@),
            forall|left: int|
                at <= left < sessions@.len() ==> #[trigger] sessions@[left] == old(sessions)@[left],
            forall|any: int|
                0 <= any < old(sessions)@.len() ==> (#[trigger] old(sessions)@[any])@.fits(
                    old(store)@,
                ),
        decreases sessions@.len() - at,
    {
        sessions[at].merge(store);
        at += 1;
    }
    let _ = store.poll_wait();
}

} // verus!
