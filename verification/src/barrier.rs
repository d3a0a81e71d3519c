//! The inter-hart synchronization barrier: a hart parks in a low-power wait
//! until it observes its own software-interrupt pending flag, then returns
//! with the pending flag cleared and the interrupt-enable state exactly as
//! it found it.

use vstd::prelude::*;
use crate::clint::Clint;
use crate::csr::HartCsrs;

verus! {

/// Enters the barrier: clears any stale pending notification, remembers
/// whether software-interrupt notifications were already enabled, and
/// enables them. Returns the remembered enable state.
pub fn pause_enter(csrs: &mut HartCsrs, clint: &mut Clint, hart_id: usize) -> (saved: bool)
    requires
        hart_id < old(clint).msip@.len(),
    ensures
        saved == old(csrs).mie_msoft,
        *final(csrs) == (HartCsrs { mie_msoft: true, ..*old(csrs) }),
        final(clint).msip@ == old(clint).msip@.update(hart_id as int, false),
        final(clint).mtimecmp@ == old(clint).mtimecmp@,
        final(clint).mtime == old(clint).mtime,
{
    clint.clear_soft(hart_id);
    let saved = csrs.mie_msoft;
    csrs.mie_msoft = true;
    saved
}

/// Leaves the barrier once the pending flag has been observed: restores the
/// enable state remembered at entry and clears the pending flag again, so a
/// later notification is not misread as left over from this wait.
pub fn pause_exit(csrs: &mut HartCsrs, clint: &mut Clint, hart_id: usize, saved: bool)
    requires
        hart_id < old(clint).msip@.len(),
        old(clint).msip@[hart_id as int],
        old(csrs).mie_msoft,
    ensures
        *final(csrs) == (HartCsrs { mie_msoft: saved, ..*old(csrs) }),
        final(clint).msip@ == old(clint).msip@.update(hart_id as int, false),
        final(clint).mtimecmp@ == old(clint).mtimecmp@,
        final(clint).mtime == old(clint).mtime,
{
    if !saved {
        csrs.mie_msoft = false;
    }
    clint.clear_soft(hart_id);
}

/// The software-interrupt notification that ends a wait, as an explicit
/// event: in hardware another hart raises this hart's pending flag while it
/// idles, here the event says after how many wait-for-interrupt polls the
/// flag appears.
#[derive(Clone, Copy, PartialEq, Eq, Structural, Debug)]
pub struct IpiArrival {
    pub after_polls: usize,
}

/// The whole barrier: park this hart until its software-interrupt pending
/// flag is observed set, with the notification injected as an explicit
/// event. On return the pending flag is clear and the software-interrupt
/// enable state is identical to its state before the call, whether the call
/// was entered with notifications enabled or disabled; nothing else of the
/// hart or of the notifier is changed.
pub fn pause(csrs: &mut HartCsrs, clint: &mut Clint, hart_id: usize, arrival: IpiArrival)
    requires
        hart_id < old(clint).msip@.len(),
    ensures
        *final(csrs) == *old(csrs),
        !final(clint).msip@[hart_id as int],
        final(clint).msip@ == old(clint).msip@.update(hart_id as int, false),
        final(clint).mtimecmp@ == old(clint).mtimecmp@,
        final(clint).mtime == old(clint).mtime,
{
    let ghost csrs_entry = *csrs;
    let ghost clint_entry = *clint;
    let saved = pause_enter(csrs, clint, hart_id);
    let mut polls_left: usize = arrival.after_polls;
    loop
        invariant
            hart_id < clint.msip@.len(),
            clint.msip@.len() == clint_entry.msip@.len(),
            *csrs == (HartCsrs { mie_msoft: true, ..csrs_entry }),
            saved == csrs_entry.mie_msoft,
            forall|i: int|
                0 <= i < clint.msip@.len() && i != hart_id ==> clint.msip@[i]
                    == clint_entry.msip@[i],
            clint.mtimecmp@ == clint_entry.mtimecmp@,
            clint.mtime == clint_entry.mtime,
        ensures
            hart_id < clint.msip@.len(),
            clint.msip@.len() == clint_entry.msip@.len(),
            clint.msip@[hart_id as int],
            *csrs == (HartCsrs { mie_msoft: true, ..csrs_entry }),
            forall|i: int|
                0 <= i < clint.msip@.len() && i != hart_id ==> clint.msip@[i]
                    == clint_entry.msip@[i],
            clint.mtimecmp@ == clint_entry.mtimecmp@,
            clint.mtime == clint_entry.mtime,
        decreases polls_left,
    {
        // Wait for interrupt: the modelled notification arrives once the
        // injected poll count runs out.
        if polls_left == 0 {
            clint.send_soft(hart_id);
        } else {
            polls_left = polls_left - 1;
        }
        if clint.read_msip(hart_id) {
            break;
        }
    }
    pause_exit(csrs, clint, hart_id, saved);
    proof {
        assert(clint.msip@ =~= clint_entry.msip@.update(hart_id as int, false));
        assert(*csrs == *old(csrs));
    }
}

} // verus!
