//! The inter-hart notifier (CLINT) register set: one software-interrupt
//! pending flag and one 64-bit timer compare value per hart, plus one shared
//! running counter. Any hart may set another hart's pending flag; only the
//! owning hart clears its own.

use vstd::prelude::*;

verus! {

/// The CLINT register state, one pending flag and one compare value per hart.
pub struct Clint {
    pub msip: Vec<bool>,
    pub mtimecmp: Vec<u64>,
    pub mtime: u64,
}

impl Clint {
    /// Well-formed for an `n`-hart system: one slot per hart.
    pub open spec fn wf(self, n: int) -> bool {
        &&& self.msip@.len() == n
        &&& self.mtimecmp@.len() == n
    }

    /// The reset state: no interrupt pending, every compare value zero.
    pub fn at_reset(n_harts: usize) -> (r: Clint)
        ensures
            r.wf(n_harts as int),
            forall|i: int| 0 <= i < n_harts ==> !r.msip@[i],
            forall|i: int| 0 <= i < n_harts ==> r.mtimecmp@[i] == 0,
            r.mtime == 0,
    {
        let mut msip: Vec<bool> = Vec::new();
        let mut mtimecmp: Vec<u64> = Vec::new();
        let mut i: usize = 0;
        while i < n_harts
            invariant
                i <= n_harts,
                msip@.len() == i,
                mtimecmp@.len() == i,
                forall|j: int| 0 <= j < i ==> !msip@[j],
                forall|j: int| 0 <= j < i ==> mtimecmp@[j] == 0,
            decreases n_harts - i,
        {
            msip.push(false);
            mtimecmp.push(0);
            i = i + 1;
        }
        Clint { msip, mtimecmp, mtime: 0 }
    }

    /// Sends an inter-hart software interrupt: raises the target hart's
    /// pending flag. Any hart may do this to any hart.
    pub fn send_soft(&mut self, target_hart: usize)
        requires
            target_hart < old(self).msip@.len(),
        ensures
            final(self).msip@ == old(self).msip@.update(target_hart as int, true),
            final(self).mtimecmp@ == old(self).mtimecmp@,
            final(self).mtime == old(self).mtime,
    {
        self.msip.set(target_hart, true);
    }

    /// Clears this hart's own pending software interrupt.
    pub fn clear_soft(&mut self, hart_id: usize)
        requires
            hart_id < old(self).msip@.len(),
        ensures
            final(self).msip@ == old(self).msip@.update(hart_id as int, false),
            final(self).mtimecmp@ == old(self).mtimecmp@,
            final(self).mtime == old(self).mtime,
    {
        self.msip.set(hart_id, false);
    }

    /// Reads this hart's pending software interrupt flag.
    pub fn read_msip(&self, hart_id: usize) -> (r: bool)
        requires
            hart_id < self.msip@.len(),
        ensures
            r == self.msip@[hart_id as int],
    {
        self.msip[hart_id]
    }

    /// Programs this hart's timer compare register.
    pub fn set_timer(&mut self, hart_id: usize, instant: u64)
        requires
            hart_id < old(self).mtimecmp@.len(),
        ensures
            final(self).mtimecmp@ == old(self).mtimecmp@.update(hart_id as int, instant),
            final(self).msip@ == old(self).msip@,
            final(self).mtime == old(self).mtime,
    {
        self.mtimecmp.set(hart_id, instant);
    }
}

} // verus!
