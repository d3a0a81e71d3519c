//! The saved supervisor register state of one hart, and the classes of trap
//! that return control to machine mode.

use vstd::prelude::*;

verus! {

/// Register snapshot of a hart's supervisor execution, saved at every trap
/// into machine mode: the eight argument registers a0..a7 and the saved
/// program counter. Each hart owns exactly one of these; between two
/// resumptions only the dispatch bridge may mutate it.
#[derive(Clone, Copy, PartialEq, Eq, Structural, Debug)]
pub struct SupervisorContext {
    pub a0: usize,
    pub a1: usize,
    pub a2: usize,
    pub a3: usize,
    pub a4: usize,
    pub a5: usize,
    pub a6: usize,
    pub a7: usize,
    /// Saved supervisor program counter (the machine exception program counter).
    pub mepc: usize,
}

impl SupervisorContext {
    /// The context a hart's runtime starts from: the supervisor entry point in
    /// the program counter, the hart id in a0 and the handoff value in a1, as
    /// the platform calling convention demands at kernel entry.
    pub open spec fn at_entry(supervisor_mepc: usize, hart_id: usize, opaque: usize) -> SupervisorContext {
        SupervisorContext {
            a0: hart_id,
            a1: opaque,
            a2: 0,
            a3: 0,
            a4: 0,
            a5: 0,
            a6: 0,
            a7: 0,
            mepc: supervisor_mepc,
        }
    }

    pub fn new_at_entry(supervisor_mepc: usize, hart_id: usize, opaque: usize) -> (r: SupervisorContext)
        ensures
            r == SupervisorContext::at_entry(supervisor_mepc, hart_id, opaque),
    {
        SupervisorContext {
            a0: hart_id,
            a1: opaque,
            a2: 0,
            a3: 0,
            a4: 0,
            a5: 0,
            a6: 0,
            a7: 0,
            mepc: supervisor_mepc,
        }
    }
}

/// Why control returned to machine mode while supervisor code was running.
#[derive(Clone, Copy, PartialEq, Eq, Structural, Debug)]
pub enum MachineTrap {
    /// An environment call from supervisor mode: a request for firmware service.
    SbiCall,
    /// An instruction machine mode would have to emulate.
    IllegalInstruction,
    /// The machine-mode timer compare fired.
    MachineTimer,
    /// An inter-hart software interrupt fired while supervisor code ran.
    MachineSoft,
}

} // verus!
