//! The per-hart trap/resume state machine: supervisor code runs until the
//! hardware forces a return to machine mode, and that return is exposed as a
//! discrete, typed suspension. On top of it, the trap loop that serves SBI
//! calls, translates the machine timer interrupt into a supervisor one, and
//! treats the unimplemented trap classes as fatal for the hart.

use vstd::prelude::*;
use crate::context::MachineTrap;
use crate::context::SupervisorContext;
use crate::csr::HartCsrs;
use crate::sbi::SbiAnswer;
use crate::sbi::dispatched;
use crate::sbi::write_dispatch_answer;

verus! {

/// Where the state machine stands: not yet driven, suspended with the
/// context open for inspection, or finished for good.
#[derive(Clone, Copy, PartialEq, Eq, Structural, Debug)]
pub enum RuntimeState {
    NotStarted,
    Suspended,
    Completed,
}

/// The cooperative trap/resume state machine of one hart. Only the owning
/// hart drives it; between suspensions the caller may inspect and mutate the
/// supervisor context, and those mutations take effect at the next resume.
#[derive(Clone, Copy, PartialEq, Eq, Structural, Debug)]
pub struct Runtime {
    pub context: SupervisorContext,
    pub state: RuntimeState,
    pub hart_id: usize,
}

/// What the hardware reports when a resumption ends: a trap that suspended
/// supervisor execution together with the register state saved at that
/// moment, or the completion of the trapped program.
#[derive(Clone, Copy, PartialEq, Eq, Structural, Debug)]
pub enum ResumeEvent {
    Trap(MachineTrap, SupervisorContext),
    Finish,
}

/// What one resume call reports to the driving loop.
#[derive(Clone, Copy, PartialEq, Eq, Structural, Debug)]
pub enum ResumeOutcome {
    Suspended(MachineTrap),
    Completed,
}

impl Runtime {
    /// Builds the runtime for one hart's supervisor execution: the supervisor
    /// entry point in the program counter, the hart id in a0 and the handoff
    /// value in a1. Performs no side effect until first driven.
    pub fn new_sbi_supervisor(supervisor_mepc: usize, hart_id: usize, opaque: usize) -> (r: Runtime)
        ensures
            r.context == SupervisorContext::at_entry(supervisor_mepc, hart_id, opaque),
            r.state == RuntimeState::NotStarted,
            r.hart_id == hart_id,
    {
        Runtime {
            context: SupervisorContext::new_at_entry(supervisor_mepc, hart_id, opaque),
            state: RuntimeState::NotStarted,
            hart_id,
        }
    }

    /// Drives the machine one step, with what the hardware reported handed
    /// in as an explicit event: a trap leaves the machine suspended holding
    /// the registers saved at the trap, completion is terminal. May not be
    /// called once completed.
    pub fn resume(&mut self, event: ResumeEvent) -> (r: ResumeOutcome)
        requires
            old(self).state != RuntimeState::Completed,
        ensures
            final(self).hart_id == old(self).hart_id,
            (event matches ResumeEvent::Trap(t, regs) ==> final(self).state
                == RuntimeState::Suspended && final(self).context == regs && r
                == ResumeOutcome::Suspended(t)),
            event == ResumeEvent::Finish ==> final(self).state == RuntimeState::Completed
                && final(self).context == old(self).context && r == ResumeOutcome::Completed,
    {
        match event {
            ResumeEvent::Trap(t, regs) => {
                self.context = regs;
                self.state = RuntimeState::Suspended;
                ResumeOutcome::Suspended(t)
            },
            ResumeEvent::Finish => {
                self.state = RuntimeState::Completed;
                ResumeOutcome::Completed
            },
        }
    }
}

/// Whether machine-mode handling may continue after a trap, or the hart must
/// halt because the trap class is unimplemented.
#[derive(Clone, Copy, PartialEq, Eq, Structural, Debug)]
pub enum TrapOutcome {
    Handled,
    Fatal,
}

/// The hart control state after the machine timer path ran: the supervisor
/// timer interrupt is raised and the machine timer interrupt is masked until
/// the runtime arms it again.
pub open spec fn timer_translated(csrs: HartCsrs) -> HartCsrs {
    HartCsrs { mip_stimer: true, mie_mtimer: false, ..csrs }
}

/// Machine-mode handling of one suspension. An SBI call gets the externally
/// supplied dispatcher's answer written back bit-exactly; a machine timer
/// interrupt is translated into a pending supervisor timer interrupt with
/// the machine timer masked; the unimplemented classes (illegal instruction
/// emulation, stray machine software interrupt) are fatal for the hart and
/// change nothing.
pub fn handle_trap(
    ctx: &mut SupervisorContext,
    csrs: &mut HartCsrs,
    trap: MachineTrap,
    sbi_answer: SbiAnswer,
) -> (r: TrapOutcome)
    ensures
        trap == MachineTrap::SbiCall ==> r == TrapOutcome::Handled && *final(ctx) == dispatched(
            *old(ctx),
            sbi_answer,
        ) && *final(csrs) == *old(csrs),
        trap == MachineTrap::MachineTimer ==> r == TrapOutcome::Handled && *final(ctx) == *old(ctx)
            && *final(csrs) == timer_translated(*old(csrs)),
        trap == MachineTrap::IllegalInstruction || trap == MachineTrap::MachineSoft ==> r
            == TrapOutcome::Fatal && *final(ctx) == *old(ctx) && *final(csrs) == *old(csrs),
{
    match trap {
        MachineTrap::SbiCall => {
            write_dispatch_answer(ctx, sbi_answer);
            TrapOutcome::Handled
        },
        MachineTrap::MachineTimer => {
            csrs.mip_stimer = true;
            csrs.mie_mtimer = false;
            TrapOutcome::Handled
        },
        MachineTrap::IllegalInstruction => TrapOutcome::Fatal,
        MachineTrap::MachineSoft => TrapOutcome::Fatal,
    }
}

/// One suspension of the trap loop as the driving harness sees it: what the
/// hardware reported, and — read only when the trap is an SBI call — the
/// answer the externally supplied SBI dispatcher returned for the call the
/// saved registers describe.
#[derive(Clone, Copy, PartialEq, Eq, Structural, Debug)]
pub struct LoopEvent {
    pub event: ResumeEvent,
    pub sbi_answer: SbiAnswer,
}

/// A loop event whose handling lets the hart keep serving traps.
pub open spec fn event_handled(e: LoopEvent) -> bool {
    match e.event {
        ResumeEvent::Trap(t, _) => t == MachineTrap::SbiCall || t == MachineTrap::MachineTimer,
        ResumeEvent::Finish => false,
    }
}

/// A loop event whose handling raises the supervisor timer interrupt: a
/// machine timer trap.
pub open spec fn timer_event(e: LoopEvent) -> bool {
    match e.event {
        ResumeEvent::Trap(t, _) => t == MachineTrap::MachineTimer,
        ResumeEvent::Finish => false,
    }
}

/// How the trap loop ended.
#[derive(Clone, Copy, PartialEq, Eq, Structural, Debug)]
pub enum LoopExit {
    /// Every injected event was served; on hardware the loop never ends.
    EventsExhausted,
    /// An unimplemented trap class was reached: the hart must halt.
    Fatal(MachineTrap),
    /// The trapped program finished for good.
    Completed,
}

/// The trap loop of one hart: builds the runtime for the supervisor entry
/// point and serves one suspension after the other, with the hardware's
/// reports injected as an explicit event sequence. SBI calls are answered
/// bit-exactly, the machine timer is translated for the supervisor, an
/// unimplemented trap class halts the hart, and the delegation configuration
/// is never touched.
pub fn execute_supervisor(
    supervisor_mepc: usize,
    hart_id: usize,
    opaque: usize,
    csrs: &mut HartCsrs,
    events: &Vec<LoopEvent>,
) -> (r: (Runtime, LoopExit))
    ensures
        r.0.hart_id == hart_id,
        events@.len() == 0 ==> r.1 == LoopExit::EventsExhausted && r.0.context
            == SupervisorContext::at_entry(supervisor_mepc, hart_id, opaque),
        (r.1 matches LoopExit::Fatal(t) ==> (t == MachineTrap::IllegalInstruction || t
            == MachineTrap::MachineSoft) && (exists|i: int|
            0 <= i < events@.len() && (#[trigger] events@[i].event) == ResumeEvent::Trap(
                t,
                r.0.context,
            ))),
        (forall|j: int| 0 <= j < events@.len() ==> event_handled(#[trigger] events@[j])) ==> r.1
            == LoopExit::EventsExhausted,
        (forall|k: int|
            0 <= k < events@.len() && !event_handled(#[trigger] events@[k]) && (forall|j: int|
                0 <= j < k ==> event_handled(#[trigger] events@[j])) ==> (events@[k].event matches
            ResumeEvent::Trap(t, regs) ==> r.1 == LoopExit::Fatal(t) && r.0.context == regs)),
        (forall|k: int|
            0 <= k < events@.len() && !event_handled(#[trigger] events@[k]) && (forall|j: int|
                0 <= j < k ==> event_handled(#[trigger] events@[j])) ==> (events@[k].event
            == ResumeEvent::Finish ==> r.1 == LoopExit::Completed && (k == 0 ==> r.0.context
            == SupervisorContext::at_entry(supervisor_mepc, hart_id, opaque)) && (k > 0 ==> (
            events@[k - 1].event matches ResumeEvent::Trap(t2, regs2) ==> ((t2
                == MachineTrap::SbiCall ==> r.0.context == dispatched(
                regs2,
                events@[k - 1].sbi_answer,
            )) && (t2 == MachineTrap::MachineTimer ==> r.0.context == regs2)))))),
        r.1 == LoopExit::EventsExhausted ==> final(csrs).mip_stimer == (old(csrs).mip_stimer || (
        exists|j: int| 0 <= j < events@.len() && timer_event(#[trigger] events@[j]))),
        r.1 == LoopExit::EventsExhausted ==> final(csrs).mie_mtimer == (old(csrs).mie_mtimer && !(
        exists|j: int| 0 <= j < events@.len() && timer_event(#[trigger] events@[j]))),
        r.1 == LoopExit::Completed ==> r.0.state == RuntimeState::Completed && (exists|i: int|
            0 <= i < events@.len() && (#[trigger] events@[i].event) == ResumeEvent::Finish),
        (r.1 == LoopExit::EventsExhausted && events@.len() > 0 ==> (events@[events@.len()
            - 1].event matches ResumeEvent::Trap(t, regs) ==> ((t == MachineTrap::SbiCall
            ==> r.0.context == dispatched(regs, events@[events@.len() - 1].sbi_answer)) && (t
            == MachineTrap::MachineTimer ==> r.0.context == regs && final(csrs).mip_stimer
            && !final(csrs).mie_mtimer)))),
        final(csrs).mideleg == old(csrs).mideleg,
        final(csrs).medeleg == old(csrs).medeleg,
        final(csrs).mie_mext == old(csrs).mie_mext,
        final(csrs).mie_msoft == old(csrs).mie_msoft,
{
    let mut rt = Runtime::new_sbi_supervisor(supervisor_mepc, hart_id, opaque);
    let mut i: usize = 0;
    while i < events.len()
        invariant
            rt.hart_id == hart_id,
            rt.state != RuntimeState::Completed,
            i <= events@.len(),
            forall|j: int| 0 <= j < i ==> event_handled(#[trigger] events@[j]),
            csrs.mip_stimer == (old(csrs).mip_stimer || (exists|j: int|
                0 <= j < i && timer_event(#[trigger] events@[j]))),
            csrs.mie_mtimer == (old(csrs).mie_mtimer && !(exists|j: int|
                0 <= j < i && timer_event(#[trigger] events@[j]))),
            i == 0 ==> rt.context == SupervisorContext::at_entry(supervisor_mepc, hart_id, opaque),
            i > 0 ==> (events@[i - 1].event matches ResumeEvent::Trap(t, regs) ==> ((t
                == MachineTrap::SbiCall ==> rt.context == dispatched(
                regs,
                events@[i - 1].sbi_answer,
            )) && (t == MachineTrap::MachineTimer ==> rt.context == regs && csrs.mip_stimer
                && !csrs.mie_mtimer))),
            csrs.mideleg == old(csrs).mideleg,
            csrs.medeleg == old(csrs).medeleg,
            csrs.mie_mext == old(csrs).mie_mext,
            csrs.mie_msoft == old(csrs).mie_msoft,
        decreases events@.len() - i,
    {
        let ev = events[i];
        match rt.resume(ev.event) {
            ResumeOutcome::Suspended(t) => {
                let outcome = handle_trap(&mut rt.context, csrs, t, ev.sbi_answer);
                if outcome == TrapOutcome::Fatal {
                    proof {
                        assert(!event_handled(events@[i as int]));
                        assert(events@[i as int].event == ResumeEvent::Trap(t, rt.context));
                    }
                    return (rt, LoopExit::Fatal(t));
                }
            },
            ResumeOutcome::Completed => {
                proof {
                    assert(events@[i as int].event == ResumeEvent::Finish);
                    assert(!event_handled(events@[i as int]));
                }
                return (rt, LoopExit::Completed);
            },
        }
        proof {
            if timer_event(events@[i as int]) {
                assert(exists|j: int|
                    0 <= j < i + 1 && timer_event(#[trigger] events@[j])) by {
                    assert(timer_event(events@[i as int]));
                }
            }
        }
        i = i + 1;
    }
    (rt, LoopExit::EventsExhausted)
}

} // verus!
