//! The SBI dispatch bridge: marshals the supervisor's register-passed
//! arguments into a call descriptor for the externally supplied SBI function
//! dispatcher, and writes the dispatcher's answer back into the supervisor
//! context, bit-exactly as the SBI calling convention demands.

use vstd::prelude::*;
use crate::context::SupervisorContext;

verus! {

/// The result pair an SBI dispatcher reports: an error code (zero meaning
/// success) and a value.
#[derive(Clone, Copy, PartialEq, Eq, Structural, Debug)]
pub struct SbiAnswer {
    pub error: usize,
    pub value: usize,
}

/// The SBI error code that signals success.
pub const SBI_SUCCESS: usize = 0;

/// The call descriptor read from a supervisor context on an environment
/// call: extension id from a7, function id from a6, six arguments from
/// a0..a5.
#[derive(Clone, Copy, Debug)]
pub struct SbiCallArgs {
    pub extension: usize,
    pub function: usize,
    pub param: [usize; 6],
}

/// Reads the SBI call descriptor out of a trapped supervisor context,
/// without changing the context.
pub fn marshal_sbi_args(ctx: &SupervisorContext) -> (r: SbiCallArgs)
    ensures
        r.extension == ctx.a7,
        r.function == ctx.a6,
        r.param@ == seq![ctx.a0, ctx.a1, ctx.a2, ctx.a3, ctx.a4, ctx.a5],
{
    let param = [ctx.a0, ctx.a1, ctx.a2, ctx.a3, ctx.a4, ctx.a5];
    proof {
        assert(param@ =~= seq![ctx.a0, ctx.a1, ctx.a2, ctx.a3, ctx.a4, ctx.a5]);
    }
    SbiCallArgs { extension: ctx.a7, function: ctx.a6, param }
}

/// The saved program counter advanced past the 4-byte environment-call
/// instruction, with the same wrap-around the hardware register has.
pub open spec fn mepc_past_ecall(pc: usize) -> usize {
    if pc + 4 > usize::MAX {
        (pc + 4 - (usize::MAX + 1)) as usize
    } else {
        (pc + 4) as usize
    }
}

/// The context after one dispatch-and-writeback cycle: error code in a0,
/// value in a1, every other register bit-identical, program counter moved
/// past the environment-call instruction.
pub open spec fn dispatched(ctx: SupervisorContext, ans: SbiAnswer) -> SupervisorContext {
    SupervisorContext {
        a0: ans.error,
        a1: ans.value,
        mepc: mepc_past_ecall(ctx.mepc),
        ..ctx
    }
}

/// One dispatch-and-writeback cycle over a trapped supervisor context, given
/// the answer the SBI dispatcher reported for it: the error code lands in a0
/// and the value in a1, a2..a7 stay bit-identical, and the saved program
/// counter moves exactly 4 bytes past the environment-call instruction so
/// that resuming never re-executes it.
pub fn write_dispatch_answer(ctx: &mut SupervisorContext, ans: SbiAnswer)
    ensures
        *final(ctx) == dispatched(*old(ctx), ans),
        final(ctx).a0 == ans.error,
        final(ctx).a1 == ans.value,
        final(ctx).a2 == old(ctx).a2,
        final(ctx).a3 == old(ctx).a3,
        final(ctx).a4 == old(ctx).a4,
        final(ctx).a5 == old(ctx).a5,
        final(ctx).a6 == old(ctx).a6,
        final(ctx).a7 == old(ctx).a7,
        final(ctx).mepc == mepc_past_ecall(old(ctx).mepc),
{
    ctx.a0 = ans.error;
    ctx.a1 = ans.value;
    ctx.mepc = ctx.mepc.wrapping_add(4);
}

} // verus!
