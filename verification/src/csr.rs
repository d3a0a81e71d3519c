//! Per-hart machine-level control state: which interrupts and exceptions are
//! delegated straight to supervisor mode, and which machine interrupts are
//! enabled or pending. This is the state the delegation configurator and the
//! trap loop decide over; the hardware registers it stands for are written by
//! the unverified embedding.

use vstd::prelude::*;

verus! {

/// Architectural bit positions of the delegable interrupts (mideleg).
pub const BIT_USOFT: usize = 0x1;
pub const BIT_SSOFT: usize = 0x2;
pub const BIT_UTIMER: usize = 0x10;
pub const BIT_STIMER: usize = 0x20;
pub const BIT_UEXT: usize = 0x100;
pub const BIT_SEXT: usize = 0x200;

/// Architectural bit positions of the delegable exceptions (medeleg).
pub const BIT_INSTRUCTION_MISALIGNED: usize = 0x1;
pub const BIT_INSTRUCTION_FAULT: usize = 0x2;
pub const BIT_BREAKPOINT: usize = 0x8;
pub const BIT_LOAD_FAULT: usize = 0x20;
pub const BIT_STORE_FAULT: usize = 0x80;
pub const BIT_USER_ENV_CALL: usize = 0x100;
pub const BIT_SUPERVISOR_ENV_CALL: usize = 0x200;
pub const BIT_INSTRUCTION_PAGE_FAULT: usize = 0x1000;
pub const BIT_LOAD_PAGE_FAULT: usize = 0x2000;
pub const BIT_STORE_PAGE_FAULT: usize = 0x8000;

/// Which interrupts trap directly to supervisor or user mode (mideleg),
/// one flag per delegable source.
#[derive(Clone, Copy, PartialEq, Eq, Structural, Debug)]
pub struct InterruptDelegation {
    pub usoft: bool,
    pub ssoft: bool,
    pub utimer: bool,
    pub stimer: bool,
    pub uext: bool,
    pub sext: bool,
}

/// Which exceptions trap directly to supervisor mode (medeleg),
/// one flag per delegable cause.
#[derive(Clone, Copy, PartialEq, Eq, Structural, Debug)]
pub struct ExceptionDelegation {
    pub instruction_misaligned: bool,
    pub instruction_fault: bool,
    pub breakpoint: bool,
    pub load_fault: bool,
    pub store_fault: bool,
    pub user_env_call: bool,
    /// The supervisor environment call: this is the SBI call path and must
    /// keep trapping into machine mode, so it is never delegated.
    pub supervisor_env_call: bool,
    pub instruction_page_fault: bool,
    pub load_page_fault: bool,
    pub store_page_fault: bool,
}

/// The machine-level control state of one hart that this firmware decides
/// over: delegation configuration, machine interrupt enables, and the
/// supervisor timer pending flag the timer path raises.
#[derive(Clone, Copy, PartialEq, Eq, Structural, Debug)]
pub struct HartCsrs {
    pub mideleg: InterruptDelegation,
    pub medeleg: ExceptionDelegation,
    /// Machine external interrupt enable (mie.MEIE).
    pub mie_mext: bool,
    /// Machine software interrupt enable (mie.MSIE).
    pub mie_msoft: bool,
    /// Machine timer interrupt enable (mie.MTIE).
    pub mie_mtimer: bool,
    /// Supervisor timer interrupt pending (mip.STIP), raised by machine mode
    /// to translate a machine timer interrupt into a supervisor one.
    pub mip_stimer: bool,
}

impl HartCsrs {
    /// Hardware reset state: nothing delegated, nothing enabled, nothing pending.
    pub open spec fn at_reset_spec() -> HartCsrs {
        HartCsrs {
            mideleg: InterruptDelegation {
                usoft: false,
                ssoft: false,
                utimer: false,
                stimer: false,
                uext: false,
                sext: false,
            },
            medeleg: ExceptionDelegation {
                instruction_misaligned: false,
                instruction_fault: false,
                breakpoint: false,
                load_fault: false,
                store_fault: false,
                user_env_call: false,
                supervisor_env_call: false,
                instruction_page_fault: false,
                load_page_fault: false,
                store_page_fault: false,
            },
            mie_mext: false,
            mie_msoft: false,
            mie_mtimer: false,
            mip_stimer: false,
        }
    }

    pub fn at_reset() -> (r: HartCsrs)
        ensures
            r == HartCsrs::at_reset_spec(),
    {
        HartCsrs {
            mideleg: InterruptDelegation {
                usoft: false,
                ssoft: false,
                utimer: false,
                stimer: false,
                uext: false,
                sext: false,
            },
            medeleg: ExceptionDelegation {
                instruction_misaligned: false,
                instruction_fault: false,
                breakpoint: false,
                load_fault: false,
                store_fault: false,
                user_env_call: false,
                supervisor_env_call: false,
                instruction_page_fault: false,
                load_page_fault: false,
                store_page_fault: false,
            },
            mie_mext: false,
            mie_msoft: false,
            mie_mtimer: false,
            mip_stimer: false,
        }
    }

    /// The architectural mideleg bitmask this state stands for.
    pub fn mideleg_bits(&self) -> (r: usize)
        ensures
            r == Self::mideleg_bits_spec(self.mideleg),
    {
        let usoft: usize = if self.mideleg.usoft { BIT_USOFT } else { 0 };
        let ssoft: usize = if self.mideleg.ssoft { BIT_SSOFT } else { 0 };
        let utimer: usize = if self.mideleg.utimer { BIT_UTIMER } else { 0 };
        let stimer: usize = if self.mideleg.stimer { BIT_STIMER } else { 0 };
        let uext: usize = if self.mideleg.uext { BIT_UEXT } else { 0 };
        let sext: usize = if self.mideleg.sext { BIT_SEXT } else { 0 };
        usoft | ssoft | utimer | stimer | uext | sext
    }

    pub open spec fn mideleg_bits_spec(d: InterruptDelegation) -> usize {
        (if d.usoft { BIT_USOFT } else { 0 }) | (if d.ssoft { BIT_SSOFT } else { 0 })
            | (if d.utimer { BIT_UTIMER } else { 0 }) | (if d.stimer { BIT_STIMER } else { 0 })
            | (if d.uext { BIT_UEXT } else { 0 }) | (if d.sext { BIT_SEXT } else { 0 })
    }

    /// The architectural medeleg bitmask this state stands for.
    pub fn medeleg_bits(&self) -> (r: usize)
        ensures
            r == Self::medeleg_bits_spec(self.medeleg),
    {
        let instruction_misaligned: usize = if self.medeleg.instruction_misaligned {
            BIT_INSTRUCTION_MISALIGNED
        } else {
            0
        };
        let instruction_fault: usize = if self.medeleg.instruction_fault {
            BIT_INSTRUCTION_FAULT
        } else {
            0
        };
        let breakpoint: usize = if self.medeleg.breakpoint { BIT_BREAKPOINT } else { 0 };
        let load_fault: usize = if self.medeleg.load_fault { BIT_LOAD_FAULT } else { 0 };
        let store_fault: usize = if self.medeleg.store_fault { BIT_STORE_FAULT } else { 0 };
        let user_env_call: usize = if self.medeleg.user_env_call { BIT_USER_ENV_CALL } else { 0 };
        let supervisor_env_call: usize = if self.medeleg.supervisor_env_call {
            BIT_SUPERVISOR_ENV_CALL
        } else {
            0
        };
        let instruction_page_fault: usize = if self.medeleg.instruction_page_fault {
            BIT_INSTRUCTION_PAGE_FAULT
        } else {
            0
        };
        let load_page_fault: usize = if self.medeleg.load_page_fault {
            BIT_LOAD_PAGE_FAULT
        } else {
            0
        };
        let store_page_fault: usize = if self.medeleg.store_page_fault {
            BIT_STORE_PAGE_FAULT
        } else {
            0
        };
        instruction_misaligned | instruction_fault | breakpoint | load_fault | store_fault
            | user_env_call | supervisor_env_call | instruction_page_fault | load_page_fault
            | store_page_fault
    }

    pub open spec fn medeleg_bits_spec(d: ExceptionDelegation) -> usize {
        (if d.instruction_misaligned { BIT_INSTRUCTION_MISALIGNED } else { 0 })
            | (if d.instruction_fault { BIT_INSTRUCTION_FAULT } else { 0 })
            | (if d.breakpoint { BIT_BREAKPOINT } else { 0 })
            | (if d.load_fault { BIT_LOAD_FAULT } else { 0 })
            | (if d.store_fault { BIT_STORE_FAULT } else { 0 })
            | (if d.user_env_call { BIT_USER_ENV_CALL } else { 0 })
            | (if d.supervisor_env_call { BIT_SUPERVISOR_ENV_CALL } else { 0 })
            | (if d.instruction_page_fault { BIT_INSTRUCTION_PAGE_FAULT } else { 0 })
            | (if d.load_page_fault { BIT_LOAD_PAGE_FAULT } else { 0 })
            | (if d.store_page_fault { BIT_STORE_PAGE_FAULT } else { 0 })
    }
}

/// The delegation the configurator establishes on top of a given state:
/// supervisor and user external, timer and software interrupts and the
/// benign exception causes go straight to supervisor mode; the supervisor
/// environment call stays with machine mode, as do machine-level interrupts;
/// machine external and software interrupts become visible, while the
/// machine timer interrupt is left for the runtime to arm on first use.
pub open spec fn delegated(s: HartCsrs) -> HartCsrs {
    HartCsrs {
        mideleg: InterruptDelegation {
            usoft: true,
            ssoft: true,
            utimer: true,
            stimer: true,
            uext: true,
            sext: true,
        },
        medeleg: ExceptionDelegation {
            instruction_misaligned: true,
            instruction_fault: true,
            breakpoint: true,
            load_fault: true,
            store_fault: true,
            user_env_call: true,
            supervisor_env_call: s.medeleg.supervisor_env_call,
            instruction_page_fault: true,
            load_page_fault: true,
            store_page_fault: true,
        },
        mie_mext: true,
        mie_msoft: true,
        mie_mtimer: s.mie_mtimer,
        mip_stimer: s.mip_stimer,
    }
}

/// The delegation configurator: run once per hart before that hart serves
/// traps. Sets every delegation flag of the fixed set and enables machine
/// external and software interrupts, while leaving the supervisor
/// environment call undelegated, the machine timer interrupt enable exactly
/// as it was, and the pending state untouched.
pub fn delegate_interrupt_exception(csrs: &mut HartCsrs)
    ensures
        *final(csrs) == delegated(*old(csrs)),
        final(csrs).medeleg.supervisor_env_call == old(csrs).medeleg.supervisor_env_call,
        final(csrs).mie_mtimer == old(csrs).mie_mtimer,
{
    csrs.mideleg.sext = true;
    csrs.mideleg.stimer = true;
    csrs.mideleg.ssoft = true;
    csrs.mideleg.uext = true;
    csrs.mideleg.utimer = true;
    csrs.mideleg.usoft = true;
    csrs.medeleg.instruction_misaligned = true;
    csrs.medeleg.breakpoint = true;
    csrs.medeleg.user_env_call = true;
    csrs.medeleg.instruction_page_fault = true;
    csrs.medeleg.load_page_fault = true;
    csrs.medeleg.store_page_fault = true;
    csrs.medeleg.instruction_fault = true;
    csrs.medeleg.load_fault = true;
    csrs.medeleg.store_fault = true;
    csrs.mie_mext = true;
    csrs.mie_msoft = true;
}

/// The delegation the configurator establishes, as the architectural
/// bitmasks: the interrupt mask is the fixed 0x333 (supervisor and user
/// external, timer and software), and the exception mask is the fixed
/// 0xb1ab (misalignment, breakpoint, user environment call, the access and
/// page faults) — with the supervisor environment call bit on top exactly
/// where it already was, never newly set.
pub proof fn lemma_delegated_bits(s: HartCsrs)
    ensures
        HartCsrs::mideleg_bits_spec(delegated(s).mideleg) == 0x333usize,
        !s.medeleg.supervisor_env_call ==> HartCsrs::medeleg_bits_spec(delegated(s).medeleg)
            == 0xb1abusize,
        s.medeleg.supervisor_env_call ==> HartCsrs::medeleg_bits_spec(delegated(s).medeleg)
            == 0xb3abusize,
{
    assert(0x1usize | 0x2usize | 0x10usize | 0x20usize | 0x100usize | 0x200usize == 0x333usize)
        by (bit_vector);
    assert(0x1usize | 0x2usize | 0x8usize | 0x20usize | 0x80usize | 0x100usize | 0x0usize
        | 0x1000usize | 0x2000usize | 0x8000usize == 0xb1abusize) by (bit_vector);
    assert(0x1usize | 0x2usize | 0x8usize | 0x20usize | 0x80usize | 0x100usize | 0x200usize
        | 0x1000usize | 0x2000usize | 0x8000usize == 0xb3abusize) by (bit_vector);
}

/// The delegation configurator is idempotent: configuring a hart twice
/// leaves exactly the state that configuring it once leaves, so the
/// delegation bitmasks agree as well.
pub proof fn lemma_delegation_idempotent(s: HartCsrs)
    ensures
        delegated(delegated(s)) == delegated(s),
        HartCsrs::mideleg_bits_spec(delegated(delegated(s)).mideleg)
            == HartCsrs::mideleg_bits_spec(delegated(s).mideleg),
        HartCsrs::medeleg_bits_spec(delegated(delegated(s)).medeleg)
            == HartCsrs::medeleg_bits_spec(delegated(s).medeleg),
{
}

} // verus!
