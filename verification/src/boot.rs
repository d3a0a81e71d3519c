//! The boot sequencer: drives every hart from reset to "serving traps",
//! with exactly one hart — the one the boot descriptor designates — doing
//! the one-time global initialization, and the others parked twice in the
//! synchronization barrier until the boot hart notifies them. The whole
//! five-hart system is modelled explicitly, so the ordering the protocol
//! establishes between the boot hart's sends and a follower's progress is an
//! invariant of every interleaving.

use vstd::prelude::*;
use crate::barrier::pause_enter;
use crate::barrier::pause_exit;
use crate::clint::Clint;
use crate::csr::HartCsrs;
use crate::csr::delegate_interrupt_exception;
use crate::csr::delegated;
use crate::stack::NUM_HARTS;

verus! {

/// The boot-protocol magic value a well-formed boot descriptor carries.
pub const FW_DYNAMIC_INFO_MAGIC: usize = 0x4942534f;

/// The fixed-layout boot descriptor the previous boot stage hands to this
/// firmware: read-only for the life of the boot.
#[derive(Clone, Copy, PartialEq, Eq, Structural, Debug)]
pub struct FwDynamicInfo {
    pub magic: usize,
    pub version: usize,
    pub next_addr: usize,
    pub next_mode: usize,
    pub options: usize,
    pub boot_hart: usize,
}

impl FwDynamicInfo {
    /// Whether the descriptor carries the boot-protocol magic value.
    pub fn magic_ok(&self) -> (r: bool)
        ensures
            r == (self.magic == FW_DYNAMIC_INFO_MAGIC),
    {
        self.magic == FW_DYNAMIC_INFO_MAGIC
    }
}

/// Why device-tree input was rejected.
#[derive(Clone, Copy, PartialEq, Eq, Structural, Debug)]
pub enum DeviceTreeError {
    /// Shorter than the fixed header magic.
    Truncated,
    /// The magic bytes are not the device-tree ones.
    BadMagic,
}

/// A device-tree blob the boot sequence accepts: long enough to carry the
/// big-endian magic 0xd00dfeed at its start, and carrying it.
pub open spec fn device_tree_well_formed(dtb: Seq<u8>) -> bool {
    &&& dtb.len() >= 4
    &&& dtb[0] == 0xd0u8
    &&& dtb[1] == 0x0du8
    &&& dtb[2] == 0xfeu8
    &&& dtb[3] == 0xedu8
}

/// Checks device-tree input, reporting exactly why it is rejected: too
/// short, or wrong magic bytes.
pub fn check_device_tree(dtb: &Vec<u8>) -> (r: Result<(), DeviceTreeError>)
    ensures
        r is Ok <==> device_tree_well_formed(dtb@),
        r == Result::<(), DeviceTreeError>::Err(DeviceTreeError::Truncated) <==> dtb@.len() < 4,
{
    if dtb.len() < 4 {
        Err(DeviceTreeError::Truncated)
    } else if dtb[0] == 0xd0 && dtb[1] == 0x0d && dtb[2] == 0xfe && dtb[3] == 0xed {
        Ok(())
    } else {
        Err(DeviceTreeError::BadMagic)
    }
}

/// The embedded fallback device-tree blob, used when the loader supplied no
/// handoff pointer: here its fixed header, which carries the magic the boot
/// sequence checks.
pub fn default_device_tree() -> (r: Vec<u8>)
    ensures
        device_tree_well_formed(r@),
{
    let mut v: Vec<u8> = Vec::new();
    v.push(0xd0);
    v.push(0x0d);
    v.push(0xfe);
    v.push(0xed);
    v
}

/// The handoff value a hart enters supervisor mode with: what the loader
/// supplied, or the address of the embedded fallback blob when the loader
/// supplied none.
pub open spec fn effective_opaque_spec(opaque: usize, fallback_addr: usize) -> usize {
    if opaque == 0 {
        fallback_addr
    } else {
        opaque
    }
}

pub fn effective_opaque(opaque: usize, fallback_addr: usize) -> (r: usize)
    ensures
        r == effective_opaque_spec(opaque, fallback_addr),
{
    if opaque == 0 {
        fallback_addr
    } else {
        opaque
    }
}

/// Where one hart stands in the boot sequence. The boot hart moves
/// `Reset -> MidInit -> Running`; a follower moves
/// `Reset -> FirstWait -> SecondWait -> Running`, parked in the barrier in
/// each `Wait` phase.
#[derive(Clone, Copy, PartialEq, Eq, Structural, Debug)]
pub enum Phase {
    Reset,
    FirstWait,
    MidInit,
    SecondWait,
    Running,
}

/// Boot progress as a number, for ordering phases.
pub open spec fn phase_index(p: Phase) -> int {
    match p {
        Phase::Reset => 0,
        Phase::FirstWait => 1,
        Phase::MidInit => 2,
        Phase::SecondWait => 3,
        Phase::Running => 4,
    }
}

/// A sequence is a prefix of itself.
proof fn lemma_prefix_refl(a: Seq<BootEvent>)
    ensures
        a.is_prefix_of(a),
{
    assert(a.subrange(0, a.len() as int) =~= a);
}

/// Appending one event keeps the old log a prefix of the new one.
proof fn lemma_prefix_push(a: Seq<BootEvent>, e: BootEvent)
    ensures
        a.is_prefix_of(a.push(e)),
{
    assert(a.push(e).subrange(0, a.len() as int) =~= a);
}

/// Being a prefix is transitive.
proof fn lemma_prefix_trans(a: Seq<BootEvent>, b: Seq<BootEvent>, c: Seq<BootEvent>)
    requires
        a.is_prefix_of(b),
        b.is_prefix_of(c),
    ensures
        a.is_prefix_of(c),
{
    assert(c.subrange(0, a.len() as int) =~= a);
}

/// An event found in a prefix is found in the whole.
proof fn lemma_prefix_contains(a: Seq<BootEvent>, b: Seq<BootEvent>, e: BootEvent)
    requires
        a.is_prefix_of(b),
        a.contains(e),
    ensures
        b.contains(e),
{
    let i = choose|i: int| 0 <= i < a.len() && a[i] == e;
    assert(b.subrange(0, a.len() as int)[i] == a[i]);
    assert(b[i] == e);
}

/// Appending to the right part distributes over sequence concatenation.
proof fn lemma_seq_add_push(a: Seq<BootEvent>, b: Seq<BootEvent>, x: BootEvent)
    ensures
        (a + b).push(x) == a + b.push(x),
{
    assert((a + b).push(x) =~= a + b.push(x));
}

/// One more hart covered by the round's pending flags: raised unless the
/// hart is the boot hart itself.
proof fn lemma_round_msip_step(msip: Seq<bool>, boot: int, t: int)
    requires
        0 <= t < msip.len(),
    ensures
        t != boot ==> round_msip_upto(msip, boot, t).update(t, true) == round_msip_upto(
            msip,
            boot,
            t + 1,
        ),
        t == boot ==> round_msip_upto(msip, boot, t) == round_msip_upto(msip, boot, t + 1),
{
    if t != boot {
        assert(round_msip_upto(msip, boot, t).update(t, true) =~= round_msip_upto(
            msip,
            boot,
            t + 1,
        ));
    } else {
        assert(round_msip_upto(msip, boot, t) =~= round_msip_upto(msip, boot, t + 1));
    }
}

/// One hart's boot state: its phase, its machine control state, the
/// interrupt-enable state the barrier it is parked in remembered, and — once
/// running — the program counter and handoff value it entered supervisor
/// mode with.
#[derive(Clone, Copy, PartialEq, Eq, Structural, Debug)]
pub struct HartBootState {
    pub phase: Phase,
    pub csrs: HartCsrs,
    pub saved_msoft: bool,
    pub entry_pc: usize,
    pub entry_opaque: usize,
}

/// What the boot sequence did, in order: the observable event log of the
/// protocol.
#[derive(Clone, Copy, PartialEq, Eq, Structural, Debug)]
pub enum BootEvent {
    /// The boot hart finished zeroing memory, copying its image and
    /// acquiring the console.
    GlobalInitDone,
    /// The boot hart finished heap setup and device discovery.
    FullInitDone,
    /// A software-interrupt notification was sent to this hart.
    SendSoft { to: usize },
    /// This hart returned from one pass through the barrier.
    BarrierReturn { hart: usize },
    /// Device-tree input was rejected; the boot goes on with defaults.
    DeviceTreeWarning,
    /// This hart configured its trap delegation.
    DelegationDone { hart: usize },
    /// This hart entered its trap loop with this supervisor entry point.
    EnterSupervisor { hart: usize, pc: usize },
}

/// The pending flags once the sends of one notification round have reached
/// the harts 0 to t-1: raised for each of them but the boot hart itself,
/// everything else untouched.
pub open spec fn round_msip_upto(msip: Seq<bool>, boot: int, t: int) -> Seq<bool> {
    Seq::new(msip.len(), |i: int| if 0 <= i < t && i != boot { true } else { msip[i] })
}

/// The pending flags after one full notification round: raised for every
/// hart but the boot hart itself.
pub open spec fn round_msip(msip: Seq<bool>, boot: int) -> Seq<bool> {
    round_msip_upto(msip, boot, NUM_HARTS as int)
}

/// The log events of one notification round's sends to the harts 0 to t-1,
/// in hart order, the boot hart skipped.
pub open spec fn round_events_upto(boot: int, t: int) -> Seq<BootEvent>
    decreases t,
{
    if t <= 0 {
        Seq::empty()
    } else if t - 1 == boot {
        round_events_upto(boot, t - 1)
    } else {
        round_events_upto(boot, t - 1).push(BootEvent::SendSoft { to: (t - 1) as usize })
    }
}

/// The log events of one full notification round.
pub open spec fn round_events(boot: int) -> Seq<BootEvent> {
    round_events_upto(boot, NUM_HARTS as int)
}

/// One more hart covered by the round: a send is logged unless the hart is
/// the boot hart itself.
proof fn lemma_round_events_step(boot: int, t: int)
    requires
        0 <= t,
    ensures
        t != boot ==> round_events_upto(boot, t + 1) == round_events_upto(boot, t).push(
            BootEvent::SendSoft { to: t as usize },
        ),
        t == boot ==> round_events_upto(boot, t + 1) == round_events_upto(boot, t),
{
    reveal_with_fuel(round_events_upto, 2);
}

/// The whole five-hart system during boot: per-hart state, the shared
/// notifier, the boot descriptor fields the sequence reads, the bytes found
/// at the effective handoff address, and the event log.
pub struct System {
    pub harts: Vec<HartBootState>,
    pub clint: Clint,
    pub boot_hart: usize,
    pub next_addr: usize,
    pub opaque: usize,
    pub fallback_addr: usize,
    pub dtb: Vec<u8>,
    pub log: Vec<BootEvent>,
}

/// The system as one mathematical value: the views of every component, over
/// which the boot transition is stated as a function.
#[verifier::ext_equal]
pub struct SystemView {
    pub harts: Seq<HartBootState>,
    pub msip: Seq<bool>,
    pub mtimecmp: Seq<u64>,
    pub mtime: u64,
    pub boot_hart: usize,
    pub next_addr: usize,
    pub opaque: usize,
    pub fallback_addr: usize,
    pub dtb: Seq<u8>,
    pub log: Seq<BootEvent>,
}

impl View for System {
    type V = SystemView;

    open spec fn view(&self) -> SystemView {
        SystemView {
            harts: self.harts@,
            msip: self.clint.msip@,
            mtimecmp: self.clint.mtimecmp@,
            mtime: self.clint.mtime,
            boot_hart: self.boot_hart,
            next_addr: self.next_addr,
            opaque: self.opaque,
            fallback_addr: self.fallback_addr,
            dtb: self.dtb@,
            log: self.log@,
        }
    }
}

/// The boot transition as a function: the system after one step of hart `h`.
/// This pins every field of every component — the stepped hart's new state,
/// the pending flags, the exact events appended to the log — and leaves the
/// other harts, the timer registers and the descriptor fields untouched. A
/// step of a hart that is already serving traps, or of a parked hart whose
/// notification has not arrived, changes nothing.
pub open spec fn step_view(s: SystemView, h: int) -> SystemView {
    let hs = s.harts[h];
    let boot = s.boot_hart as int;
    if h == boot {
        if hs.phase == Phase::Reset {
            SystemView {
                harts: s.harts.update(h, HartBootState { phase: Phase::MidInit, ..hs }),
                msip: round_msip(s.msip, boot),
                log: s.log.push(BootEvent::GlobalInitDone) + round_events(boot),
                ..s
            }
        } else if hs.phase == Phase::MidInit {
            let warned = if device_tree_well_formed(s.dtb) {
                s.log
            } else {
                s.log.push(BootEvent::DeviceTreeWarning)
            };
            let sent = warned.push(BootEvent::DelegationDone { hart: h as usize }).push(
                BootEvent::FullInitDone,
            ) + round_events(boot);
            SystemView {
                harts: s.harts.update(
                    h,
                    HartBootState {
                        phase: Phase::Running,
                        csrs: delegated(hs.csrs),
                        entry_pc: s.next_addr,
                        entry_opaque: effective_opaque_spec(s.opaque, s.fallback_addr),
                        ..hs
                    },
                ),
                msip: round_msip(s.msip, boot),
                log: sent.push(BootEvent::EnterSupervisor { hart: h as usize, pc: s.next_addr }),
                ..s
            }
        } else {
            s
        }
    } else {
        if hs.phase == Phase::Reset {
            SystemView {
                harts: s.harts.update(
                    h,
                    HartBootState {
                        phase: Phase::FirstWait,
                        csrs: HartCsrs { mie_msoft: true, ..hs.csrs },
                        saved_msoft: hs.csrs.mie_msoft,
                        ..hs
                    },
                ),
                msip: s.msip.update(h, false),
                ..s
            }
        } else if hs.phase == Phase::FirstWait && s.msip[h] {
            let rested = HartCsrs { mie_msoft: hs.saved_msoft, ..hs.csrs };
            let configured = if h != 0 {
                delegated(rested)
            } else {
                rested
            };
            let logged = if h != 0 {
                s.log.push(BootEvent::BarrierReturn { hart: h as usize }).push(
                    BootEvent::DelegationDone { hart: h as usize },
                )
            } else {
                s.log.push(BootEvent::BarrierReturn { hart: h as usize })
            };
            SystemView {
                harts: s.harts.update(
                    h,
                    HartBootState {
                        phase: Phase::SecondWait,
                        csrs: HartCsrs { mie_msoft: true, ..configured },
                        saved_msoft: configured.mie_msoft,
                        ..hs
                    },
                ),
                msip: s.msip.update(h, false),
                log: logged,
                ..s
            }
        } else if hs.phase == Phase::SecondWait && s.msip[h] {
            SystemView {
                harts: s.harts.update(
                    h,
                    HartBootState {
                        phase: Phase::Running,
                        csrs: HartCsrs { mie_msoft: hs.saved_msoft, ..hs.csrs },
                        entry_pc: s.next_addr,
                        entry_opaque: effective_opaque_spec(s.opaque, s.fallback_addr),
                        ..hs
                    },
                ),
                msip: s.msip.update(h, false),
                log: s.log.push(BootEvent::BarrierReturn { hart: h as usize }).push(
                    BootEvent::EnterSupervisor { hart: h as usize, pc: s.next_addr },
                ),
                ..s
            }
        } else {
            s
        }
    }
}

/// The boot transition folded over a schedule: the system after the steps of
/// the scheduled harts, taken in order.
pub open spec fn run_view(s: SystemView, schedule: Seq<usize>) -> SystemView
    decreases schedule.len(),
{
    if schedule.len() == 0 {
        s
    } else {
        run_view(step_view(s, schedule[0] as int), schedule.drop_first())
    }
}

impl System {
    /// One slot of everything per hart, and a boot hart that exists.
    pub open spec fn wf(self) -> bool {
        &&& self.harts@.len() == NUM_HARTS
        &&& self.clint.wf(NUM_HARTS as int)
        &&& self.boot_hart < NUM_HARTS
    }

    /// This hart's phase.
    pub open spec fn hphase(self, f: int) -> Phase {
        self.harts@[f].phase
    }

    /// The boot hart's phase.
    pub open spec fn boot_phase(self) -> Phase {
        self.hphase(self.boot_hart as int)
    }

    /// The invariant every interleaving of boot steps preserves. Besides
    /// well-formedness: the boot hart never waits; a follower is never in
    /// the boot hart's middle phase; a follower's pending notification,
    /// and any follower progress past its first wait, prove the boot hart
    /// already sent its first round; a pending notification for a follower
    /// parked in its second wait proves the boot hart already finished
    /// everything and sent its second round, as does any follower that
    /// runs; nobody notifies the boot hart; and a parked follower keeps
    /// its software interrupt enabled, as the barrier established.
    pub open spec fn inv(self) -> bool {
        &&& self.wf()
        &&& (self.boot_phase() == Phase::Reset || self.boot_phase() == Phase::MidInit
            || self.boot_phase() == Phase::Running)
        &&& (forall|f: int|
            0 <= f < NUM_HARTS as int && f != self.boot_hart ==> #[trigger] self.hphase(f)
                != Phase::MidInit)
        &&& (forall|f: int|
            0 <= f < NUM_HARTS as int && f != self.boot_hart && #[trigger] self.clint.msip@[f]
                ==> phase_index(self.boot_phase()) >= 2)
        &&& (forall|f: int|
            0 <= f < NUM_HARTS as int && f != self.boot_hart && phase_index(
                #[trigger] self.hphase(f),
            ) >= 3 ==> phase_index(self.boot_phase()) >= 2)
        &&& (forall|f: int|
            0 <= f < NUM_HARTS as int && f != self.boot_hart && #[trigger] self.hphase(f)
                == Phase::SecondWait && self.clint.msip@[f] ==> self.boot_phase()
                == Phase::Running)
        &&& (forall|f: int|
            0 <= f < NUM_HARTS as int && f != self.boot_hart && #[trigger] self.hphase(f)
                == Phase::Running ==> self.boot_phase() == Phase::Running)
        &&& !self.clint.msip@[self.boot_hart as int]
        &&& (forall|f: int|
            0 <= f < NUM_HARTS as int && f != self.boot_hart && (#[trigger] self.hphase(f)
                == Phase::FirstWait || self.hphase(f) == Phase::SecondWait)
                ==> self.harts@[f].csrs.mie_msoft)
    }

    /// The system at reset, before any hart has taken a step: every hart in
    /// its reset state, no notification pending, the log empty.
    pub fn new(info: &FwDynamicInfo, opaque: usize, fallback_addr: usize, dtb: Vec<u8>) -> (r:
        System)
        requires
            info.boot_hart < NUM_HARTS,
        ensures
            r.inv(),
            r.boot_hart == info.boot_hart,
            r.next_addr == info.next_addr,
            r.opaque == opaque,
            r.fallback_addr == fallback_addr,
            r.dtb@ == dtb@,
            r.log@.len() == 0,
            forall|f: int| 0 <= f < NUM_HARTS as int ==> #[trigger] r.hphase(f) == Phase::Reset,
            forall|f: int|
                0 <= f < NUM_HARTS as int ==> #[trigger] r.harts@[f] == (HartBootState {
                    phase: Phase::Reset,
                    csrs: HartCsrs::at_reset_spec(),
                    saved_msoft: false,
                    entry_pc: 0,
                    entry_opaque: 0,
                }),
            forall|i: int| 0 <= i < NUM_HARTS as int ==> !(#[trigger] r.clint.msip@[i]),
            forall|i: int| 0 <= i < NUM_HARTS as int ==> #[trigger] r.clint.mtimecmp@[i] == 0,
            r.clint.mtime == 0,
    {
        let mut harts: Vec<HartBootState> = Vec::new();
        let mut i: usize = 0;
        while i < NUM_HARTS
            invariant
                i <= NUM_HARTS,
                harts@.len() == i,
                forall|f: int| 0 <= f < i ==> #[trigger] harts@[f].phase == Phase::Reset,
                forall|f: int|
                    0 <= f < i ==> #[trigger] harts@[f] == (HartBootState {
                        phase: Phase::Reset,
                        csrs: HartCsrs::at_reset_spec(),
                        saved_msoft: false,
                        entry_pc: 0,
                        entry_opaque: 0,
                    }),
            decreases NUM_HARTS - i,
        {
            harts.push(
                HartBootState {
                    phase: Phase::Reset,
                    csrs: HartCsrs::at_reset(),
                    saved_msoft: false,
                    entry_pc: 0,
                    entry_opaque: 0,
                },
            );
            i = i + 1;
        }
        let clint = Clint::at_reset(NUM_HARTS);
        System {
            harts,
            clint,
            boot_hart: info.boot_hart,
            next_addr: info.next_addr,
            opaque,
            fallback_addr,
            dtb,
            log: Vec::new(),
        }
    }

    /// Sends the notification round the boot hart issues: one send to every
    /// follower hart — every hart other than the boot hart itself — each
    /// logged, in hart order.
    fn send_round(&mut self)
        requires
            old(self).wf(),
        ensures
            final(self).wf(),
            final(self).harts@ == old(self).harts@,
            final(self).boot_hart == old(self).boot_hart,
            final(self).next_addr == old(self).next_addr,
            final(self).opaque == old(self).opaque,
            final(self).fallback_addr == old(self).fallback_addr,
            final(self).dtb@ == old(self).dtb@,
            old(self).log@.is_prefix_of(final(self).log@),
            final(self).log@ == old(self).log@ + round_events(old(self).boot_hart as int),
            final(self).clint.msip@ == round_msip(
                old(self).clint.msip@,
                old(self).boot_hart as int,
            ),
            final(self).clint.mtimecmp@ == old(self).clint.mtimecmp@,
            final(self).clint.mtime == old(self).clint.mtime,
    {
        let ghost s0 = *old(self);
        let ghost boot = s0.boot_hart as int;
        proof {
            assert(self.log@ =~= s0.log@ + round_events_upto(boot, 0));
            assert(self.clint.msip@ =~= round_msip_upto(s0.clint.msip@, boot, 0));
        }
        let mut t: usize = 0;
        while t < NUM_HARTS
            invariant
                t <= NUM_HARTS,
                s0.wf(),
                boot == s0.boot_hart as int,
                self.wf(),
                self.harts@ == s0.harts@,
                self.boot_hart == s0.boot_hart,
                self.next_addr == s0.next_addr,
                self.opaque == s0.opaque,
                self.fallback_addr == s0.fallback_addr,
                self.dtb@ == s0.dtb@,
                self.log@ == s0.log@ + round_events_upto(boot, t as int),
                self.clint.msip@ == round_msip_upto(s0.clint.msip@, boot, t as int),
                self.clint.mtimecmp@ == s0.clint.mtimecmp@,
                self.clint.mtime == s0.clint.mtime,
            decreases NUM_HARTS - t,
        {
            if t != self.boot_hart {
                self.clint.send_soft(t);
                self.log.push(BootEvent::SendSoft { to: t });
                proof {
                    lemma_round_events_step(boot, t as int);
                    lemma_seq_add_push(
                        s0.log@,
                        round_events_upto(boot, t as int),
                        BootEvent::SendSoft { to: t },
                    );
                    assert(self.log@ == s0.log@ + round_events_upto(boot, t as int + 1));
                    lemma_round_msip_step(s0.clint.msip@, boot, t as int);
                    assert(self.clint.msip@ == round_msip_upto(
                        s0.clint.msip@,
                        boot,
                        t as int + 1,
                    ));
                }
            } else {
                proof {
                    lemma_round_events_step(boot, t as int);
                    lemma_round_msip_step(s0.clint.msip@, boot, t as int);
                }
            }
            t = t + 1;
        }
        proof {
            assert(s0.log@.is_prefix_of(self.log@)) by {
                assert(self.log@.subrange(0, s0.log@.len() as int) =~= s0.log@);
            }
        }
    }

    /// One boot step of one hart — the granularity at which the physically
    /// parallel harts interleave. The boot hart's first step does the global
    /// initialization and the first notification round; its second does heap
    /// setup, best-effort device discovery (a malformed device tree is
    /// logged and never halts the boot), its own delegation and the second
    /// round, and enters the trap loop. A follower's steps enter the
    /// barrier, pass it once notified — configuring delegation in between,
    /// except on hart 0 — and enter the trap loop after the second pass. A
    /// step of a parked hart whose notification has not arrived changes
    /// nothing, like the idle wait it stands for.
    #[verifier::rlimit(100)]
    pub fn step(&mut self, h: usize)
        requires
            old(self).inv(),
            h < NUM_HARTS,
        ensures
            final(self).inv(),
            final(self).boot_hart == old(self).boot_hart,
            final(self).next_addr == old(self).next_addr,
            final(self).opaque == old(self).opaque,
            final(self).fallback_addr == old(self).fallback_addr,
            final(self).dtb@ == old(self).dtb@,
            old(self).log@.is_prefix_of(final(self).log@),
            final(self)@ == step_view(old(self)@, h as int),
            (old(self).hphase(h as int) == Phase::Running ==> *final(self) == *old(self)),
            (h == old(self).boot_hart && old(self).hphase(h as int) == Phase::Reset ==> final(self).hphase(h as int) == Phase::MidInit && (forall|f: int|
                0 <= f < NUM_HARTS as int && f != old(self).boot_hart ==> #[trigger] final(self).clint.msip@[f])),
            (h == old(self).boot_hart && old(self).hphase(h as int) == Phase::MidInit ==> final(self).hphase(h as int) == Phase::Running && final(self).harts@[h as int].entry_pc == old(self).next_addr && final(self).harts@[h as int].entry_opaque == effective_opaque_spec(
                old(self).opaque,
                old(self).fallback_addr,
            ) && final(self).harts@[h as int].csrs == delegated(old(self).harts@[h as int].csrs)
                && (forall|f: int|
                0 <= f < NUM_HARTS as int && f != old(self).boot_hart ==> #[trigger] final(self).clint.msip@[f])
                && (!device_tree_well_formed(old(self).dtb@) ==> final(self).log@.contains(
                BootEvent::DeviceTreeWarning,
            ))),
            (h != old(self).boot_hart && old(self).hphase(h as int) == Phase::Reset ==> final(self).hphase(h as int) == Phase::FirstWait),
            (h != old(self).boot_hart && old(self).hphase(h as int) == Phase::FirstWait && old(self).clint.msip@[h as int] ==> final(self).hphase(h as int) == Phase::SecondWait),
            (h != old(self).boot_hart && old(self).hphase(h as int) == Phase::FirstWait && !old(self).clint.msip@[h as int] ==> *final(self) == *old(self)),
            (h != old(self).boot_hart && old(self).hphase(h as int) == Phase::SecondWait && old(self).clint.msip@[h as int] ==> final(self).hphase(h as int) == Phase::Running && final(self).harts@[h as int].entry_pc == old(self).next_addr && final(self).harts@[h as int].entry_opaque == effective_opaque_spec(
                old(self).opaque,
                old(self).fallback_addr,
            )),
            (h != old(self).boot_hart && old(self).hphase(h as int) == Phase::SecondWait && !old(self).clint.msip@[h as int] ==> *final(self) == *old(self)),
    {
        let boot = self.boot_hart;
        let mut hs = self.harts[h];
        if h == boot {
            match hs.phase {
                Phase::Reset => {
                    // Zero uninitialized globals, copy the initialized image,
                    // acquire the console; then let the followers past their
                    // reset-time wait.
                    let ghost lg = self.log@;
                    self.log.push(BootEvent::GlobalInitDone);
                    proof {
                        lemma_prefix_push(lg, BootEvent::GlobalInitDone);
                    }
                    let ghost lg = self.log@;
                    self.send_round();
                    proof {
                        lemma_prefix_trans(old(self).log@, lg, self.log@);
                    }
                    hs.phase = Phase::MidInit;
                    self.harts.set(h, hs);
                    proof {
                        self.lemma_step_inv_boot(*old(self), h);
                        let ghost sv = step_view(old(self)@, h as int);
                        assert(self.harts@ =~= sv.harts);
                        assert(self.clint.msip@ =~= sv.msip);
                        assert(self.log@ =~= sv.log);
                        assert(self@ =~= sv);
                    }
                },
                Phase::MidInit => {
                    // Heap and firmware service setup, then best-effort
                    // device discovery: malformed input is logged and the
                    // boot goes on with built-in defaults.
                    proof {
                        lemma_prefix_refl(self.log@);
                    }
                    let dt_ok = check_device_tree(&self.dtb);
                    if dt_ok.is_err() {
                        let ghost lg = self.log@;
                        self.log.push(BootEvent::DeviceTreeWarning);
                        proof {
                            lemma_prefix_push(lg, BootEvent::DeviceTreeWarning);
                        }
                    }
                    let ghost mid_log = self.log@;
                    proof {
                        lemma_prefix_refl(mid_log);
                        assert(!device_tree_well_formed(old(self).dtb@) ==> mid_log.contains(
                            BootEvent::DeviceTreeWarning,
                        )) by {
                            if !device_tree_well_formed(old(self).dtb@) {
                                assert(mid_log[mid_log.len() - 1] == BootEvent::DeviceTreeWarning);
                            }
                        }
                    }
                    delegate_interrupt_exception(&mut hs.csrs);
                    let ghost lg = self.log@;
                    self.log.push(BootEvent::DelegationDone { hart: h });
                    proof {
                        lemma_prefix_push(lg, BootEvent::DelegationDone { hart: h });
                        lemma_prefix_trans(mid_log, lg, self.log@);
                    }
                    let ghost lg = self.log@;
                    self.log.push(BootEvent::FullInitDone);
                    proof {
                        lemma_prefix_push(lg, BootEvent::FullInitDone);
                        lemma_prefix_trans(mid_log, lg, self.log@);
                    }
                    let ghost lg = self.log@;
                    self.send_round();
                    proof {
                        lemma_prefix_trans(mid_log, lg, self.log@);
                    }
                    hs.phase = Phase::Running;
                    hs.entry_pc = self.next_addr;
                    hs.entry_opaque = effective_opaque(self.opaque, self.fallback_addr);
                    let ghost lg = self.log@;
                    self.log.push(BootEvent::EnterSupervisor { hart: h, pc: hs.entry_pc });
                    proof {
                        lemma_prefix_push(lg, BootEvent::EnterSupervisor { hart: h, pc: hs.entry_pc });
                        lemma_prefix_trans(mid_log, lg, self.log@);
                    }
                    self.harts.set(h, hs);
                    proof {
                        lemma_prefix_trans(old(self).log@, mid_log, self.log@);
                        assert(!device_tree_well_formed(old(self).dtb@) ==> self.log@.contains(
                            BootEvent::DeviceTreeWarning,
                        )) by {
                            if !device_tree_well_formed(old(self).dtb@) {
                                lemma_prefix_contains(
                                    mid_log,
                                    self.log@,
                                    BootEvent::DeviceTreeWarning,
                                );
                            }
                        }
                        self.lemma_step_inv_boot(*old(self), h);
                        let ghost sv = step_view(old(self)@, h as int);
                        assert(self.harts@ =~= sv.harts);
                        assert(self.clint.msip@ =~= sv.msip);
                        assert(self.log@ =~= sv.log);
                        assert(self@ =~= sv);
                    }
                },
                _ => {
                    // Running: the boot hart is serving traps; its boot
                    // sequence is over. (It is never parked in a wait.)
                },
            }
        } else {
            match hs.phase {
                Phase::Reset => {
                    let saved = pause_enter(&mut hs.csrs, &mut self.clint, h);
                    hs.saved_msoft = saved;
                    hs.phase = Phase::FirstWait;
                    self.harts.set(h, hs);
                    proof {
                        lemma_prefix_refl(old(self).log@);
                        self.lemma_step_inv_follower(*old(self), h);
                        let ghost sv = step_view(old(self)@, h as int);
                        assert(self.harts@ =~= sv.harts);
                        assert(self.clint.msip@ =~= sv.msip);
                        assert(self.log@ =~= sv.log);
                        assert(self@ =~= sv);
                    }
                },
                Phase::FirstWait => {
                    if self.clint.read_msip(h) {
                        proof {
                            assert(old(self).hphase(h as int) == Phase::FirstWait);
                            assert(hs.csrs.mie_msoft);
                        }
                        pause_exit(&mut hs.csrs, &mut self.clint, h, hs.saved_msoft);
                        let ghost lg = self.log@;
                        self.log.push(BootEvent::BarrierReturn { hart: h });
                        proof {
                            lemma_prefix_push(lg, BootEvent::BarrierReturn { hart: h });
                        }
                        // Delegation, off hart 0: hart 0 must not delegate
                        // before the memory subsystems are ready.
                        if h != 0 {
                            delegate_interrupt_exception(&mut hs.csrs);
                            let ghost lg = self.log@;
                            self.log.push(BootEvent::DelegationDone { hart: h });
                            proof {
                                lemma_prefix_push(lg, BootEvent::DelegationDone { hart: h });
                                lemma_prefix_trans(old(self).log@, lg, self.log@);
                            }
                        }
                        let saved = pause_enter(&mut hs.csrs, &mut self.clint, h);
                        hs.saved_msoft = saved;
                        hs.phase = Phase::SecondWait;
                        self.harts.set(h, hs);
                        proof {
                            self.lemma_step_inv_follower(*old(self), h);
                            let ghost sv = step_view(old(self)@, h as int);
                        assert(self.harts@ =~= sv.harts);
                        assert(self.clint.msip@ =~= sv.msip);
                        assert(self.log@ =~= sv.log);
                        assert(self@ =~= sv);
                        }
                    }
                },
                Phase::SecondWait => {
                    if self.clint.read_msip(h) {
                        proof {
                            assert(old(self).hphase(h as int) == Phase::SecondWait);
                            assert(hs.csrs.mie_msoft);
                        }
                        pause_exit(&mut hs.csrs, &mut self.clint, h, hs.saved_msoft);
                        let ghost lg = self.log@;
                        self.log.push(BootEvent::BarrierReturn { hart: h });
                        proof {
                            lemma_prefix_push(lg, BootEvent::BarrierReturn { hart: h });
                        }
                        hs.phase = Phase::Running;
                        hs.entry_pc = self.next_addr;
                        hs.entry_opaque = effective_opaque(self.opaque, self.fallback_addr);
                        let ghost lg = self.log@;
                        self.log.push(BootEvent::EnterSupervisor { hart: h, pc: hs.entry_pc });
                        proof {
                            lemma_prefix_push(
                                lg,
                                BootEvent::EnterSupervisor { hart: h, pc: hs.entry_pc },
                            );
                            lemma_prefix_trans(old(self).log@, lg, self.log@);
                        }
                        self.harts.set(h, hs);
                        proof {
                            self.lemma_step_inv_follower(*old(self), h);
                            let ghost sv = step_view(old(self)@, h as int);
                        assert(self.harts@ =~= sv.harts);
                        assert(self.clint.msip@ =~= sv.msip);
                        assert(self.log@ =~= sv.log);
                        assert(self@ =~= sv);
                        }
                    }
                },
                _ => {
                    // Running: the follower is serving traps; its boot
                    // sequence is over. (It is never in the boot hart's
                    // middle phase.)
                },
            }
        }
    }

    /// Re-establishes the invariant after one of the boot hart's two
    /// initialization steps: the boot hart moved forward, every other
    /// hart's state is untouched, and notifications were only added for
    /// follower harts.
    proof fn lemma_step_inv_boot(self, pre: System, h: usize)
        requires
            pre.inv(),
            h == pre.boot_hart,
            pre.hphase(h as int) == Phase::Reset || pre.hphase(h as int) == Phase::MidInit,
            self.wf(),
            self.boot_hart == pre.boot_hart,
            self.harts@.len() == pre.harts@.len(),
            forall|f: int|
                0 <= f < NUM_HARTS as int && f != h ==> #[trigger] self.harts@[f]
                    == pre.harts@[f],
            self.hphase(h as int) == Phase::MidInit || self.hphase(h as int) == Phase::Running,
            phase_index(self.hphase(h as int)) > phase_index(pre.hphase(h as int)),
            self.clint.msip@[pre.boot_hart as int] == pre.clint.msip@[pre.boot_hart as int],
        ensures
            self.inv(),
    {
        assert(self.boot_phase() == self.hphase(h as int));
        assert forall|f: int|
            0 <= f < NUM_HARTS as int && f != self.boot_hart implies #[trigger] self.hphase(f)
                != Phase::MidInit by {
            assert(self.harts@[f] == pre.harts@[f]);
            assert(pre.hphase(f) != Phase::MidInit);
        }
        assert forall|f: int|
            0 <= f < NUM_HARTS as int && f != self.boot_hart && #[trigger] self.hphase(f)
                == Phase::SecondWait && self.clint.msip@[f] implies self.boot_phase()
            == Phase::Running by {
            assert(self.harts@[f] == pre.harts@[f]);
            assert(phase_index(pre.hphase(f)) >= 3);
            assert(phase_index(pre.boot_phase()) >= 2);
            assert(self.hphase(h as int) == Phase::Running);
        }
        assert forall|f: int|
            0 <= f < NUM_HARTS as int && f != self.boot_hart && #[trigger] self.hphase(f)
                == Phase::Running implies self.boot_phase() == Phase::Running by {
            assert(self.harts@[f] == pre.harts@[f]);
            assert(phase_index(pre.hphase(f)) >= 3);
            assert(phase_index(pre.boot_phase()) >= 2);
            assert(self.hphase(h as int) == Phase::Running);
        }
        assert forall|f: int|
            0 <= f < NUM_HARTS as int && f != self.boot_hart && (#[trigger] self.hphase(f)
                == Phase::FirstWait || self.hphase(f) == Phase::SecondWait) implies
            self.harts@[f].csrs.mie_msoft by {
            assert(self.harts@[f] == pre.harts@[f]);
            assert(pre.hphase(f) == self.hphase(f));
            assert(pre.harts@[f].csrs.mie_msoft);
        }
    }

    /// Re-establishes the invariant after one follower step: the follower
    /// moved forward one wait at most, its own pending flag ended clear,
    /// and everything of every other hart — the boot hart included — is
    /// untouched.
    proof fn lemma_step_inv_follower(self, pre: System, h: usize)
        requires
            pre.inv(),
            h < NUM_HARTS,
            h != pre.boot_hart,
            self.wf(),
            self.boot_hart == pre.boot_hart,
            self.harts@.len() == pre.harts@.len(),
            forall|f: int|
                0 <= f < NUM_HARTS as int && f != h ==> #[trigger] self.harts@[f]
                    == pre.harts@[f],
            forall|f: int|
                0 <= f < NUM_HARTS as int && f != h ==> #[trigger] self.clint.msip@[f]
                    == pre.clint.msip@[f],
            !self.clint.msip@[h as int],
            (self.hphase(h as int) == Phase::FirstWait || self.hphase(h as int)
                == Phase::SecondWait) ==> self.harts@[h as int].csrs.mie_msoft,
            (pre.hphase(h as int) == Phase::Reset && self.hphase(h as int) == Phase::FirstWait)
                || (pre.hphase(h as int) == Phase::FirstWait && pre.clint.msip@[h as int]
                && self.hphase(h as int) == Phase::SecondWait) || (pre.hphase(h as int)
                == Phase::SecondWait && pre.clint.msip@[h as int] && self.hphase(h as int)
                == Phase::Running),
        ensures
            self.inv(),
    {
        assert(self.harts@[pre.boot_hart as int] == pre.harts@[pre.boot_hart as int]);
        assert(self.boot_phase() == pre.boot_phase());
        if pre.hphase(h as int) == Phase::FirstWait && pre.clint.msip@[h as int] {
            assert(phase_index(pre.boot_phase()) >= 2);
        }
        if pre.hphase(h as int) == Phase::SecondWait && pre.clint.msip@[h as int] {
            assert(pre.boot_phase() == Phase::Running);
        }
        assert forall|f: int|
            0 <= f < NUM_HARTS as int && f != self.boot_hart implies #[trigger] self.hphase(f)
                != Phase::MidInit by {
            if f != h {
                assert(self.harts@[f] == pre.harts@[f]);
                assert(pre.hphase(f) != Phase::MidInit);
            }
        }
        assert forall|f: int|
            0 <= f < NUM_HARTS as int && f != self.boot_hart && #[trigger] self.clint.msip@[f]
                implies phase_index(self.boot_phase()) >= 2 by {
            if f != h {
                assert(self.clint.msip@[f] == pre.clint.msip@[f]);
                assert(phase_index(pre.boot_phase()) >= 2);
            }
        }
        assert forall|f: int|
            0 <= f < NUM_HARTS as int && f != self.boot_hart && phase_index(
                #[trigger] self.hphase(f),
            ) >= 3 implies phase_index(self.boot_phase()) >= 2 by {
            if f != h {
                assert(self.harts@[f] == pre.harts@[f]);
                assert(phase_index(pre.hphase(f)) >= 3);
            }
        }
        assert forall|f: int|
            0 <= f < NUM_HARTS as int && f != self.boot_hart && #[trigger] self.hphase(f)
                == Phase::SecondWait && self.clint.msip@[f] implies self.boot_phase()
            == Phase::Running by {
            if f != h {
                assert(self.harts@[f] == pre.harts@[f]);
                assert(self.clint.msip@[f] == pre.clint.msip@[f]);
                assert(pre.hphase(f) == Phase::SecondWait);
            }
        }
        assert forall|f: int|
            0 <= f < NUM_HARTS as int && f != self.boot_hart && #[trigger] self.hphase(f)
                == Phase::Running implies self.boot_phase() == Phase::Running by {
            if f != h {
                assert(self.harts@[f] == pre.harts@[f]);
                assert(pre.hphase(f) == Phase::Running);
            }
        }
        assert forall|f: int|
            0 <= f < NUM_HARTS as int && f != self.boot_hart && (#[trigger] self.hphase(f)
                == Phase::FirstWait || self.hphase(f) == Phase::SecondWait) implies
            self.harts@[f].csrs.mie_msoft by {
            if f != h {
                assert(self.harts@[f] == pre.harts@[f]);
                assert(pre.hphase(f) == self.hphase(f));
                assert(pre.harts@[f].csrs.mie_msoft);
            }
        }
    }

    /// Runs boot steps in any given interleaving of the five harts.
    pub fn run(&mut self, schedule: &Vec<usize>)
        requires
            old(self).inv(),
            forall|j: int| 0 <= j < schedule@.len() ==> #[trigger] schedule@[j] < NUM_HARTS,
        ensures
            final(self).inv(),
            final(self).boot_hart == old(self).boot_hart,
            final(self).next_addr == old(self).next_addr,
            final(self).opaque == old(self).opaque,
            final(self).fallback_addr == old(self).fallback_addr,
            final(self).dtb@ == old(self).dtb@,
            old(self).log@.is_prefix_of(final(self).log@),
            final(self)@ == run_view(old(self)@, schedule@),
    {
        let ghost s0 = *old(self);
        proof {
            assert(schedule@.subrange(0, schedule@.len() as int) =~= schedule@);
        }
        let mut j: usize = 0;
        while j < schedule.len()
            invariant
                j <= schedule@.len(),
                forall|k: int| 0 <= k < schedule@.len() ==> #[trigger] schedule@[k] < NUM_HARTS,
                self.inv(),
                self.boot_hart == s0.boot_hart,
                self.next_addr == s0.next_addr,
                self.opaque == s0.opaque,
                self.fallback_addr == s0.fallback_addr,
                self.dtb@ == s0.dtb@,
                s0.log@.is_prefix_of(self.log@),
                run_view(s0@, schedule@) == run_view(
                    self@,
                    schedule@.subrange(j as int, schedule@.len() as int),
                ),
            decreases schedule@.len() - j,
        {
            let h = schedule[j];
            let ghost pre = self@;
            let ghost rest = schedule@.subrange(j as int, schedule@.len() as int);
            self.step(h);
            proof {
                assert(rest[0] == schedule@[j as int]);
                assert(rest.drop_first() =~= schedule@.subrange(
                    j as int + 1,
                    schedule@.len() as int,
                ));
                assert(run_view(pre, rest) == run_view(step_view(pre, h as int), rest.drop_first()));
            }
            j = j + 1;
        }
        proof {
            assert(schedule@.subrange(schedule@.len() as int, schedule@.len() as int).len() == 0);
        }
    }
}

/// The happens-before property of the boot protocol: in every reachable
/// system state, a follower hart that has returned from its first pass
/// through the barrier proves the boot hart had already executed its first
/// notification round (and so its global initialization, which precedes the
/// round in program order); a follower that entered its trap loop proves
/// the boot hart had already finished full initialization, sent its second
/// round, and entered its own trap loop.
pub proof fn lemma_barrier_happens_before(s: System, f: int)
    requires
        s.inv(),
        0 <= f < NUM_HARTS as int,
        f != s.boot_hart,
    ensures
        phase_index(s.hphase(f)) >= 3 ==> phase_index(s.boot_phase()) >= 2,
        s.hphase(f) == Phase::Running ==> s.boot_phase() == Phase::Running,
{
}

} // verus!
