use hifive_sbi::barrier::IpiArrival;
use hifive_sbi::barrier::pause;
use hifive_sbi::boot::BootEvent;
use hifive_sbi::boot::DeviceTreeError;
use hifive_sbi::boot::FwDynamicInfo;
use hifive_sbi::boot::Phase;
use hifive_sbi::boot::System;
use hifive_sbi::boot::check_device_tree;
use hifive_sbi::boot::default_device_tree;
use hifive_sbi::boot::effective_opaque;
use hifive_sbi::clint::Clint;
use hifive_sbi::context::MachineTrap;
use hifive_sbi::context::SupervisorContext;
use hifive_sbi::csr::HartCsrs;
use hifive_sbi::csr::delegate_interrupt_exception;
use hifive_sbi::runtime::LoopEvent;
use hifive_sbi::runtime::LoopExit;
use hifive_sbi::runtime::ResumeEvent;
use hifive_sbi::runtime::execute_supervisor;
use hifive_sbi::dist::CompileMode;
use hifive_sbi::dist::XtaskEnv;
use hifive_sbi::dist::dist_dir;
use hifive_sbi::runtime::ResumeOutcome;
use hifive_sbi::runtime::Runtime;
use hifive_sbi::runtime::RuntimeState;
use hifive_sbi::sbi::SBI_SUCCESS;
use hifive_sbi::sbi::SbiAnswer;
use hifive_sbi::sbi::marshal_sbi_args;
use hifive_sbi::sbi::write_dispatch_answer;

fn context_with(a: [usize; 8], mepc: usize) -> SupervisorContext {
    SupervisorContext {
        a0: a[0],
        a1: a[1],
        a2: a[2],
        a3: a[3],
        a4: a[4],
        a5: a[5],
        a6: a[6],
        a7: a[7],
        mepc,
    }
}

#[test]
fn dispatch_writeback_is_bit_exact() {
    let mut ctx = context_with([10, 11, 12, 13, 14, 15, 16, 17], 0x8020_0000);
    write_dispatch_answer(&mut ctx, SbiAnswer { error: 0, value: 0x0100_0000 });
    assert_eq!(ctx.a0, 0);
    assert_eq!(ctx.a1, 0x0100_0000);
    assert_eq!(ctx.a2, 12);
    assert_eq!(ctx.a3, 13);
    assert_eq!(ctx.a4, 14);
    assert_eq!(ctx.a5, 15);
    assert_eq!(ctx.a6, 16);
    assert_eq!(ctx.a7, 17);
    assert_eq!(ctx.mepc, 0x8020_0004);
}

#[test]
fn dispatch_writeback_wraps_program_counter() {
    let mut ctx = context_with([0, 0, 0, 0, 0, 0, 0, 0], usize::MAX - 3);
    write_dispatch_answer(&mut ctx, SbiAnswer { error: 5, value: 9 });
    assert_eq!(ctx.mepc, 0);
    assert_eq!(ctx.a0, 5);
    assert_eq!(ctx.a1, 9);
}

#[test]
fn marshal_reads_selector_and_argument_registers() {
    let ctx = context_with([1, 2, 3, 4, 5, 6, 7, 0x10], 0);
    let args = marshal_sbi_args(&ctx);
    assert_eq!(args.extension, 0x10);
    assert_eq!(args.function, 7);
    assert_eq!(args.param, [1, 2, 3, 4, 5, 6]);
}

#[test]
fn stack_slices_are_disjoint_and_fixed_size() {
    let mut previous_end: usize = 0;
    for h in 0..5 {
        let (lo, hi) = hifive_sbi::stack::hart_stack_slice(h);
        assert_eq!(hi - lo, 4 * 4096);
        assert_eq!(lo, previous_end);
        previous_end = hi;
    }
    assert_eq!(previous_end, 5 * 4 * 4096);
}

#[test]
fn stack_pointer_is_top_of_own_slice() {
    let base: usize = 0x8000_0000;
    assert_eq!(hifive_sbi::stack::hart_stack_pointer(base, 0), base + 16384);
    assert_eq!(hifive_sbi::stack::hart_stack_pointer(base, 4), base + 5 * 16384);
}

#[test]
fn delegation_sets_fixed_mask_and_is_idempotent() {
    let mut csrs = HartCsrs::at_reset();
    delegate_interrupt_exception(&mut csrs);
    let once = csrs;
    assert_eq!(csrs.mideleg_bits(), 0x333);
    assert_eq!(csrs.medeleg_bits(), 0xb1ab);
    assert!(!csrs.medeleg.supervisor_env_call);
    assert!(csrs.mie_mext);
    assert!(csrs.mie_msoft);
    assert!(!csrs.mie_mtimer);
    delegate_interrupt_exception(&mut csrs);
    assert_eq!(csrs, once);
    assert_eq!(csrs.mideleg_bits(), once.mideleg_bits());
    assert_eq!(csrs.medeleg_bits(), once.medeleg_bits());
}

#[test]
fn barrier_restores_disabled_interrupt_state() {
    let mut csrs = HartCsrs::at_reset();
    let mut clint = Clint::at_reset(5);
    assert!(!csrs.mie_msoft);
    pause(&mut csrs, &mut clint, 3, IpiArrival { after_polls: 2 });
    assert!(!csrs.mie_msoft);
    assert!(!clint.read_msip(3));
}

#[test]
fn barrier_keeps_enabled_interrupt_state() {
    let mut csrs = HartCsrs::at_reset();
    csrs.mie_msoft = true;
    let mut clint = Clint::at_reset(5);
    // A stale pending notification is discarded, not taken for the wake-up.
    clint.send_soft(1);
    pause(&mut csrs, &mut clint, 1, IpiArrival { after_polls: 0 });
    assert!(csrs.mie_msoft);
    assert!(!clint.read_msip(1));
}

#[test]
fn device_tree_magic_is_checked() {
    assert_eq!(check_device_tree(&vec![0xd0, 0x0d, 0xfe, 0xed]), Ok(()));
    assert_eq!(
        check_device_tree(&vec![0xde, 0xad, 0xbe, 0xef]),
        Err(DeviceTreeError::BadMagic)
    );
    assert_eq!(check_device_tree(&vec![0xd0, 0x0d]), Err(DeviceTreeError::Truncated));
    assert_eq!(check_device_tree(&Vec::new()), Err(DeviceTreeError::Truncated));
    assert_eq!(check_device_tree(&default_device_tree()), Ok(()));
}

#[test]
fn handoff_value_falls_back_to_embedded_blob() {
    assert_eq!(effective_opaque(0, 0x8700_0000), 0x8700_0000);
    assert_eq!(effective_opaque(0x8220_0000, 0x8700_0000), 0x8220_0000);
}

#[test]
fn boot_descriptor_magic() {
    let mut info = boot_descriptor();
    assert!(info.magic_ok());
    info.magic = 0x12345678;
    assert!(!info.magic_ok());
}

fn boot_descriptor() -> FwDynamicInfo {
    FwDynamicInfo {
        magic: 0x4942534f,
        version: 2,
        next_addr: 0x8020_0000,
        next_mode: 1,
        options: 0,
        boot_hart: 0,
    }
}

fn full_boot_schedule() -> Vec<usize> {
    let mut schedule: Vec<usize> = Vec::new();
    // Followers reach their first wait, the boot hart initializes and sends,
    // the followers pass the first barrier, the boot hart finishes and sends
    // again, the followers pass the second barrier.
    schedule.extend_from_slice(&[1, 2, 3, 4]);
    schedule.push(0);
    schedule.extend_from_slice(&[1, 2, 3, 4]);
    schedule.push(0);
    schedule.extend_from_slice(&[1, 2, 3, 4]);
    schedule
}

fn first_index_of(log: &[BootEvent], wanted: BootEvent) -> usize {
    for (i, e) in log.iter().enumerate() {
        if *e == wanted {
            return i;
        }
    }
    panic!("event not found in boot log");
}

#[test]
fn boot_scenario_all_harts_reach_trap_loop() {
    let info = boot_descriptor();
    let mut sys = System::new(&info, 0, 0x8700_0000, default_device_tree());
    sys.run(&full_boot_schedule());
    for h in 0..5 {
        assert_eq!(sys.harts[h].phase, Phase::Running);
        assert_eq!(sys.harts[h].entry_pc, 0x8020_0000);
        // The loader supplied no handoff value: every hart got the embedded
        // blob's address instead.
        assert_eq!(sys.harts[h].entry_opaque, 0x8700_0000);
    }
    // No warning: the device tree was well formed.
    assert!(!sys.log.contains(&BootEvent::DeviceTreeWarning));
    // Every hart, boot hart included, ended with delegation configured and
    // the machine timer still unarmed.
    for h in 0..5 {
        assert_eq!(sys.harts[h].csrs.mideleg_bits(), 0x333);
        assert_eq!(sys.harts[h].csrs.medeleg_bits(), 0xb1ab);
        assert!(!sys.harts[h].csrs.mie_mtimer);
    }
    // Happens-before, read off the injected event log: each follower's two
    // barrier returns come after the matching sends of the boot hart.
    for h in 1..5 {
        let send = first_index_of(&sys.log, BootEvent::SendSoft { to: h });
        let ret = first_index_of(&sys.log, BootEvent::BarrierReturn { hart: h });
        assert!(send < ret);
        let enter = first_index_of(&sys.log, BootEvent::EnterSupervisor { hart: h, pc: 0x8020_0000 });
        let boot_enter = first_index_of(&sys.log, BootEvent::EnterSupervisor { hart: 0, pc: 0x8020_0000 });
        assert!(boot_enter < enter);
        assert!(ret < enter);
    }
}

#[test]
fn boot_scenario_probe_call_after_boot() {
    let info = boot_descriptor();
    let mut sys = System::new(&info, 0, 0x8700_0000, default_device_tree());
    sys.run(&full_boot_schedule());
    // From any hart now serving traps: a probe-style call of the base
    // extension, with the dispatcher's deterministic answer, comes back as
    // (0, value) in a0/a1 and the saved program counter advances by 4.
    for h in 0..5 {
        let mut csrs = sys.harts[h].csrs;
        let trapped = context_with([0, 0, 2, 3, 4, 5, 0, 0x10], 0x8020_0000);
        let events = vec![LoopEvent {
            event: ResumeEvent::Trap(MachineTrap::SbiCall, trapped),
            sbi_answer: SbiAnswer { error: 0, value: 0x0100_0000 },
        }];
        let (rt, exit) = execute_supervisor(
            sys.harts[h].entry_pc,
            h,
            sys.harts[h].entry_opaque,
            &mut csrs,
            &events,
        );
        assert_eq!(exit, LoopExit::EventsExhausted);
        assert_eq!(rt.context.a0, SBI_SUCCESS);
        assert_eq!(rt.context.a1, 0x0100_0000);
        assert_eq!(rt.context.a2, 2);
        assert_eq!(rt.context.a7, 0x10);
        assert_eq!(rt.context.mepc, 0x8020_0004);
    }
}

#[test]
fn boot_survives_malformed_device_tree() {
    let info = boot_descriptor();
    let bad_dtb = vec![0xff, 0xff, 0xff, 0xff];
    let mut sys = System::new(&info, 0x8220_0000, 0x8700_0000, bad_dtb);
    sys.run(&full_boot_schedule());
    // The malformed input was logged as a warning and the boot still reached
    // "all harts in the trap loop".
    assert!(sys.log.contains(&BootEvent::DeviceTreeWarning));
    for h in 0..5 {
        assert_eq!(sys.harts[h].phase, Phase::Running);
        assert_eq!(sys.harts[h].entry_pc, 0x8020_0000);
        assert_eq!(sys.harts[h].entry_opaque, 0x8220_0000);
    }
}

#[test]
fn parked_follower_does_not_move_without_notification() {
    let info = boot_descriptor();
    let mut sys = System::new(&info, 0, 0x8700_0000, default_device_tree());
    // A follower may spin in its wait as long as it likes: nothing changes.
    sys.run(&vec![1, 1, 1, 1]);
    assert_eq!(sys.harts[1].phase, Phase::FirstWait);
    assert_eq!(sys.harts[0].phase, Phase::Reset);
    assert!(sys.log.is_empty());
}

#[test]
fn followers_of_nonzero_boot_hart_all_run() {
    // The notification rounds cover every follower, hart 0 included, when
    // another hart is the designated boot hart.
    let mut info = boot_descriptor();
    info.boot_hart = 2;
    let mut sys = System::new(&info, 0, 0x8700_0000, default_device_tree());
    let mut schedule: Vec<usize> = vec![0, 1, 3, 4];
    schedule.push(2);
    schedule.extend_from_slice(&[0, 1, 3, 4]);
    schedule.push(2);
    schedule.extend_from_slice(&[0, 1, 3, 4]);
    sys.run(&schedule);
    for h in 0..5 {
        assert_eq!(sys.harts[h].phase, Phase::Running);
        assert_eq!(sys.harts[h].entry_pc, 0x8020_0000);
    }
    // Hart 0 passed both barriers but never configured delegation: as a
    // follower it must leave that until the memory subsystems are ready.
    assert_eq!(sys.harts[0].csrs.mideleg_bits(), 0);
    assert_eq!(sys.harts[1].csrs.mideleg_bits(), 0x333);
}

#[test]
fn global_initialization_happens_exactly_once() {
    let info = boot_descriptor();
    let mut sys = System::new(&info, 0, 0x8700_0000, default_device_tree());
    sys.run(&full_boot_schedule());
    let log_len = sys.log.len();
    // Steps of harts that already serve traps change nothing: no second
    // global initialization, no further events of any kind.
    sys.run(&vec![0, 1, 2, 3, 4, 0]);
    assert_eq!(sys.log.len(), log_len);
    let inits = sys.log.iter().filter(|e| **e == BootEvent::GlobalInitDone).count();
    assert_eq!(inits, 1);
    // And each follower was notified exactly twice.
    for h in 1..5 {
        let sends = sys.log.iter().filter(|e| **e == BootEvent::SendSoft { to: h }).count();
        assert_eq!(sends, 2);
    }
}

#[test]
fn trap_loop_halts_on_unimplemented_trap_classes() {
    let mut csrs = HartCsrs::at_reset();
    let trapped = context_with([0, 0, 0, 0, 0, 0, 0, 0], 0x8020_0100);
    let events = vec![LoopEvent {
        event: ResumeEvent::Trap(MachineTrap::IllegalInstruction, trapped),
        sbi_answer: SbiAnswer { error: 0, value: 0 },
    }];
    let (_, exit) = execute_supervisor(0x8020_0000, 1, 0x8700_0000, &mut csrs, &events);
    assert_eq!(exit, LoopExit::Fatal(MachineTrap::IllegalInstruction));

    let events = vec![LoopEvent {
        event: ResumeEvent::Trap(MachineTrap::MachineSoft, trapped),
        sbi_answer: SbiAnswer { error: 0, value: 0 },
    }];
    let (_, exit) = execute_supervisor(0x8020_0000, 1, 0x8700_0000, &mut csrs, &events);
    assert_eq!(exit, LoopExit::Fatal(MachineTrap::MachineSoft));
}

#[test]
fn trap_loop_translates_machine_timer() {
    let mut csrs = HartCsrs::at_reset();
    csrs.mie_mtimer = true;
    let trapped = context_with([7, 8, 9, 10, 11, 12, 13, 14], 0x8020_0200);
    let events = vec![LoopEvent {
        event: ResumeEvent::Trap(MachineTrap::MachineTimer, trapped),
        sbi_answer: SbiAnswer { error: 0, value: 0 },
    }];
    let (rt, exit) = execute_supervisor(0x8020_0000, 2, 0, &mut csrs, &events);
    assert_eq!(exit, LoopExit::EventsExhausted);
    // The supervisor timer interrupt was raised, the machine timer masked,
    // and the trapped registers were left alone.
    assert!(csrs.mip_stimer);
    assert!(!csrs.mie_mtimer);
    assert_eq!(rt.context, trapped);
}

#[test]
fn trap_loop_initial_context_and_completion() {
    let mut csrs = HartCsrs::at_reset();
    let events: Vec<LoopEvent> = Vec::new();
    let (rt, exit) = execute_supervisor(0x8020_0000, 3, 0x8700_0000, &mut csrs, &events);
    assert_eq!(exit, LoopExit::EventsExhausted);
    assert_eq!(rt.context.mepc, 0x8020_0000);
    assert_eq!(rt.context.a0, 3);
    assert_eq!(rt.context.a1, 0x8700_0000);
    assert_eq!(rt.context.a2, 0);

    let events = vec![LoopEvent {
        event: ResumeEvent::Finish,
        sbi_answer: SbiAnswer { error: 0, value: 0 },
    }];
    let (_, exit) = execute_supervisor(0x8020_0000, 3, 0x8700_0000, &mut csrs, &events);
    assert_eq!(exit, LoopExit::Completed);
}

#[test]
fn runtime_resume_reports_suspension_and_completion() {
    let mut rt = Runtime::new_sbi_supervisor(0x8020_0000, 4, 0x8700_0000);
    assert_eq!(rt.state, RuntimeState::NotStarted);
    assert_eq!(rt.hart_id, 4);
    assert_eq!(rt.context.mepc, 0x8020_0000);
    assert_eq!(rt.context.a0, 4);
    assert_eq!(rt.context.a1, 0x8700_0000);

    let trapped = context_with([9, 9, 9, 9, 9, 9, 0, 0x10], 0x8020_0040);
    let outcome = rt.resume(ResumeEvent::Trap(MachineTrap::SbiCall, trapped));
    assert_eq!(outcome, ResumeOutcome::Suspended(MachineTrap::SbiCall));
    assert_eq!(rt.state, RuntimeState::Suspended);
    // Between suspensions the context is open for inspection: it holds the
    // registers saved at the trap.
    assert_eq!(rt.context, trapped);

    let outcome = rt.resume(ResumeEvent::Finish);
    assert_eq!(outcome, ResumeOutcome::Completed);
    assert_eq!(rt.state, RuntimeState::Completed);
}

#[test]
fn notifier_flags_are_per_hart() {
    let mut clint = Clint::at_reset(5);
    clint.send_soft(2);
    assert!(clint.read_msip(2));
    assert!(!clint.read_msip(1));
    assert!(!clint.read_msip(3));
    clint.clear_soft(2);
    assert!(!clint.read_msip(2));
    clint.set_timer(4, 1_000_000);
    assert!(!clint.read_msip(4));
}

#[test]
fn dist_dir_by_compile_mode() {
    let debug = XtaskEnv { compile_mode: CompileMode::Debug };
    let release = XtaskEnv { compile_mode: CompileMode::Release };
    assert_eq!(dist_dir(&debug), "target/riscv64imac-unknown-none-elf/debug");
    assert_eq!(dist_dir(&release), "target/riscv64imac-unknown-none-elf/release");
    assert_eq!(CompileMode::Debug.name(), "debug");
    assert_eq!(CompileMode::Release.name(), "release");
}
