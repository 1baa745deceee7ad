use debugrs::breakpoint::{Breakpoint, Context, TRAP_OPCODE};
use debugrs::debugger::{
    classify_wait, is_resuming, resolve_trap, resume_plan, state_after_stop, ResumeAction,
    SessionState, StopClass, WaitEvent, SIGTRAP_SIGNAL,
};
use debugrs::instruction_processor::{
    find_matches, find_stack_region, make_breakpoint, parse_maps_line, stack_scan_bounds,
    word_display_value, ProcessingError,
};
use debugrs::user_instructions::UserInstruction;

/// Little-endian word read from a simulated target memory.
fn read_word(mem: &[u8], addr: usize) -> u64 {
    let mut w: u64 = 0;
    for k in (0..8).rev() {
        w = (w << 8) | mem[addr + k] as u64;
    }
    w
}

/// Little-endian word write into a simulated target memory.
fn write_word(mem: &mut [u8], addr: usize, w: u64) {
    for k in 0..8 {
        mem[addr + k] = (w >> (8 * k)) as u8;
    }
}

#[test]
fn breakpoint_word_round_trip() {
    let word: u64 = 0x1122_3344_5566_7788;
    let bp = make_breakpoint(0x40, word);
    assert_eq!(bp.previous_byte, 0x88);
    let patched = bp.insert_word(word);
    assert_eq!(patched, 0x1122_3344_5566_77cc);
    let restored = bp.remove_word(patched);
    assert_eq!(restored, word);
}

#[test]
fn breakpoint_patch_touches_only_low_byte() {
    let mut mem = vec![0u8; 32];
    for (i, b) in mem.iter_mut().enumerate() {
        *b = i as u8;
    }
    let addr = 8usize;
    let original = mem.clone();
    let bp = make_breakpoint(addr as u64, read_word(&mem, addr));
    let patched = bp.insert_word(read_word(&mem, addr));
    write_word(&mut mem, addr, patched);
    assert_eq!(mem[addr], TRAP_OPCODE);
    for k in 0..mem.len() {
        if k != addr {
            assert_eq!(mem[k], original[k]);
        }
    }
    let restored = bp.remove_word(read_word(&mem, addr));
    write_word(&mut mem, addr, restored);
    assert_eq!(mem, original);
}

#[test]
fn add_breakpoint_deduplicates() {
    let mut ctx = Context::new();
    ctx.add_breakpoint(Breakpoint {
        address: 0x40,
        previous_byte: 0x55,
    });
    assert_eq!(ctx.breakpoints.len(), 1);
    // a second add at the same address neither grows the set nor
    // overwrites the recorded original byte
    ctx.add_breakpoint(Breakpoint {
        address: 0x40,
        previous_byte: 0x77,
    });
    assert_eq!(ctx.breakpoints.len(), 1);
    assert_eq!(ctx.breakpoints[0].previous_byte, 0x55);
    ctx.add_breakpoint(Breakpoint {
        address: 0x48,
        previous_byte: 0x90,
    });
    assert_eq!(ctx.breakpoints.len(), 2);
}

#[test]
fn find_by_address_looks_up_tracked_breakpoints() {
    let mut ctx = Context::new();
    ctx.add_breakpoint(Breakpoint {
        address: 0x40,
        previous_byte: 0x55,
    });
    let found = ctx.find_by_address(0x40).expect("tracked address");
    assert_eq!(found.address, 0x40);
    assert_eq!(found.previous_byte, 0x55);
    assert!(ctx.find_by_address(0x41).is_none());
}

#[test]
fn resolve_trap_attributes_tracked_hit() {
    let mut ctx = Context::new();
    ctx.add_breakpoint(Breakpoint {
        address: 0x40,
        previous_byte: 0x55,
    });
    // the trap advanced the instruction pointer one byte past the patch
    let r = resolve_trap(&ctx, 0x41);
    let hit = r.hit.expect("tracked breakpoint one byte back");
    assert_eq!(hit.address, 0x40);
    assert_eq!(r.new_rip, 0x40);
}

#[test]
fn resolve_trap_leaves_foreign_traps_alone() {
    let mut ctx = Context::new();
    ctx.add_breakpoint(Breakpoint {
        address: 0x40,
        previous_byte: 0x55,
    });
    let r = resolve_trap(&ctx, 0x99);
    assert!(r.hit.is_none());
    assert_eq!(r.new_rip, 0x99);
    let r0 = resolve_trap(&ctx, 0);
    assert!(r0.hit.is_none());
    assert_eq!(r0.new_rip, 0);
}

#[test]
fn classify_wait_covers_every_event() {
    assert_eq!(
        classify_wait(&WaitEvent::Exited { code: 3 }),
        StopClass::ExitNow { code: 3 }
    );
    assert_eq!(
        classify_wait(&WaitEvent::Stopped {
            signal: SIGTRAP_SIGNAL
        }),
        StopClass::TrapStop
    );
    assert_eq!(
        classify_wait(&WaitEvent::Stopped { signal: 11 }),
        StopClass::PlainStop { signal: 11 }
    );
    assert_eq!(classify_wait(&WaitEvent::Other), StopClass::UnknownStop);
    assert_eq!(
        state_after_stop(&StopClass::ExitNow { code: 0 }),
        SessionState::Exited
    );
    assert_eq!(state_after_stop(&StopClass::TrapStop), SessionState::Stopped);
}

#[test]
fn resume_plans_follow_the_choreography() {
    assert!(is_resuming(&UserInstruction::SingleStep));
    assert!(is_resuming(&UserInstruction::ContinueUntilBreakpoint));
    assert!(is_resuming(&UserInstruction::ContinueUntilSyscall));
    assert!(!is_resuming(&UserInstruction::ShowHelp));
    assert!(!is_resuming(&UserInstruction::ShowMemory { address: 0x10 }));
    assert_eq!(
        resume_plan(&UserInstruction::ContinueUntilBreakpoint),
        vec![
            ResumeAction::StepClean,
            ResumeAction::ApplyAll,
            ResumeAction::Continue
        ]
    );
    assert_eq!(
        resume_plan(&UserInstruction::ContinueUntilSyscall),
        vec![
            ResumeAction::StepClean,
            ResumeAction::ApplyAll,
            ResumeAction::ContinueSyscall
        ]
    );
    assert_eq!(
        resume_plan(&UserInstruction::SingleStep),
        vec![ResumeAction::StepClean]
    );
}

#[test]
fn write_then_show_memory_round_trips_low_bits() {
    // `w 0x<addr> 42` writes the word 42; `m 0x<addr>` shows its low
    // 32 bits as a signed value
    let mut mem = vec![0u8; 16];
    write_word(&mut mem, 0, 42i64 as u64);
    assert_eq!(word_display_value(read_word(&mem, 0)), 42);
    write_word(&mut mem, 8, -2i64 as u64);
    assert_eq!(word_display_value(read_word(&mem, 8)), -2);
    // only the low 32 bits are shown
    assert_eq!(word_display_value(0x1_0000_002a), 42);
}

#[test]
fn find_matches_reports_every_matching_address() {
    let words: Vec<u64> = vec![7, 1234, 9, 1234, 0xdead_0000_0000_04d2];
    let found = find_matches(0x7ffd_1000, &words, 1234).expect("matches exist");
    // words 1 and 3 match outright; word 4 matches in its low 32 bits
    assert_eq!(found, vec![0x7ffd_1008, 0x7ffd_1018, 0x7ffd_1020]);
}

#[test]
fn find_matches_without_match_is_the_not_found_error() {
    let words: Vec<u64> = vec![7, 9, 11];
    assert_eq!(
        find_matches(0x7ffd_1000, &words, 1234),
        Err(ProcessingError::ValueNotFoundInMemory)
    );
    let one: Vec<u64> = vec![5, 1234, 6];
    assert_eq!(
        find_matches(0x7ffd_1000, &one, 1234),
        Ok(vec![0x7ffd_1008])
    );
}

#[test]
fn maps_line_parsing_recognizes_the_stack() {
    assert_eq!(
        parse_maps_line(b"7ffd1000-7ffd2000 rw-p 00000000 00:00 0                          [stack]"),
        Some((0x7ffd_1000, 0x7ffd_2000))
    );
    assert_eq!(
        parse_maps_line(b"00400000-00452000 r-xp 00000000 08:02 173521 /usr/bin/dbus-daemon"),
        None
    );
    assert_eq!(parse_maps_line(b"zz-7ffd2000 rw-p 0 0 0 [stack]"), None);
    assert_eq!(parse_maps_line(b""), None);
}

#[test]
fn stack_region_takes_the_last_labeled_line() {
    let lines: Vec<Vec<u8>> = vec![
        b"00400000-00452000 r-xp 00000000 08:02 1 /bin/cat".to_vec(),
        b"7ffd1000-7ffd2000 rw-p 00000000 00:00 0 [stack]".to_vec(),
        b"7ffd3000-7ffd4000 rw-p 00000000 00:00 0 [stack]".to_vec(),
    ];
    assert_eq!(find_stack_region(&lines), Some((0x7ffd_3000, 0x7ffd_4000)));
    let no_stack: Vec<Vec<u8>> = vec![b"00400000-00452000 r-xp 0 0 1 /bin/cat".to_vec()];
    assert_eq!(find_stack_region(&no_stack), None);
}

#[test]
fn scan_bounds_trim_one_word_each_side() {
    assert_eq!(stack_scan_bounds(0x1000, 0x2000), Some((0x1008, 0x1ff8)));
    assert_eq!(stack_scan_bounds(u64::MAX - 4, 0x2000), None);
    assert_eq!(stack_scan_bounds(0x1000, 4), None);
}

/// A deterministic run against a simulated target: the "program"
/// increments the byte at address 12 when its instruction at address 4
/// executes. Set a breakpoint on that instruction, continue to the hit,
/// step, and watch the increment land.
#[test]
fn breakpoint_hit_step_and_inspect_scenario() {
    let mut mem = vec![0u8; 24];
    mem[4] = 0x90; // the instruction the breakpoint will patch
    mem[12] = 41; // the location the program increments
    let instr_addr = 4usize;
    let data_addr = 12usize;

    // b 0x4: record the breakpoint from current memory
    let mut ctx = Context::new();
    ctx.add_breakpoint(make_breakpoint(
        instr_addr as u64,
        read_word(&mem, instr_addr),
    ));

    // c: step clean, re-arm all breakpoints, continue
    assert_eq!(
        resume_plan(&UserInstruction::ContinueUntilBreakpoint),
        vec![
            ResumeAction::StepClean,
            ResumeAction::ApplyAll,
            ResumeAction::Continue
        ]
    );
    for bp in &ctx.breakpoints {
        let patched = bp.insert_word(read_word(&mem, bp.address as usize));
        write_word(&mut mem, bp.address as usize, patched);
    }
    assert_eq!(mem[instr_addr], TRAP_OPCODE);

    // the child runs into the trap: it stops one byte past the patch
    let rip = (instr_addr + 1) as u64;
    assert_eq!(
        classify_wait(&WaitEvent::Stopped {
            signal: SIGTRAP_SIGNAL
        }),
        StopClass::TrapStop
    );

    // on a trap stop every breakpoint comes out before anything is shown
    for bp in &ctx.breakpoints {
        let restored = bp.remove_word(read_word(&mem, bp.address as usize));
        write_word(&mut mem, bp.address as usize, restored);
    }
    assert_eq!(mem[instr_addr], 0x90);

    // the trap is attributed and the instruction pointer rewound
    let resolution = resolve_trap(&ctx, rip);
    let hit = resolution.hit.expect("hit the tracked breakpoint");
    assert_eq!(hit.address, instr_addr as u64);
    assert_eq!(resolution.new_rip, instr_addr as u64);

    // n: the step executes the original instruction, not the trap
    assert_ne!(mem[resolution.new_rip as usize], TRAP_OPCODE);
    mem[data_addr] += 1; // the instruction's effect

    // m 0xc: the memory display shows the incremented value
    assert_eq!(word_display_value(read_word(&mem, data_addr)), 42);
}
