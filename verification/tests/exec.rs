use chip8::cpu::CPUState;
use chip8::cpu::ExecResult;
use chip8::cpu::Fault;
use chip8::cpu::HaltReason;
use chip8::cpu::RomError;
use chip8::cpu::StepResult;
use chip8::parsing::DecodeError;
use chip8::parsing::Instruction;

fn machine_with(rom: &[u8]) -> CPUState {
    let mut cpu = CPUState::new();
    assert_eq!(cpu.load_rom(rom), Ok(()));
    cpu
}

fn run_ok(cpu: &mut CPUState, steps: usize) {
    for _ in 0..steps {
        match cpu.step() {
            StepResult::Ran { .. } => {}
            other => panic!("expected a completed step, got {:?}", other),
        }
    }
}

#[test]
fn new_machine_is_zeroed_with_font_loaded() {
    let cpu = CPUState::new();
    assert_eq!(cpu.pc(), 0x200);
    assert_eq!(cpu.sp(), 0);
    assert_eq!(cpu.i_reg(), 0);
    assert_eq!(cpu.delay(), 0);
    assert_eq!(cpu.sound(), 0);
    for x in 0..16u8 {
        assert_eq!(cpu.reg(x), 0);
    }
    assert_eq!(cpu.mem(0), 0xF0);
    assert_eq!(cpu.mem(4), 0xF0);
    assert_eq!(cpu.mem(79), 0x80);
    assert_eq!(cpu.mem(80), 0);
    assert_eq!(cpu.mem(0x200), 0);
    assert_eq!(cpu.mem(0xFFF), 0);
}

#[test]
fn load_rom_places_bytes_at_0x200() {
    let cpu = machine_with(&[0xAB, 0xCD, 0xEF]);
    assert_eq!(cpu.mem(0x200), 0xAB);
    assert_eq!(cpu.mem(0x201), 0xCD);
    assert_eq!(cpu.mem(0x202), 0xEF);
    assert_eq!(cpu.mem(0x203), 0x00);
}

#[test]
fn load_rom_fills_memory_to_the_last_byte() {
    let mut cpu = CPUState::new();
    let rom = vec![0x7Eu8; 3584];
    assert_eq!(cpu.load_rom(&rom), Ok(()));
    assert_eq!(cpu.mem(0xFFF), 0x7E);
}

#[test]
fn load_rom_refuses_an_oversized_rom() {
    let mut cpu = CPUState::new();
    let rom = vec![0x7Eu8; 3585];
    assert_eq!(cpu.load_rom(&rom), Err(RomError::TooLarge));
    assert_eq!(cpu.mem(0x200), 0);
}

#[test]
fn scenario_load_and_add() {
    let mut cpu = machine_with(&[0x60, 0x05, 0x61, 0x03, 0x80, 0x14]);
    run_ok(&mut cpu, 3);
    assert_eq!(cpu.reg(0), 8);
    assert_eq!(cpu.reg(0xF), 0);
    assert_eq!(cpu.pc(), 0x206);
}

#[test]
fn add_sets_carry_and_wraps() {
    let mut cpu = machine_with(&[0x60, 0xFF, 0x61, 0x02, 0x80, 0x14]);
    run_ok(&mut cpu, 3);
    assert_eq!(cpu.reg(0), 0x01);
    assert_eq!(cpu.reg(0xF), 1);
}

#[test]
fn sub_sets_no_borrow_flag() {
    let mut cpu = machine_with(&[0x60, 0x05, 0x61, 0x03, 0x80, 0x15]);
    run_ok(&mut cpu, 3);
    assert_eq!(cpu.reg(0), 2);
    assert_eq!(cpu.reg(0xF), 1);
}

#[test]
fn sub_wraps_on_borrow() {
    let mut cpu = machine_with(&[0x60, 0x03, 0x61, 0x05, 0x80, 0x15]);
    run_ok(&mut cpu, 3);
    assert_eq!(cpu.reg(0), 254);
    assert_eq!(cpu.reg(0xF), 0);
}

#[test]
fn subn_stores_into_the_second_register() {
    let mut cpu = machine_with(&[0x60, 0x07, 0x61, 0x0A, 0x80, 0x17]);
    run_ok(&mut cpu, 3);
    assert_eq!(cpu.reg(1), 3);
    assert_eq!(cpu.reg(0), 7);
    assert_eq!(cpu.reg(0xF), 1);
}

#[test]
fn shr_keeps_the_shifted_out_bit() {
    let mut cpu = machine_with(&[0x60, 0x05, 0x80, 0x16]);
    run_ok(&mut cpu, 2);
    assert_eq!(cpu.reg(0), 2);
    assert_eq!(cpu.reg(0xF), 1);
}

#[test]
fn shl_keeps_the_shifted_out_bit() {
    let mut cpu = machine_with(&[0x60, 0x81, 0x80, 0x1E]);
    run_ok(&mut cpu, 2);
    assert_eq!(cpu.reg(0), 0x02);
    assert_eq!(cpu.reg(0xF), 1);
}

#[test]
fn bitwise_ops() {
    let mut cpu = machine_with(&[
        0x60, 0b1100, 0x61, 0b1010, 0x80, 0x11, // Or
        0x60, 0b1100, 0x80, 0x12, // And
        0x60, 0b1100, 0x80, 0x13, // Xor
    ]);
    run_ok(&mut cpu, 3);
    assert_eq!(cpu.reg(0), 0b1110);
    run_ok(&mut cpu, 2);
    assert_eq!(cpu.reg(0), 0b1000);
    run_ok(&mut cpu, 2);
    assert_eq!(cpu.reg(0), 0b0110);
}

#[test]
fn addv_wraps_without_touching_the_flag() {
    let mut cpu = machine_with(&[0x60, 0xFF, 0x70, 0x02]);
    run_ok(&mut cpu, 2);
    assert_eq!(cpu.reg(0), 1);
    assert_eq!(cpu.reg(0xF), 0);
}

#[test]
fn addi_adds_without_touching_the_flag() {
    let mut cpu = machine_with(&[0x60, 0x05, 0xA1, 0x00, 0xF0, 0x1E]);
    run_ok(&mut cpu, 3);
    assert_eq!(cpu.i_reg(), 0x105);
    assert_eq!(cpu.reg(0xF), 0);
}

#[test]
fn lds_points_at_the_font_glyph() {
    let mut cpu = machine_with(&[0x60, 0x07, 0xF0, 0x29]);
    run_ok(&mut cpu, 2);
    assert_eq!(cpu.i_reg(), 35);
    assert_eq!(cpu.mem(35), 0xF0);
}

#[test]
fn bcd_stores_three_digits() {
    let mut cpu = machine_with(&[0x60, 0xEA, 0xA3, 0x00, 0xF0, 0x33]);
    run_ok(&mut cpu, 3);
    assert_eq!(cpu.mem(0x300), 2);
    assert_eq!(cpu.mem(0x301), 3);
    assert_eq!(cpu.mem(0x302), 4);
}

#[test]
fn bcd_out_of_bounds_faults() {
    let mut cpu = machine_with(&[0xAF, 0xFE, 0xF0, 0x33]);
    run_ok(&mut cpu, 1);
    assert_eq!(
        cpu.step(),
        StepResult::Halted(HaltReason::ExecutionFault(
            Fault::InvalidAddress,
            Instruction::LdBCD(0)
        ))
    );
}

#[test]
fn register_dump_and_restore_round_trip() {
    let mut cpu = machine_with(&[
        0x60, 0x11, 0x61, 0x22, 0x62, 0x33, // V0..V2
        0xA3, 0x00, // I = 0x300
        0xF2, 0x55, // store V0..=V2
        0x60, 0x00, 0x61, 0x00, 0x62, 0x00, // clear them
        0xF2, 0x65, // load V0..=V2 back
    ]);
    run_ok(&mut cpu, 5);
    assert_eq!(cpu.mem(0x300), 0x11);
    assert_eq!(cpu.mem(0x301), 0x22);
    assert_eq!(cpu.mem(0x302), 0x33);
    assert_eq!(cpu.mem(0x303), 0x00);
    run_ok(&mut cpu, 4);
    assert_eq!(cpu.reg(0), 0x11);
    assert_eq!(cpu.reg(1), 0x22);
    assert_eq!(cpu.reg(2), 0x33);
}

#[test]
fn sixteen_calls_succeed_and_the_seventeenth_overflows() {
    let mut rom: Vec<u8> = Vec::new();
    for k in 0..17u16 {
        let target = 0x202 + 2 * k;
        rom.push(0x20 | (target >> 8) as u8);
        rom.push((target & 0xFF) as u8);
    }
    let mut cpu = machine_with(&rom);
    run_ok(&mut cpu, 16);
    assert_eq!(cpu.sp(), 16);
    assert_eq!(
        cpu.step(),
        StepResult::Halted(HaltReason::ExecutionFault(
            Fault::StackOverflow,
            Instruction::Call(0x222)
        ))
    );
}

#[test]
fn ret_on_empty_stack_is_a_clean_halt() {
    let mut cpu = machine_with(&[0x00, 0xEE]);
    assert_eq!(cpu.step(), StepResult::Halted(HaltReason::Halt));
}

#[test]
fn call_and_ret_round_trip() {
    let mut cpu = machine_with(&[0x22, 0x04, 0x00, 0x00, 0x00, 0xEE]);
    run_ok(&mut cpu, 1);
    assert_eq!(cpu.pc(), 0x204);
    assert_eq!(cpu.sp(), 1);
    run_ok(&mut cpu, 1);
    assert_eq!(cpu.pc(), 0x202);
    assert_eq!(cpu.sp(), 0);
}

#[test]
fn sev_advances_four_when_equal() {
    let mut cpu = machine_with(&[0x60, 0x42, 0x30, 0x42]);
    run_ok(&mut cpu, 2);
    assert_eq!(cpu.pc(), 0x206);
}

#[test]
fn sev_advances_two_when_not_equal() {
    let mut cpu = machine_with(&[0x60, 0x42, 0x30, 0x43]);
    run_ok(&mut cpu, 2);
    assert_eq!(cpu.pc(), 0x204);
}

#[test]
fn snev_and_register_skips() {
    let mut cpu = machine_with(&[0x40, 0x01, 0x00, 0x00]);
    run_ok(&mut cpu, 1);
    assert_eq!(cpu.pc(), 0x204);

    let mut cpu2 = machine_with(&[0x60, 0x05, 0x61, 0x05, 0x50, 0x10]);
    run_ok(&mut cpu2, 3);
    assert_eq!(cpu2.pc(), 0x208);

    let mut cpu3 = machine_with(&[0x60, 0x05, 0x61, 0x05, 0x90, 0x10]);
    run_ok(&mut cpu3, 3);
    assert_eq!(cpu3.pc(), 0x206);
}

#[test]
fn skp_and_sknp_follow_the_key_state() {
    let mut cpu = machine_with(&[0x60, 0x03, 0xE0, 0x9E, 0x00, 0x00, 0xE0, 0xA1]);
    cpu.set_key(3, true);
    run_ok(&mut cpu, 2);
    assert_eq!(cpu.pc(), 0x206);
    run_ok(&mut cpu, 1);
    assert_eq!(cpu.pc(), 0x208);
}

#[test]
fn ldk_waits_until_a_key_is_pressed() {
    let mut cpu = machine_with(&[0xF0, 0x0A]);
    assert_eq!(cpu.step(), StepResult::Waiting);
    assert_eq!(cpu.pc(), 0x200);
    assert_eq!(cpu.step(), StepResult::Waiting);
    cpu.set_key(7, true);
    cpu.set_key(9, true);
    run_ok(&mut cpu, 1);
    assert_eq!(cpu.reg(0), 7);
    assert_eq!(cpu.pc(), 0x202);
}

#[test]
fn rnd_masks_the_random_byte() {
    for _ in 0..32 {
        let mut cpu = machine_with(&[0xC0, 0x0F]);
        run_ok(&mut cpu, 1);
        assert_eq!(cpu.reg(0) & 0xF0, 0);
    }
}

#[test]
fn timers_count_down_once_per_step() {
    let mut cpu = machine_with(&[0x60, 0x03, 0xF0, 0x15, 0x00, 0x00, 0x00, 0x00]);
    run_ok(&mut cpu, 2);
    // LdTd set the delay timer to 3; the same step already ticked it.
    assert_eq!(cpu.delay(), 2);
    run_ok(&mut cpu, 2);
    assert_eq!(cpu.delay(), 0);
}

#[test]
fn sound_timer_requests_the_beep() {
    let mut cpu = machine_with(&[0x60, 0x02, 0xF0, 0x18, 0x00, 0x00, 0x00, 0x00]);
    match cpu.step() {
        StepResult::Ran { beep } => assert!(!beep),
        other => panic!("unexpected {:?}", other),
    }
    match cpu.step() {
        StepResult::Ran { beep } => assert!(beep),
        other => panic!("unexpected {:?}", other),
    }
    assert_eq!(cpu.sound(), 1);
    match cpu.step() {
        StepResult::Ran { beep } => assert!(beep),
        other => panic!("unexpected {:?}", other),
    }
    assert_eq!(cpu.sound(), 0);
    match cpu.step() {
        StepResult::Ran { beep } => assert!(!beep),
        other => panic!("unexpected {:?}", other),
    }
}

#[test]
fn ldt_reads_the_delay_timer() {
    let mut cpu = machine_with(&[0x60, 0x05, 0xF0, 0x15, 0xF1, 0x07]);
    run_ok(&mut cpu, 3);
    // delay went 5 -> 4 -> 3 over the two following steps; LdDt read it
    // before its own tick.
    assert_eq!(cpu.reg(1), 4);
}

#[test]
fn jp_sets_the_program_counter() {
    let mut cpu = machine_with(&[0x12, 0x08]);
    run_ok(&mut cpu, 1);
    assert_eq!(cpu.pc(), 0x208);
}

#[test]
fn jpv0_adds_register_zero() {
    let mut cpu = machine_with(&[0x60, 0x06, 0xB2, 0x02]);
    run_ok(&mut cpu, 2);
    assert_eq!(cpu.pc(), 0x208);
}

#[test]
fn jp_outside_program_space_faults() {
    let mut cpu = machine_with(&[0x11, 0x00]);
    assert_eq!(
        cpu.step(),
        StepResult::Halted(HaltReason::ExecutionFault(
            Fault::InvalidJump,
            Instruction::Jp(0x100)
        ))
    );
}

#[test]
fn undecodable_bytes_halt_with_the_bytes() {
    let mut cpu = machine_with(&[0x5A, 0xB1]);
    assert_eq!(
        cpu.step(),
        StepResult::Halted(HaltReason::DecodeFailure(DecodeError {
            b0: 0x5A,
            b1: 0xB1
        }))
    );
}

#[test]
fn fetch_past_the_end_of_memory_halts() {
    let mut cpu = machine_with(&[0x1F, 0xFE]);
    run_ok(&mut cpu, 2);
    assert_eq!(cpu.pc(), 0x1000);
    assert_eq!(
        cpu.step(),
        StepResult::Halted(HaltReason::FetchOutOfBounds(0x1000))
    );
}

#[test]
fn ret_to_an_invalid_address_faults() {
    let mut rom = vec![0u8; 3584];
    rom[0] = 0x1F; // Jp 0xFFE
    rom[1] = 0xFE;
    rom[2] = 0x00; // at 0x202: Ret
    rom[3] = 0xEE;
    rom[0xDFE] = 0x22; // at 0xFFE: Call 0x202, pushing pc = 0x1000
    rom[0xDFF] = 0x02;
    let mut cpu = machine_with(&rom);
    run_ok(&mut cpu, 2);
    assert_eq!(cpu.pc(), 0x202);
    assert_eq!(
        cpu.step(),
        StepResult::Halted(HaltReason::ExecutionFault(
            Fault::InvalidReturn,
            Instruction::Ret
        ))
    );
}

#[test]
fn sprite_read_past_memory_faults() {
    let mut cpu = machine_with(&[0xAF, 0xFF, 0xD0, 0x0F]);
    run_ok(&mut cpu, 1);
    assert_eq!(
        cpu.step(),
        StepResult::Halted(HaltReason::ExecutionFault(
            Fault::InvalidAddress,
            Instruction::Drw(0, 0, 15)
        ))
    );
}

#[test]
fn handlers_reject_malformed_operands() {
    let mut cpu = CPUState::new();
    assert_eq!(
        cpu.exec_op(Instruction::LdV(16, 0)),
        ExecResult::Fail(Fault::InvalidRegister)
    );
    assert_eq!(
        cpu.exec_op(Instruction::Call(0x100)),
        ExecResult::Fail(Fault::InvalidCall)
    );
    assert_eq!(
        cpu.exec_op(Instruction::Drw(0, 0, 16)),
        ExecResult::Fail(Fault::InvalidSprite)
    );
    assert_eq!(cpu.exec_op(Instruction::LdV(0, 200)), ExecResult::Success);
    assert_eq!(
        cpu.exec_op(Instruction::Skp(0)),
        ExecResult::Fail(Fault::InvalidKey)
    );
    assert_eq!(cpu.exec_op(Instruction::Sys(0x123)), ExecResult::Success);
}

#[test]
fn ld_copies_a_register() {
    let mut cpu = machine_with(&[0x61, 0x2A, 0x80, 0x10]);
    run_ok(&mut cpu, 2);
    assert_eq!(cpu.reg(0), 0x2A);
    assert_eq!(cpu.reg(1), 0x2A);
}

#[test]
fn stack_overflow_is_reported_before_the_bad_target() {
    let mut rom: Vec<u8> = Vec::new();
    for k in 0..16u16 {
        let target = 0x202 + 2 * k;
        rom.push(0x20 | (target >> 8) as u8);
        rom.push((target & 0xFF) as u8);
    }
    // a seventeenth call whose target is also outside program space
    rom.push(0x21);
    rom.push(0x00);
    let mut cpu = machine_with(&rom);
    run_ok(&mut cpu, 16);
    assert_eq!(
        cpu.step(),
        StepResult::Halted(HaltReason::ExecutionFault(
            Fault::StackOverflow,
            Instruction::Call(0x100)
        ))
    );
}
