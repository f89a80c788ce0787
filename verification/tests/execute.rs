use chip8_crab::cpu::{no_keys, KeyState, Opcode, CPU};

#[test]
fn add_immediate_wraps() {
    // VX += NN wraps: 0xFF + 0x02 leaves 0x01 and touches nothing else.
    let mut cpu = CPU::new();
    cpu.vs[0] = 0xFF;
    cpu.execute(Opcode::AddReg(0, 0x02), no_keys());
    assert_eq!(cpu.vs[0], 0x01);
    assert_eq!(cpu.vs[0xF], 0x00);
    assert_eq!(cpu.program_counter(), 0x200);
}

#[test]
fn alu_add_sets_carry() {
    let mut cpu = CPU::new();
    cpu.vs[0] = 0xFF;
    cpu.vs[1] = 0x01;
    cpu.execute(Opcode::Add(0, 1), no_keys());
    assert_eq!(cpu.vs[0], 0x00);
    assert_eq!(cpu.vs[0xF], 1);

    let mut cpu = CPU::new();
    cpu.vs[0] = 0x01;
    cpu.vs[1] = 0x01;
    cpu.execute(Opcode::Add(0, 1), no_keys());
    assert_eq!(cpu.vs[0], 0x02);
    assert_eq!(cpu.vs[0xF], 0);
}

#[test]
fn alu_subtract_inverts_borrow_flag() {
    let mut cpu = CPU::new();
    cpu.vs[0] = 0x05;
    cpu.vs[1] = 0x03;
    cpu.execute(Opcode::Subtract1(0, 1), no_keys());
    assert_eq!(cpu.vs[0], 0x02);
    assert_eq!(cpu.vs[0xF], 1);

    let mut cpu = CPU::new();
    cpu.vs[0] = 0x03;
    cpu.vs[1] = 0x05;
    cpu.execute(Opcode::Subtract1(0, 1), no_keys());
    assert_eq!(cpu.vs[0], 0xFE);
    assert_eq!(cpu.vs[0xF], 0);
}

#[test]
fn alu_subtract_reversed() {
    // 8XY7 computes VY - VX with the same inverted flag convention.
    let mut cpu = CPU::new();
    cpu.vs[0] = 0x03;
    cpu.vs[1] = 0x05;
    cpu.execute(Opcode::Subtract2(0, 1), no_keys());
    assert_eq!(cpu.vs[0], 0x02);
    assert_eq!(cpu.vs[0xF], 1);

    let mut cpu = CPU::new();
    cpu.vs[0] = 0x05;
    cpu.vs[1] = 0x03;
    cpu.execute(Opcode::Subtract2(0, 1), no_keys());
    assert_eq!(cpu.vs[0], 0xFE);
    assert_eq!(cpu.vs[0xF], 0);
}

#[test]
fn alu_bitwise_and_assign() {
    let mut cpu = CPU::new();
    cpu.vs[2] = 0b1100;
    cpu.vs[3] = 0b1010;
    cpu.execute(Opcode::Or(2, 3), no_keys());
    assert_eq!(cpu.vs[2], 0b1110);
    cpu.vs[2] = 0b1100;
    cpu.execute(Opcode::And(2, 3), no_keys());
    assert_eq!(cpu.vs[2], 0b1000);
    cpu.vs[2] = 0b1100;
    cpu.execute(Opcode::Xor(2, 3), no_keys());
    assert_eq!(cpu.vs[2], 0b0110);
    cpu.execute(Opcode::Assign(2, 3), no_keys());
    assert_eq!(cpu.vs[2], 0b1010);
}

#[test]
fn shifts_record_dropped_bits() {
    let mut cpu = CPU::new();
    cpu.vs[0] = 0x05;
    cpu.vs[1] = 0x99;
    // modern semantics: VY is ignored, only VX shifts
    cpu.execute(Opcode::ShiftR(0, 1), no_keys());
    assert_eq!(cpu.vs[0], 0x02);
    assert_eq!(cpu.vs[0xF], 1);

    let mut cpu = CPU::new();
    cpu.vs[0] = 0x81;
    cpu.execute(Opcode::ShiftL(0, 1), no_keys());
    assert_eq!(cpu.vs[0], 0x02);
    assert_eq!(cpu.vs[0xF], 1);

    let mut cpu = CPU::new();
    cpu.vs[0] = 0x41;
    cpu.execute(Opcode::ShiftL(0, 1), no_keys());
    assert_eq!(cpu.vs[0], 0x82);
    assert_eq!(cpu.vs[0xF], 0);
}

#[test]
fn draw_sets_pixels_then_xor_clears_them() {
    // An 8x1 all-set sprite drawn at (0,0) lights pixels (0..7, 0) with
    // VF=0; drawing it again clears them and reports the collision.
    let mut cpu = CPU::new();
    cpu.execute(Opcode::SetI(0x300), no_keys());
    cpu.ram.write(0x300, 0xFF);
    cpu.execute(Opcode::Display(0, 1, 1), no_keys());
    for x in 0..8 {
        assert!(cpu.pixel(x, 0));
    }
    assert!(!cpu.pixel(8, 0));
    assert_eq!(cpu.vs[0xF], 0);

    cpu.execute(Opcode::Display(0, 1, 1), no_keys());
    for x in 0..8 {
        assert!(!cpu.pixel(x, 0));
    }
    assert_eq!(cpu.vs[0xF], 1);
}

#[test]
fn draw_clips_at_both_edges() {
    let mut cpu = CPU::new();
    cpu.execute(Opcode::SetI(0x300), no_keys());
    cpu.ram.write(0x300, 0xFF);
    cpu.ram.write(0x301, 0xFF);
    cpu.vs[0] = 60; // column origin near the right edge
    cpu.vs[1] = 31; // row origin on the bottom row
    cpu.execute(Opcode::Display(0, 1, 2), no_keys());
    for x in 60..64 {
        assert!(cpu.pixel(x, 31));
    }
    // nothing wrapped to the left column or the top row
    for x in 0..4 {
        assert!(!cpu.pixel(x, 31));
        assert!(!cpu.pixel(x, 0));
    }
    assert_eq!(cpu.vs[0xF], 0);
}

#[test]
fn draw_wraps_origin_modulo_screen() {
    let mut cpu = CPU::new();
    cpu.execute(Opcode::SetI(0x300), no_keys());
    cpu.ram.write(0x300, 0x80);
    cpu.vs[0] = 64; // wraps to column 0
    cpu.vs[1] = 32; // wraps to row 0
    cpu.execute(Opcode::Display(0, 1, 1), no_keys());
    assert!(cpu.pixel(0, 0));
}

#[test]
fn clear_screen_turns_everything_off() {
    let mut cpu = CPU::new();
    cpu.execute(Opcode::SetI(0x300), no_keys());
    cpu.ram.write(0x300, 0xFF);
    cpu.execute(Opcode::Display(0, 1, 1), no_keys());
    assert!(cpu.pixel(0, 0));
    cpu.execute(Opcode::ClearScreen, no_keys());
    for x in 0..64 {
        for y in 0..32 {
            assert!(!cpu.pixel(x, y));
        }
    }
}

#[test]
fn call_then_return_round_trip() {
    // Starting at PC=0x200, executing 2300 then 00EE restores the counter
    // to 0x202 (the post-call-instruction address) with an empty stack.
    let mut cpu = CPU::new();
    let mut rom = vec![0u8; 0x102];
    rom[0] = 0x23; // 2300 at 0x200
    rom[1] = 0x00;
    rom[0x100] = 0x00; // 00EE at 0x300
    rom[0x101] = 0xEE;
    cpu.load_program(&rom);

    cpu.step().unwrap();
    assert_eq!(cpu.program_counter(), 0x300);
    assert_eq!(cpu.stack, vec![0x202]);

    cpu.step().unwrap();
    assert_eq!(cpu.program_counter(), 0x202);
    assert!(cpu.stack.is_empty());
}

#[test]
fn jumps_and_skips_move_the_counter() {
    let mut cpu = CPU::new();
    cpu.execute(Opcode::Jump(0xABC), no_keys());
    assert_eq!(cpu.program_counter(), 0xABC);

    let mut cpu = CPU::new();
    cpu.vs[2] = 7;
    cpu.execute(Opcode::SkipEqImm(2, 7), no_keys());
    assert_eq!(cpu.program_counter(), 0x202);
    cpu.execute(Opcode::SkipEqImm(2, 8), no_keys());
    assert_eq!(cpu.program_counter(), 0x202);
    cpu.execute(Opcode::SkipNeqImm(2, 8), no_keys());
    assert_eq!(cpu.program_counter(), 0x204);
    cpu.vs[3] = 7;
    cpu.execute(Opcode::SkipEqReg(2, 3), no_keys());
    assert_eq!(cpu.program_counter(), 0x206);
    cpu.execute(Opcode::SkipNeqReg(2, 3), no_keys());
    assert_eq!(cpu.program_counter(), 0x206);
    cpu.vs[3] = 9;
    cpu.execute(Opcode::SkipNeqReg(2, 3), no_keys());
    assert_eq!(cpu.program_counter(), 0x208);
}

#[test]
fn jump_offset_adds_the_named_register() {
    // BNNN under modern semantics: target NNN plus V[high nibble of NNN].
    let mut cpu = CPU::new();
    cpu.vs[3] = 0x10;
    cpu.execute(Opcode::JumpOffset(0x345), no_keys());
    assert_eq!(cpu.program_counter(), 0x355);
}

#[test]
fn timers_never_underflow() {
    // Repeated decrements at zero leave both timers at zero.
    let mut cpu = CPU::new();
    assert_eq!(cpu.delay, 0);
    assert_eq!(cpu.beep, 0);
    for _ in 0..5 {
        cpu.decr_delay();
        cpu.decr_sound();
    }
    assert_eq!(cpu.delay, 0);
    assert_eq!(cpu.beep, 0);

    cpu.delay = 2;
    cpu.beep = 1;
    cpu.decr_timers();
    assert_eq!(cpu.delay, 1);
    assert_eq!(cpu.beep, 0);
    cpu.decr_timers();
    cpu.decr_timers();
    assert_eq!(cpu.delay, 0);
    assert_eq!(cpu.beep, 0);
}

#[test]
fn timer_instructions_move_values() {
    let mut cpu = CPU::new();
    cpu.vs[4] = 0x30;
    cpu.execute(Opcode::SetDelayToReg(4), no_keys());
    assert_eq!(cpu.delay, 0x30);
    cpu.execute(Opcode::SetSoundToReg(4), no_keys());
    assert_eq!(cpu.beep, 0x30);
    cpu.execute(Opcode::SetRegToDelay(5), no_keys());
    assert_eq!(cpu.vs[5], 0x30);
}

#[test]
fn get_key_rewinds_until_a_key_arrives() {
    // FX0A with no key held leaves the counter where it was before the
    // fetch, so the same instruction is fetched again next cycle.
    let mut cpu = CPU::new();
    let rom = vec![0xF0, 0x0A]; // F00A at 0x200
    cpu.load_program(&rom);
    cpu.step().unwrap();
    assert_eq!(cpu.program_counter(), 0x200);
    cpu.step().unwrap();
    assert_eq!(cpu.program_counter(), 0x200);

    // with keys held, the lowest-indexed one is stored and the counter is
    // left alone by the execute itself
    let mut cpu = CPU::new();
    let mut keys: KeyState = [false; 16];
    keys[9] = true;
    keys[5] = true;
    cpu.execute(Opcode::GetKey(3), keys);
    assert_eq!(cpu.vs[3], 5);
    assert_eq!(cpu.program_counter(), 0x200);
}

#[test]
fn key_skips_consult_the_keypad() {
    let mut cpu = CPU::new();
    let mut keys: KeyState = [false; 16];
    keys[0xA] = true;
    cpu.vs[1] = 0xA;
    cpu.execute(Opcode::SkipIfKey(1), keys);
    assert_eq!(cpu.program_counter(), 0x202);
    cpu.execute(Opcode::SkipIfNotKey(1), keys);
    assert_eq!(cpu.program_counter(), 0x202);
    cpu.vs[1] = 0xB;
    cpu.execute(Opcode::SkipIfKey(1), keys);
    assert_eq!(cpu.program_counter(), 0x202);
    cpu.execute(Opcode::SkipIfNotKey(1), keys);
    assert_eq!(cpu.program_counter(), 0x204);
}

#[test]
fn random_respects_the_mask() {
    let mut cpu = CPU::new();
    cpu.vs[0] = 0xAA;
    cpu.execute(Opcode::Random(0, 0x00), no_keys());
    assert_eq!(cpu.vs[0], 0x00);
    for _ in 0..20 {
        cpu.execute(Opcode::Random(0, 0x0F), no_keys());
        assert!(cpu.vs[0] <= 0x0F);
    }
}

#[test]
fn store_and_load_registers() {
    let mut cpu = CPU::new();
    cpu.vs[0] = 0x11;
    cpu.vs[1] = 0x22;
    cpu.vs[2] = 0x33;
    cpu.execute(Opcode::SetI(0x400), no_keys());
    cpu.execute(Opcode::Store(2), no_keys());
    assert_eq!(cpu.ram.read(0x400), 0x11);
    assert_eq!(cpu.ram.read(0x401), 0x22);
    assert_eq!(cpu.ram.read(0x402), 0x33);
    assert_eq!(cpu.ram.read(0x403), 0x00);
    // the index register is not mutated
    assert_eq!(cpu.index, 0x400);

    let mut cpu2 = CPU::new();
    cpu2.ram.write(0x400, 0xAA);
    cpu2.ram.write(0x401, 0xBB);
    cpu2.vs[2] = 0x77;
    cpu2.execute(Opcode::SetI(0x400), no_keys());
    cpu2.execute(Opcode::Load(1), no_keys());
    assert_eq!(cpu2.vs[0], 0xAA);
    assert_eq!(cpu2.vs[1], 0xBB);
    assert_eq!(cpu2.vs[2], 0x77);
    assert_eq!(cpu2.index, 0x400);
}

#[test]
fn decimal_writes_three_digits() {
    let mut cpu = CPU::new();
    cpu.vs[6] = 254;
    cpu.execute(Opcode::SetI(0x500), no_keys());
    cpu.execute(Opcode::Decimal(6), no_keys());
    assert_eq!(cpu.ram.read(0x500), 2);
    assert_eq!(cpu.ram.read(0x501), 5);
    assert_eq!(cpu.ram.read(0x502), 4);
}

#[test]
fn font_points_at_the_glyph() {
    let mut cpu = CPU::new();
    cpu.vs[0] = 0x0A;
    cpu.execute(Opcode::Font(0), no_keys());
    assert_eq!(cpu.index, 50);
    // only the low nibble of VX names the glyph
    cpu.vs[0] = 0x1A;
    cpu.execute(Opcode::Font(0), no_keys());
    assert_eq!(cpu.index, 50);
}

#[test]
fn add_to_index_has_no_flag_side_effect() {
    let mut cpu = CPU::new();
    cpu.vs[0] = 0x10;
    cpu.vs[0xF] = 0x55;
    cpu.execute(Opcode::SetI(0xFFE), no_keys());
    cpu.execute(Opcode::AddToIndex(0), no_keys());
    assert_eq!(cpu.index, 0x00E);
    assert_eq!(cpu.vs[0xF], 0x55);
}

#[test]
fn step_reports_undecodable_bytes() {
    let mut cpu = CPU::new();
    let rom = vec![0x00, 0x00];
    cpu.load_program(&rom);
    match cpu.step() {
        Err(chip8_crab::error::Chip8Error::DecodeError { instr, .. }) => {
            assert_eq!(instr, (0x00, 0x00));
        }
        other => panic!("expected a decode error, got {:?}", other),
    }
    // the fetch had already advanced the counter; nothing else moved
    assert_eq!(cpu.program_counter(), 0x202);
    assert!(cpu.stack.is_empty());
}
