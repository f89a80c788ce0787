use chip8_crab::cpu::{lower_nib, nib_to_usize, nibtrio_2_u12, upper_nib, Opcode, CPU};
use chip8_crab::error::Chip8Error;

#[test]
fn nibble_helpers() {
    assert_eq!(upper_nib(0xAB), 0xA);
    assert_eq!(lower_nib(0xAB), 0xB);
    assert_eq!(upper_nib(0x0F), 0x0);
    assert_eq!(lower_nib(0xF0), 0x0);
    assert_eq!(nib_to_usize(0xC), 12usize);
    assert_eq!(nibtrio_2_u12((0x2, 0x3, 0x4)), 0x234);
    assert_eq!(nibtrio_2_u12((0xF, 0xF, 0xF)), 0xFFF);
    assert_eq!(nibtrio_2_u12((0x0, 0x0, 0x0)), 0x000);
}

#[test]
fn decodes_system_and_jump_shapes() {
    let cpu = CPU::new();
    assert_eq!(cpu.decode((0x00, 0xE0)), Opcode::ClearScreen);
    assert_eq!(cpu.decode((0x00, 0xEE)), Opcode::Return);
    assert_eq!(cpu.decode((0x1A, 0xBC)), Opcode::Jump(0xABC));
    assert_eq!(cpu.decode((0x2F, 0x01)), Opcode::CallSubroutine(0xF01));
    assert_eq!(cpu.decode((0xB1, 0x23)), Opcode::JumpOffset(0x123));
    assert_eq!(cpu.decode((0xA9, 0x99)), Opcode::SetI(0x999));
}

#[test]
fn decodes_register_shapes() {
    let cpu = CPU::new();
    assert_eq!(cpu.decode((0x63, 0x42)), Opcode::SetReg(0x3, 0x42));
    assert_eq!(cpu.decode((0x7F, 0x01)), Opcode::AddReg(0xF, 0x01));
    assert_eq!(cpu.decode((0x31, 0x22)), Opcode::SkipEqImm(0x1, 0x22));
    assert_eq!(cpu.decode((0x41, 0x22)), Opcode::SkipNeqImm(0x1, 0x22));
    assert_eq!(cpu.decode((0x51, 0x20)), Opcode::SkipEqReg(0x1, 0x2));
    assert_eq!(cpu.decode((0x91, 0x20)), Opcode::SkipNeqReg(0x1, 0x2));
    assert_eq!(cpu.decode((0xC4, 0x7F)), Opcode::Random(0x4, 0x7F));
    assert_eq!(cpu.decode((0xD1, 0x25)), Opcode::Display(0x1, 0x2, 0x5));
}

#[test]
fn decodes_alu_family() {
    let cpu = CPU::new();
    assert_eq!(cpu.decode((0x81, 0x20)), Opcode::Assign(0x1, 0x2));
    assert_eq!(cpu.decode((0x81, 0x21)), Opcode::Or(0x1, 0x2));
    assert_eq!(cpu.decode((0x81, 0x22)), Opcode::And(0x1, 0x2));
    assert_eq!(cpu.decode((0x81, 0x23)), Opcode::Xor(0x1, 0x2));
    assert_eq!(cpu.decode((0x81, 0x24)), Opcode::Add(0x1, 0x2));
    assert_eq!(cpu.decode((0x81, 0x25)), Opcode::Subtract1(0x1, 0x2));
    assert_eq!(cpu.decode((0x81, 0x26)), Opcode::ShiftR(0x1, 0x2));
    assert_eq!(cpu.decode((0x81, 0x27)), Opcode::Subtract2(0x1, 0x2));
    assert_eq!(cpu.decode((0x81, 0x2E)), Opcode::ShiftL(0x1, 0x2));
    let direct = cpu.decode_logarith((0x8A, 0xB4)).unwrap();
    assert_eq!(direct, Opcode::Add(0xA, 0xB));
}

#[test]
fn decodes_key_and_misc_family() {
    let cpu = CPU::new();
    assert_eq!(cpu.decode((0xE3, 0x9E)), Opcode::SkipIfKey(0x3));
    assert_eq!(cpu.decode((0xE3, 0xA1)), Opcode::SkipIfNotKey(0x3));
    assert_eq!(cpu.decode((0xF5, 0x07)), Opcode::SetRegToDelay(0x5));
    assert_eq!(cpu.decode((0xF5, 0x0A)), Opcode::GetKey(0x5));
    assert_eq!(cpu.decode((0xF5, 0x15)), Opcode::SetDelayToReg(0x5));
    assert_eq!(cpu.decode((0xF5, 0x18)), Opcode::SetSoundToReg(0x5));
    assert_eq!(cpu.decode((0xF5, 0x1E)), Opcode::AddToIndex(0x5));
    assert_eq!(cpu.decode((0xF5, 0x29)), Opcode::Font(0x5));
    assert_eq!(cpu.decode((0xF5, 0x33)), Opcode::Decimal(0x5));
    assert_eq!(cpu.decode((0xF5, 0x55)), Opcode::Store(0x5));
    assert_eq!(cpu.decode((0xF5, 0x65)), Opcode::Load(0x5));
}

#[test]
fn uncovered_pairs_are_decode_errors() {
    let cpu = CPU::new();
    let bad_pairs: [(u8, u8); 10] = [
        (0x00, 0x00),
        (0x00, 0xE1),
        (0x0A, 0xBC),
        (0x51, 0x21),
        (0x91, 0x21),
        (0x81, 0x28),
        (0x81, 0x2F),
        (0xE3, 0x9F),
        (0xF5, 0x56),
        (0xF5, 0x00),
    ];
    for pair in bad_pairs {
        match cpu.try_decode(pair) {
            Err(Chip8Error::DecodeError { instr, reason }) => {
                assert_eq!(instr, pair);
                assert!(!reason.is_empty());
            }
            other => panic!("expected a decode error for {:02X?}, got {:?}", pair, other),
        }
    }
}

#[test]
fn decode_logarith_rejects_wrong_range() {
    let cpu = CPU::new();
    match cpu.decode_logarith((0x91, 0x20)) {
        Err(Chip8Error::DecodeError { instr, .. }) => assert_eq!(instr, (0x91, 0x20)),
        other => panic!("expected a decode error, got {:?}", other),
    }
}
