use chip8_crab::cpu::{Opcode, CPU};
use chip8_crab::error::Chip8Error;
use chip8_crab::loader::{load_opcodes, load_program, run};

#[test]
fn load_opcodes_decodes_every_pair() {
    let rom = vec![0x60, 0x05, 0x71, 0x02, 0x00, 0xE0];
    let ops = load_opcodes(&rom).unwrap();
    assert_eq!(
        ops,
        vec![
            Opcode::SetReg(0, 0x05),
            Opcode::AddReg(1, 0x02),
            Opcode::ClearScreen,
        ]
    );
}

#[test]
fn load_opcodes_rejects_odd_length() {
    let rom = vec![0x60, 0x05, 0x71];
    match load_opcodes(&rom) {
        Err(Chip8Error::ROMLoaderError { reason }) => {
            assert_eq!(reason, "ROM could not be parsed into groups of (u8, u8)");
        }
        other => panic!("expected a loader error, got {:?}", other),
    }
}

#[test]
fn load_opcodes_reports_the_first_bad_pair() {
    let rom = vec![0x60, 0x05, 0x00, 0x01, 0x00, 0x02];
    match load_opcodes(&rom) {
        Err(Chip8Error::DecodeError { instr, .. }) => assert_eq!(instr, (0x00, 0x01)),
        other => panic!("expected a decode error, got {:?}", other),
    }
}

#[test]
fn load_program_builds_a_loaded_cpu() {
    let rom = vec![0x12, 0x34];
    let cpu = load_program(&rom).unwrap();
    assert_eq!(cpu.program_counter(), 0x200);
    assert_eq!(cpu.ram.read(0x200), 0x12);
    assert_eq!(cpu.ram.read(0x201), 0x34);
    assert!(cpu.stack.is_empty());
}

#[test]
fn load_program_rejects_an_oversized_rom() {
    let rom = vec![0u8; 4096 - 0x200 + 1];
    match load_program(&rom) {
        Err(Chip8Error::ROMLoaderError { reason }) => {
            assert_eq!(reason, "program too large");
        }
        other => panic!("expected a loader error, got {:?}", other),
    }
}

#[test]
fn run_executes_the_opcode_list_in_order() {
    let mut cpu = CPU::new();
    // V0 = 5; V1 = 3; V0 += V1 (carry clears VF); V0 -= V1
    let rom = vec![0x60, 0x05, 0x61, 0x03, 0x80, 0x14, 0x80, 0x15];
    run(&rom, &mut cpu).unwrap();
    assert_eq!(cpu.vs[0], 0x05);
    assert_eq!(cpu.vs[1], 0x03);
    assert_eq!(cpu.vs[0xF], 1);
}

#[test]
fn run_reports_rom_problems_without_executing() {
    let mut cpu = CPU::new();
    let rom = vec![0x60, 0x05, 0x00, 0x00];
    match run(&rom, &mut cpu) {
        Err(Chip8Error::DecodeError { instr, .. }) => assert_eq!(instr, (0x00, 0x00)),
        other => panic!("expected a decode error, got {:?}", other),
    }
    // nothing ran: V0 was never set
    assert_eq!(cpu.vs[0], 0);
}
