use chip8_crab::cpu::{no_keys, Opcode, CPU};

fn expected_view(lit: &[(usize, usize)]) -> String {
    let mut out = String::new();
    let border = format!("   {}\n", "-".repeat(64));
    out.push_str(&border);
    for y in 0..32 {
        out.push_str(&format!("{:02}", y));
        out.push('|');
        for x in 0..64 {
            if lit.contains(&(x, y)) {
                out.push('\u{25A0}');
            } else {
                out.push(' ');
            }
        }
        out.push_str("|\n");
    }
    out.push_str(&border);
    out
}

#[test]
fn view_renders_an_empty_screen() {
    let cpu = CPU::new();
    assert_eq!(cpu.view(), expected_view(&[]));
}

#[test]
fn view_renders_lit_pixels_in_place() {
    let mut cpu = CPU::new();
    cpu.execute(Opcode::SetI(0x300), no_keys());
    cpu.ram.write(0x300, 0b1010_0000);
    cpu.vs[0] = 3; // column origin
    cpu.vs[1] = 2; // row origin
    cpu.execute(Opcode::Display(0, 1, 1), no_keys());
    assert_eq!(cpu.view(), expected_view(&[(3, 2), (5, 2)]));
}
