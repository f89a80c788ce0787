use vstd::prelude::*;

use crate::error::Chip8Error;
use crate::exec::exec_rel;
use crate::memory::Memory;
use crate::memory::spec_font;

verus! {

/// Screen height in pixels.
pub const HEIGHT: usize = 32;

/// Screen width in pixels.
pub const WIDTH: usize = 64;

/// The logical hex keypad: entry `k` is true when key `k` (0x0-0xF) is held.
pub type KeyState = [bool; 16];

/// A keypad with no key held, used when the driver supplies no input.
pub fn no_keys() -> (r: KeyState)
    ensures
        forall|i: int| 0 <= i < 16 ==> !r@[i],
{
    [false; 16]
}

/// Reduction of a value to the 12-bit address space.
pub open spec fn mask12(n: int) -> u16 {
    (n % 4096) as u16
}

/// Wrapping reduction of a value to a byte.
pub open spec fn wrap8(n: int) -> u8 {
    (n % 256) as u8
}

pub open spec fn spec_lo_nib(b: u8) -> u8 {
    b % 16
}

pub open spec fn spec_hi_nib(b: u8) -> u8 {
    b / 16
}

/// The 12-bit immediate of an instruction: low nibble of the first byte
/// followed by the whole second byte.
pub open spec fn spec_nnn(b1: u8, b2: u8) -> u16 {
    (spec_lo_nib(b1) * 256 + b2) as u16
}

/// Joins three nibbles into a 12-bit value, high nibble first.
pub fn nibtrio_2_u12(trio: (u8, u8, u8)) -> (r: u16)
    requires
        trio.0 < 16,
        trio.1 < 16,
        trio.2 < 16,
    ensures
        r == trio.0 * 256 + trio.1 * 16 + trio.2,
        r < 4096,
{
    (trio.0 as u16) * 256 + (trio.1 as u16) * 16 + (trio.2 as u16)
}

/// Widens a register nibble for use as an index.
pub fn nib_to_usize(nib: u8) -> (r: usize)
    ensures
        r == nib as int,
{
    nib as usize
}

/// The high nibble of a byte.
pub fn upper_nib(byte: u8) -> (r: u8)
    ensures
        r == spec_hi_nib(byte),
        r < 16,
{
    proof {
        assert((byte & 0xF0) >> 4 == byte / 16 && byte / 16 < 16) by (bit_vector);
    }
    (byte & 0xF0) >> 4
}

/// The low nibble of a byte.
pub fn lower_nib(byte: u8) -> (r: u8)
    ensures
        r == spec_lo_nib(byte),
        r < 16,
{
    proof {
        assert(byte & 0x0F == byte % 16 && byte % 16 < 16) by (bit_vector);
    }
    byte & 0x0F
}

/// A decoded instruction together with its operands: register indices are
/// nibbles (below 16), addresses are 12-bit values (below 4096).  `decode`
/// only builds opcodes within those bounds; `wf_opcode` states them.
#[derive(Debug, Clone, Copy, PartialEq, Eq, Structural)]
pub enum Opcode {
    ClearScreen,
    Jump(u16),
    JumpOffset(u16),
    SetReg(u8, u8),
    AddReg(u8, u8),
    SetI(u16),
    Display(u8, u8, u8),
    // Control flow instructions
    SkipEqImm(u8, u8),
    SkipNeqImm(u8, u8),
    SkipEqReg(u8, u8),
    SkipNeqReg(u8, u8),
    // Subroutine call
    CallSubroutine(u16),
    Return,
    // Arithmetic and logical instructions
    Assign(u8, u8),
    Or(u8, u8),
    And(u8, u8),
    Xor(u8, u8),
    Add(u8, u8),
    Subtract1(u8, u8),  // VX - VY
    Subtract2(u8, u8),  // VY - VX
    ShiftR(u8, u8),
    ShiftL(u8, u8),
    // Memory instructions
    Store(u8),
    Load(u8),
    // Timers
    SetRegToDelay(u8),
    SetDelayToReg(u8),
    SetSoundToReg(u8),
    // Input
    SkipIfKey(u8),
    SkipIfNotKey(u8),
    GetKey(u8),
    // Miscellaneous
    Decimal(u8),
    AddToIndex(u8),
    Random(u8, u8),
    Font(u8),
}

/// Every operand of the opcode lies within the width its encoding allows.
pub open spec fn wf_opcode(op: Opcode) -> bool {
    match op {
        Opcode::ClearScreen => true,
        Opcode::Jump(nnn) => nnn < 4096,
        Opcode::JumpOffset(nnn) => nnn < 4096,
        Opcode::SetReg(x, _) => x < 16,
        Opcode::AddReg(x, _) => x < 16,
        Opcode::SetI(nnn) => nnn < 4096,
        Opcode::Display(x, y, n) => x < 16 && y < 16 && n < 16,
        Opcode::SkipEqImm(x, _) => x < 16,
        Opcode::SkipNeqImm(x, _) => x < 16,
        Opcode::SkipEqReg(x, y) => x < 16 && y < 16,
        Opcode::SkipNeqReg(x, y) => x < 16 && y < 16,
        Opcode::CallSubroutine(nnn) => nnn < 4096,
        Opcode::Return => true,
        Opcode::Assign(x, y) => x < 16 && y < 16,
        Opcode::Or(x, y) => x < 16 && y < 16,
        Opcode::And(x, y) => x < 16 && y < 16,
        Opcode::Xor(x, y) => x < 16 && y < 16,
        Opcode::Add(x, y) => x < 16 && y < 16,
        Opcode::Subtract1(x, y) => x < 16 && y < 16,
        Opcode::Subtract2(x, y) => x < 16 && y < 16,
        Opcode::ShiftR(x, y) => x < 16 && y < 16,
        Opcode::ShiftL(x, y) => x < 16 && y < 16,
        Opcode::Store(x) => x < 16,
        Opcode::Load(x) => x < 16,
        Opcode::SetRegToDelay(x) => x < 16,
        Opcode::SetDelayToReg(x) => x < 16,
        Opcode::SetSoundToReg(x) => x < 16,
        Opcode::SkipIfKey(x) => x < 16,
        Opcode::SkipIfNotKey(x) => x < 16,
        Opcode::GetKey(x) => x < 16,
        Opcode::Decimal(x) => x < 16,
        Opcode::AddToIndex(x) => x < 16,
        Opcode::Random(x, _) => x < 16,
        Opcode::Font(x) => x < 16,
    }
}

/// The register-register family 8XY_, dispatched on the low nibble of the
/// second byte.  An unknown low nibble decodes to nothing.
pub open spec fn spec_decode_alu(x: u8, y: u8, n: u8) -> Option<Opcode> {
    if n == 0x0 {
        Some(Opcode::Assign(x, y))
    } else if n == 0x1 {
        Some(Opcode::Or(x, y))
    } else if n == 0x2 {
        Some(Opcode::And(x, y))
    } else if n == 0x3 {
        Some(Opcode::Xor(x, y))
    } else if n == 0x4 {
        Some(Opcode::Add(x, y))
    } else if n == 0x5 {
        Some(Opcode::Subtract1(x, y))
    } else if n == 0x6 {
        Some(Opcode::ShiftR(x, y))
    } else if n == 0x7 {
        Some(Opcode::Subtract2(x, y))
    } else if n == 0xE {
        Some(Opcode::ShiftL(x, y))
    } else {
        None
    }
}

/// The complete decode table: which opcode, if any, the instruction bytes
/// `(b1, b2)` stand for.  Instruction pairs outside the table decode to
/// nothing, never to a default.
pub open spec fn spec_decode(b1: u8, b2: u8) -> Option<Opcode> {
    let hi = spec_hi_nib(b1);
    let x = spec_lo_nib(b1);
    let y = spec_hi_nib(b2);
    let n = spec_lo_nib(b2);
    let nnn = spec_nnn(b1, b2);
    if b1 == 0x00 && b2 == 0xE0 {
        Some(Opcode::ClearScreen)
    } else if b1 == 0x00 && b2 == 0xEE {
        Some(Opcode::Return)
    } else if hi == 0x1 {
        Some(Opcode::Jump(nnn))
    } else if hi == 0x2 {
        Some(Opcode::CallSubroutine(nnn))
    } else if hi == 0x3 {
        Some(Opcode::SkipEqImm(x, b2))
    } else if hi == 0x4 {
        Some(Opcode::SkipNeqImm(x, b2))
    } else if hi == 0x5 && n == 0x0 {
        Some(Opcode::SkipEqReg(x, y))
    } else if hi == 0x6 {
        Some(Opcode::SetReg(x, b2))
    } else if hi == 0x7 {
        Some(Opcode::AddReg(x, b2))
    } else if hi == 0x8 {
        spec_decode_alu(x, y, n)
    } else if hi == 0x9 && n == 0x0 {
        Some(Opcode::SkipNeqReg(x, y))
    } else if hi == 0xA {
        Some(Opcode::SetI(nnn))
    } else if hi == 0xB {
        Some(Opcode::JumpOffset(nnn))
    } else if hi == 0xC {
        Some(Opcode::Random(x, b2))
    } else if hi == 0xD {
        Some(Opcode::Display(x, y, n))
    } else if hi == 0xE && b2 == 0x9E {
        Some(Opcode::SkipIfKey(x))
    } else if hi == 0xE && b2 == 0xA1 {
        Some(Opcode::SkipIfNotKey(x))
    } else if hi == 0xF && b2 == 0x07 {
        Some(Opcode::SetRegToDelay(x))
    } else if hi == 0xF && b2 == 0x0A {
        Some(Opcode::GetKey(x))
    } else if hi == 0xF && b2 == 0x15 {
        Some(Opcode::SetDelayToReg(x))
    } else if hi == 0xF && b2 == 0x18 {
        Some(Opcode::SetSoundToReg(x))
    } else if hi == 0xF && b2 == 0x1E {
        Some(Opcode::AddToIndex(x))
    } else if hi == 0xF && b2 == 0x29 {
        Some(Opcode::Font(x))
    } else if hi == 0xF && b2 == 0x33 {
        Some(Opcode::Decimal(x))
    } else if hi == 0xF && b2 == 0x55 {
        Some(Opcode::Store(x))
    } else if hi == 0xF && b2 == 0x65 {
        Some(Opcode::Load(x))
    } else {
        None
    }
}

/// The instruction bytes `fetch` reads in state `pre`: the byte at the
/// program counter and its successor within the 12-bit space.
pub open spec fn spec_fetched(pre: CpuV) -> (u8, u8) {
    (pre.mem[pre.pc as int], pre.mem[mask12(pre.pc + 1) as int])
}

/// The state after the fetch step alone: the program counter advanced by 2.
pub open spec fn spec_after_fetch(pre: CpuV) -> CpuV {
    CpuV { pc: mask12(pre.pc + 2), ..pre }
}

/// The keypad seen by `step`: no key held.
pub open spec fn spec_no_keys() -> Seq<bool> {
    Seq::new(16, |i: int| false)
}

/// The abstract CPU state: the 4096 memory bytes, the 64x32 framebuffer in
/// column-major order (pixel `(x, y)` at position `x * 32 + y`), the return
/// stack, and the registers.
#[verifier::ext_equal]
pub ghost struct CpuV {
    pub mem: Seq<u8>,
    pub vram: Seq<bool>,
    pub stack: Seq<u16>,
    pub pc: u16,
    pub index: u16,
    pub delay: u8,
    pub beep: u8,
    pub vs: Seq<u8>,
}

/// The CPU engine: 4 KiB of RAM, the framebuffer, a stack of return
/// addresses, sixteen byte registers V0-VF, the 12-bit index register and
/// program counter, and the two 8-bit timers.
///
/// The framebuffer is stored flat in column-major order: pixel `(x, y)` with
/// `x < 64`, `y < 32` lives at `vram[x * 32 + y]`.
#[derive(Debug, Clone)]
pub struct CPU {
    pub ram: Memory,
    pub vram: Vec<bool>,
    pub stack: Vec<u16>,
    pub pc: u16,
    pub index: u16,
    pub delay: u8,
    pub beep: u8,
    pub vs: Vec<u8>,
}

impl CPU {
    /// The abstract value of the machine: every component as mathematical
    /// data.
    pub open spec fn abs(&self) -> CpuV {
        CpuV {
            mem: self.ram@,
            vram: self.vram@,
            stack: self.stack@,
            pc: self.pc,
            index: self.index,
            delay: self.delay,
            beep: self.beep,
            vs: self.vs@,
        }
    }

    /// The structural invariant every CPU operation preserves: the sizes of
    /// memory, framebuffer and register file, and the 12-bit bounds on the
    /// program counter, the index register and every stacked return address.
    pub open spec fn wf(&self) -> bool {
        &&& self.abs().mem.len() == 4096
        &&& self.abs().vram.len() == 2048
        &&& self.abs().vs.len() == 16
        &&& self.abs().pc < 4096
        &&& self.abs().index < 4096
        &&& forall|i: int| 0 <= i < self.abs().stack.len() ==> self.abs().stack[i] < 4096
    }

    /// Initializes the CPU: fresh font-seeded memory, a cleared screen, an
    /// empty stack, zeroed registers and timers, and the program counter at
    /// the program start 0x200.
    pub fn new() -> (r: CPU)
        ensures
            r.wf(),
            forall|i: int| 0 <= i < 80 ==> r.abs().mem[i] == spec_font()[i],
            forall|i: int| 80 <= i < 4096 ==> r.abs().mem[i] == 0u8,
            forall|i: int| 0 <= i < 2048 ==> !r.abs().vram[i],
            r.abs().stack.len() == 0,
            r.abs().pc == 0x200,
            r.abs().index == 0,
            r.abs().delay == 0,
            r.abs().beep == 0,
            forall|i: int| 0 <= i < 16 ==> r.abs().vs[i] == 0u8,
    {
        let ram = Memory::new();
        let mut vram: Vec<bool> = Vec::new();
        let mut i: usize = 0;
        while i < 2048
            invariant
                i <= 2048,
                vram@.len() == i,
                forall|j: int| 0 <= j < i ==> !vram@[j],
            decreases 2048 - i,
        {
            vram.push(false);
            i = i + 1;
        }
        let mut vs: Vec<u8> = Vec::new();
        let mut k: usize = 0;
        while k < 16
            invariant
                k <= 16,
                vs@.len() == k,
                forall|j: int| 0 <= j < k ==> vs@[j] == 0u8,
            decreases 16 - k,
        {
            vs.push(0);
            k = k + 1;
        }
        CPU { ram, vram, stack: Vec::new(), pc: 0x200, index: 0x0, delay: 0x00, beep: 0x00, vs }
    }

    /// Returns an immutable reference to the ram for debugging purposes.
    pub fn ram(&self) -> (r: &Memory)
        ensures
            r@ == self.abs().mem,
    {
        &self.ram
    }

    /// The current program counter.
    pub fn program_counter(&self) -> (r: u16)
        ensures
            r == self.abs().pc,
    {
        self.pc
    }

    /// The framebuffer pixel at column `x`, row `y`.
    pub fn pixel(&self, x: usize, y: usize) -> (r: bool)
        requires
            self.wf(),
            x < 64,
            y < 32,
        ensures
            r == self.abs().vram[x as int * 32 + y as int],
    {
        self.vram[x * 32 + y]
    }

    /// Loads a program into memory at the program start 0x200.
    pub fn load_program(&mut self, data: &[u8])
        requires
            old(self).wf(),
            data@.len() <= 4096 - 0x200,
        ensures
            final(self).wf(),
            final(self).abs() == (CpuV { mem: final(self).abs().mem, ..old(self).abs() }),
            forall|i: int| 0 <= i < 0x200 ==> final(self).abs().mem[i] == old(self).abs().mem[i],
            forall|i: int| 0 <= i < data@.len() ==> final(self).abs().mem[0x200 + i] == data@[i],
            forall|i: int|
                0x200 + data@.len() <= i < 4096 ==> final(self).abs().mem[i] == old(self).abs().mem[i],
    {
        self.ram.load_program(data);
    }

    /// Delay-timer tick: decrements toward zero and stops there, never
    /// underflowing.
    pub fn decr_delay(&mut self)
        ensures
            final(self).abs() == (CpuV {
                delay: if old(self).abs().delay > 0 {
                    (old(self).abs().delay - 1) as u8
                } else {
                    0u8
                },
                ..old(self).abs()
            }),
    {
        if self.delay > 0 {
            self.delay = self.delay - 1;
        }
    }

    /// Sound-timer tick: decrements toward zero and stops there, never
    /// underflowing.
    pub fn decr_sound(&mut self)
        ensures
            final(self).abs() == (CpuV {
                beep: if old(self).abs().beep > 0 {
                    (old(self).abs().beep - 1) as u8
                } else {
                    0u8
                },
                ..old(self).abs()
            }),
    {
        if self.beep > 0 {
            self.beep = self.beep - 1;
        }
    }

    /// One 60 Hz tick of both timers.
    pub fn decr_timers(&mut self)
        ensures
            final(self).abs() == (CpuV {
                delay: if old(self).abs().delay > 0 {
                    (old(self).abs().delay - 1) as u8
                } else {
                    0u8
                },
                beep: if old(self).abs().beep > 0 {
                    (old(self).abs().beep - 1) as u8
                } else {
                    0u8
                },
                ..old(self).abs()
            }),
    {
        self.decr_delay();
        self.decr_sound();
    }

    /// Fetches the instruction pair at the program counter and advances the
    /// counter by 2 within the 12-bit address space.
    pub fn fetch(&mut self) -> (r: (u8, u8))
        requires
            old(self).wf(),
        ensures
            final(self).wf(),
            r.0 == old(self).abs().mem[old(self).abs().pc as int],
            r.1 == old(self).abs().mem[mask12(old(self).abs().pc + 1) as int],
            final(self).abs() == (CpuV { pc: mask12(old(self).abs().pc + 2), ..old(self).abs() }),
    {
        let byte_1: u8 = self.ram.read(self.pc);
        let byte_2: u8 = self.ram.read((self.pc + 1) % 4096);
        self.pc = (self.pc + 2) % 4096;
        (byte_1, byte_2)
    }

    /// Decodes `instr`, returning the opcode it corresponds to.  The caller
    /// must know that the pair lies in the decode table; `try_decode` is the
    /// fallible variant.
    pub fn decode(&self, instr: (u8, u8)) -> (r: Opcode)
        requires
            spec_decode(instr.0, instr.1) is Some,
        ensures
            Some(r) == spec_decode(instr.0, instr.1),
            wf_opcode(r),
    {
        let res = self.try_decode(instr);
        match res {
            Ok(op) => op,
            Err(_) => {
                proof {
                    assert(false);
                }
                Opcode::ClearScreen
            },
        }
    }

    /// Decodes `instr`, returning the opcode it corresponds to, or a decode
    /// failure carrying the offending byte pair when no instruction shape
    /// matches.
    pub fn try_decode(&self, instr: (u8, u8)) -> (r: Result<Opcode, Chip8Error>)
        ensures
            (match spec_decode(instr.0, instr.1) {
                Some(op) => r == Ok::<Opcode, Chip8Error>(op),
                None => r matches Err(Chip8Error::DecodeError { instr: i, reason })
                    && i == instr && reason@
                    == "No decoding implementation found for this hex range"@,
            }),
            r matches Ok(op) ==> wf_opcode(op),
    {
        let (byte_1, byte_2) = instr;
        let hi = upper_nib(byte_1);
        let x = lower_nib(byte_1);
        let y = upper_nib(byte_2);
        let n = lower_nib(byte_2);
        match hi {
            0x0 => {
                if byte_1 == 0x00 && byte_2 == 0xE0 {
                    Ok(Opcode::ClearScreen)
                } else if byte_1 == 0x00 && byte_2 == 0xEE {
                    Ok(Opcode::Return)
                } else {
                    Err(Self::no_decoding(instr))
                }
            },
            0x1 => Ok(Opcode::Jump(nibtrio_2_u12((x, y, n)))),
            0x2 => Ok(Opcode::CallSubroutine(nibtrio_2_u12((x, y, n)))),
            0x3 => Ok(Opcode::SkipEqImm(x, byte_2)),
            0x4 => Ok(Opcode::SkipNeqImm(x, byte_2)),
            0x5 => {
                if n == 0x0 {
                    Ok(Opcode::SkipEqReg(x, y))
                } else {
                    Err(Self::no_decoding(instr))
                }
            },
            0x6 => Ok(Opcode::SetReg(x, byte_2)),
            0x7 => Ok(Opcode::AddReg(x, byte_2)),
            0x8 => self.decode_logarith(instr),
            0x9 => {
                if n == 0x0 {
                    Ok(Opcode::SkipNeqReg(x, y))
                } else {
                    Err(Self::no_decoding(instr))
                }
            },
            0xA => Ok(Opcode::SetI(nibtrio_2_u12((x, y, n)))),
            0xB => Ok(Opcode::JumpOffset(nibtrio_2_u12((x, y, n)))),
            0xC => Ok(Opcode::Random(x, byte_2)),
            0xD => Ok(Opcode::Display(x, y, n)),
            0xE => {
                if byte_2 == 0x9E {
                    Ok(Opcode::SkipIfKey(x))
                } else if byte_2 == 0xA1 {
                    Ok(Opcode::SkipIfNotKey(x))
                } else {
                    Err(Self::no_decoding(instr))
                }
            },
            _ => {
                if byte_2 == 0x07 {
                    Ok(Opcode::SetRegToDelay(x))
                } else if byte_2 == 0x0A {
                    Ok(Opcode::GetKey(x))
                } else if byte_2 == 0x15 {
                    Ok(Opcode::SetDelayToReg(x))
                } else if byte_2 == 0x18 {
                    Ok(Opcode::SetSoundToReg(x))
                } else if byte_2 == 0x1E {
                    Ok(Opcode::AddToIndex(x))
                } else if byte_2 == 0x29 {
                    Ok(Opcode::Font(x))
                } else if byte_2 == 0x33 {
                    Ok(Opcode::Decimal(x))
                } else if byte_2 == 0x55 {
                    Ok(Opcode::Store(x))
                } else if byte_2 == 0x65 {
                    Ok(Opcode::Load(x))
                } else {
                    Err(Self::no_decoding(instr))
                }
            },
        }
    }

    /// Decodes logical and arithmetic instructions; reports a decode failure
    /// when the upper byte of the instruction is not within 0x80..=0x8F or
    /// the low nibble names no operation.
    pub fn decode_logarith(&self, instr: (u8, u8)) -> (r: Result<Opcode, Chip8Error>)
        ensures
            (if spec_hi_nib(instr.0) != 0x8 {
                r matches Err(Chip8Error::DecodeError { instr: i, reason }) && i == instr
                    && reason@
                    == "Upper byte of supposed logical or arithmetic instruction is not within range 0x80..0x8F"@
            } else {
                match spec_decode_alu(
                    spec_lo_nib(instr.0),
                    spec_hi_nib(instr.1),
                    spec_lo_nib(instr.1),
                ) {
                    Some(op) => r == Ok::<Opcode, Chip8Error>(op),
                    None => r matches Err(Chip8Error::DecodeError { instr: i, reason })
                        && i == instr && reason@
                        == "No decoding implementation found for this hex range"@,
                }
            }),
            r matches Ok(op) ==> wf_opcode(op),
    {
        let (byte_1, byte_2) = instr;
        if !(0x80 <= byte_1 && byte_1 <= 0x8F) {
            proof {
                assert(spec_hi_nib(byte_1) == 0x8 <==> (0x80 <= byte_1 && byte_1 <= 0x8F));
            }
            return Err(
                Chip8Error::DecodeError {
                    instr,
                    reason: String::from_str(
                        "Upper byte of supposed logical or arithmetic instruction is not within range 0x80..0x8F",
                    ),
                },
            );
        }
        let x = lower_nib(byte_1);
        let y = upper_nib(byte_2);
        match lower_nib(byte_2) {
            0x0 => Ok(Opcode::Assign(x, y)),
            0x1 => Ok(Opcode::Or(x, y)),
            0x2 => Ok(Opcode::And(x, y)),
            0x3 => Ok(Opcode::Xor(x, y)),
            0x4 => Ok(Opcode::Add(x, y)),
            0x5 => Ok(Opcode::Subtract1(x, y)),
            0x7 => Ok(Opcode::Subtract2(x, y)),
            0x6 => Ok(Opcode::ShiftR(x, y)),
            0xE => Ok(Opcode::ShiftL(x, y)),
            _ => Err(Self::no_decoding(instr)),
        }
    }

    /// Simulates one CPU cycle with no key held: fetch, decode, execute.
    /// A pair that does not decode is reported after the fetch has advanced
    /// the program counter; nothing else is mutated then.  A well-formed ROM
    /// never returns on an empty stack, and the caller must know as much.
    pub fn step(&mut self) -> (r: Result<(), Chip8Error>)
        requires
            old(self).wf(),
            spec_decode(spec_fetched(old(self).abs()).0, spec_fetched(old(self).abs()).1) == Some(
                Opcode::Return,
            ) ==> old(self).abs().stack.len() > 0,
        ensures
            final(self).wf(),
            (match spec_decode(spec_fetched(old(self).abs()).0, spec_fetched(old(self).abs()).1) {
                Some(op) => r is Ok && exec_rel(
                    spec_after_fetch(old(self).abs()),
                    final(self).abs(),
                    op,
                    spec_no_keys(),
                ),
                None => {
                    &&& r matches Err(Chip8Error::DecodeError { instr, reason })
                    &&& instr == spec_fetched(old(self).abs())
                    &&& reason@ == "No decoding implementation found for this hex range"@
                    &&& final(self).abs() == spec_after_fetch(old(self).abs())
                },
            }),
    {
        let instr = self.fetch();
        let opcode = match self.try_decode(instr) {
            Ok(op) => op,
            Err(e) => {
                return Err(e);
            },
        };
        let ks = no_keys();
        proof {
            assert(ks@ =~= spec_no_keys());
        }
        self.execute(opcode, ks);
        Ok(())
    }

    /// The decode failure for a byte pair outside the decode table.
    fn no_decoding(instr: (u8, u8)) -> (r: Chip8Error)
        ensures
            r matches Chip8Error::DecodeError { instr: i, reason } && i == instr && reason@
                == "No decoding implementation found for this hex range"@,
    {
        Chip8Error::DecodeError {
            instr,
            reason: String::from_str("No decoding implementation found for this hex range"),
        }
    }
}

} // verus!
