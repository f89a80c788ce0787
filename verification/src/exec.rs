use vstd::prelude::*;

use crate::cpu::{CPU, CpuV, KeyState, Opcode, mask12, nib_to_usize, spec_after_fetch, wf_opcode, wrap8};
use crate::draw::spec_display;

verus! {

/// Relies on rand::random: a byte drawn uniformly from the thread-local
/// generator.  No two calls are related, so nothing is promised of the value.
#[verifier::external_body]
fn random_byte() -> u8 {
    rand::random::<u8>()
}

/// The CPU state after `Random(x, nn)` once the drawn byte `b` is fixed:
/// VX receives the byte masked by NN.
pub open spec fn spec_random_post(pre: CpuV, x: u8, nn: u8, b: u8) -> CpuV {
    CpuV { vs: pre.vs.update(x as int, b & nn), ..pre }
}

/// Whether register value `v` names a held key: keys are 0x0-0xF, any
/// larger value is never held.
pub open spec fn spec_key_pressed(keys: Seq<bool>, v: u8) -> bool {
    v < 16 && keys[v as int]
}

/// Memory after registers V0..Vk-1 have been stored in ascending order at
/// `base`, each address reduced to the 12-bit space.
pub open spec fn spec_store_regs(mem: Seq<u8>, base: u16, vs: Seq<u8>, k: int) -> Seq<u8>
    decreases k,
{
    if k <= 0 {
        mem
    } else {
        spec_store_regs(mem, base, vs, k - 1).update(mask12(base + (k - 1)) as int, vs[k - 1])
    }
}

/// The register file after V0..Vx have been loaded from memory at `base`,
/// registers above Vx untouched.
pub open spec fn spec_load_regs(mem: Seq<u8>, base: u16, vs: Seq<u8>, x: int) -> Seq<u8> {
    Seq::new(
        16,
        |j: int|
            if 0 <= j <= x {
                mem[mask12(base + j) as int]
            } else {
                vs[j]
            },
    )
}

/// How one instruction takes the abstract CPU state `pre` to `post` under
/// keypad state `keys`.  This is the complete execution semantics: every
/// case pins `post` down exactly, except `Random`, where the drawn byte is
/// existentially quantified, since nothing relates two draws.
pub open spec fn exec_rel(pre: CpuV, post: CpuV, op: Opcode, keys: Seq<bool>) -> bool {
    match op {
        Opcode::ClearScreen => post == (CpuV { vram: Seq::new(2048, |p: int| false), ..pre }),
        Opcode::Jump(nnn) => post == (CpuV { pc: nnn, ..pre }),
        Opcode::JumpOffset(nnn) => post == (CpuV {
            pc: mask12(nnn + pre.vs[nnn as int / 256]),
            ..pre
        }),
        Opcode::SetReg(x, nn) => post == (CpuV { vs: pre.vs.update(x as int, nn), ..pre }),
        Opcode::AddReg(x, nn) => post == (CpuV {
            vs: pre.vs.update(x as int, wrap8(pre.vs[x as int] + nn)),
            ..pre
        }),
        Opcode::SetI(nnn) => post == (CpuV { index: nnn, ..pre }),
        Opcode::Display(x, y, n) => post == spec_display(pre, x, y, n),
        Opcode::SkipEqImm(x, nn) => post == (CpuV {
            pc: if pre.vs[x as int] == nn {
                mask12(pre.pc + 2)
            } else {
                pre.pc
            },
            ..pre
        }),
        Opcode::SkipNeqImm(x, nn) => post == (CpuV {
            pc: if pre.vs[x as int] != nn {
                mask12(pre.pc + 2)
            } else {
                pre.pc
            },
            ..pre
        }),
        Opcode::SkipEqReg(x, y) => post == (CpuV {
            pc: if pre.vs[x as int] == pre.vs[y as int] {
                mask12(pre.pc + 2)
            } else {
                pre.pc
            },
            ..pre
        }),
        Opcode::SkipNeqReg(x, y) => post == (CpuV {
            pc: if pre.vs[x as int] != pre.vs[y as int] {
                mask12(pre.pc + 2)
            } else {
                pre.pc
            },
            ..pre
        }),
        Opcode::CallSubroutine(nnn) => post == (CpuV {
            stack: pre.stack.push(pre.pc),
            pc: nnn,
            ..pre
        }),
        Opcode::Return => pre.stack.len() > 0 && post == (CpuV {
            pc: pre.stack.last(),
            stack: pre.stack.drop_last(),
            ..pre
        }),
        Opcode::Assign(x, y) => post == (CpuV {
            vs: pre.vs.update(x as int, pre.vs[y as int]),
            ..pre
        }),
        Opcode::Or(x, y) => post == (CpuV {
            vs: pre.vs.update(x as int, pre.vs[x as int] | pre.vs[y as int]),
            ..pre
        }),
        Opcode::And(x, y) => post == (CpuV {
            vs: pre.vs.update(x as int, pre.vs[x as int] & pre.vs[y as int]),
            ..pre
        }),
        Opcode::Xor(x, y) => post == (CpuV {
            vs: pre.vs.update(x as int, pre.vs[x as int] ^ pre.vs[y as int]),
            ..pre
        }),
        Opcode::Add(x, y) => post == (CpuV {
            vs: pre.vs.update(
                15,
                if pre.vs[x as int] + pre.vs[y as int] > 255 {
                    1u8
                } else {
                    0u8
                },
            ).update(x as int, wrap8(pre.vs[x as int] + pre.vs[y as int])),
            ..pre
        }),
        Opcode::Subtract1(x, y) => post == (CpuV {
            vs: pre.vs.update(
                15,
                if pre.vs[x as int] >= pre.vs[y as int] {
                    1u8
                } else {
                    0u8
                },
            ).update(x as int, wrap8(pre.vs[x as int] + 256 - pre.vs[y as int])),
            ..pre
        }),
        Opcode::Subtract2(x, y) => post == (CpuV {
            vs: pre.vs.update(
                15,
                if pre.vs[y as int] >= pre.vs[x as int] {
                    1u8
                } else {
                    0u8
                },
            ).update(x as int, wrap8(pre.vs[y as int] + 256 - pre.vs[x as int])),
            ..pre
        }),
        Opcode::ShiftR(x, _y) => post == (CpuV {
            vs: pre.vs.update(15, (pre.vs[x as int] % 2) as u8).update(
                x as int,
                (pre.vs[x as int] / 2) as u8,
            ),
            ..pre
        }),
        Opcode::ShiftL(x, _y) => post == (CpuV {
            vs: pre.vs.update(15, (pre.vs[x as int] / 128) as u8).update(
                x as int,
                wrap8(2 * pre.vs[x as int]),
            ),
            ..pre
        }),
        Opcode::Store(x) => post == (CpuV {
            mem: spec_store_regs(pre.mem, pre.index, pre.vs, x as int + 1),
            ..pre
        }),
        Opcode::Load(x) => post == (CpuV {
            vs: spec_load_regs(pre.mem, pre.index, pre.vs, x as int),
            ..pre
        }),
        Opcode::SetRegToDelay(x) => post == (CpuV {
            vs: pre.vs.update(x as int, pre.delay),
            ..pre
        }),
        Opcode::SetDelayToReg(x) => post == (CpuV { delay: pre.vs[x as int], ..pre }),
        Opcode::SetSoundToReg(x) => post == (CpuV { beep: pre.vs[x as int], ..pre }),
        Opcode::SkipIfKey(x) => post == (CpuV {
            pc: if spec_key_pressed(keys, pre.vs[x as int]) {
                mask12(pre.pc + 2)
            } else {
                pre.pc
            },
            ..pre
        }),
        Opcode::SkipIfNotKey(x) => post == (CpuV {
            pc: if !spec_key_pressed(keys, pre.vs[x as int]) {
                mask12(pre.pc + 2)
            } else {
                pre.pc
            },
            ..pre
        }),
        Opcode::GetKey(x) => {
            if exists|k: int| 0 <= k < 16 && keys[k] {
                exists|k: int|
                    0 <= k < 16 && keys[k] && (forall|j: int| 0 <= j < k ==> !keys[j]) && post
                        == (CpuV { vs: pre.vs.update(x as int, k as u8), ..pre })
            } else {
                post == (CpuV { pc: mask12(pre.pc + 4094), ..pre })
            }
        },
        Opcode::Decimal(x) => post == (CpuV {
            mem: pre.mem.update(mask12(pre.index as int) as int, (pre.vs[x as int] / 100) as u8)
                .update(mask12(pre.index + 1) as int, ((pre.vs[x as int] % 100) / 10) as u8)
                .update(mask12(pre.index + 2) as int, (pre.vs[x as int] % 10) as u8),
            ..pre
        }),
        Opcode::AddToIndex(x) => post == (CpuV {
            index: mask12(pre.index + pre.vs[x as int]),
            ..pre
        }),
        Opcode::Random(x, nn) => exists|b: u8| post == spec_random_post(pre, x, nn, b),
        Opcode::Font(x) => post == (CpuV {
            index: ((pre.vs[x as int] % 16) * 5) as u16,
            ..pre
        }),
    }
}

impl CPU {
    /// Executes the instruction indicated by `opcode` with the supplied
    /// keypad state.  The only state constraint an opcode can violate is a
    /// return with nothing on the stack, which is a fatal caller error and
    /// is excluded here.
    pub fn execute(&mut self, opcode: Opcode, keystate: KeyState)
        requires
            old(self).wf(),
            wf_opcode(opcode),
            opcode is Return ==> old(self).abs().stack.len() > 0,
        ensures
            final(self).wf(),
            exec_rel(old(self).abs(), final(self).abs(), opcode, keystate@),
    {
        match opcode {
            Opcode::ClearScreen => self.op_00e0(),
            Opcode::Jump(addr) => self.op_1nnn(addr),
            Opcode::SetReg(reg, value) => self.op_6xnn(reg, value),
            Opcode::AddReg(reg, value) => self.op_7xnn(reg, value),
            Opcode::SetI(addr) => self.op_annn(addr),
            Opcode::Display(x, y, n) => self.op_dxyn(x, y, n),
            Opcode::SkipEqImm(x, nn) => self.op_3xnn(x, nn),
            Opcode::SkipNeqImm(x, nn) => self.op_4xnn(x, nn),
            Opcode::SkipEqReg(x, y) => self.op_5xy0(x, y),
            Opcode::SkipNeqReg(x, y) => self.op_9xy0(x, y),
            Opcode::CallSubroutine(nnn) => self.op_2nnn(nnn),
            Opcode::Return => self.op_00ee(),
            Opcode::Assign(x, y) => self.op_8xy0(x, y),
            Opcode::Or(x, y) => self.op_8xy1(x, y),
            Opcode::And(x, y) => self.op_8xy2(x, y),
            Opcode::Xor(x, y) => self.op_8xy3(x, y),
            Opcode::Add(x, y) => self.op_8xy4(x, y),
            Opcode::Subtract1(x, y) => self.op_8xy5(x, y),
            Opcode::Subtract2(x, y) => self.op_8xy7(x, y),
            Opcode::ShiftR(x, y) => self.op_8xy6_modern(x, y),
            Opcode::ShiftL(x, y) => self.op_8xye_modern(x, y),
            Opcode::Store(x) => self.op_fx55_modern(x),
            Opcode::Load(x) => self.op_fx65_modern(x),
            Opcode::Decimal(x) => self.op_fx33(x),
            Opcode::AddToIndex(x) => self.op_fx1e(x),
            Opcode::Random(x, nn) => self.op_cxnn(x, nn),
            Opcode::Font(x) => self.op_fx29(x),
            Opcode::SetRegToDelay(x) => self.op_fx07(x),
            Opcode::SetDelayToReg(x) => self.op_fx15(x),
            Opcode::SetSoundToReg(x) => self.op_fx18(x),
            Opcode::JumpOffset(nnn) => self.op_bnnn_modern(nnn),
            Opcode::SkipIfKey(x) => self.op_ex9e(x, keystate),
            Opcode::SkipIfNotKey(x) => self.op_exa1(x, keystate),
            Opcode::GetKey(x) => self.op_fx0a(x, keystate),
        }
    }

    /// The byte held in register `reg`.
    fn load_from(&self, reg: u8) -> (r: u8)
        requires
            self.wf(),
            reg < 16,
        ensures
            r == self.abs().vs[reg as int],
    {
        self.vs[reg as usize]
    }

    /// Overwrites register `reg` with `val`.
    fn save_to(&mut self, reg: u8, val: u8)
        requires
            old(self).wf(),
            reg < 16,
        ensures
            final(self).wf(),
            final(self).abs() == (CpuV { vs: old(self).abs().vs.update(reg as int, val), ..old(self).abs() }),
    {
        self.vs[reg as usize] = val;
    }

    /// Clear screen: every pixel off.
    fn op_00e0(&mut self)
        requires
            old(self).wf(),
        ensures
            final(self).wf(),
            final(self).abs() == (CpuV { vram: Seq::new(2048, |p: int| false), ..old(self).abs() }),
    {
        let mut i: usize = 0;
        while i < 2048
            invariant
                self.wf(),
                i <= 2048,
                self.abs().mem == old(self).abs().mem,
                self.abs().stack == old(self).abs().stack,
                self.abs().pc == old(self).abs().pc,
                self.abs().index == old(self).abs().index,
                self.abs().delay == old(self).abs().delay,
                self.abs().beep == old(self).abs().beep,
                self.abs().vs == old(self).abs().vs,
                forall|j: int| 0 <= j < i ==> !self.abs().vram[j],
            decreases 2048 - i,
        {
            self.vram[i] = false;
            i = i + 1;
        }
        proof {
            assert(self.abs().vram =~= Seq::new(2048, |p: int| false));
            assert(self.abs() =~= (CpuV { vram: Seq::new(2048, |p: int| false), ..old(self).abs() }));
        }
    }

    /// Jump: the program counter is set to the 12-bit target.
    fn op_1nnn(&mut self, nnn: u16)
        requires
            old(self).wf(),
            nnn < 4096,
        ensures
            final(self).wf(),
            final(self).abs() == (CpuV { pc: nnn, ..old(self).abs() }),
    {
        self.pc = nnn;
    }

    /// VX = NN.
    fn op_6xnn(&mut self, x: u8, nn: u8)
        requires
            old(self).wf(),
            x < 16,
        ensures
            final(self).wf(),
            final(self).abs() == (CpuV { vs: old(self).abs().vs.update(x as int, nn), ..old(self).abs() }),
    {
        self.save_to(x, nn);
    }

    /// VX += NN, wrapping modulo 256, without touching VF.
    fn op_7xnn(&mut self, x: u8, nn: u8)
        requires
            old(self).wf(),
            x < 16,
        ensures
            final(self).wf(),
            final(self).abs() == (CpuV {
                vs: old(self).abs().vs.update(x as int, wrap8(old(self).abs().vs[x as int] + nn)),
                ..old(self).abs()
            }),
    {
        let vx = self.load_from(x);
        self.save_to(x, (((vx as u16) + (nn as u16)) % 256) as u8);
    }

    /// Index register = NNN.
    fn op_annn(&mut self, nnn: u16)
        requires
            old(self).wf(),
            nnn < 4096,
        ensures
            final(self).wf(),
            final(self).abs() == (CpuV { index: nnn, ..old(self).abs() }),
    {
        self.index = nnn;
    }

    /// Advances the program counter past the next instruction.
    fn skip_opcode(&mut self)
        requires
            old(self).wf(),
        ensures
            final(self).wf(),
            final(self).abs() == (CpuV { pc: mask12(old(self).abs().pc + 2), ..old(self).abs() }),
    {
        self.pc = (self.pc + 2) % 4096;
    }

    /// Skip if VX == NN.
    fn op_3xnn(&mut self, x: u8, nn: u8)
        requires
            old(self).wf(),
            x < 16,
        ensures
            final(self).wf(),
            final(self).abs() == (CpuV {
                pc: if old(self).abs().vs[x as int] == nn {
                    mask12(old(self).abs().pc + 2)
                } else {
                    old(self).abs().pc
                },
                ..old(self).abs()
            }),
    {
        let index = nib_to_usize(x);
        if self.vs[index] == nn {
            self.skip_opcode();
        }
    }

    /// Skip if VX != NN.
    fn op_4xnn(&mut self, x: u8, nn: u8)
        requires
            old(self).wf(),
            x < 16,
        ensures
            final(self).wf(),
            final(self).abs() == (CpuV {
                pc: if old(self).abs().vs[x as int] != nn {
                    mask12(old(self).abs().pc + 2)
                } else {
                    old(self).abs().pc
                },
                ..old(self).abs()
            }),
    {
        let index = nib_to_usize(x);
        if self.vs[index] != nn {
            self.skip_opcode();
        }
    }

    /// Skip if VX == VY.
    fn op_5xy0(&mut self, x: u8, y: u8)
        requires
            old(self).wf(),
            x < 16,
            y < 16,
        ensures
            final(self).wf(),
            final(self).abs() == (CpuV {
                pc: if old(self).abs().vs[x as int] == old(self).abs().vs[y as int] {
                    mask12(old(self).abs().pc + 2)
                } else {
                    old(self).abs().pc
                },
                ..old(self).abs()
            }),
    {
        if self.load_from(x) == self.load_from(y) {
            self.skip_opcode();
        }
    }

    /// Skip if VX != VY.
    fn op_9xy0(&mut self, x: u8, y: u8)
        requires
            old(self).wf(),
            x < 16,
            y < 16,
        ensures
            final(self).wf(),
            final(self).abs() == (CpuV {
                pc: if old(self).abs().vs[x as int] != old(self).abs().vs[y as int] {
                    mask12(old(self).abs().pc + 2)
                } else {
                    old(self).abs().pc
                },
                ..old(self).abs()
            }),
    {
        if self.load_from(x) != self.load_from(y) {
            self.skip_opcode();
        }
    }

    /// Call: pushes the post-fetch program counter, then jumps.
    fn op_2nnn(&mut self, nnn: u16)
        requires
            old(self).wf(),
            nnn < 4096,
        ensures
            final(self).wf(),
            final(self).abs() == (CpuV {
                stack: old(self).abs().stack.push(old(self).abs().pc),
                pc: nnn,
                ..old(self).abs()
            }),
    {
        self.stack.push(self.pc);
        self.pc = nnn;
    }

    /// Return: pops the top of the stack into the program counter.
    fn op_00ee(&mut self)
        requires
            old(self).wf(),
            old(self).abs().stack.len() > 0,
        ensures
            final(self).wf(),
            final(self).abs() == (CpuV {
                pc: old(self).abs().stack.last(),
                stack: old(self).abs().stack.drop_last(),
                ..old(self).abs()
            }),
    {
        let return_addr = self.stack.pop().unwrap();
        self.pc = return_addr;
    }

    /// VX = VY.
    fn op_8xy0(&mut self, x: u8, y: u8)
        requires
            old(self).wf(),
            x < 16,
            y < 16,
        ensures
            final(self).wf(),
            final(self).abs() == (CpuV {
                vs: old(self).abs().vs.update(x as int, old(self).abs().vs[y as int]),
                ..old(self).abs()
            }),
    {
        let vy = self.load_from(y);
        self.save_to(x, vy);
    }

    /// Bitwise OR.
    fn op_8xy1(&mut self, x: u8, y: u8)
        requires
            old(self).wf(),
            x < 16,
            y < 16,
        ensures
            final(self).wf(),
            final(self).abs() == (CpuV {
                vs: old(self).abs().vs.update(
                    x as int,
                    old(self).abs().vs[x as int] | old(self).abs().vs[y as int],
                ),
                ..old(self).abs()
            }),
    {
        let vx = self.load_from(x);
        let vy = self.load_from(y);
        self.save_to(x, vx | vy);
    }

    /// Bitwise AND.
    fn op_8xy2(&mut self, x: u8, y: u8)
        requires
            old(self).wf(),
            x < 16,
            y < 16,
        ensures
            final(self).wf(),
            final(self).abs() == (CpuV {
                vs: old(self).abs().vs.update(
                    x as int,
                    old(self).abs().vs[x as int] & old(self).abs().vs[y as int],
                ),
                ..old(self).abs()
            }),
    {
        let vx = self.load_from(x);
        let vy = self.load_from(y);
        self.save_to(x, vx & vy);
    }

    /// Bitwise XOR.
    fn op_8xy3(&mut self, x: u8, y: u8)
        requires
            old(self).wf(),
            x < 16,
            y < 16,
        ensures
            final(self).wf(),
            final(self).abs() == (CpuV {
                vs: old(self).abs().vs.update(
                    x as int,
                    old(self).abs().vs[x as int] ^ old(self).abs().vs[y as int],
                ),
                ..old(self).abs()
            }),
    {
        let vx = self.load_from(x);
        let vy = self.load_from(y);
        self.save_to(x, vx ^ vy);
    }

    /// VX += VY with the carry recorded in VF, then the wrapped sum stored.
    fn op_8xy4(&mut self, x: u8, y: u8)
        requires
            old(self).wf(),
            x < 16,
            y < 16,
        ensures
            final(self).wf(),
            final(self).abs() == (CpuV {
                vs: old(self).abs().vs.update(
                    15,
                    if old(self).abs().vs[x as int] + old(self).abs().vs[y as int] > 255 {
                        1u8
                    } else {
                        0u8
                    },
                ).update(
                    x as int,
                    wrap8(old(self).abs().vs[x as int] + old(self).abs().vs[y as int]),
                ),
                ..old(self).abs()
            }),
    {
        let vx = self.load_from(x);
        let vy = self.load_from(y);
        let sum: u16 = (vx as u16) + (vy as u16);
        if sum > 255 {
            self.save_to(15, 0x1);
        } else {
            self.save_to(15, 0x0);
        }
        self.save_to(x, (sum % 256) as u8);
    }

    /// VX -= VY; VF = 1 exactly when no borrow occurred.
    fn op_8xy5(&mut self, x: u8, y: u8)
        requires
            old(self).wf(),
            x < 16,
            y < 16,
        ensures
            final(self).wf(),
            final(self).abs() == (CpuV {
                vs: old(self).abs().vs.update(
                    15,
                    if old(self).abs().vs[x as int] >= old(self).abs().vs[y as int] {
                        1u8
                    } else {
                        0u8
                    },
                ).update(
                    x as int,
                    wrap8(old(self).abs().vs[x as int] + 256 - old(self).abs().vs[y as int]),
                ),
                ..old(self).abs()
            }),
    {
        let vx = self.load_from(x);
        let vy = self.load_from(y);
        if vx >= vy {
            self.save_to(15, 0x1);
            self.save_to(x, vx - vy);
        } else {
            self.save_to(15, 0x0);
            self.save_to(x, (((vx as u16) + 256 - (vy as u16)) % 256) as u8);
        }
    }

    /// VX = VY - VX; VF = 1 exactly when no borrow occurred.
    fn op_8xy7(&mut self, x: u8, y: u8)
        requires
            old(self).wf(),
            x < 16,
            y < 16,
        ensures
            final(self).wf(),
            final(self).abs() == (CpuV {
                vs: old(self).abs().vs.update(
                    15,
                    if old(self).abs().vs[y as int] >= old(self).abs().vs[x as int] {
                        1u8
                    } else {
                        0u8
                    },
                ).update(
                    x as int,
                    wrap8(old(self).abs().vs[y as int] + 256 - old(self).abs().vs[x as int]),
                ),
                ..old(self).abs()
            }),
    {
        let vx = self.load_from(x);
        let vy = self.load_from(y);
        if vy >= vx {
            self.save_to(15, 0x1);
            self.save_to(x, vy - vx);
        } else {
            self.save_to(15, 0x0);
            self.save_to(x, (((vy as u16) + 256 - (vx as u16)) % 256) as u8);
        }
    }

    /// Logical right shift of VX by one; VF receives the dropped low bit.
    /// VY is decoded but, under the modern shift semantics, ignored.
    fn op_8xy6_modern(&mut self, x: u8, _y: u8)
        requires
            old(self).wf(),
            x < 16,
        ensures
            final(self).wf(),
            final(self).abs() == (CpuV {
                vs: old(self).abs().vs.update(15, (old(self).abs().vs[x as int] % 2) as u8).update(
                    x as int,
                    (old(self).abs().vs[x as int] / 2) as u8,
                ),
                ..old(self).abs()
            }),
    {
        let vx = self.load_from(x);
        self.save_to(15, vx % 2);
        self.save_to(x, vx / 2);
    }

    /// Logical left shift of VX by one; VF receives the dropped high bit.
    /// VY is decoded but, under the modern shift semantics, ignored.
    fn op_8xye_modern(&mut self, x: u8, _y: u8)
        requires
            old(self).wf(),
            x < 16,
        ensures
            final(self).wf(),
            final(self).abs() == (CpuV {
                vs: old(self).abs().vs.update(15, (old(self).abs().vs[x as int] / 128) as u8).update(
                    x as int,
                    wrap8(2 * old(self).abs().vs[x as int]),
                ),
                ..old(self).abs()
            }),
    {
        let vx = self.load_from(x);
        self.save_to(15, vx / 128);
        self.save_to(x, ((2 * (vx as u16)) % 256) as u8);
    }

    /// Store V0..VX to memory at the index register, which is not mutated.
    fn op_fx55_modern(&mut self, x: u8)
        requires
            old(self).wf(),
            x < 16,
        ensures
            final(self).wf(),
            final(self).abs() == (CpuV {
                mem: spec_store_regs(old(self).abs().mem, old(self).abs().index, old(self).abs().vs, x as int + 1),
                ..old(self).abs()
            }),
    {
        let mut i: usize = 0;
        while i <= x as usize
            invariant
                self.wf(),
                x < 16,
                i <= x as usize + 1,
                self.abs().vram == old(self).abs().vram,
                self.abs().stack == old(self).abs().stack,
                self.abs().pc == old(self).abs().pc,
                self.abs().index == old(self).abs().index,
                self.abs().delay == old(self).abs().delay,
                self.abs().beep == old(self).abs().beep,
                self.abs().vs == old(self).abs().vs,
                self.abs().mem == spec_store_regs(
                    old(self).abs().mem,
                    old(self).abs().index,
                    old(self).abs().vs,
                    i as int,
                ),
            decreases x as usize + 1 - i,
        {
            let val = self.vs[i];
            self.ram.write((self.index + (i as u16)) % 4096, val);
            i = i + 1;
        }
        proof {
            assert(self.abs() =~= (CpuV {
                mem: spec_store_regs(old(self).abs().mem, old(self).abs().index, old(self).abs().vs, x as int + 1),
                ..old(self).abs()
            }));
        }
    }

    /// Load V0..VX from memory at the index register, which is not mutated.
    fn op_fx65_modern(&mut self, x: u8)
        requires
            old(self).wf(),
            x < 16,
        ensures
            final(self).wf(),
            final(self).abs() == (CpuV {
                vs: spec_load_regs(old(self).abs().mem, old(self).abs().index, old(self).abs().vs, x as int),
                ..old(self).abs()
            }),
    {
        let mut i: usize = 0;
        while i <= x as usize
            invariant
                self.wf(),
                x < 16,
                i <= x as usize + 1,
                self.abs().vram == old(self).abs().vram,
                self.abs().stack == old(self).abs().stack,
                self.abs().pc == old(self).abs().pc,
                self.abs().index == old(self).abs().index,
                self.abs().delay == old(self).abs().delay,
                self.abs().beep == old(self).abs().beep,
                self.abs().mem == old(self).abs().mem,
                self.abs().vs.len() == 16,
                forall|j: int|
                    0 <= j < i ==> self.abs().vs[j] == old(self).abs().mem[mask12(
                        old(self).abs().index + j,
                    ) as int],
                forall|j: int| i <= j < 16 ==> self.abs().vs[j] == old(self).abs().vs[j],
            decreases x as usize + 1 - i,
        {
            let val = self.ram.read((self.index + (i as u16)) % 4096);
            self.vs[i] = val;
            i = i + 1;
        }
        proof {
            assert(self.abs().vs =~= spec_load_regs(
                old(self).abs().mem,
                old(self).abs().index,
                old(self).abs().vs,
                x as int,
            ));
            assert(self.abs() =~= (CpuV {
                vs: spec_load_regs(old(self).abs().mem, old(self).abs().index, old(self).abs().vs, x as int),
                ..old(self).abs()
            }));
        }
    }

    /// Writes the three decimal digits of VX to memory at the index
    /// register: hundreds, tens, ones.
    fn op_fx33(&mut self, x: u8)
        requires
            old(self).wf(),
            x < 16,
        ensures
            final(self).wf(),
            final(self).abs() == (CpuV {
                mem: old(self).abs().mem.update(
                    mask12(old(self).abs().index as int) as int,
                    (old(self).abs().vs[x as int] / 100) as u8,
                ).update(
                    mask12(old(self).abs().index + 1) as int,
                    ((old(self).abs().vs[x as int] % 100) / 10) as u8,
                ).update(mask12(old(self).abs().index + 2) as int, (old(self).abs().vs[x as int] % 10) as u8),
                ..old(self).abs()
            }),
    {
        let vx = self.load_from(x);
        let first_digit = vx / 100;
        let second_digit = (vx % 100) / 10;
        let third_digit = vx % 10;

        let index = self.index;
        self.ram.write(index % 4096, first_digit);
        self.ram.write((index + 1) % 4096, second_digit);
        self.ram.write((index + 2) % 4096, third_digit);
    }

    /// Index += VX within the 12-bit space; no carry flag is recorded.
    fn op_fx1e(&mut self, x: u8)
        requires
            old(self).wf(),
            x < 16,
        ensures
            final(self).wf(),
            final(self).abs() == (CpuV {
                index: mask12(old(self).abs().index + old(self).abs().vs[x as int]),
                ..old(self).abs()
            }),
    {
        let vx = self.load_from(x);
        self.index = (self.index + (vx as u16)) % 4096;
    }

    /// VX = random byte AND NN.  The byte is uniformly distributed; no test
    /// may assert its exact value.
    fn op_cxnn(&mut self, x: u8, nn: u8)
        requires
            old(self).wf(),
            x < 16,
        ensures
            final(self).wf(),
            exists|b: u8| final(self).abs() == spec_random_post(old(self).abs(), x, nn, b),
    {
        let rand: u8 = random_byte();
        let result = rand & nn;
        self.save_to(x, result);
        proof {
            assert(self.abs() == spec_random_post(old(self).abs(), x, nn, rand));
        }
    }

    /// Index = font glyph address for the low nibble of VX: glyphs are five
    /// bytes each, starting at address 0.
    fn op_fx29(&mut self, x: u8)
        requires
            old(self).wf(),
            x < 16,
        ensures
            final(self).wf(),
            final(self).abs() == (CpuV {
                index: ((old(self).abs().vs[x as int] % 16) * 5) as u16,
                ..old(self).abs()
            }),
    {
        let vx = self.load_from(x);
        let sprite_addr = (vx % 16) * 5;
        self.index = sprite_addr as u16;
    }

    /// VX = delay timer.
    fn op_fx07(&mut self, x: u8)
        requires
            old(self).wf(),
            x < 16,
        ensures
            final(self).wf(),
            final(self).abs() == (CpuV {
                vs: old(self).abs().vs.update(x as int, old(self).abs().delay),
                ..old(self).abs()
            }),
    {
        let d = self.delay;
        self.save_to(x, d);
    }

    /// Delay timer = VX.
    fn op_fx15(&mut self, x: u8)
        requires
            old(self).wf(),
            x < 16,
        ensures
            final(self).wf(),
            final(self).abs() == (CpuV { delay: old(self).abs().vs[x as int], ..old(self).abs() }),
    {
        self.delay = self.load_from(x);
    }

    /// Sound timer = VX.
    fn op_fx18(&mut self, x: u8)
        requires
            old(self).wf(),
            x < 16,
        ensures
            final(self).wf(),
            final(self).abs() == (CpuV { beep: old(self).abs().vs[x as int], ..old(self).abs() }),
    {
        self.beep = self.load_from(x);
    }

    /// Jump to NNN plus the register named by the high nibble of NNN.
    fn op_bnnn_modern(&mut self, nnn: u16)
        requires
            old(self).wf(),
            nnn < 4096,
        ensures
            final(self).wf(),
            final(self).abs() == (CpuV {
                pc: mask12(nnn + old(self).abs().vs[nnn as int / 256]),
                ..old(self).abs()
            }),
    {
        let x: u8 = (nnn / 256) as u8;
        let vx = self.load_from(x);
        self.pc = (nnn + (vx as u16)) % 4096;
    }

    /// Skip if the key named by VX is held.
    fn op_ex9e(&mut self, x: u8, keystate: KeyState)
        requires
            old(self).wf(),
            x < 16,
        ensures
            final(self).wf(),
            final(self).abs() == (CpuV {
                pc: if spec_key_pressed(keystate@, old(self).abs().vs[x as int]) {
                    mask12(old(self).abs().pc + 2)
                } else {
                    old(self).abs().pc
                },
                ..old(self).abs()
            }),
    {
        let vx = self.load_from(x);
        if vx < 16 && keystate[vx as usize] {
            self.skip_opcode();
        }
    }

    /// Skip if the key named by VX is not held.
    fn op_exa1(&mut self, x: u8, keystate: KeyState)
        requires
            old(self).wf(),
            x < 16,
        ensures
            final(self).wf(),
            final(self).abs() == (CpuV {
                pc: if !spec_key_pressed(keystate@, old(self).abs().vs[x as int]) {
                    mask12(old(self).abs().pc + 2)
                } else {
                    old(self).abs().pc
                },
                ..old(self).abs()
            }),
    {
        let vx = self.load_from(x);
        if !(vx < 16 && keystate[vx as usize]) {
            self.skip_opcode();
        }
    }

    /// Await a key press: stores the lowest held key in VX and proceeds, or
    /// rewinds the program counter by 2 so the instruction is fetched again
    /// on the next cycle.
    fn op_fx0a(&mut self, x: u8, keystate: KeyState)
        requires
            old(self).wf(),
            x < 16,
        ensures
            final(self).wf(),
            (if exists|k: int| 0 <= k < 16 && keystate@[k] {
                exists|k: int|
                    0 <= k < 16 && keystate@[k] && (forall|j: int| 0 <= j < k ==> !keystate@[j])
                        && final(self).abs() == (CpuV {
                        vs: old(self).abs().vs.update(x as int, k as u8),
                        ..old(self).abs()
                    })
            } else {
                final(self).abs() == (CpuV { pc: mask12(old(self).abs().pc + 4094), ..old(self).abs() })
            }),
    {
        let mut i: usize = 0;
        while i < 16
            invariant
                self.wf(),
                x < 16,
                i <= 16,
                self.abs() == old(self).abs(),
                forall|j: int| 0 <= j < i ==> !keystate@[j],
            decreases 16 - i,
        {
            if keystate[i] {
                self.save_to(x, i as u8);
                proof {
                    let ghost k: int = i as int;
                    assert(0 <= k && k < 16 && keystate@[k] && (forall|j: int|
                        0 <= j < k ==> !keystate@[j]) && self.abs() == (CpuV {
                        vs: old(self).abs().vs.update(x as int, k as u8),
                        ..old(self).abs()
                    }));
                }
                return ;
            }
            i = i + 1;
        }
        self.pc = (self.pc + 4094) % 4096;
    }
}

/// Law: a subroutine call followed at once by a return restores the machine
/// exactly.  The call pushes the post-fetch program counter and jumps; the
/// return pops it back, so the counter again names the instruction after the
/// call and the stack is as it was.
pub proof fn lemma_call_return_round_trip(
    pre: CpuV,
    mid: CpuV,
    post: CpuV,
    nnn: u16,
    keys1: Seq<bool>,
    keys2: Seq<bool>,
)
    requires
        exec_rel(pre, mid, Opcode::CallSubroutine(nnn), keys1),
        exec_rel(mid, post, Opcode::Return, keys2),
    ensures
        post == pre,
{
    assert(mid.stack.last() == pre.pc);
    assert(mid.stack.drop_last() =~= pre.stack);
    assert(post =~= pre);
}

/// Law: an await-key instruction with no key held replays itself.  The
/// fetch advances the program counter by 2 and the execution rewinds it by
/// 2, so the machine ends the cycle exactly where it began and fetches the
/// same instruction next cycle.  With a key held, the lowest-indexed one
/// lands in the register and the counter keeps its post-fetch value.
pub proof fn lemma_get_key_replay(pre: CpuV, mid: CpuV, post: CpuV, x: u8, keys: Seq<bool>)
    requires
        pre.pc < 4096,
        mid == spec_after_fetch(pre),
        exec_rel(mid, post, Opcode::GetKey(x), keys),
    ensures
        (forall|k: int| 0 <= k < 16 ==> !keys[k]) ==> post == pre,
        (exists|k: int| 0 <= k < 16 && keys[k]) ==> post.pc == mid.pc && exists|k: int|
            0 <= k < 16 && keys[k] && (forall|j: int| 0 <= j < k ==> !keys[j]) && post.vs
                == mid.vs.update(x as int, k as u8),
{
    if forall|k: int| 0 <= k < 16 ==> !keys[k] {
        assert(!(exists|k: int| 0 <= k < 16 && keys[k]));
        assert(post == (CpuV { pc: mask12(mid.pc + 4094), ..mid }));
        assert(post.pc == pre.pc) by {
            assert(mid.pc == (pre.pc + 2) % 4096);
            assert(((pre.pc + 2) % 4096 + 4094) % 4096 == pre.pc) by (nonlinear_arith)
                requires
                    pre.pc < 4096,
            ;
        }
        assert(post =~= pre);
    }
}

} // verus!
