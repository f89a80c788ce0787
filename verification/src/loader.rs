use vstd::prelude::*;

use crate::cpu::{CPU, CpuV, Opcode, no_keys, spec_decode, spec_no_keys, wf_opcode};
use crate::error::Chip8Error;
use crate::exec::exec_rel;
use crate::memory::spec_font;

verus! {

// The loader side of the core: everything that turns a ROM image, already
// read from storage by a collaborator, into CPU state or opcodes.  File
// access itself is the collaborator's business and never happens here.

/// Whether every byte pair of the ROM lies in the decode table.
pub open spec fn spec_rom_decodes(rom: Seq<u8>) -> bool {
    forall|i: int|
        0 <= i < rom.len() / 2 ==> #[trigger] spec_decode(rom[2 * i], rom[2 * i + 1]) is Some
}

/// The opcodes of an even-length, fully decodable ROM, in order.
pub open spec fn spec_rom_opcodes(rom: Seq<u8>) -> Seq<Opcode> {
    Seq::new(rom.len() / 2, |i: int| spec_decode(rom[2 * i], rom[2 * i + 1])->Some_0)
}

/// Whether executing `ops` front to back never pops an empty stack, given
/// that `depth` return addresses are stacked at the start.  Only calls and
/// returns move the stack, so this is decided by the opcode list alone.
pub open spec fn spec_stack_safe(ops: Seq<Opcode>, depth: int) -> bool
    decreases ops.len(),
{
    if ops.len() == 0 {
        true
    } else {
        match ops[0] {
            Opcode::Return => depth > 0 && spec_stack_safe(ops.skip(1), depth - 1),
            Opcode::CallSubroutine(_) => spec_stack_safe(ops.skip(1), depth + 1),
            _ => spec_stack_safe(ops.skip(1), depth),
        }
    }
}

/// How executing the opcode list `ops` in order, with no key held, takes
/// the machine from `pre` to `post`.  The intermediate states are
/// existentially quantified because `Random` is.
pub open spec fn spec_run_rel(pre: CpuV, ops: Seq<Opcode>, post: CpuV) -> bool
    decreases ops.len(),
{
    if ops.len() == 0 {
        post == pre
    } else {
        exists|mid: CpuV|
            #[trigger] exec_rel(pre, mid, ops[0], spec_no_keys()) && spec_run_rel(
                mid,
                ops.skip(1),
                post,
            )
    }
}

/// Appending one executed opcode to a run keeps the run relation.
proof fn lemma_run_rel_snoc(pre: CpuV, s: Seq<Opcode>, mid: CpuV, op: Opcode, post: CpuV)
    requires
        spec_run_rel(pre, s, mid),
        exec_rel(mid, post, op, spec_no_keys()),
    ensures
        spec_run_rel(pre, s.push(op), post),
    decreases s.len(),
{
    if s.len() == 0 {
        assert(mid == pre);
        assert(s.push(op)[0] == op);
        assert(s.push(op).skip(1) =~= Seq::<Opcode>::empty());
        assert(spec_run_rel(post, s.push(op).skip(1), post));
        assert(exec_rel(pre, post, s.push(op)[0], spec_no_keys()));
    } else {
        let mid1 = choose|m: CpuV|
            #[trigger] exec_rel(pre, m, s[0], spec_no_keys()) && spec_run_rel(m, s.skip(1), mid);
        lemma_run_rel_snoc(mid1, s.skip(1), mid, op, post);
        assert(s.push(op).skip(1) =~= s.skip(1).push(op));
        assert(s.push(op)[0] == s[0]);
        assert(exec_rel(pre, mid1, s.push(op)[0], spec_no_keys()) && spec_run_rel(
            mid1,
            s.push(op).skip(1),
            post,
        ));
    }
}

/// Decides whether an opcode list can run from `depth` stacked return
/// addresses without ever popping an empty stack: the runtime form of
/// `spec_stack_safe`, for callers that must test it before running a ROM.
pub fn stack_safe(ops: &Vec<Opcode>, depth: u64) -> (r: bool)
    ensures
        r == spec_stack_safe(ops@, depth as int),
{
    let ghost all: Seq<Opcode> = ops@;
    proof {
        assert(all.skip(0) =~= all);
    }
    let mut d: u128 = depth as u128;
    let mut i: usize = 0;
    while i < ops.len()
        invariant
            ops@ == all,
            i <= all.len(),
            d <= depth + i,
            spec_stack_safe(all, depth as int) == spec_stack_safe(all.skip(i as int), d as int),
        decreases all.len() - i,
    {
        let ghost rest: Seq<Opcode> = all.skip(i as int);
        proof {
            assert(rest[0] == all[i as int]);
            assert(rest.skip(1) =~= all.skip(i as int + 1));
        }
        match ops[i] {
            Opcode::Return => {
                if d == 0 {
                    return false;
                }
                d = d - 1;
            },
            Opcode::CallSubroutine(_) => {
                d = d + 1;
            },
            _ => {},
        }
        i = i + 1;
    }
    proof {
        assert(all.skip(all.len() as int) =~= Seq::<Opcode>::empty());
    }
    true
}

/// Decodes a ROM image in which every two bytes are one big-endian
/// instruction.  An odd-length image is refused; an image with a pair
/// outside the decode table is refused with that first pair.
pub fn load_opcodes(rom: &Vec<u8>) -> (r: Result<Vec<Opcode>, Chip8Error>)
    ensures
        (if rom@.len() % 2 != 0 {
            r matches Err(Chip8Error::ROMLoaderError { reason }) && reason@
                == "ROM could not be parsed into groups of (u8, u8)"@
        } else if !spec_rom_decodes(rom@) {
            r matches Err(Chip8Error::DecodeError { instr, reason }) && reason@
                == "No decoding implementation found for this hex range"@ && exists|i: int|
                0 <= i < rom@.len() / 2 && (#[trigger] spec_decode(
                    rom@[2 * i],
                    rom@[2 * i + 1],
                )) is None && (forall|j: int|
                    0 <= j < i ==> #[trigger] spec_decode(rom@[2 * j], rom@[2 * j + 1]) is Some)
                    && instr == (rom@[2 * i], rom@[2 * i + 1])
        } else {
            r matches Ok(ops) && ops@ == spec_rom_opcodes(rom@) && forall|i: int|
                0 <= i < ops@.len() ==> wf_opcode(#[trigger] ops@[i])
        }),
{
    if rom.len() % 2 != 0 {
        return Err(
            Chip8Error::ROMLoaderError {
                reason: String::from_str("ROM could not be parsed into groups of (u8, u8)"),
            },
        );
    }
    let cpu = CPU::new();
    let mut opcodes: Vec<Opcode> = Vec::new();
    let mut i: usize = 0;
    let pairs: usize = rom.len() / 2;
    while i < pairs
        invariant
            rom@.len() <= usize::MAX,
            rom@.len() % 2 == 0,
            pairs == rom@.len() / 2,
            i <= pairs,
            opcodes@.len() == i,
            forall|j: int| 0 <= j < i ==> #[trigger] spec_decode(rom@[2 * j], rom@[2 * j + 1]) is Some,
            forall|j: int|
                0 <= j < i ==> opcodes@[j] == spec_decode(rom@[2 * j], rom@[2 * j + 1])->Some_0,
            forall|j: int| 0 <= j < i ==> wf_opcode(#[trigger] opcodes@[j]),
        decreases pairs - i,
    {
        let instr = (rom[2 * i], rom[2 * i + 1]);
        let opcode = match cpu.try_decode(instr) {
            Ok(op) => op,
            Err(e) => {
                return Err(e);
            },
        };
        opcodes.push(opcode);
        i = i + 1;
    }
    proof {
        assert(opcodes@ =~= spec_rom_opcodes(rom@));
    }
    Ok(opcodes)
}

/// Builds a fresh, font-seeded CPU with the ROM image loaded at the program
/// start 0x200.  An image larger than the space above 0x200 is refused.
pub fn load_program(data: &Vec<u8>) -> (r: Result<CPU, Chip8Error>)
    ensures
        (if data@.len() > 4096 - 0x200 {
            r matches Err(Chip8Error::ROMLoaderError { reason }) && reason@ == "program too large"@
        } else {
            r matches Ok(cpu) && {
                &&& cpu.wf()
                &&& forall|i: int| 0 <= i < 80 ==> cpu.abs().mem[i] == spec_font()[i]
                &&& forall|i: int| 80 <= i < 0x200 ==> cpu.abs().mem[i] == 0u8
                &&& forall|i: int| 0 <= i < data@.len() ==> cpu.abs().mem[0x200 + i] == data@[i]
                &&& forall|i: int| 0x200 + data@.len() <= i < 4096 ==> cpu.abs().mem[i] == 0u8
                &&& forall|i: int| 0 <= i < 2048 ==> !cpu.abs().vram[i]
                &&& cpu.abs().stack.len() == 0
                &&& cpu.abs().pc == 0x200
                &&& cpu.abs().index == 0
                &&& cpu.abs().delay == 0
                &&& cpu.abs().beep == 0
                &&& forall|i: int| 0 <= i < 16 ==> cpu.abs().vs[i] == 0u8
            }
        }),
{
    if data.len() > 4096 - 0x200 {
        return Err(Chip8Error::ROMLoaderError { reason: String::from_str("program too large") });
    }
    let mut cpu = CPU::new();
    cpu.load_program(data.as_slice());
    Ok(cpu)
}

/// Decodes the ROM image and executes every opcode on `cpu` in order, with
/// no key held.  Decode problems are reported before anything runs.  The
/// caller must know that the opcode list never returns on an empty stack,
/// which only the list itself and the starting stack depth decide.
pub fn run(rom: &Vec<u8>, cpu: &mut CPU) -> (r: Result<(), Chip8Error>)
    requires
        old(cpu).wf(),
        rom@.len() % 2 == 0 && spec_rom_decodes(rom@) ==> spec_stack_safe(
            spec_rom_opcodes(rom@),
            old(cpu).abs().stack.len() as int,
        ),
    ensures
        final(cpu).wf(),
        (if rom@.len() % 2 != 0 {
            (r matches Err(Chip8Error::ROMLoaderError { reason }) && reason@
                == "ROM could not be parsed into groups of (u8, u8)"@) && final(cpu).abs() == old(cpu).abs()
        } else if !spec_rom_decodes(rom@) {
            (r matches Err(Chip8Error::DecodeError { instr, reason }) && reason@
                == "No decoding implementation found for this hex range"@) && final(cpu).abs()
                == old(cpu).abs()
        } else {
            r is Ok && spec_run_rel(old(cpu).abs(), spec_rom_opcodes(rom@), final(cpu).abs())
        }),
{
    let opcodes = match load_opcodes(rom) {
        Ok(ops) => ops,
        Err(e) => {
            return Err(e);
        },
    };
    let ghost all_ops: Seq<Opcode> = opcodes@;
    proof {
        assert(all_ops.skip(0) =~= all_ops);
    }
    let mut i: usize = 0;
    while i < opcodes.len()
        invariant
            cpu.wf(),
            opcodes@ == all_ops,
            i <= all_ops.len(),
            forall|j: int| 0 <= j < all_ops.len() ==> wf_opcode(#[trigger] all_ops[j]),
            spec_stack_safe(all_ops.skip(i as int), cpu.abs().stack.len() as int),
            spec_run_rel(old(cpu).abs(), all_ops.take(i as int), cpu.abs()),
        decreases all_ops.len() - i,
    {
        let op = opcodes[i];
        let ghost before: CpuV = cpu.abs();
        let ghost rest: Seq<Opcode> = all_ops.skip(i as int);
        proof {
            assert(rest[0] == all_ops[i as int]);
        }
        let ks = no_keys();
        proof {
            assert(ks@ =~= spec_no_keys());
        }
        cpu.execute(op, ks);
        proof {
            lemma_run_rel_snoc(old(cpu).abs(), all_ops.take(i as int), before, op, cpu.abs());
            assert(all_ops.take(i as int).push(op) =~= all_ops.take(i as int + 1));
            assert(rest.skip(1) =~= all_ops.skip(i as int + 1));
        }
        i = i + 1;
    }
    proof {
        assert(all_ops.take(all_ops.len() as int) =~= all_ops);
    }
    Ok(())
}

} // verus!
