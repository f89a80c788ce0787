use vstd::prelude::*;

verus! {

// CHIP-8 was commonly implemented on systems with 4 KiB of memory, which we
// replicate here with a flat vector of bytes.  Addresses are 12-bit values:
// every address handed to `read` or `write` must lie below 4096.

/// The 16-glyph hexadecimal font, five bytes per glyph, seeded at address 0
/// when a `Memory` is constructed.  The `Font` instruction computes a glyph's
/// address as `digit * 5`, so the table must start at address 0 and must keep
/// this exact layout.
pub open spec fn spec_font() -> Seq<u8> {
    seq![
        0xF0u8, 0x90, 0x90, 0x90, 0xF0, // 0
        0x20, 0x60, 0x20, 0x20, 0x70, // 1
        0xF0, 0x10, 0xF0, 0x80, 0xF0, // 2
        0xF0, 0x10, 0xF0, 0x10, 0xF0, // 3
        0x90, 0x90, 0xF0, 0x10, 0x10, // 4
        0xF0, 0x80, 0xF0, 0x10, 0xF0, // 5
        0xF0, 0x80, 0xF0, 0x90, 0xF0, // 6
        0xF0, 0x10, 0x20, 0x40, 0x40, // 7
        0xF0, 0x90, 0xF0, 0x90, 0xF0, // 8
        0xF0, 0x90, 0xF0, 0x10, 0xF0, // 9
        0xF0, 0x90, 0xF0, 0x90, 0x90, // A
        0xE0, 0x90, 0xE0, 0x90, 0xE0, // B
        0xF0, 0x80, 0x80, 0x80, 0xF0, // C
        0xE0, 0x90, 0x90, 0x90, 0xE0, // D
        0xF0, 0x80, 0xF0, 0x80, 0xF0, // E
        0xF0, 0x80, 0xF0, 0x80, 0x80, // F
    ]
}

/// 4 KiB of emulator memory.  Its abstract value is the sequence of its 4096
/// bytes; `wf` says exactly that the sequence has length 4096.
#[derive(Debug, Clone)]
pub struct Memory {
    mem: Vec<u8>,
}

impl View for Memory {
    type V = Seq<u8>;

    closed spec fn view(&self) -> Seq<u8> {
        self.mem@
    }
}

impl Memory {
    pub open spec fn wf(&self) -> bool {
        self@.len() == 4096
    }

    /// Fresh memory: the font table in bytes 0..80, zero everywhere else.
    pub fn new() -> (r: Memory)
        ensures
            r.wf(),
            forall|i: int| 0 <= i < 80 ==> r@[i] == spec_font()[i],
            forall|i: int| 80 <= i < 4096 ==> r@[i] == 0u8,
    {
        let table: [u8; 80] = [
            0xF0, 0x90, 0x90, 0x90, 0xF0, // 0
            0x20, 0x60, 0x20, 0x20, 0x70, // 1
            0xF0, 0x10, 0xF0, 0x80, 0xF0, // 2
            0xF0, 0x10, 0xF0, 0x10, 0xF0, // 3
            0x90, 0x90, 0xF0, 0x10, 0x10, // 4
            0xF0, 0x80, 0xF0, 0x10, 0xF0, // 5
            0xF0, 0x80, 0xF0, 0x90, 0xF0, // 6
            0xF0, 0x10, 0x20, 0x40, 0x40, // 7
            0xF0, 0x90, 0xF0, 0x90, 0xF0, // 8
            0xF0, 0x90, 0xF0, 0x10, 0xF0, // 9
            0xF0, 0x90, 0xF0, 0x90, 0x90, // A
            0xE0, 0x90, 0xE0, 0x90, 0xE0, // B
            0xF0, 0x80, 0x80, 0x80, 0xF0, // C
            0xE0, 0x90, 0x90, 0x90, 0xE0, // D
            0xF0, 0x80, 0xF0, 0x80, 0xF0, // E
            0xF0, 0x80, 0xF0, 0x80, 0x80, // F
        ];
        assert(table@ =~= spec_font());
        let mut mem: Vec<u8> = Vec::new();
        let mut i: usize = 0;
        while i < 80
            invariant
                table@ == spec_font(),
                i <= 80,
                mem@.len() == i,
                forall|j: int| 0 <= j < i ==> mem@[j] == spec_font()[j],
            decreases 80 - i,
        {
            mem.push(table[i]);
            i = i + 1;
        }
        while i < 4096
            invariant
                80 <= i <= 4096,
                mem@.len() == i,
                forall|j: int| 0 <= j < 80 ==> mem@[j] == spec_font()[j],
                forall|j: int| 80 <= j < i ==> mem@[j] == 0u8,
            decreases 4096 - i,
        {
            mem.push(0);
            i = i + 1;
        }
        Memory { mem }
    }

    /// The two bytes at `addr` and `addr + 1` as a big-endian 16-bit value.
    /// Used only by inspection tooling, never by fetch or execute.
    pub fn read_word(&self, addr: u16) -> (r: u16)
        requires
            self.wf(),
            addr < 4095,
        ensures
            r == self@[addr as int] * 256 + self@[addr as int + 1],
    {
        let hi = self.read(addr);
        let lo = self.read(addr + 1);
        (hi as u16) * 256 + (lo as u16)
    }

    pub fn read(&self, addr: u16) -> (r: u8)
        requires
            self.wf(),
            addr < 4096,
        ensures
            r == self@[addr as int],
    {
        self.mem[addr as usize]
    }

    pub fn write(&mut self, addr: u16, value: u8)
        requires
            old(self).wf(),
            addr < 4096,
        ensures
            final(self).wf(),
            final(self)@ == old(self)@.update(addr as int, value),
    {
        self.mem[addr as usize] = value;
    }

    /// Copies `data` into memory starting at offset 0x200.  The caller must
    /// have checked that the program fits in the 4096 - 0x200 bytes that
    /// remain above the program start; a larger program cannot be loaded.
    pub fn load_program(&mut self, data: &[u8])
        requires
            old(self).wf(),
            data@.len() <= 4096 - 0x200,
        ensures
            final(self).wf(),
            forall|i: int| 0 <= i < 0x200 ==> final(self)@[i] == old(self)@[i],
            forall|i: int| 0 <= i < data@.len() ==> final(self)@[0x200 + i] == data@[i],
            forall|i: int|
                0x200 + data@.len() <= i < 4096 ==> final(self)@[i] == old(self)@[i],
    {
        let mut i: usize = 0;
        while i < data.len()
            invariant
                self.wf(),
                data@.len() <= 4096 - 0x200,
                i <= data@.len(),
                forall|j: int| 0 <= j < 0x200 ==> self@[j] == old(self)@[j],
                forall|j: int| 0 <= j < i ==> self@[0x200 + j] == data@[j],
                forall|j: int| 0x200 + i <= j < 4096 ==> self@[j] == old(self)@[j],
            decreases data@.len() - i,
        {
            self.mem[0x200 + i] = data[i];
            i = i + 1;
        }
    }
}

} // verus!
