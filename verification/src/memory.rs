//! A flat, byte-addressable store of 4096 bytes. It holds the 16 fixed
//! 5-byte font glyphs (digits 0 to F) at a fixed offset and the loaded
//! program starting at the load address; it knows nothing of the
//! instruction set.

use vstd::prelude::*;

verus! {

/// Number of addressable bytes.
pub const MEMORY_SIZE: usize = 4096;

/// Address at which a program is loaded; also the initial program counter.
pub const ROM_INIT_ADDRESS: usize = 0x200;

/// Address of the first byte of the font glyph table.
pub const FONT_INIT_ADDRESS: usize = 0x50;

/// Bytes per font glyph.
pub const FONT_WIDTH: usize = 5;

/// The fixed 80-byte glyph table: five bytes of row bitmap per hexadecimal
/// digit, digit 0 first.
pub open spec fn font_data() -> Seq<u8> {
    seq![
        0xF0u8, 0x90, 0x90, 0x90, 0xF0,
        0x20, 0x60, 0x20, 0x20, 0x70,
        0xF0, 0x10, 0xF0, 0x80, 0xF0,
        0xF0, 0x10, 0xF0, 0x10, 0xF0,
        0x90, 0x90, 0xF0, 0x10, 0x10,
        0xF0, 0x80, 0xF0, 0x10, 0xF0,
        0xF0, 0x80, 0xF0, 0x90, 0xF0,
        0xF0, 0x10, 0x20, 0x40, 0x40,
        0xF0, 0x90, 0xF0, 0x90, 0xF0,
        0xF0, 0x90, 0xF0, 0x10, 0xF0,
        0xF0, 0x90, 0xF0, 0x90, 0x90,
        0xE0, 0x90, 0xE0, 0x90, 0xE0,
        0xF0, 0x80, 0x80, 0x80, 0xF0,
        0xE0, 0x90, 0x90, 0x90, 0xE0,
        0xF0, 0x80, 0xF0, 0x80, 0xF0,
        0xF0, 0x80, 0xF0, 0x80, 0x80,
    ]
}

/// The big-endian 16-bit instruction word formed by the byte at `address`
/// and the byte after it.
pub open spec fn spec_read_instruction(m: Seq<u8>, address: int) -> u16
    recommends
        0 <= address,
        address + 1 < m.len(),
{
    ((m[address] as u16) << 8) | (m[address + 1] as u16)
}

pub struct Memory {
    pub data: [u8; MEMORY_SIZE],
}

impl Memory {
    pub fn new() -> (m: Memory)
        ensures
            m.data@ == Seq::new(MEMORY_SIZE as nat, |i: int| 0u8),
    {
        let m = Self { data: [0; MEMORY_SIZE] };
        proof {
            assert(m.data@ =~= Seq::new(MEMORY_SIZE as nat, |i: int| 0u8));
        }
        m
    }

    /// Writes the fixed glyph table at its fixed offset; every other byte is
    /// left as it was, so the load is idempotent.
    pub fn load_font_data(&mut self)
        ensures
            final(self).data@ == old(self).data@
                .take(FONT_INIT_ADDRESS as int)
                .add(font_data())
                .add(old(self).data@.skip(FONT_INIT_ADDRESS + font_data().len())),
            final(self).data@.subrange(
                FONT_INIT_ADDRESS as int,
                FONT_INIT_ADDRESS + font_data().len(),
            ) == font_data(),
    {
        let font: [u8; 80] = [
            0xF0, 0x90, 0x90, 0x90, 0xF0,
            0x20, 0x60, 0x20, 0x20, 0x70,
            0xF0, 0x10, 0xF0, 0x80, 0xF0,
            0xF0, 0x10, 0xF0, 0x10, 0xF0,
            0x90, 0x90, 0xF0, 0x10, 0x10,
            0xF0, 0x80, 0xF0, 0x10, 0xF0,
            0xF0, 0x80, 0xF0, 0x90, 0xF0,
            0xF0, 0x10, 0x20, 0x40, 0x40,
            0xF0, 0x90, 0xF0, 0x90, 0xF0,
            0xF0, 0x90, 0xF0, 0x10, 0xF0,
            0xF0, 0x90, 0xF0, 0x90, 0x90,
            0xE0, 0x90, 0xE0, 0x90, 0xE0,
            0xF0, 0x80, 0x80, 0x80, 0xF0,
            0xE0, 0x90, 0x90, 0x90, 0xE0,
            0xF0, 0x80, 0xF0, 0x80, 0xF0,
            0xF0, 0x80, 0xF0, 0x80, 0x80,
        ];
        proof {
            assert(font@ =~= font_data());
        }
        let ghost pre = self.data@;
        let mut i: usize = 0;
        while i < 80
            invariant
                i <= 80,
                font@ == font_data(),
                self.data@.len() == MEMORY_SIZE,
                forall|k: int|
                    FONT_INIT_ADDRESS <= k < FONT_INIT_ADDRESS + i
                        ==> self.data@[k] == font_data()[k - FONT_INIT_ADDRESS],
                forall|k: int|
                    0 <= k < MEMORY_SIZE && !(FONT_INIT_ADDRESS <= k < FONT_INIT_ADDRESS + i)
                        ==> self.data@[k] == pre[k],
            decreases 80 - i,
        {
            self.data[FONT_INIT_ADDRESS + i] = font[i];
            i += 1;
        }
        proof {
            assert(self.data@ =~= pre
                .take(FONT_INIT_ADDRESS as int)
                .add(font_data())
                .add(pre.skip(FONT_INIT_ADDRESS + font_data().len())));
            assert(self.data@.subrange(
                FONT_INIT_ADDRESS as int,
                FONT_INIT_ADDRESS + font_data().len(),
            ) =~= font_data());
        }
    }

    /// Writes the program bytes verbatim starting at the load address.
    /// A program that does not fit in the remaining capacity is a fatal
    /// configuration error, which the caller must rule out.
    pub fn load_rom_data(&mut self, rom_data: &[u8])
        requires
            ROM_INIT_ADDRESS + rom_data@.len() <= MEMORY_SIZE,
        ensures
            forall|k: int|
                0 <= k < rom_data@.len()
                    ==> final(self).data@[ROM_INIT_ADDRESS + k] == rom_data@[k],
            forall|k: int|
                0 <= k < MEMORY_SIZE
                    && !(ROM_INIT_ADDRESS <= k < ROM_INIT_ADDRESS + rom_data@.len())
                    ==> final(self).data@[k] == old(self).data@[k],
    {
        let ghost pre = self.data@;
        let n = rom_data.len();
        let mut i: usize = 0;
        while i < n
            invariant
                i <= n,
                n == rom_data@.len(),
                ROM_INIT_ADDRESS + n <= MEMORY_SIZE,
                self.data@.len() == MEMORY_SIZE,
                forall|k: int|
                    0 <= k < i ==> self.data@[ROM_INIT_ADDRESS + k] == rom_data@[k],
                forall|k: int|
                    0 <= k < MEMORY_SIZE && !(ROM_INIT_ADDRESS <= k < ROM_INIT_ADDRESS + i)
                        ==> self.data@[k] == pre[k],
            decreases n - i,
        {
            self.data[ROM_INIT_ADDRESS + i] = rom_data[i];
            i += 1;
        }
    }

    /// Combines the byte at `address` and the byte after it into a
    /// big-endian 16-bit instruction word.
    pub fn read_instruction(&self, address: usize) -> (r: u16)
        requires
            address + 1 < MEMORY_SIZE,
        ensures
            r == spec_read_instruction(self.data@, address as int),
    {
        ((self.data[address] as u16) << 8) | (self.data[address + 1] as u16)
    }

    pub fn read_byte(&self, address: usize) -> (r: u8)
        requires
            address < MEMORY_SIZE,
        ensures
            r == self.data@[address as int],
    {
        self.data[address]
    }

    pub fn write_byte(&mut self, address: usize, value: u8)
        requires
            address < MEMORY_SIZE,
        ensures
            final(self).data@ == old(self).data@.update(address as int, value),
    {
        self.data[address] = value;
    }

    /// The address of the glyph for the low four bits' worth of digits:
    /// glyph base plus five bytes per digit.
    pub fn get_font_address(&self, font_idx: u8) -> (r: usize)
        ensures
            r == FONT_INIT_ADDRESS + FONT_WIDTH * font_idx,
            font_idx <= 0xF ==> r + FONT_WIDTH <= FONT_INIT_ADDRESS + font_data().len(),
    {
        FONT_INIT_ADDRESS + FONT_WIDTH * (font_idx as usize)
    }
}

impl Default for Memory {
    fn default() -> (m: Memory)
        ensures
            m.data@ == Seq::new(MEMORY_SIZE as nat, |i: int| 0u8),
    {
        Self::new()
    }
}

} // verus!
