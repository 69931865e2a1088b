//! The addressable memory: a fixed array of 4096 bytes with a configurable
//! byte order for 16-bit accesses, seeded with the built-in glyph table at
//! construction and re-seeded identically on every reset.
//!
//! Single-byte and 16-bit accesses reduce the address modulo the memory
//! size, so every access is total; well-formed programs never exercise the
//! reduction. Bulk copies take the destination range as a caller
//! obligation, matching the program-loading contract.

use vstd::prelude::*;

verus! {

use crate::font::FONTSET_SIZE;
use crate::font::fontset;
use crate::font::spec_fontset;

/// Number of addressable byte locations.
pub const RAM_SIZE: usize = 4096;

/// The byte order used to split a 16-bit value across two consecutive
/// memory locations.
#[derive(Clone, Copy, Debug, PartialEq, Eq, Structural)]
pub enum Endianness {
    LITTLE,
    BIG,
}

/// The mathematical content of the memory: its byte sequence and the
/// active byte order.
pub ghost struct MemView {
    pub bytes: Seq<u8>,
    pub endianness: Endianness,
}

/// The address actually accessed for a requested 16-bit address: reduced
/// modulo the memory size.
pub open spec fn mem_addr(address: int) -> int {
    address % (RAM_SIZE as int)
}

/// The 16-bit value read at `address`: the bytes at `address` and
/// `address + 1` combined per the byte order (the first byte is the high
/// byte under the big-endian order, the low byte under little-endian).
pub open spec fn spec_read_u16(bytes: Seq<u8>, endianness: Endianness, address: u16) -> u16 {
    let b0 = bytes[mem_addr(address as int)];
    let b1 = bytes[mem_addr(address as int + 1)];
    match endianness {
        Endianness::BIG => (b0 * 256 + b1) as u16,
        Endianness::LITTLE => (b1 * 256 + b0) as u16,
    }
}

/// The memory contents a fresh or freshly reset memory holds: the glyph
/// table at the lowest addresses, zero everywhere else.
pub open spec fn spec_seeded_bytes() -> Seq<u8> {
    Seq::new(RAM_SIZE as nat, |a: int| if a < FONTSET_SIZE { spec_fontset()[a] } else { 0u8 })
}

/// The addressable memory.
pub struct Memory {
    memory: Vec<u8>,
    endianness: Endianness,
}

impl View for Memory {
    type V = MemView;

    closed spec fn view(&self) -> MemView {
        MemView { bytes: self.memory@, endianness: self.endianness }
    }
}

impl Memory {
    /// A memory is well formed when it holds exactly one byte per
    /// addressable location.
    pub open spec fn wf(&self) -> bool {
        self@.bytes.len() == RAM_SIZE
    }

    /// A fresh memory: glyph table at the lowest addresses, zero
    /// everywhere else, big-endian byte order.
    pub fn new() -> (m: Memory)
        ensures
            m.wf(),
            m@.bytes == spec_seeded_bytes(),
            m@.endianness == Endianness::BIG,
    {
        let mut memory: Vec<u8> = Vec::new();
        let mut i: usize = 0;
        while i < RAM_SIZE
            invariant
                i <= RAM_SIZE,
                memory@.len() == i,
                forall|j: int| 0 <= j < i ==> memory@[j] == 0u8,
            decreases RAM_SIZE - i,
        {
            memory.push(0);
            i = i + 1;
        }
        let mut m = Memory { memory, endianness: Endianness::BIG };
        let font = fontset();
        m.write_data(font.as_slice(), 0);
        proof {
            assert(m@.bytes =~= spec_seeded_bytes());
        }
        m
    }

    /// Zero-fills the memory, restores the default byte order and
    /// re-seeds the glyph table, identically to construction.
    pub fn reset(&mut self)
        requires
            old(self).wf(),
        ensures
            final(self).wf(),
            final(self)@.bytes == spec_seeded_bytes(),
            final(self)@.endianness == Endianness::BIG,
    {
        let mut i: usize = 0;
        while i < RAM_SIZE
            invariant
                i <= RAM_SIZE,
                self@.bytes.len() == RAM_SIZE,
                forall|j: int| 0 <= j < i ==> self@.bytes[j] == 0u8,
            decreases RAM_SIZE - i,
        {
            self.memory.set(i, 0);
            i = i + 1;
        }
        self.endianness = Endianness::BIG;
        let font = fontset();
        self.write_data(font.as_slice(), 0);
        proof {
            assert(self@.bytes =~= spec_seeded_bytes());
        }
    }

    /// Switches the byte order used by subsequent 16-bit accesses.
    pub fn set_endianness(&mut self, endianness: Endianness)
        requires
            old(self).wf(),
        ensures
            final(self).wf(),
            final(self)@.bytes == old(self)@.bytes,
            final(self)@.endianness == endianness,
    {
        self.endianness = endianness;
    }

    /// Writes one byte; the address is reduced modulo the memory size.
    pub fn write_u8(&mut self, address: u16, value: u8)
        requires
            old(self).wf(),
        ensures
            final(self).wf(),
            final(self)@.bytes == old(self)@.bytes.update(mem_addr(address as int), value),
            final(self)@.endianness == old(self)@.endianness,
    {
        self.memory.set((address as usize) % RAM_SIZE, value);
    }

    /// Reads one byte; the address is reduced modulo the memory size.
    pub fn read_u8(&self, address: u16) -> (r: u8)
        requires
            self.wf(),
        ensures
            r == self@.bytes[mem_addr(address as int)],
    {
        self.memory[(address as usize) % RAM_SIZE]
    }

    /// Splits a 16-bit value across `address` and `address + 1` per the
    /// active byte order; the addresses are reduced modulo the memory size.
    pub fn write_u16(&mut self, address: u16, value: u16)
        requires
            old(self).wf(),
        ensures
            final(self).wf(),
            final(self)@.endianness == old(self)@.endianness,
            final(self)@.bytes == (match old(self)@.endianness {
                Endianness::BIG => old(self)@.bytes
                    .update(mem_addr(address as int), (value / 256) as u8)
                    .update(mem_addr(address as int + 1), (value % 256) as u8),
                Endianness::LITTLE => old(self)@.bytes
                    .update(mem_addr(address as int), (value % 256) as u8)
                    .update(mem_addr(address as int + 1), (value / 256) as u8),
            }),
    {
        let v_lower = (value % 256) as u8;
        let v_upper = (value / 256) as u8;
        let a0 = (address as usize) % RAM_SIZE;
        let a1 = ((address as usize) + 1) % RAM_SIZE;
        match self.endianness {
            Endianness::LITTLE => {
                self.memory.set(a0, v_lower);
                self.memory.set(a1, v_upper);
            }
            Endianness::BIG => {
                self.memory.set(a0, v_upper);
                self.memory.set(a1, v_lower);
            }
        }
    }

    /// Reads the 16-bit value at `address` per the active byte order; used
    /// by instruction fetch.
    pub fn read_u16(&self, address: u16) -> (r: u16)
        requires
            self.wf(),
        ensures
            r == spec_read_u16(self@.bytes, self@.endianness, address),
    {
        let b0 = self.memory[(address as usize) % RAM_SIZE] as u16;
        let b1 = self.memory[((address as usize) + 1) % RAM_SIZE] as u16;
        match self.endianness {
            Endianness::LITTLE => b1 * 256 + b0,
            Endianness::BIG => b0 * 256 + b1,
        }
    }

    /// Bulk copy of `data` into memory starting at `address`. The caller
    /// guarantees the destination range fits.
    pub fn write_data(&mut self, data: &[u8], address: u16)
        requires
            old(self).wf(),
            address as int + data@.len() <= RAM_SIZE,
        ensures
            final(self).wf(),
            final(self)@.endianness == old(self)@.endianness,
            forall|i: int| 0 <= i < RAM_SIZE ==> final(self)@.bytes[i] == (
                if address as int <= i < address as int + data@.len() {
                    data@[i - address as int]
                } else {
                    old(self)@.bytes[i]
                }
            ),
    {
        let mut k: usize = 0;
        while k < data.len()
            invariant
                k <= data@.len(),
                address as int + data@.len() <= RAM_SIZE,
                self@.bytes.len() == RAM_SIZE,
                self@.endianness == old(self)@.endianness,
                forall|i: int| 0 <= i < RAM_SIZE ==> self@.bytes[i] == (
                    if address as int <= i < address as int + k {
                        data@[i - address as int]
                    } else {
                        old(self)@.bytes[i]
                    }
                ),
            decreases data@.len() - k,
        {
            self.memory.set((address as usize) + k, data[k]);
            k = k + 1;
        }
    }

    /// Copies `size` bytes starting at `address` into the front of
    /// `buffer`, truncated to the buffer's length. The caller guarantees
    /// the source range fits.
    pub fn read_data(&self, buffer: &mut Vec<u8>, address: u16, size: usize)
        requires
            self.wf(),
            address as int + (if size > old(buffer)@.len() { old(buffer)@.len() as int } else {
                size as int
            }) <= RAM_SIZE,
        ensures
            final(buffer)@.len() == old(buffer)@.len(),
            forall|i: int| 0 <= i < final(buffer)@.len() ==> final(buffer)@[i] == (
                if i < (if size > old(buffer)@.len() { old(buffer)@.len() as int } else {
                    size as int
                }) {
                    self@.bytes[address as int + i]
                } else {
                    old(buffer)@[i]
                }
            ),
    {
        let total_size = if size > buffer.len() { buffer.len() } else { size };
        let mut k: usize = 0;
        while k < total_size
            invariant
                k <= total_size,
                total_size <= buffer@.len(),
                buffer@.len() == old(buffer)@.len(),
                address as int + total_size <= RAM_SIZE,
                self.wf(),
                forall|i: int| 0 <= i < buffer@.len() ==> buffer@[i] == (
                    if i < k {
                        self@.bytes[address as int + i]
                    } else {
                        old(buffer)@[i]
                    }
                ),
            decreases total_size - k,
        {
            let b = self.memory[(address as usize) + k];
            buffer.set(k, b);
            k = k + 1;
        }
    }
}

} // verus!
