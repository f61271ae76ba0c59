//! The flat 4 KiB address space, with the built-in hexadecimal font.

use vstd::prelude::*;
use crate::fault::Fault;

verus! {

/// Number of addressable bytes.
pub const MEMORY_SIZE: usize = 4096;

/// Number of bytes of the built-in font: sixteen glyphs of five rows each.
pub const FONT_SIZE: usize = 80;

/// The built-in font, glyphs `0` to `F` in order, five rows per glyph.
pub open spec fn font() -> Seq<u8> {
    seq![
        0xF0u8, 0x90u8, 0x90u8, 0x90u8, 0xF0u8,
        0x20u8, 0x60u8, 0x20u8, 0x20u8, 0x70u8,
        0xF0u8, 0x10u8, 0xF0u8, 0x80u8, 0xF0u8,
        0xF0u8, 0x10u8, 0xF0u8, 0x10u8, 0xF0u8,
        0x90u8, 0x90u8, 0xF0u8, 0x10u8, 0x10u8,
        0xF0u8, 0x80u8, 0xF0u8, 0x10u8, 0xF0u8,
        0xF0u8, 0x80u8, 0xF0u8, 0x90u8, 0xF0u8,
        0xF0u8, 0x10u8, 0x20u8, 0x40u8, 0x40u8,
        0xF0u8, 0x90u8, 0xF0u8, 0x90u8, 0xF0u8,
        0xF0u8, 0x90u8, 0xF0u8, 0x10u8, 0xF0u8,
        0xF0u8, 0x90u8, 0xF0u8, 0x90u8, 0x90u8,
        0xE0u8, 0x90u8, 0xE0u8, 0x90u8, 0xE0u8,
        0xF0u8, 0x80u8, 0x80u8, 0x80u8, 0xF0u8,
        0xE0u8, 0x90u8, 0x90u8, 0x90u8, 0xE0u8,
        0xF0u8, 0x80u8, 0xF0u8, 0x80u8, 0xF0u8,
        0xF0u8, 0x80u8, 0xF0u8, 0x80u8, 0x80u8,
    ]
}

/// Whether the `length` bytes from `address` on all lie inside the address space.
pub open spec fn in_bounds(address: int, length: int) -> bool {
    0 <= address && 0 <= length && address + length <= MEMORY_SIZE
}

/// A memory of `MEMORY_SIZE` zero bytes.
pub open spec fn zeroed() -> Seq<u8> {
    Seq::new(MEMORY_SIZE as nat, |i: int| 0u8)
}

/// The byte at `address`, or the fault that reading it raises.
pub open spec fn read_byte_spec(cells: Seq<u8>, address: int) -> Result<u8, Fault> {
    if in_bounds(address, 1) {
        Ok(cells[address])
    } else {
        Err(Fault::AddressFault)
    }
}

/// The `length` bytes from `address` on, or the fault that reading them raises.
pub open spec fn read_slice_spec(cells: Seq<u8>, address: int, length: int) -> Result<Seq<u8>, Fault> {
    if in_bounds(address, length) {
        Ok(cells.subrange(address, address + length))
    } else {
        Err(Fault::AddressFault)
    }
}

/// `cells` with `bytes` laid over it from `address` on.
pub open spec fn overlay(cells: Seq<u8>, address: int, bytes: Seq<u8>) -> Seq<u8> {
    Seq::new(
        cells.len(),
        |i: int| if address <= i < address + bytes.len() { bytes[i - address] } else { cells[i] },
    )
}

/// The memory after `value` is stored at `address`, or the fault that storing it raises.
pub open spec fn write_byte_spec(cells: Seq<u8>, address: int, value: u8) -> Result<Seq<u8>, Fault> {
    if in_bounds(address, 1) {
        Ok(cells.update(address, value))
    } else {
        Err(Fault::AddressFault)
    }
}

/// The memory after `bytes` are stored from `address` on, or the fault that
/// storing them raises.
pub open spec fn write_slice_spec(cells: Seq<u8>, address: int, bytes: Seq<u8>) -> Result<Seq<u8>, Fault> {
    if in_bounds(address, bytes.len() as int) {
        Ok(overlay(cells, address, bytes))
    } else {
        Err(Fault::AddressFault)
    }
}

/// The memory after `length` bytes from `address` on are set to `value`, or
/// the fault that doing so raises.
pub open spec fn fill_spec(cells: Seq<u8>, address: int, length: int, value: u8) -> Result<Seq<u8>, Fault> {
    if in_bounds(address, length) {
        Ok(overlay(cells, address, Seq::new(length as nat, |i: int| value)))
    } else {
        Err(Fault::AddressFault)
    }
}

/// The address space of the machine.
#[derive(Debug)]
pub struct Memory {
    cells: Vec<u8>,
}

impl View for Memory {
    type V = Seq<u8>;

    closed spec fn view(&self) -> Seq<u8> {
        self.cells@
    }
}

impl Memory {
    /// A memory holds exactly `MEMORY_SIZE` bytes.
    pub open spec fn wf(&self) -> bool {
        self@.len() == MEMORY_SIZE
    }

    /// A memory of zero bytes, without the font.
    pub fn new() -> (m: Memory)
        ensures
            m.wf(),
            m@ == zeroed(),
    {
        let mut cells: Vec<u8> = Vec::with_capacity(MEMORY_SIZE);
        let mut k: usize = 0;
        while k < MEMORY_SIZE
            invariant
                k <= MEMORY_SIZE,
                cells@.len() == k,
                forall|j: int| 0 <= j < k ==> cells@[j] == 0u8,
            decreases MEMORY_SIZE - k,
        {
            cells.push(0u8);
            k = k + 1;
        }
        assert(cells@ =~= zeroed());
        Memory { cells }
    }

    /// Stores the built-in font in the first `FONT_SIZE` bytes.
    pub fn load_font(&mut self)
        requires
            old(self).wf(),
        ensures
            final(self).wf(),
            final(self)@ == overlay(old(self)@, 0, font()),
    {
        let glyphs: [u8; 80] = [
            0xF0, 0x90, 0x90, 0x90, 0xF0,
            0x20, 0x60, 0x20, 0x20, 0x70,
            0xF0, 0x10, 0xF0, 0x80, 0xF0,
            0xF0, 0x10, 0xF0, 0x10, 0xF0,
            0x90, 0x90, 0xF0, 0x10, 0x10,
            0xF0, 0x80, 0xF0, 0x10, 0xF0,
            0xF0, 0x80, 0xF0, 0x90, 0xF0,
            0xF0, 0x10, 0x20, 0x40, 0x40,
            0xF0, 0x90, 0xF0, 0x90, 0xF0,
            0xF0, 0x90, 0xF0, 0x10, 0xF0,
            0xF0, 0x90, 0xF0, 0x90, 0x90,
            0xE0, 0x90, 0xE0, 0x90, 0xE0,
            0xF0, 0x80, 0x80, 0x80, 0xF0,
            0xE0, 0x90, 0x90, 0x90, 0xE0,
            0xF0, 0x80, 0xF0, 0x80, 0xF0,
            0xF0, 0x80, 0xF0, 0x80, 0x80,
        ];
        assert(glyphs@ =~= font());
        let stored = self.write_slice(0, glyphs.as_slice());
        assert(stored is Ok);
    }

    /// Reads the byte at `address`.
    pub fn read_byte(&self, address: usize) -> (r: Result<u8, Fault>)
        requires
            self.wf(),
        ensures
            r == read_byte_spec(self@, address as int),
    {
        if address < MEMORY_SIZE {
            Ok(self.cells[address])
        } else {
            Err(Fault::AddressFault)
        }
    }

    /// Borrows the `length` bytes from `address` on.
    pub fn read_slice(&self, address: usize, length: usize) -> (r: Result<&[u8], Fault>)
        requires
            self.wf(),
        ensures
            match read_slice_spec(self@, address as int, length as int) {
                Ok(bytes) => r is Ok && r->Ok_0@ == bytes,
                Err(fault) => r == Err::<&[u8], Fault>(fault),
            },
    {
        if address > MEMORY_SIZE || length > MEMORY_SIZE - address {
            return Err(Fault::AddressFault);
        }
        Ok(vstd::slice::slice_subrange(self.cells.as_slice(), address, address + length))
    }

    /// Stores `value` at `address`.
    pub fn write_byte(&mut self, address: usize, value: u8) -> (r: Result<(), Fault>)
        requires
            old(self).wf(),
        ensures
            final(self).wf(),
            match write_byte_spec(old(self)@, address as int, value) {
                Ok(cells) => r is Ok && final(self)@ == cells,
                Err(fault) => r == Err::<(), Fault>(fault) && final(self)@ == old(self)@,
            },
    {
        if address < MEMORY_SIZE {
            self.cells[address] = value;
            Ok(())
        } else {
            Err(Fault::AddressFault)
        }
    }

    /// Copies `value` into memory from `address` on.
    pub fn write_slice(&mut self, address: usize, value: &[u8]) -> (r: Result<(), Fault>)
        requires
            old(self).wf(),
        ensures
            final(self).wf(),
            match write_slice_spec(old(self)@, address as int, value@) {
                Ok(cells) => r is Ok && final(self)@ == cells,
                Err(fault) => r == Err::<(), Fault>(fault) && final(self)@ == old(self)@,
            },
    {
        let size: usize = value.len();
        if address > MEMORY_SIZE || size > MEMORY_SIZE - address {
            return Err(Fault::AddressFault);
        }
        let ghost before = self.cells@;
        let mut k: usize = 0;
        while k < size
            invariant
                k <= size,
                size == value@.len(),
                address + size <= MEMORY_SIZE,
                self.cells@.len() == MEMORY_SIZE,
                before.len() == MEMORY_SIZE,
                self.cells@ == overlay(before, address as int, value@.take(k as int)),
            decreases size - k,
        {
            self.cells[address + k] = value[k];
            k = k + 1;
            assert(self.cells@ =~= overlay(before, address as int, value@.take(k as int)));
        }
        assert(value@.take(size as int) =~= value@);
        Ok(())
    }

    /// Sets the `length` bytes from `address` on to `value`.
    pub fn set(&mut self, address: usize, length: usize, value: u8) -> (r: Result<(), Fault>)
        requires
            old(self).wf(),
        ensures
            final(self).wf(),
            match fill_spec(old(self)@, address as int, length as int, value) {
                Ok(cells) => r is Ok && final(self)@ == cells,
                Err(fault) => r == Err::<(), Fault>(fault) && final(self)@ == old(self)@,
            },
    {
        if address > MEMORY_SIZE || length > MEMORY_SIZE - address {
            return Err(Fault::AddressFault);
        }
        let ghost before = self.cells@;
        let mut k: usize = 0;
        while k < length
            invariant
                k <= length,
                address + length <= MEMORY_SIZE,
                self.cells@.len() == MEMORY_SIZE,
                before.len() == MEMORY_SIZE,
                self.cells@ == overlay(before, address as int, Seq::new(k as nat, |i: int| value)),
            decreases length - k,
        {
            self.cells[address + k] = value;
            k = k + 1;
            assert(self.cells@ =~= overlay(before, address as int, Seq::new(k as nat, |i: int| value)));
        }
        Ok(())
    }
}

impl Default for Memory {
    /// A zeroed memory with the font in place.
    fn default() -> (m: Memory)
        ensures
            m.wf(),
            m@ == overlay(zeroed(), 0, font()),
    {
        let mut memory = Memory::new();
        memory.load_font();
        memory
    }
}

/// A byte stored at an address inside the address space is the byte read back
/// from that address.
pub proof fn law_read_after_write(cells: Seq<u8>, address: int, value: u8)
    requires
        cells.len() == MEMORY_SIZE,
        0 <= address < MEMORY_SIZE,
    ensures
        write_byte_spec(cells, address, value) is Ok,
        read_byte_spec(write_byte_spec(cells, address, value)->Ok_0, address) == Ok::<u8, Fault>(value),
{
}

/// Every read, write or fill over a range that ends beyond the address space
/// raises an address fault.
pub proof fn law_out_of_range_faults(cells: Seq<u8>, address: int, bytes: Seq<u8>, value: u8)
    requires
        address + bytes.len() > MEMORY_SIZE,
    ensures
        read_slice_spec(cells, address, bytes.len() as int) == Err::<Seq<u8>, Fault>(Fault::AddressFault),
        write_slice_spec(cells, address, bytes) == Err::<Seq<u8>, Fault>(Fault::AddressFault),
        fill_spec(cells, address, bytes.len() as int, value) == Err::<Seq<u8>, Fault>(Fault::AddressFault),
        bytes.len() == 1 ==> read_byte_spec(cells, address) == Err::<u8, Fault>(Fault::AddressFault),
        bytes.len() == 1 ==> write_byte_spec(cells, address, value) == Err::<Seq<u8>, Fault>(
            Fault::AddressFault,
        ),
{
}

} // verus!
