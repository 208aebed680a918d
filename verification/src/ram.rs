//! A fixed, 4096-byte addressable memory with bounds-checked access.

use vstd::prelude::*;

use crate::error::{Chip8Error, MemoryAccess};

verus! {

/// A 16-bit memory address; only values below 4096 are in bounds.
pub type Address = u16;

/// The machine's memory: 4096 bytes, zero-initialized.
#[derive(Debug, Eq, PartialEq)]
pub struct RAM {
    memory: [u8; 4096],
}

impl View for RAM {
    type V = Seq<u8>;

    closed spec fn view(&self) -> Seq<u8> {
        self.memory@
    }
}

/// Every memory value holds exactly 4096 bytes.
pub broadcast proof fn lemma_ram_view_len(ram: &RAM)
    ensures
        (#[trigger] ram@).len() == 4096,
{
}

/// What a one-byte read at `address` returns: the byte held there, or an
/// out-of-bounds error for an address at or past 4096.
pub open spec fn spec_read_byte(mem: Seq<u8>, address: u16) -> Result<u8, Chip8Error> {
    if address < 4096 {
        Ok(mem[address as int])
    } else {
        Err(Chip8Error::OutOfBounds(MemoryAccess::Read, address))
    }
}

/// What a big-endian two-byte read at `address` returns.
pub open spec fn spec_read_u16(mem: Seq<u8>, address: u16) -> Result<u16, Chip8Error> {
    if address >= 4096 {
        Err(Chip8Error::OutOfBounds(MemoryAccess::Read, address))
    } else if address + 1 >= 4096 {
        Err(Chip8Error::OutOfBounds(MemoryAccess::Read, (address + 1) as u16))
    } else {
        Ok(((mem[address as int] as u16) << 8) | (mem[address + 1] as u16))
    }
}

/// The address whose access fails first when an ascending run starting at
/// `address` leaves the valid range.
pub open spec fn spec_fail_address(address: u16) -> u16 {
    if address < 4096 {
        4096
    } else {
        address
    }
}

/// How many bytes of an ascending `len`-byte run starting at `address`
/// land in bounds before the first failure.
pub open spec fn spec_written_len(address: u16, len: int) -> int {
    if address >= 4096 {
        0
    } else if address + len <= 4096 {
        len
    } else {
        4096 - address
    }
}

/// `mem` with `bytes` laid over it starting at `address`; positions
/// outside `[address, address + bytes.len())` keep their old contents.
pub open spec fn spec_overwrite(mem: Seq<u8>, address: int, bytes: Seq<u8>) -> Seq<u8> {
    Seq::new(
        mem.len(),
        |i: int|
            if address <= i < address + bytes.len() {
                bytes[i - address]
            } else {
                mem[i]
            },
    )
}

/// What a bulk write of `bytes` at `address` does: every byte up to the
/// first out-of-bounds position is written and stays written; if any byte
/// falls out of bounds the run reports that failure.
pub open spec fn spec_write_bytes(mem: Seq<u8>, address: u16, bytes: Seq<u8>) -> (Seq<
    u8,
>, Result<(), Chip8Error>) {
    let written = spec_written_len(address, bytes.len() as int);
    let new_mem = spec_overwrite(mem, address as int, bytes.take(written));
    if bytes.len() == 0 || address + bytes.len() <= 4096 {
        (new_mem, Ok(()))
    } else {
        (new_mem, Err(Chip8Error::OutOfBounds(MemoryAccess::Write, spec_fail_address(address))))
    }
}

/// What an ascending `height`-byte read starting at `address` returns:
/// the bytes held there, or the first out-of-bounds failure.
pub open spec fn spec_read_sprite(mem: Seq<u8>, address: u16, height: u8) -> Result<Seq<
    u8,
>, Chip8Error> {
    if height == 0 {
        Ok(Seq::empty())
    } else if address + height <= 4096 {
        Ok(mem.subrange(address as int, address + height))
    } else {
        Err(Chip8Error::OutOfBounds(MemoryAccess::Read, spec_fail_address(address)))
    }
}

impl Default for RAM {
    /// Fresh memory holds 4096 zero bytes.
    fn default() -> (r: Self)
        ensures
            r@.len() == 4096,
            forall|i: int| 0 <= i < 4096 ==> r@[i] == 0u8,
    {
        let ram = RAM { memory: [0u8; 4096] };
        proof {
            vstd::array::axiom_spec_array_fill_for_copy_type::<u8, 4096>(0u8);
        }
        ram
    }
}

impl RAM {
    /// Writes a contiguous run of bytes starting at `address`.  The first
    /// out-of-bounds byte aborts the run and surfaces the error; bytes
    /// written before the failure remain written.
    pub fn write_bytes(&mut self, address: Address, bytes: &[u8]) -> (r: Result<(), Chip8Error>)
        ensures
            final(self)@ == spec_write_bytes(old(self)@, address, bytes@).0,
            r == spec_write_bytes(old(self)@, address, bytes@).1,
    {
        let ghost pre = self@;
        let mut failure: Option<Chip8Error> = None;
        let mut i: usize = 0;
        while failure.is_none() && i < bytes.len()
            invariant
                0 <= i <= bytes@.len(),
                pre.len() == 4096,
                failure is None ==> {
                    &&& (i > 0 ==> address + i <= 4096)
                    &&& self@ =~= spec_overwrite(pre, address as int, bytes@.take(i as int))
                },
                failure matches Some(e) ==> {
                    &&& self@ =~= spec_write_bytes(pre, address, bytes@).0
                    &&& spec_write_bytes(pre, address, bytes@).1 == Err::<(), Chip8Error>(e)
                },
            decreases bytes@.len() - i + (if failure is None { 1int } else { 0int }),
        {
            let cur_address = address + (i as u16);
            match self.write_byte(cur_address, bytes[i]) {
                Ok(()) => {
                    proof {
                        assert(self@ =~= spec_overwrite(pre, address as int, bytes@.take(i + 1)));
                    }
                    i = i + 1;
                },
                Err(e) => {
                    proof {
                        assert(spec_written_len(address, bytes@.len() as int) == i as int);
                        assert(cur_address == spec_fail_address(address));
                        assert(self@ =~= spec_write_bytes(pre, address, bytes@).0);
                    }
                    failure = Some(e);
                },
            }
        }

        match failure {
            Some(e) => Err(e),
            None => {
                proof {
                    assert(bytes@.take(i as int) =~= bytes@);
                    assert(spec_written_len(address, bytes@.len() as int) == bytes@.len());
                    assert(self@ =~= spec_write_bytes(pre, address, bytes@).0);
                }
                Ok(())
            },
        }
    }

    /// Writes one byte, failing for an address at or past 4096.
    pub fn write_byte(&mut self, address: Address, byte: u8) -> (r: Result<(), Chip8Error>)
        ensures
            address < 4096 ==> r == Ok::<(), Chip8Error>(()) && final(self)@ == old(self)@.update(
                address as int,
                byte,
            ),
            address >= 4096 ==> r == Err::<(), Chip8Error>(
                Chip8Error::OutOfBounds(MemoryAccess::Write, address),
            ) && final(self)@ == old(self)@,
    {
        if address >= 4096 {
            return Err(Chip8Error::OutOfBounds(MemoryAccess::Write, address));
        }

        self.memory[address as usize] = byte;
        Ok(())
    }

    /// Reads one byte, failing for an address at or past 4096.
    pub fn read_byte(&self, address: Address) -> (r: Result<u8, Chip8Error>)
        ensures
            r == spec_read_byte(self@, address),
    {
        if address >= 4096 {
            return Err(Chip8Error::OutOfBounds(MemoryAccess::Read, address));
        }

        Ok(self.memory[address as usize])
    }

    /// Reads two consecutive bytes big-endian: the byte at `address` is
    /// the high byte of the result.
    pub fn read_u16(&self, address: Address) -> (r: Result<u16, Chip8Error>)
        ensures
            r == spec_read_u16(self@, address),
    {
        let first_byte = match self.read_byte(address) {
            Ok(b) => b as u16,
            Err(e) => { return Err(e) },
        };
        let second_byte = match self.read_byte(address + 1) {
            Ok(b) => b as u16,
            Err(e) => { return Err(e) },
        };

        Ok((first_byte << 8) | second_byte)
    }

    /// Reads `height` consecutive bytes; each byte is one 8-pixel sprite
    /// row, most significant bit leftmost.
    pub fn read_sprite(&self, address: Address, height: u8) -> (r: Result<Vec<u8>, Chip8Error>)
        ensures
            spec_read_sprite(self@, address, height) matches Ok(rows) ==> (r matches Ok(v)
                && v@ == rows),
            spec_read_sprite(self@, address, height) matches Err(e) ==> r == Err::<
                Vec<u8>,
                Chip8Error,
            >(e),
    {
        let mut sprite_bytes: Vec<u8> = Vec::new();
        let mut i: u8 = 0;
        while i < height
            invariant
                0 <= i <= height,
                i > 0 ==> address + i <= 4096,
                sprite_bytes@.len() == i as int,
                forall|j: int| 0 <= j < i ==> sprite_bytes@[j] == self@[address + j],
            decreases height - i,
        {
            match self.read_byte(address + (i as u16)) {
                Ok(b) => sprite_bytes.push(b),
                Err(e) => {
                    proof {
                        assert(address + (i as u16) == spec_fail_address(address));
                    }
                    return Err(e);
                },
            }
            i = i + 1;
        }

        proof {
            if address + height <= 4096 {
                assert(sprite_bytes@ =~= self@.subrange(address as int, address + height));
            }
        }
        Ok(sprite_bytes)
    }
}

/// Writing a byte and then reading the same address gives back exactly
/// the byte written; for an address at or past 4096, the write fails
/// out of bounds (leaving memory unchanged, as `write_byte` ensures)
/// and the read fails out of bounds as well.
pub proof fn lemma_write_then_read_byte(mem: Seq<u8>, address: u16, byte: u8)
    requires
        mem.len() == 4096,
    ensures
        address < 4096 ==> spec_read_byte(mem.update(address as int, byte), address) == Ok::<
            u8,
            Chip8Error,
        >(byte),
        address >= 4096 ==> spec_read_byte(mem, address) == Err::<u8, Chip8Error>(
            Chip8Error::OutOfBounds(MemoryAccess::Read, address),
        ),
{
}

/// A two-byte read is the big-endian composition of the two one-byte
/// reads, whenever both addresses are in bounds.
pub proof fn lemma_read_u16_composition(mem: Seq<u8>, address: u16)
    requires
        mem.len() == 4096,
        address + 1 < 4096,
    ensures
        ({
            let high = spec_read_byte(mem, address);
            let low = spec_read_byte(mem, (address + 1) as u16);
            &&& high matches Ok(h) && low matches Ok(l) && spec_read_u16(mem, address) == Ok::<
                u16,
                Chip8Error,
            >(((h as u16) << 8) | (l as u16))
        }),
{
}

} // verus!
