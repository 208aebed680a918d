//! Bit-based operations for u8 and u16 values.

use vstd::prelude::*;

use crate::error::Chip8Error;

verus! {

/// The four 4-bit nibbles of a 16-bit instruction word, most significant
/// first.
pub type InstructionNibbles = (u8, u8, u8, u8);

/// The nth bit of `byte`, with bit 0 the least significant.
pub open spec fn spec_nth_bit(n: u8, byte: u8) -> bool {
    (byte >> n) & 1 == 1
}

/// The most significant nibble of `bytes`.
pub open spec fn spec_first_nibble(bytes: u16) -> u8 {
    (bytes / 0x1000) as u8
}

/// The second most significant nibble of `bytes`.
pub open spec fn spec_second_nibble(bytes: u16) -> u8 {
    ((bytes / 0x100) % 0x10) as u8
}

/// The third most significant nibble of `bytes`.
pub open spec fn spec_third_nibble(bytes: u16) -> u8 {
    ((bytes / 0x10) % 0x10) as u8
}

/// The least significant nibble of `bytes`.
pub open spec fn spec_fourth_nibble(bytes: u16) -> u8 {
    (bytes % 0x10) as u8
}

/// The low byte of `bytes`.
pub open spec fn spec_last_two_nibbles(bytes: u16) -> u8 {
    (bytes % 0x100) as u8
}

/// The low 12 bits of `bytes`.
pub open spec fn spec_last_three_nibbles(bytes: u16) -> u16 {
    bytes % 0x1000
}

/// Returns the nth bit of the given byte as a bool.
///
/// Indexed with 0 being the last bit of the byte.  An index of 8 or more
/// is rejected.
pub fn get_nth_bit(n: u8, byte: u8) -> (r: Result<bool, Chip8Error>)
    ensures
        n < 8 ==> r == Ok::<bool, Chip8Error>(spec_nth_bit(n, byte)),
        n >= 8 ==> r == Err::<bool, Chip8Error>(Chip8Error::InvalidBitIndex(n)),
{
    if n >= 8 {
        return Err(Chip8Error::InvalidBitIndex(n));
    }

    let mask = 1u8 << n;
    proof {
        assert(((byte & (1u8 << n)) >> n == 1) == ((byte >> n) & 1 == 1)) by (bit_vector)
            requires
                n < 8,
        ;
    }
    Ok(((byte & mask) >> n) == 1)
}

/// Returns the last two nibbles of the given u16.
pub fn get_last_two_nibbles(bytes: u16) -> (r: u8)
    ensures
        r == spec_last_two_nibbles(bytes),
{
    proof {
        assert((bytes & 0x00FF) as u8 == (bytes % 0x100) as u8) by (bit_vector);
    }
    (bytes & 0x00FF) as u8
}

/// Returns the last three nibbles of the given u16.
pub fn get_last_three_nibbles(bytes: u16) -> (r: u16)
    ensures
        r == spec_last_three_nibbles(bytes),
{
    proof {
        assert(bytes & 0x0FFF == bytes % 0x1000) by (bit_vector);
    }
    bytes & 0x0FFF
}

/// Returns the first nibble of the given u16.
pub fn get_first_nibble(bytes: u16) -> (r: u8)
    ensures
        r == spec_first_nibble(bytes),
        r < 16,
{
    proof {
        assert(((bytes & 0xF000) >> 12) as u8 == (bytes / 0x1000) as u8 && (bytes / 0x1000) < 16)
            by (bit_vector);
    }
    ((bytes & 0xF000) >> 12) as u8
}

/// Returns the second nibble of the given u16.
pub fn get_second_nibble(bytes: u16) -> (r: u8)
    ensures
        r == spec_second_nibble(bytes),
        r < 16,
{
    proof {
        assert(((bytes & 0x0F00) >> 8) as u8 == ((bytes / 0x100) % 0x10) as u8) by (bit_vector);
    }
    ((bytes & 0x0F00) >> 8) as u8
}

/// Returns the third nibble of the given u16.
pub fn get_third_nibble(bytes: u16) -> (r: u8)
    ensures
        r == spec_third_nibble(bytes),
        r < 16,
{
    proof {
        assert(((bytes & 0x00F0) >> 4) as u8 == ((bytes / 0x10) % 0x10) as u8) by (bit_vector);
    }
    ((bytes & 0x00F0) >> 4) as u8
}

/// Returns the fourth nibble of the given u16.
pub fn get_fourth_nibble(bytes: u16) -> (r: u8)
    ensures
        r == spec_fourth_nibble(bytes),
        r < 16,
{
    proof {
        assert((bytes & 0x000F) as u8 == (bytes % 0x10) as u8) by (bit_vector);
    }
    (bytes & 0x000F) as u8
}

/// Breaks down the given u16 into a tuple of nibbles.
pub fn break_into_nibbles(bytes: u16) -> (r: InstructionNibbles)
    ensures
        r == (
            spec_first_nibble(bytes),
            spec_second_nibble(bytes),
            spec_third_nibble(bytes),
            spec_fourth_nibble(bytes),
        ),
{
    let first = get_first_nibble(bytes);
    let second = get_second_nibble(bytes);
    let third = get_third_nibble(bytes);
    let fourth = get_fourth_nibble(bytes);

    (first, second, third, fourth)
}

} // verus!
