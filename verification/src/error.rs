//! The error values that the interpreter's fallible operations report,
//! and their rendering as human-readable text.

use vstd::prelude::*;

verus! {

use vstd::string::StringExecFns;

/// The character for one hexadecimal digit, lower case.
pub open spec fn spec_hex_digit(d: int) -> char {
    if d == 0 {
        '0'
    } else if d == 1 {
        '1'
    } else if d == 2 {
        '2'
    } else if d == 3 {
        '3'
    } else if d == 4 {
        '4'
    } else if d == 5 {
        '5'
    } else if d == 6 {
        '6'
    } else if d == 7 {
        '7'
    } else if d == 8 {
        '8'
    } else if d == 9 {
        '9'
    } else if d == 10 {
        'a'
    } else if d == 11 {
        'b'
    } else if d == 12 {
        'c'
    } else if d == 13 {
        'd'
    } else if d == 14 {
        'e'
    } else {
        'f'
    }
}

/// The hexadecimal rendering of `v` without leading zeroes (a single
/// zero for 0).
pub open spec fn spec_hex(v: nat) -> Seq<char>
    decreases v,
{
    if v < 16 {
        seq![spec_hex_digit(v as int)]
    } else {
        spec_hex(v / 16) + seq![spec_hex_digit((v % 16) as int)]
    }
}

/// The hexadecimal rendering of `v` padded with leading zeroes to
/// exactly `width` digits.
pub open spec fn spec_hex_pad(v: nat, width: nat) -> Seq<char>
    decreases width,
{
    if width == 0 {
        Seq::empty()
    } else {
        spec_hex_pad(v / 16, (width - 1) as nat) + seq![spec_hex_digit((v % 16) as int)]
    }
}

/// The decimal rendering of `v` without leading zeroes (a single zero
/// for 0).
pub open spec fn spec_dec(v: nat) -> Seq<char>
    decreases v,
{
    if v < 10 {
        seq![spec_hex_digit(v as int)]
    } else {
        spec_dec(v / 10) + seq![spec_hex_digit((v % 10) as int)]
    }
}

/// Whether a failing memory access was a read or a write.
#[derive(Clone, Copy, Debug, PartialEq, Eq, Structural)]
pub enum MemoryAccess {
    Read,
    Write,
}

/// Every failure the core can report.  All of them are surfaced to the
/// caller; none is recovered from internally.
#[derive(Clone, Copy, Debug, PartialEq, Eq, Structural)]
pub enum Chip8Error {
    /// A bit index of 8 or more was handed to a byte-level bit extraction.
    InvalidBitIndex(u8),
    /// A memory access at an address outside `[0, 4096)`.
    OutOfBounds(MemoryAccess, u16),
    /// The decoder found no opcode pattern matching the given word.
    UnrecognizedInstruction(u16),
    /// A return was executed with nothing on the call stack.
    EmptyStack,
    /// A register range whose end register precedes its start register,
    /// both given by their numeric indices.
    InvalidRegisterRange(u8, u8),
    /// A screen coordinate pair outside the 64 by 32 pixel grid.
    InvalidPosition(u8, u8),
    /// A key identifier that names no key of the keypad subset.
    UnrecognizedKey(u8),
}

/// The conventional name of the register with the given index: a `V`
/// followed by the index as one lower-case hexadecimal digit.
pub open spec fn spec_register_name(index: int) -> Seq<char> {
    seq!['V', spec_hex_digit(index)]
}

/// The text describing an error, as the interpreter reports it.
pub open spec fn spec_message(error: Chip8Error) -> Seq<char> {
    match error {
        Chip8Error::InvalidBitIndex(n) => "Invalid byte bit index: "@ + spec_dec(n as nat),
        Chip8Error::OutOfBounds(MemoryAccess::Read, address) => "Read at invalid memory address: 0x"@
            + spec_hex(address as nat),
        Chip8Error::OutOfBounds(MemoryAccess::Write, address) => "Write at invalid memory address: 0x"@
            + spec_hex(address as nat),
        Chip8Error::UnrecognizedInstruction(word) => "Unrecognized instruction: 0x"@ + spec_hex_pad(
            word as nat,
            4,
        ),
        Chip8Error::EmptyStack => "No address on the stack to return to."@,
        Chip8Error::InvalidRegisterRange(start, end) => "Invalid register range: "@
            + spec_register_name(start as int) + " - "@ + spec_register_name(end as int),
        Chip8Error::InvalidPosition(x, y) => if x >= 64 {
            "Screen position x value is too large: Position { x: "@ + spec_dec(x as nat) + ", y: "@
                + spec_dec(y as nat) + " }"@
        } else {
            "Screen position y value is too large: Position { x: "@ + spec_dec(x as nat) + ", y: "@
                + spec_dec(y as nat) + " }"@
        },
        Chip8Error::UnrecognizedKey(key_id) => "Unrecognized key id: 0x"@ + spec_hex_pad(
            key_id as nat,
            2,
        ),
    }
}

/// One hexadecimal digit as text, lower case.
fn hex_digit_str(d: u8) -> (r: &'static str)
    requires
        d < 16,
    ensures
        r@ == seq![spec_hex_digit(d as int)],
{
    let r = match d {
        0 => "0",
        1 => "1",
        2 => "2",
        3 => "3",
        4 => "4",
        5 => "5",
        6 => "6",
        7 => "7",
        8 => "8",
        9 => "9",
        10 => "a",
        11 => "b",
        12 => "c",
        13 => "d",
        14 => "e",
        _ => "f",
    };
    proof {
        reveal_strlit("0");
        reveal_strlit("1");
        reveal_strlit("2");
        reveal_strlit("3");
        reveal_strlit("4");
        reveal_strlit("5");
        reveal_strlit("6");
        reveal_strlit("7");
        reveal_strlit("8");
        reveal_strlit("9");
        reveal_strlit("a");
        reveal_strlit("b");
        reveal_strlit("c");
        reveal_strlit("d");
        reveal_strlit("e");
        reveal_strlit("f");
        assert(r@ =~= seq![spec_hex_digit(d as int)]);
    }
    r
}

/// Appends the unpadded hexadecimal rendering of `v`.
fn append_hex(out: &mut String, v: u16)
    ensures
        final(out)@ == old(out)@ + spec_hex(v as nat),
    decreases v,
{
    if v >= 16 {
        append_hex(out, v / 16);
    }
    out.append(hex_digit_str((v % 16) as u8));
    proof {
        assert(out@ =~= old(out)@ + spec_hex(v as nat));
    }
}

/// Appends the hexadecimal rendering of `v`, zero-padded to `width`
/// digits.
fn append_hex_pad(out: &mut String, v: u16, width: u8)
    ensures
        final(out)@ == old(out)@ + spec_hex_pad(v as nat, width as nat),
    decreases width,
{
    if width > 0 {
        append_hex_pad(out, v / 16, width - 1);
        out.append(hex_digit_str((v % 16) as u8));
    }
    proof {
        assert(out@ =~= old(out)@ + spec_hex_pad(v as nat, width as nat));
    }
}

/// Appends the decimal rendering of `v`.
fn append_dec(out: &mut String, v: u8)
    ensures
        final(out)@ == old(out)@ + spec_dec(v as nat),
    decreases v,
{
    if v >= 10 {
        append_dec(out, v / 10);
    }
    out.append(hex_digit_str(v % 10));
    proof {
        assert(out@ =~= old(out)@ + spec_dec(v as nat));
    }
}

impl Chip8Error {
    /// The error as human-readable text.
    pub fn message(&self) -> (r: String)
        ensures
            r@ == spec_message(*self),
    {
        match self {
            Chip8Error::InvalidBitIndex(n) => {
                let mut out = String::from_str("Invalid byte bit index: ");
                append_dec(&mut out, *n);
                proof {
                    assert(out@ =~= spec_message(*self));
                }
                out
            },
            Chip8Error::OutOfBounds(MemoryAccess::Read, address) => {
                let mut out = String::from_str("Read at invalid memory address: 0x");
                append_hex(&mut out, *address);
                proof {
                    assert(out@ =~= spec_message(*self));
                }
                out
            },
            Chip8Error::OutOfBounds(MemoryAccess::Write, address) => {
                let mut out = String::from_str("Write at invalid memory address: 0x");
                append_hex(&mut out, *address);
                proof {
                    assert(out@ =~= spec_message(*self));
                }
                out
            },
            Chip8Error::UnrecognizedInstruction(word) => {
                let mut out = String::from_str("Unrecognized instruction: 0x");
                append_hex_pad(&mut out, *word, 4);
                proof {
                    assert(out@ =~= spec_message(*self));
                }
                out
            },
            Chip8Error::EmptyStack => String::from_str("No address on the stack to return to."),
            Chip8Error::InvalidRegisterRange(start, end) => {
                let mut out = String::from_str("Invalid register range: ");
                out.append("V");
                out.append(hex_digit_str(if *start < 16 {
                    *start
                } else {
                    15
                }));
                out.append(" - ");
                out.append("V");
                out.append(hex_digit_str(if *end < 16 {
                    *end
                } else {
                    15
                }));
                proof {
                    reveal_strlit("V");
                    assert("V"@ =~= seq!['V']);
                    assert(out@ =~= spec_message(*self));
                }
                out
            },
            Chip8Error::InvalidPosition(x, y) => {
                let mut out = if *x >= 64 {
                    String::from_str("Screen position x value is too large: Position { x: ")
                } else {
                    String::from_str("Screen position y value is too large: Position { x: ")
                };
                append_dec(&mut out, *x);
                out.append(", y: ");
                append_dec(&mut out, *y);
                out.append(" }");
                proof {
                    assert(out@ =~= spec_message(*self));
                }
                out
            },
            Chip8Error::UnrecognizedKey(key_id) => {
                let mut out = String::from_str("Unrecognized key id: 0x");
                append_hex_pad(&mut out, *key_id as u16, 2);
                proof {
                    assert(out@ =~= spec_message(*self));
                }
                out
            },
        }
    }
}

} // verus!
