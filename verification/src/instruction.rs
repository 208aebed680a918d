//! Decoding of raw 16-bit words into typed instruction values.

use vstd::prelude::*;

use crate::bit_operations;
use crate::bit_operations::{
    spec_first_nibble, spec_fourth_nibble, spec_last_three_nibbles, spec_last_two_nibbles,
    spec_second_nibble, spec_third_nibble,
};
use crate::error::Chip8Error;
use crate::ram::Address;

verus! {

/// Every instruction occupies two bytes of memory.
pub const INSTRUCTION_SIZE_BYTES: u16 = 2;

/// The sixteen general-purpose 8-bit registers.  `Vf` doubles as the
/// flags register: arithmetic, shift and draw instructions write their
/// carry, borrow or collision bit into it.
#[derive(Clone, Copy, Debug, Eq, PartialEq, Structural)]
pub enum Register {
    V0,
    V1,
    V2,
    V3,
    V4,
    V5,
    V6,
    V7,
    V8,
    V9,
    Va,
    Vb,
    Vc,
    Vd,
    Ve,
    Vf,
}

/// The numeric index of a register, 0 through 15.
pub open spec fn spec_register_index(register: Register) -> int {
    match register {
        Register::V0 => 0,
        Register::V1 => 1,
        Register::V2 => 2,
        Register::V3 => 3,
        Register::V4 => 4,
        Register::V5 => 5,
        Register::V6 => 6,
        Register::V7 => 7,
        Register::V8 => 8,
        Register::V9 => 9,
        Register::Va => 10,
        Register::Vb => 11,
        Register::Vc => 12,
        Register::Vd => 13,
        Register::Ve => 14,
        Register::Vf => 15,
    }
}

/// The register with the given numeric index; indices at or past 16 name
/// the last register.
pub open spec fn spec_register_from_index(index: int) -> Register {
    if index == 0 {
        Register::V0
    } else if index == 1 {
        Register::V1
    } else if index == 2 {
        Register::V2
    } else if index == 3 {
        Register::V3
    } else if index == 4 {
        Register::V4
    } else if index == 5 {
        Register::V5
    } else if index == 6 {
        Register::V6
    } else if index == 7 {
        Register::V7
    } else if index == 8 {
        Register::V8
    } else if index == 9 {
        Register::V9
    } else if index == 10 {
        Register::Va
    } else if index == 11 {
        Register::Vb
    } else if index == 12 {
        Register::Vc
    } else if index == 13 {
        Register::Vd
    } else if index == 14 {
        Register::Ve
    } else {
        Register::Vf
    }
}

/// One decoded instruction: an operation together with its operands,
/// extracted from a 16-bit word.
#[derive(Clone, Debug, Eq, PartialEq, Structural)]
pub enum Instruction {
    ClearDisplay(),                             // 0x00E0
    Return(),                                   // 0x00EE
    Jump(Address),                              // 0x1NNN
    Call(Address),                              // 0x2NNN
    JumpIfEqValue(Register, u8),                // 0x3XNN
    JumpIfNotEqValue(Register, u8),             // 0x4XNN
    JumpIfRegistersEq(Register, Register),      // 0x5XY0
    SetRegister(Register, u8),                  // 0x6XNN
    IncrementRegister(Register, u8),            // 0x7XNN
    CopyRegister(Register, Register),           // 0x8XY0
    BitwiseOr(Register, Register),              // 0x8XY1
    BitwiseAnd(Register, Register),             // 0x8XY2
    BitwiseXor(Register, Register),             // 0x8XY3
    IncrementByRegister(Register, Register),    // 0x8XY4
    DecrementByRegister(Register, Register),    // 0x8XY5
    RightShift(Register),                       // 0x8XY6
    DecrementByRegisterRev(Register, Register), // 0x8XY7
    LeftShift(Register),                        // 0x8XYE
    JumpIfRegistersNotEq(Register, Register),   // 0x9XY0
    SetIndexRegister(Address),                  // 0xANNN
    SetRandomAnd(Register, u8),                 // 0xCXNN
    DrawSprite(Register, Register, u8),         // 0xDXYN
    SkipIfNotPressed(Register),                 // 0xEXA1
    GetDelayTimer(Register),                    // 0xFX07
    SetDelayTimer(Register),                    // 0xFX15
    SetSoundTimer(Register),                    // 0xFX18
    IncrementIndexByRegister(Register),         // 0xFX1E
    GetFontCharacter(Register),                 // 0xFX29
    StoreBinCodedDec(Register),                 // 0xFX33
    DumpRegisters(Register),                    // 0xFX55
    LoadRegisters(Register),                    // 0xFX65
}

/// The fixed opcode table: what a 16-bit word decodes to, if anything.
/// Decoding is a total function of the word alone, so equal words always
/// decode to the same instruction or fail alike.
pub open spec fn spec_decode(bytes: u16) -> Option<Instruction> {
    let address = spec_last_three_nibbles(bytes);
    let value = spec_last_two_nibbles(bytes);
    match (
        spec_first_nibble(bytes),
        spec_second_nibble(bytes),
        spec_third_nibble(bytes),
        spec_fourth_nibble(bytes),
    ) {
        (0x0, 0x0, 0xE, 0x0) => Some(Instruction::ClearDisplay()),
        (0x0, 0x0, 0xE, 0xE) => Some(Instruction::Return()),
        (0x1, _, _, _) => Some(Instruction::Jump(address)),
        (0x2, _, _, _) => Some(Instruction::Call(address)),
        (0x3, a, _, _) => Some(
            Instruction::JumpIfEqValue(spec_register_from_index(a as int), value),
        ),
        (0x4, a, _, _) => Some(
            Instruction::JumpIfNotEqValue(spec_register_from_index(a as int), value),
        ),
        (0x5, a, b, 0x0) => Some(
            Instruction::JumpIfRegistersEq(
                spec_register_from_index(a as int),
                spec_register_from_index(b as int),
            ),
        ),
        (0x6, a, _, _) => Some(Instruction::SetRegister(spec_register_from_index(a as int), value)),
        (0x7, a, _, _) => Some(
            Instruction::IncrementRegister(spec_register_from_index(a as int), value),
        ),
        (0x8, a, b, 0x0) => Some(
            Instruction::CopyRegister(
                spec_register_from_index(a as int),
                spec_register_from_index(b as int),
            ),
        ),
        (0x8, a, b, 0x1) => Some(
            Instruction::BitwiseOr(
                spec_register_from_index(a as int),
                spec_register_from_index(b as int),
            ),
        ),
        (0x8, a, b, 0x2) => Some(
            Instruction::BitwiseAnd(
                spec_register_from_index(a as int),
                spec_register_from_index(b as int),
            ),
        ),
        (0x8, a, b, 0x3) => Some(
            Instruction::BitwiseXor(
                spec_register_from_index(a as int),
                spec_register_from_index(b as int),
            ),
        ),
        (0x8, a, b, 0x4) => Some(
            Instruction::IncrementByRegister(
                spec_register_from_index(a as int),
                spec_register_from_index(b as int),
            ),
        ),
        (0x8, a, b, 0x5) => Some(
            Instruction::DecrementByRegister(
                spec_register_from_index(a as int),
                spec_register_from_index(b as int),
            ),
        ),
        (0x8, a, _, 0x6) => Some(Instruction::RightShift(spec_register_from_index(a as int))),
        (0x8, a, b, 0x7) => Some(
            Instruction::DecrementByRegisterRev(
                spec_register_from_index(a as int),
                spec_register_from_index(b as int),
            ),
        ),
        (0x8, a, _, 0xE) => Some(Instruction::LeftShift(spec_register_from_index(a as int))),
        (0x9, a, b, 0x0) => Some(
            Instruction::JumpIfRegistersNotEq(
                spec_register_from_index(a as int),
                spec_register_from_index(b as int),
            ),
        ),
        (0xA, _, _, _) => Some(Instruction::SetIndexRegister(address)),
        (0xC, a, _, _) => Some(
            Instruction::SetRandomAnd(spec_register_from_index(a as int), value),
        ),
        (0xD, a, b, c) => Some(
            Instruction::DrawSprite(
                spec_register_from_index(a as int),
                spec_register_from_index(b as int),
                c,
            ),
        ),
        (0xE, a, 0xA, 0x1) => Some(
            Instruction::SkipIfNotPressed(spec_register_from_index(a as int)),
        ),
        (0xF, a, 0x0, 0x7) => Some(Instruction::GetDelayTimer(spec_register_from_index(a as int))),
        (0xF, a, 0x1, 0x5) => Some(Instruction::SetDelayTimer(spec_register_from_index(a as int))),
        (0xF, a, 0x1, 0x8) => Some(Instruction::SetSoundTimer(spec_register_from_index(a as int))),
        (0xF, a, 0x1, 0xE) => Some(
            Instruction::IncrementIndexByRegister(spec_register_from_index(a as int)),
        ),
        (0xF, a, 0x2, 0x9) => Some(
            Instruction::GetFontCharacter(spec_register_from_index(a as int)),
        ),
        (0xF, a, 0x3, 0x3) => Some(
            Instruction::StoreBinCodedDec(spec_register_from_index(a as int)),
        ),
        (0xF, a, 0x5, 0x5) => Some(Instruction::DumpRegisters(spec_register_from_index(a as int))),
        (0xF, a, 0x6, 0x5) => Some(Instruction::LoadRegisters(spec_register_from_index(a as int))),
        _ => None,
    }
}

/// What decoding a word returns: the decoded instruction, or the word
/// itself wrapped in an error when no pattern matches.
pub open spec fn spec_decode_result(bytes: u16) -> Result<Instruction, Chip8Error> {
    match spec_decode(bytes) {
        Some(instruction) => Ok(instruction),
        None => Err(Chip8Error::UnrecognizedInstruction(bytes)),
    }
}

impl Instruction {
    /// Decodes a raw 16-bit word by splitting it into nibbles and
    /// matching them against the opcode table.
    pub fn from_u16(bytes: u16) -> (r: Result<Instruction, Chip8Error>)
        ensures
            r == spec_decode_result(bytes),
    {
        match bit_operations::break_into_nibbles(bytes) {
            (0x0, 0x0, 0xE, 0x0) => Ok(Instruction::ClearDisplay()),
            (0x0, 0x0, 0xE, 0xE) => Ok(Instruction::Return()),
            (0x1, _, _, _) => {
                let address = Instruction::get_address(bytes);
                Ok(Instruction::Jump(address))
            },
            (0x2, _, _, _) => {
                let address = Instruction::get_address(bytes);
                Ok(Instruction::Call(address))
            },
            (0x3, a, _, _) => {
                let register = Register::from_nibble(a);
                let value = Instruction::get_value(bytes);

                Ok(Instruction::JumpIfEqValue(register, value))
            },
            (0x4, a, _, _) => {
                let register = Register::from_nibble(a);
                let value = Instruction::get_value(bytes);

                Ok(Instruction::JumpIfNotEqValue(register, value))
            },
            (0x5, a, b, 0x0) => {
                let first_register = Register::from_nibble(a);
                let second_register = Register::from_nibble(b);

                Ok(Instruction::JumpIfRegistersEq(first_register, second_register))
            },
            (0x6, a, _, _) => {
                let register = Register::from_nibble(a);
                let value = Instruction::get_value(bytes);

                Ok(Instruction::SetRegister(register, value))
            },
            (0x7, a, _, _) => {
                let register = Register::from_nibble(a);
                let value = Instruction::get_value(bytes);

                Ok(Instruction::IncrementRegister(register, value))
            },
            (0x8, a, b, 0x0) => {
                let first_register = Register::from_nibble(a);
                let second_register = Register::from_nibble(b);

                Ok(Instruction::CopyRegister(first_register, second_register))
            },
            (0x8, a, b, 0x1) => {
                let first_register = Register::from_nibble(a);
                let second_register = Register::from_nibble(b);

                Ok(Instruction::BitwiseOr(first_register, second_register))
            },
            (0x8, a, b, 0x2) => {
                let first_register = Register::from_nibble(a);
                let second_register = Register::from_nibble(b);

                Ok(Instruction::BitwiseAnd(first_register, second_register))
            },
            (0x8, a, b, 0x3) => {
                let first_register = Register::from_nibble(a);
                let second_register = Register::from_nibble(b);

                Ok(Instruction::BitwiseXor(first_register, second_register))
            },
            (0x8, a, b, 0x4) => {
                let first_register = Register::from_nibble(a);
                let second_register = Register::from_nibble(b);

                Ok(Instruction::IncrementByRegister(first_register, second_register))
            },
            (0x8, a, b, 0x5) => {
                let first_register = Register::from_nibble(a);
                let second_register = Register::from_nibble(b);

                Ok(Instruction::DecrementByRegister(first_register, second_register))
            },
            (0x8, a, _, 0x6) => {
                let register = Register::from_nibble(a);

                Ok(Instruction::RightShift(register))
            },
            (0x8, a, b, 0x7) => {
                let first_register = Register::from_nibble(a);
                let second_register = Register::from_nibble(b);

                Ok(Instruction::DecrementByRegisterRev(first_register, second_register))
            },
            (0x8, a, _, 0xE) => {
                let register = Register::from_nibble(a);

                Ok(Instruction::LeftShift(register))
            },
            (0x9, a, b, 0x0) => {
                let first_register = Register::from_nibble(a);
                let second_register = Register::from_nibble(b);

                Ok(Instruction::JumpIfRegistersNotEq(first_register, second_register))
            },
            (0xA, _, _, _) => {
                let address = Instruction::get_address(bytes);
                Ok(Instruction::SetIndexRegister(address))
            },
            (0xC, a, _, _) => {
                let register = Register::from_nibble(a);
                let value = Instruction::get_value(bytes);

                Ok(Instruction::SetRandomAnd(register, value))
            },
            (0xD, a, b, c) => {
                let x_register = Register::from_nibble(a);
                let y_register = Register::from_nibble(b);
                let height = c;

                Ok(Instruction::DrawSprite(x_register, y_register, height))
            },
            (0xE, a, 0xA, 0x1) => {
                let register = Register::from_nibble(a);

                Ok(Instruction::SkipIfNotPressed(register))
            },
            (0xF, a, 0x0, 0x7) => {
                let register = Register::from_nibble(a);

                Ok(Instruction::GetDelayTimer(register))
            },
            (0xF, a, 0x1, 0x5) => {
                let register = Register::from_nibble(a);

                Ok(Instruction::SetDelayTimer(register))
            },
            (0xF, a, 0x1, 0x8) => {
                let register = Register::from_nibble(a);

                Ok(Instruction::SetSoundTimer(register))
            },
            (0xF, a, 0x1, 0xE) => {
                let register = Register::from_nibble(a);

                Ok(Instruction::IncrementIndexByRegister(register))
            },
            (0xF, a, 0x2, 0x9) => {
                let register = Register::from_nibble(a);

                Ok(Instruction::GetFontCharacter(register))
            },
            (0xF, a, 0x3, 0x3) => {
                let register = Register::from_nibble(a);

                Ok(Instruction::StoreBinCodedDec(register))
            },
            (0xF, a, 0x5, 0x5) => {
                let register = Register::from_nibble(a);

                Ok(Instruction::DumpRegisters(register))
            },
            (0xF, a, 0x6, 0x5) => {
                let register = Register::from_nibble(a);

                Ok(Instruction::LoadRegisters(register))
            },
            _ => Err(Chip8Error::UnrecognizedInstruction(bytes)),
        }
    }

    /// The low 12 bits of an instruction word, as a memory address.
    fn get_address(bytes: u16) -> (r: Address)
        ensures
            r == spec_last_three_nibbles(bytes),
    {
        bit_operations::get_last_three_nibbles(bytes)
    }

    /// The low byte of an instruction word, as an immediate operand.
    fn get_value(bytes: u16) -> (r: u8)
        ensures
            r == spec_last_two_nibbles(bytes),
    {
        bit_operations::get_last_two_nibbles(bytes)
    }
}

impl Register {
    /// The register named by a nibble.
    pub fn from_nibble(nibble: u8) -> (r: Register)
        requires
            nibble < 16,
        ensures
            r == spec_register_from_index(nibble as int),
            spec_register_index(r) == nibble,
    {
        match nibble {
            0x0 => Register::V0,
            0x1 => Register::V1,
            0x2 => Register::V2,
            0x3 => Register::V3,
            0x4 => Register::V4,
            0x5 => Register::V5,
            0x6 => Register::V6,
            0x7 => Register::V7,
            0x8 => Register::V8,
            0x9 => Register::V9,
            0xA => Register::Va,
            0xB => Register::Vb,
            0xC => Register::Vc,
            0xD => Register::Vd,
            0xE => Register::Ve,
            _ => Register::Vf,
        }
    }

    /// The nibble naming this register.
    pub fn to_nibble(self) -> (r: u8)
        ensures
            r == spec_register_index(self),
    {
        match self {
            Register::V0 => 0x0,
            Register::V1 => 0x1,
            Register::V2 => 0x2,
            Register::V3 => 0x3,
            Register::V4 => 0x4,
            Register::V5 => 0x5,
            Register::V6 => 0x6,
            Register::V7 => 0x7,
            Register::V8 => 0x8,
            Register::V9 => 0x9,
            Register::Va => 0xA,
            Register::Vb => 0xB,
            Register::Vc => 0xC,
            Register::Vd => 0xD,
            Register::Ve => 0xE,
            Register::Vf => 0xF,
        }
    }

    /// The run of registers from `start` through `end` inclusive, in
    /// index order; fails when `end` precedes `start`.
    pub fn inclusive_range(start: &Register, end: &Register) -> (r: Result<
        Vec<Register>,
        Chip8Error,
    >)
        ensures
            spec_register_index(*start) <= spec_register_index(*end) ==> (r matches Ok(v)
                && v@.len() == spec_register_index(*end) - spec_register_index(*start) + 1
                && (forall|j: int|
                0 <= j < v@.len() ==> v@[j] == spec_register_from_index(
                    spec_register_index(*start) + j,
                ))),
            spec_register_index(*start) > spec_register_index(*end) ==> r == Err::<
                Vec<Register>,
                Chip8Error,
            >(
                Chip8Error::InvalidRegisterRange(
                    spec_register_index(*start) as u8,
                    spec_register_index(*end) as u8,
                ),
            ),
    {
        let start_nibble = start.to_nibble();
        let end_nibble = end.to_nibble();

        if end_nibble < start_nibble {
            return Err(Chip8Error::InvalidRegisterRange(start_nibble, end_nibble));
        }

        let mut registers: Vec<Register> = Vec::new();
        let count = end_nibble - start_nibble + 1;
        let mut i: u8 = 0;
        while i < count
            invariant
                start_nibble == spec_register_index(*start),
                end_nibble == spec_register_index(*end),
                start_nibble <= end_nibble < 16,
                count == end_nibble - start_nibble + 1,
                0 <= i <= count,
                registers@.len() == i as int,
                forall|j: int|
                    0 <= j < i ==> registers@[j] == spec_register_from_index(start_nibble + j),
            decreases count - i,
        {
            registers.push(Register::from_nibble(start_nibble + i));
            i = i + 1;
        }

        Ok(registers)
    }
}

} // verus!
