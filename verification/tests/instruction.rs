use chip8_interpreter::error::Chip8Error;
use chip8_interpreter::instruction::Instruction::{
    BitwiseAnd, BitwiseOr, BitwiseXor, Call, ClearDisplay, CopyRegister, DecrementByRegister,
    DecrementByRegisterRev, DrawSprite, DumpRegisters, GetDelayTimer, GetFontCharacter,
    IncrementByRegister, IncrementIndexByRegister, IncrementRegister, Jump, JumpIfEqValue,
    JumpIfNotEqValue, JumpIfRegistersEq, JumpIfRegistersNotEq, LeftShift, LoadRegisters, Return,
    RightShift, SetDelayTimer, SetIndexRegister, SetRandomAnd, SetRegister, SetSoundTimer,
    SkipIfNotPressed, StoreBinCodedDec,
};
use chip8_interpreter::instruction::Register::V1;
use chip8_interpreter::instruction::{Instruction, Register};

#[test]
fn instruction_from_u16() {
    assert_eq!(Ok(ClearDisplay()), Instruction::from_u16(0x00E0));
    assert_eq!(Ok(Return()), Instruction::from_u16(0x00EE));
    assert_eq!(Ok(Jump(0x0123)), Instruction::from_u16(0x1123));
    assert_eq!(Ok(Call(0x0123)), Instruction::from_u16(0x2123));
    assert_eq!(
        Ok(JumpIfEqValue(Register::V2, 0x12)),
        Instruction::from_u16(0x3212)
    );
    assert_eq!(
        Ok(JumpIfNotEqValue(Register::V2, 0x12)),
        Instruction::from_u16(0x4212)
    );
    assert_eq!(
        Ok(JumpIfRegistersEq(Register::V2, Register::V3)),
        Instruction::from_u16(0x5230)
    );
    assert_eq!(Ok(SetRegister(V1, 0x23)), Instruction::from_u16(0x6123));
    assert_eq!(
        Ok(IncrementRegister(Register::V4, 0x12)),
        Instruction::from_u16(0x7412)
    );
    assert_eq!(
        Ok(CopyRegister(Register::V5, Register::V6)),
        Instruction::from_u16(0x8560)
    );
    assert_eq!(
        Ok(BitwiseOr(Register::V7, Register::V8)),
        Instruction::from_u16(0x8781)
    );
    assert_eq!(
        Ok(BitwiseAnd(Register::V9, Register::Va)),
        Instruction::from_u16(0x89A2)
    );
    assert_eq!(
        Ok(BitwiseXor(Register::Vb, Register::Vc)),
        Instruction::from_u16(0x8BC3)
    );
    assert_eq!(
        Ok(IncrementByRegister(Register::Vd, Register::Ve)),
        Instruction::from_u16(0x8DE4)
    );
    assert_eq!(
        Ok(DecrementByRegister(Register::Vf, Register::Ve)),
        Instruction::from_u16(0x8FE5)
    );
    assert_eq!(Ok(RightShift(Register::V1)), Instruction::from_u16(0x8106));
    assert_eq!(
        Ok(DecrementByRegisterRev(Register::V1, Register::V2)),
        Instruction::from_u16(0x8127)
    );
    assert_eq!(Ok(LeftShift(Register::V1)), Instruction::from_u16(0x810E));
    assert_eq!(
        Ok(JumpIfRegistersNotEq(Register::V1, Register::V2)),
        Instruction::from_u16(0x9120)
    );
    assert_eq!(Ok(SetIndexRegister(0x22A)), Instruction::from_u16(0xA22A));
    assert_eq!(
        Ok(SetRandomAnd(Register::V1, 0x23)),
        Instruction::from_u16(0xC123)
    );
    assert_eq!(
        Ok(DrawSprite(Register::V1, Register::V2, 0x03)),
        Instruction::from_u16(0xD123)
    );
    assert_eq!(
        Ok(SkipIfNotPressed(Register::V1)),
        Instruction::from_u16(0xE1A1)
    );
    assert_eq!(
        Ok(GetDelayTimer(Register::V1)),
        Instruction::from_u16(0xF107)
    );
    assert_eq!(
        Ok(SetDelayTimer(Register::V1)),
        Instruction::from_u16(0xF115)
    );
    assert_eq!(
        Ok(SetSoundTimer(Register::V1)),
        Instruction::from_u16(0xF118)
    );
    assert_eq!(
        Ok(IncrementIndexByRegister(Register::V1)),
        Instruction::from_u16(0xF11E)
    );
    assert_eq!(
        Ok(GetFontCharacter(Register::V1)),
        Instruction::from_u16(0xF129)
    );
    assert_eq!(
        Ok(StoreBinCodedDec(Register::V1)),
        Instruction::from_u16(0xF133)
    );
    assert_eq!(
        Ok(DumpRegisters(Register::V1)),
        Instruction::from_u16(0xF155)
    );
    assert_eq!(
        Ok(LoadRegisters(Register::V1)),
        Instruction::from_u16(0xF165)
    );
}

#[test]
fn instruction_decode_scenario() {
    assert_eq!(
        Ok(Instruction::ClearDisplay()),
        Instruction::from_u16(0x00E0)
    );
    assert_eq!(
        Ok(Instruction::SetIndexRegister(0x22A)),
        Instruction::from_u16(0xA22A)
    );
    assert_eq!(
        Ok(Instruction::SetRegister(Register::V1, 0x23)),
        Instruction::from_u16(0x6123)
    );
    assert_eq!(
        Ok(Instruction::DrawSprite(Register::V1, Register::V2, 3)),
        Instruction::from_u16(0xD123)
    );
    let unrecognized = Instruction::from_u16(0xFFFF);
    assert_eq!(
        Err(Chip8Error::UnrecognizedInstruction(0xFFFF)),
        unrecognized
    );
    assert_eq!(
        "Unrecognized instruction: 0xffff".to_string(),
        unrecognized.unwrap_err().message()
    );
}

#[test]
fn instruction_decode_is_deterministic() {
    for word in [0x00E0u16, 0x00EE, 0x1234, 0x8AB4, 0xFFFF, 0x5231, 0xE19E] {
        assert_eq!(Instruction::from_u16(word), Instruction::from_u16(word));
    }
}

#[test]
fn register_inclusive_range_orders_and_rejects() {
    let range = Register::inclusive_range(&Register::V0, &Register::V2).unwrap();
    assert_eq!(vec![Register::V0, Register::V1, Register::V2], range);

    let single = Register::inclusive_range(&Register::V5, &Register::V5).unwrap();
    assert_eq!(vec![Register::V5], single);

    let bad = Register::inclusive_range(&Register::V2, &Register::V1);
    assert_eq!(Err(Chip8Error::InvalidRegisterRange(2, 1)), bad);
    assert_eq!(
        "Invalid register range: V2 - V1".to_string(),
        bad.unwrap_err().message()
    );
}
