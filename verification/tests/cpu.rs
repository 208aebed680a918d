use chip8_interpreter::cpu::{default_font, ScreenChanged, CPU, FONT_ADDRESS, ROM_ADDRESS};
use chip8_interpreter::error::Chip8Error;
use chip8_interpreter::instruction::{Instruction, Register};
use chip8_interpreter::screen::{Pixel, Position};
use chip8_interpreter::views::{InputKey, InputState, Inputs};

#[test]
fn cpu_load_default_font() {
    let mut cpu = CPU::default();

    assert_eq!(Ok(0x00), cpu.ram.read_byte(FONT_ADDRESS));

    assert_eq!(Ok(()), cpu.load_default_font());

    let font = default_font();
    assert_eq!(80, font.len());
    for i in 0..80 {
        assert_eq!(Ok(font[i]), cpu.ram.read_byte(FONT_ADDRESS + (i as u16)));
    }
}

#[test]
fn cpu_dump_load_registers() {
    let mut cpu = CPU::default();
    let keys = Inputs::default();

    assert_eq!(
        Ok(ScreenChanged::NoChange),
        cpu.execute(&Instruction::SetRegister(Register::V1, 48), 0, &keys)
    );

    assert_eq!(
        Ok(ScreenChanged::NoChange),
        cpu.execute(&Instruction::SetIndexRegister(0x0400), 0, &keys)
    );

    assert_eq!(
        Ok(ScreenChanged::NoChange),
        cpu.execute(&Instruction::DumpRegisters(Register::V1), 0, &keys)
    );

    assert_eq!(
        Ok(ScreenChanged::NoChange),
        cpu.execute(&Instruction::SetIndexRegister(0x0401), 0, &keys)
    );

    assert_eq!(
        Ok(ScreenChanged::NoChange),
        cpu.execute(&Instruction::LoadRegisters(Register::V0), 0, &keys)
    );

    assert_eq!(Ok(0), cpu.ram.read_byte(0x0400));
    assert_eq!(Ok(48), cpu.ram.read_byte(0x0401));

    assert_eq!(48, cpu.get_register(&Register::V1));
    assert_eq!(48, cpu.get_register(&Register::V0));
}

#[test]
fn cpu_overflow_instructions() {
    let mut cpu = CPU::default();
    let keys = Inputs::default();

    // 0xFF + 0x01 wraps to 0x00 and sets the carry flag.
    cpu.execute(&Instruction::SetRegister(Register::V1, 0xFF), 0, &keys)
        .unwrap();
    cpu.execute(&Instruction::SetRegister(Register::V2, 0x01), 0, &keys)
        .unwrap();
    cpu.execute(
        &Instruction::IncrementByRegister(Register::V1, Register::V2),
        0,
        &keys,
    )
    .unwrap();
    assert_eq!(0x00, cpu.get_register(&Register::V1));
    assert_eq!(1, cpu.get_register(&Register::Vf));

    // 0x01 - 0x02 wraps to 0xFF and clears the no-borrow flag.
    cpu.execute(&Instruction::SetRegister(Register::V3, 0x01), 0, &keys)
        .unwrap();
    cpu.execute(&Instruction::SetRegister(Register::V4, 0x02), 0, &keys)
        .unwrap();
    cpu.execute(
        &Instruction::DecrementByRegister(Register::V3, Register::V4),
        0,
        &keys,
    )
    .unwrap();
    assert_eq!(0xFF, cpu.get_register(&Register::V3));
    assert_eq!(0, cpu.get_register(&Register::Vf));
}

#[test]
fn cpu_increment_register_wraps_without_flag() {
    let mut cpu = CPU::default();
    let keys = Inputs::default();

    cpu.execute(&Instruction::SetRegister(Register::Vf, 7), 0, &keys)
        .unwrap();
    cpu.execute(&Instruction::SetRegister(Register::V1, 0xFF), 0, &keys)
        .unwrap();
    cpu.execute(&Instruction::IncrementRegister(Register::V1, 2), 0, &keys)
        .unwrap();
    assert_eq!(0x01, cpu.get_register(&Register::V1));
    assert_eq!(7, cpu.get_register(&Register::Vf));
}

#[test]
fn cpu_shifts_report_shifted_out_bits() {
    let mut cpu = CPU::default();
    let keys = Inputs::default();

    cpu.execute(&Instruction::SetRegister(Register::V1, 0b1000_0001), 0, &keys)
        .unwrap();
    cpu.execute(&Instruction::RightShift(Register::V1), 0, &keys)
        .unwrap();
    assert_eq!(0b0100_0000, cpu.get_register(&Register::V1));
    assert_eq!(1, cpu.get_register(&Register::Vf));

    cpu.execute(&Instruction::SetRegister(Register::V2, 0b1000_0001), 0, &keys)
        .unwrap();
    cpu.execute(&Instruction::LeftShift(Register::V2), 0, &keys)
        .unwrap();
    assert_eq!(0b0000_0010, cpu.get_register(&Register::V2));
    assert_eq!(1, cpu.get_register(&Register::Vf));
}

#[test]
fn cpu_step_runs_a_small_program() {
    let mut cpu = CPU::default();
    let keys = Inputs::default();

    // 0x6123: set V1 = 0x23; 0xA22A: index = 0x22A.
    cpu.load_rom(&[0x61, 0x23, 0xA2, 0x2A]).unwrap();
    cpu.initialize_program_counter();

    assert_eq!(Ok(ScreenChanged::NoChange), cpu.step(0, &keys));
    assert_eq!(0x23, cpu.get_register(&Register::V1));

    assert_eq!(Ok(ScreenChanged::NoChange), cpu.step(0, &keys));

    // After two steps the program counter has advanced past both words;
    // memory past the program is zero and 0x0000 does not decode.
    assert_eq!(
        Err(Chip8Error::UnrecognizedInstruction(0x0000)),
        cpu.step(0, &keys)
    );
}

#[test]
fn cpu_jump_call_and_return() {
    let mut cpu = CPU::default();
    let keys = Inputs::default();

    cpu.initialize_program_counter();
    cpu.execute(&Instruction::Call(0x0300), 0, &keys).unwrap();
    // The return address pushed is the already-advanced counter.
    cpu.execute(&Instruction::Return(), 0, &keys).unwrap();

    // Run a jump and check it lands where a fetch would read next.
    cpu.execute(&Instruction::Jump(ROM_ADDRESS), 0, &keys).unwrap();
    cpu.load_rom(&[0x00, 0xE0]).unwrap();
    assert_eq!(Ok(ScreenChanged::Changed), cpu.step(0, &keys));
}

#[test]
fn cpu_return_on_empty_stack_fails() {
    let mut cpu = CPU::default();
    let keys = Inputs::default();

    let result = cpu.execute(&Instruction::Return(), 0, &keys);
    assert_eq!(Err(Chip8Error::EmptyStack), result);
    assert_eq!(
        "No address on the stack to return to.".to_string(),
        result.unwrap_err().message()
    );
}

#[test]
fn cpu_random_masks_the_supplied_byte() {
    let mut cpu = CPU::default();
    let keys = Inputs::default();

    cpu.execute(&Instruction::SetRandomAnd(Register::V1, 0x0F), 0xAB, &keys)
        .unwrap();
    assert_eq!(0x0B, cpu.get_register(&Register::V1));
}

#[test]
fn cpu_timers_round_trip() {
    let mut cpu = CPU::default();
    let keys = Inputs::default();

    cpu.execute(&Instruction::SetRegister(Register::V1, 42), 0, &keys)
        .unwrap();
    cpu.execute(&Instruction::SetDelayTimer(Register::V1), 0, &keys)
        .unwrap();
    cpu.execute(&Instruction::GetDelayTimer(Register::V2), 0, &keys)
        .unwrap();
    assert_eq!(42, cpu.get_register(&Register::V2));

    cpu.execute(&Instruction::SetSoundTimer(Register::V1), 0, &keys)
        .unwrap();
}

#[test]
fn cpu_skip_if_not_pressed() {
    let mut cpu = CPU::default();

    let mut keys = Inputs::default();
    keys.set_input(&InputKey::Eight, InputState::Pressed);

    cpu.load_rom(&[0x68, 0x08, 0xE8, 0xA1, 0x68, 0x08, 0xE8, 0xA1]).unwrap();
    cpu.initialize_program_counter();

    // V8 = 8, then skip-if-not-pressed on a pressed key: no skip.
    cpu.step(0, &keys).unwrap();
    cpu.step(0, &keys).unwrap();
    cpu.step(0, &keys).unwrap();

    keys.set_input(&InputKey::Eight, InputState::NotPressed);
    // Now the key is up, so the skip is taken and the next fetch reads 0x0000.
    cpu.step(0, &keys).unwrap();
    assert_eq!(
        Err(Chip8Error::UnrecognizedInstruction(0x0000)),
        cpu.step(0, &keys)
    );
}

#[test]
fn cpu_get_font_character_addresses_glyphs() {
    let mut cpu = CPU::default();
    let keys = Inputs::default();
    cpu.load_default_font().unwrap();

    cpu.execute(&Instruction::SetRegister(Register::V1, 0x0A), 0, &keys)
        .unwrap();
    cpu.execute(&Instruction::GetFontCharacter(Register::V1), 0, &keys)
        .unwrap();
    // The glyph for 0xA starts 10 glyphs of 5 bytes past the base.
    assert_eq!(Ok(0xF0), cpu.ram.read_byte(FONT_ADDRESS + 50));

    // Drawing from the index register paints that glyph's pixels.
    cpu.execute(
        &Instruction::DrawSprite(Register::V3, Register::V4, 5),
        0,
        &keys,
    )
    .unwrap();
    assert_eq!(Ok(Pixel::On), cpu.screen.get_value(&Position::new(0, 0)));
    assert_eq!(Ok(Pixel::On), cpu.screen.get_value(&Position::new(3, 1)));
    assert_eq!(Ok(Pixel::Off), cpu.screen.get_value(&Position::new(1, 1)));
}

#[test]
fn cpu_store_bin_coded_dec() {
    let mut cpu = CPU::default();
    let keys = Inputs::default();

    cpu.execute(&Instruction::SetRegister(Register::V1, 234), 0, &keys)
        .unwrap();
    cpu.execute(&Instruction::SetIndexRegister(0x0400), 0, &keys)
        .unwrap();
    cpu.execute(&Instruction::StoreBinCodedDec(Register::V1), 0, &keys)
        .unwrap();
    assert_eq!(Ok(2), cpu.ram.read_byte(0x0400));
    assert_eq!(Ok(3), cpu.ram.read_byte(0x0401));
    assert_eq!(Ok(4), cpu.ram.read_byte(0x0402));
}

#[test]
fn cpu_draw_sprite_sets_collision_flag() {
    let mut cpu = CPU::default();
    let keys = Inputs::default();

    // One sprite row, all eight bits set, drawn twice at the origin.
    cpu.ram.write_byte(0x0300, 0xFF).unwrap();
    cpu.execute(&Instruction::SetIndexRegister(0x0300), 0, &keys)
        .unwrap();

    let first = cpu.execute(
        &Instruction::DrawSprite(Register::V1, Register::V2, 1),
        0,
        &keys,
    );
    assert_eq!(Ok(ScreenChanged::Changed), first);
    assert_eq!(0, cpu.get_register(&Register::Vf));
    assert_eq!(
        Ok(Pixel::On),
        cpu.screen.get_value(&Position::new(0, 0))
    );

    let second = cpu.execute(
        &Instruction::DrawSprite(Register::V1, Register::V2, 1),
        0,
        &keys,
    );
    assert_eq!(Ok(ScreenChanged::Changed), second);
    assert_eq!(1, cpu.get_register(&Register::Vf));
    assert_eq!(
        Ok(Pixel::Off),
        cpu.screen.get_value(&Position::new(0, 0))
    );
}

#[test]
fn cpu_conditional_skips() {
    let mut cpu = CPU::default();
    let keys = Inputs::default();

    // V1 = 5; skip-if-equal 5 skips the jump that would loop forever.
    cpu.load_rom(&[0x61, 0x05, 0x31, 0x05, 0x12, 0x00, 0x62, 0x07]).unwrap();
    cpu.initialize_program_counter();

    cpu.step(0, &keys).unwrap();
    cpu.step(0, &keys).unwrap();
    cpu.step(0, &keys).unwrap();
    assert_eq!(7, cpu.get_register(&Register::V2));
}
