//! The CPU: registers, memory, display, and the fetch-decode-execute
//! pipeline with every opcode's semantics.

use vstd::prelude::*;

use crate::error::{Chip8Error, MemoryAccess};
use crate::instruction::{
    spec_decode, spec_decode_result, spec_register_index, Instruction, Register,
    INSTRUCTION_SIZE_BYTES,
};
use crate::ram;
use crate::ram::{
    spec_fail_address, spec_overwrite, spec_read_sprite, spec_read_u16, spec_write_bytes, Address,
};
use crate::screen::{
    spec_blank_grid, spec_collision, spec_draw, AnyPixelsUnset, Position, Screen,
};
use crate::views::{spec_get_input, InputState, Inputs};

verus! {

broadcast use crate::ram::lemma_ram_view_len;

/// The memory address where the built-in font is loaded.
pub const FONT_ADDRESS: Address = 0x0050;

/// The memory address where program images are loaded and where the
/// program counter starts.
pub const ROM_ADDRESS: Address = 0x0200;

/// The built-in font: sixteen 5-byte glyphs for the hexadecimal digits,
/// 80 bytes in all.
pub open spec fn spec_default_font() -> Seq<u8> {
    seq![
        0xF0u8, 0x90, 0x90, 0x90, 0xF0, // 0
        0x20, 0x60, 0x20, 0x20, 0x70, // 1
        0xF0, 0x10, 0xF0, 0x80, 0xF0, // 2
        0xF0, 0x10, 0xF0, 0x10, 0xF0, // 3
        0x90, 0x90, 0xF0, 0x10, 0x10, // 4
        0xF0, 0x80, 0xF0, 0x10, 0xF0, // 5
        0xF0, 0x80, 0xF0, 0x90, 0xF0, // 6
        0xF0, 0x10, 0x20, 0x40, 0x40, // 7
        0xF0, 0x90, 0xF0, 0x90, 0xF0, // 8
        0xF0, 0x90, 0xF0, 0x10, 0xF0, // 9
        0xF0, 0x90, 0xF0, 0x90, 0x90, // A
        0xE0, 0x90, 0xE0, 0x90, 0xE0, // B
        0xF0, 0x80, 0x80, 0x80, 0xF0, // C
        0xE0, 0x90, 0x90, 0x90, 0xE0, // D
        0xF0, 0x80, 0xF0, 0x80, 0xF0, // E
        0xF0, 0x80, 0xF0, 0x80, 0x80, // F
    ]
}

/// The built-in font as bytes ready to be written into memory.
pub fn default_font() -> (r: Vec<u8>)
    ensures
        r@ == spec_default_font(),
{
    let mut font: Vec<u8> = Vec::new();
    font.push(0xF0);
    font.push(0x90);
    font.push(0x90);
    font.push(0x90);
    font.push(0xF0);
    font.push(0x20);
    font.push(0x60);
    font.push(0x20);
    font.push(0x20);
    font.push(0x70);
    font.push(0xF0);
    font.push(0x10);
    font.push(0xF0);
    font.push(0x80);
    font.push(0xF0);
    font.push(0xF0);
    font.push(0x10);
    font.push(0xF0);
    font.push(0x10);
    font.push(0xF0);
    font.push(0x90);
    font.push(0x90);
    font.push(0xF0);
    font.push(0x10);
    font.push(0x10);
    font.push(0xF0);
    font.push(0x80);
    font.push(0xF0);
    font.push(0x10);
    font.push(0xF0);
    font.push(0xF0);
    font.push(0x80);
    font.push(0xF0);
    font.push(0x90);
    font.push(0xF0);
    font.push(0xF0);
    font.push(0x10);
    font.push(0x20);
    font.push(0x40);
    font.push(0x40);
    font.push(0xF0);
    font.push(0x90);
    font.push(0xF0);
    font.push(0x90);
    font.push(0xF0);
    font.push(0xF0);
    font.push(0x90);
    font.push(0xF0);
    font.push(0x10);
    font.push(0xF0);
    font.push(0xF0);
    font.push(0x90);
    font.push(0xF0);
    font.push(0x90);
    font.push(0x90);
    font.push(0xE0);
    font.push(0x90);
    font.push(0xE0);
    font.push(0x90);
    font.push(0xE0);
    font.push(0xF0);
    font.push(0x80);
    font.push(0x80);
    font.push(0x80);
    font.push(0xF0);
    font.push(0xE0);
    font.push(0x90);
    font.push(0x90);
    font.push(0x90);
    font.push(0xE0);
    font.push(0xF0);
    font.push(0x80);
    font.push(0xF0);
    font.push(0x80);
    font.push(0xF0);
    font.push(0xF0);
    font.push(0x80);
    font.push(0xF0);
    font.push(0x80);
    font.push(0x80);
    proof {
        assert(font@ =~= spec_default_font());
    }
    font
}

/// Whether a step changed the display, so the host can avoid redundant
/// redraws.
#[derive(Clone, Copy, Debug, Eq, PartialEq, Structural)]
pub enum ScreenChanged {
    Changed,
    NoChange,
}

/// The mathematical state of the whole machine: memory and register
/// contents, program counter, index register, call stack, the two
/// timers, and the pixel grid.
#[verifier::ext_equal]
pub ghost struct CpuView {
    pub mem: Seq<u8>,
    pub regs: Seq<u8>,
    pub pc: u16,
    pub index: u16,
    pub stack: Seq<u16>,
    pub delay: u8,
    pub sound: u8,
    pub screen: Seq<Seq<bool>>,
}

/// The machine state at power-on: everything zeroed, the stack empty,
/// the screen blank.
pub open spec fn spec_initial_cpu() -> CpuView {
    CpuView {
        mem: Seq::new(4096, |i: int| 0u8),
        regs: Seq::new(16, |i: int| 0u8),
        pc: 0,
        index: 0,
        stack: Seq::empty(),
        delay: 0,
        sound: 0,
        screen: spec_blank_grid(),
    }
}

/// The value of one general-purpose register.
pub open spec fn spec_reg(s: CpuView, register: Register) -> u8 {
    s.regs[spec_register_index(register)]
}

/// The register bank with one register overwritten.
pub open spec fn spec_set_reg(regs: Seq<u8>, register: Register, value: u8) -> Seq<u8> {
    regs.update(spec_register_index(register), value)
}

/// The program counter after a conditional skip: two further bytes when
/// the condition holds.
pub open spec fn spec_skip_pc(pc: u16, condition: bool) -> u16 {
    if condition {
        (pc + 2) as u16
    } else {
        pc
    }
}

/// The register bank after registers 0 through `upto - 1` have been
/// reloaded from memory starting at `base`; a register whose source
/// address falls out of bounds keeps its old value, as the load stops at
/// the first failure.
pub open spec fn spec_loaded_regs(regs: Seq<u8>, mem: Seq<u8>, base: u16, upto: int) -> Seq<u8> {
    Seq::new(
        regs.len(),
        |j: int|
            if 0 <= j < upto && base + j < 4096 {
                mem[base + j]
            } else {
                regs[j]
            },
    )
}

/// What executing one decoded instruction does to the machine state, and
/// what the caller is told.  The program counter has already advanced by
/// two before the instruction's own effect, so jumps, calls and returns
/// overwrite that advance, and a call pushes the already-advanced
/// counter.  On an error the advance and any partial effect remain.
pub open spec fn spec_cpu_execute(
    pre: CpuView,
    instruction: Instruction,
    random_byte: u8,
    keys: Inputs,
) -> (CpuView, Result<ScreenChanged, Chip8Error>) {
    let s = CpuView { pc: (pre.pc + 2) as u16, ..pre };
    match instruction {
        Instruction::ClearDisplay() => (
            CpuView { screen: spec_blank_grid(), ..s },
            Ok(ScreenChanged::Changed),
        ),
        Instruction::Return() => if s.stack.len() == 0 {
            (s, Err(Chip8Error::EmptyStack))
        } else {
            (
                CpuView { pc: s.stack.last(), stack: s.stack.drop_last(), ..s },
                Ok(ScreenChanged::NoChange),
            )
        },
        Instruction::Jump(address) => (CpuView { pc: address, ..s }, Ok(ScreenChanged::NoChange)),
        Instruction::Call(address) => (
            CpuView { stack: s.stack.push(s.pc), pc: address, ..s },
            Ok(ScreenChanged::NoChange),
        ),
        Instruction::JumpIfEqValue(register, value) => (
            CpuView { pc: spec_skip_pc(s.pc, spec_reg(s, register) == value), ..s },
            Ok(ScreenChanged::NoChange),
        ),
        Instruction::JumpIfNotEqValue(register, value) => (
            CpuView { pc: spec_skip_pc(s.pc, spec_reg(s, register) != value), ..s },
            Ok(ScreenChanged::NoChange),
        ),
        Instruction::JumpIfRegistersEq(first, second) => (
            CpuView { pc: spec_skip_pc(s.pc, spec_reg(s, first) == spec_reg(s, second)), ..s },
            Ok(ScreenChanged::NoChange),
        ),
        Instruction::SetRegister(register, value) => (
            CpuView { regs: spec_set_reg(s.regs, register, value), ..s },
            Ok(ScreenChanged::NoChange),
        ),
        Instruction::IncrementRegister(register, increment) => {
            // 8-bit wraparound, and no flag side effect.
            let sum = spec_reg(s, register) + increment;
            let value = if sum > 255 {
                (sum - 256) as u8
            } else {
                sum as u8
            };
            (
                CpuView { regs: spec_set_reg(s.regs, register, value), ..s },
                Ok(ScreenChanged::NoChange),
            )
        },
        Instruction::CopyRegister(first, second) => (
            CpuView { regs: spec_set_reg(s.regs, first, spec_reg(s, second)), ..s },
            Ok(ScreenChanged::NoChange),
        ),
        Instruction::BitwiseOr(first, second) => (
            CpuView {
                regs: spec_set_reg(s.regs, first, spec_reg(s, first) | spec_reg(s, second)),
                ..s
            },
            Ok(ScreenChanged::NoChange),
        ),
        Instruction::BitwiseAnd(first, second) => (
            CpuView {
                regs: spec_set_reg(s.regs, first, spec_reg(s, first) & spec_reg(s, second)),
                ..s
            },
            Ok(ScreenChanged::NoChange),
        ),
        Instruction::BitwiseXor(first, second) => (
            CpuView {
                regs: spec_set_reg(s.regs, first, spec_reg(s, first) ^ spec_reg(s, second)),
                ..s
            },
            Ok(ScreenChanged::NoChange),
        ),
        Instruction::IncrementByRegister(first, second) => {
            // The flags register reports the carry out of the 8-bit sum,
            // after the destination register is written.
            let sum = spec_reg(s, first) + spec_reg(s, second);
            let value = if sum > 255 {
                (sum - 256) as u8
            } else {
                sum as u8
            };
            let carry: u8 = if sum > 255 {
                1
            } else {
                0
            };
            (
                CpuView { regs: spec_set_reg(s.regs, first, value).update(15, carry), ..s },
                Ok(ScreenChanged::NoChange),
            )
        },
        Instruction::DecrementByRegister(first, second) => {
            // The flags register is 1 exactly when NO borrow occurs.
            let difference = spec_reg(s, first) - spec_reg(s, second);
            let value = if difference < 0 {
                (difference + 256) as u8
            } else {
                difference as u8
            };
            let no_borrow: u8 = if difference < 0 {
                0
            } else {
                1
            };
            (
                CpuView { regs: spec_set_reg(s.regs, first, value).update(15, no_borrow), ..s },
                Ok(ScreenChanged::NoChange),
            )
        },
        Instruction::RightShift(register) => {
            // The flags register receives the bit shifted out.
            let a = spec_reg(s, register);
            (
                CpuView { regs: spec_set_reg(s.regs, register, a >> 1).update(15, a & 1), ..s },
                Ok(ScreenChanged::NoChange),
            )
        },
        Instruction::DecrementByRegisterRev(first, second) => {
            let difference = spec_reg(s, second) - spec_reg(s, first);
            let value = if difference < 0 {
                (difference + 256) as u8
            } else {
                difference as u8
            };
            let no_borrow: u8 = if difference < 0 {
                0
            } else {
                1
            };
            (
                CpuView { regs: spec_set_reg(s.regs, first, value).update(15, no_borrow), ..s },
                Ok(ScreenChanged::NoChange),
            )
        },
        Instruction::LeftShift(register) => {
            let a = spec_reg(s, register);
            (
                CpuView {
                    regs: spec_set_reg(s.regs, register, a << 1).update(15, (a & 0x80) >> 7),
                    ..s
                },
                Ok(ScreenChanged::NoChange),
            )
        },
        Instruction::JumpIfRegistersNotEq(first, second) => (
            CpuView { pc: spec_skip_pc(s.pc, spec_reg(s, first) != spec_reg(s, second)), ..s },
            Ok(ScreenChanged::NoChange),
        ),
        Instruction::SetIndexRegister(address) => (
            CpuView { index: address, ..s },
            Ok(ScreenChanged::NoChange),
        ),
        Instruction::SetRandomAnd(register, value) => (
            CpuView { regs: spec_set_reg(s.regs, register, random_byte & value), ..s },
            Ok(ScreenChanged::NoChange),
        ),
        Instruction::DrawSprite(x_register, y_register, height) => {
            match spec_read_sprite(s.mem, s.index, height) {
                Err(e) => (s, Err(e)),
                Ok(rows) => {
                    let x = spec_reg(s, x_register) as int;
                    let y = spec_reg(s, y_register) as int;
                    let collided: u8 = if spec_collision(s.screen, x, y, rows) {
                        1
                    } else {
                        0
                    };
                    (
                        CpuView {
                            screen: spec_draw(s.screen, x, y, rows),
                            regs: s.regs.update(15, collided),
                            ..s
                        },
                        Ok(ScreenChanged::Changed),
                    )
                },
            }
        },
        Instruction::SkipIfNotPressed(register) => {
            match spec_get_input(keys, spec_reg(s, register)) {
                Err(e) => (s, Err(e)),
                Ok(InputState::NotPressed) => (
                    CpuView { pc: (s.pc + 2) as u16, ..s },
                    Ok(ScreenChanged::NoChange),
                ),
                Ok(InputState::Pressed) => (s, Ok(ScreenChanged::NoChange)),
            }
        },
        Instruction::GetDelayTimer(register) => (
            CpuView { regs: spec_set_reg(s.regs, register, s.delay), ..s },
            Ok(ScreenChanged::NoChange),
        ),
        Instruction::SetDelayTimer(register) => (
            CpuView { delay: spec_reg(s, register), ..s },
            Ok(ScreenChanged::NoChange),
        ),
        Instruction::SetSoundTimer(register) => (
            CpuView { sound: spec_reg(s, register), ..s },
            Ok(ScreenChanged::NoChange),
        ),
        Instruction::IncrementIndexByRegister(register) => (
            CpuView { index: (s.index + spec_reg(s, register)) as u16, ..s },
            Ok(ScreenChanged::NoChange),
        ),
        Instruction::GetFontCharacter(register) => (
            CpuView { index: (FONT_ADDRESS + spec_reg(s, register) * 5) as u16, ..s },
            Ok(ScreenChanged::NoChange),
        ),
        Instruction::StoreBinCodedDec(register) => {
            let value = spec_reg(s, register);
            let digits = seq![value / 100, (value / 10) % 10, value % 10];
            let written = spec_write_bytes(s.mem, s.index, digits);
            (
                CpuView { mem: written.0, ..s },
                match written.1 {
                    Ok(()) => Ok(ScreenChanged::NoChange),
                    Err(e) => Err(e),
                },
            )
        },
        Instruction::DumpRegisters(last_register) => {
            let count = spec_register_index(last_register) + 1;
            let written = spec_write_bytes(s.mem, s.index, s.regs.take(count));
            (
                CpuView { mem: written.0, ..s },
                match written.1 {
                    Ok(()) => Ok(ScreenChanged::NoChange),
                    Err(e) => Err(e),
                },
            )
        },
        Instruction::LoadRegisters(last_register) => {
            let count = spec_register_index(last_register) + 1;
            let loaded = spec_loaded_regs(s.regs, s.mem, s.index, count);
            (
                CpuView { regs: loaded, ..s },
                if s.index + count <= 4096 {
                    Ok(ScreenChanged::NoChange)
                } else {
                    Err(Chip8Error::OutOfBounds(MemoryAccess::Read, spec_fail_address(s.index)))
                },
            )
        },
    }
}

/// The machine-limit side conditions under which executing `instruction`
/// performs no 16-bit overflow: the program counter can advance past the
/// instruction (and past a taken skip), and the index register can take
/// the requested increment.  Valid programs keep the program counter and
/// index register far below these limits.
pub open spec fn spec_execute_fits(pre: CpuView, instruction: Instruction, keys: Inputs) -> bool {
    let s = CpuView { pc: (pre.pc + 2) as u16, ..pre };
    &&& pre.pc + 2 <= u16::MAX
    &&& match instruction {
        Instruction::JumpIfEqValue(register, value) => spec_reg(s, register) == value ==> pre.pc + 4
            <= u16::MAX,
        Instruction::JumpIfNotEqValue(register, value) => spec_reg(s, register) != value ==> pre.pc
            + 4 <= u16::MAX,
        Instruction::JumpIfRegistersEq(first, second) => spec_reg(s, first) == spec_reg(s, second)
            ==> pre.pc + 4 <= u16::MAX,
        Instruction::JumpIfRegistersNotEq(first, second) => spec_reg(s, first) != spec_reg(
            s,
            second,
        ) ==> pre.pc + 4 <= u16::MAX,
        Instruction::SkipIfNotPressed(register) => spec_get_input(keys, spec_reg(s, register))
            == Ok::<InputState, Chip8Error>(InputState::NotPressed) ==> pre.pc + 4 <= u16::MAX,
        Instruction::IncrementIndexByRegister(register) => pre.index + spec_reg(s, register)
            <= u16::MAX,
        _ => true,
    }
}

/// That executing `instruction` from state `pre` leaves state `post`
/// and reports `r`, exactly as the transition function prescribes.
pub open spec fn spec_execute_post(
    pre: CpuView,
    instruction: Instruction,
    random_byte: u8,
    keys: Inputs,
    post: CpuView,
    r: Result<ScreenChanged, Chip8Error>,
) -> bool {
    post == spec_cpu_execute(pre, instruction, random_byte, keys).0 && r == spec_cpu_execute(
        pre,
        instruction,
        random_byte,
        keys,
    ).1
}

/// What one whole step does: fetch the word at the program counter,
/// decode it, and execute it.  A failed fetch or decode leaves the state
/// untouched.
pub open spec fn spec_cpu_step(pre: CpuView, random_byte: u8, keys: Inputs) -> (CpuView, Result<
    ScreenChanged,
    Chip8Error,
>) {
    match spec_read_u16(pre.mem, pre.pc) {
        Err(e) => (pre, Err(e)),
        Ok(word) => match spec_decode(word) {
            None => (pre, Err(Chip8Error::UnrecognizedInstruction(word))),
            Some(instruction) => spec_cpu_execute(pre, instruction, random_byte, keys),
        },
    }
}

/// The machine-limit side condition under which a whole step performs no
/// 16-bit overflow.  A successful fetch already bounds the program
/// counter, so only the index-increment instruction is constrained.
pub open spec fn spec_step_fits(pre: CpuView, keys: Inputs) -> bool {
    match spec_read_u16(pre.mem, pre.pc) {
        Err(_) => true,
        Ok(word) => match spec_decode(word) {
            None => true,
            Some(instruction) => spec_execute_fits(pre, instruction, keys),
        },
    }
}

/// The CPU's registers: the sixteen general-purpose lanes as an
/// indexable bank, the program counter, the index register, the call
/// stack, and the two countdown timers.
#[derive(Debug, Eq, PartialEq)]
struct Registers {
    program_counter: Address,
    index_register: Address,
    stack: Vec<u16>,
    delay_timer: u8,
    sound_timer: u8,
    v: [u8; 16],
}

impl Registers {
    /// Overwrites one general-purpose register.
    fn set_register(&mut self, register: &Register, value: u8)
        ensures
            final(self).v@ == old(self).v@.update(spec_register_index(*register), value),
            final(self).program_counter == old(self).program_counter,
            final(self).index_register == old(self).index_register,
            final(self).stack == old(self).stack,
            final(self).delay_timer == old(self).delay_timer,
            final(self).sound_timer == old(self).sound_timer,
    {
        let index = register.to_nibble() as usize;
        self.v[index] = value;
    }

    /// Reads one general-purpose register.
    fn get_register(&self, register: &Register) -> (r: u8)
        ensures
            r == self.v@[spec_register_index(*register)],
    {
        let index = register.to_nibble() as usize;
        self.v[index]
    }
}

/// The whole machine.  The CPU owns its memory and display exclusively;
/// the display is exposed to the rendering collaborator read-only
/// through `Screen`'s accessors.
#[derive(Debug, Eq, PartialEq)]
pub struct CPU {
    registers: Registers,
    pub ram: ram::RAM,
    pub screen: Screen,
}

impl View for CPU {
    type V = CpuView;

    closed spec fn view(&self) -> CpuView {
        CpuView {
            mem: self.ram@,
            regs: self.registers.v@,
            pc: self.registers.program_counter,
            index: self.registers.index_register,
            stack: self.registers.stack@,
            delay: self.registers.delay_timer,
            sound: self.registers.sound_timer,
            screen: self.screen@,
        }
    }
}

impl Default for CPU {
    /// A powered-on machine: memory, registers and timers zeroed, the
    /// stack empty, the screen blank.
    fn default() -> (r: Self)
        ensures
            r@ == spec_initial_cpu(),
    {
        let cpu = CPU {
            registers: Registers {
                program_counter: 0,
                index_register: 0,
                stack: Vec::new(),
                delay_timer: 0,
                sound_timer: 0,
                v: [0u8; 16],
            },
            ram: ram::RAM::default(),
            screen: Screen::default(),
        };
        proof {
            vstd::array::axiom_spec_array_fill_for_copy_type::<u8, 16>(0u8);
            assert(cpu@ =~~= spec_initial_cpu());
        }
        cpu
    }
}

impl CPU {
    /// Writes the built-in font at its fixed base address.  The font
    /// always fits, so this succeeds, and afterwards the 80 bytes from
    /// the font base address hold the glyph table exactly.
    pub fn load_default_font(&mut self) -> (r: Result<(), Chip8Error>)
        ensures
            r == Ok::<(), Chip8Error>(()),
            final(self)@ == (CpuView {
                mem: spec_overwrite(old(self)@.mem, FONT_ADDRESS as int, spec_default_font()),
                ..old(self)@
            }),
            final(self)@.mem.subrange(
                FONT_ADDRESS as int,
                FONT_ADDRESS + 80,
            ) == spec_default_font(),
    {
        let font = default_font();
        let result = self.ram.write_bytes(FONT_ADDRESS, font.as_slice());
        proof {
            assert(spec_default_font().take(80) =~= spec_default_font());
            assert(self@ =~~= (CpuView {
                mem: spec_overwrite(old(self)@.mem, FONT_ADDRESS as int, spec_default_font()),
                ..old(self)@
            }));
            assert(self@.mem.subrange(FONT_ADDRESS as int, FONT_ADDRESS + 80)
                =~= spec_default_font());
        }
        result
    }

    /// Writes a program image at the fixed load address.  Bytes that
    /// would overrun memory abort the load with the failure, the bytes
    /// before it staying written.
    pub fn load_rom(&mut self, rom: &[u8]) -> (r: Result<(), Chip8Error>)
        ensures
            final(self)@ == (CpuView {
                mem: spec_write_bytes(old(self)@.mem, ROM_ADDRESS, rom@).0,
                ..old(self)@
            }),
            r == spec_write_bytes(old(self)@.mem, ROM_ADDRESS, rom@).1,
    {
        let result = self.ram.write_bytes(ROM_ADDRESS, rom);
        proof {
            assert(self@ =~~= (CpuView {
                mem: spec_write_bytes(old(self)@.mem, ROM_ADDRESS, rom@).0,
                ..old(self)@
            }));
        }
        result
    }

    /// Points the program counter at the program load address.
    pub fn initialize_program_counter(&mut self)
        ensures
            final(self)@ == (CpuView { pc: ROM_ADDRESS, ..old(self)@ }),
    {
        self.registers.program_counter = ROM_ADDRESS;
        proof {
            assert(self@ =~~= (CpuView { pc: ROM_ADDRESS, ..old(self)@ }));
        }
    }

    /// The value of one general-purpose register.
    pub fn get_register(&self, register: &Register) -> (r: u8)
        ensures
            r == spec_reg(self@, *register),
    {
        self.registers.get_register(register)
    }

    /// Advances the machine by exactly one instruction: fetch at the
    /// program counter, decode, execute.  The host supplies the entropy
    /// for the random instruction and the key snapshot for the
    /// key-conditional skip.
    pub fn step(&mut self, random_byte: u8, keys: &Inputs) -> (r: Result<ScreenChanged, Chip8Error>)
        requires
            spec_step_fits(old(self)@, *keys),
        ensures
            final(self)@ == spec_cpu_step(old(self)@, random_byte, *keys).0,
            r == spec_cpu_step(old(self)@, random_byte, *keys).1,
    {
        let fetched = self.fetch();
        match fetched {
            Err(e) => Err(e),
            Ok(instruction_bytes) => {
                let decoded = self.decode(instruction_bytes);
                match decoded {
                    Err(e) => Err(e),
                    Ok(instruction) => self.execute(&instruction, random_byte, keys),
                }
            },
        }
    }

    /// Reads the two instruction bytes at the program counter.
    pub fn fetch(&self) -> (r: Result<u16, Chip8Error>)
        ensures
            r == spec_read_u16(self@.mem, self@.pc),
    {
        self.ram.read_u16(self.registers.program_counter)
    }

    /// Decodes a raw instruction word.
    pub fn decode(&self, instruction_bytes: u16) -> (r: Result<Instruction, Chip8Error>)
        ensures
            r == spec_decode_result(instruction_bytes),
    {
        Instruction::from_u16(instruction_bytes)
    }

    /// Executes one decoded instruction against the machine state,
    /// dispatching to the handler that holds that opcode's semantics.
    #[verifier::rlimit(100)]
    pub fn execute(&mut self, instruction: &Instruction, random_byte: u8, keys: &Inputs) -> (r:
        Result<ScreenChanged, Chip8Error>)
        requires
            spec_execute_fits(old(self)@, *instruction, *keys),
        ensures
            spec_execute_post(old(self)@, *instruction, random_byte, *keys, final(self)@, r),
    {
        match instruction {
            Instruction::ClearDisplay() => self.exec_clear_display(random_byte, keys),
            Instruction::Return() => self.exec_return_from_subroutine(random_byte, keys),
            Instruction::Jump(address) => self.exec_jump(*address, random_byte, keys),
            Instruction::Call(address) => self.exec_call(*address, random_byte, keys),
            Instruction::JumpIfEqValue(register, value) => self.exec_jump_if_eq_value(register, *value, random_byte, keys),
            Instruction::JumpIfNotEqValue(register, value) => self.exec_jump_if_not_eq_value(register, *value, random_byte, keys),
            Instruction::JumpIfRegistersEq(first, second) => self.exec_jump_if_registers_eq(first, second, random_byte, keys),
            Instruction::SetRegister(register, value) => self.exec_set_register(register, *value, random_byte, keys),
            _ => self.execute_arithmetic(instruction, random_byte, keys),
        }
    }

    /// Dispatches the register-arithmetic and bitwise opcode family.
    #[verifier::rlimit(100)]
    fn execute_arithmetic(&mut self, instruction: &Instruction, random_byte: u8, keys: &Inputs) -> (r:
        Result<ScreenChanged, Chip8Error>)
        requires
            spec_execute_fits(old(self)@, *instruction, *keys),
            !(*instruction is ClearDisplay),
            !(*instruction is Return),
            !(*instruction is Jump),
            !(*instruction is Call),
            !(*instruction is JumpIfEqValue),
            !(*instruction is JumpIfNotEqValue),
            !(*instruction is JumpIfRegistersEq),
            !(*instruction is SetRegister),
        ensures
            spec_execute_post(old(self)@, *instruction, random_byte, *keys, final(self)@, r),
    {
        match instruction {
            Instruction::IncrementRegister(register, increment) => self.exec_increment_register(register, *increment, random_byte, keys),
            Instruction::CopyRegister(first, second) => self.exec_copy_register(first, second, random_byte, keys),
            Instruction::BitwiseOr(first, second) => self.exec_bitwise_or(first, second, random_byte, keys),
            Instruction::BitwiseAnd(first, second) => self.exec_bitwise_and(first, second, random_byte, keys),
            Instruction::BitwiseXor(first, second) => self.exec_bitwise_xor(first, second, random_byte, keys),
            Instruction::IncrementByRegister(first, second) => self.exec_increment_by_register(first, second, random_byte, keys),
            Instruction::DecrementByRegister(first, second) => self.exec_decrement_by_register(first, second, random_byte, keys),
            Instruction::RightShift(register) => self.exec_right_shift(register, random_byte, keys),
            _ => self.execute_display_input(instruction, random_byte, keys),
        }
    }

    /// Dispatches the shift, draw, input and index opcode families.
    #[verifier::rlimit(100)]
    fn execute_display_input(&mut self, instruction: &Instruction, random_byte: u8, keys: &Inputs) -> (r:
        Result<ScreenChanged, Chip8Error>)
        requires
            spec_execute_fits(old(self)@, *instruction, *keys),
            !(*instruction is ClearDisplay),
            !(*instruction is Return),
            !(*instruction is Jump),
            !(*instruction is Call),
            !(*instruction is JumpIfEqValue),
            !(*instruction is JumpIfNotEqValue),
            !(*instruction is JumpIfRegistersEq),
            !(*instruction is SetRegister),
            !(*instruction is IncrementRegister),
            !(*instruction is CopyRegister),
            !(*instruction is BitwiseOr),
            !(*instruction is BitwiseAnd),
            !(*instruction is BitwiseXor),
            !(*instruction is IncrementByRegister),
            !(*instruction is DecrementByRegister),
            !(*instruction is RightShift),
        ensures
            spec_execute_post(old(self)@, *instruction, random_byte, *keys, final(self)@, r),
    {
        match instruction {
            Instruction::DecrementByRegisterRev(first, second) => self.exec_decrement_by_register_rev(first, second, random_byte, keys),
            Instruction::LeftShift(register) => self.exec_left_shift(register, random_byte, keys),
            Instruction::JumpIfRegistersNotEq(first, second) => self.exec_jump_if_registers_not_eq(first, second, random_byte, keys),
            Instruction::SetIndexRegister(address) => self.exec_set_index_register(*address, random_byte, keys),
            Instruction::SetRandomAnd(register, value) => self.exec_set_random_and(register, *value, random_byte, keys),
            Instruction::DrawSprite(x_register, y_register, height) => self.exec_draw_sprite(x_register, y_register, *height, random_byte, keys),
            Instruction::SkipIfNotPressed(register) => self.exec_skip_if_not_pressed(register, random_byte, keys),
            Instruction::GetDelayTimer(register) => self.exec_get_delay_timer(register, random_byte, keys),
            _ => self.execute_memory(instruction, random_byte, keys),
        }
    }

    /// Dispatches the timer and memory-block opcode families.
    #[verifier::rlimit(100)]
    fn execute_memory(&mut self, instruction: &Instruction, random_byte: u8, keys: &Inputs) -> (r:
        Result<ScreenChanged, Chip8Error>)
        requires
            spec_execute_fits(old(self)@, *instruction, *keys),
            !(*instruction is ClearDisplay),
            !(*instruction is Return),
            !(*instruction is Jump),
            !(*instruction is Call),
            !(*instruction is JumpIfEqValue),
            !(*instruction is JumpIfNotEqValue),
            !(*instruction is JumpIfRegistersEq),
            !(*instruction is SetRegister),
            !(*instruction is IncrementRegister),
            !(*instruction is CopyRegister),
            !(*instruction is BitwiseOr),
            !(*instruction is BitwiseAnd),
            !(*instruction is BitwiseXor),
            !(*instruction is IncrementByRegister),
            !(*instruction is DecrementByRegister),
            !(*instruction is RightShift),
            !(*instruction is DecrementByRegisterRev),
            !(*instruction is LeftShift),
            !(*instruction is JumpIfRegistersNotEq),
            !(*instruction is SetIndexRegister),
            !(*instruction is SetRandomAnd),
            !(*instruction is DrawSprite),
            !(*instruction is SkipIfNotPressed),
            !(*instruction is GetDelayTimer),
        ensures
            spec_execute_post(old(self)@, *instruction, random_byte, *keys, final(self)@, r),
    {
        match instruction {
            Instruction::SetDelayTimer(register) => self.exec_set_delay_timer(register, random_byte, keys),
            Instruction::SetSoundTimer(register) => self.exec_set_sound_timer(register, random_byte, keys),
            Instruction::IncrementIndexByRegister(register) => self.exec_increment_index_by_register(register, random_byte, keys),
            Instruction::GetFontCharacter(register) => self.exec_get_font_character(register, random_byte, keys),
            Instruction::StoreBinCodedDec(register) => self.exec_store_bin_coded_dec(register, random_byte, keys),
            Instruction::DumpRegisters(last_register) => self.exec_dump_registers(last_register, random_byte, keys),
            Instruction::LoadRegisters(last_register) => self.exec_load_registers(last_register, random_byte, keys),
            _ => {
                // Every opcode is dispatched by one of the four groups;
                // the exclusions in `requires` make this arm unreachable.
                proof {
                    assert(false);
                }
                Err(Chip8Error::EmptyStack)
            },
        }
    }

    /// Advances the program counter past the current instruction.
    fn advance_program_counter(&mut self)
        requires
            old(self)@.pc + 2 <= u16::MAX,
        ensures
            final(self)@ =~~= (CpuView { pc: (old(self)@.pc + 2) as u16, ..old(self)@ }),
    {
        self.registers.program_counter = self.registers.program_counter + INSTRUCTION_SIZE_BYTES;
    }

    fn exec_clear_display(&mut self, _random_byte: u8, _keys: &Inputs) -> (r: Result<
        ScreenChanged,
        Chip8Error,
    >)
        requires
            spec_execute_fits(old(self)@, Instruction::ClearDisplay(), *_keys),
        ensures
            spec_execute_post(old(self)@, Instruction::ClearDisplay(), _random_byte, *_keys, final(self)@, r),
    {
        self.advance_program_counter();
        self.screen.clear();
        Ok(ScreenChanged::Changed)
    }

    fn exec_return_from_subroutine(&mut self, _random_byte: u8, _keys: &Inputs) -> (r: Result<
        ScreenChanged,
        Chip8Error,
    >)
        requires
            spec_execute_fits(old(self)@, Instruction::Return(), *_keys),
        ensures
            spec_execute_post(old(self)@, Instruction::Return(), _random_byte, *_keys, final(self)@, r),
    {
        self.advance_program_counter();
        match self.registers.stack.pop() {
            Some(address) => {
                self.registers.program_counter = address;
                Ok(ScreenChanged::NoChange)
            },
            None => Err(Chip8Error::EmptyStack),
        }
    }

    fn exec_jump(&mut self, address: Address, _random_byte: u8, _keys: &Inputs) -> (r: Result<
        ScreenChanged,
        Chip8Error,
    >)
        requires
            spec_execute_fits(old(self)@, Instruction::Jump(address), *_keys),
        ensures
            spec_execute_post(old(self)@, Instruction::Jump(address), _random_byte, *_keys, final(self)@, r),
    {
        self.advance_program_counter();
        self.registers.program_counter = address;
        Ok(ScreenChanged::NoChange)
    }

    fn exec_call(&mut self, address: Address, _random_byte: u8, _keys: &Inputs) -> (r: Result<
        ScreenChanged,
        Chip8Error,
    >)
        requires
            spec_execute_fits(old(self)@, Instruction::Call(address), *_keys),
        ensures
            spec_execute_post(old(self)@, Instruction::Call(address), _random_byte, *_keys, final(self)@, r),
    {
        self.advance_program_counter();
        self.registers.stack.push(self.registers.program_counter);
        self.registers.program_counter = address;
        Ok(ScreenChanged::NoChange)
    }

    fn exec_jump_if_eq_value(&mut self, register: &Register, value: u8, _random_byte: u8, _keys: &Inputs) -> (r: Result<
        ScreenChanged,
        Chip8Error,
    >)
        requires
            spec_execute_fits(old(self)@, Instruction::JumpIfEqValue(*register, value), *_keys),
        ensures
            spec_execute_post(old(self)@, Instruction::JumpIfEqValue(*register, value), _random_byte, *_keys, final(self)@, r),
    {
        self.advance_program_counter();
        if self.registers.get_register(register) == value {
            self.registers.program_counter = self.registers.program_counter
                + INSTRUCTION_SIZE_BYTES;
        }
        Ok(ScreenChanged::NoChange)
    }

    fn exec_jump_if_not_eq_value(&mut self, register: &Register, value: u8, _random_byte: u8, _keys: &Inputs) -> (r: Result<
        ScreenChanged,
        Chip8Error,
    >)
        requires
            spec_execute_fits(old(self)@, Instruction::JumpIfNotEqValue(*register, value), *_keys),
        ensures
            spec_execute_post(old(self)@, Instruction::JumpIfNotEqValue(*register, value), _random_byte, *_keys, final(self)@, r),
    {
        self.advance_program_counter();
        if self.registers.get_register(register) != value {
            self.registers.program_counter = self.registers.program_counter
                + INSTRUCTION_SIZE_BYTES;
        }
        Ok(ScreenChanged::NoChange)
    }

    fn exec_jump_if_registers_eq(&mut self, first_register: &Register, second_register: &Register, _random_byte: u8, _keys: &Inputs) -> (r: Result<
        ScreenChanged,
        Chip8Error,
    >)
        requires
            spec_execute_fits(old(self)@, Instruction::JumpIfRegistersEq(*first_register, *second_register), *_keys),
        ensures
            spec_execute_post(old(self)@, Instruction::JumpIfRegistersEq(*first_register, *second_register), _random_byte, *_keys, final(self)@, r),
    {
        self.advance_program_counter();
        let a = self.registers.get_register(first_register);
        let b = self.registers.get_register(second_register);
        if a == b {
            self.registers.program_counter = self.registers.program_counter
                + INSTRUCTION_SIZE_BYTES;
        }
        Ok(ScreenChanged::NoChange)
    }

    fn exec_jump_if_registers_not_eq(&mut self, first_register: &Register, second_register: &Register, _random_byte: u8, _keys: &Inputs) -> (r: Result<
        ScreenChanged,
        Chip8Error,
    >)
        requires
            spec_execute_fits(old(self)@, Instruction::JumpIfRegistersNotEq(*first_register, *second_register), *_keys),
        ensures
            spec_execute_post(old(self)@, Instruction::JumpIfRegistersNotEq(*first_register, *second_register), _random_byte, *_keys, final(self)@, r),
    {
        self.advance_program_counter();
        let a = self.registers.get_register(first_register);
        let b = self.registers.get_register(second_register);
        if a != b {
            self.registers.program_counter = self.registers.program_counter
                + INSTRUCTION_SIZE_BYTES;
        }
        Ok(ScreenChanged::NoChange)
    }

    fn exec_set_register(&mut self, register: &Register, value: u8, _random_byte: u8, _keys: &Inputs) -> (r: Result<
        ScreenChanged,
        Chip8Error,
    >)
        requires
            spec_execute_fits(old(self)@, Instruction::SetRegister(*register, value), *_keys),
        ensures
            spec_execute_post(old(self)@, Instruction::SetRegister(*register, value), _random_byte, *_keys, final(self)@, r),
    {
        self.advance_program_counter();
        self.registers.set_register(register, value);
        Ok(ScreenChanged::NoChange)
    }

    fn exec_increment_register(&mut self, register: &Register, increment: u8, _random_byte: u8, _keys: &Inputs) -> (r: Result<
        ScreenChanged,
        Chip8Error,
    >)
        requires
            spec_execute_fits(old(self)@, Instruction::IncrementRegister(*register, increment), *_keys),
        ensures
            spec_execute_post(old(self)@, Instruction::IncrementRegister(*register, increment), _random_byte, *_keys, final(self)@, r),
    {
        self.advance_program_counter();
        let prev_value = self.registers.get_register(register);
        self.registers.set_register(register, prev_value.wrapping_add(increment));
        Ok(ScreenChanged::NoChange)
    }

    fn exec_copy_register(&mut self, first_register: &Register, second_register: &Register, _random_byte: u8, _keys: &Inputs) -> (r: Result<
        ScreenChanged,
        Chip8Error,
    >)
        requires
            spec_execute_fits(old(self)@, Instruction::CopyRegister(*first_register, *second_register), *_keys),
        ensures
            spec_execute_post(old(self)@, Instruction::CopyRegister(*first_register, *second_register), _random_byte, *_keys, final(self)@, r),
    {
        self.advance_program_counter();
        let value = self.registers.get_register(second_register);
        self.registers.set_register(first_register, value);
        Ok(ScreenChanged::NoChange)
    }

    fn exec_bitwise_or(&mut self, first_register: &Register, second_register: &Register, _random_byte: u8, _keys: &Inputs) -> (r: Result<
        ScreenChanged,
        Chip8Error,
    >)
        requires
            spec_execute_fits(old(self)@, Instruction::BitwiseOr(*first_register, *second_register), *_keys),
        ensures
            spec_execute_post(old(self)@, Instruction::BitwiseOr(*first_register, *second_register), _random_byte, *_keys, final(self)@, r),
    {
        self.advance_program_counter();
        let a = self.registers.get_register(first_register);
        let b = self.registers.get_register(second_register);
        self.registers.set_register(first_register, a | b);
        Ok(ScreenChanged::NoChange)
    }

    fn exec_bitwise_and(&mut self, first_register: &Register, second_register: &Register, _random_byte: u8, _keys: &Inputs) -> (r: Result<
        ScreenChanged,
        Chip8Error,
    >)
        requires
            spec_execute_fits(old(self)@, Instruction::BitwiseAnd(*first_register, *second_register), *_keys),
        ensures
            spec_execute_post(old(self)@, Instruction::BitwiseAnd(*first_register, *second_register), _random_byte, *_keys, final(self)@, r),
    {
        self.advance_program_counter();
        let a = self.registers.get_register(first_register);
        let b = self.registers.get_register(second_register);
        self.registers.set_register(first_register, a & b);
        Ok(ScreenChanged::NoChange)
    }

    fn exec_bitwise_xor(&mut self, first_register: &Register, second_register: &Register, _random_byte: u8, _keys: &Inputs) -> (r: Result<
        ScreenChanged,
        Chip8Error,
    >)
        requires
            spec_execute_fits(old(self)@, Instruction::BitwiseXor(*first_register, *second_register), *_keys),
        ensures
            spec_execute_post(old(self)@, Instruction::BitwiseXor(*first_register, *second_register), _random_byte, *_keys, final(self)@, r),
    {
        self.advance_program_counter();
        let a = self.registers.get_register(first_register);
        let b = self.registers.get_register(second_register);
        self.registers.set_register(first_register, a ^ b);
        Ok(ScreenChanged::NoChange)
    }

    fn exec_increment_by_register(&mut self, first_register: &Register, second_register: &Register, _random_byte: u8, _keys: &Inputs) -> (r: Result<
        ScreenChanged,
        Chip8Error,
    >)
        requires
            spec_execute_fits(old(self)@, Instruction::IncrementByRegister(*first_register, *second_register), *_keys),
        ensures
            spec_execute_post(old(self)@, Instruction::IncrementByRegister(*first_register, *second_register), _random_byte, *_keys, final(self)@, r),
    {
        self.advance_program_counter();
        let a = self.registers.get_register(first_register);
        let b = self.registers.get_register(second_register);

        let value = a.wrapping_add(b);
        let overflowed = (a as u16) + (b as u16) > 255;
        self.registers.set_register(first_register, value);

        let carry: u8 = match overflowed {
            true => 1,
            false => 0,
        };
        self.registers.set_register(&Register::Vf, carry);
        Ok(ScreenChanged::NoChange)
    }

    fn exec_decrement_by_register(&mut self, first_register: &Register, second_register: &Register, _random_byte: u8, _keys: &Inputs) -> (r: Result<
        ScreenChanged,
        Chip8Error,
    >)
        requires
            spec_execute_fits(old(self)@, Instruction::DecrementByRegister(*first_register, *second_register), *_keys),
        ensures
            spec_execute_post(old(self)@, Instruction::DecrementByRegister(*first_register, *second_register), _random_byte, *_keys, final(self)@, r),
    {
        self.advance_program_counter();
        let a = self.registers.get_register(first_register);
        let b = self.registers.get_register(second_register);

        let value = a.wrapping_sub(b);
        let borrowed = b > a;
        self.registers.set_register(first_register, value);

        let no_borrow: u8 = match borrowed {
            true => 0,
            false => 1,
        };
        self.registers.set_register(&Register::Vf, no_borrow);
        Ok(ScreenChanged::NoChange)
    }

    fn exec_right_shift(&mut self, register: &Register, _random_byte: u8, _keys: &Inputs) -> (r: Result<
        ScreenChanged,
        Chip8Error,
    >)
        requires
            spec_execute_fits(old(self)@, Instruction::RightShift(*register), *_keys),
        ensures
            spec_execute_post(old(self)@, Instruction::RightShift(*register), _random_byte, *_keys, final(self)@, r),
    {
        self.advance_program_counter();
        let a = self.registers.get_register(register);
        let value = a >> 1u8;
        let underflowed_bit = a & 0x01;

        self.registers.set_register(register, value);
        self.registers.set_register(&Register::Vf, underflowed_bit);
        Ok(ScreenChanged::NoChange)
    }

    fn exec_decrement_by_register_rev(&mut self, first_register: &Register, second_register: &Register, _random_byte: u8, _keys: &Inputs) -> (r: Result<
        ScreenChanged,
        Chip8Error,
    >)
        requires
            spec_execute_fits(old(self)@, Instruction::DecrementByRegisterRev(*first_register, *second_register), *_keys),
        ensures
            spec_execute_post(old(self)@, Instruction::DecrementByRegisterRev(*first_register, *second_register), _random_byte, *_keys, final(self)@, r),
    {
        self.advance_program_counter();
        let a = self.registers.get_register(first_register);
        let b = self.registers.get_register(second_register);

        let value = b.wrapping_sub(a);
        let borrowed = a > b;
        self.registers.set_register(first_register, value);

        let no_borrow: u8 = match borrowed {
            true => 0,
            false => 1,
        };
        self.registers.set_register(&Register::Vf, no_borrow);
        Ok(ScreenChanged::NoChange)
    }

    fn exec_left_shift(&mut self, register: &Register, _random_byte: u8, _keys: &Inputs) -> (r: Result<
        ScreenChanged,
        Chip8Error,
    >)
        requires
            spec_execute_fits(old(self)@, Instruction::LeftShift(*register), *_keys),
        ensures
            spec_execute_post(old(self)@, Instruction::LeftShift(*register), _random_byte, *_keys, final(self)@, r),
    {
        self.advance_program_counter();
        let a = self.registers.get_register(register);
        let value = a << 1u8;
        let overflowed_bit = (a & 0x80) >> 7u8;

        self.registers.set_register(register, value);
        self.registers.set_register(&Register::Vf, overflowed_bit);
        Ok(ScreenChanged::NoChange)
    }

    fn exec_set_index_register(&mut self, address: Address, _random_byte: u8, _keys: &Inputs) -> (r: Result<
        ScreenChanged,
        Chip8Error,
    >)
        requires
            spec_execute_fits(old(self)@, Instruction::SetIndexRegister(address), *_keys),
        ensures
            spec_execute_post(old(self)@, Instruction::SetIndexRegister(address), _random_byte, *_keys, final(self)@, r),
    {
        self.advance_program_counter();
        self.registers.index_register = address;
        Ok(ScreenChanged::NoChange)
    }

    fn exec_set_random_and(&mut self, register: &Register, value: u8, random_byte: u8, _keys: &Inputs) -> (r: Result<
        ScreenChanged,
        Chip8Error,
    >)
        requires
            spec_execute_fits(old(self)@, Instruction::SetRandomAnd(*register, value), *_keys),
        ensures
            spec_execute_post(old(self)@, Instruction::SetRandomAnd(*register, value), random_byte, *_keys, final(self)@, r),
    {
        self.advance_program_counter();
        self.registers.set_register(register, random_byte & value);
        Ok(ScreenChanged::NoChange)
    }

    fn exec_draw_sprite(&mut self, x_register: &Register, y_register: &Register, height: u8, _random_byte: u8, _keys: &Inputs) -> (r: Result<
        ScreenChanged,
        Chip8Error,
    >)
        requires
            spec_execute_fits(old(self)@, Instruction::DrawSprite(*x_register, *y_register, height), *_keys),
        ensures
            spec_execute_post(old(self)@, Instruction::DrawSprite(*x_register, *y_register, height), _random_byte, *_keys, final(self)@, r),
    {
        self.advance_program_counter();
        let x = self.registers.get_register(x_register);
        let y = self.registers.get_register(y_register);
        let position = Position::new(x, y);

        match self.ram.read_sprite(self.registers.index_register, height) {
            Err(e) => Err(e),
            Ok(sprite_bytes) => {
                let any_pixels_unset = match self.screen.draw_sprite(
                    &position,
                    sprite_bytes.as_slice(),
                ) {
                    Ok(a) => a,
                    Err(_) => AnyPixelsUnset::No,
                };
                let collided: u8 = match any_pixels_unset {
                    AnyPixelsUnset::Yes => 1,
                    AnyPixelsUnset::No => 0,
                };
                self.registers.set_register(&Register::Vf, collided);
                Ok(ScreenChanged::Changed)
            },
        }
    }

    fn exec_skip_if_not_pressed(&mut self, register: &Register, _random_byte: u8, keys: &Inputs) -> (r: Result<
        ScreenChanged,
        Chip8Error,
    >)
        requires
            spec_execute_fits(old(self)@, Instruction::SkipIfNotPressed(*register), *keys),
        ensures
            spec_execute_post(old(self)@, Instruction::SkipIfNotPressed(*register), _random_byte, *keys, final(self)@, r),
    {
        self.advance_program_counter();
        let key_id = self.registers.get_register(register);
        match keys.get_input(key_id) {
            Err(e) => Err(e),
            Ok(InputState::NotPressed) => {
                self.registers.program_counter = self.registers.program_counter
                    + INSTRUCTION_SIZE_BYTES;
                Ok(ScreenChanged::NoChange)
            },
            Ok(InputState::Pressed) => Ok(ScreenChanged::NoChange),
        }
    }

    fn exec_get_delay_timer(&mut self, register: &Register, _random_byte: u8, _keys: &Inputs) -> (r: Result<
        ScreenChanged,
        Chip8Error,
    >)
        requires
            spec_execute_fits(old(self)@, Instruction::GetDelayTimer(*register), *_keys),
        ensures
            spec_execute_post(old(self)@, Instruction::GetDelayTimer(*register), _random_byte, *_keys, final(self)@, r),
    {
        self.advance_program_counter();
        let value = self.registers.delay_timer;
        self.registers.set_register(register, value);
        Ok(ScreenChanged::NoChange)
    }

    fn exec_set_delay_timer(&mut self, register: &Register, _random_byte: u8, _keys: &Inputs) -> (r: Result<
        ScreenChanged,
        Chip8Error,
    >)
        requires
            spec_execute_fits(old(self)@, Instruction::SetDelayTimer(*register), *_keys),
        ensures
            spec_execute_post(old(self)@, Instruction::SetDelayTimer(*register), _random_byte, *_keys, final(self)@, r),
    {
        self.advance_program_counter();
        let value = self.registers.get_register(register);
        self.registers.delay_timer = value;
        Ok(ScreenChanged::NoChange)
    }

    fn exec_set_sound_timer(&mut self, register: &Register, _random_byte: u8, _keys: &Inputs) -> (r: Result<
        ScreenChanged,
        Chip8Error,
    >)
        requires
            spec_execute_fits(old(self)@, Instruction::SetSoundTimer(*register), *_keys),
        ensures
            spec_execute_post(old(self)@, Instruction::SetSoundTimer(*register), _random_byte, *_keys, final(self)@, r),
    {
        self.advance_program_counter();
        let value = self.registers.get_register(register);
        self.registers.sound_timer = value;
        Ok(ScreenChanged::NoChange)
    }

    fn exec_increment_index_by_register(&mut self, register: &Register, _random_byte: u8, _keys: &Inputs) -> (r: Result<
        ScreenChanged,
        Chip8Error,
    >)
        requires
            spec_execute_fits(old(self)@, Instruction::IncrementIndexByRegister(*register), *_keys),
        ensures
            spec_execute_post(old(self)@, Instruction::IncrementIndexByRegister(*register), _random_byte, *_keys, final(self)@, r),
    {
        self.advance_program_counter();
        let value = self.registers.get_register(register);
        self.registers.index_register = self.registers.index_register + (value as u16);
        Ok(ScreenChanged::NoChange)
    }

    fn exec_get_font_character(&mut self, register: &Register, _random_byte: u8, _keys: &Inputs) -> (r: Result<
        ScreenChanged,
        Chip8Error,
    >)
        requires
            spec_execute_fits(old(self)@, Instruction::GetFontCharacter(*register), *_keys),
        ensures
            spec_execute_post(old(self)@, Instruction::GetFontCharacter(*register), _random_byte, *_keys, final(self)@, r),
    {
        self.advance_program_counter();
        let value = self.registers.get_register(register) as u16;
        let character_address = FONT_ADDRESS + value * 5;
        self.registers.index_register = character_address;
        Ok(ScreenChanged::NoChange)
    }

    fn exec_store_bin_coded_dec(&mut self, register: &Register, _random_byte: u8, _keys: &Inputs) -> (r: Result<
        ScreenChanged,
        Chip8Error,
    >)
        requires
            spec_execute_fits(old(self)@, Instruction::StoreBinCodedDec(*register), *_keys),
        ensures
            spec_execute_post(old(self)@, Instruction::StoreBinCodedDec(*register), _random_byte, *_keys, final(self)@, r),
    {
        self.advance_program_counter();
        let value = self.registers.get_register(register);
        let base_address = self.registers.index_register;

        let hundreds_place = value / 100;
        let tens_place = (value / 10) % 10;
        let ones_place = value % 10;

        let mut digits: Vec<u8> = Vec::new();
        digits.push(hundreds_place);
        digits.push(tens_place);
        digits.push(ones_place);

        let result = self.ram.write_bytes(base_address, digits.as_slice());
        proof {
            assert(digits@ =~= seq![value / 100, (value / 10) % 10, value % 10]);
        }
        match result {
            Ok(()) => Ok(ScreenChanged::NoChange),
            Err(e) => Err(e),
        }
    }

    fn exec_dump_registers(&mut self, last_register: &Register, _random_byte: u8, _keys: &Inputs) -> (r: Result<
        ScreenChanged,
        Chip8Error,
    >)
        requires
            spec_execute_fits(old(self)@, Instruction::DumpRegisters(*last_register), *_keys),
        ensures
            spec_execute_post(old(self)@, Instruction::DumpRegisters(*last_register), _random_byte, *_keys, final(self)@, r),
    {
        self.advance_program_counter();
        let ghost s0 = self@;
        let base_address = self.registers.index_register;

        // A range starting at the first register is always valid, so the
        // error arm is unreachable.
        let registers_in_range = match Register::inclusive_range(&Register::V0, last_register) {
            Ok(range) => range,
            Err(e) => {
                proof {
                    assert(false);
                }
                return Err(e);
            },
        };

        let ghost count = spec_register_index(*last_register) + 1;
        let mut values: Vec<u8> = Vec::new();
        let mut i: usize = 0;
        while i < registers_in_range.len()
            invariant
                0 <= i <= registers_in_range@.len(),
                registers_in_range@.len() == count,
                0 < count <= 16,
                forall|j: int|
                    0 <= j < count ==> registers_in_range@[j]
                        == crate::instruction::spec_register_from_index(j),
                values@.len() == i as int,
                forall|j: int| 0 <= j < i ==> values@[j] == self@.regs[j],
            decreases registers_in_range@.len() - i,
        {
            proof {
                assert(spec_register_index(
                    crate::instruction::spec_register_from_index(i as int),
                ) == i as int);
            }
            let value = self.registers.get_register(&registers_in_range[i]);
            values.push(value);
            i = i + 1;
        }

        proof {
            assert(values@ =~= s0.regs.take(count));
        }
        let result = self.ram.write_bytes(base_address, values.as_slice());
        match result {
            Ok(()) => Ok(ScreenChanged::NoChange),
            Err(e) => Err(e),
        }
    }

    fn exec_load_registers(&mut self, last_register: &Register, _random_byte: u8, _keys: &Inputs) -> (r: Result<
        ScreenChanged,
        Chip8Error,
    >)
        requires
            spec_execute_fits(old(self)@, Instruction::LoadRegisters(*last_register), *_keys),
        ensures
            spec_execute_post(old(self)@, Instruction::LoadRegisters(*last_register), _random_byte, *_keys, final(self)@, r),
    {
        self.advance_program_counter();
        let ghost s0 = self@;
        let base_address = self.registers.index_register;

        // A range starting at the first register is always valid, so the
        // error arm is unreachable.
        let registers_in_range = match Register::inclusive_range(&Register::V0, last_register) {
            Ok(range) => range,
            Err(e) => {
                proof {
                    assert(false);
                }
                return Err(e);
            },
        };

        let ghost count = spec_register_index(*last_register) + 1;
        let mut failure: Option<Chip8Error> = None;
        let mut i: usize = 0;
        while failure.is_none() && i < registers_in_range.len()
            invariant
                0 <= i <= registers_in_range@.len(),
                registers_in_range@.len() == count,
                0 < count <= 16,
                forall|j: int|
                    0 <= j < count ==> registers_in_range@[j]
                        == crate::instruction::spec_register_from_index(j),
                base_address == s0.index,
                self@.mem == s0.mem,
                self@.pc == s0.pc,
                self@.index == s0.index,
                self@.stack == s0.stack,
                self@.delay == s0.delay,
                self@.sound == s0.sound,
                self@.screen == s0.screen,
                s0.regs.len() == 16,
                failure is None ==> {
                    &&& (i > 0 ==> base_address + i <= 4096)
                    &&& self@.regs =~= spec_loaded_regs(s0.regs, s0.mem, base_address, i as int)
                },
                failure matches Some(e) ==> {
                    &&& self@.regs =~= spec_loaded_regs(s0.regs, s0.mem, base_address, count)
                    &&& base_address + count > 4096
                    &&& e == Chip8Error::OutOfBounds(
                        MemoryAccess::Read,
                        spec_fail_address(base_address),
                    )
                },
            decreases registers_in_range@.len() - i + (if failure is None {
                1int
            } else {
                0int
            }),
        {
            let src_address = base_address + (i as u16);
            proof {
                assert(spec_register_index(
                    crate::instruction::spec_register_from_index(i as int),
                ) == i as int);
            }
            match self.ram.read_byte(src_address) {
                Ok(value) => {
                    self.registers.set_register(&registers_in_range[i], value);
                    proof {
                        assert(self@.regs =~= spec_loaded_regs(
                            s0.regs,
                            s0.mem,
                            base_address,
                            i + 1,
                        ));
                    }
                    i = i + 1;
                },
                Err(e) => {
                    proof {
                        assert(self@.regs =~= spec_loaded_regs(
                            s0.regs,
                            s0.mem,
                            base_address,
                            count,
                        ));
                    }
                    failure = Some(e);
                },
            }
        }

        match failure {
            Some(e) => Err(e),
            None => {
                proof {
                    assert(self@.regs =~= spec_loaded_regs(s0.regs, s0.mem, base_address, count));
                }
                Ok(ScreenChanged::NoChange)
            },
        }
    }
}

} // verus!
