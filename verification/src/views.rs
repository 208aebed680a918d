//! Input snapshots handed to the CPU each step, and the pure text
//! rendering of the screen that a terminal view prints.

use vstd::prelude::*;

use crate::error::Chip8Error;
use crate::screen::Screen;

verus! {

/// Whether one key is currently held down.
#[derive(Clone, Copy, Debug, Eq, PartialEq, Structural)]
pub enum InputState {
    Pressed,
    NotPressed,
}

impl InputState {
    pub fn from_bool(value: bool) -> (r: InputState)
        ensures
            r == (if value {
                InputState::Pressed
            } else {
                InputState::NotPressed
            }),
    {
        match value {
            true => InputState::Pressed,
            false => InputState::NotPressed,
        }
    }
}

impl Default for InputState {
    fn default() -> (r: Self)
        ensures
            r == InputState::NotPressed,
    {
        InputState::NotPressed
    }
}

/// The keys of the keypad subset that the interpreter samples.
#[derive(Clone, Copy, Debug, Eq, PartialEq, Structural)]
pub enum InputKey {
    Zero,
    Seven,
    Eight,
    Nine,
}

/// A snapshot of the sampled keys' states, supplied fresh by the host at
/// each step and not retained across steps.
#[derive(Clone, Copy, Debug, Eq, PartialEq, Structural)]
pub struct Inputs {
    pub zero: InputState,
    pub seven: InputState,
    pub eight: InputState,
    pub nine: InputState,
}

/// The state of the key with the given identifier, or an error for an
/// identifier that names no sampled key.
pub open spec fn spec_get_input(inputs: Inputs, key_id: u8) -> Result<InputState, Chip8Error> {
    if key_id == 0 {
        Ok(inputs.zero)
    } else if key_id == 7 {
        Ok(inputs.seven)
    } else if key_id == 8 {
        Ok(inputs.eight)
    } else if key_id == 9 {
        Ok(inputs.nine)
    } else {
        Err(Chip8Error::UnrecognizedKey(key_id))
    }
}

impl Default for Inputs {
    /// A fresh snapshot has every key released.
    fn default() -> (r: Self)
        ensures
            r == (Inputs {
                zero: InputState::NotPressed,
                seven: InputState::NotPressed,
                eight: InputState::NotPressed,
                nine: InputState::NotPressed,
            }),
    {
        Inputs {
            zero: InputState::NotPressed,
            seven: InputState::NotPressed,
            eight: InputState::NotPressed,
            nine: InputState::NotPressed,
        }
    }
}

impl Inputs {
    /// Records the state of one key.
    pub fn set_input(&mut self, input: &InputKey, value: InputState)
        ensures
            *final(self) == (match *input {
                InputKey::Zero => Inputs { zero: value, ..*old(self) },
                InputKey::Seven => Inputs { seven: value, ..*old(self) },
                InputKey::Eight => Inputs { eight: value, ..*old(self) },
                InputKey::Nine => Inputs { nine: value, ..*old(self) },
            }),
    {
        match input {
            InputKey::Zero => self.zero = value,
            InputKey::Seven => self.seven = value,
            InputKey::Eight => self.eight = value,
            InputKey::Nine => self.nine = value,
        }
    }

    /// Looks a key up by its numeric identifier.
    pub fn get_input(&self, key_id: u8) -> (r: Result<InputState, Chip8Error>)
        ensures
            r == spec_get_input(*self, key_id),
    {
        match key_id {
            0 => Ok(self.zero),
            7 => Ok(self.seven),
            8 => Ok(self.eight),
            9 => Ok(self.nine),
            _ => Err(Chip8Error::UnrecognizedKey(key_id)),
        }
    }
}

/// One rendered text line of the screen: a frame bar, the row's 64
/// pixels as '#' or ' ', a closing bar, and a line feed.
pub open spec fn spec_render_row(row: Seq<bool>) -> Seq<u8> {
    Seq::new(
        67,
        |i: int|
            if i == 0 || i == 65 {
                124u8
            } else if i == 66 {
                10u8
            } else if row[i - 1] {
                35u8
            } else {
                32u8
            },
    )
}

/// Renders one screen row as ASCII text: `|` frames, `#` for a pixel
/// that is on, a space for one that is off, and a trailing line feed.
pub fn render_screen_row(screen: &Screen, y: u8) -> (line: Vec<u8>)
    requires
        y < 32,
    ensures
        line@ == spec_render_row(screen@[y as int]),
{
    let mut line: Vec<u8> = Vec::new();
    line.push(124u8);
    let mut x: u8 = 0;
    while x < 64
        invariant
            0 <= x <= 64,
            y < 32,
            line@.len() == x + 1,
            forall|i: int| 0 <= i < line@.len() ==> line@[i] == spec_render_row(screen@[y as int])[i],
        decreases 64 - x,
    {
        let pixel = match screen.get_value(&crate::screen::Position::new(x, y)) {
            Ok(p) => p,
            Err(_) => crate::screen::Pixel::Off,
        };
        match pixel {
            crate::screen::Pixel::On => line.push(35u8),
            crate::screen::Pixel::Off => line.push(32u8),
        }
        x = x + 1;
    }
    line.push(124u8);
    line.push(10u8);
    proof {
        assert(line@ =~= spec_render_row(screen@[y as int]));
    }
    line
}

} // verus!
