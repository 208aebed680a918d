use chip8_interpreter::error::Chip8Error;
use chip8_interpreter::screen::{Pixel, Position, Screen};
use chip8_interpreter::views::{render_screen_row, InputKey, InputState, Inputs};

#[test]
fn inputs_get_input_tracks_set_keys() {
    let mut inputs = Inputs::default();
    assert_eq!(Ok(InputState::NotPressed), inputs.get_input(0));

    inputs.set_input(&InputKey::Zero, InputState::Pressed);
    inputs.set_input(&InputKey::Nine, InputState::Pressed);
    assert_eq!(Ok(InputState::Pressed), inputs.get_input(0));
    assert_eq!(Ok(InputState::NotPressed), inputs.get_input(7));
    assert_eq!(Ok(InputState::NotPressed), inputs.get_input(8));
    assert_eq!(Ok(InputState::Pressed), inputs.get_input(9));

    let unknown = inputs.get_input(3);
    assert_eq!(Err(Chip8Error::UnrecognizedKey(3)), unknown);
    assert_eq!(
        "Unrecognized key id: 0x03".to_string(),
        unknown.unwrap_err().message()
    );
}

#[test]
fn input_state_from_bool() {
    assert_eq!(InputState::Pressed, InputState::from_bool(true));
    assert_eq!(InputState::NotPressed, InputState::from_bool(false));
}

#[test]
fn render_screen_row_frames_the_pixels() {
    let mut screen = Screen::default();
    screen.set_value(&Position::new(0, 3), Pixel::On).unwrap();
    screen.set_value(&Position::new(63, 3), Pixel::On).unwrap();

    let blank = render_screen_row(&screen, 0);
    let mut expected = vec![b'|'];
    expected.extend(std::iter::repeat(b' ').take(64));
    expected.push(b'|');
    expected.push(b'\n');
    assert_eq!(expected, blank);

    let lit = render_screen_row(&screen, 3);
    let mut expected = vec![b'|', b'#'];
    expected.extend(std::iter::repeat(b' ').take(62));
    expected.push(b'#');
    expected.push(b'|');
    expected.push(b'\n');
    assert_eq!(expected, lit);
}
