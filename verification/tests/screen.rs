use chip8_interpreter::error::Chip8Error;
use chip8_interpreter::screen::{AnyPixelsUnset, Pixel, Position, Screen};

#[test]
fn screen_starts_blank_and_reports_dimensions() {
    let screen = Screen::default();
    assert_eq!(64, screen.get_width());
    assert_eq!(32, screen.get_height());
    assert_eq!(Ok(Pixel::Off), screen.get_value(&Position::new(0, 0)));
    assert_eq!(Ok(Pixel::Off), screen.get_value(&Position::new(63, 31)));
}

#[test]
fn screen_set_and_get_value() {
    let mut screen = Screen::default();
    assert_eq!(Ok(()), screen.set_value(&Position::new(10, 20), Pixel::On));
    assert_eq!(Ok(Pixel::On), screen.get_value(&Position::new(10, 20)));
    screen.clear();
    assert_eq!(Ok(Pixel::Off), screen.get_value(&Position::new(10, 20)));
}

#[test]
fn screen_rejects_positions_off_the_grid() {
    let screen = Screen::default();
    let result = screen.get_value(&Position::new(64, 0));
    assert_eq!(Err(Chip8Error::InvalidPosition(64, 0)), result);
    assert_eq!(
        "Screen position x value is too large: Position { x: 64, y: 0 }".to_string(),
        result.unwrap_err().message()
    );

    let result = screen.get_value(&Position::new(5, 32));
    assert_eq!(Err(Chip8Error::InvalidPosition(5, 32)), result);
    assert_eq!(
        "Screen position y value is too large: Position { x: 5, y: 32 }".to_string(),
        result.unwrap_err().message()
    );
}

#[test]
fn screen_draw_sprite_is_self_inverse() {
    let mut screen = Screen::default();
    // Pre-light one pixel under a set sprite bit and one beside the
    // sprite.
    screen.set_value(&Position::new(4, 1), Pixel::On).unwrap();
    screen.set_value(&Position::new(9, 0), Pixel::On).unwrap();

    let sprite = [0b1010_0000u8, 0b0110_0000];

    // First draw: it toggles pixel (4,1) off, so it reports Yes.
    let first = screen.draw_sprite(&Position::new(2, 0), &sprite).unwrap();
    assert!(matches!(first, AnyPixelsUnset::Yes));

    // Second identical draw restores the prior state exactly.
    let second = screen.draw_sprite(&Position::new(2, 0), &sprite).unwrap();
    assert!(matches!(second, AnyPixelsUnset::Yes));

    assert_eq!(Ok(Pixel::On), screen.get_value(&Position::new(4, 1)));
    assert_eq!(Ok(Pixel::On), screen.get_value(&Position::new(9, 0)));
    for y in 0..32u8 {
        for x in 0..64u8 {
            let expected = if (x, y) == (4, 1) || (x, y) == (9, 0) {
                Pixel::On
            } else {
                Pixel::Off
            };
            assert_eq!(Ok(expected), screen.get_value(&Position::new(x, y)));
        }
    }
}

#[test]
fn screen_draw_sprite_drops_offscreen_spill() {
    let mut screen = Screen::default();
    // A full row drawn near the right edge: only two columns fit.
    let report = screen
        .draw_sprite(&Position::new(62, 31), &[0xFF])
        .unwrap();
    assert!(matches!(report, AnyPixelsUnset::No));
    assert_eq!(Ok(Pixel::On), screen.get_value(&Position::new(62, 31)));
    assert_eq!(Ok(Pixel::On), screen.get_value(&Position::new(63, 31)));
    // Nothing wrapped around to the next row or the left edge.
    assert_eq!(Ok(Pixel::Off), screen.get_value(&Position::new(0, 31)));
    assert_eq!(Ok(Pixel::Off), screen.get_value(&Position::new(0, 0)));
}
