use chip8_interpreter::error::{Chip8Error, MemoryAccess};
use chip8_interpreter::ram::RAM;

#[test]
fn ram_starts_empty() {
    let ram = RAM::default();

    assert_eq!(Ok(0x00), ram.read_byte(0x0000));
    assert_eq!(Ok(0x00), ram.read_byte(0x050));
}

#[test]
fn ram_write_and_read_byte() {
    let mut ram = RAM::default();

    assert_eq!(Ok(0x00), ram.read_byte(0x0000));

    assert_eq!(Ok(()), ram.write_byte(0x00, 0x42));

    assert_eq!(Ok(0x42), ram.read_byte(0x0000));
}

#[test]
fn ram_read_byte_invalid_memory_address() {
    let ram = RAM::default();

    let result = ram.read_byte(0x1000);
    assert_eq!(
        Err(Chip8Error::OutOfBounds(MemoryAccess::Read, 0x1000)),
        result
    );
    assert_eq!(
        "Read at invalid memory address: 0x1000".to_string(),
        result.unwrap_err().message()
    );
}

#[test]
fn ram_write_byte_invalid_memory_address() {
    let mut ram = RAM::default();

    let result = ram.write_byte(0x1000, 0xFF);
    assert_eq!(
        Err(Chip8Error::OutOfBounds(MemoryAccess::Write, 0x1000)),
        result
    );
    assert_eq!(
        "Write at invalid memory address: 0x1000".to_string(),
        result.unwrap_err().message()
    );
}

#[test]
fn ram_read_u16() {
    let mut ram = RAM::default();

    assert_eq!(Ok(()), ram.write_byte(0x0000, 0x12));
    assert_eq!(Ok(()), ram.write_byte(0x0001, 0x34));

    assert_eq!(Ok(0x1234), ram.read_u16(0x0000));
}

#[test]
fn ram_write_read_roundtrip_at_last_address() {
    let mut ram = RAM::default();

    assert_eq!(Ok(()), ram.write_byte(0x0FFF, 0xAB));
    assert_eq!(Ok(0xAB), ram.read_byte(0x0FFF));
}

#[test]
fn ram_read_u16_fails_past_the_edge() {
    let ram = RAM::default();

    assert_eq!(
        Err(Chip8Error::OutOfBounds(MemoryAccess::Read, 0x1000)),
        ram.read_u16(0x0FFF)
    );
}

#[test]
fn ram_write_bytes_partial_until_out_of_bounds() {
    let mut ram = RAM::default();

    let result = ram.write_bytes(0x0FFE, &[1, 2, 3, 4]);
    assert_eq!(
        Err(Chip8Error::OutOfBounds(MemoryAccess::Write, 0x1000)),
        result
    );
    // The bytes before the failure remain written.
    assert_eq!(Ok(1), ram.read_byte(0x0FFE));
    assert_eq!(Ok(2), ram.read_byte(0x0FFF));
}

#[test]
fn ram_read_sprite_returns_rows() {
    let mut ram = RAM::default();

    assert_eq!(Ok(()), ram.write_bytes(0x0300, &[0xF0, 0x90, 0xF0]));
    assert_eq!(Ok(vec![0xF0, 0x90, 0xF0]), ram.read_sprite(0x0300, 3));
    assert_eq!(
        Err(Chip8Error::OutOfBounds(MemoryAccess::Read, 0x1000)),
        ram.read_sprite(0x0FFE, 3)
    );
}
