use chipkit::chip8::backend::{FrameBuffer, KeyEventKind, RandomNumberGenerator, StreamRng};
use chipkit::chip8::data::{Address, Nibble, OpCode};
use chipkit::chip8::error::VmError;
use chipkit::chip8::platform::{Point, Sprite};

#[test]
fn addresses_and_nibbles_validate_their_domains() {
    assert_eq!(Address::new(0xFFF).as_usize(), 0xFFF);
    assert!(Address::try_from_u16(0xFFF).is_some());
    assert!(Address::try_from_u16(0x1000).is_none());
    assert_eq!(Nibble::new(15).as_u8(), 15);
    assert!(Nibble::try_from_u8(15).is_some());
    assert!(Nibble::try_from_u8(16).is_none());
}

#[test]
fn opcodes_extract_fields_by_position() {
    let code = OpCode::new(0xD123);
    assert_eq!(code.as_u16(), 0xD123);
    assert_eq!(code.extract_nibble(3).as_u8(), 0xD);
    assert_eq!(code.extract_nibble(2).as_u8(), 0x1);
    assert_eq!(code.extract_nibble(1).as_u8(), 0x2);
    assert_eq!(code.extract_nibble(0).as_u8(), 0x3);
    assert_eq!(code.extract_word(0), 0x23);
    assert_eq!(code.extract_word(1), 0xD1);
    assert_eq!(code.extract_address().as_u16(), 0x123);
}

#[test]
fn frame_buffer_starts_blank_and_reports_bounds() {
    let fb = FrameBuffer::new();
    assert!(fb.is_in_bounds(63, 31));
    assert!(!fb.is_in_bounds(64, 0));
    assert!(!fb.is_in_bounds(0, 32));
    for (y, row) in fb.iter_rows().iter().enumerate() {
        for (x, &px) in row.iter().enumerate() {
            assert!(!px, "pixel ({x}, {y}) should start off");
        }
    }
    let mut fb = FrameBuffer::default();
    fb.iter_rows_mut()[3][4] = true;
    assert!(fb.pixel(4, 3));
    assert!(!fb.pixel(3, 4));
}

#[test]
fn stream_rng_replays_then_yields_zero() {
    let mut rng = StreamRng::new(vec![7, 8]);
    assert_eq!(rng.get_random_word(), 7);
    assert_eq!(rng.get_random_word(), 8);
    assert_eq!(rng.get_random_word(), 0);
    assert_eq!(rng.get_random_word(), 0);
}

#[test]
fn errors_describe_themselves() {
    assert_eq!(VmError::UnknownOpCode(OpCode::new(0xFFFF)).describe(), "unrecognized opcode");
    assert_eq!(VmError::StackOverflow.describe(), "stack overflow");
    assert_eq!(VmError::StackUnderflow.describe(), "stack underflow");
    assert_eq!(VmError::InvalidKey(200).describe(), "invalid key index");
}

#[test]
fn small_pieces_hold_their_values() {
    let p = Point(7, 9);
    assert_eq!((p.0, p.1), (7, 9));
    let rows = [0xF0u8, 0x90];
    let s = Sprite::new(&rows);
    assert_eq!(s.as_slice(), &rows);
    assert_eq!(KeyEventKind::default(), KeyEventKind::Released);
}
