use chipkit::chip8::data::{Nibble, OpCode};
use chipkit::chip8::error::VmError;
use chipkit::chip8::ops::Operation;

fn decode(word: u16) -> Result<Operation, VmError> {
    Operation::try_from(OpCode::new(word))
}

fn nib(v: u8) -> Nibble {
    Nibble::new(v)
}

#[test]
fn decodes_every_documented_shape() {
    assert_eq!(decode(0x00E0), Ok(Operation::ClearScreen));
    assert_eq!(decode(0x00EE), Ok(Operation::Return));
    assert!(matches!(decode(0x1234), Ok(Operation::Jump(a)) if a.as_u16() == 0x234));
    assert!(matches!(decode(0x2ABC), Ok(Operation::Call(a)) if a.as_u16() == 0xABC));
    assert_eq!(decode(0x3A7F), Ok(Operation::SkipIfEqual(nib(0xA), 0x7F)));
    assert_eq!(decode(0x4B01), Ok(Operation::SkipIfNotEqual(nib(0xB), 0x01)));
    assert_eq!(decode(0x5AB0), Ok(Operation::SkipIfRegistersEqual(nib(0xA), nib(0xB))));
    assert_eq!(decode(0x6A02), Ok(Operation::SetRegister(nib(0xA), 0x02)));
    assert_eq!(decode(0x7A05), Ok(Operation::AddValue(nib(0xA), 0x05)));
    assert_eq!(decode(0x8AB0), Ok(Operation::SetToRegister(nib(0xA), nib(0xB))));
    assert_eq!(decode(0x8AB1), Ok(Operation::Or(nib(0xA), nib(0xB))));
    assert_eq!(decode(0x8AB2), Ok(Operation::And(nib(0xA), nib(0xB))));
    assert_eq!(decode(0x8AB3), Ok(Operation::Xor(nib(0xA), nib(0xB))));
    assert_eq!(decode(0x8AB4), Ok(Operation::AddRegister(nib(0xA), nib(0xB))));
    assert_eq!(decode(0x8AB5), Ok(Operation::SubRegister(nib(0xA), nib(0xB))));
    assert_eq!(decode(0x8AB6), Ok(Operation::ShiftRight(nib(0xA), nib(0xB))));
    assert_eq!(decode(0x8AB7), Ok(Operation::SubRegisterReversed(nib(0xA), nib(0xB))));
    assert_eq!(decode(0x8ABE), Ok(Operation::ShiftLeft(nib(0xA), nib(0xB))));
    assert_eq!(decode(0x9AB0), Ok(Operation::SkipIfRegistersNotEqual(nib(0xA), nib(0xB))));
    assert!(matches!(decode(0xA123), Ok(Operation::SetIndexRegister(a)) if a.as_u16() == 0x123));
    assert!(matches!(decode(0xB123), Ok(Operation::JumpV0(a)) if a.as_u16() == 0x123));
    assert_eq!(decode(0xCA0F), Ok(Operation::SetToRandom(nib(0xA), 0x0F)));
    assert_eq!(decode(0xDAB5), Ok(Operation::Draw(nib(0xA), nib(0xB), nib(5))));
    assert_eq!(decode(0xEA9E), Ok(Operation::SkipIfKeyDown(nib(0xA))));
    assert_eq!(decode(0xEAA1), Ok(Operation::SkipIfKeyUp(nib(0xA))));
    assert_eq!(decode(0xFA07), Ok(Operation::GetDelayTimer(nib(0xA))));
    assert_eq!(decode(0xFA0A), Ok(Operation::WaitForKey(nib(0xA))));
    assert_eq!(decode(0xFA15), Ok(Operation::SetDelayTimer(nib(0xA))));
    assert_eq!(decode(0xFA18), Ok(Operation::SetSoundTimer(nib(0xA))));
    assert_eq!(decode(0xFA1E), Ok(Operation::IncrementIndexRegister(nib(0xA))));
    assert_eq!(decode(0xFA29), Ok(Operation::SetIndexRegisterToSprite(nib(0xA))));
    assert_eq!(decode(0xFA33), Ok(Operation::ToDecimal(nib(0xA))));
    assert_eq!(decode(0xFA55), Ok(Operation::WriteMemory(nib(0xA))));
    assert_eq!(decode(0xFA65), Ok(Operation::ReadMemory(nib(0xA))));
}

#[test]
fn rejects_unrecognized_patterns_with_the_word() {
    for &word in &[0x0000u16, 0x00E1, 0x5AB1, 0x8AB8, 0x8ABF, 0x9AB2, 0xE000, 0xEA9F, 0xF000,
        0xFA16, 0xFAFF] {
        match decode(word) {
            Err(VmError::UnknownOpCode(code)) => assert_eq!(code.as_u16(), word),
            other => panic!("{word:04X} decoded unexpectedly: {other:?}"),
        }
    }
}

#[test]
fn operand_extraction_is_positional() {
    match decode(0x6C3D) {
        Ok(Operation::SetRegister(x, nn)) => {
            assert_eq!(x.as_u8(), 0xC);
            assert_eq!(nn, 0x3D);
        }
        other => panic!("unexpected: {other:?}"),
    }
    match decode(0xD123) {
        Ok(Operation::Draw(x, y, n)) => {
            assert_eq!(x.as_u8(), 1);
            assert_eq!(y.as_u8(), 2);
            assert_eq!(n.as_u8(), 3);
        }
        other => panic!("unexpected: {other:?}"),
    }
}
