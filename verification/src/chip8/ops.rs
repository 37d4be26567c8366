//! The instruction decoder: a closed set of operations and the total,
//! deterministic function from 16-bit words onto it.

use vstd::prelude::*;
use crate::chip8::data::{
    op_address, op_nibble, op_word, Address, Nibble, OpCode, RegisterIndex, Word,
};
use crate::chip8::error::VmError;

verus! {

/// One decoded instruction, carrying already-validated operands.
/// Every variant corresponds to exactly one recognized bit pattern;
/// unrecognized patterns never produce a variant.
#[derive(Clone, Copy, Debug, PartialEq, Eq, Structural)]
pub enum Operation {
    ClearScreen,
    Return,
    Jump(Address),
    Call(Address),
    SkipIfEqual(RegisterIndex, Word),
    SkipIfNotEqual(RegisterIndex, Word),
    SkipIfRegistersEqual(RegisterIndex, RegisterIndex),
    SetRegister(RegisterIndex, Word),
    AddValue(RegisterIndex, Word),
    SetToRegister(RegisterIndex, RegisterIndex),
    Or(RegisterIndex, RegisterIndex),
    And(RegisterIndex, RegisterIndex),
    Xor(RegisterIndex, RegisterIndex),
    AddRegister(RegisterIndex, RegisterIndex),
    SubRegister(RegisterIndex, RegisterIndex),
    ShiftRight(RegisterIndex, RegisterIndex),
    SubRegisterReversed(RegisterIndex, RegisterIndex),
    ShiftLeft(RegisterIndex, RegisterIndex),
    SkipIfRegistersNotEqual(RegisterIndex, RegisterIndex),
    SetIndexRegister(Address),
    JumpV0(Address),
    SetToRandom(RegisterIndex, Word),
    Draw(RegisterIndex, RegisterIndex, Nibble),
    SkipIfKeyDown(RegisterIndex),
    SkipIfKeyUp(RegisterIndex),
    GetDelayTimer(RegisterIndex),
    WaitForKey(RegisterIndex),
    SetDelayTimer(RegisterIndex),
    SetSoundTimer(RegisterIndex),
    IncrementIndexRegister(RegisterIndex),
    SetIndexRegisterToSprite(Nibble),
    ToDecimal(RegisterIndex),
    WriteMemory(Nibble),
    ReadMemory(Nibble),
}

/// All operands of the operation are in their domains.
pub open spec fn op_wf(op: Operation) -> bool {
    match op {
        Operation::ClearScreen => true,
        Operation::Return => true,
        Operation::Jump(a) => a.wf(),
        Operation::Call(a) => a.wf(),
        Operation::SkipIfEqual(x, _) => x.wf(),
        Operation::SkipIfNotEqual(x, _) => x.wf(),
        Operation::SkipIfRegistersEqual(x, y) => x.wf() && y.wf(),
        Operation::SetRegister(x, _) => x.wf(),
        Operation::AddValue(x, _) => x.wf(),
        Operation::SetToRegister(x, y) => x.wf() && y.wf(),
        Operation::Or(x, y) => x.wf() && y.wf(),
        Operation::And(x, y) => x.wf() && y.wf(),
        Operation::Xor(x, y) => x.wf() && y.wf(),
        Operation::AddRegister(x, y) => x.wf() && y.wf(),
        Operation::SubRegister(x, y) => x.wf() && y.wf(),
        Operation::ShiftRight(x, y) => x.wf() && y.wf(),
        Operation::SubRegisterReversed(x, y) => x.wf() && y.wf(),
        Operation::ShiftLeft(x, y) => x.wf() && y.wf(),
        Operation::SkipIfRegistersNotEqual(x, y) => x.wf() && y.wf(),
        Operation::SetIndexRegister(a) => a.wf(),
        Operation::JumpV0(a) => a.wf(),
        Operation::SetToRandom(x, _) => x.wf(),
        Operation::Draw(x, y, n) => x.wf() && y.wf() && n.wf(),
        Operation::SkipIfKeyDown(x) => x.wf(),
        Operation::SkipIfKeyUp(x) => x.wf(),
        Operation::GetDelayTimer(x) => x.wf(),
        Operation::WaitForKey(x) => x.wf(),
        Operation::SetDelayTimer(x) => x.wf(),
        Operation::SetSoundTimer(x) => x.wf(),
        Operation::IncrementIndexRegister(x) => x.wf(),
        Operation::SetIndexRegisterToSprite(n) => n.wf(),
        Operation::ToDecimal(x) => x.wf(),
        Operation::WriteMemory(n) => n.wf(),
        Operation::ReadMemory(n) => n.wf(),
    }
}

/// What a 16-bit word decodes to: `Some` exactly on the recognized
/// instruction shapes, with the operands extracted by position.
///
/// Opaque by default: it is a large definition, and most reasoning only
/// passes its value along. Proofs about particular words reveal it.
#[verifier::opaque]
pub open spec fn spec_decode(code: int) -> Option<Operation> {
    let f3 = op_nibble(code, 3);
    let f2 = op_nibble(code, 2);
    let f1 = op_nibble(code, 1);
    let f0 = op_nibble(code, 0);
    let x = (Nibble { value: op_nibble(code, 2) as u8 });
    let y = (Nibble { value: op_nibble(code, 1) as u8 });
    let n = (Nibble { value: op_nibble(code, 0) as u8 });
    let nn = op_word(code) as u8;
    let nnn = (Address { value: op_address(code) as u16 });
    if f3 == 0x0 {
        if f2 == 0x0 && f1 == 0xe && f0 == 0x0 {
            Some(Operation::ClearScreen)
        } else if f2 == 0x0 && f1 == 0xe && f0 == 0xe {
            Some(Operation::Return)
        } else {
            None
        }
    } else if f3 == 0x1 {
        Some(Operation::Jump(nnn))
    } else if f3 == 0x2 {
        Some(Operation::Call(nnn))
    } else if f3 == 0x3 {
        Some(Operation::SkipIfEqual(x, nn))
    } else if f3 == 0x4 {
        Some(Operation::SkipIfNotEqual(x, nn))
    } else if f3 == 0x5 {
        if f0 == 0x0 {
            Some(Operation::SkipIfRegistersEqual(x, y))
        } else {
            None
        }
    } else if f3 == 0x6 {
        Some(Operation::SetRegister(x, nn))
    } else if f3 == 0x7 {
        Some(Operation::AddValue(x, nn))
    } else if f3 == 0x8 {
        if f0 == 0x0 {
            Some(Operation::SetToRegister(x, y))
        } else if f0 == 0x1 {
            Some(Operation::Or(x, y))
        } else if f0 == 0x2 {
            Some(Operation::And(x, y))
        } else if f0 == 0x3 {
            Some(Operation::Xor(x, y))
        } else if f0 == 0x4 {
            Some(Operation::AddRegister(x, y))
        } else if f0 == 0x5 {
            Some(Operation::SubRegister(x, y))
        } else if f0 == 0x6 {
            Some(Operation::ShiftRight(x, y))
        } else if f0 == 0x7 {
            Some(Operation::SubRegisterReversed(x, y))
        } else if f0 == 0xe {
            Some(Operation::ShiftLeft(x, y))
        } else {
            None
        }
    } else if f3 == 0x9 {
        if f0 == 0x0 {
            Some(Operation::SkipIfRegistersNotEqual(x, y))
        } else {
            None
        }
    } else if f3 == 0xa {
        Some(Operation::SetIndexRegister(nnn))
    } else if f3 == 0xb {
        Some(Operation::JumpV0(nnn))
    } else if f3 == 0xc {
        Some(Operation::SetToRandom(x, nn))
    } else if f3 == 0xd {
        Some(Operation::Draw(x, y, n))
    } else if f3 == 0xe {
        if f1 == 0x9 && f0 == 0xe {
            Some(Operation::SkipIfKeyDown(x))
        } else if f1 == 0xa && f0 == 0x1 {
            Some(Operation::SkipIfKeyUp(x))
        } else {
            None
        }
    } else {
        if f1 == 0x0 && f0 == 0x7 {
            Some(Operation::GetDelayTimer(x))
        } else if f1 == 0x0 && f0 == 0xa {
            Some(Operation::WaitForKey(x))
        } else if f1 == 0x1 && f0 == 0x5 {
            Some(Operation::SetDelayTimer(x))
        } else if f1 == 0x1 && f0 == 0x8 {
            Some(Operation::SetSoundTimer(x))
        } else if f1 == 0x1 && f0 == 0xe {
            Some(Operation::IncrementIndexRegister(x))
        } else if f1 == 0x2 && f0 == 0x9 {
            Some(Operation::SetIndexRegisterToSprite(x))
        } else if f1 == 0x3 && f0 == 0x3 {
            Some(Operation::ToDecimal(x))
        } else if f1 == 0x5 && f0 == 0x5 {
            Some(Operation::WriteMemory(x))
        } else if f1 == 0x6 && f0 == 0x5 {
            Some(Operation::ReadMemory(x))
        } else {
            None
        }
    }
}

impl Operation {
    /// Decode one instruction word. Total and deterministic: every word in a
    /// recognized shape yields that shape's operation with its operands
    /// extracted by position; every other word yields an error carrying the
    /// offending word.
    pub fn try_from(code: OpCode) -> (r: Result<Operation, VmError>)
        ensures
            match spec_decode(code@) {
                Some(op) => r == Ok::<Operation, VmError>(op),
                None => r == Err::<Operation, VmError>(VmError::UnknownOpCode(code)),
            },
            r matches Ok(op) ==> op_wf(op),
    {
        proof {
            reveal(spec_decode);
        }
        let f3 = code.extract_nibble(3).as_u8();
        let f1 = code.extract_nibble(1).as_u8();
        let f0 = code.extract_nibble(0).as_u8();
        let x = code.extract_nibble(2);
        let y = code.extract_nibble(1);
        let n = code.extract_nibble(0);
        let f2 = x.as_u8();
        let nn = code.extract_word(0);
        let nnn = code.extract_address();
        if f3 == 0x0 {
            if f2 == 0x0 && f1 == 0xe && f0 == 0x0 {
                Ok(Operation::ClearScreen)
            } else if f2 == 0x0 && f1 == 0xe && f0 == 0xe {
                Ok(Operation::Return)
            } else {
                Err(VmError::UnknownOpCode(code))
            }
        } else if f3 == 0x1 {
            Ok(Operation::Jump(nnn))
        } else if f3 == 0x2 {
            Ok(Operation::Call(nnn))
        } else if f3 == 0x3 {
            Ok(Operation::SkipIfEqual(x, nn))
        } else if f3 == 0x4 {
            Ok(Operation::SkipIfNotEqual(x, nn))
        } else if f3 == 0x5 {
            if f0 == 0x0 {
                Ok(Operation::SkipIfRegistersEqual(x, y))
            } else {
                Err(VmError::UnknownOpCode(code))
            }
        } else if f3 == 0x6 {
            Ok(Operation::SetRegister(x, nn))
        } else if f3 == 0x7 {
            Ok(Operation::AddValue(x, nn))
        } else if f3 == 0x8 {
            if f0 == 0x0 {
                Ok(Operation::SetToRegister(x, y))
            } else if f0 == 0x1 {
                Ok(Operation::Or(x, y))
            } else if f0 == 0x2 {
                Ok(Operation::And(x, y))
            } else if f0 == 0x3 {
                Ok(Operation::Xor(x, y))
            } else if f0 == 0x4 {
                Ok(Operation::AddRegister(x, y))
            } else if f0 == 0x5 {
                Ok(Operation::SubRegister(x, y))
            } else if f0 == 0x6 {
                Ok(Operation::ShiftRight(x, y))
            } else if f0 == 0x7 {
                Ok(Operation::SubRegisterReversed(x, y))
            } else if f0 == 0xe {
                Ok(Operation::ShiftLeft(x, y))
            } else {
                Err(VmError::UnknownOpCode(code))
            }
        } else if f3 == 0x9 {
            if f0 == 0x0 {
                Ok(Operation::SkipIfRegistersNotEqual(x, y))
            } else {
                Err(VmError::UnknownOpCode(code))
            }
        } else if f3 == 0xa {
            Ok(Operation::SetIndexRegister(nnn))
        } else if f3 == 0xb {
            Ok(Operation::JumpV0(nnn))
        } else if f3 == 0xc {
            Ok(Operation::SetToRandom(x, nn))
        } else if f3 == 0xd {
            Ok(Operation::Draw(x, y, n))
        } else if f3 == 0xe {
            if f1 == 0x9 && f0 == 0xe {
                Ok(Operation::SkipIfKeyDown(x))
            } else if f1 == 0xa && f0 == 0x1 {
                Ok(Operation::SkipIfKeyUp(x))
            } else {
                Err(VmError::UnknownOpCode(code))
            }
        } else {
            if f1 == 0x0 && f0 == 0x7 {
                Ok(Operation::GetDelayTimer(x))
            } else if f1 == 0x0 && f0 == 0xa {
                Ok(Operation::WaitForKey(x))
            } else if f1 == 0x1 && f0 == 0x5 {
                Ok(Operation::SetDelayTimer(x))
            } else if f1 == 0x1 && f0 == 0x8 {
                Ok(Operation::SetSoundTimer(x))
            } else if f1 == 0x1 && f0 == 0xe {
                Ok(Operation::IncrementIndexRegister(x))
            } else if f1 == 0x2 && f0 == 0x9 {
                Ok(Operation::SetIndexRegisterToSprite(x))
            } else if f1 == 0x3 && f0 == 0x3 {
                Ok(Operation::ToDecimal(x))
            } else if f1 == 0x5 && f0 == 0x5 {
                Ok(Operation::WriteMemory(x))
            } else if f1 == 0x6 && f0 == 0x5 {
                Ok(Operation::ReadMemory(x))
            } else {
                Err(VmError::UnknownOpCode(code))
            }
        }
    }
}

} // verus!
