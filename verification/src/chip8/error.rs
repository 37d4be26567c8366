//! The error conditions of the virtual machine. All of them are recoverable:
//! they are returned to the caller, and no instruction is retried.

use vstd::prelude::*;
use crate::chip8::data::OpCode;

verus! {

/// Why the machine cannot make forward progress.
#[derive(Clone, Copy, Debug, PartialEq, Eq, Structural)]
pub enum VmError {
    /// The fetched word matches no known instruction shape; carries the
    /// offending raw word.
    UnknownOpCode(OpCode),
    /// A call was attempted with the call stack already at capacity.
    StackOverflow,
    /// A return was attempted with an empty call stack.
    StackUnderflow,
    /// A key-test instruction read a register value above the highest valid
    /// keypad index; carries the raw value.
    InvalidKey(u8),
}

impl VmError {
    /// A short description, for diagnostics.
    pub fn describe(&self) -> (r: &'static str)
        ensures
            match self {
                VmError::UnknownOpCode(_) => r@ == "unrecognized opcode"@,
                VmError::StackOverflow => r@ == "stack overflow"@,
                VmError::StackUnderflow => r@ == "stack underflow"@,
                VmError::InvalidKey(_) => r@ == "invalid key index"@,
            },
    {
        match self {
            VmError::UnknownOpCode(_) => "unrecognized opcode",
            VmError::StackOverflow => "stack overflow",
            VmError::StackUnderflow => "stack underflow",
            VmError::InvalidKey(_) => "invalid key index",
        }
    }
}

} // verus!
