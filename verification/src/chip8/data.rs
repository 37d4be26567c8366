//! Validated data types for the virtual machine: memory addresses, 4-bit
//! fields, raw instruction words, and the field-extraction arithmetic that
//! the decoder is specified against.
//!
//! Each type wraps a raw integer; `wf` says that the value is in the type's
//! domain. Constructors establish `wf`, and consumers carry it in contracts,
//! so a value is validated once, at construction, and never re-checked.

use vstd::prelude::*;

verus! {

/// Number of distinct memory addresses: addresses are 12-bit values.
pub const ADDRESS_DOMAIN_SIZE: usize = 4096;

/// A raw 8-bit value carried by an instruction.
pub type Word = u8;

/// A memory address; well-formed when below `ADDRESS_DOMAIN_SIZE`.
#[derive(Clone, Copy, Debug, PartialEq, Eq, Structural)]
pub struct Address {
    pub value: u16,
}

impl View for Address {
    type V = int;

    open spec fn view(&self) -> int {
        self.value as int
    }
}

impl Address {
    pub open spec fn wf(self) -> bool {
        self.value < 4096
    }

    /// The address with the given value, which must be in range.
    pub fn new(value: u16) -> (a: Address)
        requires
            value < 4096,
        ensures
            a@ == value,
            a.wf(),
    {
        Address { value }
    }

    /// Validated conversion from raw bits.
    pub fn try_from_u16(value: u16) -> (r: Option<Address>)
        ensures
            value < 4096 ==> r == Some((Address { value })),
            value >= 4096 ==> r is None,
    {
        if value < 4096 {
            Some(Address { value })
        } else {
            None
        }
    }

    pub fn as_usize(&self) -> (r: usize)
        ensures
            r == self@,
    {
        self.value as usize
    }

    pub fn as_u16(&self) -> (r: u16)
        ensures
            r == self@,
    {
        self.value
    }
}

/// A 4-bit value; well-formed when below 16. Also used as a register index
/// and as a keypad index, both of which range over the same domain.
#[derive(Clone, Copy, Debug, PartialEq, Eq, Structural)]
pub struct Nibble {
    pub value: u8,
}

/// Index of one of the 16 general-purpose registers.
pub type RegisterIndex = Nibble;

/// Index of one of the 16 keypad keys.
pub type Key = Nibble;

impl View for Nibble {
    type V = int;

    open spec fn view(&self) -> int {
        self.value as int
    }
}

impl Nibble {
    pub open spec fn wf(self) -> bool {
        self.value < 16
    }

    /// The nibble with the given value, which must be in range.
    pub fn new(value: u8) -> (n: Nibble)
        requires
            value < 16,
        ensures
            n@ == value,
            n.wf(),
    {
        Nibble { value }
    }

    /// Validated conversion from a raw byte.
    pub fn try_from_u8(value: u8) -> (r: Option<Nibble>)
        ensures
            value < 16 ==> r == Some((Nibble { value })),
            value >= 16 ==> r is None,
    {
        if value < 16 {
            Some(Nibble { value })
        } else {
            None
        }
    }

    pub fn as_u8(&self) -> (r: u8)
        ensures
            r == self@,
    {
        self.value
    }

    pub fn as_usize(&self) -> (r: usize)
        ensures
            r == self@,
    {
        self.value as usize
    }
}

/// A raw 16-bit instruction word, as fetched from memory.
#[derive(Clone, Copy, Debug, PartialEq, Eq, Structural)]
pub struct OpCode {
    pub value: u16,
}

impl View for OpCode {
    type V = int;

    open spec fn view(&self) -> int {
        self.value as int
    }
}

/// The `i`-th 4-bit field of an instruction word, counting from the least
/// significant end: field 3 is the high nibble.
pub open spec fn op_nibble(code: int, i: int) -> int {
    if i == 0 {
        code % 16
    } else if i == 1 {
        (code / 16) % 16
    } else if i == 2 {
        (code / 256) % 16
    } else {
        code / 4096
    }
}

/// The low 8 bits of an instruction word.
pub open spec fn op_word(code: int) -> int {
    code % 256
}

/// The low 12 bits of an instruction word.
pub open spec fn op_address(code: int) -> int {
    code % 4096
}

impl OpCode {
    pub fn new(value: u16) -> (c: OpCode)
        ensures
            c@ == value,
    {
        OpCode { value }
    }

    pub fn as_u16(&self) -> (r: u16)
        ensures
            r == self@,
    {
        self.value
    }

    /// The `i`-th 4-bit field, counting from the least significant end.
    pub fn extract_nibble(&self, i: usize) -> (n: Nibble)
        requires
            i < 4,
        ensures
            n@ == op_nibble(self@, i as int),
            n.wf(),
    {
        let v = self.value;
        if i == 0 {
            assert((v & 0xf) == v % 16 && (v & 0xf) < 16) by (bit_vector);
            Nibble { value: (v & 0xf) as u8 }
        } else if i == 1 {
            assert(((v >> 4u16) & 0xf) == (v / 16) % 16 && ((v >> 4u16) & 0xf) < 16)
                by (bit_vector);
            Nibble { value: ((v >> 4u16) & 0xf) as u8 }
        } else if i == 2 {
            assert(((v >> 8u16) & 0xf) == (v / 256) % 16 && ((v >> 8u16) & 0xf) < 16)
                by (bit_vector);
            Nibble { value: ((v >> 8u16) & 0xf) as u8 }
        } else {
            assert((v >> 12u16) == v / 4096 && (v >> 12u16) < 16) by (bit_vector);
            Nibble { value: (v >> 12u16) as u8 }
        }
    }

    /// The `i`-th 8-bit field: field 0 is the low byte.
    pub fn extract_word(&self, i: usize) -> (w: Word)
        requires
            i < 2,
        ensures
            i == 0 ==> w == op_word(self@),
            i == 1 ==> w == self@ / 256,
    {
        let v = self.value;
        if i == 0 {
            assert((v & 0xff) == v % 256 && (v & 0xff) < 256) by (bit_vector);
            (v & 0xff) as u8
        } else {
            assert((v >> 8u16) == v / 256 && (v >> 8u16) < 256) by (bit_vector);
            (v >> 8u16) as u8
        }
    }

    /// The low 12 bits, as a memory address.
    pub fn extract_address(&self) -> (a: Address)
        ensures
            a@ == op_address(self@),
            a.wf(),
    {
        let v = self.value;
        assert((v & 0xfff) == v % 4096 && (v & 0xfff) < 4096) by (bit_vector);
        Address { value: v & 0xfff }
    }
}

} // verus!
