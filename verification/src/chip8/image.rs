//! The program image contract: an external collaborator supplies an entry
//! address and a byte payload; the machine consumes those two facts and
//! nothing else.

use vstd::prelude::*;
use crate::chip8::data::Address;

verus! {

/// A source of a program image: an entry address, where execution starts,
/// and a payload, copied into memory at that address at load time.
pub trait Image: Sized {
    /// The entry address.
    spec fn spec_entry(&self) -> int;

    /// The bytes of the payload.
    spec fn spec_payload(&self) -> Seq<u8>;

    /// Where the program counter starts.
    fn entry_point(&self) -> (a: Address)
        ensures
            a@ == self.spec_entry(),
            a.wf(),
    ;

    /// The bytes to copy into memory at the entry address.
    fn payload(&self) -> (p: &Vec<u8>)
        ensures
            p@ == self.spec_payload(),
    ;
}

/// A program image held in memory.
pub struct MemoryImage {
    entry: Address,
    data: Vec<u8>,
}

impl MemoryImage {
    #[verifier::type_invariant]
    spec fn type_inv(self) -> bool {
        self.entry.wf()
    }

    pub fn new(entry: Address, data: Vec<u8>) -> (img: MemoryImage)
        requires
            entry.wf(),
        ensures
            img.spec_entry() == entry@,
            img.spec_payload() == data@,
    {
        MemoryImage { entry, data }
    }
}

impl Image for MemoryImage {
    closed spec fn spec_entry(&self) -> int {
        self.entry@
    }

    closed spec fn spec_payload(&self) -> Seq<u8> {
        self.data@
    }

    fn entry_point(&self) -> (a: Address) {
        proof {
            use_type_invariant(&*self);
        }
        self.entry
    }

    fn payload(&self) -> (p: &Vec<u8>) {
        &self.data
    }
}

} // verus!
