//! A vector with a fixed capacity `N`: pushes beyond the capacity are
//! refused and hand the element back.

use vstd::prelude::*;

verus! {

/// A growable sequence of at most `N` elements.
pub struct ArrayVec<T, const N: usize> {
    data: Vec<T>,
}

impl<T, const N: usize> View for ArrayVec<T, N> {
    type V = Seq<T>;

    closed spec fn view(&self) -> Seq<T> {
        self.data@
    }
}

impl<T, const N: usize> ArrayVec<T, N> {
    #[verifier::type_invariant]
    spec fn type_inv(self) -> bool {
        self.data@.len() <= N
    }

    /// An empty vector.
    pub fn new() -> (v: ArrayVec<T, N>)
        ensures
            v@ == Seq::<T>::empty(),
    {
        ArrayVec { data: Vec::new() }
    }

    /// How many elements are held.
    pub fn len(&self) -> (l: usize)
        ensures
            l == self@.len(),
    {
        self.data.len()
    }

    /// How many elements fit: always `N`.
    pub fn capacity(&self) -> (c: usize)
        ensures
            c == N,
    {
        N
    }

    /// Whether no element is held.
    pub fn is_empty(&self) -> (e: bool)
        ensures
            e == (self@.len() == 0),
    {
        self.data.is_empty()
    }

    /// Append an element; a full vector refuses and returns it.
    pub fn push(&mut self, obj: T) -> (r: Result<(), T>)
        ensures
            old(self)@.len() < N ==> r is Ok && final(self)@ == old(self)@.push(obj),
            old(self)@.len() >= N ==> r == Err::<(), T>(obj) && final(self)@ == old(self)@,
    {
        proof {
            use_type_invariant(&*self);
        }
        let mut data = Vec::new();
        std::mem::swap(&mut data, &mut self.data);
        if data.len() < N {
            data.push(obj);
            self.data = data;
            Ok(())
        } else {
            self.data = data;
            Err(obj)
        }
    }

    /// Remove and return the last element, if any.
    pub fn pop(&mut self) -> (r: Option<T>)
        ensures
            old(self)@.len() == 0 ==> r is None && final(self)@ == old(self)@,
            old(self)@.len() > 0 ==> r == Some(old(self)@.last()) && final(self)@ == old(
                self,
            )@.drop_last(),
    {
        proof {
            use_type_invariant(&*self);
        }
        let mut data = Vec::new();
        std::mem::swap(&mut data, &mut self.data);
        let r = data.pop();
        self.data = data;
        r
    }

    /// The element at `index`.
    pub fn get(&self, index: usize) -> (r: &T)
        requires
            index < self@.len(),
        ensures
            *r == self@[index as int],
    {
        &self.data[index]
    }
}

impl<T, const N: usize> Default for ArrayVec<T, N> {
    fn default() -> (v: ArrayVec<T, N>)
        ensures
            v@ == Seq::<T>::empty(),
    {
        ArrayVec::new()
    }
}

} // verus!
