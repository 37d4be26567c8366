//! A persistent stack: pushing and popping return new stacks that share
//! structure with the old ones, which all remain usable.

use vstd::prelude::*;
use std::rc::Rc;

verus! {

struct Node<T> {
    value: Rc<T>,
    next: Option<Rc<Node<T>>>,
}

/// The values hanging off a node chain, top first.
closed spec fn chain_seq<T>(n: Option<Rc<Node<T>>>) -> Seq<T>
    decreases n,
{
    match n {
        None => Seq::empty(),
        Some(node) => seq![*node.value] + chain_seq(node.next),
    }
}

/// A persistent stack; its view lists the values top first.
pub struct PStack<T> {
    head: Option<Rc<Node<T>>>,
    len: usize,
}

impl<T> View for PStack<T> {
    type V = Seq<T>;

    closed spec fn view(&self) -> Seq<T> {
        chain_seq(self.head)
    }
}

impl<T> PStack<T> {
    #[verifier::type_invariant]
    spec fn type_inv(self) -> bool {
        self.len == chain_seq(self.head).len()
    }

    /// The empty stack.
    pub fn new() -> (s: PStack<T>)
        ensures
            s@ == Seq::<T>::empty(),
    {
        let s = PStack { head: None, len: 0 };
        proof {
            assert(chain_seq(s.head) =~= Seq::<T>::empty());
        }
        s
    }

    /// The stack with `value` on top of this one. This stack stays as it
    /// is.
    pub fn push(&self, value: T) -> (s: PStack<T>)
        requires
            self@.len() < usize::MAX,
        ensures
            s@ == seq![value] + self@,
    {
        proof {
            use_type_invariant(self);
        }
        let head = match &self.head {
            None => None,
            Some(rc) => Some(Rc::clone(rc)),
        };
        PStack {
            head: Some(Rc::new(Node { value: Rc::new(value), next: head })),
            len: self.len + 1,
        }
    }

    /// The top value and the stack below it, or nothing when empty. This
    /// stack stays as it is.
    pub fn pop(&self) -> (r: Option<(Rc<T>, PStack<T>)>)
        ensures
            self@.len() == 0 ==> r is None,
            self@.len() > 0 ==> (r matches Some((v, rest)) && *v == self@[0] && rest@ == self@
                .drop_first()),
    {
        proof {
            use_type_invariant(self);
        }
        match &self.head {
            None => None,
            Some(node) => {
                let rest_head = match &node.next {
                    None => None,
                    Some(rc) => Some(Rc::clone(rc)),
                };
                let rest = PStack { head: rest_head, len: self.len - 1 };
                proof {
                    assert(rest@ =~= self@.drop_first());
                }
                Some((Rc::clone(&node.value), rest))
            },
        }
    }

    /// How many values are on the stack.
    pub fn len(&self) -> (l: usize)
        ensures
            l == self@.len(),
    {
        proof {
            use_type_invariant(self);
        }
        self.len
    }

    /// Whether the stack is empty.
    pub fn is_empty(&self) -> (e: bool)
        ensures
            e == (self@.len() == 0),
    {
        proof {
            use_type_invariant(self);
        }
        self.len == 0
    }

    /// An iterator over the values, top first.
    pub fn iter(&self) -> (it: PStackIter<T>)
        ensures
            it@ == self@,
    {
        let head = match &self.head {
            None => None,
            Some(rc) => Some(Rc::clone(rc)),
        };
        PStackIter { next: head }
    }
}

impl<T> Clone for PStack<T> {
    /// A clone shares the same nodes and holds the same values.
    fn clone(&self) -> (s: PStack<T>)
        ensures
            s@ == self@,
    {
        proof {
            use_type_invariant(self);
        }
        let head = match &self.head {
            None => None,
            Some(rc) => Some(Rc::clone(rc)),
        };
        PStack { head, len: self.len }
    }
}

impl<T> Default for PStack<T> {
    fn default() -> (s: PStack<T>)
        ensures
            s@ == Seq::<T>::empty(),
    {
        PStack::new()
    }
}

/// Iterator over a persistent stack; its view lists the values still to
/// come.
pub struct PStackIter<T> {
    next: Option<Rc<Node<T>>>,
}

impl<T> View for PStackIter<T> {
    type V = Seq<T>;

    closed spec fn view(&self) -> Seq<T> {
        chain_seq(self.next)
    }
}

impl<T> PStackIter<T> {
    /// The next value, top first, or nothing once exhausted.
    pub fn next(&mut self) -> (r: Option<Rc<T>>)
        ensures
            old(self)@.len() == 0 ==> r is None && final(self)@ == old(self)@,
            old(self)@.len() > 0 ==> (r matches Some(v) && *v == old(self)@[0] && final(self)@
                == old(self)@.drop_first()),
    {
        let mut taken: Option<Rc<Node<T>>> = None;
        std::mem::swap(&mut taken, &mut self.next);
        match taken {
            None => None,
            Some(node) => {
                self.next = match &node.next {
                    None => None,
                    Some(rc) => Some(Rc::clone(rc)),
                };
                proof {
                    assert(self@ =~= old(self)@.drop_first());
                }
                Some(Rc::clone(&node.value))
            },
        }
    }
}

} // verus!
