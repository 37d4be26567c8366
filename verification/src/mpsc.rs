//! The verified core of a single-consumer channel: the shared buffer with
//! its open/closed state, and the channel's error values.

use vstd::prelude::*;
use std::collections::VecDeque;

verus! {

/// Whether a channel still accepts values.
#[derive(Clone, Copy, Debug, PartialEq, Eq, Structural)]
pub enum InnerState {
    Open,
    Closed,
}

impl Default for InnerState {
    /// A channel starts out open.
    fn default() -> (s: InnerState)
        ensures
            s == InnerState::Open,
    {
        InnerState::Open
    }
}

/// The shared state of a channel: the buffered values, oldest first, and
/// whether the channel is still open.
pub struct Inner<T> {
    buffer: VecDeque<T>,
    state: InnerState,
}

impl<T> View for Inner<T> {
    type V = Seq<T>;

    closed spec fn view(&self) -> Seq<T> {
        self.buffer@
    }
}

impl<T> Inner<T> {
    /// Whether the channel is open or closed.
    pub closed spec fn spec_state(&self) -> InnerState {
        self.state
    }

    /// An empty, open buffer.
    pub fn new() -> (inner: Inner<T>)
        ensures
            inner@ == Seq::<T>::empty(),
            inner.spec_state() == InnerState::Open,
    {
        Inner { buffer: VecDeque::new(), state: InnerState::Open }
    }

    /// Remove and return the oldest value, if any.
    pub fn pop_front(&mut self) -> (r: Option<T>)
        ensures
            final(self).spec_state() == old(self).spec_state(),
            old(self)@.len() == 0 ==> r is None && final(self)@ == old(self)@,
            old(self)@.len() > 0 ==> r == Some(old(self)@[0]) && final(self)@ == old(
                self,
            )@.drop_first(),
    {
        self.buffer.pop_front()
    }

    /// Append a value.
    pub fn push_back(&mut self, value: T)
        ensures
            final(self).spec_state() == old(self).spec_state(),
            final(self)@ == old(self)@.push(value),
    {
        self.buffer.push_back(value);
    }

    /// Whether no value is buffered.
    pub fn is_empty(&self) -> (e: bool)
        ensures
            e == (self@.len() == 0),
    {
        self.buffer.len() == 0
    }

    /// Whether the channel is open or closed.
    pub fn state(&self) -> (s: InnerState)
        ensures
            s == self.spec_state(),
    {
        self.state
    }

    /// Open or close the channel.
    pub fn change_state(&mut self, state: InnerState)
        ensures
            final(self)@ == old(self)@,
            final(self).spec_state() == state,
    {
        self.state = state;
    }
}

impl<T> Default for Inner<T> {
    fn default() -> (inner: Inner<T>)
        ensures
            inner@ == Seq::<T>::empty(),
            inner.spec_state() == InnerState::Open,
    {
        Inner::new()
    }
}

/// Sending failed because the channel is closed; the value comes back.
pub struct SendError<T> {
    pub value: T,
}

impl<T> SendError<T> {
    /// A short description, for diagnostics.
    pub fn describe(&self) -> (r: &'static str)
        ensures
            r@ == "channel is closed"@,
    {
        "channel is closed"
    }
}

/// Why receiving failed.
#[derive(Clone, Copy, Debug, PartialEq, Eq, Structural)]
pub enum ReceiveError {
    /// The channel is open but holds no value.
    Empty,
    /// The channel is closed and drained.
    Closed,
}

impl ReceiveError {
    /// A short description, for diagnostics.
    pub fn describe(&self) -> (r: &'static str)
        ensures
            match self {
                ReceiveError::Empty => r@ == "channel is empty"@,
                ReceiveError::Closed => r@ == "channel is closed"@,
            },
    {
        match self {
            ReceiveError::Empty => "channel is empty",
            ReceiveError::Closed => "channel is closed",
        }
    }
}

/// What one receive attempt does, given the buffer contents and the
/// channel state: an open, empty channel asks the caller to wait; a closed
/// and drained channel reports closure; otherwise the oldest value comes
/// out.
pub open spec fn recv_outcome<T>(buffer: Seq<T>, state: InnerState) -> Result<T, ReceiveError> {
    if state is Open && buffer.len() == 0 {
        Err(ReceiveError::Empty)
    } else if buffer.len() == 0 {
        Err(ReceiveError::Closed)
    } else {
        Ok(buffer[0])
    }
}

impl<T> Inner<T> {
    /// One receive attempt against this buffer.
    pub fn recv_step(&mut self) -> (r: Result<T, ReceiveError>)
        ensures
            final(self).spec_state() == old(self).spec_state(),
            r == recv_outcome(old(self)@, old(self).spec_state()),
            old(self)@.len() > 0 ==> final(self)@ == old(self)@.drop_first(),
            old(self)@.len() == 0 ==> final(self)@ == old(self)@,
    {
        match self.state {
            InnerState::Open => {
                if self.buffer.len() == 0 {
                    return Err(ReceiveError::Empty);
                }
            },
            InnerState::Closed => {},
        }
        match self.buffer.pop_front() {
            Some(v) => Ok(v),
            None => Err(ReceiveError::Closed),
        }
    }
}

} // verus!
