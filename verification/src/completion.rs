//! What the wrapper asks of its surroundings after a completion.

use vstd::prelude::*;

verus! {

/// The action that follows one receive completion of the transport.
///
/// `E` is the transport's status code. The wrapper never looks inside it: it
/// hands on the code of the completion that made the callback fire.
#[derive(Debug, PartialEq, Eq)]
pub enum Completion<E> {
    /// Hand the buffer to the client: `length` bytes of it are valid.
    Deliver { length: usize, error: E },
    /// The scan is over and the terminator did not come: the buffer is full.
    /// Hand it to the client with `length` bytes and this condition.
    CapacityExceeded { length: usize, error: E },
    /// The scan goes on: ask the transport for `length` more bytes on the
    /// same buffer.
    Receive { length: usize },
}

impl<E> Completion<E> {
    /// Whether the client hears of this completion.
    pub open spec fn reported(self) -> bool {
        !(self is Receive)
    }
}

} // verus!
