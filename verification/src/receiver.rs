//! The terminator-seeking wrapper: one saved state, resumed by every receive
//! completion of the transport it wraps.

use vstd::prelude::*;
use crate::completion::Completion;
use crate::progress::Progress;

verus! {

/// A transport that can also receive until a terminator byte arrives.
pub trait UartReceiveUntilTerminator {
    /// The progress that the wrapper has saved.
    spec fn saved(&self) -> Progress;

    /// Starts a scan into `rx_buffer` that ends with the byte `terminator`,
    /// in place of whatever scan went before. Returns the number of bytes to
    /// ask the transport for.
    fn receive_until_terminator(&mut self, rx_buffer: &mut [u8], terminator: u8) -> (rx_len: usize)
        ensures
            final(self).saved() == Progress::start(terminator),
            final(rx_buffer)@ == old(rx_buffer)@,
            rx_len == 1,
    ;
}

/// The wrapper's side of the protocol: the progress of the scan, and the
/// decision that each receive completion calls for.
pub struct UartTerminatorReceiver {
    state: Progress,
}

impl View for UartTerminatorReceiver {
    type V = Progress;

    closed spec fn view(&self) -> Progress {
        self.state
    }
}

impl UartTerminatorReceiver {
    /// A wrapper with no scan in progress.
    pub fn new() -> (receiver: UartTerminatorReceiver)
        ensures
            receiver@ == Progress::Normal,
    {
        UartTerminatorReceiver { state: Progress::Normal }
    }

    /// The progress saved for the next completion.
    pub fn progress(&self) -> (p: Progress)
        ensures
            p == self@,
    {
        self.state
    }

    /// Takes one receive completion of the transport: the buffer it hands
    /// back, the byte count and the status it reports.
    ///
    /// With no scan in progress the completion goes to the client as it came.
    /// During a scan the byte count is not looked at: the byte is the one at
    /// position 0. It is put in its place; then the scan ends with the
    /// terminator, ends because the buffer is full, or goes on with a
    /// further one-byte receive.
    pub fn receive_complete<E>(&mut self, buffer: &mut [u8], rx_len: usize, error: E) -> (completion:
        Completion<E>)
        ensures
            final(self)@ == old(self)@.next(old(buffer)@),
            final(buffer)@ == old(self)@.settle(old(buffer)@),
            completion == old(self)@.completion(old(buffer)@, rx_len, error),
            old(self)@ == Progress::Normal ==> final(self)@ == Progress::Normal && final(buffer)@
                == old(buffer)@ && completion == (Completion::Deliver { length: rx_len, error }),
    {
        match self.state {
            Progress::Normal => Completion::Deliver { length: rx_len, error },
            Progress::Seeking { index, terminator, first_byte } => {
                let capacity: usize = buffer.len();
                if index >= capacity {
                    self.state = Progress::Normal;
                    if index > 0 && capacity > 0 {
                        buffer[0] = first_byte;
                    }
                    return Completion::CapacityExceeded { length: capacity, error };
                }
                let byte: u8 = buffer[0];
                if index > 0 {
                    buffer[index] = byte;
                }
                if byte == terminator {
                    self.state = Progress::Normal;
                    if index > 0 {
                        buffer[0] = first_byte;
                    }
                    Completion::Deliver { length: index + 1, error }
                } else if index + 1 == capacity {
                    self.state = Progress::Normal;
                    if index > 0 {
                        buffer[0] = first_byte;
                    }
                    Completion::CapacityExceeded { length: capacity, error }
                } else {
                    self.state = Progress::Seeking {
                        index: index + 1,
                        terminator,
                        first_byte: if index == 0 {
                            byte
                        } else {
                            first_byte
                        },
                    };
                    Completion::Receive { length: 1 }
                }
            },
        }
    }
}

impl UartReceiveUntilTerminator for UartTerminatorReceiver {
    open spec fn saved(&self) -> Progress {
        self@
    }

    fn receive_until_terminator(&mut self, rx_buffer: &mut [u8], terminator: u8) -> (rx_len: usize) {
        self.state = Progress::Seeking { index: 0, terminator, first_byte: 0 };
        1
    }
}

} // verus!
