//! The progress of a scan, persisted between two completions, and what one
//! completion makes of it.
//!
//! The transport can only write at offset 0 of the buffer it is given, so a
//! scan asks for one byte at a time. Each byte lands at position 0 and is
//! copied from there to its own position; the byte that truly belongs at
//! position 0 is kept aside and put back when the scan ends.

use vstd::prelude::*;
use crate::completion::Completion;

verus! {

/// Where the wrapper stands between two completions of the transport.
#[derive(Clone, Copy, Debug, PartialEq, Eq, Structural)]
pub enum Progress {
    /// No scan is in progress: completions pass straight through.
    Normal,
    /// A scan is in progress.
    Seeking {
        /// Bytes already confirmed and placed at their final position.
        index: usize,
        /// The byte that ends the scan.
        terminator: u8,
        /// The true value of position 0, which every one-byte read overwrites.
        first_byte: u8,
    },
}

impl Progress {
    /// The state that a new scan for `terminator` starts in.
    pub open spec fn start(terminator: u8) -> Progress {
        Progress::Seeking { index: 0, terminator, first_byte: 0 }
    }

    /// The byte just received is the terminator, and it has a place in `buf`.
    pub open spec fn finds(self, buf: Seq<u8>) -> bool {
        self matches Progress::Seeking { index, terminator, .. } && index < buf.len() && buf[0]
            == terminator
    }

    /// The byte just received is not the terminator, and a further byte has
    /// a place in `buf`.
    pub open spec fn continues(self, buf: Seq<u8>) -> bool {
        self matches Progress::Seeking { index, terminator, .. } && index + 1 < buf.len() && buf[0]
            != terminator
    }

    /// The scan ends without the terminator: the byte just received is not
    /// the terminator and fills the last place of `buf`, or has no place in
    /// it at all.
    pub open spec fn overflows(self, buf: Seq<u8>) -> bool {
        self is Seeking && !self.finds(buf) && !self.continues(buf)
    }

    /// The state after a completion that came with the buffer `buf`.
    pub open spec fn next(self, buf: Seq<u8>) -> Progress {
        match self {
            Progress::Normal => Progress::Normal,
            Progress::Seeking { index, terminator, first_byte } => if self.continues(buf) {
                Progress::Seeking {
                    index: (index + 1) as usize,
                    terminator,
                    first_byte: if index == 0 {
                        buf[0]
                    } else {
                        first_byte
                    },
                }
            } else {
                Progress::Normal
            },
        }
    }

    /// The buffer after a completion that came with the buffer `buf`.
    ///
    /// From the second byte of a scan on, the byte at position 0 is copied to
    /// position `index` where the buffer has one. When the scan ends there,
    /// position 0 gets the first byte of the scan back.
    pub open spec fn settle(self, buf: Seq<u8>) -> Seq<u8> {
        match self {
            Progress::Normal => buf,
            Progress::Seeking { index, terminator, first_byte } => if index == 0 || buf.len()
                == 0 {
                buf
            } else {
                let placed = if index < buf.len() {
                    buf.update(index as int, buf[0])
                } else {
                    buf
                };
                if self.continues(buf) {
                    placed
                } else {
                    placed.update(0, first_byte)
                }
            },
        }
    }

    /// What follows a completion that came with the buffer `buf`, the byte
    /// count `rx_len` and the status `error`.
    pub open spec fn completion<E>(self, buf: Seq<u8>, rx_len: usize, error: E) -> Completion<E> {
        match self {
            Progress::Normal => Completion::Deliver { length: rx_len, error },
            Progress::Seeking { index, .. } => if self.finds(buf) {
                Completion::Deliver { length: (index + 1) as usize, error }
            } else if self.continues(buf) {
                Completion::Receive { length: 1 }
            } else {
                Completion::CapacityExceeded { length: buf.len() as usize, error }
            },
        }
    }
}

} // verus!
