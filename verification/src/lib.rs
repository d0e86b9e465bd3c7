//! Delimiter-based framing on top of a one-shot, interrupt-driven byte
//! transport: the decisions of a receive-until-terminator scan, as a state
//! machine that is resumed once per hardware completion.

pub mod completion;
pub mod progress;
pub mod receiver;
pub mod scan;
