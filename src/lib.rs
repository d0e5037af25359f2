//! Bounded capture of a thread's call stack.
//!
//! The walk over frame records is carried out on a snapshot of stack words
//! (`StackSnapshot`), so every read it makes is checked against the snapshot
//! and the optional stack bounds before it happens.

use vstd::prelude::*;

pub mod address;
pub mod memory;
pub mod stacktrace;
pub mod laws;

pub use address::previous_pc;
pub use memory::StackSnapshot;
pub use stacktrace::{Stacktrace, UnwindRequest};

verus! {

/// The largest depth that a single unwind may ask for, and the capacity of
/// every trace buffer.
pub const STACK_TRACE_MAX: u32 = 255;

} // verus!
