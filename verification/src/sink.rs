//! Sinks are the destinations that formatted messages are delivered to.

pub mod console;

pub use self::console::Console;

use vstd::prelude::*;

verus! {

/// A destination for formatted messages.
///
/// A message handed to `write` is complete and free of line breaks; the sink
/// adds whatever terminator its destination needs. A sink may be shared
/// between threads, and it never reports a failure to its caller: what
/// cannot be written is dropped.
pub trait Sink: Send + Sync {
    /// Delivers one message.
    fn write(&self, message: &str);
}

} // verus!
