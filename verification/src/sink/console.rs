//! The sink that prints to standard output.

use crate::sink::Sink;
use std::io::Write;
use vstd::prelude::*;

verus! {

/// Writes `message` and a line break to the standard output stream with one
/// `write_fmt` call on `std::io::Stdout`, which holds the stream's lock for
/// the whole line. A failed write is dropped.
///
/// Trusted: nothing is claimed of the call.
#[verifier::external_body]
fn print_line(message: &str) {
    let _ = writeln!(std::io::stdout(), "{}", message);
}

/// A sink that prints each message as one line on standard output.
#[derive(Clone, Copy, Debug)]
pub struct Console;

impl Console {
    /// A console sink.
    pub fn new() -> (r: Self)
        ensures
            r == Console,
    {
        Console
    }
}

impl Sink for Console {
    fn write(&self, message: &str) {
        print_line(message);
    }
}

impl Default for Console {
    fn default() -> (r: Self)
        ensures
            r == Console,
    {
        Console
    }
}

} // verus!
