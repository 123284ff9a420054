use vstd::prelude::*;
use std::io::Write;

verus! {

/// The log and progress sink a shell hands the core: one entry
/// point, called synchronously, expected to be cheap.
pub trait Logger {
    /// Receives one log line of the given severity.
    fn line(&self, level: &'static str, msg: &str);
}

/// A sink that prints each line to standard output.
pub struct StdoutLogger;

/// Relies on std::io::Stdout::write_fmt: prints the line with its
/// severity tag.
#[verifier::external_body]
fn print_line(level: &str, msg: &str) {
    let _ = writeln!(std::io::stdout(), "[{level}] {msg}");
}

impl Logger for StdoutLogger {
    fn line(&self, level: &'static str, msg: &str) {
        print_line(level, msg);
    }
}

} // verus!
