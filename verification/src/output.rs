//! Progress lines go to standard output through one trusted wrapper.

use vstd::prelude::*;
use std::io::Write;

verus! {

/// Relies on `std::io::stdout`: prints `s` and a newline to standard
/// output.  A write error is ignored, as a progress line is best
/// effort.
#[verifier::external_body]
pub(crate) fn print_line(s: &str) {
    let _ = writeln!(std::io::stdout(), "{}", s);
}

} // verus!
