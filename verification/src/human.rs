//! Human-readable byte counts, supplied by the `humansize` crate behind
//! a trusted wrapper.  The rendering is referred to only through the
//! name `human_size_of`.

use vstd::prelude::*;

verus! {

/// What `humansize::format_size` renders for a byte count under the
/// decimal (SI) options.  The rendering depends on the number alone, so
/// it gets a name rather than a page-long description.
pub uninterp spec fn human_size_of(n: u64) -> Seq<char>;

/// Relies on `humansize::format_size` with `humansize::DECIMAL`: renders
/// `n` bytes with an SI unit, a pure function of `n`.
#[verifier::external_body]
pub(crate) fn humanize(n: u64) -> (r: String)
    ensures
        r@ == human_size_of(n),
{
    humansize::format_size(n, humansize::DECIMAL)
}

} // verus!
