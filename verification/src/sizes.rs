//! Byte counts as people read them.
use vstd::prelude::*;

verus! {

/// The text that `humansize::format_size` gives for a byte count with the `BINARY` options.
pub uninterp spec fn human_size(bytes: u64) -> Seq<char>;

/// `humansize::format_size` with `humansize::BINARY`: the byte count in the largest fitting unit
/// of 1024s, rounded to two decimals. The digits come out of floating-point arithmetic, so the
/// text is named and not spelled out.
#[verifier::external_body]
pub(crate) fn format_size(bytes: u64) -> (r: String)
    ensures
        r@ == human_size(bytes),
{
    humansize::format_size(bytes, humansize::BINARY)
}

} // verus!
