//! Byte-offset spans into the analyzed source text.

use vstd::prelude::*;

verus! {

/// A half-open byte range `[lo, hi)` into the original source text of one
/// module. Line/column translation happens only at the diagnostic boundary.
#[derive(Clone, Copy, PartialEq, Eq, Structural, Hash, Debug)]
pub struct Span {
    pub lo: u32,
    pub hi: u32,
}

impl Span {
    /// The whole of `inner` lies within `self`.
    pub open spec fn spec_contains(self, inner: Span) -> bool {
        self.lo <= inner.lo && inner.hi <= self.hi
    }

    pub fn new(lo: u32, hi: u32) -> (s: Span)
        ensures
            s == (Span { lo, hi }),
    {
        Span { lo, hi }
    }
}

} // verus!
