//! The two bounds of a range of indices, and the half-open range that they
//! denote.

use vstd::prelude::*;

verus! {

/// One end of a range of indices.
#[derive(Clone, Copy, Debug, PartialEq, Eq, Structural)]
pub enum Bound {
    /// The range reaches the index itself.
    Included(usize),
    /// The range stops short of the index.
    Excluded(usize),
    /// The range has no limit on this side.
    Unbounded,
}

/// The first index of a range that starts at `start`.
pub open spec fn first_index(start: Bound) -> int {
    match start {
        Bound::Included(s) => s as int,
        Bound::Excluded(s) => s + 1,
        Bound::Unbounded => 0,
    }
}

/// The index one past the last of a range that ends at `end`, over `len`
/// items.
pub open spec fn end_index(end: Bound, len: nat) -> int {
    match end {
        Bound::Included(e) => e + 1,
        Bound::Excluded(e) => e as int,
        Bound::Unbounded => len as int,
    }
}

/// The half-open range `[first, end)` that the two bounds denote over `len`
/// items, where it holds at least one index and none beyond `len`.
pub open spec fn spec_normalize(start: Bound, end: Bound, len: nat) -> Option<(int, int)> {
    let first: int = first_index(start);
    let past: int = end_index(end, len);
    if first < past <= len {
        Some((first, past))
    } else {
        None
    }
}

/// No range is accepted over zero items.
pub proof fn lemma_nothing_in_empty(start: Bound, end: Bound)
    ensures
        spec_normalize(start, end, 0) is None,
{
}

/// Brings the two bounds of a range over `len` items to the half-open form
/// `[first, end)`. The result is `None` where the range is empty or reaches
/// beyond `len`.
pub fn normalize(start: Bound, end: Bound, len: usize) -> (r: Option<(usize, usize)>)
    ensures
        match r {
            Some((first, past)) => spec_normalize(start, end, len as nat) == Some(
                (first as int, past as int),
            ),
            None => spec_normalize(start, end, len as nat) is None,
        },
{
    let first: usize = match start {
        Bound::Included(s) => s,
        Bound::Excluded(s) => {
            if s == usize::MAX {
                return None;
            }
            s + 1
        },
        Bound::Unbounded => 0,
    };
    let past: usize = match end {
        Bound::Included(e) => {
            if e == usize::MAX {
                return None;
            }
            e + 1
        },
        Bound::Excluded(e) => e,
        Bound::Unbounded => len,
    };
    if first < past && past <= len {
        Some((first, past))
    } else {
        None
    }
}

} // verus!
