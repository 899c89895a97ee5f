//! The arc predicate of the identifier ring.

use vstd::prelude::*;

verus! {

/// `key` lies on the open-closed clockwise arc `(start, end]`. When `start`
/// is not below `end` the arc wraps around the top of the ring; in
/// particular the arc from a point to itself is the whole ring.
pub open spec fn between(start: int, key: int, end: int) -> bool {
    if start < end {
        start < key && key <= end
    } else {
        key > start || key <= end
    }
}

/// Whether `key` lies on the clockwise arc from `start`, exclusive, to
/// `end`, inclusive.
pub fn is_between(start: u32, key: u32, end: u32) -> (r: bool)
    ensures
        r == between(start as int, key as int, end as int),
{
    if start < end {
        key > start && key <= end
    } else {
        key > start || key <= end
    }
}

} // verus!
