//! Equality of string slices, as the handlers need it.

use vstd::prelude::*;

verus! {

/// `str`'s `==`: two slices are equal exactly when they hold the same
/// characters.
pub assume_specification[ <str as PartialEq>::eq ](a: &str, b: &str) -> (r: bool)
    ensures
        r == (a@ == b@),
;

/// Whether an optional endpoint is present and names `id`.
pub fn names(entry: &Option<String>, id: &str) -> (r: bool)
    ensures
        r == (entry.deep_view() == Some(id@)),
{
    match entry {
        Some(s) => *s.as_str() == *id,
        None => false,
    }
}

} // verus!
