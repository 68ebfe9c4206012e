//! Small functions on plain values.

use vstd::prelude::*;

verus! {

/// Twice `n`.
pub fn double(n: i32) -> (twice: i32)
    requires
        i32::MIN <= 2 * n <= i32::MAX,
    ensures
        twice == 2 * n,
{
    n * 2
}

/// A value that is always there.
pub fn frobnicator() -> (found: Option<i32>)
    ensures
        found == Some(3i32),
{
    Some(3)
}

} // verus!
