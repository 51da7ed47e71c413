//! Two tiny arithmetic functions.

use vstd::prelude::*;

verus! {

/// The constant five.
pub fn five() -> (n: i32)
    ensures
        n == 5,
{
    5
}

/// The successor of a signed integer.
pub fn plus_one(n: i32) -> (successor: i32)
    requires
        n < i32::MAX,
    ensures
        successor == n + 1,
{
    n + 1
}

} // verus!
