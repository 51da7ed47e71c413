//! Strings reached through references: measuring without taking ownership
//! and growing through a mutable borrow.

use vstd::prelude::*;
use vstd::string::StrSliceExecFns;
use vstd::string::StringExecFns;

verus! {

/// The length of the borrowed string in characters.
pub fn calculate_length(s: &String) -> (length: usize)
    ensures
        length == s@.len(),
{
    s.as_str().unicode_len()
}

/// Appends ", world" to the borrowed string.
pub fn change(some_string: &mut String)
    ensures
        final(some_string)@ == old(some_string)@ + ", world"@,
{
    some_string.append(", world")
}

/// A fresh owned string, safely handed out of the function that made it.
pub fn no_dangle() -> (owned: String)
    ensures
        owned@ == "hello"@,
{
    String::from_str("hello")
}

} // verus!
