//! Strings handed between owners: giving, taking and giving back, and
//! measuring on the way through.

use vstd::prelude::*;
use vstd::string::StrSliceExecFns;
use vstd::string::StringExecFns;

verus! {

/// A fresh string handed to the caller.
pub fn gives_ownership() -> (given: String)
    ensures
        given@ == "I will be passed to the caller"@,
{
    String::from_str("I will be passed to the caller")
}

/// Takes a string and hands the very same string back.
pub fn takes_and_gives_back(a_string: String) -> (returned: String)
    ensures
        returned == a_string,
{
    a_string
}

/// Hands the string back together with its length in characters.
pub fn calculate_length(s: String) -> (measured: (String, usize))
    ensures
        measured.0 == s,
        measured.1 == s@.len(),
{
    let length = s.as_str().unicode_len();
    (s, length)
}

/// Keeps the first of two strings and drops the second.
pub fn move_two(s1: String, _s2: String) -> (kept: String)
    ensures
        kept == s1,
{
    s1
}

} // verus!
