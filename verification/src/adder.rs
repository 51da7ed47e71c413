//! Small arithmetic and comparison helpers, with a rectangle type.

use vstd::prelude::*;
use vstd::string::StringExecFns;

verus! {

/// Sum of two unsigned machine words.
pub fn add(left: usize, right: usize) -> (sum: usize)
    requires
        left + right <= usize::MAX,
    ensures
        sum == left + right,
{
    left + right
}

/// Adds two to a signed integer.
pub fn add_two(a: i32) -> (sum: i32)
    requires
        a + 2 <= i32::MAX,
    ensures
        sum == a + 2,
{
    a + 2
}

/// Builds the greeting line for a name: the fixed prefix followed by the name.
pub fn greeting(name: &str) -> (line: String)
    ensures
        line@ == "Hello, "@ + name@,
{
    let mut line = String::from_str("Hello, ");
    line.append(name);
    line
}

/// An axis-aligned rectangle given by its side lengths.
#[derive(Debug, PartialEq, Eq, Structural)]
pub struct Rectangle {
    pub width: u32,
    pub height: u32,
}

impl Rectangle {
    /// Whether `other` fits strictly inside `self` in both dimensions.
    pub fn can_hold(&self, other: &Rectangle) -> (fits: bool)
        ensures
            fits == (self.width > other.width && self.height > other.height),
    {
        self.width > other.width && self.height > other.height
    }
}

} // verus!
