//! Borrowed excerpts of a text: the longer of two slices, a stored excerpt,
//! and the first word of a slice.

use vstd::prelude::*;
use vstd::string::StrSliceExecFns;

use crate::text::find_char;
use crate::text::first_index_of;
use crate::text::lemma_first_index_of;

verus! {

/// The longer of two string slices, measured in characters; the second
/// when they are equally long.
pub fn longest<'a>(x: &'a str, y: &'a str) -> (longer: &'a str)
    ensures
        longer@ == (if x@.len() > y@.len() {
            x@
        } else {
            y@
        }),
{
    if x.unicode_len() > y.unicode_len() {
        x
    } else {
        y
    }
}

/// An excerpt borrowed from a longer text.
pub struct ImportantExcerpt<'a> {
    pub part: &'a str,
}

impl<'a> ImportantExcerpt<'a> {
    /// The fixed rank of every excerpt.
    pub fn level(&self) -> (rank: i32)
        ensures
            rank == 3,
    {
        3
    }

    /// Hands the stored excerpt back; announcing it is the caller's
    /// business.
    pub fn announce_and_return_part(&self, _announcement: &str) -> (part: &str)
        ensures
            part@ == self.part@,
    {
        self.part
    }
}

/// The first word of a string slice: everything before the first space, or
/// the whole slice when it has no space.
pub fn first_word(s: &str) -> (word: &str)
    ensures
        word@ == s@.take(first_index_of(s@, ' ')),
{
    proof {
        lemma_first_index_of(s@, ' ');
    }
    let end = find_char(s, ' ');
    s.substring_char(0, end)
}

} // verus!
