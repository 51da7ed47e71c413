//! Word and line extraction: the first word of a text, the rest after the
//! first word, and the last character of the first line.

use vstd::prelude::*;
use vstd::string::StrSliceExecFns;

use crate::text::find_char;
use crate::text::first_index_of;
use crate::text::lemma_first_index_of;
use crate::text::lines_of;

verus! {

/// Index of the first space in the text, or the text's length when it has
/// no space: where its first word ends.
pub fn first_word_without_slice(s: &String) -> (end: usize)
    ensures
        end == first_index_of(s@, ' '),
{
    find_char(s.as_str(), ' ')
}

/// The first word of the text: everything before the first space, or the
/// whole text when it has no space.
pub fn first_word_with_slice(s: &String) -> (word: &str)
    ensures
        word@ == s@.take(first_index_of(s@, ' ')),
{
    proof {
        lemma_first_index_of(s@, ' ');
    }
    let end = find_char(s.as_str(), ' ');
    s.as_str().substring_char(0, end)
}

/// Everything after the first space of the text, or the whole text when it
/// has no space.
pub fn second_word_with_slice(s: &String) -> (word: &str)
    ensures
        word@ == (if first_index_of(s@, ' ') < s@.len() {
            s@.skip(first_index_of(s@, ' ') + 1)
        } else {
            s@
        }),
{
    proof {
        lemma_first_index_of(s@, ' ');
    }
    let end = find_char(s.as_str(), ' ');
    let n = s.as_str().unicode_len();
    if end < n {
        s.as_str().substring_char(end + 1, n)
    } else {
        proof {
            assert(s@.subrange(0, n as int) =~= s@);
        }
        s.as_str().substring_char(0, n)
    }
}

/// The first word of a string slice: everything before the first space, or
/// the whole slice when it has no space.
pub fn get_first_word(s: &str) -> (word: &str)
    ensures
        word@ == s@.take(first_index_of(s@, ' ')),
{
    proof {
        lemma_first_index_of(s@, ' ');
    }
    let end = find_char(s, ' ');
    s.substring_char(0, end)
}

/// The last character of the first line of the text, or nothing when the
/// text is empty or starts with a line feed.
pub fn last_char_of_first_line(text: &str) -> (last: Option<char>)
    ensures
        last == (if lines_of(text@).len() > 0 && lines_of(text@)[0].len() > 0 {
            Some(lines_of(text@)[0][lines_of(text@)[0].len() - 1])
        } else {
            None::<char>
        }),
{
    let n = text.unicode_len();
    let k = find_char(text, '\n');
    proof {
        lemma_first_index_of(text@, '\n');
        if n > 0 {
            if k == n {
                assert(lines_of(text@) == seq![text@]);
                assert(text@.subrange(0, k as int) =~= text@);
            } else {
                assert(lines_of(text@)[0] == text@.subrange(0, k as int));
            }
        }
    }
    if k == 0 {
        None
    } else {
        Some(text.get_char(k - 1))
    }
}

} // verus!
