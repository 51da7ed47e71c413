//! Reading a number from a line of input: trimming the surrounding
//! whitespace and reading an optionally signed run of decimal digits.

use vstd::prelude::*;
use vstd::string::StrSliceExecFns;

verus! {

/// The four whitespace characters that input lines carry: space, tab,
/// carriage return and line feed.
pub open spec fn is_ascii_space(c: char) -> bool {
    c == ' ' || c == '\t' || c == '\r' || c == '\n'
}

/// How many whitespace characters the text starts with.
pub open spec fn leading_spaces(s: Seq<char>) -> int
    decreases s.len(),
{
    if s.len() == 0 {
        0
    } else if !is_ascii_space(s[0]) {
        0
    } else {
        1 + leading_spaces(s.skip(1))
    }
}

/// How many whitespace characters the text ends with.
pub open spec fn trailing_spaces(s: Seq<char>) -> int
    decreases s.len(),
{
    if s.len() == 0 {
        0
    } else if !is_ascii_space(s.last()) {
        0
    } else {
        1 + trailing_spaces(s.drop_last())
    }
}

/// The text with its leading and trailing whitespace removed.
pub open spec fn trim_spec(s: Seq<char>) -> Seq<char> {
    let rest = s.skip(leading_spaces(s));
    rest.take(rest.len() - trailing_spaces(rest))
}

/// A count of whitespace characters at the front with a non-space (or the
/// end) behind it is the leading whitespace count.
proof fn lemma_leading_spaces_is(s: Seq<char>, a: int)
    requires
        0 <= a <= s.len(),
        forall|j: int| 0 <= j < a ==> is_ascii_space(s[j]),
        a < s.len() ==> !is_ascii_space(s[a]),
    ensures
        leading_spaces(s) == a,
    decreases s.len(),
{
    if s.len() == 0 {
    } else if a == 0 {
    } else {
        assert(is_ascii_space(s[0]));
        assert forall|j: int| 0 <= j < a - 1 implies is_ascii_space(s.skip(1)[j]) by {
            assert(s.skip(1)[j] == s[j + 1]);
        }
        if a - 1 < s.skip(1).len() {
            assert(s.skip(1)[a - 1] == s[a]);
        }
        lemma_leading_spaces_is(s.skip(1), a - 1);
    }
}

/// A count of whitespace characters at the back with a non-space (or the
/// start) before it is the trailing whitespace count.
proof fn lemma_trailing_spaces_is(s: Seq<char>, k: int)
    requires
        0 <= k <= s.len(),
        forall|j: int| s.len() - k <= j < s.len() ==> is_ascii_space(s[j]),
        k < s.len() ==> !is_ascii_space(s[s.len() - k - 1]),
    ensures
        trailing_spaces(s) == k,
    decreases s.len(),
{
    if s.len() == 0 {
    } else if k == 0 {
    } else {
        assert(is_ascii_space(s.last()));
        assert forall|j: int|
            s.drop_last().len() - (k - 1) <= j < s.drop_last().len() implies is_ascii_space(
            s.drop_last()[j],
        ) by {
            assert(s.drop_last()[j] == s[j]);
        }
        lemma_trailing_spaces_is(s.drop_last(), k - 1);
    }
}

/// Checks whether a character is one of the four whitespace characters.
pub fn is_space_char(c: char) -> (space: bool)
    ensures
        space == is_ascii_space(c),
{
    c == ' ' || c == '\t' || c == '\r' || c == '\n'
}

/// How many whitespace characters the string starts with.
fn leading_space_count(s: &str) -> (a: usize)
    ensures
        a == leading_spaces(s@),
        a <= s@.len(),
{
    let n = s.unicode_len();
    let mut a: usize = 0;
    while a < n
        invariant
            a <= n,
            n == s@.len(),
            forall|j: int| 0 <= j < a ==> is_ascii_space(s@[j]),
        decreases n - a,
    {
        if !is_space_char(s.get_char(a)) {
            proof {
                lemma_leading_spaces_is(s@, a as int);
            }
            return a;
        }
        a = a + 1;
    }
    proof {
        lemma_leading_spaces_is(s@, n as int);
    }
    n
}

/// How many whitespace characters the string ends with.
fn trailing_space_count(s: &str) -> (k: usize)
    ensures
        k == trailing_spaces(s@),
        k <= s@.len(),
{
    let n = s.unicode_len();
    let mut b: usize = n;
    while b > 0
        invariant
            b <= n,
            n == s@.len(),
            forall|j: int| b <= j < n ==> is_ascii_space(s@[j]),
        decreases b,
    {
        if !is_space_char(s.get_char(b - 1)) {
            proof {
                lemma_trailing_spaces_is(s@, n - b);
            }
            return n - b;
        }
        b = b - 1;
    }
    proof {
        lemma_trailing_spaces_is(s@, n as int);
    }
    n
}

/// The string with its leading and trailing whitespace removed.
pub fn trim_ascii(s: &str) -> (trimmed: &str)
    ensures
        trimmed@ == trim_spec(s@),
{
    let n = s.unicode_len();
    let a = leading_space_count(s);
    let rest = s.substring_char(a, n);
    let k = trailing_space_count(rest);
    let trimmed = rest.substring_char(0, rest.unicode_len() - k);
    proof {
        assert(rest@ =~= s@.skip(leading_spaces(s@)));
        assert(trimmed@ =~= trim_spec(s@));
    }
    trimmed
}

/// A decimal digit.
pub open spec fn is_digit(c: char) -> bool {
    '0' as u32 <= c as u32 && c as u32 <= '9' as u32
}

/// The value of one decimal digit.
pub open spec fn digit_val(c: char) -> int {
    c as u32 - '0' as u32
}

/// Every character of the text is a decimal digit.
pub open spec fn all_digits(s: Seq<char>) -> bool {
    forall|i: int| 0 <= i < s.len() ==> is_digit(#[trigger] s[i])
}

/// The number a run of decimal digits denotes.
pub open spec fn digits_val(s: Seq<char>) -> int
    decreases s.len(),
{
    if s.len() == 0 {
        0
    } else {
        10 * digits_val(s.drop_last()) + digit_val(s.last())
    }
}

/// The text is an optionally signed, non-empty run of decimal digits.
pub open spec fn is_int_text(s: Seq<char>) -> bool {
    if s.len() == 0 {
        false
    } else if s[0] == '+' || s[0] == '-' {
        s.len() > 1 && all_digits(s.skip(1))
    } else {
        all_digits(s)
    }
}

/// The number an optionally signed run of decimal digits denotes.
pub open spec fn int_text_val(s: Seq<char>) -> int
    recommends
        is_int_text(s),
{
    if s.len() > 0 && s[0] == '-' {
        -digits_val(s.skip(1))
    } else if s.len() > 0 && s[0] == '+' {
        digits_val(s.skip(1))
    } else {
        digits_val(s)
    }
}

/// A run of decimal digits denotes a number that is not negative.
pub proof fn lemma_digits_val_nonneg(s: Seq<char>)
    requires
        all_digits(s),
    ensures
        digits_val(s) >= 0,
    decreases s.len(),
{
    if s.len() > 0 {
        assert forall|i: int| 0 <= i < s.drop_last().len() implies is_digit(
            #[trigger] s.drop_last()[i],
        ) by {
            assert(s.drop_last()[i] == s[i]);
        }
        lemma_digits_val_nonneg(s.drop_last());
        assert(is_digit(s.last()));
    }
}

/// A front part of a run of digits denotes no more than the whole run.
pub proof fn lemma_digits_val_take_le(s: Seq<char>, i: int)
    requires
        all_digits(s),
        0 <= i <= s.len(),
    ensures
        digits_val(s.take(i)) <= digits_val(s),
    decreases s.len() - i,
{
    if i == s.len() {
        assert(s.take(i) =~= s);
    } else {
        assert(s.take(i + 1).drop_last() =~= s.take(i));
        assert(s.take(i + 1).last() == s[i]);
        assert forall|j: int| 0 <= j < s.take(i).len() implies is_digit(
            #[trigger] s.take(i)[j],
        ) by {
            assert(s.take(i)[j] == s[j]);
        }
        lemma_digits_val_nonneg(s.take(i));
        assert(is_digit(s[i]));
        assert(digits_val(s.take(i + 1)) == 10 * digits_val(s.take(i)) + digit_val(s[i]));
        lemma_digits_val_take_le(s, i + 1);
    }
}

} // verus!
