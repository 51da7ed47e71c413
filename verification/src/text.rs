//! The character-level model of a text: finding a character, splitting a
//! text into lines at the line feed character, and comparing strings.
//!
//! A text is modelled as its sequence of characters.  Its lines are the
//! maximal runs of characters that contain no line feed; the line feed that
//! ends a line is not part of the line, and the empty segment after a final
//! line feed is not a line.

use vstd::prelude::*;
use vstd::string::StrSliceExecFns;

verus! {

/// Index of the first occurrence of `c` in `s`, or `s.len()` if `c` does not
/// occur in `s`.
pub open spec fn first_index_of(s: Seq<char>, c: char) -> int
    decreases s.len(),
{
    if s.len() == 0 {
        0
    } else if s[0] == c {
        0
    } else {
        1 + first_index_of(s.skip(1), c)
    }
}

/// What `first_index_of` returns: an index within the text, pointing at the
/// first occurrence of the character if there is one.
pub proof fn lemma_first_index_of(s: Seq<char>, c: char)
    ensures
        0 <= first_index_of(s, c) <= s.len(),
        first_index_of(s, c) < s.len() ==> s[first_index_of(s, c)] == c,
        forall|j: int| 0 <= j < first_index_of(s, c) ==> s[j] != c,
    decreases s.len(),
{
    if s.len() == 0 {
    } else if s[0] == c {
    } else {
        lemma_first_index_of(s.skip(1), c);
        assert forall|j: int| 0 <= j < first_index_of(s, c) implies s[j] != c by {
            if j > 0 {
                assert(s.skip(1)[j - 1] == s[j]);
            }
        }
    }
}

/// Any index that points at `c` with no occurrence of `c` before it is the
/// first index of `c`.
pub proof fn lemma_first_index_of_unique(s: Seq<char>, c: char, i: int)
    requires
        0 <= i <= s.len(),
        i < s.len() ==> s[i] == c,
        forall|j: int| 0 <= j < i ==> s[j] != c,
        i == s.len() ==> forall|j: int| 0 <= j < s.len() ==> s[j] != c,
    ensures
        first_index_of(s, c) == i,
{
    lemma_first_index_of(s, c);
    let f = first_index_of(s, c);
    if f < i {
        assert(s[f] == c);
    } else if i < f {
        assert(s[i] != c);
    }
}

/// The lines of a text: the segments between line feeds, in order.  A line
/// feed ends the line before it; the empty segment after a final line feed
/// is not a line, so a text of length zero has no lines.
pub open spec fn lines_of(t: Seq<char>) -> Seq<Seq<char>>
    decreases t.len(),
    via lines_of_decreases
{
    if t.len() == 0 {
        Seq::empty()
    } else {
        let k = first_index_of(t, '\n');
        if k == t.len() {
            seq![t]
        } else {
            seq![t.subrange(0, k)] + lines_of(t.skip(k + 1))
        }
    }
}

#[via_fn]
proof fn lines_of_decreases(t: Seq<char>) {
    lemma_first_index_of(t, '\n');
}

/// Appending more text does not move the first occurrence of a character
/// that the front part already holds.
proof fn lemma_first_index_of_append(p: Seq<char>, s: Seq<char>, c: char)
    requires
        first_index_of(p, c) < p.len(),
    ensures
        first_index_of(p + s, c) == first_index_of(p, c),
    decreases p.len(),
{
    lemma_first_index_of(p, c);
    lemma_first_index_of(p + s, c);
    if p.len() > 0 {
        if p[0] == c {
            assert((p + s)[0] == c);
        } else {
            assert((p + s)[0] == p[0]);
            assert((p + s).skip(1) =~= p.skip(1) + s);
            assert(p.skip(1)[first_index_of(p, c) - 1] == p[first_index_of(p, c)]);
            lemma_first_index_of_unique(
                p.skip(1),
                c,
                first_index_of(p, c) - 1,
            );
            lemma_first_index_of_append(p.skip(1), s, c);
        }
    }
}

/// Splitting into lines distributes over concatenation at a line boundary:
/// if the front part is empty or ends with a line feed, the lines of the
/// whole are the lines of the front part followed by the lines of the rest.
pub proof fn lemma_lines_of_append(p: Seq<char>, s: Seq<char>)
    requires
        p.len() == 0 || p[p.len() - 1] == '\n',
    ensures
        lines_of(p + s) == lines_of(p) + lines_of(s),
    decreases p.len(),
{
    if p.len() == 0 {
        assert(p + s =~= s);
        assert(lines_of(p) + lines_of(s) =~= lines_of(s));
    } else {
        let k = first_index_of(p, '\n');
        lemma_first_index_of(p, '\n');
        if k == p.len() {
            assert(p[p.len() - 1] != '\n');
        }
        lemma_first_index_of_append(p, s, '\n');
        let u = p + s;
        assert(u.len() > 0);
        assert(first_index_of(u, '\n') == k);
        assert(u.subrange(0, k) =~= p.subrange(0, k));
        assert(u.skip(k + 1) =~= p.skip(k + 1) + s);
        if k + 1 < p.len() {
            assert(p.skip(k + 1)[p.len() - 1 - (k + 1)] == p[p.len() - 1]);
        } else {
            assert(p.skip(k + 1).len() == 0);
        }
        lemma_lines_of_append(p.skip(k + 1), s);
        assert(lines_of(u) == seq![p.subrange(0, k)] + (lines_of(p.skip(k + 1)) + lines_of(s)));
        assert(lines_of(p) == seq![p.subrange(0, k)] + lines_of(p.skip(k + 1)));
        assert(seq![p.subrange(0, k)] + (lines_of(p.skip(k + 1)) + lines_of(s)) =~= (seq![
            p.subrange(0, k),
        ] + lines_of(p.skip(k + 1))) + lines_of(s));
    }
}

/// A non-empty text without a line feed is its own single line.
pub proof fn lemma_lines_of_unterminated(w: Seq<char>)
    requires
        w.len() > 0,
        forall|j: int| 0 <= j < w.len() ==> w[j] != '\n',
    ensures
        lines_of(w) == seq![w],
{
    lemma_first_index_of_unique(w, '\n', w.len() as int);
}

/// A text without a line feed, closed by one line feed, is that one line;
/// in particular a line feed by itself yields one empty line.
pub proof fn lemma_lines_of_terminated(w: Seq<char>)
    requires
        forall|j: int| 0 <= j < w.len() ==> w[j] != '\n',
    ensures
        lines_of(w + seq!['\n']) == seq![w],
{
    let u = w + seq!['\n'];
    assert(u[w.len() as int] == '\n');
    assert forall|j: int| 0 <= j < w.len() implies u[j] != '\n' by {
        assert(u[j] == w[j]);
    }
    lemma_first_index_of_unique(u, '\n', w.len() as int);
    assert(u.subrange(0, w.len() as int) =~= w);
    assert(u.skip(w.len() as int + 1).len() == 0);
    assert(lines_of(u) == seq![w] + lines_of(u.skip(w.len() as int + 1)));
    assert(seq![w] + Seq::<Seq<char>>::empty() =~= seq![w]);
}

/// Index of the first occurrence of `c` in `s`, or the length of `s` if `c`
/// does not occur.
pub fn find_char(s: &str, c: char) -> (i: usize)
    ensures
        i == first_index_of(s@, c),
{
    let n = s.unicode_len();
    let mut i: usize = 0;
    while i < n
        invariant
            0 <= i <= n,
            n == s@.len(),
            forall|j: int| 0 <= j < i ==> s@[j] != c,
        decreases n - i,
    {
        if s.get_char(i) == c {
            proof {
                lemma_first_index_of_unique(s@, c, i as int);
            }
            return i;
        }
        i = i + 1;
    }
    proof {
        lemma_first_index_of_unique(s@, c, n as int);
    }
    n
}

/// Whether two strings hold the same characters.
pub fn str_eq(a: &str, b: &str) -> (eq: bool)
    ensures
        eq == (a@ == b@),
{
    let n = a.unicode_len();
    if n != b.unicode_len() {
        return false;
    }
    let mut i: usize = 0;
    while i < n
        invariant
            0 <= i <= n,
            n == a@.len(),
            n == b@.len(),
            forall|j: int| 0 <= j < i ==> a@[j] == b@[j],
        decreases n - i,
    {
        if a.get_char(i) != b.get_char(i) {
            return false;
        }
        i = i + 1;
    }
    proof {
        assert(a@ =~= b@);
    }
    true
}

} // verus!
