//! The search kernel: which lines of a text contain a query string.
//!
//! A line matches a query in sensitive mode when it holds the query as a
//! contiguous run of characters, and in insensitive mode when the same holds
//! after both line and query are folded to lower case.  The search returns
//! the matching lines as borrowed slices of the text, in text order.

use vstd::prelude::*;
use vstd::string::StrSliceExecFns;
use vstd::string::StringExecFns;

use crate::fold::lower;
use crate::fold::to_lower_char;
use crate::text::first_index_of;
use crate::text::lemma_first_index_of_unique;
use crate::text::lemma_lines_of_append;
use crate::text::lemma_lines_of_terminated;
use crate::text::lemma_lines_of_unterminated;
use crate::text::lines_of;

verus! {

/// A character sequence as the search compares it: folded to lower case in
/// insensitive mode, untouched in sensitive mode.
pub open spec fn folded(s: Seq<char>, insensitive: bool) -> Seq<char> {
    if insensitive {
        lower(s)
    } else {
        s
    }
}

/// The needle occurs in the haystack starting exactly at position `i`.
pub open spec fn occurs_at(hay: Seq<char>, needle: Seq<char>, i: int) -> bool {
    0 <= i && i + needle.len() <= hay.len() && hay.subrange(i, i + needle.len()) == needle
}

/// The needle occurs somewhere in the haystack as a contiguous run.
pub open spec fn contains_run(hay: Seq<char>, needle: Seq<char>) -> bool {
    exists|i: int| occurs_at(hay, needle, i)
}

/// Whether a line matches the query under the given mode.
pub open spec fn line_matches(query: Seq<char>, line: Seq<char>, insensitive: bool) -> bool {
    contains_run(folded(line, insensitive), folded(query, insensitive))
}

/// The lines among `lines` that match the query, in their given order.
pub open spec fn matching_of(query: Seq<char>, lines: Seq<Seq<char>>, insensitive: bool) -> Seq<
    Seq<char>,
>
    decreases lines.len(),
{
    if lines.len() == 0 {
        Seq::empty()
    } else {
        let rest = matching_of(query, lines.drop_last(), insensitive);
        if line_matches(query, lines.last(), insensitive) {
            rest.push(lines.last())
        } else {
            rest
        }
    }
}

/// The lines of the text that match the query, in text order.
pub open spec fn matched_lines(query: Seq<char>, text: Seq<char>, insensitive: bool) -> Seq<
    Seq<char>,
> {
    matching_of(query, lines_of(text), insensitive)
}

/// Selecting the matching lines distributes over concatenation of line lists.
pub proof fn lemma_matching_of_append(
    query: Seq<char>,
    a: Seq<Seq<char>>,
    b: Seq<Seq<char>>,
    insensitive: bool,
)
    ensures
        matching_of(query, a + b, insensitive) == matching_of(query, a, insensitive) + matching_of(
            query,
            b,
            insensitive,
        ),
    decreases b.len(),
{
    if b.len() == 0 {
        assert(a + b =~= a);
        assert(matching_of(query, a, insensitive) + matching_of(query, b, insensitive)
            =~= matching_of(query, a, insensitive));
    } else {
        assert((a + b).drop_last() =~= a + b.drop_last());
        assert((a + b).last() == b.last());
        lemma_matching_of_append(query, a, b.drop_last(), insensitive);
        if line_matches(query, b.last(), insensitive) {
            assert((matching_of(query, a, insensitive) + matching_of(
                query,
                b.drop_last(),
                insensitive,
            )).push(b.last()) =~= matching_of(query, a, insensitive) + matching_of(
                query,
                b.drop_last(),
                insensitive,
            ).push(b.last()));
        }
    }
}

/// A single line yields itself when it matches and nothing when it does not.
pub proof fn lemma_matching_of_single(query: Seq<char>, line: Seq<char>, insensitive: bool)
    ensures
        matching_of(query, seq![line], insensitive) == if line_matches(query, line, insensitive) {
            seq![line]
        } else {
            Seq::<Seq<char>>::empty()
        },
{
    let ls = seq![line];
    assert(ls.drop_last() =~= Seq::<Seq<char>>::empty());
    assert(ls.last() == line);
    assert(matching_of(query, Seq::<Seq<char>>::empty(), insensitive) == Seq::<
        Seq<char>,
    >::empty());
    if line_matches(query, line, insensitive) {
        assert(Seq::<Seq<char>>::empty().push(line) =~= seq![line]);
    }
}

/// Checks whether the needle occurs in the haystack exactly at `at`, under
/// the given mode.
fn occurs_here(hay: &str, needle: &str, at: usize, insensitive: bool) -> (occ: bool)
    requires
        at + needle@.len() <= hay@.len(),
    ensures
        occ == occurs_at(folded(hay@, insensitive), folded(needle@, insensitive), at as int),
{
    let h = hay.unicode_len();
    let n = needle.unicode_len();
    let mut j: usize = 0;
    while j < n
        invariant
            j <= n,
            n == needle@.len(),
            h == hay@.len(),
            at + n <= h,
            forall|m: int|
                0 <= m < j ==> folded(hay@, insensitive)[at + m] == folded(needle@, insensitive)[m],
        decreases n - j,
    {
        let hc = hay.get_char(at + j);
        let nc = needle.get_char(j);
        let same = if insensitive {
            to_lower_char(hc) == to_lower_char(nc)
        } else {
            hc == nc
        };
        if !same {
            proof {
                let fh = folded(hay@, insensitive);
                let fq = folded(needle@, insensitive);
                assert(fh[at + j] != fq[j as int]);
                if occurs_at(fh, fq, at as int) {
                    assert(fh.subrange(at as int, at + n)[j as int] == fh[at + j]);
                }
            }
            return false;
        }
        j = j + 1;
    }
    proof {
        assert(folded(hay@, insensitive).subrange(at as int, at + n) =~= folded(
            needle@,
            insensitive,
        ));
    }
    true
}

/// Checks whether the needle occurs anywhere in the haystack, under the
/// given mode.
fn contains_folded(hay: &str, needle: &str, insensitive: bool) -> (found: bool)
    ensures
        found == contains_run(folded(hay@, insensitive), folded(needle@, insensitive)),
{
    let h = hay.unicode_len();
    let n = needle.unicode_len();
    if n == 0 {
        proof {
            let fh = folded(hay@, insensitive);
            let fq = folded(needle@, insensitive);
            assert(fh.subrange(0, 0) =~= fq);
            assert(occurs_at(fh, fq, 0));
        }
        return true;
    }
    if n > h {
        proof {
            let fh = folded(hay@, insensitive);
            let fq = folded(needle@, insensitive);
            assert forall|i: int| !occurs_at(fh, fq, i) by {
                assert(fh.len() < fq.len());
            }
        }
        return false;
    }
    let mut i: usize = 0;
    while i <= h - n
        invariant
            1 <= n <= h,
            h == hay@.len(),
            n == needle@.len(),
            i <= h - n + 1,
            forall|k: int|
                0 <= k < i ==> !occurs_at(
                    folded(hay@, insensitive),
                    folded(needle@, insensitive),
                    k,
                ),
        decreases h - n - i + 1,
    {
        if occurs_here(hay, needle, i, insensitive) {
            proof {
                assert(occurs_at(folded(hay@, insensitive), folded(needle@, insensitive), i as int));
            }
            return true;
        }
        i = i + 1;
    }
    proof {
        let fh = folded(hay@, insensitive);
        let fq = folded(needle@, insensitive);
        assert forall|k: int| !occurs_at(fh, fq, k) by {
            if 0 <= k <= h - n {
            } else {
                assert(k < 0 || k + fq.len() > fh.len());
            }
        }
    }
    false
}

/// Walks the lines of `contents` and collects those that match `query`
/// under the given mode, as borrowed slices of `contents`, in text order.
fn search_lines<'a>(query: &str, contents: &'a str, insensitive: bool) -> (found: Vec<&'a str>)
    ensures
        found.deep_view() == matched_lines(query@, contents@, insensitive),
{
    let n = contents.unicode_len();
    let mut found: Vec<&'a str> = Vec::new();
    let mut start: usize = 0;
    let mut i: usize = 0;
    while i < n
        invariant
            start <= i <= n,
            n == contents@.len(),
            start == 0 || contents@[start - 1] == '\n',
            forall|k: int| start <= k < i ==> contents@[k] != '\n',
            found.deep_view() == matching_of(
                query@,
                lines_of(contents@.subrange(0, start as int)),
                insensitive,
            ),
        decreases n - i,
    {
        if contents.get_char(i) == '\n' {
            let line = contents.substring_char(start, i);
            proof {
                let t = contents@;
                let pre0 = t.subrange(0, start as int);
                let w = t.subrange(start as int, i as int);
                let pre1 = t.subrange(0, i + 1);
                assert(pre1 =~= pre0 + (w + seq!['\n']));
                lemma_lines_of_append(pre0, w + seq!['\n']);
                lemma_lines_of_terminated(w);
                lemma_matching_of_append(
                    query@,
                    lines_of(pre0),
                    seq![w],
                    insensitive,
                );
                lemma_matching_of_single(query@, w, insensitive);
            }
            if contains_folded(line, query, insensitive) {
                let ghost before = found.deep_view();
                found.push(line);
                proof {
                    assert(found.deep_view() =~= before.push(line@));
                }
            }
            proof {
                assert(found.deep_view() =~= matching_of(
                    query@,
                    lines_of(contents@.subrange(0, i + 1)),
                    insensitive,
                ));
            }
            start = i + 1;
        }
        i = i + 1;
    }
    if start < n {
        let line = contents.substring_char(start, n);
        proof {
            let t = contents@;
            let pre0 = t.subrange(0, start as int);
            let w = t.subrange(start as int, n as int);
            assert(t =~= pre0 + w);
            lemma_lines_of_append(pre0, w);
            lemma_lines_of_unterminated(w);
            lemma_matching_of_append(query@, lines_of(pre0), seq![w], insensitive);
            lemma_matching_of_single(query@, w, insensitive);
        }
        if contains_folded(line, query, insensitive) {
            let ghost before = found.deep_view();
            found.push(line);
            proof {
                assert(found.deep_view() =~= before.push(line@));
            }
        }
    } else {
        proof {
            assert(contents@.subrange(0, start as int) =~= contents@);
        }
    }
    found
}

/// Case-sensitive search: the lines of `contents` that hold `query` as a
/// contiguous run of characters, in text order, as slices of `contents`.
pub fn search<'a>(query: &str, contents: &'a str) -> (found: Vec<&'a str>)
    ensures
        found.deep_view() == matched_lines(query@, contents@, false),
{
    search_lines(query, contents, false)
}

/// Case-insensitive search: the lines of `contents` that hold `query` as a
/// contiguous run of characters once both are folded to lower case, in text
/// order, as slices of `contents`.
pub fn search_case_insensitive<'a>(query: &str, contents: &'a str) -> (found: Vec<&'a str>)
    ensures
        found.deep_view() == matched_lines(query@, contents@, true),
{
    search_lines(query, contents, true)
}

/// The first line of `contents` that matches `query` case-insensitively, as
/// a one-element list, or an empty list when no line matches.
pub fn find_first_insensitive_match<'a>(query: &str, contents: &'a str) -> (found: Vec<&'a str>)
    ensures
        found.deep_view() == (if matched_lines(query@, contents@, true).len() == 0 {
            Seq::<Seq<char>>::empty()
        } else {
            seq![matched_lines(query@, contents@, true)[0]]
        }),
{
    let all = search_case_insensitive(query, contents);
    let mut found: Vec<&'a str> = Vec::new();
    if all.len() > 0 {
        found.push(all[0]);
        proof {
            assert(found.deep_view() =~= seq![matched_lines(query@, contents@, true)[0]]);
        }
    } else {
        proof {
            assert(found.deep_view() =~= Seq::<Seq<char>>::empty());
        }
    }
    found
}

/// A copy of the query when it is non-empty and some line of `contents`
/// matches it case-sensitively; the empty string otherwise.
pub fn find_first_sensitive_match(query: &str, contents: &str) -> (found: String)
    ensures
        found@ == (if query@.len() > 0 && matched_lines(query@, contents@, false).len() > 0 {
            query@
        } else {
            Seq::<char>::empty()
        }),
{
    let all = search(query, contents);
    if query.unicode_len() > 0 && all.len() > 0 {
        String::from_str(query)
    } else {
        String::new()
    }
}

/// A sequence of positions in `y` that picks out `x`, in increasing order.
pub open spec fn is_embedding<A>(positions: Seq<int>, x: Seq<A>, y: Seq<A>) -> bool {
    &&& positions.len() == x.len()
    &&& (forall|k: int|
        0 <= k < positions.len() ==> 0 <= #[trigger] positions[k] < y.len() && y[positions[k]]
            == x[k])
    &&& (forall|k: int| 0 <= k < positions.len() - 1 ==> #[trigger] positions[k] < positions[k + 1])
}

/// `x` occurs in `y` as a subsequence: some strictly increasing choice of
/// positions of `y` yields exactly `x`.
pub open spec fn is_subsequence_of<A>(x: Seq<A>, y: Seq<A>) -> bool {
    exists|positions: Seq<int>| is_embedding(positions, x, y)
}

proof fn lemma_matching_of_subsequence(query: Seq<char>, ls: Seq<Seq<char>>, insensitive: bool)
    ensures
        is_subsequence_of(matching_of(query, ls, insensitive), ls),
    decreases ls.len(),
{
    if ls.len() == 0 {
        let positions = Seq::<int>::empty();
        assert(is_embedding(positions, matching_of(query, ls, insensitive), ls));
    } else {
        lemma_matching_of_subsequence(query, ls.drop_last(), insensitive);
        let rest = matching_of(query, ls.drop_last(), insensitive);
        let p0 = choose|p: Seq<int>| is_embedding(p, rest, ls.drop_last());
        if line_matches(query, ls.last(), insensitive) {
            let p1 = p0.push(ls.len() - 1);
            assert forall|k: int| 0 <= k < p1.len() implies 0 <= #[trigger] p1[k] < ls.len()
                && ls[p1[k]] == matching_of(query, ls, insensitive)[k] by {
                if k < p0.len() {
                    assert(p1[k] == p0[k]);
                    assert(ls.drop_last()[p0[k]] == ls[p0[k]]);
                    assert(rest.push(ls.last())[k] == rest[k]);
                } else {
                    assert(p1[k] == ls.len() - 1);
                }
            }
            assert forall|k: int| 0 <= k < p1.len() - 1 implies #[trigger] p1[k] < p1[k + 1] by {
                if k + 1 < p0.len() {
                    assert(p1[k] == p0[k] && p1[k + 1] == p0[k + 1]);
                } else {
                    assert(p1[k] == p0[k] && p0[k] < ls.drop_last().len());
                }
            }
            assert(is_embedding(p1, matching_of(query, ls, insensitive), ls));
        } else {
            assert forall|k: int| 0 <= k < p0.len() implies 0 <= #[trigger] p0[k] < ls.len()
                && ls[p0[k]] == matching_of(query, ls, insensitive)[k] by {
                assert(ls.drop_last()[p0[k]] == ls[p0[k]]);
            }
            assert(is_embedding(p0, matching_of(query, ls, insensitive), ls));
        }
    }
}

/// Order preservation: the matched lines are a subsequence of the lines of
/// the text, so they keep the order in which they stand in the text.
pub proof fn lemma_order_preserved(query: Seq<char>, text: Seq<char>, insensitive: bool)
    ensures
        is_subsequence_of(matched_lines(query, text, insensitive), lines_of(text)),
{
    lemma_matching_of_subsequence(query, lines_of(text), insensitive);
}

proof fn lemma_matching_of_membership(
    query: Seq<char>,
    ls: Seq<Seq<char>>,
    insensitive: bool,
    l: Seq<char>,
)
    ensures
        matching_of(query, ls, insensitive).contains(l) <==> (ls.contains(l) && line_matches(
            query,
            l,
            insensitive,
        )),
    decreases ls.len(),
{
    if ls.len() == 0 {
    } else {
        lemma_matching_of_membership(query, ls.drop_last(), insensitive, l);
        let rest = matching_of(query, ls.drop_last(), insensitive);
        let whole = matching_of(query, ls, insensitive);
        if line_matches(query, ls.last(), insensitive) {
            assert(whole == rest.push(ls.last()));
            if whole.contains(l) {
                let i = choose|i: int| 0 <= i < whole.len() && whole[i] == l;
                if i < rest.len() {
                    assert(rest[i] == l);
                    let j = choose|j: int| 0 <= j < ls.drop_last().len() && ls.drop_last()[j] == l;
                    assert(ls[j] == l);
                } else {
                    assert(l == ls.last());
                    assert(ls[ls.len() - 1] == l);
                }
            }
            if ls.contains(l) && line_matches(query, l, insensitive) {
                let j = choose|j: int| 0 <= j < ls.len() && ls[j] == l;
                if j < ls.len() - 1 {
                    assert(ls.drop_last()[j] == l);
                    let i = choose|i: int| 0 <= i < rest.len() && rest[i] == l;
                    assert(whole[i] == l);
                } else {
                    assert(whole[whole.len() - 1] == l);
                }
            }
        } else {
            assert(whole == rest);
            if whole.contains(l) {
                let j = choose|j: int| 0 <= j < ls.drop_last().len() && ls.drop_last()[j] == l;
                assert(ls[j] == l);
            }
            if ls.contains(l) && line_matches(query, l, insensitive) {
                let j = choose|j: int| 0 <= j < ls.len() && ls[j] == l;
                if j < ls.len() - 1 {
                    assert(ls.drop_last()[j] == l);
                } else {
                    assert(ls.last() == l);
                }
            }
        }
    }
}

/// Substring correctness in sensitive mode: a line is among the matches
/// exactly when it is a line of the text and holds the query as a
/// contiguous run of characters.
pub proof fn lemma_match_iff_sensitive(query: Seq<char>, text: Seq<char>, l: Seq<char>)
    ensures
        matched_lines(query, text, false).contains(l) <==> (lines_of(text).contains(l)
            && contains_run(l, query)),
{
    lemma_matching_of_membership(query, lines_of(text), false, l);
}

/// Substring correctness in insensitive mode: a line is among the matches
/// exactly when it is a line of the text and, folded to lower case, holds
/// the folded query as a contiguous run of characters.
pub proof fn lemma_match_iff_insensitive(query: Seq<char>, text: Seq<char>, l: Seq<char>)
    ensures
        matched_lines(query, text, true).contains(l) <==> (lines_of(text).contains(l)
            && contains_run(lower(l), lower(query))),
{
    lemma_matching_of_membership(query, lines_of(text), true, l);
}

/// Line content integrity: every matched line is, character for character,
/// one of the lines of the text.
pub proof fn lemma_line_integrity(query: Seq<char>, text: Seq<char>, insensitive: bool, i: int)
    requires
        0 <= i < matched_lines(query, text, insensitive).len(),
    ensures
        lines_of(text).contains(matched_lines(query, text, insensitive)[i]),
{
    let l = matched_lines(query, text, insensitive)[i];
    assert(matched_lines(query, text, insensitive).contains(l));
    lemma_matching_of_membership(query, lines_of(text), insensitive, l);
}

proof fn lemma_matching_of_all(query: Seq<char>, ls: Seq<Seq<char>>, insensitive: bool)
    requires
        forall|j: int| 0 <= j < ls.len() ==> line_matches(query, #[trigger] ls[j], insensitive),
    ensures
        matching_of(query, ls, insensitive) == ls,
    decreases ls.len(),
{
    if ls.len() == 0 {
        assert(matching_of(query, ls, insensitive) =~= ls);
    } else {
        assert forall|j: int| 0 <= j < ls.drop_last().len() implies line_matches(
            query,
            #[trigger] ls.drop_last()[j],
            insensitive,
        ) by {
            assert(ls.drop_last()[j] == ls[j]);
        }
        lemma_matching_of_all(query, ls.drop_last(), insensitive);
        assert(ls[ls.len() - 1] == ls.last());
        assert(ls.drop_last().push(ls.last()) =~= ls);
    }
}

/// The empty query matches every line: searching for it returns every line
/// of the text, in order.
pub proof fn lemma_empty_query(query: Seq<char>, text: Seq<char>, insensitive: bool)
    requires
        query.len() == 0,
    ensures
        matched_lines(query, text, insensitive) == lines_of(text),
{
    let ls = lines_of(text);
    assert forall|j: int| 0 <= j < ls.len() implies line_matches(
        query,
        #[trigger] ls[j],
        insensitive,
    ) by {
        let fl = folded(ls[j], insensitive);
        let fq = folded(query, insensitive);
        assert(fq.len() == 0);
        assert(fl.subrange(0, 0) =~= fq);
        assert(occurs_at(fl, fq, 0));
    }
    lemma_matching_of_all(query, ls, insensitive);
}

} // verus!
