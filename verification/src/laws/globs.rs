//! Laws of glob patterns.

use vstd::prelude::*;
use vstd::string::*;

#[allow(unused_imports)]
use crate::glob::{
    first_close, is_member, is_wild, has_wildcard, matches_from, matches_glob, members_start,
    set_close,
};

verus! {

/// A pattern matches a text when all of it matches all of the text. At its end a
/// pattern matches nothing more.
pub proof fn law_whole_text(pattern: &str, text: &str, r: bool, j: int)
    requires
        call_ensures(matches_glob, (pattern, text), r),
    ensures
        r <==> matches_from(pattern@, 0, text@, 0),
        0 <= j <= text@.len() ==> (matches_from(pattern@, pattern@.len() as int, text@, j) <==> j
            == text@.len()),
{
}

/// A question mark matches any one character.
pub proof fn law_question_mark(p: Seq<char>, i: int, t: Seq<char>, j: int)
    requires
        0 <= i < p.len(),
        0 <= j <= t.len(),
        p[i] == '?',
    ensures
        matches_from(p, i, t, j) <==> j < t.len() && matches_from(p, i + 1, t, j + 1),
{
}

/// A star matches any number of characters.
pub proof fn law_star(p: Seq<char>, i: int, t: Seq<char>, j: int)
    requires
        0 <= i < p.len(),
        0 <= j <= t.len(),
        p[i] == '*',
    ensures
        matches_from(p, i, t, j) <==> exists|k: int|
            j <= k <= t.len() && #[trigger] matches_from(p, i + 1, t, k),
    decreases t.len() - j,
{
    if j < t.len() {
        law_star(p, i, t, j + 1);
    }
    if matches_from(p, i, t, j) {
        if matches_from(p, i + 1, t, j) {
            assert(j <= j <= t.len() && matches_from(p, i + 1, t, j));
        } else {
            let k = choose|k: int|
                j + 1 <= k <= t.len() && #[trigger] matches_from(p, i + 1, t, k);
            assert(j <= k <= t.len() && matches_from(p, i + 1, t, k));
        }
    }
    if exists|k: int| j <= k <= t.len() && #[trigger] matches_from(p, i + 1, t, k) {
        let k = choose|k: int| j <= k <= t.len() && #[trigger] matches_from(p, i + 1, t, k);
        if k > j {
            assert(j + 1 <= k <= t.len() && matches_from(p, i + 1, t, k));
            assert(matches_from(p, i, t, j + 1));
        }
    }
}

/// A character that stands for itself matches itself. So does an opening
/// bracket that nothing closes.
pub proof fn law_plain_character(p: Seq<char>, i: int, t: Seq<char>, j: int)
    requires
        0 <= i < p.len(),
        0 <= j <= t.len(),
        p[i] != '*' && p[i] != '?',
        p[i] != '[' || forall|k: int| i + 2 <= k < p.len() ==> #[trigger] p[k] != ']',
    ensures
        matches_from(p, i, t, j) <==> j < t.len() && t[j] == p[i] && matches_from(
            p,
            i + 1,
            t,
            j + 1,
        ),
{
    if p[i] == '[' {
        lemma_no_close(p, members_start(p, i) + 1);
    }
}

proof fn lemma_no_close(p: Seq<char>, k: int)
    requires
        forall|m: int| k <= m < p.len() ==> #[trigger] p[m] != ']',
    ensures
        first_close(p, k) is None,
    decreases p.len() - k,
{
    if k < p.len() {
        lemma_no_close(p, k + 1);
    }
}

proof fn lemma_close(p: Seq<char>, k: int, end: int)
    requires
        0 <= k <= end < p.len(),
        p[end] == ']',
        forall|m: int| k <= m < end ==> #[trigger] p[m] != ']',
    ensures
        first_close(p, k) == Some(end),
    decreases end - k,
{
    if k < end {
        lemma_close(p, k + 1, end);
    }
}

proof fn lemma_members(p: Seq<char>, k: int, end: int, c: char)
    requires
        0 <= k <= end <= p.len(),
        forall|m: int| k < m < end - 1 ==> #[trigger] p[m] != '-',
    ensures
        is_member(p, k, end, c) <==> exists|m: int| k <= m < end && #[trigger] p[m] == c,
    decreases end - k,
{
    if k < end {
        lemma_members(p, k + 1, end, c);
        if is_member(p, k, end, c) {
            if p[k] != c {
                let m = choose|m: int| k + 1 <= m < end && #[trigger] p[m] == c;
                assert(p[m] == c);
            }
        }
    }
}

/// A set of characters without a range matches one character: one of its
/// members, or one that is none of them where `!` or `^` stands first. A
/// closing bracket counts as a member where it stands first.
pub proof fn law_set(p: Seq<char>, i: int, start: int, end: int, t: Seq<char>, j: int)
    requires
        0 <= i,
        start == i + 1 || (start == i + 2 && (p[i + 1] == '!' || p[i + 1] == '^')),
        start == i + 1 ==> p[i + 1] != '!' && p[i + 1] != '^',
        start < end < p.len(),
        p[i] == '[',
        p[end] == ']',
        forall|m: int| start < m < end ==> #[trigger] p[m] != ']',
        forall|m: int| start < m < end - 1 ==> #[trigger] p[m] != '-',
        0 <= j <= t.len(),
    ensures
        matches_from(p, i, t, j) <==> {
            &&& j < t.len()
            &&& (exists|m: int| start <= m < end && #[trigger] p[m] == t[j]) <==> start == i + 1
            &&& matches_from(p, end + 1, t, j + 1)
        },
{
    lemma_close(p, start + 1, end);
    assert(members_start(p, i) == start);
    if j < t.len() {
        lemma_members(p, start, end, t[j]);
    }
}

/// A set that is one range matches one character: one that lies between the two
/// ends, both among them, or one outside where `!` or `^` stands first.
pub proof fn law_range(p: Seq<char>, i: int, start: int, t: Seq<char>, j: int)
    requires
        0 <= i,
        start == i + 1 || (start == i + 2 && (p[i + 1] == '!' || p[i + 1] == '^')),
        start == i + 1 ==> p[i + 1] != '!' && p[i + 1] != '^',
        start + 3 < p.len(),
        p[i] == '[',
        p[start + 1] == '-',
        p[start + 2] != ']',
        p[start + 3] == ']',
        0 <= j <= t.len(),
    ensures
        matches_from(p, i, t, j) <==> {
            &&& j < t.len()
            &&& (p[start] <= t[j] <= p[start + 2]) <==> start == i + 1
            &&& matches_from(p, start + 4, t, j + 1)
        },
{
    let end = start + 3;
    lemma_close(p, start + 1, end);
    assert(members_start(p, i) == start);
    reveal_with_fuel(is_member, 2);
}

/// Members of a set are met one after the other: a range counts with all that
/// lies between its ends, anything else for itself.
pub proof fn law_members(p: Seq<char>, k: int, end: int, c: char)
    requires
        0 <= k < end <= p.len(),
    ensures
        !is_member(p, end, end, c),
        k + 2 < end && p[k + 1] == '-' ==> (is_member(p, k, end, c) <==> p[k] <= c <= p[k + 2]
            || is_member(p, k + 3, end, c)),
        !(k + 2 < end && p[k + 1] == '-') ==> (is_member(p, k, end, c) <==> p[k] == c
            || is_member(p, k + 1, end, c)),
{
}

/// Whether a bracket at `i` is closed at `m`, behind at least one member.
pub open spec fn closed_at(p: Seq<char>, i: int, m: int) -> bool {
    &&& 0 <= i
    &&& i + 2 <= m < p.len()
    &&& p[i] == '[' && p[m] == ']'
    &&& p[i + 1] == '!' || p[i + 1] == '^' ==> i + 3 <= m
}

/// A text is a pattern exactly when it holds a star, a question mark or a
/// bracket that is closed again behind at least one member.
pub proof fn law_wildcards(pattern: &str, r: bool)
    requires
        call_ensures(has_wildcard, (pattern,), r),
    ensures
        r <==> {
            ||| exists|i: int|
                0 <= i < pattern@.len() && (#[trigger] pattern@[i] == '*' || pattern@[i] == '?')
            ||| exists|i: int, m: int| #[trigger] closed_at(pattern@, i, m)
        },
{
    let p = pattern@;
    if exists|i: int| 0 <= i < p.len() && (#[trigger] p[i] == '*' || p[i] == '?') {
        let i = choose|i: int| 0 <= i < p.len() && (#[trigger] p[i] == '*' || p[i] == '?');
        assert(is_wild(p, i));
    }
    if exists|i: int, m: int| #[trigger] closed_at(p, i, m) {
        let (i, m) = choose|i: int, m: int| #[trigger] closed_at(p, i, m);
        lemma_some_close(p, members_start(p, i) + 1, m);
        assert(is_wild(p, i));
    }
    if r {
        let i = choose|i: int| 0 <= i < p.len() && #[trigger] is_wild(p, i);
        if p[i] != '*' && p[i] != '?' {
            let m = set_close(p, i)->0;
            lemma_where_closed(p, members_start(p, i) + 1);
            assert(closed_at(p, i, m));
        }
    }
}

proof fn lemma_where_closed(p: Seq<char>, k: int)
    requires
        0 <= k,
        first_close(p, k) is Some,
    ensures
        k <= first_close(p, k)->0 < p.len(),
        p[first_close(p, k)->0] == ']',
    decreases p.len() - k,
{
    if p[k] != ']' {
        lemma_where_closed(p, k + 1);
    }
}

proof fn lemma_some_close(p: Seq<char>, k: int, m: int)
    requires
        0 <= k <= m < p.len(),
        p[m] == ']',
    ensures
        first_close(p, k) is Some,
    decreases m - k,
{
    if p[k] != ']' {
        lemma_some_close(p, k + 1, m);
    }
}

} // verus!
