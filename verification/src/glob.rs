//! Glob patterns for file names.
//!
//! A `*` stands for any text, a `?` for any character, and a set in brackets
//! for one of its characters. A set holds characters and ranges such as `a-z`;
//! behind the opening bracket, `!` or `^` make it stand for all others, and a
//! closing bracket that comes first is a member. A bracket that is not closed
//! stands for itself, as does every other character.

use vstd::prelude::*;
use vstd::string::*;

use crate::text::to_chars;

verus! {

/// The first index from `k` on that holds a closing bracket.
pub open spec fn first_close(p: Seq<char>, k: int) -> Option<int>
    decreases p.len() - k,
{
    if k >= p.len() {
        None
    } else if p[k] == ']' {
        Some(k)
    } else {
        first_close(p, k + 1)
    }
}

/// Whether the set that opens at `i` stands for the characters not in it.
pub open spec fn negated(p: Seq<char>, i: int) -> bool {
    i + 1 < p.len() && (p[i + 1] == '!' || p[i + 1] == '^')
}

/// Where the members of the set that opens at `i` begin.
pub open spec fn members_start(p: Seq<char>, i: int) -> int {
    if negated(p, i) {
        i + 2
    } else {
        i + 1
    }
}

/// Where the set that opens at `i` closes. It has at least one member.
pub open spec fn set_close(p: Seq<char>, i: int) -> Option<int> {
    first_close(p, members_start(p, i) + 1)
}

/// Whether `c` is among the members from `k` up to `end`.
pub open spec fn is_member(p: Seq<char>, k: int, end: int, c: char) -> bool
    decreases end - k,
{
    if k >= end {
        false
    } else if k + 2 < end && p[k + 1] == '-' {
        p[k] <= c <= p[k + 2] || is_member(p, k + 3, end, c)
    } else {
        p[k] == c || is_member(p, k + 1, end, c)
    }
}

/// Whether a set opens at `i`.
pub open spec fn is_set(p: Seq<char>, i: int) -> bool {
    p[i] == '[' && set_close(p, i) is Some
}

/// Where the item that begins at `i`, a character or a set, ends.
pub open spec fn item_end(p: Seq<char>, i: int) -> int {
    if is_set(p, i) {
        set_close(p, i)->0 + 1
    } else {
        i + 1
    }
}

/// Whether the item that begins at `i` stands for `c`.
pub open spec fn item_takes(p: Seq<char>, i: int, c: char) -> bool {
    if p[i] == '?' {
        true
    } else if is_set(p, i) {
        is_member(p, members_start(p, i), set_close(p, i)->0, c) != negated(p, i)
    } else {
        p[i] == c
    }
}

/// Whether the pattern from `i` on matches the text from `j` on.
pub open spec fn matches_from(p: Seq<char>, i: int, t: Seq<char>, j: int) -> bool
    decreases p.len() - i, t.len() - j,
{
    if i >= p.len() {
        j >= t.len()
    } else if p[i] == '*' {
        matches_from(p, i + 1, t, j) || (j < t.len() && matches_from(p, i, t, j + 1))
    } else {
        proof {
            lemma_item_end(p, i);
        }
        j < t.len() && item_takes(p, i, t[j]) && matches_from(p, item_end(p, i), t, j + 1)
    }
}

/// Whether the pattern matches the whole text.
pub open spec fn glob_matches(pattern: Seq<char>, text: Seq<char>) -> bool {
    matches_from(pattern, 0, text, 0)
}

/// Whether something in the pattern stands for more than itself.
pub open spec fn is_glob(pattern: Seq<char>) -> bool {
    exists|i: int| 0 <= i < pattern.len() && #[trigger] is_wild(pattern, i)
}

/// Whether what stands at `i` stands for more than itself.
pub open spec fn is_wild(p: Seq<char>, i: int) -> bool {
    p[i] == '*' || p[i] == '?' || is_set(p, i)
}

/// A closing bracket is found inside the pattern, not before it was looked for.
proof fn lemma_first_close(p: Seq<char>, k: int)
    ensures
        first_close(p, k) matches Some(e) ==> k <= e < p.len(),
    decreases p.len() - k,
{
    if k < p.len() {
        lemma_first_close(p, k + 1);
    }
}

/// An item ends behind its beginning, inside the pattern.
pub proof fn lemma_item_end(p: Seq<char>, i: int)
    requires
        i < p.len(),
    ensures
        i < item_end(p, i) <= p.len(),
{
    lemma_first_close(p, members_start(p, i) + 1);
}

/// A pattern in which nothing stands for more than itself matches itself and
/// nothing else.
pub proof fn lemma_plain_pattern(pattern: Seq<char>, text: Seq<char>)
    requires
        !is_glob(pattern),
    ensures
        glob_matches(pattern, text) <==> pattern == text,
{
    lemma_plain_from(pattern, 0, text, 0);
    assert(pattern.skip(0) =~= pattern);
    assert(text.skip(0) =~= text);
}

/// The same from a place in the pattern and a place in the text on.
proof fn lemma_plain_from(p: Seq<char>, i: int, t: Seq<char>, j: int)
    requires
        !is_glob(p),
        0 <= i <= p.len(),
        0 <= j <= t.len(),
    ensures
        matches_from(p, i, t, j) <==> p.skip(i) == t.skip(j),
    decreases p.len() - i,
{
    if i < p.len() {
        assert(!is_wild(p, i));
        if j < t.len() {
            lemma_plain_from(p, i + 1, t, j + 1);
            if p[i] == t[j] && p.skip(i + 1) == t.skip(j + 1) {
                assert(p.skip(i) =~= seq![p[i]] + p.skip(i + 1));
                assert(t.skip(j) =~= seq![t[j]] + t.skip(j + 1));
            }
            if p.skip(i) == t.skip(j) {
                assert(p[i] == p.skip(i)[0] && t[j] == t.skip(j)[0]);
                assert(p.skip(i + 1) =~= p.skip(i).skip(1));
                assert(t.skip(j + 1) =~= t.skip(j).skip(1));
            }
        } else {
            assert(p.skip(i).len() != t.skip(j).len());
        }
    } else if j < t.len() {
        assert(p.skip(i).len() != t.skip(j).len());
    } else {
        assert(p.skip(i) =~= t.skip(j));
    }
}

/// A pattern that is a text followed by a star matches exactly the texts that
/// begin with it.
pub proof fn lemma_trailing_star(prefix: Seq<char>, text: Seq<char>)
    requires
        forall|i: int| 0 <= i < prefix.len() ==> !#[trigger] is_wild(prefix.push('*'), i),
    ensures
        glob_matches(prefix.push('*'), text) <==> prefix.len() <= text.len() && text.take(
            prefix.len() as int,
        ) == prefix,
{
    lemma_trailing_star_from(prefix, text, 0);
    if prefix.len() <= text.len() {
        assert(text.subrange(0, prefix.len() as int) =~= text.take(prefix.len() as int));
    }
    assert(prefix.subrange(0, prefix.len() as int) =~= prefix);
}

/// The same from a place on that is the same in both.
proof fn lemma_trailing_star_from(prefix: Seq<char>, text: Seq<char>, i: int)
    requires
        forall|k: int| 0 <= k < prefix.len() ==> !#[trigger] is_wild(prefix.push('*'), k),
        0 <= i <= prefix.len(),
        i <= text.len(),
    ensures
        matches_from(prefix.push('*'), i, text, i) <==> prefix.len() <= text.len()
            && text.subrange(i, prefix.len() as int) == prefix.subrange(i, prefix.len() as int),
    decreases prefix.len() - i,
{
    let p = prefix.push('*');
    let n = prefix.len() as int;
    if i < n {
        assert(!is_wild(p, i));
        if i < text.len() {
            lemma_trailing_star_from(prefix, text, i + 1);
            if n <= text.len() {
                let a = text.subrange(i, n);
                let b = prefix.subrange(i, n);
                assert(text.subrange(i + 1, n) =~= a.skip(1));
                assert(prefix.subrange(i + 1, n) =~= b.skip(1));
                assert(a[0] == text[i] && b[0] == prefix[i]);
                if text[i] == prefix[i] && a.skip(1) == b.skip(1) {
                    assert(a =~= seq![a[0]] + a.skip(1));
                    assert(b =~= seq![b[0]] + b.skip(1));
                }
            }
        }
    } else {
        lemma_star_takes_all(p, n, text, n);
        if n <= text.len() {
            assert(text.subrange(n, n) =~= prefix.subrange(n, n));
        }
    }
}

/// A star at the end of a pattern matches every rest of a text.
proof fn lemma_star_takes_all(p: Seq<char>, i: int, t: Seq<char>, j: int)
    requires
        0 <= i,
        i + 1 == p.len(),
        p[i] == '*',
        0 <= j <= t.len(),
    ensures
        matches_from(p, i, t, j),
    decreases t.len() - j,
{
    if j < t.len() {
        lemma_star_takes_all(p, i, t, j + 1);
    } else {
        assert(matches_from(p, i + 1, t, j));
    }
}

/// The first index from `k` on that holds a closing bracket.
fn find_close(p: &Vec<char>, k: usize) -> (r: Option<usize>)
    ensures
        match r {
            Some(e) => e < p@.len() && first_close(p@, k as int) == Some(e as int),
            None => first_close(p@, k as int) is None,
        },
{
    let mut e: usize = k;
    while e < p.len()
        invariant
            k <= e,
            first_close(p@, k as int) == first_close(p@, e as int),
        decreases p@.len() - e,
    {
        if p[e] == ']' {
            return Some(e);
        }
        e = e + 1;
    }
    None
}

/// Where the set that opens at `i` closes, if one opens there.
fn find_set(p: &Vec<char>, i: usize) -> (r: Option<usize>)
    requires
        i < p@.len(),
    ensures
        match r {
            Some(e) => e < p@.len() && is_set(p@, i as int) && set_close(p@, i as int) == Some(
                e as int,
            ),
            None => !is_set(p@, i as int),
        },
{
    if p[i] != '[' || p.len() - i < 3 {
        proof {
            lemma_first_close(p@, members_start(p@, i as int) + 1);
        }
        return None;
    }
    let start: usize = if p[i + 1] == '!' || p[i + 1] == '^' {
        i + 2
    } else {
        i + 1
    };
    find_close(p, start + 1)
}

/// Whether `c` is among the members from `from` up to `end`.
fn has_member(p: &Vec<char>, from: usize, end: usize, c: char) -> (r: bool)
    requires
        end <= p@.len(),
    ensures
        r == is_member(p@, from as int, end as int, c),
{
    let mut k: usize = from;
    while k < end
        invariant
            end <= p@.len(),
            is_member(p@, from as int, end as int, c) == is_member(p@, k as int, end as int, c),
        decreases end - k,
    {
        if end - k > 2 && p[k + 1] == '-' {
            if p[k] <= c && c <= p[k + 2] {
                return true;
            }
            k = k + 3;
        } else {
            if p[k] == c {
                return true;
            }
            k = k + 1;
        }
    }
    false
}

/// Where the item that begins at `i` ends, if it stands for `c`.
fn take_item(p: &Vec<char>, i: usize, c: char) -> (r: Option<usize>)
    requires
        i < p@.len(),
    ensures
        match r {
            Some(end) => item_takes(p@, i as int, c) && end == item_end(p@, i as int),
            None => !item_takes(p@, i as int, c),
        },
{
    let len: usize = p.len();
    match find_set(p, i) {
        Some(e) => {
            proof {
                lemma_first_close(p@, members_start(p@, i as int) + 1);
            }
            assert(e < len);
            let negative = p[i + 1] == '!' || p[i + 1] == '^';
            let start: usize = if negative {
                i + 2
            } else {
                i + 1
            };
            if has_member(p, start, e, c) != negative {
                Some(e + 1)
            } else {
                None
            }
        },
        None => {
            if p[i] == '?' || p[i] == c {
                Some(i + 1)
            } else {
                None
            }
        },
    }
}

/// The answers for the empty end of the pattern.
fn last_row(p: &Vec<char>, t: &Vec<char>) -> (row: Vec<bool>)
    ensures
        row_holds(p@, t@, row@, 0),
{
    let mut row: Vec<bool> = Vec::new();
    row.push(true);
    let mut m: usize = 0;
    while m < t.len()
        invariant
            m <= t@.len(),
            row@.len() == m + 1,
            forall|q: int|
                0 <= q <= m ==> #[trigger] row@[q] == matches_from(
                    p@,
                    p@.len() as int,
                    t@,
                    t@.len() - q,
                ),
        decreases t@.len() - m,
    {
        row.push(false);
        m = m + 1;
    }
    row
}

/// The answers for the pattern from `i` on, given those for all shorter ends.
fn row_before(p: &Vec<char>, t: &Vec<char>, i: usize, rows: &Vec<Vec<bool>>) -> (row: Vec<bool>)
    requires
        i < p@.len(),
        rows@.len() == p@.len() - i,
        rows_hold(p@, t@, rows@),
    ensures
        row_holds(p@, t@, row@, p@.len() - i),
{
    let star = p[i] == '*';
    let shorter: usize = p.len() - i - 1;
    proof {
        lemma_item_end(p@, i as int);
        assert(row_holds(p@, t@, rows@[shorter as int]@, shorter as int));
    }
    let mut row: Vec<bool> = Vec::new();
    row.push(star && rows[shorter][0]);
    let mut m: usize = 0;
    while m < t.len()
        invariant
            i < p@.len(),
            star == (p@[i as int] == '*'),
            shorter == p@.len() - i - 1,
            rows@.len() == p@.len() - i,
            rows_hold(p@, t@, rows@),
            row_holds(p@, t@, rows@[shorter as int]@, shorter as int),
            i < item_end(p@, i as int) <= p@.len(),
            m <= t@.len(),
            row@.len() == m + 1,
            forall|q: int|
                0 <= q <= m ==> #[trigger] row@[q] == matches_from(
                    p@,
                    i as int,
                    t@,
                    t@.len() - q,
                ),
        decreases t@.len() - m,
    {
        let here = if star {
            rows[shorter][m + 1] || row[m]
        } else {
            match take_item(p, i, t[t.len() - m - 1]) {
                Some(end) => {
                    assert(row_holds(p@, t@, rows@[p@.len() - end]@, p@.len() - end));
                    rows[p.len() - end][m]
                },
                None => false,
            }
        };
        row.push(here);
        m = m + 1;
    }
    row
}

/// Whether the pattern matches the whole text. The answers for the ends of the
/// pattern and the text are found one after the other, the shortest first.
pub fn matches_glob(pattern: &str, text: &str) -> (r: bool)
    ensures
        r == glob_matches(pattern@, text@),
{
    let p = to_chars(pattern);
    let t = to_chars(text);
    let mut rows: Vec<Vec<bool>> = Vec::new();
    rows.push(last_row(&p, &t));
    let mut i: usize = p.len();
    while i > 0
        invariant
            i <= p@.len(),
            rows@.len() == p@.len() - i + 1,
            rows_hold(p@, t@, rows@),
        decreases i,
    {
        let ghost before = rows@;
        let row = row_before(&p, &t, i - 1, &rows);
        rows.push(row);
        i = i - 1;
        assert forall|q: int| 0 <= q < rows@.len() implies row_holds(
            p@,
            t@,
            (#[trigger] rows@[q])@,
            q,
        ) by {
            if q < before.len() {
                assert(row_holds(p@, t@, before[q]@, q));
            }
        }
    }
    assert(row_holds(p@, t@, rows@[p@.len() as int]@, p@.len() as int));
    rows[p.len()][t.len()]
}

/// Whether the row tells for every end of the text whether the last `k`
/// characters of the pattern match it.
pub open spec fn row_holds(p: Seq<char>, t: Seq<char>, row: Seq<bool>, k: int) -> bool {
    &&& row.len() == t.len() + 1
    &&& forall|q: int|
        0 <= q <= t.len() ==> #[trigger] row[q] == matches_from(p, p.len() - k, t, t.len() - q)
}

/// Whether all rows tell what they should.
pub open spec fn rows_hold(p: Seq<char>, t: Seq<char>, rows: Seq<Vec<bool>>) -> bool {
    forall|k: int| 0 <= k < rows.len() ==> row_holds(p, t, (#[trigger] rows[k])@, k)
}

/// Whether something in the pattern stands for more than itself.
pub fn has_wildcard(pattern: &str) -> (r: bool)
    ensures
        r == is_glob(pattern@),
{
    let p = to_chars(pattern);
    let mut i: usize = 0;
    while i < p.len()
        invariant
            i <= p@.len(),
            p@ == pattern@,
            forall|k: int| 0 <= k < i ==> !#[trigger] is_wild(p@, k),
        decreases p@.len() - i,
    {
        if p[i] == '*' || p[i] == '?' || find_set(&p, i).is_some() {
            assert(is_wild(p@, i as int));
            return true;
        }
        i = i + 1;
    }
    false
}

} // verus!
