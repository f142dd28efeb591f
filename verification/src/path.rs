//! Slash-separated paths, as text: those of a page and of Unix systems.
//!
//! A path is cut at its slashes. Empty pieces mean nothing, and neither does a
//! piece `.` that is not the very first one. What is left are the names that
//! the path goes through; a leading slash makes it start at the root.

use normalize_path::NormalizePath;
use vstd::prelude::*;
use vstd::string::*;

use crate::text::{
    begins_with, join_first, split_at_char, to_chars,
};
#[allow(unused_imports)]
use crate::text::{
    join, lemma_join_split, lemma_split_append, lemma_split_join, lemma_split_no_separator,
    lemma_split_nonempty, lemma_split_plain, split, texts,
};

verus! {

/// Whether the path starts at the root.
pub open spec fn is_absolute(path: Seq<char>) -> bool {
    path.len() > 0 && path[0] == '/'
}

/// Whether piece `i` counts as a name on the way.
pub open spec fn significant(parts: Seq<Seq<char>>, i: int) -> bool {
    parts[i].len() > 0 && (parts[i] != seq!['.'] || i == 0)
}

/// The greatest index below `n` whose piece counts, or -1.
pub open spec fn last_significant(parts: Seq<Seq<char>>, n: int) -> int
    decreases n,
{
    if n <= 0 {
        -1
    } else if significant(parts, n - 1) {
        n - 1
    } else {
        last_significant(parts, n - 1)
    }
}

/// The pieces that count, among the first `n`.
pub open spec fn significant_parts(parts: Seq<Seq<char>>, n: int) -> Seq<Seq<char>>
    decreases n,
{
    if n <= 0 {
        Seq::empty()
    } else if significant(parts, n - 1) {
        significant_parts(parts, n - 1).push(parts[n - 1])
    } else {
        significant_parts(parts, n - 1)
    }
}

/// The names that the path goes through.
pub open spec fn names(path: Seq<char>) -> Seq<Seq<char>> {
    let parts = split(path, '/');
    significant_parts(parts, parts.len() as int)
}

/// Whether the two paths go through the same names from the same start.
pub open spec fn same_path(a: Seq<char>, b: Seq<char>) -> bool {
    is_absolute(a) == is_absolute(b) && names(a) == names(b)
}

/// The last name of the path, unless the path ends in `.` or `..` or has no
/// name at all.
pub open spec fn file_name(path: Seq<char>) -> Option<Seq<char>> {
    let parts = split(path, '/');
    let last = last_significant(parts, parts.len() as int);
    if last < 0 || parts[last] == seq!['.'] || parts[last] == seq!['.', '.'] {
        None
    } else {
        Some(parts[last])
    }
}

/// The path up to the end of its last name but one. What a path of a single
/// name lies in is the root or, for a relative path, the empty path. A path
/// without a name lies in nothing.
pub open spec fn parent(path: Seq<char>) -> Option<Seq<char>> {
    let parts = split(path, '/');
    let last = last_significant(parts, parts.len() as int);
    if last < 0 {
        None
    } else {
        let before = last_significant(parts, last);
        if before >= 0 {
            Some(join(parts.take(before + 1), '/'))
        } else if is_absolute(path) {
            Some(seq!['/'])
        } else {
            Some(Seq::empty())
        }
    }
}

/// `path` as seen from the directory `base`.
pub open spec fn joined(base: Seq<char>, path: Seq<char>) -> Seq<char> {
    if is_absolute(path) {
        path
    } else if base.len() == 0 || base.last() == '/' {
        base + path
    } else {
        base.push('/') + path
    }
}

/// The names that are left when every `..` takes the name before it away.
pub open spec fn resolved(names: Seq<Seq<char>>) -> Seq<Seq<char>>
    decreases names.len(),
{
    if names.len() == 0 {
        Seq::empty()
    } else {
        let stack = resolved(names.drop_last());
        let name = names.last();
        if name == seq!['.'] {
            stack
        } else if name == seq!['.', '.'] {
            if stack.len() == 0 {
                stack
            } else {
                stack.drop_last()
            }
        } else {
            stack.push(name)
        }
    }
}

/// The path written with the names that are left and single slashes only. An
/// empty relative path is written `.`.
pub open spec fn normalized(path: Seq<char>) -> Seq<char> {
    let stack = resolved(names(path));
    if is_absolute(path) {
        seq!['/'] + join(stack, '/')
    } else if stack.len() == 0 {
        seq!['.']
    } else {
        join(stack, '/')
    }
}

/// Calls `NormalizePath::normalize` of the crate `normalize-path`, on targets
/// where the slash is the separator. That function goes through the components
/// of the path, drops every `.`, lets every `..` remove the component before it
/// (at the root, or where there is none, it removes nothing), keeps the others,
/// and gives `.` where nothing is left of a relative path. The contract says
/// the same of the text.
#[verifier::external_body]
pub(crate) fn normalize(path: &str) -> (r: String)
    ensures
        r@ == normalized(path@),
{
    std::path::Path::new(path).normalize().to_string_lossy().into_owned()
}

/// Whether `name` can be left in a path that holds no `.` and no `..`.
pub open spec fn plain_name(name: Seq<char>) -> bool {
    name.len() > 0 && !name.contains('/') && name != seq!['.'] && name != seq!['.', '.']
}

proof fn lemma_parts_hold_no_slash(path: Seq<char>)
    ensures
        forall|i: int| 0 <= i < split(path, '/').len() ==> !(#[trigger] split(path, '/')[i]).contains('/'),
{
    lemma_split_no_separator(path, '/');
    let parts = split(path, '/');
    assert forall|i: int| 0 <= i < parts.len() implies !(#[trigger] parts[i]).contains('/') by {
        if parts[i].contains('/') {
            let j = choose|j: int| 0 <= j < parts[i].len() && parts[i][j] == '/';
            assert(parts[i][j] != '/');
        }
    }
}

proof fn lemma_significant_parts_nonempty(parts: Seq<Seq<char>>, n: int)
    requires
        n <= parts.len(),
        forall|i: int| 0 <= i < parts.len() ==> !(#[trigger] parts[i]).contains('/'),
    ensures
        forall|i: int|
            0 <= i < significant_parts(parts, n).len() ==> {
                &&& (#[trigger] significant_parts(parts, n)[i]).len() > 0
                &&& !significant_parts(parts, n)[i].contains('/')
            },
    decreases n,
{
    if n > 0 {
        lemma_significant_parts_nonempty(parts, n - 1);
        let front = significant_parts(parts, n - 1);
        let all = significant_parts(parts, n);
        assert forall|i: int| 0 <= i < all.len() implies (#[trigger] all[i]).len() > 0
            && !all[i].contains('/') by {
            if i < front.len() {
                assert(all[i] == front[i]);
            }
        }
    }
}

proof fn lemma_resolved_is_plain(list: Seq<Seq<char>>)
    requires
        forall|i: int| 0 <= i < list.len() ==> (#[trigger] list[i]).len() > 0 && !list[i].contains('/'),
    ensures
        forall|i: int| 0 <= i < resolved(list).len() ==> plain_name(#[trigger] resolved(list)[i]),
    decreases list.len(),
{
    if list.len() > 0 {
        lemma_resolved_is_plain(list.drop_last());
        assert(list[list.len() - 1] == list.last());
        let front = resolved(list.drop_last());
        let all = resolved(list);
        assert forall|i: int| 0 <= i < all.len() implies plain_name(#[trigger] all[i]) by {
            if i < front.len() {
                assert(all[i] == front[i]);
            }
        }
    }
}

proof fn lemma_plain_names_stay(list: Seq<Seq<char>>)
    requires
        forall|i: int| 0 <= i < list.len() ==> plain_name(#[trigger] list[i]),
    ensures
        resolved(list) == list,
    decreases list.len(),
{
    if list.len() > 0 {
        lemma_plain_names_stay(list.drop_last());
        assert(list[list.len() - 1] == list.last());
        assert(list.drop_last().push(list.last()) =~= list);
    }
}

/// Pieces of which all but the first `skip` are plain names, and those empty.
proof fn lemma_significant_parts_of_plain(parts: Seq<Seq<char>>, skip: int, n: int)
    requires
        0 <= skip <= n <= parts.len(),
        forall|i: int| 0 <= i < skip ==> (#[trigger] parts[i]).len() == 0,
        forall|i: int| skip <= i < parts.len() ==> plain_name(#[trigger] parts[i]),
    ensures
        significant_parts(parts, n) == parts.subrange(skip, n),
    decreases n,
{
    if n > skip {
        lemma_significant_parts_of_plain(parts, skip, n - 1);
        assert(plain_name(parts[n - 1]));
        assert(parts.subrange(skip, n - 1).push(parts[n - 1]) =~= parts.subrange(skip, n));
    } else if n > 0 {
        assert(parts[n - 1].len() == 0);
        lemma_significant_parts_of_empty(parts, n);
        assert(parts.subrange(skip, n) =~= Seq::<Seq<char>>::empty());
    } else {
        assert(parts.subrange(skip, n) =~= Seq::<Seq<char>>::empty());
    }
}

proof fn lemma_significant_parts_of_empty(parts: Seq<Seq<char>>, n: int)
    requires
        0 <= n <= parts.len(),
        forall|i: int| 0 <= i < n ==> (#[trigger] parts[i]).len() == 0,
    ensures
        significant_parts(parts, n) == Seq::<Seq<char>>::empty(),
    decreases n,
{
    if n > 0 {
        assert(parts[n - 1].len() == 0);
        lemma_significant_parts_of_empty(parts, n - 1);
    }
}

proof fn lemma_join_prepend_empty(parts: Seq<Seq<char>>)
    requires
        parts.len() >= 1,
    ensures
        join(seq![Seq::<char>::empty()] + parts, '/') == seq!['/'] + join(parts, '/'),
    decreases parts.len(),
{
    let e = Seq::<char>::empty();
    let whole = seq![e] + parts;
    if parts.len() == 1 {
        assert(whole.drop_last() =~= seq![e]);
        assert(join(seq![e], '/') == e);
        assert(join(whole, '/') =~= seq!['/'] + parts[0]);
    } else {
        lemma_join_prepend_empty(parts.drop_last());
        assert(whole.drop_last() =~= seq![e] + parts.drop_last());
        assert(join(whole, '/') =~= seq!['/'] + join(parts, '/'));
    }
}

/// A normalized path goes through exactly the names that were left: none of
/// them is `.` or `..`, except that an empty relative path is the name `.`. It
/// starts at the root exactly when the path did.
pub proof fn lemma_normalized_names(path: Seq<char>)
    ensures
        is_absolute(normalized(path)) == is_absolute(path),
        names(normalized(path)) == (if !is_absolute(path) && resolved(names(path)).len() == 0 {
            seq![seq!['.']]
        } else {
            resolved(names(path))
        }),
        forall|i: int|
            0 <= i < resolved(names(path)).len() ==> plain_name(#[trigger] resolved(names(path))[i]),
{
    let parts = split(path, '/');
    let stack = resolved(names(path));
    lemma_parts_hold_no_slash(path);
    lemma_significant_parts_nonempty(parts, parts.len() as int);
    lemma_resolved_is_plain(names(path));
    let n = normalized(path);
    let e = Seq::<char>::empty();
    if is_absolute(path) {
        if stack.len() == 0 {
            assert(n =~= seq!['/']);
            let p = seq![e, e];
            assert(join(p, '/') =~= n) by {
                assert(p.drop_last() =~= seq![e]);
                assert(join(seq![e], '/') == e);
            }
            lemma_split_join(p, '/');
            lemma_significant_parts_of_empty(p, 2);
            assert(stack =~= Seq::<Seq<char>>::empty());
        } else {
            lemma_join_prepend_empty(stack);
            let p = seq![e] + stack;
            assert forall|i: int| 1 <= i < p.len() implies plain_name(#[trigger] p[i]) by {
                assert(p[i] == stack[i - 1]);
            }
            assert(p[0] == e);
            lemma_split_join(p, '/');
            lemma_significant_parts_of_plain(p, 1, p.len() as int);
            assert(p.subrange(1, p.len() as int) =~= stack);
        }
    } else if stack.len() == 0 {
        lemma_split_plain(seq!['.'], '/');
        let p = split(seq!['.'], '/');
        assert(p =~= seq![seq!['.']]);
        reveal_with_fuel(significant_parts, 2);
        assert(names(n) =~= seq![seq!['.']]);
    } else {
        assert(plain_name(stack[0]));
        lemma_split_join(stack, '/');
        lemma_significant_parts_of_plain(stack, 0, stack.len() as int);
        assert(stack.subrange(0, stack.len() as int) =~= stack);
        lemma_first_of_join(stack);
        assert(n[0] == stack[0][0]);
        assert(stack[0].contains(stack[0][0]));
    }
}

/// Normalizing a normalized path changes nothing.
pub proof fn lemma_normalized_idempotent(path: Seq<char>)
    ensures
        normalized(normalized(path)) == normalized(path),
{
    lemma_normalized_names(path);
    let stack = resolved(names(path));
    if !is_absolute(path) && stack.len() == 0 {
        let list = seq![seq!['.']];
        assert(list.drop_last() =~= Seq::<Seq<char>>::empty());
        assert(list.last() == seq!['.']);
        reveal_with_fuel(resolved, 2);
        assert(resolved(list) =~= Seq::<Seq<char>>::empty());
    } else {
        lemma_plain_names_stay(stack);
    }
}

proof fn lemma_last_significant_range(parts: Seq<Seq<char>>, n: int)
    requires
        n <= parts.len(),
    ensures
        -1 <= last_significant(parts, n),
        last_significant(parts, n) >= 0 ==> last_significant(parts, n) < n && significant(
            parts,
            last_significant(parts, n),
        ),
        last_significant(parts, n) < 0 ==> significant_parts(parts, n) == Seq::<Seq<char>>::empty(),
        last_significant(parts, n) >= 0 ==> significant_parts(parts, n) == significant_parts(
            parts,
            last_significant(parts, n),
        ).push(parts[last_significant(parts, n)]),
    decreases n,
{
    if n > 0 {
        lemma_last_significant_range(parts, n - 1);
    }
}

proof fn lemma_significant_parts_prefix(a: Seq<Seq<char>>, b: Seq<Seq<char>>, n: int)
    requires
        n <= a.len(),
        n <= b.len(),
        forall|i: int| 0 <= i < n ==> a[i] == b[i],
    ensures
        significant_parts(a, n) == significant_parts(b, n),
    decreases n,
{
    if n > 0 {
        lemma_significant_parts_prefix(a, b, n - 1);
    }
}

/// A path goes through the names of the directory that it lies in and then
/// through its own last name, from the same start.
pub proof fn lemma_parent_and_last_name(path: Seq<char>)
    requires
        parent(path) is Some,
    ensures
        names(path).len() > 0,
        names(parent(path)->0) == names(path).drop_last(),
        is_absolute(parent(path)->0) == is_absolute(path),
        file_name(path) matches Some(name) ==> name == names(path).last(),
{
    let parts = split(path, '/');
    let len = parts.len() as int;
    let last = last_significant(parts, len);
    lemma_last_significant_range(parts, len);
    lemma_last_significant_range(parts, last);
    let before = last_significant(parts, last);
    assert(names(path).drop_last() =~= significant_parts(parts, last));
    let dir = parent(path)->0;
    lemma_parts_hold_no_slash(path);
    if before >= 0 {
        let front = parts.take(before + 1);
        lemma_split_join(front, '/');
        lemma_significant_parts_prefix(front, parts, before + 1);
        assert(names(dir) == significant_parts(front, before + 1));
        lemma_join_split(path, '/');
        lemma_first_of_join(parts);
        lemma_first_of_join(front);
        if is_absolute(path) {
            assert(parts[0].len() == 0) by {
                if parts[0].len() > 0 {
                    assert(parts[0].contains(parts[0][0]));
                }
            }
            assert(before > 0);
        } else {
            if parts[0].len() > 0 {
                assert(front[0].contains(front[0][0]));
            }
        }
    } else if is_absolute(path) {
        let e = Seq::<char>::empty();
        let p = seq![e, e];
        assert(join(p, '/') =~= dir) by {
            assert(p.drop_last() =~= seq![e]);
            assert(join(seq![e], '/') == e);
        }
        lemma_split_join(p, '/');
        lemma_significant_parts_of_empty(p, 2);
    } else {
        assert(split(dir, '/') =~= seq![Seq::<char>::empty()]);
        lemma_significant_parts_of_empty(split(dir, '/'), 1);
    }
}

/// What a join of several pieces begins with.
proof fn lemma_first_of_join(parts: Seq<Seq<char>>)
    requires
        parts.len() >= 1,
    ensures
        parts[0].len() > 0 ==> join(parts, '/').len() > 0 && join(parts, '/')[0] == parts[0][0],
        parts[0].len() == 0 && parts.len() > 1 ==> is_absolute(join(parts, '/')),
        parts[0].len() == 0 && parts.len() == 1 ==> join(parts, '/').len() == 0,
    decreases parts.len(),
{
    if parts.len() > 1 {
        let front = parts.drop_last();
        lemma_first_of_join(front);
        if front.len() == 1 {
            assert(join(parts, '/') =~= parts[0].push('/') + parts[1]);
        }
    }
}

/// A plain name seen from a directory adds that name to those of the directory.
pub proof fn lemma_names_of_joined(base: Seq<char>, name: Seq<char>)
    requires
        plain_name(name),
    ensures
        names(joined(base, name)) == names(base).push(name),
        is_absolute(joined(base, name)) == is_absolute(base),
{
    assert(name.contains(name[0]));
    let whole = joined(base, name);
    if base.len() == 0 {
        assert(whole =~= name);
        lemma_split_plain(name, '/');
        let p = seq![name];
        assert(p[0] == name);
        lemma_significant_parts_of_plain(p, 0, 1);
        assert(p.subrange(0, 1) =~= p);
        assert(base =~= Seq::<char>::empty());
        lemma_significant_parts_of_empty(split(base, '/'), 1);
        assert(names(base).push(name) =~= p);
    } else {
        let b = if base.last() == '/' {
            base.drop_last()
        } else {
            base
        };
        assert(whole =~= b.push('/') + name);
        lemma_split_append(b, name, '/');
        let parts = split(b, '/');
        lemma_significant_parts_prefix(parts, parts.push(name), parts.len() as int);
        lemma_split_nonempty(b, '/');
        if base.last() == '/' {
            let e = Seq::<char>::empty();
            assert(b.push('/') + e =~= base);
            lemma_split_append(b, e, '/');
            lemma_significant_parts_prefix(parts, parts.push(e), parts.len() as int);
        }
    }
}

/// The directory of a path and its last name, put together again, go through
/// the names of the path from the same start.
pub proof fn lemma_parent_joined_with_file_name(path: Seq<char>)
    requires
        file_name(path) is Some,
    ensures
        parent(path) is Some,
        same_path(joined(parent(path)->0, file_name(path)->0), path),
{
    let parts = split(path, '/');
    lemma_parent_and_last_name(path);
    lemma_parts_hold_no_slash(path);
    lemma_last_significant_range(parts, parts.len() as int);
    let name = file_name(path)->0;
    lemma_names_of_joined(parent(path)->0, name);
    assert(names(path).drop_last().push(names(path).last()) =~= names(path));
}

/// Seen from an absolute directory, every path is absolute.
pub proof fn lemma_joined_absolute(base: Seq<char>, path: Seq<char>)
    requires
        is_absolute(base),
    ensures
        is_absolute(joined(base, path)),
{
}

/// Whether the path starts at the root.
pub fn path_is_absolute(path: &str) -> (r: bool)
    ensures
        r == is_absolute(path@),
{
    begins_with(path, '/')
}

/// `path` as seen from the directory `base`.
pub fn join_paths(base: &str, path: &str) -> (r: String)
    ensures
        r@ == joined(base@, path@),
{
    if path_is_absolute(path) {
        return path.to_owned();
    }
    let chars = to_chars(base);
    let mut r = base.to_owned();
    if chars.len() > 0 && chars[chars.len() - 1] != '/' {
        r.push('/');
    }
    r.append(path);
    r
}

fn is_text_dot(s: &String) -> (r: bool)
    ensures
        r == (s@ == seq!['.']),
{
    let chars = to_chars(s.as_str());
    let r = chars.len() == 1 && chars[0] == '.';
    assert(r ==> chars@ =~= seq!['.']);
    r
}

fn is_text_dot_dot(s: &String) -> (r: bool)
    ensures
        r == (s@ == seq!['.', '.']),
{
    let chars = to_chars(s.as_str());
    let r = chars.len() == 2 && chars[0] == '.' && chars[1] == '.';
    assert(r ==> chars@ =~= seq!['.', '.']);
    r
}

fn part_is_significant(parts: &Vec<String>, i: usize) -> (r: bool)
    requires
        i < parts@.len(),
    ensures
        r == significant(texts(parts@), i as int),
{
    !parts[i].as_str().is_empty() && (i == 0 || !is_text_dot(&parts[i]))
}

/// The greatest index below `n` of a piece that counts.
fn find_last_significant(parts: &Vec<String>, n: usize) -> (r: Option<usize>)
    requires
        n <= parts@.len(),
    ensures
        match r {
            Some(i) => i < n && last_significant(texts(parts@), n as int) == i,
            None => last_significant(texts(parts@), n as int) == -1,
        },
{
    let mut i: usize = n;
    while i > 0
        invariant
            i <= n <= parts@.len(),
            last_significant(texts(parts@), n as int) == last_significant(texts(parts@), i as int),
        decreases i,
    {
        if part_is_significant(parts, i - 1) {
            return Some(i - 1);
        }
        i = i - 1;
    }
    None
}

/// The last name of the path.
pub fn file_name_of(path: &str) -> (r: Option<String>)
    ensures
        match r {
            Some(name) => file_name(path@) == Some(name@),
            None => file_name(path@) is None,
        },
{
    let parts = split_at_char(path, '/');
    match find_last_significant(&parts, parts.len()) {
        Some(last) => {
            if is_text_dot(&parts[last]) || is_text_dot_dot(&parts[last]) {
                None
            } else {
                Some(parts[last].clone())
            }
        },
        None => None,
    }
}

/// What the last name of the path lies in.
pub fn parent_of(path: &str) -> (r: Option<String>)
    ensures
        match r {
            Some(dir) => parent(path@) == Some(dir@),
            None => parent(path@) is None,
        },
{
    let parts = split_at_char(path, '/');
    match find_last_significant(&parts, parts.len()) {
        Some(last) => match find_last_significant(&parts, last) {
            Some(before) => Some(join_first(&parts, before + 1, '/')),
            None => {
                let mut r = String::new();
                if path_is_absolute(path) {
                    r.push('/');
                }
                assert(is_absolute(path@) ==> r@ =~= seq!['/']);
                Some(r)
            },
        },
        None => None,
    }
}

/// The names that the path goes through.
pub fn names_of(path: &str) -> (r: Vec<String>)
    ensures
        texts(r@) == names(path@),
{
    let parts = split_at_char(path, '/');
    let mut r: Vec<String> = Vec::new();
    let mut i: usize = 0;
    assert(texts(r@) =~= significant_parts(texts(parts@), 0));
    while i < parts.len()
        invariant
            i <= parts@.len(),
            texts(r@) == significant_parts(texts(parts@), i as int),
        decreases parts@.len() - i,
    {
        if part_is_significant(&parts, i) {
            let ghost before = r@;
            r.push(parts[i].clone());
            assert(texts(r@) =~= texts(before).push(parts@[i as int]@));
        }
        i = i + 1;
    }
    r
}

} // verus!
