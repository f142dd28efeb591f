//! The search for executables in listed directories.

use vstd::prelude::*;
use vstd::string::*;

#[allow(unused_imports)]
use crate::glob::glob_matches;
use crate::path::join_paths;
#[allow(unused_imports)]
use crate::path::joined;
#[allow(unused_imports)]
use crate::shell::said;
use crate::text::to_lowercase;
#[allow(unused_imports)]
use crate::text::{has_prefix, lowercase_text, texts};

verus! {

/// The names that match a glob pattern.
pub open spec fn matching(pattern: Seq<char>) -> spec_fn(Seq<char>) -> bool {
    |name: Seq<char>| glob_matches(pattern, name)
}

/// The text by which a name is compared: its lower case where the case of
/// letters does not count.
pub open spec fn compared(text: Seq<char>, case_insensitive: bool) -> Seq<char> {
    if case_insensitive {
        lowercase_text(text)
    } else {
        text
    }
}

/// The names that begin with a prefix.
pub open spec fn beginning(prefix: Seq<char>, case_insensitive: bool) -> spec_fn(Seq<char>) -> bool {
    |name: Seq<char>|
        has_prefix(compared(name, case_insensitive), compared(prefix, case_insensitive))
}

/// The paths of those of the first `n` names in the directory `dir` that are
/// wanted.
pub open spec fn chosen_in(
    dir: Seq<char>,
    listed: Seq<Seq<char>>,
    wanted: spec_fn(Seq<char>) -> bool,
    n: int,
) -> Seq<Seq<char>>
    decreases n,
{
    if n <= 0 {
        Seq::empty()
    } else if wanted(listed[n - 1]) {
        chosen_in(dir, listed, wanted, n - 1).push(joined(dir, listed[n - 1]))
    } else {
        chosen_in(dir, listed, wanted, n - 1)
    }
}

/// The paths in the first `n` directories whose names are wanted. `listings`
/// are the names in each of them.
pub open spec fn chosen(
    dirs: Seq<Seq<char>>,
    listings: Seq<Seq<Seq<char>>>,
    wanted: spec_fn(Seq<char>) -> bool,
    n: int,
) -> Seq<Seq<char>>
    decreases n,
{
    if n <= 0 {
        Seq::empty()
    } else {
        chosen(dirs, listings, wanted, n - 1) + chosen_in(
            dirs[n - 1],
            listings[n - 1],
            wanted,
            listings[n - 1].len() as int,
        )
    }
}

/// Whether `listed` can be the names that the callback gives for `dir`.
pub open spec fn listing_said<L: Fn(&str) -> Vec<String>>(
    list: L,
    dir: Seq<char>,
    listed: Seq<Seq<char>>,
) -> bool {
    exists|v: Vec<String>| #[trigger] said(list, dir, v) && listed == texts(v@)
}

/// Whether `listings` can be the names that the callback gives for each of the
/// directories.
pub open spec fn listed_in<L: Fn(&str) -> Vec<String>>(
    list: L,
    dirs: Seq<Seq<char>>,
    listings: Seq<Seq<Seq<char>>>,
) -> bool {
    &&& listings.len() == dirs.len()
    &&& forall|i: int|
        0 <= i < dirs.len() ==> listing_said(list, dirs[i], #[trigger] listings[i])
}

/// Those of the first `n` texts whose flag is set.
pub open spec fn kept(list: Seq<Seq<char>>, flags: Seq<bool>, n: int) -> Seq<Seq<char>>
    decreases n,
{
    if n <= 0 {
        Seq::empty()
    } else if flags[n - 1] {
        kept(list, flags, n - 1).push(list[n - 1])
    } else {
        kept(list, flags, n - 1)
    }
}

/// Whether `found` are those of the paths that can be executed, when `flags`
/// are what the callback says of each of them.
pub open spec fn executables_kept<X: Fn(&str) -> bool>(
    paths: Seq<Seq<char>>,
    executable: X,
    flags: Seq<bool>,
    found: Seq<Seq<char>>,
) -> bool {
    &&& flags.len() == paths.len()
    &&& forall|i: int| 0 <= i < paths.len() ==> said(executable, paths[i], #[trigger] flags[i])
    &&& found == kept(paths, flags, paths.len() as int)
}

/// Whether `found` are the executables in the directories whose names are
/// wanted, when `listings` are the names in the directories and `flags` say
/// which of the wanted files can be executed.
pub open spec fn executables_listed<L: Fn(&str) -> Vec<String>, X: Fn(&str) -> bool>(
    dirs: Seq<Seq<char>>,
    wanted: spec_fn(Seq<char>) -> bool,
    list: L,
    executable: X,
    listings: Seq<Seq<Seq<char>>>,
    flags: Seq<bool>,
    found: Seq<Seq<char>>,
) -> bool {
    &&& listed_in(list, dirs, listings)
    &&& executables_kept(
        chosen(dirs, listings, wanted, dirs.len() as int),
        executable,
        flags,
        found,
    )
}

/// Whether the test tells of every name whether it is wanted.
pub open spec fn tests<T: Fn(&str) -> bool>(test: T, wanted: spec_fn(Seq<char>) -> bool) -> bool {
    &&& forall|name: &str| #[trigger] call_requires(test, (name,))
    &&& forall|name: &str, r: bool| #[trigger]
        call_ensures(test, (name,), r) ==> r == wanted(name@)
}

/// The text by which a name is compared.
pub fn compared_text(text: &str, case_insensitive: bool) -> (r: String)
    ensures
        r@ == compared(text@, case_insensitive),
{
    if case_insensitive {
        to_lowercase(text)
    } else {
        text.to_owned()
    }
}

/// Adds the paths of those names in the directory that are wanted.
fn add_chosen<T: Fn(&str) -> bool>(
    r: &mut Vec<String>,
    dir: &str,
    listed: &Vec<String>,
    test: &T,
    Ghost(wanted): Ghost<spec_fn(Seq<char>) -> bool>,
)
    requires
        tests(*test, wanted),
    ensures
        texts(final(r)@) == texts(old(r)@) + chosen_in(
            dir@,
            texts(listed@),
            wanted,
            listed@.len() as int,
        ),
{
    let mut i: usize = 0;
    assert(texts(r@) =~= texts(old(r)@) + chosen_in(dir@, texts(listed@), wanted, 0));
    while i < listed.len()
        invariant
            i <= listed@.len(),
            tests(*test, wanted),
            texts(r@) == texts(old(r)@) + chosen_in(dir@, texts(listed@), wanted, i as int),
        decreases listed@.len() - i,
    {
        assert(texts(listed@)[i as int] == listed@[i as int]@);
        if test(listed[i].as_str()) {
            let ghost before = r@;
            let path = join_paths(dir, listed[i].as_str());
            r.push(path);
            assert(texts(r@) =~= texts(before).push(path@));
        }
        i = i + 1;
        assert(texts(r@) =~= texts(old(r)@) + chosen_in(dir@, texts(listed@), wanted, i as int));
    }
}

/// The paths in the directories whose names are wanted, and the names that
/// were listed.
pub(crate) fn list_chosen<L: Fn(&str) -> Vec<String>, T: Fn(&str) -> bool>(
    dirs: &Vec<String>,
    list: &L,
    test: &T,
    Ghost(wanted): Ghost<spec_fn(Seq<char>) -> bool>,
) -> (r: (Vec<String>, Ghost<Seq<Seq<Seq<char>>>>))
    requires
        forall|p: &str| #[trigger] call_requires(*list, (p,)),
        tests(*test, wanted),
    ensures
        texts(r.0@) == chosen(texts(dirs@), r.1@, wanted, dirs@.len() as int),
        listed_in(*list, texts(dirs@), r.1@),
{
    let ghost all = texts(dirs@);
    let mut r: Vec<String> = Vec::new();
    let ghost mut listings: Seq<Seq<Seq<char>>> = Seq::empty();
    let mut i: usize = 0;
    assert(texts(r@) =~= chosen(all, listings, wanted, 0));
    while i < dirs.len()
        invariant
            i <= dirs@.len(),
            texts(dirs@) == all,
            listings.len() == i,
            forall|p: &str| #[trigger] call_requires(*list, (p,)),
            tests(*test, wanted),
            forall|k: int| 0 <= k < i ==> listing_said(*list, all[k], #[trigger] listings[k]),
            texts(r@) == chosen(all, listings, wanted, i as int),
        decreases dirs@.len() - i,
    {
        assert(texts(dirs@)[i as int] == dirs@[i as int]@);
        let names = list(dirs[i].as_str());
        assert(said(*list, all[i as int], names));
        let ghost before = listings;
        proof {
            listings = listings.push(texts(names@));
            assert(listing_said(*list, all[i as int], listings[i as int]));
            lemma_chosen_prefix(all, before, listings, wanted, i as int);
        }
        add_chosen(&mut r, dirs[i].as_str(), &names, test, Ghost(wanted));
        i = i + 1;
    }
    (r, Ghost(listings))
}

/// Those of the paths that `executable` says can be executed, and what it said
/// of each.
pub(crate) fn keep_executable<X: Fn(&str) -> bool>(all: &Vec<String>, executable: &X) -> (r: (
    Vec<String>,
    Ghost<Seq<bool>>,
))
    requires
        forall|p: &str| #[trigger] call_requires(*executable, (p,)),
    ensures
        executables_kept(texts(all@), *executable, r.1@, texts(r.0@)),
{
    let ghost paths = texts(all@);
    let mut r: Vec<String> = Vec::new();
    let ghost mut flags: Seq<bool> = Seq::empty();
    let mut i: usize = 0;
    assert(texts(r@) =~= kept(paths, flags, 0));
    while i < all.len()
        invariant
            i <= all@.len(),
            paths == texts(all@),
            flags.len() == i,
            forall|p: &str| #[trigger] call_requires(*executable, (p,)),
            forall|k: int| 0 <= k < i ==> said(*executable, paths[k], #[trigger] flags[k]),
            texts(r@) == kept(paths, flags, i as int),
        decreases all@.len() - i,
    {
        assert(paths[i as int] == all@[i as int]@);
        let found = executable(all[i].as_str());
        assert(said(*executable, paths[i as int], found));
        let ghost old_flags = flags;
        let ghost before = r@;
        proof {
            flags = flags.push(found);
            lemma_kept_prefix(paths, old_flags, flags, i as int);
        }
        if found {
            r.push(all[i].clone());
            assert(texts(r@) =~= texts(before).push(paths[i as int]));
        }
        i = i + 1;
    }
    (r, Ghost(flags))
}

/// The paths in the first directories depend on their names alone.
proof fn lemma_chosen_prefix(
    dirs: Seq<Seq<char>>,
    a: Seq<Seq<Seq<char>>>,
    b: Seq<Seq<Seq<char>>>,
    wanted: spec_fn(Seq<char>) -> bool,
    n: int,
)
    requires
        n <= a.len(),
        n <= b.len(),
        forall|i: int| 0 <= i < n ==> a[i] == b[i],
    ensures
        chosen(dirs, a, wanted, n) == chosen(dirs, b, wanted, n),
    decreases n,
{
    if n > 0 {
        lemma_chosen_prefix(dirs, a, b, wanted, n - 1);
    }
}

/// What is kept of the first texts depends on their flags alone.
proof fn lemma_kept_prefix(list: Seq<Seq<char>>, a: Seq<bool>, b: Seq<bool>, n: int)
    requires
        n <= a.len(),
        n <= b.len(),
        forall|i: int| 0 <= i < n ==> a[i] == b[i],
    ensures
        kept(list, a, n) == kept(list, b, n),
    decreases n,
{
    if n > 0 {
        lemma_kept_prefix(list, a, b, n - 1);
    }
}

/// Exactly the wanted ones of the listed names are searched for.
pub proof fn lemma_chosen_is_exact(
    dirs: Seq<Seq<char>>,
    listings: Seq<Seq<Seq<char>>>,
    wanted: spec_fn(Seq<char>) -> bool,
    n: int,
    path: Seq<char>,
)
    requires
        0 <= n <= dirs.len(),
        listings.len() == dirs.len(),
    ensures
        chosen(dirs, listings, wanted, n).contains(path) <==> exists|i: int, k: int|
            {
                &&& 0 <= i < n
                &&& 0 <= k < listings[i].len()
                &&& wanted(#[trigger] listings[i][k])
                &&& path == joined(dirs[i], listings[i][k])
            },
    decreases n,
{
    if n > 0 {
        let listed = listings[n - 1];
        lemma_chosen_is_exact(dirs, listings, wanted, n - 1, path);
        lemma_chosen_in_is_exact(dirs[n - 1], listed, wanted, listed.len() as int, path);
        lemma_contains_concat(
            chosen(dirs, listings, wanted, n - 1),
            chosen_in(dirs[n - 1], listed, wanted, listed.len() as int),
            path,
        );
    }
}

/// The same for one directory.
proof fn lemma_chosen_in_is_exact(
    dir: Seq<char>,
    listed: Seq<Seq<char>>,
    wanted: spec_fn(Seq<char>) -> bool,
    n: int,
    path: Seq<char>,
)
    requires
        0 <= n <= listed.len(),
    ensures
        chosen_in(dir, listed, wanted, n).contains(path) <==> exists|k: int|
            {
                &&& 0 <= k < n
                &&& wanted(#[trigger] listed[k])
                &&& path == joined(dir, listed[k])
            },
    decreases n,
{
    if n > 0 {
        lemma_chosen_in_is_exact(dir, listed, wanted, n - 1, path);
        let front = chosen_in(dir, listed, wanted, n - 1);
        let last = joined(dir, listed[n - 1]);
        if wanted(listed[n - 1]) {
            lemma_contains_concat(front, seq![last], path);
            assert(front.push(last) =~= front + seq![last]);
            assert(seq![last].contains(path) <==> last == path) by {
                assert(seq![last][0] == last);
            }
        }
    }
}

/// What a concatenation contains.
proof fn lemma_contains_concat(a: Seq<Seq<char>>, b: Seq<Seq<char>>, x: Seq<char>)
    ensures
        (a + b).contains(x) <==> a.contains(x) || b.contains(x),
{
    if a.contains(x) {
        let i = choose|i: int| 0 <= i < a.len() && a[i] == x;
        assert((a + b)[i] == x);
    }
    if b.contains(x) {
        let i = choose|i: int| 0 <= i < b.len() && b[i] == x;
        assert((a + b)[a.len() + i] == x);
    }
    if (a + b).contains(x) {
        let i = choose|i: int| 0 <= i < (a + b).len() && (a + b)[i] == x;
        if i < a.len() {
            assert(a[i] == x);
        } else {
            assert(b[i - a.len()] == x);
        }
    }
}

/// The first of all executables of a name is the one at the first path that can
/// be executed; there is none exactly when no path can be.
pub proof fn lemma_first_of_all_executables(list: Seq<Seq<char>>, flags: Seq<bool>, n: int)
    requires
        0 <= n <= list.len(),
        flags.len() == list.len(),
    ensures
        kept(list, flags, n).len() == 0 <==> (forall|i: int| 0 <= i < n ==> !#[trigger] flags[i]),
        kept(list, flags, n).len() > 0 ==> exists|k: int|
            {
                &&& 0 <= k < n
                &&& #[trigger] flags[k]
                &&& kept(list, flags, n)[0] == list[k]
                &&& forall|j: int| 0 <= j < k ==> !#[trigger] flags[j]
            },
    decreases n,
{
    if n > 0 {
        lemma_first_of_all_executables(list, flags, n - 1);
        if kept(list, flags, n - 1).len() == 0 {
            if flags[n - 1] {
                assert(kept(list, flags, n)[0] == list[n - 1]);
            }
        } else {
            let k = choose|k: int|
                {
                    &&& 0 <= k < n - 1
                    &&& #[trigger] flags[k]
                    &&& kept(list, flags, n - 1)[0] == list[k]
                    &&& forall|j: int| 0 <= j < k ==> !#[trigger] flags[j]
                };
            assert(flags[k]);
            assert(kept(list, flags, n)[0] == list[k]);
        }
    }
}

} // verus!
