//! Laws of searching for executables.

use vstd::prelude::*;
use vstd::string::*;

#[allow(unused_imports)]
use crate::glob::{glob_matches, is_glob};
#[allow(unused_imports)]
use crate::path::joined;
#[allow(unused_imports)]
use crate::search::{
    beginning, chosen, chosen_in, compared, compared_text, executables_kept, executables_listed,
    kept, lemma_chosen_is_exact, listing_said, matching,
};
#[allow(unused_imports)]
use crate::shell::{candidates, said, search_dirs, Shell};
#[allow(unused_imports)]
use crate::text::{
    join, lemma_join_split, lemma_split_no_separator, lemma_split_nonempty, lowercase_text, texts,
};

verus! {

/// The search path names its directories with a colon between neighbours. One
/// that is not set names the empty directory only.
pub proof fn law_search_path(path_var: Seq<char>)
    ensures
        join(search_dirs(Some(path_var)), ':') == path_var,
        search_dirs(Some(path_var)).len() > 0,
        forall|i: int, j: int|
            0 <= i < search_dirs(Some(path_var)).len() && 0 <= j < search_dirs(
                Some(path_var),
            )[i].len() ==> #[trigger] search_dirs(Some(path_var))[i][j] != ':',
        search_dirs(None) == seq![Seq::<char>::empty()],
{
    lemma_join_split(path_var, ':');
    lemma_split_no_separator(path_var, ':');
    lemma_split_nonempty(path_var, ':');
    assert(search_dirs(None) =~= seq![Seq::<char>::empty()]);
}

/// A name is searched for in every directory of the search path, in their
/// order.
pub proof fn law_candidates(path_var: Option<Seq<char>>, name: Seq<char>, i: int)
    ensures
        candidates(path_var, name).len() == search_dirs(path_var).len(),
        0 <= i < search_dirs(path_var).len() ==> candidates(path_var, name)[i] == joined(
            search_dirs(path_var)[i],
            name,
        ),
{
}

/// A name begins with a prefix exactly when it is the prefix and a rest. Where
/// case does not count, that holds of their lower case.
pub proof fn law_names_that_begin(prefix: Seq<char>, name: Seq<char>)
    ensures
        beginning(prefix, false)(name) <==> exists|rest: Seq<char>|
            name == #[trigger] (prefix + rest),
        beginning(prefix, true)(name) <==> exists|rest: Seq<char>|
            lowercase_text(name) == #[trigger] (lowercase_text(prefix) + rest),
        matching(prefix)(name) <==> glob_matches(prefix, name),
{
    crate::laws::words::law_beginning(name, prefix);
    crate::laws::words::law_beginning(lowercase_text(name), lowercase_text(prefix));
}

/// Exactly the paths with their flag set are kept, one more behind the others.
pub proof fn law_kept(list: Seq<Seq<char>>, flags: Seq<bool>, n: int)
    requires
        0 <= n < list.len(),
        flags.len() == list.len(),
    ensures
        kept(list, flags, 0).len() == 0,
        flags[n] ==> kept(list, flags, n + 1) == kept(list, flags, n).push(list[n]),
        !flags[n] ==> kept(list, flags, n + 1) == kept(list, flags, n),
{
}

proof fn lemma_kept_contains(list: Seq<Seq<char>>, flags: Seq<bool>, n: int, path: Seq<char>)
    requires
        0 <= n <= list.len(),
        flags.len() == list.len(),
    ensures
        kept(list, flags, n).contains(path) <==> exists|i: int|
            0 <= i < n && #[trigger] flags[i] && list[i] == path,
    decreases n,
{
    if n > 0 {
        lemma_kept_contains(list, flags, n - 1, path);
        let front = kept(list, flags, n - 1);
        let all = kept(list, flags, n);
        if all.contains(path) {
            let k = choose|k: int| 0 <= k < all.len() && all[k] == path;
            if k < front.len() {
                assert(front[k] == path);
                assert(front.contains(path));
            } else {
                assert(flags[n - 1]);
            }
        }
        if exists|i: int| 0 <= i < n && #[trigger] flags[i] && list[i] == path {
            let i = choose|i: int| 0 <= i < n && #[trigger] flags[i] && list[i] == path;
            if i < n - 1 {
                let k = choose|k: int| 0 <= k < front.len() && front[k] == path;
                assert(all[k] == path);
            } else {
                assert(all[front.len() as int] == path);
            }
        }
    }
}

/// One name more of a directory that is wanted adds its path in that directory;
/// one that is not wanted adds nothing.
pub proof fn law_chosen_names(
    dir: Seq<char>,
    listed: Seq<Seq<char>>,
    wanted: spec_fn(Seq<char>) -> bool,
    n: int,
)
    requires
        0 <= n < listed.len(),
    ensures
        chosen_in(dir, listed, wanted, 0).len() == 0,
        wanted(listed[n]) ==> chosen_in(dir, listed, wanted, n + 1) == chosen_in(
            dir,
            listed,
            wanted,
            n,
        ).push(joined(dir, listed[n])),
        !wanted(listed[n]) ==> chosen_in(dir, listed, wanted, n + 1) == chosen_in(
            dir,
            listed,
            wanted,
            n,
        ),
{
}

/// The paths of one directory more come behind those of the others.
pub proof fn law_chosen_directories(
    dirs: Seq<Seq<char>>,
    listings: Seq<Seq<Seq<char>>>,
    wanted: spec_fn(Seq<char>) -> bool,
    n: int,
)
    requires
        0 <= n < dirs.len(),
        listings.len() == dirs.len(),
    ensures
        chosen(dirs, listings, wanted, 0).len() == 0,
        chosen(dirs, listings, wanted, n + 1) == chosen(dirs, listings, wanted, n) + chosen_in(
            dirs[n],
            listings[n],
            wanted,
            listings[n].len() as int,
        ),
{
}

/// The first executable of a name is one that is said to be executable, and
/// nothing before it on the search path is. None is found exactly when nothing
/// on the path is.
pub proof fn law_first_executable<F, X: Fn(&str) -> bool>(
    shell: &Shell<F>,
    name: &str,
    executable: &X,
    r: Option<String>,
)
    requires
        call_ensures(
            Shell::<F>::find_first_executable_in_path::<X>,
            (shell, name, executable),
            r,
        ),
    ensures
        ({
            let dirs = search_dirs(shell.env.value("PATH"@));
            &&& r matches Some(path) ==> exists|k: int, p: &str|
                {
                    &&& 0 <= k < dirs.len()
                    &&& path@ == joined(#[trigger] dirs[k], name@)
                    &&& p@ == path@
                    &&& #[trigger] call_ensures(*executable, (p,), true)
                    &&& forall|j: int|
                        0 <= j < k ==> said(*executable, joined(#[trigger] dirs[j], name@), false)
                }
            &&& r is None ==> forall|j: int|
                0 <= j < dirs.len() ==> said(
                    *executable,
                    joined(#[trigger] dirs[j], name@),
                    false,
                )
        }),
{
    let dirs = search_dirs(shell.env.value("PATH"@));
    let list = candidates(shell.env.value("PATH"@), name@);
    match r {
        Some(path) => {
            let k = choose|k: int|
                {
                    &&& 0 <= k < list.len()
                    &&& path@ == #[trigger] list[k]
                    &&& said(*executable, list[k], true)
                    &&& forall|j: int| 0 <= j < k ==> said(*executable, #[trigger] list[j], false)
                };
            let p = choose|p: &str|
                p@ == list[k] && #[trigger] call_ensures(*executable, (p,), true);
            assert(call_ensures(*executable, (p,), true));
            assert(path@ == joined(dirs[k], name@));
            assert forall|j: int| 0 <= j < k implies said(
                *executable,
                joined(#[trigger] dirs[j], name@),
                false,
            ) by {
                assert(said(*executable, list[j], false));
            }
        },
        None => {
            assert forall|j: int| 0 <= j < dirs.len() implies said(
                *executable,
                joined(#[trigger] dirs[j], name@),
                false,
            ) by {
                assert(said(*executable, list[j], false));
            }
        },
    }
}

/// What a callback says of a path is an answer of the callback to that path.
pub proof fn law_said<A, T: Fn(&str) -> A>(callback: T, path: Seq<char>, answer: A)
    ensures
        said(callback, path, answer) <==> exists|p: &str|
            p@ == path && #[trigger] call_ensures(callback, (p,), answer),
{
}

/// Of a plain name exactly those candidates are found that are said to be
/// executable, and they come in the order of the search path.
pub proof fn law_executables_of_a_name<
    F,
    L: Fn(&str) -> Vec<String>,
    X: Fn(&str) -> bool,
>(shell: &Shell<F>, name: &str, list: L, executable: X, r: Vec<String>)
    requires
        call_ensures(
            Shell::<F>::find_executables_in_path::<L, X>,
            (shell, name, list, executable),
            r,
        ),
        !is_glob(name@),
    ensures
        ({
            let dirs = search_dirs(shell.env.value("PATH"@));
            let places = Seq::new(dirs.len(), |i: int| joined(dirs[i], name@));
            exists|flags: Seq<bool>|
                {
                    &&& flags.len() == dirs.len()
                    &&& forall|i: int|
                        0 <= i < dirs.len() ==> said(executable, places[i], #[trigger] flags[i])
                    &&& texts(r@) == #[trigger] kept(places, flags, dirs.len() as int)
                    &&& forall|path: Seq<char>| #[trigger]
                        texts(r@).contains(path) <==> exists|i: int|
                            0 <= i < dirs.len() && #[trigger] flags[i] && places[i] == path
                }
        }),
{
    let path_var = shell.env.value("PATH"@);
    let dirs = search_dirs(path_var);
    let places = Seq::new(dirs.len(), |i: int| joined(dirs[i], name@));
    assert(candidates(path_var, name@) =~= places);
    let flags = choose|flags: Seq<bool>| #[trigger]
        executables_kept(candidates(path_var, name@), executable, flags, texts(r@));
    assert forall|path: Seq<char>| #[trigger] texts(r@).contains(path) <==> exists|i: int|
        0 <= i < dirs.len() && #[trigger] flags[i] && places[i] == path by {
        lemma_kept_contains(places, flags, dirs.len() as int, path);
    }
    assert(texts(r@) == kept(places, flags, dirs.len() as int));
}

/// Whether the names are an answer of the callback to that directory.
pub open spec fn gave<L: Fn(&str) -> Vec<String>>(
    list: L,
    dir: Seq<char>,
    listed: Seq<Seq<char>>,
) -> bool {
    exists|p: &str, v: Vec<String>|
        {
            &&& p@ == dir
            &&& #[trigger] call_ensures(list, (p,), v)
            &&& listed == texts(v@)
        }
}

/// Whether the path is that of a listed and wanted name.
pub open spec fn listed_and_wanted(
    dirs: Seq<Seq<char>>,
    listings: Seq<Seq<Seq<char>>>,
    wanted: spec_fn(Seq<char>) -> bool,
    path: Seq<char>,
) -> bool {
    exists|i: int, k: int|
        {
            &&& 0 <= i < dirs.len()
            &&& 0 <= k < listings[i].len()
            &&& wanted(#[trigger] listings[i][k])
            &&& path == joined(dirs[i], listings[i][k])
        }
}

/// Whatever is found among listed names is the path of a name that a directory
/// of the search path lists and that is wanted, and it is said to be
/// executable. Whatever is such a path and is not found is said not to be.
pub proof fn law_executables_among_listed<L: Fn(&str) -> Vec<String>, X: Fn(&str) -> bool>(
    dirs: Seq<Seq<char>>,
    wanted: spec_fn(Seq<char>) -> bool,
    list: L,
    executable: X,
    listings: Seq<Seq<Seq<char>>>,
    flags: Seq<bool>,
    found: Seq<Seq<char>>,
    path: Seq<char>,
)
    requires
        executables_listed(dirs, wanted, list, executable, listings, flags, found),
    ensures
        listings.len() == dirs.len(),
        forall|i: int| 0 <= i < dirs.len() ==> gave(list, dirs[i], #[trigger] listings[i]),
        found.contains(path) ==> listed_and_wanted(dirs, listings, wanted, path) && said(
            executable,
            path,
            true,
        ),
        listed_and_wanted(dirs, listings, wanted, path) && !found.contains(path) ==> said(
            executable,
            path,
            false,
        ),
        found == kept(chosen(dirs, listings, wanted, dirs.len() as int), flags, flags.len() as int),
{
    let n = dirs.len() as int;
    let all = chosen(dirs, listings, wanted, n);
    lemma_chosen_is_exact(dirs, listings, wanted, n, path);
    lemma_kept_contains(all, flags, all.len() as int, path);
    assert forall|i: int| 0 <= i < dirs.len() implies gave(
        list,
        dirs[i],
        #[trigger] listings[i],
    ) by {
        assert(listing_said(list, dirs[i], listings[i]));
        let v = choose|v: Vec<String>| #[trigger] said(list, dirs[i], v) && listings[i] == texts(v@);
        let p = choose|p: &str| p@ == dirs[i] && #[trigger] call_ensures(list, (p,), v);
        assert(call_ensures(list, (p,), v));
    }
    if found.contains(path) {
        let i = choose|i: int| 0 <= i < all.len() && #[trigger] flags[i] && all[i] == path;
        assert(all.contains(path));
        assert(said(executable, all[i], flags[i]));
    }
    if listed_and_wanted(dirs, listings, wanted, path) && !found.contains(path) {
        assert(all.contains(path));
        let i = choose|i: int| 0 <= i < all.len() && all[i] == path;
        assert(!flags[i]);
        assert(said(executable, all[i], flags[i]));
    }
}

/// What is compared is the text itself where case counts, and else its lower
/// case.
pub proof fn law_compared(text: &str, case_insensitive: bool, r: String)
    requires
        call_ensures(compared_text, (text, case_insensitive), r),
    ensures
        !case_insensitive ==> r@ == text@,
        case_insensitive ==> r@ == lowercase_text(text@),
{
}

} // verus!
