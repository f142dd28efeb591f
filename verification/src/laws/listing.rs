//! Laws of what `ls` shows.

use vstd::prelude::*;
use vstd::string::*;

#[allow(unused_imports)]
use crate::builtins::args::{first_outside, letters};
#[allow(unused_imports)]
use crate::builtins::ls::{
    entries_text, entry_text, in_order, key_le, keys_ordered, lemma_in_order, listing_text,
    long_line, ls_letters, ls_native_result, ls_options, ls_output, ls_paths, ls_vfs_result,
    native_reply, native_view, native_views, render_listing, render_single, replies_complete,
    section, sections, shown_name, single_text, vfs_reply, with_key, LsBuiltin, LsOptions, LsReply,
    NativeEntry,
};
#[allow(unused_imports)]
use crate::builtins::output::CommandOutput;
#[allow(unused_imports)]
use crate::laws::arguments::{law_first_outside, law_letters, letter_given};
#[allow(unused_imports)]
use crate::path::{file_name, plain_name};
#[allow(unused_imports)]
use crate::shell::{absolute, Shell};
#[allow(unused_imports)]
use crate::size::size_text;
#[allow(unused_imports)]
use crate::text::{decimal, lemma_split_plain, pad_left, split, texts};
#[allow(unused_imports)]
use crate::vfs::VfsHook;
#[allow(unused_imports)]
use crate::wasm_vfs::{entry_view, entry_views, EntryView, VfsDirEntry, VfsStat};

verus! {

/// Whether an entry of this name is left out.
pub open spec fn left_out(o: LsOptions, name: Seq<char>) -> bool {
    !o.show_hidden && name.len() > 0 && name[0] == '.'
}

/// A line of the long format is a letter for the type, the permissions and
/// owners, the size, the name and a line end. The size is the number in a field
/// of eight or, where people are to read it, its short form.
pub proof fn law_long_line(o: LsOptions, name: Seq<char>, size: u64, is_dir: bool)
    ensures
        is_dir && o.human_sizes ==> long_line(o, name, size, is_dir) == seq!['d']
            + "rw-r--r-- 1 user user "@ + size_text(size as nat) + " "@ + name + "\n"@,
        is_dir && !o.human_sizes ==> long_line(o, name, size, is_dir) == seq!['d']
            + "rw-r--r-- 1 user user "@ + pad_left(decimal(size as nat), 8) + " "@ + name + "\n"@,
        !is_dir && o.human_sizes ==> long_line(o, name, size, is_dir) == seq!['-']
            + "rw-r--r-- 1 user user "@ + size_text(size as nat) + " "@ + name + "\n"@,
        !is_dir && !o.human_sizes ==> long_line(o, name, size, is_dir) == seq!['-']
            + "rw-r--r-- 1 user user "@ + pad_left(decimal(size as nat), 8) + " "@ + name + "\n"@,
{
}

/// A directory with one entry shows nothing but that entry: in the long format
/// by a line with its type, its size as the options say and its name, else by
/// its name.
pub proof fn law_listing_of_one(o: LsOptions, entries: Vec<VfsDirEntry>, r: String)
    requires
        call_ensures(render_listing, (&o, &entries), r),
        entries@.len() == 1,
    ensures
        ({
            let name = entries@[0].0@;
            let size = entries@[0].1 as nat;
            let field = if o.human_sizes {
                size_text(size)
            } else {
                pad_left(decimal(size), 8)
            };
            let kind = if entries@[0].2 {
                'd'
            } else {
                '-'
            };
            &&& o.long_format && !left_out(o, name) ==> r@ == seq![kind]
                + "rw-r--r-- 1 user user "@ + field + " "@ + name + "\n"@
            &&& !o.long_format && o.one_per_line && !left_out(o, name) ==> r@ == name + "\n"@
            &&& !o.long_format && !o.one_per_line && !left_out(o, name) ==> r@ == name + "  "@
                + "\n"@
            &&& (o.long_format || o.one_per_line) && left_out(o, name) ==> r@.len() == 0
            &&& !o.long_format && !o.one_per_line && left_out(o, name) ==> r@ == "\n"@
        }),
{
    let views = entry_views(entries@);
    reveal_with_fuel(entries_text, 2);
    assert(views[0] == entry_view(entries@[0]));
    let text = entry_text(o, views[0]);
    assert(Seq::<char>::empty() + text =~= text);
    assert(Seq::<char>::empty() + "\n"@ =~= "\n"@);
}

/// A directory without entries shows nothing, or an empty line where names
/// stand beside each other.
pub proof fn law_listing_of_none(o: LsOptions, entries: Vec<VfsDirEntry>, r: String)
    requires
        call_ensures(render_listing, (&o, &entries), r),
        entries@.len() == 0,
    ensures
        o.long_format || o.one_per_line ==> r@.len() == 0,
        !o.long_format && !o.one_per_line ==> r@ == "\n"@,
{
    assert(Seq::<char>::empty() + "\n"@ =~= "\n"@);
}

proof fn lemma_entries_concatenate(o: LsOptions, a: Seq<EntryView>, b: Seq<EntryView>, n: int)
    requires
        0 <= n <= b.len(),
    ensures
        entries_text(o, a + b, a.len() + n) == entries_text(o, a, a.len() as int)
            + entries_text(o, b, n),
    decreases n,
{
    if n == 0 {
        lemma_entries_prefix(o, a + b, a, a.len() as int);
        assert(entries_text(o, a, a.len() as int) + entries_text(o, b, 0) =~= entries_text(
            o,
            a,
            a.len() as int,
        ));
    } else {
        lemma_entries_concatenate(o, a, b, n - 1);
        assert(entries_text(o, a + b, a.len() + n) =~= entries_text(o, a, a.len() as int)
            + entries_text(o, b, n));
    }
}

proof fn lemma_entries_prefix(o: LsOptions, a: Seq<EntryView>, b: Seq<EntryView>, n: int)
    requires
        n <= a.len(),
        n <= b.len(),
        forall|i: int| 0 <= i < n ==> a[i] == b[i],
    ensures
        entries_text(o, a, n) == entries_text(o, b, n),
    decreases n,
{
    if n > 0 {
        lemma_entries_prefix(o, a, b, n - 1);
    }
}

/// A directory that has the entries of one and behind them those of another is
/// shown as the one and behind it the other. Where names stand beside each
/// other, the line end of the first is left out.
pub proof fn law_listings_concatenate(
    o: LsOptions,
    first: Vec<VfsDirEntry>,
    second: Vec<VfsDirEntry>,
    both: Vec<VfsDirEntry>,
    a: String,
    b: String,
    r: String,
)
    requires
        call_ensures(render_listing, (&o, &first), a),
        call_ensures(render_listing, (&o, &second), b),
        call_ensures(render_listing, (&o, &both), r),
        both@ == first@ + second@,
    ensures
        o.long_format || o.one_per_line ==> r@ == a@ + b@,
        !o.long_format && !o.one_per_line ==> r@ + "\n"@ == a@.take(a@.len() - 1) + b@ + "\n"@,
{
    assert(entry_views(both@) =~= entry_views(first@) + entry_views(second@));
    let x = entry_views(first@);
    let y = entry_views(second@);
    lemma_entries_concatenate(o, x, y, y.len() as int);
    reveal_strlit("\n");
    if !o.long_format && !o.one_per_line {
        let la = entries_text(o, x, x.len() as int);
        let lb = entries_text(o, y, y.len() as int);
        assert(a@.take(a@.len() - 1) =~= la);
        assert(r@ =~= la + b@);
    }
}

/// A file is shown the same way in the listing of its directory and by itself,
/// in the long format and one name to a line.
pub proof fn law_shown_alike(
    o: LsOptions,
    entries: Vec<VfsDirEntry>,
    listed: String,
    path: &str,
    record: VfsStat,
    single: String,
)
    requires
        call_ensures(render_listing, (&o, &entries), listed),
        call_ensures(render_single, (&o, path, record), single),
        entries@.len() == 1,
        path@ == entries@[0].0@,
        plain_name(path@),
        !left_out(o, path@),
        record == (entries@[0].1, entries@[0].2, entries@[0].3),
        o.long_format || o.one_per_line,
    ensures
        listed@ == single@,
{
    law_listing_of_one(o, entries, listed);
    lemma_plain_is_shown(path@);
}

/// The same of the texts that contracts speak of.
pub proof fn law_entry_is_shown_like_a_file(o: LsOptions, e: EntryView)
    requires
        plain_name(e.name),
        !left_out(o, e.name),
        o.long_format || o.one_per_line,
    ensures
        entry_text(o, e) == single_text(o, e.name, (e.size, e.is_dir, e.modified)),
{
    lemma_plain_is_shown(e.name);
}

proof fn lemma_plain_is_shown(name: Seq<char>)
    requires
        plain_name(name),
    ensures
        shown_name(name) == name,
{
    lemma_split_plain(name, '/');
    let parts = split(name, '/');
    assert(parts =~= seq![name]);
    assert(parts[0] == name);
    reveal_with_fuel(crate::path::last_significant, 2);
}

/// A single file is shown by its last name or, where it has none, by its path.
pub proof fn law_single_file(o: LsOptions, path: &str, record: VfsStat, r: String)
    requires
        call_ensures(render_single, (&o, path, record), r),
    ensures
        ({
            let name = match file_name(path@) {
                Some(n) => n,
                None => path@,
            };
            let size = record.0 as nat;
            let field = if o.human_sizes {
                size_text(size)
            } else {
                pad_left(decimal(size), 8)
            };
            let kind = if record.1 {
                'd'
            } else {
                '-'
            };
            &&& o.long_format ==> r@ == seq![kind] + "rw-r--r-- 1 user user "@ + field + " "@
                + name + "\n"@
            &&& !o.long_format ==> r@ == name + "\n"@
        }),
{
}

/// A path that is listed alone is shown without its name; one of several is
/// shown under a line with its name and a colon, with an empty line before it
/// unless it is the first.
pub proof fn law_section(o: LsOptions, paths: Seq<Seq<char>>, i: int, reply: LsReply)
    requires
        0 <= i < paths.len(),
    ensures
        ({
            let shown = match reply {
                LsReply::Listing(entries) => listing_text(o, entries),
                LsReply::Single(record) => single_text(o, paths[i], record),
                LsReply::Failed(reason) => Seq::empty(),
            };
            &&& paths.len() == 1 ==> section(o, paths, i, reply) == shown
            &&& paths.len() > 1 && i == 0 ==> section(o, paths, i, reply) == paths[0] + ":\n"@
                + shown
            &&& paths.len() > 1 && i > 0 ==> section(o, paths, i, reply) == "\n"@ + paths[i]
                + ":\n"@ + shown
        }),
{
    let shown = match reply {
        LsReply::Listing(entries) => listing_text(o, entries),
        LsReply::Single(record) => single_text(o, paths[i], record),
        LsReply::Failed(reason) => Seq::empty(),
    };
    assert(Seq::<char>::empty() + shown =~= shown);
    if i == 0 {
        assert(Seq::<char>::empty() + paths[0] =~= paths[0]);
    }
}

/// What is written for one path more stands behind what was written for the
/// others.
pub proof fn law_sections_follow(
    o: LsOptions,
    paths: Seq<Seq<char>>,
    replies: Seq<LsReply>,
    n: int,
)
    requires
        0 <= n < replies.len(),
    ensures
        sections(o, paths, replies, 0).len() == 0,
        sections(o, paths, replies, n + 1) == sections(o, paths, replies, n) + section(
            o,
            paths,
            n,
            replies[n],
        ),
{
}

/// `ls` fails exactly when nothing was found at some path. It says so of that
/// path, and of all before it writes what was found.
pub proof fn law_ls_reports(
    o: LsOptions,
    paths: Seq<Seq<char>>,
    replies: Seq<LsReply>,
    out: CommandOutput,
)
    requires
        ls_output(o, paths, replies, out),
        replies_complete(paths, replies),
    ensures
        out.stdout@ == sections(o, paths, replies, replies.len() as int),
        (forall|i: int| 0 <= i < replies.len() ==> !((#[trigger] replies[i]) is Failed)) ==> {
            &&& out.exit_code == 0
            &&& out.stderr@.len() == 0
            &&& replies.len() == paths.len()
        },
        forall|i: int|
            0 <= i < replies.len() && (#[trigger] replies[i]) is Failed ==> {
                &&& i == replies.len() - 1
                &&& out.exit_code == 2
                &&& out.stderr@ == "ls: cannot access '"@ + paths[i] + "': "@
                    + replies[i]->Failed_0 + "\n"@
            },
{
    assert(replies[replies.len() - 1] == replies.last());
}

/// What is shown for a path is what the hooks answer for its absolute form: the
/// listing if there is one, else the record of a file, else nothing.
pub proof fn law_ls_asks_the_hooks<
    W,
    L: Fn(&W, &str) -> Option<Vec<VfsDirEntry>>,
    S: Fn(&W, &str) -> Option<VfsStat>,
>(
    working_dir: Seq<char>,
    list_hook: VfsHook<L>,
    list: L,
    stat_hook: VfsHook<S>,
    record: S,
    world: W,
    args: Seq<Seq<char>>,
    replies: Seq<LsReply>,
    out: CommandOutput,
    i: int,
)
    requires
        ls_vfs_result(working_dir, list_hook, stat_hook, world, args, replies, out),
        list_hook.callback == Some(list),
        stat_hook.callback == Some(record),
        0 <= i < replies.len(),
    ensures
        replies.len() <= ls_paths(args).len(),
        replies[i] matches LsReply::Listing(entries) ==> exists|p: &str, found: Vec<VfsDirEntry>|
            {
                &&& p@ == absolute(working_dir, ls_paths(args)[i])
                &&& #[trigger] call_ensures(list, (&world, p), Some(found))
                &&& entries.len() == found@.len()
                &&& forall|k: int|
                    0 <= k < entries.len() ==> {
                        &&& (#[trigger] entries[k]).name == found@[k].0@
                        &&& entries[k].size == found@[k].1
                        &&& entries[k].is_dir == found@[k].2
                        &&& entries[k].modified == found@[k].3
                    }
            },
        !(replies[i] is Listing) ==> exists|p: &str|
            {
                &&& p@ == absolute(working_dir, ls_paths(args)[i])
                &&& #[trigger] call_ensures(list, (&world, p), None)
            },
        replies[i] matches LsReply::Single(found) ==> exists|p: &str|
            {
                &&& p@ == absolute(working_dir, ls_paths(args)[i])
                &&& #[trigger] call_ensures(record, (&world, p), Some(found))
            },
        replies[i] matches LsReply::Failed(reason) ==> {
            &&& reason == "No such file or directory"@
            &&& exists|p: &str|
                {
                    &&& p@ == absolute(working_dir, ls_paths(args)[i])
                    &&& #[trigger] call_ensures(record, (&world, p), None)
                }
        },
{
    let path = absolute(working_dir, ls_paths(args)[i]);
    assert(vfs_reply(list_hook, stat_hook, world, path, replies[i]));
    match replies[i] {
        LsReply::Listing(entries) => {
            let found = choose|found: Vec<VfsDirEntry>|
                {
                    &&& #[trigger] crate::vfs::answers(list_hook, world, path, None, Some(found))
                    &&& entries == entry_views(found@)
                };
            let p = choose|p: &str|
                p@ == path && #[trigger] call_ensures(list, (&world, p), Some(found));
            assert(call_ensures(list, (&world, p), Some(found)));
            assert forall|k: int| 0 <= k < entries.len() implies {
                &&& (#[trigger] entries[k]).name == found@[k].0@
                &&& entries[k].size == found@[k].1
                &&& entries[k].is_dir == found@[k].2
                &&& entries[k].modified == found@[k].3
            } by {
                assert(entries[k] == entry_view(found@[k]));
            }
        },
        _ => {},
    }
}

/// `ls` stops at a letter that it does not know. Else it shows its paths under
/// the options that the letters `l`, `a`, `1` and `h` set, one behind the other,
/// and fails exactly when nothing was found at one of them.
pub proof fn law_ls_shows_its_paths<
    F,
    W,
    L: Fn(&W, &str) -> Option<Vec<VfsDirEntry>>,
    S: Fn(&W, &str) -> Option<VfsStat>,
>(
    shell: &Shell<F>,
    list_hook: &VfsHook<L>,
    stat_hook: &VfsHook<S>,
    world: &W,
    args: Vec<String>,
    out: CommandOutput,
)
    requires
        call_ensures(
            LsBuiltin::execute::<F, W, L, S>,
            (shell, list_hook, stat_hook, world, &args),
            out,
        ),
        forall|c: char| #[trigger]
            letter_given(texts(args@), true, c) ==> c == 'l' || c == 'a' || c == '1' || c == 'h',
    ensures
        exists|replies: Seq<LsReply>|
            {
                let paths = ls_paths(texts(args@));
                &&& #[trigger] replies_complete(ls_paths(texts(args@)), replies)
                &&& forall|i: int|
                    0 <= i < replies.len() ==> vfs_reply(
                        *list_hook,
                        *stat_hook,
                        *world,
                        absolute(shell.working_dir@, paths[i]),
                        #[trigger] replies[i],
                    )
                &&& out.stdout@ == sections(
                    given_options(texts(args@)),
                    paths,
                    replies,
                    replies.len() as int,
                )
                &&& !(replies.last() is Failed) ==> out.exit_code == 0 && out.stderr@.len() == 0
                &&& replies.last() is Failed ==> {
                    &&& out.exit_code == 2
                    &&& out.stderr@ == "ls: cannot access '"@ + paths[replies.len() - 1] + "': "@
                        + replies.last()->Failed_0 + "\n"@
                }
            },
{
    let all = texts(args@);
    lemma_known_letters(all);
    let replies = choose|replies: Seq<LsReply>| #[trigger]
        ls_vfs_result(
            shell.working_dir@,
            *list_hook,
            *stat_hook,
            *world,
            texts(args@),
            replies,
            out,
        );
    assert(replies_complete(ls_paths(all), replies));
}

/// The same without a virtual file system.
pub proof fn law_ls_shows_native_paths<
    F,
    D: Fn(&str) -> Result<Vec<NativeEntry>, String>,
>(shell: &Shell<F>, read_dir: D, args: Vec<String>, out: CommandOutput)
    requires
        call_ensures(LsBuiltin::execute_native::<F, D>, (shell, read_dir, &args), out),
        forall|c: char| #[trigger]
            letter_given(texts(args@), true, c) ==> c == 'l' || c == 'a' || c == '1' || c == 'h',
    ensures
        exists|replies: Seq<LsReply>|
            {
                let paths = ls_paths(texts(args@));
                &&& #[trigger] replies_complete(ls_paths(texts(args@)), replies)
                &&& forall|i: int|
                    0 <= i < replies.len() ==> native_reply(
                        read_dir,
                        absolute(shell.working_dir@, paths[i]),
                        #[trigger] replies[i],
                    )
                &&& out.stdout@ == sections(
                    given_options(texts(args@)),
                    paths,
                    replies,
                    replies.len() as int,
                )
                &&& !(replies.last() is Failed) ==> out.exit_code == 0 && out.stderr@.len() == 0
                &&& replies.last() is Failed ==> {
                    &&& out.exit_code == 2
                    &&& out.stderr@ == "ls: cannot access '"@ + paths[replies.len() - 1] + "': "@
                        + replies.last()->Failed_0 + "\n"@
                }
            },
{
    let all = texts(args@);
    lemma_known_letters(all);
    let replies = choose|replies: Seq<LsReply>| #[trigger]
        ls_native_result(shell.working_dir@, read_dir, texts(args@), replies, out);
    assert(replies_complete(ls_paths(all), replies));
}

/// The options that the arguments of `ls` set.
pub open spec fn given_options(args: Seq<Seq<char>>) -> LsOptions {
    LsOptions {
        long_format: letter_given(args, true, 'l'),
        show_hidden: letter_given(args, true, 'a'),
        one_per_line: letter_given(args, true, '1'),
        human_sizes: letter_given(args, true, 'h'),
    }
}

proof fn lemma_known_letters(all: Seq<Seq<char>>)
    requires
        forall|c: char| #[trigger]
            letter_given(all, true, c) ==> c == 'l' || c == 'a' || c == '1' || c == 'h',
    ensures
        first_outside(letters(all, true, all.len() as int), ls_letters()) is None,
        ls_options(letters(all, true, all.len() as int)) == given_options(all),
{
    let given = letters(all, true, all.len() as int);
    law_letters(all, true, 'l');
    law_letters(all, true, 'a');
    law_letters(all, true, '1');
    law_letters(all, true, 'h');
    law_first_outside(given, ls_letters());
    let known = ls_letters();
    assert(known[0] == 'l' && known[1] == 'a' && known[2] == '1' && known[3] == 'h');
    match first_outside(given, ls_letters()) {
        Some(c) => {
            assert(given.contains(c));
            law_letters(all, true, c);
            assert(false);
        },
        None => {},
    }
}

/// Nothing is shown after the first path at which nothing was found, and up to
/// there every path is looked at.
pub proof fn law_paths_are_gone_through(paths: Seq<Seq<char>>, replies: Seq<LsReply>)
    requires
        replies_complete(paths, replies),
    ensures
        0 < replies.len() <= paths.len(),
        replies.len() < paths.len() ==> replies.last() is Failed,
        forall|i: int| 0 <= i < replies.len() - 1 ==> !((#[trigger] replies[i]) is Failed),
{
}

/// Keys are ordered like words: by the first byte in which they differ, and a
/// key that is the beginning of another comes first.
pub proof fn law_key_order(common: Seq<u8>, a: Seq<u8>, b: Seq<u8>)
    ensures
        a.len() == 0 ==> key_le(common + a, common + b),
        a.len() > 0 && b.len() == 0 ==> !key_le(common + a, common + b),
        a.len() > 0 && b.len() > 0 && a[0] < b[0] ==> key_le(common + a, common + b),
        a.len() > 0 && b.len() > 0 && a[0] > b[0] ==> !key_le(common + a, common + b),
    decreases common.len(),
{
    if common.len() == 0 {
        assert(common + a =~= a);
        assert(common + b =~= b);
    } else {
        law_key_order(common.skip(1), a, b);
        assert((common + a).skip(1) =~= common.skip(1) + a);
        assert((common + b).skip(1) =~= common.skip(1) + b);
    }
}

/// What the native file system says of an entry is what is shown of it; what it
/// does not say counts as a file of size zero.
pub proof fn law_native_entry(entry: NativeEntry)
    ensures
        native_view(entry).name == entry.name@,
        entry.metadata matches Some(m) ==> native_view(entry).is_dir == m.0 && native_view(
            entry,
        ).size == m.1,
        entry.metadata is None ==> !native_view(entry).is_dir && native_view(entry).size == 0,
{
}

/// What is shown for a path is what the native file system answers for its
/// absolute form: all entries of the listing, ordered by their keys and with
/// equal keys in the order in which they came, or the error.
pub proof fn law_ls_asks_the_native_file_system<
    D: Fn(&str) -> Result<Vec<NativeEntry>, String>,
>(
    working_dir: Seq<char>,
    read_dir: D,
    args: Seq<Seq<char>>,
    replies: Seq<LsReply>,
    out: CommandOutput,
    i: int,
)
    requires
        ls_native_result(working_dir, read_dir, args, replies, out),
        0 <= i < replies.len(),
    ensures
        replies.len() <= ls_paths(args).len(),
        !(replies[i] is Single),
        replies[i] matches LsReply::Listing(entries) ==> exists|
            p: &str,
            found: Vec<NativeEntry>,
            ordered: Seq<NativeEntry>,
        |
            {
                &&& p@ == absolute(working_dir, ls_paths(args)[i])
                &&& #[trigger] call_ensures(read_dir, (p,), Ok(found))
                &&& ordered.to_multiset() == found@.to_multiset()
                &&& ordered.len() == found@.len()
                &&& keys_ordered(ordered)
                &&& forall|key: Seq<u8>| #[trigger]
                    with_key(ordered, key) == with_key(found@, key)
                &&& entries == #[trigger] native_views(ordered)
            },
        replies[i] matches LsReply::Failed(reason) ==> exists|p: &str, e: String|
            {
                &&& p@ == absolute(working_dir, ls_paths(args)[i])
                &&& #[trigger] call_ensures(read_dir, (p,), Err(e))
                &&& reason == e@
            },
{
    let path = absolute(working_dir, ls_paths(args)[i]);
    assert(native_reply(read_dir, path, replies[i]));
    match replies[i] {
        LsReply::Listing(entries) => {
            let found = choose|found: Vec<NativeEntry>|
                {
                    &&& #[trigger] crate::shell::said(read_dir, path, Ok(found))
                    &&& entries == native_views(in_order(found@, found@.len() as int))
                };
            let p = choose|p: &str|
                p@ == path && #[trigger] call_ensures(read_dir, (p,), Ok(found));
            assert(call_ensures(read_dir, (p,), Ok(found)));
            let ordered = in_order(found@, found@.len() as int);
            lemma_in_order(found@, found@.len() as int);
            assert(found@.take(found@.len() as int) =~= found@);
            assert(entries == native_views(ordered));
        },
        LsReply::Failed(reason) => {
            let e = choose|e: String|
                {
                    &&& #[trigger] crate::shell::said(read_dir, path, Err(e))
                    &&& reason == e@
                };
            let p = choose|p: &str| p@ == path && #[trigger] call_ensures(read_dir, (p,), Err(e));
            assert(call_ensures(read_dir, (p,), Err(e)));
        },
        _ => {},
    }
}

} // verus!
