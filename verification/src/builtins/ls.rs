//! `ls`: list directory contents.

use vstd::prelude::*;
use vstd::string::*;

use crate::builtins::args::arg_is_cluster;
#[allow(unused_imports)]
use crate::builtins::args::{
    first_outside, is_cluster, lemma_contains_push, lemma_unknown_letter, letters, operands,
};
use crate::builtins::output::{wrapped, CommandOutput};
use crate::path::file_name_of;
#[allow(unused_imports)]
use crate::path::file_name;
use crate::shell::Shell;
#[allow(unused_imports)]
use crate::shell::{absolute, said};
use crate::size::human_readable_size;
#[allow(unused_imports)]
use crate::size::size_text;
use crate::text::{begins_with, decimal_text, pad_text_left, same_text, to_chars};
#[allow(unused_imports)]
use crate::text::{decimal, pad_left, texts};
#[allow(unused_imports)]
use crate::vfs::{answers, can_ask};
use crate::vfs::{wasm_list_dir, wasm_stat, VfsHook};
#[allow(unused_imports)]
use crate::wasm_vfs::{entry_view, entry_views, EntryView};
use crate::wasm_vfs::{VfsDirEntry, VfsStat};

verus! {

/// `ls`: list directory contents.
pub struct LsBuiltin;

/// How entries are shown.
#[derive(Clone, Copy, Debug)]
pub struct LsOptions {
    pub long_format: bool,
    pub show_hidden: bool,
    pub one_per_line: bool,
    pub human_sizes: bool,
}

/// The letters that `ls` knows.
pub open spec fn ls_letters() -> Seq<char> {
    seq!['l', 'a', '1', 'h']
}

/// The options that the letters stand for.
pub open spec fn ls_options(given: Seq<char>) -> LsOptions {
    LsOptions {
        long_format: given.contains('l'),
        show_hidden: given.contains('a'),
        one_per_line: given.contains('1'),
        human_sizes: given.contains('h'),
    }
}

/// The first `n` operands without those at their beginning that are the name of
/// the command.
pub open spec fn unnamed(ops: Seq<Seq<char>>, n: int) -> Seq<Seq<char>>
    decreases n,
{
    if n <= 0 {
        Seq::empty()
    } else if unnamed(ops, n - 1).len() == 0 && ops[n - 1] == "ls"@ {
        Seq::empty()
    } else {
        unnamed(ops, n - 1).push(ops[n - 1])
    }
}

/// The paths to list: the operands, or the current directory.
pub open spec fn ls_paths(args: Seq<Seq<char>>) -> Seq<Seq<char>> {
    let ops = operands(args, true, args.len() as int);
    let paths = unnamed(ops, ops.len() as int);
    if paths.len() == 0 {
        seq!["."@]
    } else {
        paths
    }
}

/// A size in the long format.
pub open spec fn size_field(o: LsOptions, size: u64) -> Seq<char> {
    if o.human_sizes {
        size_text(size as nat)
    } else {
        pad_left(decimal(size as nat), 8)
    }
}

/// A line of the long format.
pub open spec fn long_line(o: LsOptions, name: Seq<char>, size: u64, is_dir: bool) -> Seq<char> {
    seq![
        if is_dir {
            'd'
        } else {
            '-'
        },
    ] + "rw-r--r-- 1 user user "@ + size_field(o, size) + " "@ + name + "\n"@
}

/// How one entry of a directory is shown.
pub open spec fn entry_text(o: LsOptions, entry: EntryView) -> Seq<char> {
    if !o.show_hidden && entry.name.len() > 0 && entry.name[0] == '.' {
        Seq::empty()
    } else if o.long_format {
        long_line(o, entry.name, entry.size, entry.is_dir)
    } else if o.one_per_line {
        entry.name + "\n"@
    } else {
        entry.name + "  "@
    }
}

/// How the first `n` entries are shown.
pub open spec fn entries_text(o: LsOptions, entries: Seq<EntryView>, n: int) -> Seq<char>
    decreases n,
{
    if n <= 0 {
        Seq::empty()
    } else {
        entries_text(o, entries, n - 1) + entry_text(o, entries[n - 1])
    }
}

/// How a directory is shown.
pub open spec fn listing_text(o: LsOptions, entries: Seq<EntryView>) -> Seq<char> {
    let lines = entries_text(o, entries, entries.len() as int);
    if o.long_format || o.one_per_line {
        lines
    } else {
        lines + "\n"@
    }
}

/// The name by which a single file is shown.
pub open spec fn shown_name(path: Seq<char>) -> Seq<char> {
    match file_name(path) {
        Some(name) => name,
        None => path,
    }
}

/// How a single file is shown.
pub open spec fn single_text(o: LsOptions, path: Seq<char>, stat: VfsStat) -> Seq<char> {
    if o.long_format {
        long_line(o, shown_name(path), stat.0, stat.1)
    } else {
        shown_name(path) + "\n"@
    }
}

/// What was found at a path.
pub enum LsReply {
    /// A directory with these entries.
    Listing(Seq<EntryView>),
    /// A single file.
    Single(VfsStat),
    /// Nothing that can be shown, for this reason.
    Failed(Seq<char>),
}

/// What is written for one path: its name, where there are several paths, and
/// what was found.
pub open spec fn section(o: LsOptions, paths: Seq<Seq<char>>, i: int, reply: LsReply) -> Seq<char> {
    let header = if paths.len() > 1 {
        (if i > 0 {
            "\n"@
        } else {
            Seq::empty()
        }) + paths[i] + ":\n"@
    } else {
        Seq::empty()
    };
    header + match reply {
        LsReply::Listing(entries) => listing_text(o, entries),
        LsReply::Single(stat) => single_text(o, paths[i], stat),
        LsReply::Failed(_) => Seq::empty(),
    }
}

/// What is written for the first `n` paths.
pub open spec fn sections(o: LsOptions, paths: Seq<Seq<char>>, replies: Seq<LsReply>, n: int) -> Seq<
    char,
>
    decreases n,
{
    if n <= 0 {
        Seq::empty()
    } else {
        sections(o, paths, replies, n - 1) + section(o, paths, n - 1, replies[n - 1])
    }
}

/// The paths are gone through in order, up to the end or to the first one at
/// which nothing was found.
pub open spec fn replies_complete(paths: Seq<Seq<char>>, replies: Seq<LsReply>) -> bool {
    &&& 0 < replies.len() <= paths.len()
    &&& forall|i: int| 0 <= i < replies.len() - 1 ==> !((#[trigger] replies[i]) is Failed)
    &&& replies.len() == paths.len() || replies.last() is Failed
}

/// What `ls` leaves behind when this was found.
pub open spec fn ls_output(
    o: LsOptions,
    paths: Seq<Seq<char>>,
    replies: Seq<LsReply>,
    out: CommandOutput,
) -> bool {
    let written = sections(o, paths, replies, replies.len() as int);
    match replies.last() {
        LsReply::Failed(reason) => out.is(
            written,
            "ls: cannot access '"@ + paths[replies.len() - 1] + "': "@ + reason + "\n"@,
            2,
        ),
        _ => out.is(written, Seq::empty(), 0),
    }
}

/// Whether the reply can be what the virtual file system has at `path`.
pub open spec fn vfs_reply<
    W,
    L: Fn(&W, &str) -> Option<Vec<VfsDirEntry>>,
    S: Fn(&W, &str) -> Option<VfsStat>,
>(list_hook: VfsHook<L>, stat_hook: VfsHook<S>, world: W, path: Seq<char>, reply: LsReply) -> bool {
    match reply {
        LsReply::Listing(entries) => exists|list: Vec<VfsDirEntry>|
            {
                &&& #[trigger] answers(list_hook, world, path, None, Some(list))
                &&& entries == entry_views(list@)
            },
        LsReply::Single(stat) => {
            &&& answers(list_hook, world, path, None, None)
            &&& answers(stat_hook, world, path, None, Some(stat))
        },
        LsReply::Failed(reason) => {
            &&& answers(list_hook, world, path, None, None)
            &&& answers(stat_hook, world, path, None, None)
            &&& reason == "No such file or directory"@
        },
    }
}

/// An entry that the native file system gave.
pub struct NativeEntry {
    /// The bytes of the name, by which entries are ordered.
    pub key: Vec<u8>,
    pub name: String,
    /// Whether it is a directory, and its size, where that can be told.
    pub metadata: Option<(bool, u64)>,
}

/// The entry as a value. What cannot be told of it counts as a file of size
/// zero.
pub open spec fn native_view(entry: NativeEntry) -> EntryView {
    EntryView {
        name: entry.name@,
        size: match entry.metadata {
            Some((_, size)) => size,
            None => 0,
        },
        is_dir: match entry.metadata {
            Some((is_dir, _)) => is_dir,
            None => false,
        },
        modified: 0,
    }
}

/// The entries as values.
pub open spec fn native_views(entries: Seq<NativeEntry>) -> Seq<EntryView> {
    Seq::new(entries.len(), |i: int| native_view(entries[i]))
}

/// Whether key `a` comes before key `b` or is equal to it.
pub open spec fn key_le(a: Seq<u8>, b: Seq<u8>) -> bool
    decreases a.len(),
{
    if a.len() == 0 {
        true
    } else if b.len() == 0 {
        false
    } else if a[0] != b[0] {
        a[0] < b[0]
    } else {
        key_le(a.skip(1), b.skip(1))
    }
}

/// Whether the keys of entries `i` and `j` are in order.
pub open spec fn ordered_at(entries: Seq<NativeEntry>, i: int, j: int) -> bool {
    key_le(entries[i].key@, entries[j].key@)
}

/// Whether no key stands behind a smaller one.
pub open spec fn keys_ordered(entries: Seq<NativeEntry>) -> bool {
    forall|i: int, j: int| 0 <= i <= j < entries.len() ==> #[trigger] ordered_at(entries, i, j)
}

/// Where the entry belongs among ordered ones: behind all that are not greater.
pub open spec fn place(sorted: Seq<NativeEntry>, key: Seq<u8>, n: int) -> int
    decreases n,
{
    if n <= 0 {
        0
    } else if key_le(sorted[n - 1].key@, key) {
        n
    } else {
        place(sorted, key, n - 1)
    }
}

/// The first `n` entries in the order of their keys.
pub open spec fn in_order(entries: Seq<NativeEntry>, n: int) -> Seq<NativeEntry>
    decreases n,
{
    if n <= 0 {
        Seq::empty()
    } else {
        let front = in_order(entries, n - 1);
        front.insert(
            place(front, entries[n - 1].key@, front.len() as int),
            entries[n - 1],
        )
    }
}

/// Whether the reply can be what the native file system has at `path`.
pub open spec fn native_reply<D: Fn(&str) -> Result<Vec<NativeEntry>, String>>(
    read_dir: D,
    path: Seq<char>,
    reply: LsReply,
) -> bool {
    match reply {
        LsReply::Listing(entries) => exists|list: Vec<NativeEntry>|
            {
                &&& #[trigger] said(read_dir, path, Ok(list))
                &&& entries == native_views(in_order(list@, list@.len() as int))
            },
        LsReply::Single(_) => false,
        LsReply::Failed(reason) => exists|e: String|
            {
                &&& #[trigger] said(read_dir, path, Err(e))
                &&& reason == e@
            },
    }
}

proof fn lemma_key_le_total(a: Seq<u8>, b: Seq<u8>)
    ensures
        key_le(a, b) || key_le(b, a),
    decreases a.len(),
{
    if a.len() > 0 && b.len() > 0 && a[0] == b[0] {
        lemma_key_le_total(a.skip(1), b.skip(1));
    }
}

proof fn lemma_key_le_transitive(a: Seq<u8>, b: Seq<u8>, c: Seq<u8>)
    requires
        key_le(a, b),
        key_le(b, c),
    ensures
        key_le(a, c),
    decreases a.len(),
{
    if a.len() > 0 && b.len() > 0 && c.len() > 0 && a[0] == b[0] && b[0] == c[0] {
        lemma_key_le_transitive(a.skip(1), b.skip(1), c.skip(1));
    }
}

proof fn lemma_place(sorted: Seq<NativeEntry>, key: Seq<u8>, n: int)
    requires
        0 <= n <= sorted.len(),
    ensures
        0 <= place(sorted, key, n) <= n,
        place(sorted, key, n) > 0 ==> key_le(sorted[place(sorted, key, n) - 1].key@, key),
        forall|i: int|
            place(sorted, key, n) <= i < n ==> !key_le((#[trigger] sorted[i]).key@, key),
    decreases n,
{
    if n > 0 && !key_le(sorted[n - 1].key@, key) {
        lemma_place(sorted, key, n - 1);
    }
}

proof fn lemma_insert_keeps_order(front: Seq<NativeEntry>, entry: NativeEntry)
    requires
        keys_ordered(front),
    ensures
        keys_ordered(front.insert(place(front, entry.key@, front.len() as int), entry)),
{
    let p = place(front, entry.key@, front.len() as int);
    lemma_place(front, entry.key@, front.len() as int);
    let all = front.insert(p, entry);
    assert forall|i: int, j: int| 0 <= i <= j < all.len() implies #[trigger] ordered_at(
        all,
        i,
        j,
    ) by {
        if i == p && j == p {
            lemma_key_le_total(entry.key@, entry.key@);
        } else if i == p {
            assert(all[j] == front[j - 1]);
            lemma_key_le_total(entry.key@, front[j - 1].key@);
        } else if j == p {
            assert(all[i] == front[i]);
            assert(ordered_at(front, i, p - 1));
            lemma_key_le_transitive(front[i].key@, front[p - 1].key@, entry.key@);
        } else if j < p {
            assert(ordered_at(front, i, j));
        } else if i < p {
            assert(ordered_at(front, i, j - 1));
        } else {
            assert(ordered_at(front, i - 1, j - 1));
        }
    }
}

/// The entries with the given key, in their order.
pub open spec fn with_key(entries: Seq<NativeEntry>, key: Seq<u8>) -> Seq<NativeEntry> {
    entries.filter(|e: NativeEntry| e.key@ == key)
}

/// What is left of entries none of which has the key.
proof fn lemma_without_key(entries: Seq<NativeEntry>, key: Seq<u8>)
    requires
        forall|i: int| 0 <= i < entries.len() ==> (#[trigger] entries[i]).key@ != key,
    ensures
        with_key(entries, key) == Seq::<NativeEntry>::empty(),
    decreases entries.len(),
{
    reveal(Seq::filter);
    if entries.len() > 0 {
        lemma_without_key(entries.drop_last(), key);
    }
}

/// An entry that is put where it belongs comes behind those with its key.
proof fn lemma_insert_is_stable(front: Seq<NativeEntry>, entry: NativeEntry, key: Seq<u8>)
    ensures
        with_key(front.insert(place(front, entry.key@, front.len() as int), entry), key)
            == with_key(front.push(entry), key),
{
    let p = place(front, entry.key@, front.len() as int);
    lemma_place(front, entry.key@, front.len() as int);
    let pred = |e: NativeEntry| e.key@ == key;
    let low = front.take(p);
    let high = front.skip(p);
    assert(front =~= low + high);
    assert(front.insert(p, entry) =~= low + seq![entry] + high);
    assert(front.push(entry) =~= low + high + seq![entry]);
    Seq::filter_distributes_over_add(low + seq![entry], high, pred);
    Seq::filter_distributes_over_add(low, seq![entry], pred);
    Seq::filter_distributes_over_add(low + high, seq![entry], pred);
    Seq::filter_distributes_over_add(low, high, pred);
    if entry.key@ == key {
        assert forall|i: int| 0 <= i < high.len() implies (#[trigger] high[i]).key@ != key by {
            assert(high[i] == front[p + i]);
            lemma_key_le_total(key, key);
        }
        lemma_without_key(high, key);
        assert(low.filter(pred) + seq![entry].filter(pred) + Seq::<NativeEntry>::empty()
            =~= low.filter(pred) + Seq::<NativeEntry>::empty() + seq![entry].filter(pred));
    } else {
        lemma_without_key(seq![entry], key);
        assert(low.filter(pred) + Seq::<NativeEntry>::empty() + high.filter(pred)
            =~= low.filter(pred) + high.filter(pred) + Seq::<NativeEntry>::empty());
    }
}

/// Ordering entries keeps all of them, leaves no key behind a smaller one, and
/// keeps those with equal keys in the order in which they came.
pub proof fn lemma_in_order(entries: Seq<NativeEntry>, n: int)
    requires
        0 <= n <= entries.len(),
    ensures
        in_order(entries, n).len() == n,
        in_order(entries, n).to_multiset() == entries.take(n).to_multiset(),
        keys_ordered(in_order(entries, n)),
        forall|key: Seq<u8>| #[trigger]
            with_key(in_order(entries, n), key) == with_key(entries.take(n), key),
    decreases n,
{
    if n > 0 {
        lemma_in_order(entries, n - 1);
        let front = in_order(entries, n - 1);
        let entry = entries[n - 1];
        let p = place(front, entry.key@, front.len() as int);
        lemma_place(front, entry.key@, front.len() as int);
        lemma_insert_keeps_order(front, entry);
        front.insert_ensures(p, entry);
        vstd::seq_lib::to_multiset_insert(front, p, entry);
        assert(entries.take(n) =~= entries.take(n - 1).push(entry));
        entries.take(n - 1).to_multiset_ensures();
        assert forall|key: Seq<u8>| #[trigger]
            with_key(in_order(entries, n), key) == with_key(entries.take(n), key) by {
            let pred = |e: NativeEntry| e.key@ == key;
            lemma_insert_is_stable(front, entry, key);
            assert(with_key(front, key) == with_key(entries.take(n - 1), key));
            assert(front.push(entry) =~= front + seq![entry]);
            assert(entries.take(n) =~= entries.take(n - 1) + seq![entry]);
            Seq::filter_distributes_over_add(front, seq![entry], pred);
            Seq::filter_distributes_over_add(entries.take(n - 1), seq![entry], pred);
        }
    } else {
        assert(in_order(entries, n) =~= entries.take(n));
    }
}

proof fn lemma_unnamed_prefix(a: Seq<Seq<char>>, b: Seq<Seq<char>>, n: int)
    requires
        n <= a.len(),
        n <= b.len(),
        forall|i: int| 0 <= i < n ==> a[i] == b[i],
    ensures
        unnamed(a, n) == unnamed(b, n),
    decreases n,
{
    if n > 0 {
        lemma_unnamed_prefix(a, b, n - 1);
    }
}

/// Reads the arguments: the options and the paths or, where an option is not
/// known, its letter.
pub fn ls_arguments(args: &Vec<String>) -> (r: Result<(LsOptions, Vec<String>), char>)
    ensures
        ({
            let given = letters(texts(args@), true, args@.len() as int);
            match r {
                Ok((o, paths)) => {
                    &&& first_outside(given, ls_letters()) is None
                    &&& o == ls_options(given)
                    &&& texts(paths@) == ls_paths(texts(args@))
                },
                Err(c) => first_outside(given, ls_letters()) == Some(c),
            }
        }),
{
    let mut o = LsOptions {
        long_format: false,
        show_hidden: false,
        one_per_line: false,
        human_sizes: false,
    };
    let mut paths: Vec<String> = Vec::new();
    let ghost all = texts(args@);
    let mut i: usize = 1;
    assert(texts(paths@) =~= Seq::<Seq<char>>::empty());
    while i < args.len()
        invariant
            1 <= i,
            i <= args@.len() || i == 1,
            all == texts(args@),
            first_outside(letters(all, true, i as int), ls_letters()) is None,
            o == ls_options(letters(all, true, i as int)),
            texts(paths@) == unnamed(
                operands(all, true, i as int),
                operands(all, true, i as int).len() as int,
            ),
        decreases args@.len() - i,
    {
        let arg = args[i].as_str();
        assert(all[i as int] == arg@);
        let ghost ops = operands(all, true, i as int);
        if arg_is_cluster(arg, true) {
            let chars = to_chars(arg);
            let mut k: usize = 1;
            let ghost given = letters(all, true, i as int);
            assert(given + chars@.subrange(1, 1) =~= given);
            while k < chars.len()
                invariant
                    1 <= k <= chars@.len(),
                    1 <= i < args@.len(),
                    all == texts(args@),
                    chars@ == all[i as int],
                    is_cluster(all[i as int], true),
                    given == letters(all, true, i as int),
                    first_outside(given + chars@.subrange(1, k as int), ls_letters()) is None,
                    o == ls_options(given + chars@.subrange(1, k as int)),
                decreases chars@.len() - k,
            {
                let c = chars[k];
                let ghost so_far = given + chars@.subrange(1, k as int);
                proof {
                    assert(given + chars@.subrange(1, k + 1) =~= so_far.push(c));
                    assert(so_far.push(c).drop_last() =~= so_far);
                    lemma_contains_push(so_far, c);
                    assert(ls_letters()[0] == 'l' && ls_letters()[1] == 'a' && ls_letters()[2] == '1'
                        && ls_letters()[3] == 'h');
                }
                if c == 'l' {
                    o.long_format = true;
                } else if c == 'a' {
                    o.show_hidden = true;
                } else if c == '1' {
                    o.one_per_line = true;
                } else if c == 'h' {
                    o.human_sizes = true;
                } else {
                    proof {
                        lemma_unknown_letter(all, true, ls_letters(), i as int, k as int);
                    }
                    return Err(c);
                }
                k = k + 1;
            }
            assert(chars@.subrange(1, chars@.len() as int) =~= all[i as int].skip(1));
        } else {
            let ghost before = paths@;
            proof {
                lemma_unnamed_prefix(ops.push(arg@), ops, ops.len() as int);
            }
            if !same_text(arg, "ls") || !paths.is_empty() {
                paths.push(args[i].clone());
                assert(texts(paths@) =~= texts(before).push(arg@));
            } else {
                assert(texts(before).len() == 0);
                assert(texts(paths@) =~= Seq::<Seq<char>>::empty());
            }
        }
        i = i + 1;
    }
    proof {
        if args@.len() <= 1 {
            assert(letters(all, true, args@.len() as int) =~= letters(all, true, 1));
            assert(operands(all, true, args@.len() as int) =~= operands(all, true, 1));
        }
    }
    if paths.is_empty() {
        assert(texts(paths@).len() == 0);
        paths.push(".".to_owned());
        assert(texts(paths@) =~= seq!["."@]);
    }
    Ok((o, paths))
}

/// Writes a line of the long format.
fn long_line_text(o: &LsOptions, name: &str, size: u64, is_dir: bool) -> (r: String)
    ensures
        r@ == long_line(*o, name@, size, is_dir),
{
    let mut r = String::new();
    r.push(
        if is_dir {
            'd'
        } else {
            '-'
        },
    );
    r.append("rw-r--r-- 1 user user ");
    if o.human_sizes {
        r.append(human_readable_size(size).as_str());
    } else {
        r.append(pad_text_left(decimal_text(size).as_str(), 8).as_str());
    }
    r.append(" ");
    r.append(name);
    r.append("\n");
    assert(r@ =~= long_line(*o, name@, size, is_dir));
    r
}

/// Shows a directory.
pub fn render_listing(o: &LsOptions, entries: &Vec<VfsDirEntry>) -> (r: String)
    ensures
        r@ == listing_text(*o, entry_views(entries@)),
{
    let mut r = String::new();
    let ghost views = entry_views(entries@);
    let mut i: usize = 0;
    while i < entries.len()
        invariant
            i <= entries@.len(),
            views == entry_views(entries@),
            r@ == entries_text(*o, views, i as int),
        decreases entries@.len() - i,
    {
        let entry = &entries[i];
        let name = entry.0.as_str();
        assert(views[i as int] == entry_view(*entry));
        if !o.show_hidden && begins_with(name, '.') {
            assert(r@ + Seq::<char>::empty() =~= r@);
        } else if o.long_format {
            r.append(long_line_text(o, name, entry.1, entry.2).as_str());
        } else {
            let ghost before = r@;
            r.append(name);
            r.append(
                if o.one_per_line {
                    "\n"
                } else {
                    "  "
                },
            );
            assert(r@ =~= before + entry_text(*o, views[i as int]));
        }
        i = i + 1;
    }
    if !o.long_format && !o.one_per_line {
        r.append("\n");
    }
    r
}

/// Shows a single file.
pub fn render_single(o: &LsOptions, path: &str, stat: VfsStat) -> (r: String)
    ensures
        r@ == single_text(*o, path@, stat),
{
    let name = match file_name_of(path) {
        Some(name) => name,
        None => path.to_owned(),
    };
    if o.long_format {
        long_line_text(o, name.as_str(), stat.0, stat.1)
    } else {
        name.concat("\n")
    }
}

/// What was found at a path.
pub enum FoundAt {
    Listing(Vec<VfsDirEntry>),
    Single(VfsStat),
    Failed(String),
}

impl FoundAt {
    /// What was found, as a value.
    pub open spec fn view(self) -> LsReply {
        match self {
            FoundAt::Listing(entries) => LsReply::Listing(entry_views(entries@)),
            FoundAt::Single(stat) => LsReply::Single(stat),
            FoundAt::Failed(reason) => LsReply::Failed(reason@),
        }
    }
}

/// Writes what belongs to one path. Where nothing was found the result is the
/// message about it.
fn write_section(
    out: &mut String,
    o: &LsOptions,
    paths: &Vec<String>,
    i: usize,
    found: &FoundAt,
) -> (r: Option<String>)
    requires
        i < paths@.len(),
    ensures
        final(out)@ == old(out)@ + section(*o, texts(paths@), i as int, found@),
        match *found {
            FoundAt::Failed(reason) => r matches Some(m) && m@ == "ls: cannot access '"@
                + paths@[i as int]@ + "': "@ + reason@ + "\n"@,
            _ => r is None,
        },
{
    let ghost before = out@;
    let path = paths[i].as_str();
    assert(texts(paths@)[i as int] == path@);
    if paths.len() > 1 {
        if i > 0 {
            out.append("\n");
        }
        out.append(path);
        out.append(":\n");
    }
    match found {
        FoundAt::Listing(entries) => {
            out.append(render_listing(o, entries).as_str());
            assert(out@ =~= before + section(*o, texts(paths@), i as int, found@));
            None
        },
        FoundAt::Single(stat) => {
            out.append(render_single(o, path, *stat).as_str());
            assert(out@ =~= before + section(*o, texts(paths@), i as int, found@));
            None
        },
        FoundAt::Failed(reason) => {
            assert(out@ =~= before + section(*o, texts(paths@), i as int, found@));
            let mut m = wrapped("ls: cannot access '", path, "': ");
            m.append(reason.as_str());
            m.append("\n");
            Some(m)
        },
    }
}

/// The message about an option that is not known.
fn invalid_option(c: char) -> (r: String)
    ensures
        r@ == "ls: invalid option -- '"@.push(c) + "'\n"@,
{
    let mut r = "ls: invalid option -- '".to_owned();
    r.push(c);
    r.append("'\n");
    r
}

/// Where the key belongs among ordered entries.
fn find_place(sorted: &Vec<NativeEntry>, key: &Vec<u8>) -> (p: usize)
    ensures
        p == place(sorted@, key@, sorted@.len() as int),
        p <= sorted@.len(),
{
    let mut n: usize = sorted.len();
    while n > 0
        invariant
            n <= sorted@.len(),
            place(sorted@, key@, sorted@.len() as int) == place(sorted@, key@, n as int),
        decreases n,
    {
        if key_not_greater(&sorted[n - 1].key, key) {
            return n;
        }
        n = n - 1;
    }
    0
}

/// Whether the first key comes before the second or is equal to it.
fn key_not_greater(a: &Vec<u8>, b: &Vec<u8>) -> (r: bool)
    ensures
        r == key_le(a@, b@),
{
    let mut i: usize = 0;
    assert(a@.skip(0) =~= a@);
    assert(b@.skip(0) =~= b@);
    while i < a.len() && i < b.len()
        invariant
            i <= a@.len(),
            i <= b@.len(),
            key_le(a@, b@) == key_le(a@.skip(i as int), b@.skip(i as int)),
        decreases a@.len() - i,
    {
        if a[i] != b[i] {
            return a[i] < b[i];
        }
        assert(a@.skip(i as int).skip(1) =~= a@.skip(i + 1));
        assert(b@.skip(i as int).skip(1) =~= b@.skip(i + 1));
        i = i + 1;
    }
    i >= a.len()
}

/// Puts entries in the order of their keys.
pub fn sort_entries(entries: Vec<NativeEntry>) -> (r: Vec<NativeEntry>)
    ensures
        r@ == in_order(entries@, entries@.len() as int),
{
    let mut r: Vec<NativeEntry> = Vec::new();
    for entry in it: entries
        invariant
            it.seq() == entries@,
            r@ == in_order(entries@, it.index() as int),
    {
        let p: usize = find_place(&r, &entry.key);
        r.insert(p, entry);
    }
    r
}

/// The entries in the form in which they are shown.
fn shown_entries(entries: Vec<NativeEntry>) -> (r: Vec<VfsDirEntry>)
    ensures
        entry_views(r@) == native_views(entries@),
{
    let mut r: Vec<VfsDirEntry> = Vec::new();
    for entry in it: entries
        invariant
            it.seq() == entries@,
            entry_views(r@) =~= native_views(entries@.take(it.index() as int)),
    {
        let (is_dir, size) = match entry.metadata {
            Some(m) => m,
            None => (false, 0u64),
        };
        let ghost before = r@;
        let ghost i = it.index() as int;
        r.push((entry.name, size, is_dir, 0));
        assert(entry_views(r@) =~= entry_views(before).push(native_view(entry)));
        assert(entries@.take(i + 1) =~= entries@.take(i).push(entry));
        assert(native_views(entries@.take(i + 1)) =~= native_views(entries@.take(i)).push(
            native_view(entry),
        ));
    }
    assert(entries@.take(entries@.len() as int) =~= entries@);
    r
}

proof fn lemma_sections_prefix(
    o: LsOptions,
    paths: Seq<Seq<char>>,
    a: Seq<LsReply>,
    b: Seq<LsReply>,
    n: int,
)
    requires
        n <= a.len(),
        n <= b.len(),
        forall|i: int| 0 <= i < n ==> a[i] == b[i],
    ensures
        sections(o, paths, a, n) == sections(o, paths, b, n),
    decreases n,
{
    if n > 0 {
        lemma_sections_prefix(o, paths, a, b, n - 1);
    }
}

/// What `ls` says and does where the virtual file system has what the replies
/// say.
pub open spec fn ls_vfs_result<
    W,
    L: Fn(&W, &str) -> Option<Vec<VfsDirEntry>>,
    S: Fn(&W, &str) -> Option<VfsStat>,
>(
    working_dir: Seq<char>,
    list_hook: VfsHook<L>,
    stat_hook: VfsHook<S>,
    world: W,
    args: Seq<Seq<char>>,
    replies: Seq<LsReply>,
    out: CommandOutput,
) -> bool {
    let paths = ls_paths(args);
    &&& replies_complete(paths, replies)
    &&& forall|i: int|
        0 <= i < replies.len() ==> vfs_reply(
            list_hook,
            stat_hook,
            world,
            absolute(working_dir, paths[i]),
            #[trigger] replies[i],
        )
    &&& ls_output(ls_options(letters(args, true, args.len() as int)), paths, replies, out)
}

/// What `ls` says where the native file system has what the replies say.
pub open spec fn ls_native_result<D: Fn(&str) -> Result<Vec<NativeEntry>, String>>(
    working_dir: Seq<char>,
    read_dir: D,
    args: Seq<Seq<char>>,
    replies: Seq<LsReply>,
    out: CommandOutput,
) -> bool {
    let paths = ls_paths(args);
    &&& replies_complete(paths, replies)
    &&& forall|i: int|
        0 <= i < replies.len() ==> native_reply(
            read_dir,
            absolute(working_dir, paths[i]),
            #[trigger] replies[i],
        )
    &&& ls_output(ls_options(letters(args, true, args.len() as int)), paths, replies, out)
}

impl LsBuiltin {
    /// What the help says of the command.
    pub fn get_content(name: &str) -> (r: String)
        ensures
            r@ == name@ + ": list directory contents\n"@,
    {
        name.to_owned().concat(": list directory contents\n")
    }

    /// Lists what the virtual file system has at the given paths.
    pub fn execute<
        F,
        W,
        L: Fn(&W, &str) -> Option<Vec<VfsDirEntry>>,
        S: Fn(&W, &str) -> Option<VfsStat>,
    >(
        shell: &Shell<F>,
        list_hook: &VfsHook<L>,
        stat_hook: &VfsHook<S>,
        world: &W,
        args: &Vec<String>,
    ) -> (out: CommandOutput)
        requires
            can_ask::<W, Option<Vec<VfsDirEntry>>, L>(*list_hook),
            can_ask::<W, Option<VfsStat>, S>(*stat_hook),
        ensures
            match first_outside(letters(texts(args@), true, args@.len() as int), ls_letters()) {
                Some(c) => out.is(
                    Seq::empty(),
                    "ls: invalid option -- '"@.push(c) + "'\n"@,
                    2,
                ),
                None => exists|replies: Seq<LsReply>| #[trigger]
                    ls_vfs_result(
                        shell.working_dir@,
                        *list_hook,
                        *stat_hook,
                        *world,
                        texts(args@),
                        replies,
                        out,
                    ),
            },
    {
        let (o, paths) = match ls_arguments(args) {
            Ok(x) => x,
            Err(c) => {
                return CommandOutput::failed(invalid_option(c), 2);
            },
        };
        let ghost names = texts(paths@);
        let ghost mut replies: Seq<LsReply> = Seq::empty();
        let mut stdout = String::new();
        let mut i: usize = 0;
        while i < paths.len()
            invariant
                i <= paths@.len(),
                names == texts(paths@),
                names == ls_paths(texts(args@)),
                o == ls_options(letters(texts(args@), true, args@.len() as int)),
                first_outside(letters(texts(args@), true, args@.len() as int), ls_letters())
                    is None,
                replies.len() == i,
                can_ask::<W, Option<Vec<VfsDirEntry>>, L>(*list_hook),
                can_ask::<W, Option<VfsStat>, S>(*stat_hook),
                forall|k: int|
                    0 <= k < i ==> !((#[trigger] replies[k]) is Failed) && vfs_reply(
                        *list_hook,
                        *stat_hook,
                        *world,
                        absolute(shell.working_dir@, names[k]),
                        replies[k],
                    ),
                stdout@ == sections(o, names, replies, i as int),
            decreases paths@.len() - i,
        {
            let path = shell.absolute_path(paths[i].as_str());
            assert(names[i as int] == paths@[i as int]@);
            let found = match wasm_list_dir(list_hook, world, path.as_str()) {
                Some(entries) => {
                    assert(answers(*list_hook, *world, path@, None, Some(entries)));
                    FoundAt::Listing(entries)
                },
                None => match wasm_stat(stat_hook, world, path.as_str()) {
                    Some(stat) => FoundAt::Single(stat),
                    None => FoundAt::Failed("No such file or directory".to_owned()),
                },
            };
            let ghost old_replies = replies;
            proof {
                replies = replies.push(found@);
                lemma_sections_prefix(o, names, old_replies, replies, i as int);
                assert(forall|k: int| 0 <= k < i ==> replies[k] == old_replies[k]);
                assert(vfs_reply(
                    *list_hook,
                    *stat_hook,
                    *world,
                    absolute(shell.working_dir@, names[i as int]),
                    replies[i as int],
                ));
            }
            if let Some(message) = write_section(&mut stdout, &o, &paths, i, &found) {
                let out = CommandOutput { stdout, stderr: message, exit_code: 2 };
                assert(ls_vfs_result(
                    shell.working_dir@,
                    *list_hook,
                    *stat_hook,
                    *world,
                    texts(args@),
                    replies,
                    out,
                ));
                return out;
            }
            i = i + 1;
        }
        let out = CommandOutput { stdout, stderr: String::new(), exit_code: 0 };
        assert(names.len() > 0);
        assert(!(replies[replies.len() - 1] is Failed));
        assert(ls_vfs_result(
            shell.working_dir@,
            *list_hook,
            *stat_hook,
            *world,
            texts(args@),
            replies,
            out,
        ));
        out
    }

    /// Lists what the native file system has at the given paths, in the order
    /// of the names.
    pub fn execute_native<F, D: Fn(&str) -> Result<Vec<NativeEntry>, String>>(
        shell: &Shell<F>,
        read_dir: D,
        args: &Vec<String>,
    ) -> (out: CommandOutput)
        requires
            forall|p: &str| #[trigger] call_requires(read_dir, (p,)),
        ensures
            match first_outside(letters(texts(args@), true, args@.len() as int), ls_letters()) {
                Some(c) => out.is(
                    Seq::empty(),
                    "ls: invalid option -- '"@.push(c) + "'\n"@,
                    2,
                ),
                None => exists|replies: Seq<LsReply>| #[trigger]
                    ls_native_result(shell.working_dir@, read_dir, texts(args@), replies, out),
            },
    {
        let (o, paths) = match ls_arguments(args) {
            Ok(x) => x,
            Err(c) => {
                return CommandOutput::failed(invalid_option(c), 2);
            },
        };
        let ghost names = texts(paths@);
        let ghost mut replies: Seq<LsReply> = Seq::empty();
        let mut stdout = String::new();
        let mut i: usize = 0;
        while i < paths.len()
            invariant
                i <= paths@.len(),
                names == texts(paths@),
                names == ls_paths(texts(args@)),
                o == ls_options(letters(texts(args@), true, args@.len() as int)),
                first_outside(letters(texts(args@), true, args@.len() as int), ls_letters())
                    is None,
                replies.len() == i,
                forall|p: &str| #[trigger] call_requires(read_dir, (p,)),
                forall|k: int|
                    0 <= k < i ==> !((#[trigger] replies[k]) is Failed) && native_reply(
                        read_dir,
                        absolute(shell.working_dir@, names[k]),
                        replies[k],
                    ),
                stdout@ == sections(o, names, replies, i as int),
            decreases paths@.len() - i,
        {
            let path = shell.absolute_path(paths[i].as_str());
            assert(names[i as int] == paths@[i as int]@);
            let answer = read_dir(path.as_str());
            assert(said(read_dir, path@, answer));
            let found = match answer {
                Ok(entries) => FoundAt::Listing(shown_entries(sort_entries(entries))),
                Err(e) => FoundAt::Failed(e),
            };
            let ghost old_replies = replies;
            proof {
                replies = replies.push(found@);
                lemma_sections_prefix(o, names, old_replies, replies, i as int);
                assert(forall|k: int| 0 <= k < i ==> replies[k] == old_replies[k]);
                assert(native_reply(
                    read_dir,
                    absolute(shell.working_dir@, names[i as int]),
                    replies[i as int],
                ));
            }
            if let Some(message) = write_section(&mut stdout, &o, &paths, i, &found) {
                let out = CommandOutput { stdout, stderr: message, exit_code: 2 };
                assert(ls_native_result(shell.working_dir@, read_dir, texts(args@), replies, out));
                return out;
            }
            i = i + 1;
        }
        let out = CommandOutput { stdout, stderr: String::new(), exit_code: 0 };
        assert(names.len() > 0);
        assert(!(replies[replies.len() - 1] is Failed));
        assert(ls_native_result(shell.working_dir@, read_dir, texts(args@), replies, out));
        out
    }
}

} // verus!
