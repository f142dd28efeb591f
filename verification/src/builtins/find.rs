//! `find` and `grep`: what the shell adds to the search engines.

use vstd::prelude::*;
use vstd::string::*;

#[allow(unused_imports)]
use crate::builtins::output::utility_ran;
use crate::builtins::output::{exit_status, run_utility, wrapped};
#[allow(unused_imports)]
use crate::shell::absolute;
use crate::shell::Shell;
#[allow(unused_imports)]
use crate::vfs::{answers, can_ask};
use crate::vfs::{wasm_list_dir, VfsHook};
use crate::wasm_vfs::VfsDirEntry;
#[allow(unused_imports)]
use crate::wasm_vfs::{entry_view, entry_views, EntryView};

verus! {

/// `find`: search for files in a directory hierarchy.
pub struct FindBuiltin;

/// `grep`: search for patterns.
pub struct GrepBuiltin;

/// An entry of a directory that `find` goes through.
pub struct VfsEntry {
    pub name: String,
    pub is_dir: bool,
    pub size: u64,
    pub modified_ms: u64,
}

/// The entry as a value.
pub open spec fn found_view(entry: VfsEntry) -> EntryView {
    EntryView {
        name: entry.name@,
        size: entry.size,
        is_dir: entry.is_dir,
        modified: entry.modified_ms,
    }
}

/// The entries as values.
pub open spec fn found_views(entries: Seq<VfsEntry>) -> Seq<EntryView> {
    Seq::new(entries.len(), |i: int| found_view(entries[i]))
}

/// Whether one run of the engine can make `written` of the standard output and
/// report `status`.
pub open spec fn search_ran<
    F,
    W,
    S,
    L: Fn(&W, &str) -> Option<Vec<VfsDirEntry>>,
    U: Fn(&Shell<F>, &VfsHook<L>, &W, S, &Vec<String>) -> (S, i32),
>(
    engine: U,
    shell: Shell<F>,
    list_hook: VfsHook<L>,
    world: W,
    output: S,
    args: Vec<String>,
    written: S,
    status: u8,
) -> bool {
    exists|code: i32|
        {
            &&& #[trigger] call_ensures(
                engine,
                (&shell, &list_hook, &world, output, &args),
                (written, code),
            )
            &&& status == code as int % 256
        }
}

impl GrepBuiltin {
    /// What the help says of the command.
    pub fn get_content(name: &str) -> (r: String)
        ensures
            r@ == name@ + ": grep (POSIX-compatible, ripgrep engine)\n"@,
    {
        name.to_owned().concat(": grep (POSIX-compatible, ripgrep engine)\n")
    }

    /// Runs the engine on the arguments. `world` holds the standard streams.
    pub fn execute<W, U: Fn(W, &Vec<String>) -> (W, i32)>(
        engine: U,
        world: W,
        args: &Vec<String>,
    ) -> (r: (W, u8))
        requires
            forall|w: W, a: Vec<String>| #[trigger] call_requires(engine, (w, &a)),
        ensures
            utility_ran(engine, world, *args, r.0, r.1),
    {
        run_utility(engine, world, args)
    }
}

impl FindBuiltin {
    /// What the help says of the command.
    pub fn get_content(name: &str) -> (r: String)
        ensures
            r@ == name@ + ": search for files in a directory hierarchy\n"@,
    {
        name.to_owned().concat(": search for files in a directory hierarchy\n")
    }

    /// Runs the engine on the arguments, in a virtual file system. The engine
    /// is handed what `list_directory` lists directories with, and the standard
    /// output, which it gives back with what it wrote.
    pub fn execute<
        F,
        W,
        S,
        L: Fn(&W, &str) -> Option<Vec<VfsDirEntry>>,
        U: Fn(&Shell<F>, &VfsHook<L>, &W, S, &Vec<String>) -> (S, i32),
    >(
        shell: &Shell<F>,
        list_hook: &VfsHook<L>,
        engine: U,
        world: &W,
        output: S,
        args: &Vec<String>,
    ) -> (r: (S, u8))
        requires
            forall|s: Shell<F>, h: VfsHook<L>, w: W, o: S, a: Vec<String>| #[trigger]
                call_requires(engine, (&s, &h, &w, o, &a)),
        ensures
            search_ran(engine, *shell, *list_hook, *world, output, *args, r.0, r.1),
    {
        let (written, code) = engine(shell, list_hook, world, output, args);
        assert(call_ensures(engine, (shell, list_hook, world, output, args), (written, code)));
        let status = exit_status(code);
        assert(search_ran(engine, *shell, *list_hook, *world, output, *args, written, status));
        (written, status)
    }

    /// Runs the engine on the arguments, in the native file system. `world`
    /// holds the standard output with it.
    pub fn execute_native<W, U: Fn(W, &Vec<String>) -> (W, i32)>(
        engine: U,
        world: W,
        args: &Vec<String>,
    ) -> (r: (W, u8))
        requires
            forall|w: W, a: Vec<String>| #[trigger] call_requires(engine, (w, &a)),
        ensures
            utility_ran(engine, world, *args, r.0, r.1),
    {
        run_utility(engine, world, args)
    }

    /// The entries of a directory that `find` goes through, or the message that
    /// there is none.
    pub fn list_directory<F, W, L: Fn(&W, &str) -> Option<Vec<VfsDirEntry>>>(
        shell: &Shell<F>,
        list_hook: &VfsHook<L>,
        world: &W,
        path: &str,
    ) -> (r: Result<Vec<VfsEntry>, String>)
        requires
            can_ask::<W, Option<Vec<VfsDirEntry>>, L>(*list_hook),
        ensures
            exists|listing: Option<Vec<VfsDirEntry>>|
                {
                    &&& #[trigger] answers(
                        *list_hook,
                        *world,
                        absolute(shell.working_dir@, path@),
                        None,
                        listing,
                    )
                    &&& match (r, listing) {
                        (Ok(entries), Some(list)) => found_views(entries@) == entry_views(list@),
                        (Err(message), None) => message@ == "cannot access '"@ + path@
                            + "': No such file or directory"@,
                        _ => false,
                    }
                },
    {
        let abs_path = shell.absolute_path(path);
        let listing = wasm_list_dir(list_hook, world, abs_path.as_str());
        assert(answers(
            *list_hook,
            *world,
            absolute(shell.working_dir@, path@),
            None,
            listing,
        ));
        match listing {
            Some(list) => {
                let mut entries: Vec<VfsEntry> = Vec::new();
                for entry in it: list
                    invariant
                        it.seq() == list@,
                        found_views(entries@) =~= entry_views(list@.take(it.index() as int)),
                {
                    let ghost i = it.index() as int;
                    let ghost before = entries@;
                    let (name, size, is_dir, modified_ms) = entry;
                    entries.push(VfsEntry { name, is_dir, size, modified_ms });
                    assert(list@.take(i + 1) =~= list@.take(i).push(list@[i]));
                    assert(entry_views(list@.take(i + 1)) =~= entry_views(list@.take(i)).push(
                        entry_view(list@[i]),
                    ));
                    assert(found_views(entries@) =~= found_views(before).push(
                        entry_view(list@[i]),
                    ));
                }
                assert(list@.take(list@.len() as int) =~= list@);
                Ok(entries)
            },
            None => Err(wrapped("cannot access '", path, "': No such file or directory")),
        }
    }
}

} // verus!
