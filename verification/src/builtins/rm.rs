//! `rm`: remove files or directories.

use vstd::prelude::*;
use vstd::string::*;

use crate::builtins::args::arg_is_cluster;
#[allow(unused_imports)]
use crate::builtins::args::{
    first_outside, is_cluster, lemma_contains_push, lemma_unknown_letter, letters, operands,
};
use crate::builtins::args::operand_args;
use crate::builtins::output::{add_failure_line, CommandOutput};
#[allow(unused_imports)]
use crate::builtins::output::{any_reason, failure_lines, lemma_next_reason};
#[allow(unused_imports)]
use crate::builtins::turns::{in_turn, lemma_one_more};
#[allow(unused_imports)]
use crate::shell::absolute;
use crate::shell::Shell;
#[allow(unused_imports)]
use crate::text::texts;
use crate::text::to_chars;
#[allow(unused_imports)]
use crate::vfs::{can_remove, removes};
use crate::vfs::{wasm_remove, VfsHook};

verus! {

/// `rm`: remove files or directories.
pub struct RmBuiltin;

/// The letters that `rm` knows.
pub open spec fn rm_letters() -> Seq<char> {
    seq!['f', 'r', 'R']
}

/// The option letters that were given.
pub open spec fn rm_given(args: Seq<Seq<char>>) -> Seq<char> {
    letters(args, false, args.len() as int)
}

/// The files that are to be removed.
pub open spec fn rm_files(args: Seq<Seq<char>>) -> Seq<Seq<char>> {
    operands(args, false, args.len() as int)
}

/// What `rm` says without removing anything: an option is not known, or there
/// is nothing to remove.
pub open spec fn rm_refusal(args: Seq<Seq<char>>, out: CommandOutput) -> bool {
    match first_outside(rm_given(args), rm_letters()) {
        Some(c) => out.is(Seq::empty(), "rm: invalid option -- '"@.push(c) + "'\n"@, 1),
        None => if rm_given(args).contains('f') {
            out.is(Seq::empty(), Seq::empty(), 0)
        } else {
            out.is(Seq::empty(), "rm: missing operand\n"@, 1)
        },
    }
}

/// Whether something is to be removed at all.
pub open spec fn rm_has_work(args: Seq<Seq<char>>) -> bool {
    first_outside(rm_given(args), rm_letters()) is None && rm_files(args).len() > 0
}

/// What `rm` says when the files could not be removed for these reasons.
pub open spec fn rm_report(
    files: Seq<Seq<char>>,
    reasons: Seq<Option<Seq<char>>>,
    out: CommandOutput,
) -> bool {
    let n = files.len() as int;
    out.is(
        Seq::empty(),
        failure_lines("rm: cannot remove '"@, files, reasons, n),
        if any_reason(reasons, n) {
            1
        } else {
            0
        },
    )
}

/// The reason that is shown for a file of the virtual file system.
pub open spec fn vfs_reason(force: bool, removed: bool) -> Option<Seq<char>> {
    if removed || force {
        None
    } else {
        Some("No such file or directory"@)
    }
}

/// The step that removes one of the files.
pub open spec fn removal<W, R: Fn(W, &str) -> (W, bool)>(
    hook: VfsHook<R>,
    working_dir: Seq<char>,
    files: Seq<Seq<char>>,
) -> spec_fn(int, W, W, bool) -> bool {
    |i: int, from: W, to: W, removed: bool|
        removes(hook, from, absolute(working_dir, files[i]), to, removed)
}

/// Whether removing the files one after the other can lead through the worlds,
/// with these answers.
pub open spec fn removed_in_turn<W, R: Fn(W, &str) -> (W, bool)>(
    hook: VfsHook<R>,
    working_dir: Seq<char>,
    files: Seq<Seq<char>>,
    worlds: Seq<W>,
    removed: Seq<bool>,
) -> bool {
    &&& removed.len() == files.len()
    &&& in_turn(removal(hook, working_dir, files), worlds, removed)
}

/// The reasons that are shown.
pub open spec fn vfs_reasons(force: bool, removed: Seq<bool>) -> Seq<Option<Seq<char>>> {
    Seq::new(removed.len(), |i: int| vfs_reason(force, removed[i]))
}

/// Whether removing the file or directory at `path` can leave `after` and give
/// `result`: a directory is removed with all that is in it.
pub open spec fn native_removal<
    W,
    D: Fn(&W, &str) -> bool,
    A: Fn(W, &str) -> (W, Result<(), String>),
    B: Fn(W, &str) -> (W, Result<(), String>),
>(
    is_dir: D,
    remove_dir_all: A,
    remove_file: B,
    world: W,
    path: Seq<char>,
    after: W,
    result: Result<(), String>,
) -> bool {
    exists|p: &str, directory: bool|
        {
            &&& p@ == path
            &&& #[trigger] call_ensures(is_dir, (&world, p), directory)
            &&& if directory {
                call_ensures(remove_dir_all, (world, p), (after, result))
            } else {
                call_ensures(remove_file, (world, p), (after, result))
            }
        }
}

/// The step that removes one of the files.
pub open spec fn native_step<
    W,
    D: Fn(&W, &str) -> bool,
    A: Fn(W, &str) -> (W, Result<(), String>),
    B: Fn(W, &str) -> (W, Result<(), String>),
>(
    is_dir: D,
    remove_dir_all: A,
    remove_file: B,
    working_dir: Seq<char>,
    files: Seq<Seq<char>>,
) -> spec_fn(int, W, W, Result<(), String>) -> bool {
    |i: int, from: W, to: W, result: Result<(), String>|
        native_removal(
            is_dir,
            remove_dir_all,
            remove_file,
            from,
            absolute(working_dir, files[i]),
            to,
            result,
        )
}

/// Whether removing the files one after the other can lead through the worlds,
/// with these results.
pub open spec fn native_in_turn<
    W,
    D: Fn(&W, &str) -> bool,
    A: Fn(W, &str) -> (W, Result<(), String>),
    B: Fn(W, &str) -> (W, Result<(), String>),
>(
    is_dir: D,
    remove_dir_all: A,
    remove_file: B,
    working_dir: Seq<char>,
    files: Seq<Seq<char>>,
    worlds: Seq<W>,
    results: Seq<Result<(), String>>,
) -> bool {
    &&& results.len() == files.len()
    &&& in_turn(
        native_step(is_dir, remove_dir_all, remove_file, working_dir, files),
        worlds,
        results,
    )
}

/// The reason that is shown for a file of the native file system.
pub open spec fn native_reason(force: bool, result: Result<(), String>) -> Option<Seq<char>> {
    match result {
        Err(e) if !force => Some(e@),
        _ => None,
    }
}

/// The reasons that are shown.
pub open spec fn native_reasons(force: bool, results: Seq<Result<(), String>>) -> Seq<
    Option<Seq<char>>,
> {
    Seq::new(results.len(), |i: int| native_reason(force, results[i]))
}

/// Reads the arguments: whether missing files are no error, and the files. The
/// result is what `rm` says where there is nothing to remove.
pub fn rm_arguments(args: &Vec<String>) -> (r: Result<(bool, Vec<String>), CommandOutput>)
    ensures
        match r {
            Ok((force, files)) => {
                &&& rm_has_work(texts(args@))
                &&& force == rm_given(texts(args@)).contains('f')
                &&& texts(files@) == rm_files(texts(args@))
            },
            Err(out) => !rm_has_work(texts(args@)) && rm_refusal(texts(args@), out),
        },
{
    let ghost all = texts(args@);
    let mut force = false;
    let mut i: usize = 1;
    while i < args.len()
        invariant
            1 <= i,
            i <= args@.len() || i == 1,
            all == texts(args@),
            first_outside(letters(all, false, i as int), rm_letters()) is None,
            force == letters(all, false, i as int).contains('f'),
        decreases args@.len() - i,
    {
        let arg = args[i].as_str();
        assert(all[i as int] == arg@);
        if arg_is_cluster(arg, false) {
            let chars = to_chars(arg);
            let mut k: usize = 1;
            let ghost given = letters(all, false, i as int);
            assert(given + chars@.subrange(1, 1) =~= given);
            while k < chars.len()
                invariant
                    1 <= k <= chars@.len(),
                    1 <= i < args@.len(),
                    all == texts(args@),
                    chars@ == all[i as int],
                    is_cluster(all[i as int], false),
                    given == letters(all, false, i as int),
                    first_outside(given + chars@.subrange(1, k as int), rm_letters()) is None,
                    force == (given + chars@.subrange(1, k as int)).contains('f'),
                decreases chars@.len() - k,
            {
                let c = chars[k];
                let ghost so_far = given + chars@.subrange(1, k as int);
                proof {
                    assert(given + chars@.subrange(1, k + 1) =~= so_far.push(c));
                    assert(so_far.push(c).drop_last() =~= so_far);
                    lemma_contains_push(so_far, c);
                    assert(rm_letters()[0] == 'f' && rm_letters()[1] == 'r' && rm_letters()[2]
                        == 'R');
                }
                if c == 'f' {
                    force = true;
                } else if c != 'r' && c != 'R' {
                    proof {
                        lemma_unknown_letter(all, false, rm_letters(), i as int, k as int);
                    }
                    let mut message = "rm: invalid option -- '".to_owned();
                    message.push(c);
                    message.append("'\n");
                    return Err(CommandOutput::failed(message, 1));
                }
                k = k + 1;
            }
            assert(chars@.subrange(1, chars@.len() as int) =~= all[i as int].skip(1));
        }
        i = i + 1;
    }
    assert(args@.len() <= 1 ==> rm_given(all) =~= letters(all, false, 1));
    let files = operand_args(args);
    assert(texts(files@).len() == files@.len());
    if files.is_empty() {
        if force {
            return Err(CommandOutput::silent(0));
        }
        return Err(CommandOutput::failed("rm: missing operand\n".to_owned(), 1));
    }
    Ok((force, files))
}

impl RmBuiltin {
    /// What the help says of the command.
    pub fn get_content(name: &str) -> (r: String)
        ensures
            r@ == name@ + ": remove files or directories\n"@,
    {
        name.to_owned().concat(": remove files or directories\n")
    }

    /// Removes the files from the virtual file system, one after the other.
    pub fn execute<F, W, R: Fn(W, &str) -> (W, bool)>(
        shell: &Shell<F>,
        remove_hook: &VfsHook<R>,
        world: W,
        args: &Vec<String>,
    ) -> (r: (W, CommandOutput))
        requires
            can_remove::<W, R>(*remove_hook),
        ensures
            !rm_has_work(texts(args@)) ==> r.0 == world && rm_refusal(texts(args@), r.1),
            rm_has_work(texts(args@)) ==> exists|worlds: Seq<W>, removed: Seq<bool>|
                {
                    &&& #[trigger] removed_in_turn(
                        *remove_hook,
                        shell.working_dir@,
                        rm_files(texts(args@)),
                        worlds,
                        removed,
                    )
                    &&& worlds.first() == world
                    &&& worlds.last() == r.0
                    &&& rm_report(
                        rm_files(texts(args@)),
                        vfs_reasons(rm_given(texts(args@)).contains('f'), removed),
                        r.1,
                    )
                },
    {
        let (force, files) = match rm_arguments(args) {
            Ok(x) => x,
            Err(out) => {
                return (world, out);
            },
        };
        let ghost names = texts(files@);
        let ghost mut worlds: Seq<W> = seq![world];
        let ghost mut removed: Seq<bool> = Seq::empty();
        let mut current = world;
        let mut stderr = String::new();
        let mut exit_code: u8 = 0;
        let mut i: usize = 0;
        let ghost prefix = "rm: cannot remove '"@;
        while i < files.len()
            invariant
                i <= files@.len(),
                names == texts(files@),
                can_remove::<W, R>(*remove_hook),
                prefix == "rm: cannot remove '"@,
                removed.len() == i,
                worlds.first() == world,
                worlds.last() == current,
                in_turn(removal(*remove_hook, shell.working_dir@, names), worlds, removed),
                stderr@ == failure_lines(prefix, names, vfs_reasons(force, removed), i as int),
                exit_code == (if any_reason(vfs_reasons(force, removed), i as int) {
                    1u8
                } else {
                    0u8
                }),
            decreases files@.len() - i,
        {
            let path = shell.absolute_path(files[i].as_str());
            assert(names[i as int] == files@[i as int]@);
            let (next, done) = wasm_remove(remove_hook, current, path.as_str());
            let ghost before = vfs_reasons(force, removed);
            proof {
                let step = removal(*remove_hook, shell.working_dir@, names);
                lemma_one_more(step, worlds, removed, next, done);
                worlds = worlds.push(next);
                removed = removed.push(done);
                assert(vfs_reasons(force, removed) =~= before.push(vfs_reason(force, done)));
                lemma_next_reason(prefix, names, before, vfs_reason(force, done));
            }
            current = next;
            if !done && !force {
                add_failure_line(
                    &mut stderr,
                    "rm: cannot remove '",
                    files[i].as_str(),
                    "No such file or directory",
                );
                exit_code = 1;
            }
            i = i + 1;
        }
        assert(removed_in_turn(*remove_hook, shell.working_dir@, names, worlds, removed));
        (current, CommandOutput { stdout: String::new(), stderr, exit_code })
    }

    /// Removes the files from the native file system, one after the other.
    pub fn execute_native<
        F,
        W,
        D: Fn(&W, &str) -> bool,
        A: Fn(W, &str) -> (W, Result<(), String>),
        B: Fn(W, &str) -> (W, Result<(), String>),
    >(
        shell: &Shell<F>,
        is_dir: D,
        remove_dir_all: A,
        remove_file: B,
        world: W,
        args: &Vec<String>,
    ) -> (r: (W, CommandOutput))
        requires
            forall|w: W, p: &str| #[trigger] call_requires(is_dir, (&w, p)),
            forall|w: W, p: &str| #[trigger] call_requires(remove_dir_all, (w, p)),
            forall|w: W, p: &str| #[trigger] call_requires(remove_file, (w, p)),
        ensures
            !rm_has_work(texts(args@)) ==> r.0 == world && rm_refusal(texts(args@), r.1),
            rm_has_work(texts(args@)) ==> exists|
                worlds: Seq<W>,
                results: Seq<Result<(), String>>,
            |
                {
                    &&& #[trigger] native_in_turn(
                        is_dir,
                        remove_dir_all,
                        remove_file,
                        shell.working_dir@,
                        rm_files(texts(args@)),
                        worlds,
                        results,
                    )
                    &&& worlds.first() == world
                    &&& worlds.last() == r.0
                    &&& rm_report(
                        rm_files(texts(args@)),
                        native_reasons(rm_given(texts(args@)).contains('f'), results),
                        r.1,
                    )
                },
    {
        let (force, files) = match rm_arguments(args) {
            Ok(x) => x,
            Err(out) => {
                return (world, out);
            },
        };
        let ghost names = texts(files@);
        let ghost mut worlds: Seq<W> = seq![world];
        let ghost mut results: Seq<Result<(), String>> = Seq::empty();
        let mut current = world;
        let mut stderr = String::new();
        let mut exit_code: u8 = 0;
        let mut i: usize = 0;
        let ghost prefix = "rm: cannot remove '"@;
        while i < files.len()
            invariant
                i <= files@.len(),
                names == texts(files@),
                forall|w: W, p: &str| #[trigger] call_requires(is_dir, (&w, p)),
                forall|w: W, p: &str| #[trigger] call_requires(remove_dir_all, (w, p)),
                forall|w: W, p: &str| #[trigger] call_requires(remove_file, (w, p)),
                prefix == "rm: cannot remove '"@,
                results.len() == i,
                worlds.first() == world,
                worlds.last() == current,
                in_turn(
                    native_step(is_dir, remove_dir_all, remove_file, shell.working_dir@, names),
                    worlds,
                    results,
                ),
                stderr@ == failure_lines(prefix, names, native_reasons(force, results), i as int),
                exit_code == (if any_reason(native_reasons(force, results), i as int) {
                    1u8
                } else {
                    0u8
                }),
            decreases files@.len() - i,
        {
            let path = shell.absolute_path(files[i].as_str());
            assert(names[i as int] == files@[i as int]@);
            let ghost from = current;
            let place = path.as_str();
            let directory = is_dir(&current, place);
            let (next, result) = if directory {
                remove_dir_all(current, place)
            } else {
                remove_file(current, place)
            };
            let ghost before = native_reasons(force, results);
            proof {
                let reason = native_reason(force, result);
                assert(native_removal(
                    is_dir,
                    remove_dir_all,
                    remove_file,
                    from,
                    path@,
                    next,
                    result,
                ));
                let step = native_step(
                    is_dir,
                    remove_dir_all,
                    remove_file,
                    shell.working_dir@,
                    names,
                );
                lemma_one_more(step, worlds, results, next, result);
                worlds = worlds.push(next);
                results = results.push(result);
                assert(native_reasons(force, results) =~= before.push(reason));
                lemma_next_reason(prefix, names, before, reason);
            }
            current = next;
            if let Err(e) = result {
                if !force {
                    add_failure_line(
                        &mut stderr,
                        "rm: cannot remove '",
                        files[i].as_str(),
                        e.as_str(),
                    );
                    exit_code = 1;
                }
            }
            i = i + 1;
        }
        assert(native_in_turn(
            is_dir,
            remove_dir_all,
            remove_file,
            shell.working_dir@,
            names,
            worlds,
            results,
        ));
        (current, CommandOutput { stdout: String::new(), stderr, exit_code })
    }
}

} // verus!
