//! `mkdir`: create directories.

use vstd::prelude::*;
use vstd::string::*;

#[allow(unused_imports)]
use crate::builtins::args::{has_either, undashed};
use crate::builtins::args::{args_have_either, undashed_args};
#[allow(unused_imports)]
use crate::builtins::output::{any_reason, failure_lines, lemma_next_reason};
use crate::builtins::output::{add_failure_line, wrapped, CommandOutput};
#[allow(unused_imports)]
use crate::builtins::turns::{in_turn, lemma_one_more};
#[allow(unused_imports)]
use crate::shell::absolute;
use crate::shell::Shell;
#[allow(unused_imports)]
use crate::text::texts;
use crate::text::{begins_with, same_text};
#[allow(unused_imports)]
use crate::vfs::{can_make, makes};
use crate::vfs::{wasm_mkdir, VfsHook};

verus! {

/// `mkdir`: create directories.
pub struct MkdirBuiltin;

/// Whether the argument asks for something that `mkdir` does not know.
pub open spec fn mkdir_unknown(arg: Seq<char>) -> bool {
    arg.len() > 0 && arg[0] == '-' && arg != "-p"@ && arg != "--parents"@
}

/// The directories that are to be created.
pub open spec fn mkdir_dirs(args: Seq<Seq<char>>) -> Seq<Seq<char>> {
    undashed(args, args.len() as int)
}

/// Whether `i` is the index of the first argument that is not known.
pub open spec fn first_unknown(args: Seq<Seq<char>>, i: int) -> bool {
    &&& 1 <= i < args.len()
    &&& mkdir_unknown(args[i])
    &&& forall|k: int| 1 <= k < i ==> !mkdir_unknown(#[trigger] args[k])
}

/// Whether something is to be created at all.
pub open spec fn mkdir_has_work(args: Seq<Seq<char>>) -> bool {
    &&& forall|k: int| 1 <= k < args.len() ==> !mkdir_unknown(#[trigger] args[k])
    &&& mkdir_dirs(args).len() > 0
}

/// What `mkdir` says without creating anything: an option is not known, or
/// there is nothing to create.
pub open spec fn mkdir_refusal(args: Seq<Seq<char>>, out: CommandOutput) -> bool {
    if forall|k: int| 1 <= k < args.len() ==> !mkdir_unknown(#[trigger] args[k]) {
        out.is(Seq::empty(), "mkdir: missing operand\n"@, 1)
    } else {
        exists|i: int|
            {
                &&& #[trigger] first_unknown(args, i)
                &&& out.is(
                    Seq::empty(),
                    "mkdir: unrecognized option '"@ + args[i] + "'\n"@,
                    1,
                )
            }
    }
}

/// The step that creates one of the directories.
pub open spec fn making<W, M: Fn(W, &str) -> W>(
    hook: VfsHook<M>,
    working_dir: Seq<char>,
    dirs: Seq<Seq<char>>,
) -> spec_fn(int, W, W, ()) -> bool {
    |i: int, from: W, to: W, nothing: ()| makes(hook, from, absolute(working_dir, dirs[i]), to)
}

/// Whether creating the directories one after the other can lead through the
/// worlds. Creating a directory answers nothing.
pub open spec fn made_in_turn<W, M: Fn(W, &str) -> W>(
    hook: VfsHook<M>,
    working_dir: Seq<char>,
    dirs: Seq<Seq<char>>,
    worlds: Seq<W>,
) -> bool {
    in_turn(making(hook, working_dir, dirs), worlds, Seq::new(dirs.len(), |i: int| ()))
}

/// Whether creating the directory at `path` can leave `after` and give
/// `result`.
pub open spec fn native_making<W, C: Fn(W, &str, bool) -> (W, Result<(), String>)>(
    create_dir: C,
    world: W,
    path: Seq<char>,
    parents: bool,
    after: W,
    result: Result<(), String>,
) -> bool {
    exists|p: &str|
        p@ == path && #[trigger] call_ensures(create_dir, (world, p, parents), (after, result))
}

/// The step that creates one of the directories.
pub open spec fn native_step<W, C: Fn(W, &str, bool) -> (W, Result<(), String>)>(
    create_dir: C,
    parents: bool,
    working_dir: Seq<char>,
    dirs: Seq<Seq<char>>,
) -> spec_fn(int, W, W, Result<(), String>) -> bool {
    |i: int, from: W, to: W, result: Result<(), String>|
        native_making(create_dir, from, absolute(working_dir, dirs[i]), parents, to, result)
}

/// Whether creating the directories one after the other can lead through the
/// worlds, with these results.
pub open spec fn native_made_in_turn<W, C: Fn(W, &str, bool) -> (W, Result<(), String>)>(
    create_dir: C,
    parents: bool,
    working_dir: Seq<char>,
    dirs: Seq<Seq<char>>,
    worlds: Seq<W>,
    results: Seq<Result<(), String>>,
) -> bool {
    &&& results.len() == dirs.len()
    &&& in_turn(native_step(create_dir, parents, working_dir, dirs), worlds, results)
}

/// The reason in a result.
pub open spec fn reason_of(result: Result<(), String>) -> Option<Seq<char>> {
    match result {
        Ok(()) => None,
        Err(e) => Some(e@),
    }
}

/// The reasons in results.
pub open spec fn reasons_of(results: Seq<Result<(), String>>) -> Seq<Option<Seq<char>>> {
    Seq::new(results.len(), |i: int| reason_of(results[i]))
}

/// Reads the arguments: whether the directories above are created too, and the
/// directories. The result is what `mkdir` says where there is nothing to
/// create.
pub fn mkdir_arguments(args: &Vec<String>) -> (r: Result<(bool, Vec<String>), CommandOutput>)
    ensures
        match r {
            Ok((parents, dirs)) => {
                &&& mkdir_has_work(texts(args@))
                &&& parents == has_either(texts(args@), "-p"@, "--parents"@)
                &&& texts(dirs@) == mkdir_dirs(texts(args@))
            },
            Err(out) => !mkdir_has_work(texts(args@)) && mkdir_refusal(texts(args@), out),
        },
{
    let ghost all = texts(args@);
    let mut i: usize = 1;
    while i < args.len()
        invariant
            1 <= i,
            all == texts(args@),
            forall|k: int| 1 <= k < i && k < args@.len() ==> !mkdir_unknown(#[trigger] all[k]),
        decreases args@.len() - i,
    {
        let arg = args[i].as_str();
        assert(all[i as int] == arg@);
        if begins_with(arg, '-') && !same_text(arg, "-p") && !same_text(arg, "--parents") {
            assert(first_unknown(all, i as int));
            return Err(
                CommandOutput::failed(wrapped("mkdir: unrecognized option '", arg, "'\n"), 1),
            );
        }
        i = i + 1;
    }
    let dirs = undashed_args(args);
    assert(texts(dirs@).len() == dirs@.len());
    if dirs.is_empty() {
        return Err(CommandOutput::failed("mkdir: missing operand\n".to_owned(), 1));
    }
    Ok((args_have_either(args, "-p", "--parents"), dirs))
}

impl MkdirBuiltin {
    /// What the help says of the command.
    pub fn get_content(name: &str) -> (r: String)
        ensures
            r@ == name@ + ": create directories\n"@,
    {
        name.to_owned().concat(": create directories\n")
    }

    /// Creates the directories in the virtual file system, one after the other.
    pub fn execute<F, W, M: Fn(W, &str) -> W>(
        shell: &Shell<F>,
        mkdir_hook: &VfsHook<M>,
        world: W,
        args: &Vec<String>,
    ) -> (r: (W, CommandOutput))
        requires
            can_make::<W, M>(*mkdir_hook),
        ensures
            !mkdir_has_work(texts(args@)) ==> r.0 == world && mkdir_refusal(texts(args@), r.1),
            mkdir_has_work(texts(args@)) ==> {
                &&& r.1.is(Seq::empty(), Seq::empty(), 0)
                &&& exists|worlds: Seq<W>|
                    {
                        &&& #[trigger] made_in_turn(
                            *mkdir_hook,
                            shell.working_dir@,
                            mkdir_dirs(texts(args@)),
                            worlds,
                        )
                        &&& worlds.first() == world
                        &&& worlds.last() == r.0
                    }
            },
    {
        let (_, dirs) = match mkdir_arguments(args) {
            Ok(x) => x,
            Err(out) => {
                return (world, out);
            },
        };
        let ghost names = texts(dirs@);
        let ghost mut worlds: Seq<W> = seq![world];
        let ghost mut done: Seq<()> = Seq::empty();
        let mut current = world;
        let mut i: usize = 0;
        while i < dirs.len()
            invariant
                i <= dirs@.len(),
                names == texts(dirs@),
                can_make::<W, M>(*mkdir_hook),
                done.len() == i,
                worlds.first() == world,
                worlds.last() == current,
                in_turn(making(*mkdir_hook, shell.working_dir@, names), worlds, done),
            decreases dirs@.len() - i,
        {
            let path = shell.absolute_path(dirs[i].as_str());
            assert(names[i as int] == dirs@[i as int]@);
            let next = wasm_mkdir(mkdir_hook, current, path.as_str());
            proof {
                let step = making(*mkdir_hook, shell.working_dir@, names);
                lemma_one_more(step, worlds, done, next, ());
                worlds = worlds.push(next);
                done = done.push(());
            }
            current = next;
            i = i + 1;
        }
        assert(done =~= Seq::new(names.len(), |i: int| ()));
        assert(made_in_turn(*mkdir_hook, shell.working_dir@, names, worlds));
        (current, CommandOutput::silent(0))
    }

    /// Creates the directories in the native file system, one after the other.
    /// `create_dir` is told whether to create the directories above as well.
    pub fn execute_native<F, W, C: Fn(W, &str, bool) -> (W, Result<(), String>)>(
        shell: &Shell<F>,
        create_dir: C,
        world: W,
        args: &Vec<String>,
    ) -> (r: (W, CommandOutput))
        requires
            forall|w: W, p: &str, b: bool| #[trigger] call_requires(create_dir, (w, p, b)),
        ensures
            !mkdir_has_work(texts(args@)) ==> r.0 == world && mkdir_refusal(texts(args@), r.1),
            mkdir_has_work(texts(args@)) ==> exists|
                worlds: Seq<W>,
                results: Seq<Result<(), String>>,
            |
                {
                    &&& #[trigger] native_made_in_turn(
                        create_dir,
                        has_either(texts(args@), "-p"@, "--parents"@),
                        shell.working_dir@,
                        mkdir_dirs(texts(args@)),
                        worlds,
                        results,
                    )
                    &&& worlds.first() == world
                    &&& worlds.last() == r.0
                    &&& r.1.is(
                        Seq::empty(),
                        failure_lines(
                            "mkdir: cannot create directory '"@,
                            mkdir_dirs(texts(args@)),
                            reasons_of(results),
                            results.len() as int,
                        ),
                        if any_reason(reasons_of(results), results.len() as int) {
                            1
                        } else {
                            0
                        },
                    )
                },
    {
        let (parents, dirs) = match mkdir_arguments(args) {
            Ok(x) => x,
            Err(out) => {
                return (world, out);
            },
        };
        let ghost names = texts(dirs@);
        let ghost mut worlds: Seq<W> = seq![world];
        let ghost mut results: Seq<Result<(), String>> = Seq::empty();
        let mut current = world;
        let mut stderr = String::new();
        let mut exit_code: u8 = 0;
        let mut i: usize = 0;
        let ghost prefix = "mkdir: cannot create directory '"@;
        while i < dirs.len()
            invariant
                i <= dirs@.len(),
                names == texts(dirs@),
                forall|w: W, p: &str, b: bool| #[trigger] call_requires(create_dir, (w, p, b)),
                prefix == "mkdir: cannot create directory '"@,
                results.len() == i,
                worlds.first() == world,
                worlds.last() == current,
                in_turn(
                    native_step(create_dir, parents, shell.working_dir@, names),
                    worlds,
                    results,
                ),
                stderr@ == failure_lines(prefix, names, reasons_of(results), i as int),
                exit_code == (if any_reason(reasons_of(results), i as int) {
                    1u8
                } else {
                    0u8
                }),
            decreases dirs@.len() - i,
        {
            let path = shell.absolute_path(dirs[i].as_str());
            assert(names[i as int] == dirs@[i as int]@);
            let ghost from = current;
            let (next, result) = create_dir(current, path.as_str(), parents);
            proof {
                let before = reasons_of(results);
                assert(native_making(create_dir, from, path@, parents, next, result));
                let step = native_step(create_dir, parents, shell.working_dir@, names);
                lemma_one_more(step, worlds, results, next, result);
                worlds = worlds.push(next);
                results = results.push(result);
                assert(reasons_of(results) =~= before.push(reason_of(result)));
                lemma_next_reason(prefix, names, before, reason_of(result));
            }
            current = next;
            if let Err(e) = result {
                add_failure_line(
                    &mut stderr,
                    "mkdir: cannot create directory '",
                    dirs[i].as_str(),
                    e.as_str(),
                );
                exit_code = 1;
            }
            i = i + 1;
        }
        assert(native_made_in_turn(
            create_dir,
            parents,
            shell.working_dir@,
            names,
            worlds,
            results,
        ));
        (current, CommandOutput { stdout: String::new(), stderr, exit_code })
    }
}

} // verus!
