//! `touch`: create empty files or update timestamps.

use vstd::prelude::*;
use vstd::string::*;

#[allow(unused_imports)]
use crate::builtins::args::undashed;
use crate::builtins::args::undashed_args;
#[allow(unused_imports)]
use crate::builtins::output::{failure_lines, lemma_next_reason};
use crate::builtins::output::{add_failure_line, CommandOutput};
#[allow(unused_imports)]
use crate::builtins::turns::{in_turn, lemma_one_more};
use crate::error::IoError;
#[allow(unused_imports)]
use crate::shell::absolute;
use crate::shell::Shell;
#[allow(unused_imports)]
use crate::text::texts;
#[allow(unused_imports)]
use crate::vfs::{answers, can_ask, can_open, opens, write_mode};
use crate::vfs::{wasm_file_exists, wasm_open_file, VfsHook};

verus! {

/// `touch`: create empty files or update timestamps.
pub struct TouchBuiltin;

/// The files that are to exist.
pub open spec fn touch_files(args: Seq<Seq<char>>) -> Seq<Seq<char>> {
    undashed(args, args.len() as int)
}

/// Whether updating the timestamps of the file at `path` can leave `after`.
pub open spec fn updated<W, U: Fn(W, &str) -> W>(
    update: U,
    world: W,
    path: Seq<char>,
    after: W,
) -> bool {
    exists|p: &str| p@ == path && #[trigger] call_ensures(update, (world, p), after)
}

/// Whether touching the file at `path` can leave `after` and the reason why it
/// failed. Of a file that exists the timestamps are updated; another one is
/// opened for writing and closed again.
pub open spec fn touched<
    W,
    F,
    E: Fn(&W, &str) -> bool,
    O: Fn(W, &str, bool, bool, bool, bool) -> (W, Result<F, IoError>),
    C: Fn(W, F) -> W,
    U: Fn(W, &str) -> W,
>(
    exists_hook: VfsHook<E>,
    open_hook: VfsHook<O>,
    close: C,
    update: U,
    world: W,
    path: Seq<char>,
    after: W,
    reason: Option<Seq<char>>,
) -> bool {
    ||| {
        &&& answers(exists_hook, world, path, false, true)
        &&& updated(update, world, path, after)
        &&& reason is None
    }
    ||| {
        &&& answers(exists_hook, world, path, false, false)
        &&& exists|opened: W, result: Result<F, IoError>|
            {
                &&& #[trigger] opens(open_hook, world, path, write_mode(false), opened, result)
                &&& match result {
                    Ok(f) => call_ensures(close, (opened, f), after) && reason is None,
                    Err(e) => after == opened && reason == Some(e.message@),
                }
            }
    }
}

/// The step that touches one of the files.
pub open spec fn touching<
    W,
    F,
    E: Fn(&W, &str) -> bool,
    O: Fn(W, &str, bool, bool, bool, bool) -> (W, Result<F, IoError>),
    C: Fn(W, F) -> W,
    U: Fn(W, &str) -> W,
>(
    exists_hook: VfsHook<E>,
    open_hook: VfsHook<O>,
    close: C,
    update: U,
    working_dir: Seq<char>,
    files: Seq<Seq<char>>,
) -> spec_fn(int, W, W, Option<Seq<char>>) -> bool {
    |i: int, from: W, to: W, reason: Option<Seq<char>>|
        touched::<W, F, E, O, C, U>(
            exists_hook,
            open_hook,
            close,
            update,
            from,
            absolute(working_dir, files[i]),
            to,
            reason,
        )
}

/// Whether touching the files one after the other can lead through the worlds,
/// with these reasons for failures.
pub open spec fn touched_in_turn<
    W,
    F,
    E: Fn(&W, &str) -> bool,
    O: Fn(W, &str, bool, bool, bool, bool) -> (W, Result<F, IoError>),
    C: Fn(W, F) -> W,
    U: Fn(W, &str) -> W,
>(
    exists_hook: VfsHook<E>,
    open_hook: VfsHook<O>,
    close: C,
    update: U,
    working_dir: Seq<char>,
    files: Seq<Seq<char>>,
    worlds: Seq<W>,
    reasons: Seq<Option<Seq<char>>>,
) -> bool {
    &&& reasons.len() == files.len()
    &&& in_turn(
        touching::<W, F, E, O, C, U>(
            exists_hook,
            open_hook,
            close,
            update,
            working_dir,
            files,
        ),
        worlds,
        reasons,
    )
}

impl TouchBuiltin {
    /// What the help says of the command.
    pub fn get_content(name: &str) -> (r: String)
        ensures
            r@ == name@ + ": create empty files\n"@,
    {
        name.to_owned().concat(": create empty files\n")
    }

    /// Goes through the files one after the other: creates those that do not
    /// exist and updates the timestamps of the others. A file that cannot be
    /// created is reported and is no failure.
    pub fn execute<
        H,
        W,
        F,
        E: Fn(&W, &str) -> bool,
        O: Fn(W, &str, bool, bool, bool, bool) -> (W, Result<F, IoError>),
        C: Fn(W, F) -> W,
        U: Fn(W, &str) -> W,
    >(
        shell: &Shell<H>,
        exists_hook: &VfsHook<E>,
        open_hook: &VfsHook<O>,
        close: C,
        update: U,
        world: W,
        args: &Vec<String>,
    ) -> (r: (W, CommandOutput))
        requires
            can_ask::<W, bool, E>(*exists_hook),
            can_open::<W, F, O>(*open_hook),
            forall|w: W, f: F| #[trigger] call_requires(close, (w, f)),
            forall|w: W, p: &str| #[trigger] call_requires(update, (w, p)),
        ensures
            touch_files(texts(args@)).len() == 0 ==> {
                &&& r.0 == world
                &&& r.1.is(Seq::empty(), "touch: missing file operand\n"@, 1)
            },
            touch_files(texts(args@)).len() > 0 ==> exists|
                worlds: Seq<W>,
                reasons: Seq<Option<Seq<char>>>,
            |
                {
                    &&& #[trigger] touched_in_turn::<W, F, E, O, C, U>(
                        *exists_hook,
                        *open_hook,
                        close,
                        update,
                        shell.working_dir@,
                        touch_files(texts(args@)),
                        worlds,
                        reasons,
                    )
                    &&& worlds.first() == world
                    &&& worlds.last() == r.0
                    &&& r.1.is(
                        Seq::empty(),
                        failure_lines(
                            "touch: cannot touch '"@,
                            touch_files(texts(args@)),
                            reasons,
                            reasons.len() as int,
                        ),
                        0,
                    )
                },
    {
        let files = undashed_args(args);
        let ghost names = texts(files@);
        if files.is_empty() {
            return (
                world,
                CommandOutput::failed("touch: missing file operand\n".to_owned(), 1),
            );
        }
        let ghost mut worlds: Seq<W> = seq![world];
        let ghost mut reasons: Seq<Option<Seq<char>>> = Seq::empty();
        let mut current = world;
        let mut stderr = String::new();
        let mut i: usize = 0;
        let ghost prefix = "touch: cannot touch '"@;
        while i < files.len()
            invariant
                i <= files@.len(),
                names == texts(files@),
                can_ask::<W, bool, E>(*exists_hook),
                can_open::<W, F, O>(*open_hook),
                forall|w: W, f: F| #[trigger] call_requires(close, (w, f)),
                forall|w: W, p: &str| #[trigger] call_requires(update, (w, p)),
                prefix == "touch: cannot touch '"@,
                reasons.len() == i,
                worlds.first() == world,
                worlds.last() == current,
                in_turn(
                    touching::<W, F, E, O, C, U>(
                        *exists_hook,
                        *open_hook,
                        close,
                        update,
                        shell.working_dir@,
                        names,
                    ),
                    worlds,
                    reasons,
                ),
                stderr@ == failure_lines(prefix, names, reasons, i as int),
            decreases files@.len() - i,
        {
            let path = shell.absolute_path(files[i].as_str());
            assert(names[i as int] == files@[i as int]@);
            let ghost from = current;
            let ghost mut reason: Option<Seq<char>> = None;
            if wasm_file_exists(exists_hook, &current, path.as_str()) {
                current = update(current, path.as_str());
                assert(updated(update, from, path@, current));
            } else {
                let (next, result) = wasm_open_file(
                    open_hook,
                    current,
                    path.as_str(),
                    false,
                    true,
                    true,
                    false,
                );
                assert(opens(*open_hook, from, path@, write_mode(false), next, result));
                match result {
                    Ok(f) => {
                        current = close(next, f);
                    },
                    Err(e) => {
                        current = next;
                        add_failure_line(
                            &mut stderr,
                            "touch: cannot touch '",
                            files[i].as_str(),
                            e.message.as_str(),
                        );
                        proof {
                            reason = Some(e.message@);
                        }
                    },
                }
            }
            proof {
                assert(touched::<W, F, E, O, C, U>(
                    *exists_hook,
                    *open_hook,
                    close,
                    update,
                    from,
                    path@,
                    current,
                    reason,
                ));
                let step = touching::<W, F, E, O, C, U>(
                    *exists_hook,
                    *open_hook,
                    close,
                    update,
                    shell.working_dir@,
                    names,
                );
                lemma_one_more(step, worlds, reasons, current, reason);
                lemma_next_reason(prefix, names, reasons, reason);
                worlds = worlds.push(current);
                reasons = reasons.push(reason);
            }
            i = i + 1;
        }
        assert(touched_in_turn::<W, F, E, O, C, U>(
            *exists_hook,
            *open_hook,
            close,
            update,
            shell.working_dir@,
            names,
            worlds,
            reasons,
        ));
        (current, CommandOutput { stdout: String::new(), stderr, exit_code: 0 })
    }
}

} // verus!
