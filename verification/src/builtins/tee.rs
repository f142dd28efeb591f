//! `tee`: read from standard input, write to standard output and files.

use vstd::prelude::*;
use vstd::string::*;

#[allow(unused_imports)]
use crate::builtins::args::{has_either, operands};
use crate::builtins::args::{args_have_either, operand_args};
use crate::builtins::output::add_failure_line;
#[allow(unused_imports)]
use crate::builtins::output::{failure_lines, lemma_next_reason};
#[allow(unused_imports)]
use crate::builtins::turns::{in_turn, lemma_one_more};
use crate::error::IoError;
#[allow(unused_imports)]
use crate::shell::absolute;
use crate::shell::Shell;
#[allow(unused_imports)]
use crate::text::texts;
#[allow(unused_imports)]
use crate::vfs::{can_open, opens, write_mode};
use crate::vfs::{wasm_open_file, VfsHook};

verus! {

/// `tee`: read standard input and write to standard output and files.
pub struct TeeBuiltin;

/// What `tee` leaves behind. Its standard output need not be text.
pub struct TeeOutput {
    pub stdout: Vec<u8>,
    pub stderr: String,
    pub exit_code: u8,
}

/// The files that are written.
pub open spec fn tee_files(args: Seq<Seq<char>>) -> Seq<Seq<char>> {
    operands(args, false, args.len() as int)
}

/// Whether the files are written at their ends.
pub open spec fn tee_appends(args: Seq<Seq<char>>) -> bool {
    has_either(args, "-a"@, "--append"@)
}

/// Whether writing the input to the file at `path` can leave `after` and the
/// reason why the file could not be opened. Whether all of the input could be
/// written does not count.
pub open spec fn copied_to<
    W,
    F,
    O: Fn(W, &str, bool, bool, bool, bool) -> (W, Result<F, IoError>),
    P: Fn(W, F, &Vec<u8>) -> (W, Result<(), IoError>),
>(
    open_hook: VfsHook<O>,
    write_all: P,
    append: bool,
    input: Vec<u8>,
    world: W,
    path: Seq<char>,
    after: W,
    reason: Option<Seq<char>>,
) -> bool {
    exists|opened: W, result: Result<F, IoError>|
        {
            &&& #[trigger] opens(open_hook, world, path, write_mode(append), opened, result)
            &&& match result {
                Ok(file) => {
                    &&& reason is None
                    &&& exists|written: Result<(), IoError>| #[trigger]
                        call_ensures(write_all, (opened, file, &input), (after, written))
                },
                Err(e) => after == opened && reason == Some(e.message@),
            }
        }
}

/// The step that writes one of the files.
pub open spec fn copying<
    W,
    F,
    O: Fn(W, &str, bool, bool, bool, bool) -> (W, Result<F, IoError>),
    P: Fn(W, F, &Vec<u8>) -> (W, Result<(), IoError>),
>(
    open_hook: VfsHook<O>,
    write_all: P,
    append: bool,
    input: Vec<u8>,
    working_dir: Seq<char>,
    files: Seq<Seq<char>>,
) -> spec_fn(int, W, W, Option<Seq<char>>) -> bool {
    |i: int, from: W, to: W, reason: Option<Seq<char>>|
        copied_to::<W, F, O, P>(
            open_hook,
            write_all,
            append,
            input,
            from,
            absolute(working_dir, files[i]),
            to,
            reason,
        )
}

/// Whether writing the files one after the other can lead through the worlds,
/// with these reasons for failures.
pub open spec fn copied_in_turn<
    W,
    F,
    O: Fn(W, &str, bool, bool, bool, bool) -> (W, Result<F, IoError>),
    P: Fn(W, F, &Vec<u8>) -> (W, Result<(), IoError>),
>(
    open_hook: VfsHook<O>,
    write_all: P,
    append: bool,
    input: Vec<u8>,
    working_dir: Seq<char>,
    files: Seq<Seq<char>>,
    worlds: Seq<W>,
    reasons: Seq<Option<Seq<char>>>,
) -> bool {
    &&& reasons.len() == files.len()
    &&& in_turn(
        copying::<W, F, O, P>(open_hook, write_all, append, input, working_dir, files),
        worlds,
        reasons,
    )
}

impl TeeBuiltin {
    /// What the help says of the command.
    pub fn get_content(name: &str) -> (r: String)
        ensures
            r@ == name@ + ": read from stdin, write to stdout and files\n"@,
    {
        name.to_owned().concat(": read from stdin, write to stdout and files\n")
    }

    /// Writes the input to standard output and to every file, one after the
    /// other. A file that cannot be opened is reported and is no failure.
    pub fn execute<
        H,
        W,
        F,
        O: Fn(W, &str, bool, bool, bool, bool) -> (W, Result<F, IoError>),
        P: Fn(W, F, &Vec<u8>) -> (W, Result<(), IoError>),
    >(
        shell: &Shell<H>,
        open_hook: &VfsHook<O>,
        write_all: P,
        world: W,
        args: &Vec<String>,
        input: Vec<u8>,
    ) -> (r: (W, TeeOutput))
        requires
            can_open::<W, F, O>(*open_hook),
            forall|w: W, f: F, b: Vec<u8>| #[trigger] call_requires(write_all, (w, f, &b)),
        ensures
            r.1.stdout@ == input@,
            r.1.exit_code == 0,
            exists|worlds: Seq<W>, reasons: Seq<Option<Seq<char>>>|
                {
                    &&& #[trigger] copied_in_turn::<W, F, O, P>(
                        *open_hook,
                        write_all,
                        tee_appends(texts(args@)),
                        input,
                        shell.working_dir@,
                        tee_files(texts(args@)),
                        worlds,
                        reasons,
                    )
                    &&& worlds.first() == world
                    &&& worlds.last() == r.0
                    &&& r.1.stderr@ == failure_lines(
                        "tee: '"@,
                        tee_files(texts(args@)),
                        reasons,
                        reasons.len() as int,
                    )
                },
    {
        let append = args_have_either(args, "-a", "--append");
        let files = operand_args(args);
        let ghost names = texts(files@);
        let ghost mut worlds: Seq<W> = seq![world];
        let ghost mut reasons: Seq<Option<Seq<char>>> = Seq::empty();
        let mut current = world;
        let mut stderr = String::new();
        let mut i: usize = 0;
        let ghost prefix = "tee: '"@;
        while i < files.len()
            invariant
                i <= files@.len(),
                names == texts(files@),
                can_open::<W, F, O>(*open_hook),
                forall|w: W, f: F, b: Vec<u8>| #[trigger] call_requires(write_all, (w, f, &b)),
                prefix == "tee: '"@,
                reasons.len() == i,
                worlds.first() == world,
                worlds.last() == current,
                in_turn(
                    copying::<W, F, O, P>(
                        *open_hook,
                        write_all,
                        append,
                        input,
                        shell.working_dir@,
                        names,
                    ),
                    worlds,
                    reasons,
                ),
                stderr@ == failure_lines(prefix, names, reasons, i as int),
            decreases files@.len() - i,
        {
            let path = shell.absolute_path(files[i].as_str());
            assert(names[i as int] == files@[i as int]@);
            let ghost from = current;
            let ghost mut reason: Option<Seq<char>> = None;
            let (opened, result) = wasm_open_file(
                open_hook,
                current,
                path.as_str(),
                false,
                true,
                true,
                append,
            );
            assert(opens(*open_hook, from, path@, write_mode(append), opened, result));
            match result {
                Ok(file) => {
                    let (next, written) = write_all(opened, file, &input);
                    assert(call_ensures(write_all, (opened, file, &input), (next, written)));
                    current = next;
                },
                Err(e) => {
                    add_failure_line(
                        &mut stderr,
                        "tee: '",
                        files[i].as_str(),
                        e.message.as_str(),
                    );
                    current = opened;
                    proof {
                        reason = Some(e.message@);
                    }
                },
            }
            proof {
                assert(copied_to::<W, F, O, P>(
                    *open_hook,
                    write_all,
                    append,
                    input,
                    from,
                    path@,
                    current,
                    reason,
                ));
                let step = copying::<W, F, O, P>(
                    *open_hook,
                    write_all,
                    append,
                    input,
                    shell.working_dir@,
                    names,
                );
                lemma_one_more(step, worlds, reasons, current, reason);
                lemma_next_reason(prefix, names, reasons, reason);
                worlds = worlds.push(current);
                reasons = reasons.push(reason);
            }
            i = i + 1;
        }
        assert(append == tee_appends(texts(args@)));
        assert(names == tee_files(texts(args@)));
        assert(copied_in_turn::<W, F, O, P>(
            *open_hook,
            write_all,
            tee_appends(texts(args@)),
            input,
            shell.working_dir@,
            tee_files(texts(args@)),
            worlds,
            reasons,
        ));
        (current, TeeOutput { stdout: input, stderr, exit_code: 0 })
    }
}

} // verus!
