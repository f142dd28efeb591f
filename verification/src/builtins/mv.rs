//! `mv`: move (rename) files.

use vstd::prelude::*;
use vstd::string::*;

#[allow(unused_imports)]
use crate::builtins::args::operands;
use crate::builtins::args::operand_args;
#[allow(unused_imports)]
use crate::builtins::output::failure_line;
use crate::builtins::output::{add_failure_line, wrapped, CommandOutput};
use crate::error::IoError;
#[allow(unused_imports)]
use crate::shell::absolute;
use crate::shell::Shell;
use crate::text::decimal_text;
#[allow(unused_imports)]
use crate::text::{decimal, texts};
#[allow(unused_imports)]
use crate::vfs::{can_open, can_remove, opens, read_mode, removes, write_mode};
use crate::vfs::{wasm_open_file, wasm_open_file_for_read, wasm_remove, VfsHook};

verus! {

/// `mv`: move (rename) files.
pub struct MvBuiltin;

/// What is moved, and where to.
pub open spec fn mv_operands(args: Seq<Seq<char>>) -> Seq<Seq<char>> {
    operands(args, false, args.len() as int)
}

/// What `mv` says when it is not given two operands.
pub open spec fn mv_refusal(args: Seq<Seq<char>>, out: CommandOutput) -> bool {
    out.is(
        Seq::empty(),
        "mv: expected 2 arguments, got "@ + decimal(mv_operands(args).len()) + "\n"@,
        1,
    )
}

/// Whether `out` is the report that something failed.
pub open spec fn mv_failure(
    prefix: Seq<char>,
    item: Seq<char>,
    error: IoError,
    out: CommandOutput,
) -> bool {
    out.is(Seq::empty(), failure_line(prefix, item, error.message@), 1)
}

/// Whether moving a file in the virtual file system can leave `after` and
/// `out`. The source is opened and read, then the target is opened and written,
/// and only when all of this worked the source is removed. `source` and
/// `target` are the operands, `from` and `to` their absolute forms.
pub open spec fn moved<
    W,
    F,
    O: Fn(W, &str, bool, bool, bool, bool) -> (W, Result<F, IoError>),
    I: Fn(W, F) -> (W, Result<Vec<u8>, IoError>),
    P: Fn(W, F, &Vec<u8>) -> (W, Result<(), IoError>),
    R: Fn(W, &str) -> (W, bool),
>(
    open_hook: VfsHook<O>,
    read_to_end: I,
    write_all: P,
    remove_hook: VfsHook<R>,
    source: Seq<char>,
    target: Seq<char>,
    from: Seq<char>,
    to: Seq<char>,
    world: W,
    after: W,
    out: CommandOutput,
) -> bool {
    exists|w1: W, opened: Result<F, IoError>|
        {
            &&& #[trigger] opens(open_hook, world, from, read_mode(), w1, opened)
            &&& match opened {
                Err(e) => after == w1 && mv_failure("mv: cannot stat '"@, source, e, out),
                Ok(file) => exists|w2: W, content: Result<Vec<u8>, IoError>|
                    {
                        &&& #[trigger] call_ensures(read_to_end, (w1, file), (w2, content))
                        &&& match content {
                            Err(e) => after == w2 && mv_failure(
                                "mv: cannot read '"@,
                                source,
                                e,
                                out,
                            ),
                            Ok(bytes) => stored(
                                open_hook,
                                write_all,
                                remove_hook,
                                target,
                                from,
                                to,
                                bytes,
                                w2,
                                after,
                                out,
                            ),
                        }
                    },
            }
        }
}

/// The second half of a move: the bytes are written to the target, and the
/// source is removed.
pub open spec fn stored<
    W,
    F,
    O: Fn(W, &str, bool, bool, bool, bool) -> (W, Result<F, IoError>),
    P: Fn(W, F, &Vec<u8>) -> (W, Result<(), IoError>),
    R: Fn(W, &str) -> (W, bool),
>(
    open_hook: VfsHook<O>,
    write_all: P,
    remove_hook: VfsHook<R>,
    target: Seq<char>,
    from: Seq<char>,
    to: Seq<char>,
    bytes: Vec<u8>,
    world: W,
    after: W,
    out: CommandOutput,
) -> bool {
    exists|w3: W, opened: Result<F, IoError>|
        {
            &&& #[trigger] opens(open_hook, world, to, write_mode(false), w3, opened)
            &&& match opened {
                Err(e) => after == w3 && mv_failure("mv: cannot create '"@, target, e, out),
                Ok(file) => exists|w4: W, written: Result<(), IoError>|
                    {
                        &&& #[trigger] call_ensures(write_all, (w3, file, &bytes), (w4, written))
                        &&& match written {
                            Err(e) => after == w4 && mv_failure(
                                "mv: cannot write '"@,
                                target,
                                e,
                                out,
                            ),
                            Ok(()) => {
                                &&& exists|removed: bool| #[trigger]
                                    removes(remove_hook, w4, from, after, removed)
                                &&& out.is(Seq::empty(), Seq::empty(), 0)
                            },
                        }
                    },
            }
        }
}

/// Whether renaming `from` to `to` can leave `after` and give `result`.
pub open spec fn renamed<W, N: Fn(W, &str, &str) -> (W, Result<(), String>)>(
    rename: N,
    world: W,
    from: Seq<char>,
    to: Seq<char>,
    after: W,
    result: Result<(), String>,
) -> bool {
    exists|p: &str, q: &str|
        {
            &&& p@ == from
            &&& q@ == to
            &&& #[trigger] call_ensures(rename, (world, p, q), (after, result))
        }
}

/// Whether moving a file in the native file system can leave `after` and `out`.
pub open spec fn native_moved<W, N: Fn(W, &str, &str) -> (W, Result<(), String>)>(
    rename: N,
    source: Seq<char>,
    target: Seq<char>,
    from: Seq<char>,
    to: Seq<char>,
    world: W,
    after: W,
    out: CommandOutput,
) -> bool {
    exists|result: Result<(), String>|
        {
            &&& #[trigger] renamed(rename, world, from, to, after, result)
            &&& match result {
                Ok(()) => out.is(Seq::empty(), Seq::empty(), 0),
                Err(e) => out.is(
                    Seq::empty(),
                    failure_line("mv: cannot move '"@ + source + "' to '"@, target, e@),
                    1,
                ),
            }
        }
}

/// A move that fails removes nothing: whatever opening, reading and writing
/// files keeps holds afterwards.
pub proof fn lemma_failed_move_keeps<
    W,
    F,
    O: Fn(W, &str, bool, bool, bool, bool) -> (W, Result<F, IoError>),
    I: Fn(W, F) -> (W, Result<Vec<u8>, IoError>),
    P: Fn(W, F, &Vec<u8>) -> (W, Result<(), IoError>),
    R: Fn(W, &str) -> (W, bool),
>(
    open_hook: VfsHook<O>,
    read_to_end: I,
    write_all: P,
    remove_hook: VfsHook<R>,
    source: Seq<char>,
    target: Seq<char>,
    from: Seq<char>,
    to: Seq<char>,
    world: W,
    after: W,
    out: CommandOutput,
    holds: spec_fn(W) -> bool,
)
    requires
        moved::<W, F, O, I, P, R>(
            open_hook,
            read_to_end,
            write_all,
            remove_hook,
            source,
            target,
            from,
            to,
            world,
            after,
            out,
        ),
        out.exit_code != 0,
        holds(world),
        forall|a: W, b: W, r: Result<F, IoError>|
            holds(a) && #[trigger] opens(open_hook, a, from, read_mode(), b, r) ==> holds(b),
        forall|a: W, b: W, r: Result<F, IoError>|
            holds(a) && #[trigger] opens(open_hook, a, to, write_mode(false), b, r) ==> holds(b),
        forall|a: W, f: F, b: W, r: Result<Vec<u8>, IoError>|
            holds(a) && #[trigger] call_ensures(read_to_end, (a, f), (b, r)) ==> holds(b),
        forall|a: W, f: F, bytes: Vec<u8>, b: W, r: Result<(), IoError>|
            holds(a) && #[trigger] call_ensures(write_all, (a, f, &bytes), (b, r)) ==> holds(b),
    ensures
        holds(after),
{
}

impl MvBuiltin {
    /// What the help says of the command.
    pub fn get_content(name: &str) -> (r: String)
        ensures
            r@ == name@ + ": move (rename) files\n"@,
    {
        name.to_owned().concat(": move (rename) files\n")
    }

    /// The two operands, or what is said where there are not two.
    fn two_operands(args: &Vec<String>) -> (r: Result<Vec<String>, CommandOutput>)
        ensures
            match r {
                Ok(list) => texts(list@) == mv_operands(texts(args@)) && list@.len() == 2,
                Err(out) => mv_operands(texts(args@)).len() != 2 && mv_refusal(texts(args@), out),
            },
    {
        let list = operand_args(args);
        assert(texts(list@).len() == list@.len());
        if list.len() != 2 {
            let count = decimal_text(list.len() as u64);
            return Err(
                CommandOutput::failed(
                    wrapped("mv: expected 2 arguments, got ", count.as_str(), "\n"),
                    1,
                ),
            );
        }
        Ok(list)
    }

    /// The report that something failed.
    fn failure(prefix: &str, item: &str, error: &IoError) -> (out: CommandOutput)
        ensures
            mv_failure(prefix@, item@, *error, out),
    {
        let mut message = String::new();
        add_failure_line(&mut message, prefix, item, error.message.as_str());
        assert(message@ =~= failure_line(prefix@, item@, error.message@));
        CommandOutput::failed(message, 1)
    }

    /// Writes the bytes to the target and removes the source.
    fn store<
        W,
        F,
        O: Fn(W, &str, bool, bool, bool, bool) -> (W, Result<F, IoError>),
        P: Fn(W, F, &Vec<u8>) -> (W, Result<(), IoError>),
        R: Fn(W, &str) -> (W, bool),
    >(
        open_hook: &VfsHook<O>,
        write_all: &P,
        remove_hook: &VfsHook<R>,
        target: &str,
        from: &str,
        to: &str,
        bytes: Vec<u8>,
        world: W,
    ) -> (r: (W, CommandOutput))
        requires
            can_open::<W, F, O>(*open_hook),
            forall|w: W, f: F, b: Vec<u8>| #[trigger] call_requires(*write_all, (w, f, &b)),
            can_remove::<W, R>(*remove_hook),
        ensures
            stored(
                *open_hook,
                *write_all,
                *remove_hook,
                target@,
                from@,
                to@,
                bytes,
                world,
                r.0,
                r.1,
            ),
    {
        let (w3, opened) = wasm_open_file(open_hook, world, to, false, true, true, false);
        assert(opens(*open_hook, world, to@, write_mode(false), w3, opened));
        match opened {
            Err(e) => (w3, Self::failure("mv: cannot create '", target, &e)),
            Ok(file) => {
                let (w4, written) = write_all(w3, file, &bytes);
                assert(call_ensures(*write_all, (w3, file, &bytes), (w4, written)));
                match written {
                    Err(e) => (w4, Self::failure("mv: cannot write '", target, &e)),
                    Ok(()) => {
                        let (w5, removed) = wasm_remove(remove_hook, w4, from);
                        assert(removes(*remove_hook, w4, from@, w5, removed));
                        (w5, CommandOutput::silent(0))
                    },
                }
            },
        }
    }

    /// Moves a file in the virtual file system: its content is written to the
    /// target, and then it is removed.
    pub fn execute<
        H,
        W,
        F,
        O: Fn(W, &str, bool, bool, bool, bool) -> (W, Result<F, IoError>),
        I: Fn(W, F) -> (W, Result<Vec<u8>, IoError>),
        P: Fn(W, F, &Vec<u8>) -> (W, Result<(), IoError>),
        R: Fn(W, &str) -> (W, bool),
    >(
        shell: &Shell<H>,
        open_hook: &VfsHook<O>,
        read_to_end: I,
        write_all: P,
        remove_hook: &VfsHook<R>,
        world: W,
        args: &Vec<String>,
    ) -> (r: (W, CommandOutput))
        requires
            can_open::<W, F, O>(*open_hook),
            forall|w: W, f: F| #[trigger] call_requires(read_to_end, (w, f)),
            forall|w: W, f: F, b: Vec<u8>| #[trigger] call_requires(write_all, (w, f, &b)),
            can_remove::<W, R>(*remove_hook),
        ensures
            ({
                let list = mv_operands(texts(args@));
                if list.len() == 2 {
                    moved::<W, F, O, I, P, R>(
                        *open_hook,
                        read_to_end,
                        write_all,
                        *remove_hook,
                        list[0],
                        list[1],
                        absolute(shell.working_dir@, list[0]),
                        absolute(shell.working_dir@, list[1]),
                        world,
                        r.0,
                        r.1,
                    )
                } else {
                    r.0 == world && mv_refusal(texts(args@), r.1)
                }
            }),
    {
        let list = match Self::two_operands(args) {
            Ok(list) => list,
            Err(out) => {
                return (world, out);
            },
        };
        let source = list[0].as_str();
        let target = list[1].as_str();
        assert(texts(list@)[0] == source@ && texts(list@)[1] == target@);
        let from = shell.absolute_path(source);
        let to = shell.absolute_path(target);
        let (w1, opened) = wasm_open_file_for_read(open_hook, world, from.as_str());
        assert(opens(*open_hook, world, from@, read_mode(), w1, opened));
        match opened {
            Err(e) => (w1, Self::failure("mv: cannot stat '", source, &e)),
            Ok(file) => {
                let (w2, content) = read_to_end(w1, file);
                assert(call_ensures(read_to_end, (w1, file), (w2, content)));
                match content {
                    Err(e) => (w2, Self::failure("mv: cannot read '", source, &e)),
                    Ok(bytes) => Self::store(
                        open_hook,
                        &write_all,
                        remove_hook,
                        target,
                        from.as_str(),
                        to.as_str(),
                        bytes,
                        w2,
                    ),
                }
            },
        }
    }

    /// Renames a file of the native file system.
    pub fn execute_native<H, W, N: Fn(W, &str, &str) -> (W, Result<(), String>)>(
        shell: &Shell<H>,
        rename: N,
        world: W,
        args: &Vec<String>,
    ) -> (r: (W, CommandOutput))
        requires
            forall|w: W, p: &str, q: &str| #[trigger] call_requires(rename, (w, p, q)),
        ensures
            ({
                let list = mv_operands(texts(args@));
                if list.len() == 2 {
                    native_moved(
                        rename,
                        list[0],
                        list[1],
                        absolute(shell.working_dir@, list[0]),
                        absolute(shell.working_dir@, list[1]),
                        world,
                        r.0,
                        r.1,
                    )
                } else {
                    r.0 == world && mv_refusal(texts(args@), r.1)
                }
            }),
    {
        let list = match Self::two_operands(args) {
            Ok(list) => list,
            Err(out) => {
                return (world, out);
            },
        };
        let source = list[0].as_str();
        let target = list[1].as_str();
        assert(texts(list@)[0] == source@ && texts(list@)[1] == target@);
        let from = shell.absolute_path(source);
        let to = shell.absolute_path(target);
        let (after, result) = rename(world, from.as_str(), to.as_str());
        assert(renamed(rename, world, from@, to@, after, result));
        match result {
            Ok(()) => (after, CommandOutput::silent(0)),
            Err(e) => {
                let prefix = wrapped("mv: cannot move '", source, "' to '");
                let mut message = String::new();
                add_failure_line(&mut message, prefix.as_str(), target, e.as_str());
                assert(message@ =~= failure_line(prefix@, target@, e@));
                (after, CommandOutput::failed(message, 1))
            },
        }
    }
}

} // verus!
