//! Laws of the commands that change the file system.

use vstd::prelude::*;
use vstd::string::*;

#[allow(unused_imports)]
use crate::builtins::args::{has_either, operands, undashed};
#[allow(unused_imports)]
use crate::builtins::find::{found_view, found_views, FindBuiltin, GrepBuiltin, VfsEntry};
#[allow(unused_imports)]
use crate::builtins::mkdir::{
    made_in_turn, making, mkdir_dirs, mkdir_has_work, native_made_in_turn, reasons_of, MkdirBuiltin,
};
#[allow(unused_imports)]
use crate::builtins::mv::{moved, mv_failure, mv_operands, native_moved, renamed, stored, MvBuiltin};
#[allow(unused_imports)]
use crate::builtins::output::{
    any_reason, exit_status, failure_line, failure_lines, run_utility, CommandOutput,
};
#[allow(unused_imports)]
use crate::builtins::rm::{
    native_in_turn, native_reasons, removal, removed_in_turn, rm_files, rm_given, rm_has_work,
    rm_report, vfs_reasons, RmBuiltin,
};
#[allow(unused_imports)]
use crate::builtins::tee::{copied_in_turn, copying, tee_appends, tee_files, TeeBuiltin, TeeOutput};
#[allow(unused_imports)]
use crate::builtins::touch::{touch_files, touched, touched_in_turn, touching, TouchBuiltin};
#[allow(unused_imports)]
use crate::error::IoError;
#[allow(unused_imports)]
use crate::laws::arguments::{
    law_letters, law_operands, law_undashed, letter_given, plain_argument, without_dash,
};
#[allow(unused_imports)]
use crate::shell::{absolute, Shell};
#[allow(unused_imports)]
use crate::text::{decimal, texts};
#[allow(unused_imports)]
use crate::vfs::{answers, makes, opens, removes, FileOpenMode, VfsHook};
#[allow(unused_imports)]
use crate::wasm_vfs::{entry_view, entry_views, VfsDirEntry};

verus! {

/// The mode of a file that is written and created where it is missing.
pub open spec fn writing(append: bool) -> FileOpenMode {
    FileOpenMode { read: false, write: true, create: true, append }
}

/// The mode of a file that is only read.
pub open spec fn reading() -> FileOpenMode {
    FileOpenMode { read: true, write: false, create: false, append: false }
}

/// Whether one of the two texts stands behind the name of the command.
pub open spec fn option_given(args: Vec<String>, a: Seq<char>, b: Seq<char>) -> bool {
    exists|i: int| 1 <= i < args@.len() && ((#[trigger] args@[i])@ == a || args@[i]@ == b)
}

/// The operands of a command that takes options of one dash and letters.
pub open spec fn plain_operands(args: Vec<String>) -> Seq<Seq<char>> {
    if args@.len() == 0 {
        Seq::empty()
    } else {
        texts(args@).skip(1).filter(plain_argument(false))
    }
}

/// The operands of a command for which whatever begins with a dash is an option.
pub open spec fn dashless_operands(args: Vec<String>) -> Seq<Seq<char>> {
    if args@.len() == 0 {
        Seq::empty()
    } else {
        texts(args@).skip(1).filter(without_dash())
    }
}

proof fn lemma_plain_operands(args: Vec<String>)
    ensures
        operands(texts(args@), false, args@.len() as int) == plain_operands(args),
{
    let all = texts(args@);
    let n = all.len() as int;
    law_operands(all, false, n);
    if n > 0 {
        assert(all.subrange(1, n) =~= all.skip(1));
    } else {
        assert(operands(all, false, n) =~= Seq::empty());
    }
}

proof fn lemma_dashless_operands(args: Vec<String>)
    ensures
        undashed(texts(args@), args@.len() as int) == dashless_operands(args),
{
    let all = texts(args@);
    let n = all.len() as int;
    law_undashed(all, n);
    if n > 0 {
        assert(all.subrange(1, n) =~= all.skip(1));
    } else {
        assert(undashed(all, n) =~= Seq::empty());
    }
}

/// An output is what was written and the code, field by field.
pub proof fn law_output_fields(
    out: CommandOutput,
    stdout: Seq<char>,
    stderr: Seq<char>,
    exit_code: u8,
)
    ensures
        out.is(stdout, stderr, exit_code) <==> out.stdout@ == stdout && out.stderr@ == stderr
            && out.exit_code == exit_code,
{
}

/// One item more adds its line behind those of the others if there is a reason,
/// and nothing if there is none. A line names the item and the reason.
pub proof fn law_failure_lines(
    prefix: Seq<char>,
    items: Seq<Seq<char>>,
    reasons: Seq<Option<Seq<char>>>,
    n: int,
)
    requires
        0 <= n < reasons.len(),
    ensures
        failure_lines(prefix, items, reasons, 0).len() == 0,
        reasons[n] is None ==> failure_lines(prefix, items, reasons, n + 1) == failure_lines(
            prefix,
            items,
            reasons,
            n,
        ),
        reasons[n] matches Some(reason) ==> failure_lines(prefix, items, reasons, n + 1)
            == failure_lines(prefix, items, reasons, n) + (prefix + items[n] + "': "@ + reason
            + "\n"@),
        (forall|i: int| 0 <= i < n ==> (#[trigger] reasons[i]) is None) ==> failure_lines(
            prefix,
            items,
            reasons,
            n,
        ).len() == 0,
    decreases n,
{
    if n > 0 && (forall|i: int| 0 <= i < n ==> (#[trigger] reasons[i]) is None) {
        law_failure_lines(prefix, items, reasons, n - 1);
    }
}

/// Whether `tee` can lead from one world to the next with one file: it is opened
/// in the given mode and the whole input is written to it, or it cannot be
/// opened and the reason is kept.
pub open spec fn tee_step<
    W,
    F,
    O: Fn(W, &str, bool, bool, bool, bool) -> (W, Result<F, IoError>),
    P: Fn(W, F, &Vec<u8>) -> (W, Result<(), IoError>),
>(
    hook: VfsHook<O>,
    write_all: P,
    mode: FileOpenMode,
    input: Vec<u8>,
    path: Seq<char>,
    from: W,
    to: W,
    reason: Option<Seq<char>>,
) -> bool {
    exists|opened: W, result: Result<F, IoError>|
        {
            &&& #[trigger] opens(hook, from, path, mode, opened, result)
            &&& match result {
                Ok(file) => {
                    &&& reason is None
                    &&& exists|written: Result<(), IoError>| #[trigger]
                        call_ensures(write_all, (opened, file, &input), (to, written))
                },
                Err(e) => to == opened && reason == Some(e.message@),
            }
        }
}

/// Whether `tee` can lead through the worlds, file after file, all of them in
/// the same mode.
pub open spec fn tee_run<
    W,
    F,
    O: Fn(W, &str, bool, bool, bool, bool) -> (W, Result<F, IoError>),
    P: Fn(W, F, &Vec<u8>) -> (W, Result<(), IoError>),
>(
    hook: VfsHook<O>,
    write_all: P,
    mode: FileOpenMode,
    input: Vec<u8>,
    working_dir: Seq<char>,
    files: Seq<Seq<char>>,
    worlds: Seq<W>,
    reasons: Seq<Option<Seq<char>>>,
) -> bool {
    &&& worlds.len() == files.len() + 1
    &&& reasons.len() == files.len()
    &&& forall|i: int|
        0 <= i < files.len() ==> tee_step::<W, F, O, P>(
            hook,
            write_all,
            mode,
            input,
            absolute(working_dir, files[i]),
            worlds[i],
            worlds[i + 1],
            #[trigger] reasons[i],
        )
}

/// `tee` gives its input out and opens every file operand, at whatever place,
/// to write and create it: at its end exactly when `-a` or `--append` is given,
/// else from its beginning. A file that cannot be opened is reported.
pub proof fn law_tee_writes_every_file<
    H,
    W,
    F,
    O: Fn(W, &str, bool, bool, bool, bool) -> (W, Result<F, IoError>),
    P: Fn(W, F, &Vec<u8>) -> (W, Result<(), IoError>),
>(
    shell: &Shell<H>,
    hook: &VfsHook<O>,
    write_all: P,
    world: W,
    args: Vec<String>,
    input: Vec<u8>,
    r: (W, TeeOutput),
)
    requires
        call_ensures(
            TeeBuiltin::execute::<H, W, F, O, P>,
            (shell, hook, write_all, world, &args, input),
            r,
        ),
    ensures
        r.1.stdout@ == input@,
        r.1.exit_code == 0,
        exists|worlds: Seq<W>, reasons: Seq<Option<Seq<char>>>|
            {
                &&& #[trigger] tee_run::<W, F, O, P>(
                    *hook,
                    write_all,
                    writing(option_given(args, "-a"@, "--append"@)),
                    input,
                    shell.working_dir@,
                    plain_operands(args),
                    worlds,
                    reasons,
                )
                &&& worlds.first() == world
                &&& worlds.last() == r.0
                &&& r.1.stderr@ == failure_lines(
                    "tee: '"@,
                    plain_operands(args),
                    reasons,
                    reasons.len() as int,
                )
            },
{
    lemma_plain_operands(args);
    let all = texts(args@);
    let append = option_given(args, "-a"@, "--append"@);
    lemma_either(args, "-a"@, "--append"@);
    assert(tee_appends(all) == append);
    let files = plain_operands(args);
    assert(tee_files(all) == files);
    let (worlds, reasons) = choose|worlds: Seq<W>, reasons: Seq<Option<Seq<char>>>|
        {
            &&& #[trigger] copied_in_turn::<W, F, O, P>(
                *hook,
                write_all,
                tee_appends(texts(args@)),
                input,
                shell.working_dir@,
                tee_files(texts(args@)),
                worlds,
                reasons,
            )
            &&& worlds.first() == world
            &&& worlds.last() == r.0
            &&& r.1.stderr@ == failure_lines(
                "tee: '"@,
                tee_files(texts(args@)),
                reasons,
                reasons.len() as int,
            )
        };
    law_tee_step_by_step::<W, F, O, P>(
        *hook,
        write_all,
        append,
        input,
        shell.working_dir@,
        files,
        worlds,
        reasons,
    );
}

proof fn lemma_either(args: Vec<String>, a: Seq<char>, b: Seq<char>)
    ensures
        has_either(texts(args@), a, b) <==> option_given(args, a, b),
{
    let all = texts(args@);
    if has_either(all, a, b) {
        let i = choose|i: int| 1 <= i < all.len() && ((#[trigger] all[i]) == a || all[i] == b);
        assert(args@[i]@ == all[i]);
    }
    if option_given(args, a, b) {
        let i = choose|i: int|
            1 <= i < args@.len() && ((#[trigger] args@[i])@ == a || args@[i]@ == b);
        assert(all[i] == args@[i]@);
    }
}

/// Each of the files is opened in the same mode, whatever its place.
pub proof fn law_tee_step_by_step<
    W,
    F,
    O: Fn(W, &str, bool, bool, bool, bool) -> (W, Result<F, IoError>),
    P: Fn(W, F, &Vec<u8>) -> (W, Result<(), IoError>),
>(
    hook: VfsHook<O>,
    write_all: P,
    append: bool,
    input: Vec<u8>,
    working_dir: Seq<char>,
    files: Seq<Seq<char>>,
    worlds: Seq<W>,
    reasons: Seq<Option<Seq<char>>>,
)
    requires
        copied_in_turn::<W, F, O, P>(
            hook,
            write_all,
            append,
            input,
            working_dir,
            files,
            worlds,
            reasons,
        ),
    ensures
        tee_run::<W, F, O, P>(
            hook,
            write_all,
            writing(append),
            input,
            working_dir,
            files,
            worlds,
            reasons,
        ),
{
    let step = copying::<W, F, O, P>(hook, write_all, append, input, working_dir, files);
    assert forall|i: int| 0 <= i < files.len() implies tee_step::<W, F, O, P>(
        hook,
        write_all,
        writing(append),
        input,
        absolute(working_dir, files[i]),
        worlds[i],
        worlds[i + 1],
        #[trigger] reasons[i],
    ) by {
        assert(step(i, worlds[i], worlds[i + 1], reasons[i]));
    }
}

/// Whatever opening files at their ends and writing to them leaves true is true
/// after `tee -a`.
pub proof fn law_tee_append_keeps<
    W,
    F,
    O: Fn(W, &str, bool, bool, bool, bool) -> (W, Result<F, IoError>),
    P: Fn(W, F, &Vec<u8>) -> (W, Result<(), IoError>),
>(
    hook: VfsHook<O>,
    f: O,
    write_all: P,
    input: Vec<u8>,
    working_dir: Seq<char>,
    files: Seq<Seq<char>>,
    worlds: Seq<W>,
    reasons: Seq<Option<Seq<char>>>,
    holds: spec_fn(W) -> bool,
)
    requires
        hook.callback == Some(f),
        copied_in_turn::<W, F, O, P>(
            hook,
            write_all,
            true,
            input,
            working_dir,
            files,
            worlds,
            reasons,
        ),
        holds(worlds.first()),
        forall|a: W, p: &str, b: W, result: Result<F, IoError>|
            holds(a) && #[trigger] call_ensures(f, (a, p, false, true, true, true), (b, result))
                ==> holds(b),
        forall|a: W, file: F, b: W, result: Result<(), IoError>|
            holds(a) && #[trigger] call_ensures(write_all, (a, file, &input), (b, result)) ==> holds(
                b,
            ),
    ensures
        forall|i: int| 0 <= i < worlds.len() ==> holds(#[trigger] worlds[i]),
        holds(worlds.last()),
{
    law_tee_step_by_step::<W, F, O, P>(
        hook,
        write_all,
        true,
        input,
        working_dir,
        files,
        worlds,
        reasons,
    );
    lemma_tee_keeps::<W, F, O, P>(
        hook,
        f,
        write_all,
        input,
        working_dir,
        files,
        worlds,
        reasons,
        holds,
        files.len() as int,
    );
    assert(worlds.last() == worlds[files.len() as int]);
}

proof fn lemma_tee_keeps<
    W,
    F,
    O: Fn(W, &str, bool, bool, bool, bool) -> (W, Result<F, IoError>),
    P: Fn(W, F, &Vec<u8>) -> (W, Result<(), IoError>),
>(
    hook: VfsHook<O>,
    f: O,
    write_all: P,
    input: Vec<u8>,
    working_dir: Seq<char>,
    files: Seq<Seq<char>>,
    worlds: Seq<W>,
    reasons: Seq<Option<Seq<char>>>,
    holds: spec_fn(W) -> bool,
    n: int,
)
    requires
        0 <= n <= files.len(),
        hook.callback == Some(f),
        tee_run::<W, F, O, P>(
            hook,
            write_all,
            writing(true),
            input,
            working_dir,
            files,
            worlds,
            reasons,
        ),
        holds(worlds.first()),
        forall|a: W, p: &str, b: W, result: Result<F, IoError>|
            holds(a) && #[trigger] call_ensures(f, (a, p, false, true, true, true), (b, result))
                ==> holds(b),
        forall|a: W, file: F, b: W, result: Result<(), IoError>|
            holds(a) && #[trigger] call_ensures(write_all, (a, file, &input), (b, result)) ==> holds(
                b,
            ),
    ensures
        forall|i: int| 0 <= i <= n ==> holds(#[trigger] worlds[i]),
    decreases n,
{
    if n > 0 {
        lemma_tee_keeps::<W, F, O, P>(
            hook,
            f,
            write_all,
            input,
            working_dir,
            files,
            worlds,
            reasons,
            holds,
            n - 1,
        );
        let path = absolute(working_dir, files[n - 1]);
        let from = worlds[n - 1];
        assert(tee_step::<W, F, O, P>(
            hook,
            write_all,
            writing(true),
            input,
            path,
            from,
            worlds[n - 1 + 1],
            reasons[n - 1],
        ));
        let (opened, result) = choose|opened: W, result: Result<F, IoError>|
            {
                &&& #[trigger] opens(hook, from, path, writing(true), opened, result)
                &&& match result {
                    Ok(file) => {
                        &&& reasons[n - 1] is None
                        &&& exists|written: Result<(), IoError>| #[trigger]
                            call_ensures(write_all, (opened, file, &input), (worlds[n], written))
                    },
                    Err(e) => worlds[n] == opened && reasons[n - 1] == Some(e.message@),
                }
            };
        let p = choose|p: &str|
            p@ == path && #[trigger] call_ensures(
                f,
                (from, p, false, true, true, true),
                (opened, result),
            );
        assert(call_ensures(f, (from, p, false, true, true, true), (opened, result)));
        assert(holds(opened));
    } else {
        assert(worlds[0] == worlds.first());
    }
}

/// Whether `touch` can lead from one world to the next with one file: what is
/// there is brought up to date, and what is not there is opened once for
/// writing and closed, or the reason why it cannot be opened is kept.
pub open spec fn touch_step<
    W,
    F,
    E: Fn(&W, &str) -> bool,
    O: Fn(W, &str, bool, bool, bool, bool) -> (W, Result<F, IoError>),
    C: Fn(W, F) -> W,
    U: Fn(W, &str) -> W,
>(
    exists_hook: VfsHook<E>,
    open_hook: VfsHook<O>,
    close: C,
    update: U,
    path: Seq<char>,
    from: W,
    to: W,
    reason: Option<Seq<char>>,
) -> bool {
    ||| {
        &&& answers(exists_hook, from, path, false, true)
        &&& reason is None
        &&& exists|p: &str| p@ == path && #[trigger] call_ensures(update, (from, p), to)
    }
    ||| {
        &&& answers(exists_hook, from, path, false, false)
        &&& exists|opened: W, result: Result<F, IoError>|
            {
                &&& #[trigger] opens(open_hook, from, path, writing(false), opened, result)
                &&& match result {
                    Ok(file) => call_ensures(close, (opened, file), to) && reason is None,
                    Err(e) => to == opened && reason == Some(e.message@),
                }
            }
    }
}

/// Whether `touch` can lead through the worlds, file after file.
pub open spec fn touch_run<
    W,
    F,
    E: Fn(&W, &str) -> bool,
    O: Fn(W, &str, bool, bool, bool, bool) -> (W, Result<F, IoError>),
    C: Fn(W, F) -> W,
    U: Fn(W, &str) -> W,
>(
    exists_hook: VfsHook<E>,
    open_hook: VfsHook<O>,
    close: C,
    update: U,
    working_dir: Seq<char>,
    files: Seq<Seq<char>>,
    worlds: Seq<W>,
    reasons: Seq<Option<Seq<char>>>,
) -> bool {
    &&& worlds.len() == files.len() + 1
    &&& reasons.len() == files.len()
    &&& forall|i: int|
        0 <= i < files.len() ==> touch_step::<W, F, E, O, C, U>(
            exists_hook,
            open_hook,
            close,
            update,
            absolute(working_dir, files[i]),
            worlds[i],
            worlds[i + 1],
            #[trigger] reasons[i],
        )
}

proof fn lemma_touch_step<
    W,
    F,
    E: Fn(&W, &str) -> bool,
    O: Fn(W, &str, bool, bool, bool, bool) -> (W, Result<F, IoError>),
    C: Fn(W, F) -> W,
    U: Fn(W, &str) -> W,
>(
    exists_hook: VfsHook<E>,
    open_hook: VfsHook<O>,
    close: C,
    update: U,
    path: Seq<char>,
    from: W,
    to: W,
    reason: Option<Seq<char>>,
)
    requires
        touched::<W, F, E, O, C, U>(
            exists_hook,
            open_hook,
            close,
            update,
            from,
            path,
            to,
            reason,
        ),
    ensures
        touch_step::<W, F, E, O, C, U>(
            exists_hook,
            open_hook,
            close,
            update,
            path,
            from,
            to,
            reason,
        ),
{
    assert(crate::vfs::write_mode(false) == writing(false));
}

/// `touch` goes through all its files in their order, never appends, and does
/// not fail for a file that cannot be opened. Without a file it changes
/// nothing and fails.
pub proof fn law_touch_goes_through_its_files<
    H,
    W,
    F,
    E: Fn(&W, &str) -> bool,
    O: Fn(W, &str, bool, bool, bool, bool) -> (W, Result<F, IoError>),
    C: Fn(W, F) -> W,
    U: Fn(W, &str) -> W,
>(
    shell: &Shell<H>,
    exists_hook: &VfsHook<E>,
    open_hook: &VfsHook<O>,
    close: C,
    update: U,
    world: W,
    args: Vec<String>,
    r: (W, CommandOutput),
)
    requires
        call_ensures(
            TouchBuiltin::execute::<H, W, F, E, O, C, U>,
            (shell, exists_hook, open_hook, close, update, world, &args),
            r,
        ),
    ensures
        r.1.stdout@.len() == 0,
        dashless_operands(args).len() == 0 ==> {
            &&& r.0 == world
            &&& r.1.exit_code == 1
            &&& r.1.stderr@ == "touch: missing file operand\n"@
        },
        dashless_operands(args).len() > 0 ==> {
            &&& r.1.exit_code == 0
            &&& exists|worlds: Seq<W>, reasons: Seq<Option<Seq<char>>>|
                {
                    &&& #[trigger] touch_run::<W, F, E, O, C, U>(
                        *exists_hook,
                        *open_hook,
                        close,
                        update,
                        shell.working_dir@,
                        dashless_operands(args),
                        worlds,
                        reasons,
                    )
                    &&& worlds.first() == world
                    &&& worlds.last() == r.0
                    &&& r.1.stderr@ == failure_lines(
                        "touch: cannot touch '"@,
                        dashless_operands(args),
                        reasons,
                        reasons.len() as int,
                    )
                }
        },
{
    lemma_dashless_operands(args);
    let files = touch_files(texts(args@));
    assert(files == dashless_operands(args));
    if files.len() > 0 {
        let (worlds, reasons) = choose|worlds: Seq<W>, reasons: Seq<Option<Seq<char>>>|
            {
                &&& #[trigger] touched_in_turn::<W, F, E, O, C, U>(
                    *exists_hook,
                    *open_hook,
                    close,
                    update,
                    shell.working_dir@,
                    touch_files(texts(args@)),
                    worlds,
                    reasons,
                )
                &&& worlds.first() == world
                &&& worlds.last() == r.0
                &&& r.1.is(
                    Seq::empty(),
                    failure_lines(
                        "touch: cannot touch '"@,
                        touch_files(texts(args@)),
                        reasons,
                        reasons.len() as int,
                    ),
                    0,
                )
            };
        let step = touching::<W, F, E, O, C, U>(
            *exists_hook,
            *open_hook,
            close,
            update,
            shell.working_dir@,
            files,
        );
        assert forall|i: int| 0 <= i < files.len() implies touch_step::<W, F, E, O, C, U>(
            *exists_hook,
            *open_hook,
            close,
            update,
            absolute(shell.working_dir@, files[i]),
            worlds[i],
            worlds[i + 1],
            #[trigger] reasons[i],
        ) by {
            assert(step(i, worlds[i], worlds[i + 1], reasons[i]));
            lemma_touch_step::<W, F, E, O, C, U>(
                *exists_hook,
                *open_hook,
                close,
                update,
                absolute(shell.working_dir@, files[i]),
                worlds[i],
                worlds[i + 1],
                reasons[i],
            );
        }
        assert(touch_run::<W, F, E, O, C, U>(
            *exists_hook,
            *open_hook,
            close,
            update,
            shell.working_dir@,
            files,
            worlds,
            reasons,
        ));
    }
}

/// Whether removing can lead through the worlds, file after file, and say this
/// of each.
pub open spec fn removal_run<W, R: Fn(W, &str) -> (W, bool)>(
    hook: VfsHook<R>,
    working_dir: Seq<char>,
    files: Seq<Seq<char>>,
    worlds: Seq<W>,
    removed: Seq<bool>,
) -> bool {
    &&& worlds.len() == files.len() + 1
    &&& removed.len() == files.len()
    &&& forall|i: int|
        0 <= i < files.len() ==> removes(
            hook,
            worlds[i],
            absolute(working_dir, files[i]),
            worlds[i + 1],
            #[trigger] removed[i],
        )
}

/// `rm` removes all its files in their order. It fails exactly when one of them
/// was not removed and `f` is not given, and says so of each such file.
pub proof fn law_rm_removes_its_files<H, W, R: Fn(W, &str) -> (W, bool)>(
    shell: &Shell<H>,
    hook: &VfsHook<R>,
    world: W,
    args: Vec<String>,
    r: (W, CommandOutput),
)
    requires
        call_ensures(RmBuiltin::execute::<H, W, R>, (shell, hook, world, &args), r),
        forall|c: char| #[trigger]
            letter_given(texts(args@), false, c) ==> c == 'f' || c == 'r' || c == 'R',
        plain_operands(args).len() > 0,
    ensures
        r.1.stdout@.len() == 0,
        exists|worlds: Seq<W>, removed: Seq<bool>|
            {
                let force = letter_given(texts(args@), false, 'f');
                let failed = Seq::new(
                    removed.len(),
                    |i: int|
                        if removed[i] || force {
                            None
                        } else {
                            Some("No such file or directory"@)
                        },
                );
                &&& #[trigger] removal_run(
                    *hook,
                    shell.working_dir@,
                    plain_operands(args),
                    worlds,
                    removed,
                )
                &&& worlds.first() == world
                &&& worlds.last() == r.0
                &&& r.1.exit_code == 0 || r.1.exit_code == 1
                &&& r.1.exit_code == 1 <==> !force && exists|i: int|
                    0 <= i < removed.len() && !(#[trigger] removed[i])
                &&& r.1.stderr@ == failure_lines(
                    "rm: cannot remove '"@,
                    plain_operands(args),
                    failed,
                    removed.len() as int,
                )
            },
{
    lemma_plain_operands(args);
    let all = texts(args@);
    let files = rm_files(all);
    lemma_rm_has_work(all);
    law_letters(all, false, 'f');
    let force = rm_given(all).contains('f');
    let (worlds, removed) = choose|worlds: Seq<W>, removed: Seq<bool>|
        {
            &&& #[trigger] removed_in_turn(
                *hook,
                shell.working_dir@,
                rm_files(texts(args@)),
                worlds,
                removed,
            )
            &&& worlds.first() == world
            &&& worlds.last() == r.0
            &&& rm_report(
                rm_files(texts(args@)),
                vfs_reasons(rm_given(texts(args@)).contains('f'), removed),
                r.1,
            )
        };
    let step = removal::<W, R>(*hook, shell.working_dir@, files);
    assert forall|i: int| 0 <= i < files.len() implies removes(
        *hook,
        worlds[i],
        absolute(shell.working_dir@, files[i]),
        worlds[i + 1],
        #[trigger] removed[i],
    ) by {
        assert(step(i, worlds[i], worlds[i + 1], removed[i]));
    }
    let failed = Seq::new(
        removed.len(),
        |i: int|
            if removed[i] || force {
                None
            } else {
                Some("No such file or directory"@)
            },
    );
    let reasons = vfs_reasons(force, removed);
    assert(failed =~= reasons);
    let n = files.len() as int;
    if any_reason(reasons, n) {
        let i = choose|i: int| 0 <= i < n && (#[trigger] reasons[i]) is Some;
        assert(!removed[i]);
    }
    if !force && exists|i: int| 0 <= i < removed.len() && !(#[trigger] removed[i]) {
        let i = choose|i: int| 0 <= i < removed.len() && !(#[trigger] removed[i]);
        assert(reasons[i] is Some);
    }
    assert(removal_run(*hook, shell.working_dir@, files, worlds, removed));
}

proof fn lemma_rm_has_work(all: Seq<Seq<char>>)
    requires
        forall|c: char| #[trigger]
            letter_given(all, false, c) ==> c == 'f' || c == 'r' || c == 'R',
        rm_files(all).len() > 0,
    ensures
        rm_has_work(all),
{
    let given = rm_given(all);
    crate::laws::arguments::law_first_outside(given, crate::builtins::rm::rm_letters());
    match crate::builtins::args::first_outside(given, crate::builtins::rm::rm_letters()) {
        Some(c) => {
            assert(given.contains(c));
            law_letters(all, false, c);
            let known = crate::builtins::rm::rm_letters();
            assert(known[0] == 'f' && known[1] == 'r' && known[2] == 'R');
            assert(false);
        },
        None => {},
    }
}

/// Whether native removing can lead from one world to the next: a directory goes
/// with all that is in it, anything else as a file.
pub open spec fn native_removal_step<
    W,
    D: Fn(&W, &str) -> bool,
    A: Fn(W, &str) -> (W, Result<(), String>),
    B: Fn(W, &str) -> (W, Result<(), String>),
>(
    is_dir: D,
    remove_dir_all: A,
    remove_file: B,
    path: Seq<char>,
    from: W,
    to: W,
    result: Result<(), String>,
) -> bool {
    exists|p: &str, directory: bool|
        {
            &&& p@ == path
            &&& #[trigger] call_ensures(is_dir, (&from, p), directory)
            &&& directory ==> call_ensures(remove_dir_all, (from, p), (to, result))
            &&& !directory ==> call_ensures(remove_file, (from, p), (to, result))
        }
}

/// Whether native removing can lead through the worlds, file after file: a
/// directory with all that is in it, anything else as a file.
pub open spec fn native_removal_run<
    W,
    D: Fn(&W, &str) -> bool,
    A: Fn(W, &str) -> (W, Result<(), String>),
    B: Fn(W, &str) -> (W, Result<(), String>),
>(
    is_dir: D,
    remove_dir_all: A,
    remove_file: B,
    working_dir: Seq<char>,
    files: Seq<Seq<char>>,
    worlds: Seq<W>,
    results: Seq<Result<(), String>>,
) -> bool {
    &&& worlds.len() == files.len() + 1
    &&& results.len() == files.len()
    &&& forall|i: int|
        0 <= i < files.len() ==> native_removal_step(
            is_dir,
            remove_dir_all,
            remove_file,
            absolute(working_dir, files[i]),
            worlds[i],
            worlds[i + 1],
            #[trigger] results[i],
        )
}

/// Without a virtual file system `rm` removes all its files in their order,
/// directories with all that is in them. It fails exactly when one could not be
/// removed and `f` is not given.
pub proof fn law_rm_removes_native_files<
    H,
    W,
    D: Fn(&W, &str) -> bool,
    A: Fn(W, &str) -> (W, Result<(), String>),
    B: Fn(W, &str) -> (W, Result<(), String>),
>(
    shell: &Shell<H>,
    is_dir: D,
    remove_dir_all: A,
    remove_file: B,
    world: W,
    args: Vec<String>,
    r: (W, CommandOutput),
)
    requires
        call_ensures(
            RmBuiltin::execute_native::<H, W, D, A, B>,
            (shell, is_dir, remove_dir_all, remove_file, world, &args),
            r,
        ),
        forall|c: char| #[trigger]
            letter_given(texts(args@), false, c) ==> c == 'f' || c == 'r' || c == 'R',
        plain_operands(args).len() > 0,
    ensures
        r.1.stdout@.len() == 0,
        exists|worlds: Seq<W>, results: Seq<Result<(), String>>|
            {
                let force = letter_given(texts(args@), false, 'f');
                let failed = Seq::new(
                    results.len(),
                    |i: int|
                        if results[i] is Ok || force {
                            None
                        } else {
                            Some(results[i]->Err_0@)
                        },
                );
                &&& #[trigger] native_removal_run(
                    is_dir,
                    remove_dir_all,
                    remove_file,
                    shell.working_dir@,
                    plain_operands(args),
                    worlds,
                    results,
                )
                &&& worlds.first() == world
                &&& worlds.last() == r.0
                &&& r.1.exit_code == 0 || r.1.exit_code == 1
                &&& r.1.exit_code == 1 <==> !force && exists|i: int|
                    0 <= i < results.len() && (#[trigger] results[i]) is Err
                &&& r.1.stderr@ == failure_lines(
                    "rm: cannot remove '"@,
                    plain_operands(args),
                    failed,
                    results.len() as int,
                )
            },
{
    lemma_plain_operands(args);
    let all = texts(args@);
    let files = rm_files(all);
    lemma_rm_has_work(all);
    law_letters(all, false, 'f');
    let force = rm_given(all).contains('f');
    let (worlds, results) = choose|worlds: Seq<W>, results: Seq<Result<(), String>>|
        {
            &&& #[trigger] native_in_turn(
                is_dir,
                remove_dir_all,
                remove_file,
                shell.working_dir@,
                rm_files(texts(args@)),
                worlds,
                results,
            )
            &&& worlds.first() == world
            &&& worlds.last() == r.0
            &&& rm_report(
                rm_files(texts(args@)),
                native_reasons(rm_given(texts(args@)).contains('f'), results),
                r.1,
            )
        };
    let step = crate::builtins::rm::native_step::<W, D, A, B>(
        is_dir,
        remove_dir_all,
        remove_file,
        shell.working_dir@,
        files,
    );
    assert forall|i: int| 0 <= i < files.len() implies native_removal_step(
        is_dir,
        remove_dir_all,
        remove_file,
        absolute(shell.working_dir@, files[i]),
        worlds[i],
        worlds[i + 1],
        #[trigger] results[i],
    ) by {
        assert(step(i, worlds[i], worlds[i + 1], results[i]));
    }
    let failed = Seq::new(
        results.len(),
        |i: int|
            if results[i] is Ok || force {
                None
            } else {
                Some(results[i]->Err_0@)
            },
    );
    let reasons = native_reasons(force, results);
    assert(failed =~= reasons);
    let n = files.len() as int;
    if any_reason(reasons, n) {
        let i = choose|i: int| 0 <= i < n && (#[trigger] reasons[i]) is Some;
        assert(results[i] is Err);
    }
    if !force && exists|i: int| 0 <= i < results.len() && (#[trigger] results[i]) is Err {
        let i = choose|i: int| 0 <= i < results.len() && (#[trigger] results[i]) is Err;
        assert(reasons[i] is Some);
    }
    assert(native_removal_run(
        is_dir,
        remove_dir_all,
        remove_file,
        shell.working_dir@,
        files,
        worlds,
        results,
    ));
}

/// Whether making directories can lead through the worlds, one after the other.
pub open spec fn making_run<W, M: Fn(W, &str) -> W>(
    hook: VfsHook<M>,
    working_dir: Seq<char>,
    dirs: Seq<Seq<char>>,
    worlds: Seq<W>,
) -> bool {
    &&& worlds.len() == dirs.len() + 1
    &&& forall|i: int|
        0 <= i < dirs.len() ==> makes(
            hook,
            #[trigger] worlds[i],
            absolute(working_dir, dirs[i]),
            worlds[i + 1],
        )
}

/// Whether all options are `-p` or `--parents`.
pub open spec fn only_parents(args: Vec<String>) -> bool {
    forall|i: int|
        1 <= i < args@.len() && (#[trigger] args@[i])@.len() > 0 && args@[i]@[0] == '-'
            ==> args@[i]@ == "-p"@ || args@[i]@ == "--parents"@
}

proof fn lemma_mkdir_has_work(args: Vec<String>)
    requires
        only_parents(args),
        dashless_operands(args).len() > 0,
    ensures
        mkdir_has_work(texts(args@)),
        mkdir_dirs(texts(args@)) == dashless_operands(args),
{
    lemma_dashless_operands(args);
    let all = texts(args@);
    assert forall|k: int| 1 <= k < all.len() implies !crate::builtins::mkdir::mkdir_unknown(
        #[trigger] all[k],
    ) by {
        assert(args@[k]@ == all[k]);
    }
}

/// `mkdir` makes all its directories in their order and says nothing.
pub proof fn law_mkdir_makes_its_directories<H, W, M: Fn(W, &str) -> W>(
    shell: &Shell<H>,
    hook: &VfsHook<M>,
    world: W,
    args: Vec<String>,
    r: (W, CommandOutput),
)
    requires
        call_ensures(MkdirBuiltin::execute::<H, W, M>, (shell, hook, world, &args), r),
        only_parents(args),
        dashless_operands(args).len() > 0,
    ensures
        r.1.stdout@.len() == 0,
        r.1.stderr@.len() == 0,
        r.1.exit_code == 0,
        exists|worlds: Seq<W>|
            {
                &&& #[trigger] making_run(
                    *hook,
                    shell.working_dir@,
                    dashless_operands(args),
                    worlds,
                )
                &&& worlds.first() == world
                &&& worlds.last() == r.0
            },
{
    lemma_mkdir_has_work(args);
    let dirs = mkdir_dirs(texts(args@));
    let worlds = choose|worlds: Seq<W>|
        {
            &&& #[trigger] made_in_turn(
                *hook,
                shell.working_dir@,
                mkdir_dirs(texts(args@)),
                worlds,
            )
            &&& worlds.first() == world
            &&& worlds.last() == r.0
        };
    let step = making::<W, M>(*hook, shell.working_dir@, dirs);
    let nothing = Seq::new(dirs.len(), |i: int| ());
    assert forall|i: int| 0 <= i < dirs.len() implies makes(
        *hook,
        #[trigger] worlds[i],
        absolute(shell.working_dir@, dirs[i]),
        worlds[i + 1],
    ) by {
        assert(step(i, worlds[i], worlds[i + 1], nothing[i]));
    }
    assert(making_run(*hook, shell.working_dir@, dirs, worlds));
}

/// Whether making a native directory can lead from one world to the next.
pub open spec fn native_making_step<W, C: Fn(W, &str, bool) -> (W, Result<(), String>)>(
    create_dir: C,
    parents: bool,
    path: Seq<char>,
    from: W,
    to: W,
    result: Result<(), String>,
) -> bool {
    exists|p: &str|
        p@ == path && #[trigger] call_ensures(create_dir, (from, p, parents), (to, result))
}

/// Whether making native directories can lead through the worlds, with these
/// results.
pub open spec fn native_making_run<W, C: Fn(W, &str, bool) -> (W, Result<(), String>)>(
    create_dir: C,
    parents: bool,
    working_dir: Seq<char>,
    dirs: Seq<Seq<char>>,
    worlds: Seq<W>,
    results: Seq<Result<(), String>>,
) -> bool {
    &&& worlds.len() == dirs.len() + 1
    &&& results.len() == dirs.len()
    &&& forall|i: int|
        0 <= i < dirs.len() ==> native_making_step(
            create_dir,
            parents,
            absolute(working_dir, dirs[i]),
            worlds[i],
            worlds[i + 1],
            #[trigger] results[i],
        )
}

/// Without a virtual file system `mkdir` makes all its directories in their
/// order, with their parents exactly when `-p` or `--parents` is given. It fails
/// exactly when one of them could not be made, and says so of each.
pub proof fn law_mkdir_makes_native_directories<
    H,
    W,
    C: Fn(W, &str, bool) -> (W, Result<(), String>),
>(
    shell: &Shell<H>,
    create_dir: C,
    world: W,
    args: Vec<String>,
    r: (W, CommandOutput),
)
    requires
        call_ensures(
            MkdirBuiltin::execute_native::<H, W, C>,
            (shell, create_dir, world, &args),
            r,
        ),
        only_parents(args),
        dashless_operands(args).len() > 0,
    ensures
        r.1.stdout@.len() == 0,
        exists|worlds: Seq<W>, results: Seq<Result<(), String>>|
            {
                let failed = Seq::new(
                    results.len(),
                    |i: int|
                        if results[i] is Ok {
                            None
                        } else {
                            Some(results[i]->Err_0@)
                        },
                );
                &&& #[trigger] native_making_run(
                    create_dir,
                    option_given(args, "-p"@, "--parents"@),
                    shell.working_dir@,
                    dashless_operands(args),
                    worlds,
                    results,
                )
                &&& worlds.first() == world
                &&& worlds.last() == r.0
                &&& r.1.exit_code == 0 || r.1.exit_code == 1
                &&& r.1.exit_code == 1 <==> exists|i: int|
                    0 <= i < results.len() && (#[trigger] results[i]) is Err
                &&& r.1.stderr@ == failure_lines(
                    "mkdir: cannot create directory '"@,
                    dashless_operands(args),
                    failed,
                    results.len() as int,
                )
            },
{
    lemma_mkdir_has_work(args);
    lemma_either(args, "-p"@, "--parents"@);
    let parents = has_either(texts(args@), "-p"@, "--parents"@);
    let dirs = mkdir_dirs(texts(args@));
    let (worlds, results) = choose|worlds: Seq<W>, results: Seq<Result<(), String>>|
        {
            &&& #[trigger] native_made_in_turn(
                create_dir,
                has_either(texts(args@), "-p"@, "--parents"@),
                shell.working_dir@,
                mkdir_dirs(texts(args@)),
                worlds,
                results,
            )
            &&& worlds.first() == world
            &&& worlds.last() == r.0
            &&& r.1.is(
                Seq::empty(),
                failure_lines(
                    "mkdir: cannot create directory '"@,
                    mkdir_dirs(texts(args@)),
                    reasons_of(results),
                    results.len() as int,
                ),
                if any_reason(reasons_of(results), results.len() as int) {
                    1
                } else {
                    0
                },
            )
        };
    let step = crate::builtins::mkdir::native_step::<W, C>(
        create_dir,
        parents,
        shell.working_dir@,
        dirs,
    );
    assert forall|i: int| 0 <= i < dirs.len() implies native_making_step(
        create_dir,
        parents,
        absolute(shell.working_dir@, dirs[i]),
        worlds[i],
        worlds[i + 1],
        #[trigger] results[i],
    ) by {
        assert(step(i, worlds[i], worlds[i + 1], results[i]));
    }
    let failed = Seq::new(
        results.len(),
        |i: int|
            if results[i] is Ok {
                None
            } else {
                Some(results[i]->Err_0@)
            },
    );
    let reasons = reasons_of(results);
    assert(failed =~= reasons);
    let n = results.len() as int;
    if any_reason(reasons, n) {
        let i = choose|i: int| 0 <= i < n && (#[trigger] reasons[i]) is Some;
        assert(results[i] is Err);
    }
    if exists|i: int| 0 <= i < results.len() && (#[trigger] results[i]) is Err {
        let i = choose|i: int| 0 <= i < results.len() && (#[trigger] results[i]) is Err;
        assert(reasons[i] is Some);
    }
    assert(native_making_run(create_dir, parents, shell.working_dir@, dirs, worlds, results));
}

/// Whether the file at `from` can be read whole, written to `to` and after that
/// be removed.
pub open spec fn copied_and_removed<
    W,
    F,
    O: Fn(W, &str, bool, bool, bool, bool) -> (W, Result<F, IoError>),
    I: Fn(W, F) -> (W, Result<Vec<u8>, IoError>),
    P: Fn(W, F, &Vec<u8>) -> (W, Result<(), IoError>),
    R: Fn(W, &str) -> (W, bool),
>(
    open_hook: VfsHook<O>,
    read_to_end: I,
    write_all: P,
    remove_hook: VfsHook<R>,
    from: Seq<char>,
    to: Seq<char>,
    world: W,
    after: W,
) -> bool {
    exists|
        w1: W,
        source: F,
        w2: W,
        bytes: Vec<u8>,
        w3: W,
        target: F,
        w4: W,
        removed: bool,
    |
        {
            &&& #[trigger] opens(open_hook, world, from, reading(), w1, Ok(source))
            &&& #[trigger] call_ensures(read_to_end, (w1, source), (w2, Ok(bytes)))
            &&& #[trigger] opens(open_hook, w2, to, writing(false), w3, Ok(target))
            &&& #[trigger] call_ensures(write_all, (w3, target, &bytes), (w4, Ok(())))
            &&& #[trigger] removes(remove_hook, w4, from, after, removed)
        }
}

/// A move that succeeds has read the whole file from its old place, opened the
/// new one for writing from its beginning, written all that was read, and only
/// after that asked to remove the old one.
pub proof fn law_move_copies_and_removes<
    H,
    W,
    F,
    O: Fn(W, &str, bool, bool, bool, bool) -> (W, Result<F, IoError>),
    I: Fn(W, F) -> (W, Result<Vec<u8>, IoError>),
    P: Fn(W, F, &Vec<u8>) -> (W, Result<(), IoError>),
    R: Fn(W, &str) -> (W, bool),
>(
    shell: &Shell<H>,
    open_hook: &VfsHook<O>,
    read_to_end: I,
    write_all: P,
    remove_hook: &VfsHook<R>,
    world: W,
    args: Vec<String>,
    r: (W, CommandOutput),
)
    requires
        call_ensures(
            MvBuiltin::execute::<H, W, F, O, I, P, R>,
            (shell, open_hook, read_to_end, write_all, remove_hook, world, &args),
            r,
        ),
        plain_operands(args).len() == 2,
    ensures
        r.1.stdout@.len() == 0,
        r.1.exit_code == 0 || r.1.exit_code == 1,
        r.1.exit_code == 0 ==> {
            &&& r.1.stderr@.len() == 0
            &&& copied_and_removed::<W, F, O, I, P, R>(
                *open_hook,
                read_to_end,
                write_all,
                *remove_hook,
                absolute(shell.working_dir@, plain_operands(args)[0]),
                absolute(shell.working_dir@, plain_operands(args)[1]),
                world,
                r.0,
            )
        },
{
    lemma_plain_operands(args);
    let list = plain_operands(args);
    assert(mv_operands(texts(args@)) == list);
    let from = absolute(shell.working_dir@, list[0]);
    let to = absolute(shell.working_dir@, list[1]);
    let after = r.0;
    let out = r.1;
    let (w1, opened) = choose|w1: W, opened: Result<F, IoError>|
        {
            &&& #[trigger] opens(*open_hook, world, from, reading(), w1, opened)
            &&& match opened {
                Err(e) => after == w1 && mv_failure("mv: cannot stat '"@, list[0], e, out),
                Ok(file) => exists|w2: W, content: Result<Vec<u8>, IoError>|
                    {
                        &&& #[trigger] call_ensures(read_to_end, (w1, file), (w2, content))
                        &&& match content {
                            Err(e) => after == w2 && mv_failure(
                                "mv: cannot read '"@,
                                list[0],
                                e,
                                out,
                            ),
                            Ok(bytes) => stored::<W, F, O, P, R>(
                                *open_hook,
                                write_all,
                                *remove_hook,
                                list[1],
                                from,
                                to,
                                bytes,
                                w2,
                                after,
                                out,
                            ),
                        }
                    },
            }
        };
    match opened {
        Err(e) => {},
        Ok(file) => {
            let (w2, content) = choose|w2: W, content: Result<Vec<u8>, IoError>|
                {
                    &&& #[trigger] call_ensures(read_to_end, (w1, file), (w2, content))
                    &&& match content {
                        Err(e) => after == w2 && mv_failure(
                            "mv: cannot read '"@,
                            list[0],
                            e,
                            out,
                        ),
                        Ok(bytes) => stored::<W, F, O, P, R>(
                            *open_hook,
                            write_all,
                            *remove_hook,
                            list[1],
                            from,
                            to,
                            bytes,
                            w2,
                            after,
                            out,
                        ),
                    }
                };
            if let Ok(bytes) = content {
                let (w3, target) = choose|w3: W, target: Result<F, IoError>|
                    {
                        &&& #[trigger] opens(*open_hook, w2, to, writing(false), w3, target)
                        &&& match target {
                            Err(e) => after == w3 && mv_failure(
                                "mv: cannot create '"@,
                                list[1],
                                e,
                                out,
                            ),
                            Ok(file) => exists|w4: W, written: Result<(), IoError>|
                                {
                                    &&& #[trigger] call_ensures(
                                        write_all,
                                        (w3, file, &bytes),
                                        (w4, written),
                                    )
                                    &&& match written {
                                        Err(e) => after == w4 && mv_failure(
                                            "mv: cannot write '"@,
                                            list[1],
                                            e,
                                            out,
                                        ),
                                        Ok(()) => {
                                            &&& exists|removed: bool| #[trigger]
                                                removes(*remove_hook, w4, from, after, removed)
                                            &&& out.is(Seq::empty(), Seq::empty(), 0)
                                        },
                                    }
                                },
                        }
                    };
                if let Ok(file2) = target {
                    let (w4, written) = choose|w4: W, written: Result<(), IoError>|
                        {
                            &&& #[trigger] call_ensures(
                                write_all,
                                (w3, file2, &bytes),
                                (w4, written),
                            )
                            &&& match written {
                                Err(e) => after == w4 && mv_failure(
                                    "mv: cannot write '"@,
                                    list[1],
                                    e,
                                    out,
                                ),
                                Ok(()) => {
                                    &&& exists|removed: bool| #[trigger]
                                        removes(*remove_hook, w4, from, after, removed)
                                    &&& out.is(Seq::empty(), Seq::empty(), 0)
                                },
                            }
                        };
                    if let Ok(done) = written {
                        assert(done == ());
                        let removed = choose|removed: bool| #[trigger]
                            removes(*remove_hook, w4, from, after, removed);
                        assert(opens(*open_hook, world, from, reading(), w1, Ok(file)));
                        assert(call_ensures(read_to_end, (w1, file), (w2, Ok(bytes))));
                        assert(opens(*open_hook, w2, to, writing(false), w3, Ok(file2)));
                        assert(call_ensures(write_all, (w3, file2, &bytes), (w4, Ok(()))));
                        assert(removes(*remove_hook, w4, from, r.0, removed));
                    }
                }
            }
        },
    }
}

/// A move that fails says which step failed, of the file that the step was
/// about, and why.
pub proof fn law_failed_move_says_why<
    W,
    F,
    O: Fn(W, &str, bool, bool, bool, bool) -> (W, Result<F, IoError>),
    I: Fn(W, F) -> (W, Result<Vec<u8>, IoError>),
    P: Fn(W, F, &Vec<u8>) -> (W, Result<(), IoError>),
    R: Fn(W, &str) -> (W, bool),
>(
    open_hook: VfsHook<O>,
    read_to_end: I,
    write_all: P,
    remove_hook: VfsHook<R>,
    source: Seq<char>,
    target: Seq<char>,
    from: Seq<char>,
    to: Seq<char>,
    world: W,
    after: W,
    out: CommandOutput,
)
    requires
        moved::<W, F, O, I, P, R>(
            open_hook,
            read_to_end,
            write_all,
            remove_hook,
            source,
            target,
            from,
            to,
            world,
            after,
            out,
        ),
        out.exit_code != 0,
    ensures
        out.exit_code == 1,
        out.stdout@.len() == 0,
        ({
            ||| exists|e: IoError|
                {
                    &&& #[trigger] says(out.stderr@, "mv: cannot stat '"@, source, e)
                    &&& opens::<W, F, O>(open_hook, world, from, reading(), after, Err(e))
                }
            ||| exists|e: IoError, w: W, file: F|
                {
                    &&& #[trigger] says(out.stderr@, "mv: cannot read '"@, source, e)
                    &&& #[trigger] call_ensures(read_to_end, (w, file), (after, Err(e)))
                }
            ||| exists|e: IoError, w: W|
                {
                    &&& #[trigger] says(out.stderr@, "mv: cannot create '"@, target, e)
                    &&& #[trigger] opens::<W, F, O>(
                        open_hook,
                        w,
                        to,
                        writing(false),
                        after,
                        Err(e),
                    )
                }
            ||| exists|e: IoError, w: W, file: F, bytes: Vec<u8>|
                {
                    &&& #[trigger] says(out.stderr@, "mv: cannot write '"@, target, e)
                    &&& #[trigger] call_ensures(write_all, (w, file, &bytes), (after, Err(e)))
                }
        }),
{
    let (w1, opened) = choose|w1: W, opened: Result<F, IoError>|
        {
            &&& #[trigger] opens(open_hook, world, from, reading(), w1, opened)
            &&& match opened {
                Err(e) => after == w1 && mv_failure("mv: cannot stat '"@, source, e, out),
                Ok(file) => exists|w2: W, content: Result<Vec<u8>, IoError>|
                    {
                        &&& #[trigger] call_ensures(read_to_end, (w1, file), (w2, content))
                        &&& match content {
                            Err(e) => after == w2 && mv_failure(
                                "mv: cannot read '"@,
                                source,
                                e,
                                out,
                            ),
                            Ok(bytes) => stored::<W, F, O, P, R>(
                                open_hook,
                                write_all,
                                remove_hook,
                                target,
                                from,
                                to,
                                bytes,
                                w2,
                                after,
                                out,
                            ),
                        }
                    },
            }
        };
    match opened {
        Err(e) => {
            assert(says(out.stderr@, "mv: cannot stat '"@, source, e));
        },
        Ok(file) => {
            let (w2, content) = choose|w2: W, content: Result<Vec<u8>, IoError>|
                {
                    &&& #[trigger] call_ensures(read_to_end, (w1, file), (w2, content))
                    &&& match content {
                        Err(e) => after == w2 && mv_failure(
                            "mv: cannot read '"@,
                            source,
                            e,
                            out,
                        ),
                        Ok(bytes) => stored::<W, F, O, P, R>(
                            open_hook,
                            write_all,
                            remove_hook,
                            target,
                            from,
                            to,
                            bytes,
                            w2,
                            after,
                            out,
                        ),
                    }
                };
            match content {
                Err(e) => {
                    assert(says(out.stderr@, "mv: cannot read '"@, source, e));
                    assert(call_ensures(read_to_end, (w1, file), (after, Err(e))));
                },
                Ok(bytes) => {
                    lemma_failed_store_says_why::<W, F, O, P, R>(
                        open_hook,
                        write_all,
                        remove_hook,
                        target,
                        from,
                        to,
                        bytes,
                        w2,
                        after,
                        out,
                    );
                },
            }
        },
    }
}

proof fn lemma_failed_store_says_why<
    W,
    F,
    O: Fn(W, &str, bool, bool, bool, bool) -> (W, Result<F, IoError>),
    P: Fn(W, F, &Vec<u8>) -> (W, Result<(), IoError>),
    R: Fn(W, &str) -> (W, bool),
>(
    open_hook: VfsHook<O>,
    write_all: P,
    remove_hook: VfsHook<R>,
    target: Seq<char>,
    from: Seq<char>,
    to: Seq<char>,
    bytes: Vec<u8>,
    world: W,
    after: W,
    out: CommandOutput,
)
    requires
        stored::<W, F, O, P, R>(
            open_hook,
            write_all,
            remove_hook,
            target,
            from,
            to,
            bytes,
            world,
            after,
            out,
        ),
        out.exit_code != 0,
    ensures
        out.exit_code == 1,
        out.stdout@.len() == 0,
        ({
            ||| exists|e: IoError, w: W|
                {
                    &&& #[trigger] says(out.stderr@, "mv: cannot create '"@, target, e)
                    &&& #[trigger] opens::<W, F, O>(
                        open_hook,
                        w,
                        to,
                        writing(false),
                        after,
                        Err(e),
                    )
                }
            ||| exists|e: IoError, w: W, file: F, bytes: Vec<u8>|
                {
                    &&& #[trigger] says(out.stderr@, "mv: cannot write '"@, target, e)
                    &&& #[trigger] call_ensures(write_all, (w, file, &bytes), (after, Err(e)))
                }
        }),
{
    let (w3, opened) = choose|w3: W, opened: Result<F, IoError>|
        {
            &&& #[trigger] opens(open_hook, world, to, writing(false), w3, opened)
            &&& match opened {
                Err(e) => after == w3 && mv_failure("mv: cannot create '"@, target, e, out),
                Ok(file) => exists|w4: W, written: Result<(), IoError>|
                    {
                        &&& #[trigger] call_ensures(write_all, (w3, file, &bytes), (w4, written))
                        &&& match written {
                            Err(e) => after == w4 && mv_failure(
                                "mv: cannot write '"@,
                                target,
                                e,
                                out,
                            ),
                            Ok(()) => {
                                &&& exists|removed: bool| #[trigger]
                                    removes(remove_hook, w4, from, after, removed)
                                &&& out.is(Seq::empty(), Seq::empty(), 0)
                            },
                        }
                    },
            }
        };
    match opened {
        Err(e) => {
            assert(says(out.stderr@, "mv: cannot create '"@, target, e));
            assert(opens::<W, F, O>(open_hook, world, to, writing(false), after, Err(e)));
        },
        Ok(file) => {
            let (w4, written) = choose|w4: W, written: Result<(), IoError>|
                {
                    &&& #[trigger] call_ensures(write_all, (w3, file, &bytes), (w4, written))
                    &&& match written {
                        Err(e) => after == w4 && mv_failure(
                            "mv: cannot write '"@,
                            target,
                            e,
                            out,
                        ),
                        Ok(()) => {
                            &&& exists|removed: bool| #[trigger]
                                removes(remove_hook, w4, from, after, removed)
                            &&& out.is(Seq::empty(), Seq::empty(), 0)
                        },
                    }
                };
            let e = written->Err_0;
            assert(says(out.stderr@, "mv: cannot write '"@, target, e));
            assert(call_ensures(write_all, (w3, file, &bytes), (after, Err(e))));
        },
    }
}

/// Whether the message says this of the item and gives the error.
pub open spec fn says(message: Seq<char>, what: Seq<char>, item: Seq<char>, e: IoError) -> bool {
    message == what + item + "': "@ + e.message@ + "\n"@
}

/// With more or fewer than two operands nothing is moved, and the message says
/// how many there are.
pub proof fn law_move_takes_two_operands<
    H,
    W,
    F,
    O: Fn(W, &str, bool, bool, bool, bool) -> (W, Result<F, IoError>),
    I: Fn(W, F) -> (W, Result<Vec<u8>, IoError>),
    P: Fn(W, F, &Vec<u8>) -> (W, Result<(), IoError>),
    R: Fn(W, &str) -> (W, bool),
>(
    shell: &Shell<H>,
    open_hook: &VfsHook<O>,
    read_to_end: I,
    write_all: P,
    remove_hook: &VfsHook<R>,
    world: W,
    args: Vec<String>,
    r: (W, CommandOutput),
)
    requires
        call_ensures(
            MvBuiltin::execute::<H, W, F, O, I, P, R>,
            (shell, open_hook, read_to_end, write_all, remove_hook, world, &args),
            r,
        ),
        plain_operands(args).len() != 2,
    ensures
        r.0 == world,
        r.1.exit_code == 1,
        r.1.stdout@.len() == 0,
        r.1.stderr@ == "mv: expected 2 arguments, got "@ + decimal(plain_operands(args).len())
            + "\n"@,
{
    lemma_plain_operands(args);
}

/// Without a virtual file system a move is one renaming, from the absolute form
/// of the first operand to that of the second, and fails exactly when that does.
pub proof fn law_native_move_renames<
    H,
    W,
    N: Fn(W, &str, &str) -> (W, Result<(), String>),
>(shell: &Shell<H>, rename: N, world: W, args: Vec<String>, r: (W, CommandOutput))
    requires
        call_ensures(MvBuiltin::execute_native::<H, W, N>, (shell, rename, world, &args), r),
    ensures
        r.1.stdout@.len() == 0,
        plain_operands(args).len() != 2 ==> {
            &&& r.0 == world
            &&& r.1.exit_code == 1
            &&& r.1.stderr@ == "mv: expected 2 arguments, got "@ + decimal(
                plain_operands(args).len(),
            ) + "\n"@
        },
        plain_operands(args).len() == 2 ==> exists|p: &str, q: &str, result: Result<(), String>|
            {
                let list = plain_operands(args);
                &&& p@ == absolute(shell.working_dir@, list[0])
                &&& q@ == absolute(shell.working_dir@, list[1])
                &&& #[trigger] call_ensures(rename, (world, p, q), (r.0, result))
                &&& result is Ok ==> r.1.exit_code == 0 && r.1.stderr@.len() == 0
                &&& result matches Err(e) ==> {
                    &&& r.1.exit_code == 1
                    &&& r.1.stderr@ == "mv: cannot move '"@ + list[0] + "' to '"@ + list[1]
                        + "': "@ + e@ + "\n"@
                }
            },
{
    lemma_plain_operands(args);
    let list = plain_operands(args);
    if list.len() == 2 {
        let from = absolute(shell.working_dir@, list[0]);
        let to = absolute(shell.working_dir@, list[1]);
        assert(native_moved(rename, list[0], list[1], from, to, world, r.0, r.1));
        let result = choose|result: Result<(), String>|
            {
                &&& #[trigger] renamed(rename, world, from, to, r.0, result)
                &&& match result {
                    Ok(()) => r.1.is(Seq::empty(), Seq::empty(), 0),
                    Err(e) => r.1.is(
                        Seq::empty(),
                        failure_line("mv: cannot move '"@ + list[0] + "' to '"@, list[1], e@),
                        1,
                    ),
                }
            };
        let (p, q) = choose|p: &str, q: &str|
            {
                &&& p@ == from
                &&& q@ == to
                &&& #[trigger] call_ensures(rename, (world, p, q), (r.0, result))
            };
        assert(call_ensures(rename, (world, p, q), (r.0, result)));
    }
}

/// A utility is run once, on all arguments, and its code is reported by its low
/// eight bits.
pub proof fn law_utility_is_run_once<W, U: Fn(W, &Vec<String>) -> (W, i32)>(
    utility: U,
    world: W,
    args: Vec<String>,
    r: (W, u8),
)
    requires
        call_ensures(run_utility::<W, U>, (utility, world, &args), r) || call_ensures(
            GrepBuiltin::execute::<W, U>,
            (utility, world, &args),
            r,
        ) || call_ensures(FindBuiltin::execute_native::<W, U>, (utility, world, &args), r),
    ensures
        exists|code: i32|
            {
                &&& #[trigger] call_ensures(utility, (world, &args), (r.0, code))
                &&& 0 <= code < 256 ==> r.1 == code
                &&& (code - r.1) % 256 == 0
            },
{
    let code = choose|code: i32|
        {
            &&& #[trigger] call_ensures(utility, (world, &args), (r.0, code))
            &&& r.1 == code as int % 256
        };
    assert(call_ensures(utility, (world, &args), (r.0, code)));
}

/// What `find` sees of a directory is what the hook lists at the absolute form
/// of the path, entry by entry.
pub proof fn law_find_sees_what_is_listed<
    H,
    W,
    L: Fn(&W, &str) -> Option<Vec<VfsDirEntry>>,
>(
    shell: &Shell<H>,
    hook: &VfsHook<L>,
    list: L,
    world: &W,
    path: &str,
    r: Result<Vec<VfsEntry>, String>,
)
    requires
        call_ensures(FindBuiltin::list_directory::<H, W, L>, (shell, hook, world, path), r),
        hook.callback == Some(list),
    ensures
        exists|p: &str, listing: Option<Vec<VfsDirEntry>>|
            {
                &&& p@ == absolute(shell.working_dir@, path@)
                &&& #[trigger] call_ensures(list, (world, p), listing)
                &&& r is Ok <==> listing is Some
                &&& r matches Ok(entries) ==> {
                    &&& entries@.len() == listing->0@.len()
                    &&& forall|i: int|
                        0 <= i < entries@.len() ==> {
                            let found = listing->0@[i];
                            &&& (#[trigger] entries@[i]).name@ == found.0@
                            &&& entries@[i].size == found.1
                            &&& entries@[i].is_dir == found.2
                            &&& entries@[i].modified_ms == found.3
                        }
                }
                &&& r matches Err(message) ==> message@ == "cannot access '"@ + path@
                    + "': No such file or directory"@
            },
{
    let place = absolute(shell.working_dir@, path@);
    let listing = choose|listing: Option<Vec<VfsDirEntry>>|
        {
            &&& #[trigger] answers(*hook, *world, place, None, listing)
            &&& match (r, listing) {
                (Ok(entries), Some(found)) => found_views(entries@) == entry_views(found@),
                (Err(message), None) => message@ == "cannot access '"@ + path@
                    + "': No such file or directory"@,
                _ => false,
            }
        };
    let p = choose|p: &str| p@ == place && #[trigger] call_ensures(list, (world, p), listing);
    assert(call_ensures(list, (world, p), listing));
    if let Ok(entries) = r {
        let found = listing->0@;
        assert(found_views(entries@).len() == entry_views(found).len());
        assert forall|i: int| 0 <= i < entries@.len() implies {
            &&& (#[trigger] entries@[i]).name@ == found[i].0@
            &&& entries@[i].size == found[i].1
            &&& entries@[i].is_dir == found[i].2
            &&& entries@[i].modified_ms == found[i].3
        } by {
            assert(found_views(entries@)[i] == found_view(entries@[i]));
            assert(entry_views(found)[i] == entry_view(found[i]));
        }
    }
}

/// A code from 0 to 255 is reported as it is, and any other by what is left when
/// it is divided by 256.
pub proof fn law_exit_status(code: i32, r: u8)
    requires
        call_ensures(exit_status, (code,), r),
    ensures
        0 <= code < 256 ==> r == code,
        (code - r) % 256 == 0,
{
}

/// `find` runs its engine once, on the shell, the hook, the world, the output
/// and the arguments that it was handed, and reports its code by the low eight
/// bits.
pub proof fn law_find_runs_once<
    H,
    W,
    S,
    L: Fn(&W, &str) -> Option<Vec<VfsDirEntry>>,
    U: Fn(&Shell<H>, &VfsHook<L>, &W, S, &Vec<String>) -> (S, i32),
>(
    shell: &Shell<H>,
    hook: &VfsHook<L>,
    engine: U,
    world: &W,
    output: S,
    args: Vec<String>,
    r: (S, u8),
)
    requires
        call_ensures(
            FindBuiltin::execute::<H, W, S, L, U>,
            (shell, hook, engine, world, output, &args),
            r,
        ),
    ensures
        exists|code: i32|
            {
                &&& #[trigger] call_ensures(
                    engine,
                    (shell, hook, world, output, &args),
                    (r.0, code),
                )
                &&& 0 <= code < 256 ==> r.1 == code
                &&& (code - r.1) % 256 == 0
            },
{
    let code = choose|code: i32|
        {
            &&& #[trigger] call_ensures(
                engine,
                (shell, hook, world, output, &args),
                (r.0, code),
            )
            &&& r.1 == code as int % 256
        };
    assert(call_ensures(engine, (shell, hook, world, output, &args), (r.0, code)));
}

} // verus!
