//! A shell in a page: how it is set up, and what an execution gives back.

use vstd::prelude::*;
use vstd::string::*;
#[allow(unused_imports)]
use vstd::utf8::encode_utf8;

#[allow(unused_imports)]
use crate::builtins::registry::builtin_name;
use crate::builtins::registry::{uutils_builtins, Builtin};
use crate::names::NameTable;
#[allow(unused_imports)]
use crate::open_files::files_by_fd;
use crate::open_files::{OpenFiles, ShellFd};
use crate::streams::{from_utf8_lossy, InMemoryStream};
#[allow(unused_imports)]
use crate::streams::lossy_text;
use crate::vfs::{set_wasm_vfs, set_wasm_vfs_extended, VfsHooks};

verus! {

/// What a standard descriptor is connected to.
#[derive(Clone, Copy, Debug, PartialEq, Eq, Structural)]
pub enum StandardStream {
    /// Input that ends at once.
    EmptyInput,
    /// The captured standard output.
    CapturedStdout,
    /// The captured standard error.
    CapturedStderr,
}

/// The commands that are built into the shell.
#[derive(Clone, Copy, Debug, PartialEq, Eq, Structural)]
pub enum BuiltinSet {
    /// All builtins of Bash.
    BashMode,
}

/// How the interpreter is set up.
#[derive(Debug)]
pub struct ShellConfig {
    pub interactive: bool,
    pub load_profile: bool,
    pub load_rc: bool,
    pub inherit_env: bool,
    pub skip_well_known_vars: bool,
    pub command_string_mode: bool,
    pub working_dir: String,
    pub default_builtins: BuiltinSet,
}

/// The result of a script.
#[derive(Debug)]
pub struct ExecResult {
    pub stdout: String,
    pub stderr: String,
    pub exit_code: u8,
}

/// A shell with captured output.
pub struct BrushShell {
    pub config: ShellConfig,
    /// The commands beside the builtins of the set, by their names.
    pub builtins: NameTable<Builtin>,
    pub open_files: OpenFiles<StandardStream>,
    pub stdout_stream: InMemoryStream,
    pub stderr_stream: InMemoryStream,
}

/// Whether the result is made of these bytes and this exit code. Bytes that
/// encode a text give that text.
pub open spec fn result_of(
    result: ExecResult,
    stdout: Seq<u8>,
    stderr: Seq<u8>,
    exit_code: u8,
) -> bool {
    &&& result.exit_code == exit_code
    &&& result.stdout@ == lossy_text(stdout)
    &&& result.stderr@ == lossy_text(stderr)
    &&& forall|t: Seq<char>| stdout == #[trigger] encode_utf8(t) ==> result.stdout@ == t
    &&& forall|t: Seq<char>| stderr == #[trigger] encode_utf8(t) ==> result.stderr@ == t
}

/// The text of captured bytes.
fn captured_text(bytes: &Vec<u8>) -> (s: String)
    ensures
        s@ == lossy_text(bytes@),
        forall|t: Seq<char>| bytes@ == #[trigger] encode_utf8(t) ==> s@ == t,
{
    let s = from_utf8_lossy(bytes.as_slice());
    assert forall|t: Seq<char>| bytes@ == #[trigger] encode_utf8(t) implies s@ == t by {
        vstd::utf8::encode_utf8_valid_utf8(t);
        vstd::utf8::encode_utf8_decode_utf8(t);
    }
    s
}

impl BrushShell {
    /// A shell for a page: not interactive, without profile, rc file and
    /// inherited environment, in the root directory, with all builtins, empty
    /// input and captured output. The callbacks are registered as its file
    /// system.
    pub fn create<O, E, L, R, S, M>(
        hooks: &mut VfsHooks<O, E, L, R, S, M>,
        open_fn: O,
        exists_fn: E,
        list_dir_fn: L,
        remove_fn: R,
        stat_fn: S,
        mkdir_fn: M,
    ) -> (shell: BrushShell)
        ensures
            final(hooks).open.callback == Some(open_fn),
            final(hooks).exists.callback == Some(exists_fn),
            final(hooks).list_dir.callback == Some(list_dir_fn),
            final(hooks).remove.callback == Some(remove_fn),
            final(hooks).stat.callback == Some(stat_fn),
            final(hooks).mkdir.callback == Some(mkdir_fn),
            shell.config.default_builtins == BuiltinSet::BashMode,
            forall|b: Builtin| #[trigger] shell.builtins.lookup(builtin_name(b)) == Some(b),
            forall|n: Seq<char>| #[trigger]
                shell.builtins.lookup(n) matches Some(b) ==> n == builtin_name(b),
            !shell.config.interactive,
            !shell.config.load_profile,
            !shell.config.load_rc,
            !shell.config.inherit_env,
            !shell.config.skip_well_known_vars,
            shell.config.command_string_mode,
            shell.config.working_dir@ == "/"@,
            shell.open_files@ == map![
                0i32 => StandardStream::EmptyInput,
                1i32 => StandardStream::CapturedStdout,
                2i32 => StandardStream::CapturedStderr,
            ],
            shell.stdout_stream.buf@.len() == 0,
            shell.stderr_stream.buf@.len() == 0,
    {
        set_wasm_vfs(&mut hooks.open, &mut hooks.exists, open_fn, exists_fn);
        set_wasm_vfs_extended(
            &mut hooks.list_dir,
            &mut hooks.remove,
            &mut hooks.stat,
            &mut hooks.mkdir,
            list_dir_fn,
            remove_fn,
            stat_fn,
            mkdir_fn,
        );
        let mut fds: Vec<(ShellFd, StandardStream)> = Vec::new();
        fds.push((0, StandardStream::EmptyInput));
        fds.push((1, StandardStream::CapturedStdout));
        fds.push((2, StandardStream::CapturedStderr));
        proof {
            reveal_with_fuel(files_by_fd, 4);
            let s = fds@;
            assert(s.drop_last().drop_last().drop_last() =~= Seq::empty());
            assert(files_by_fd(s) =~= map![
                0i32 => StandardStream::EmptyInput,
                1i32 => StandardStream::CapturedStdout,
                2i32 => StandardStream::CapturedStderr,
            ]);
        }
        BrushShell {
            config: ShellConfig {
                interactive: false,
                load_profile: false,
                load_rc: false,
                inherit_env: false,
                skip_well_known_vars: false,
                command_string_mode: true,
                working_dir: "/".to_owned(),
                default_builtins: BuiltinSet::BashMode,
            },
            builtins: uutils_builtins(),
            open_files: OpenFiles::from_fds(fds),
            stdout_stream: InMemoryStream::new(),
            stderr_stream: InMemoryStream::new(),
        }
    }

    /// Prepares the execution of a script: what an earlier one left in the
    /// captured outputs is forgotten.
    pub fn begin_execution(&mut self)
        ensures
            final(self).stdout_stream.buf@.len() == 0,
            final(self).stderr_stream.buf@.len() == 0,
            final(self).config == old(self).config,
            final(self).builtins == old(self).builtins,
            final(self).open_files == old(self).open_files,
    {
        self.stdout_stream.take_contents();
        self.stderr_stream.take_contents();
    }

    /// Ends the execution of a script. Where the interpreter gave an exit code,
    /// the captured outputs are taken and make up the result; otherwise they
    /// stay as they are.
    pub fn finish_execution(&mut self, outcome: Result<u8, String>) -> (r: Result<
        ExecResult,
        String,
    >)
        ensures
            final(self).config == old(self).config,
            final(self).builtins == old(self).builtins,
            final(self).open_files == old(self).open_files,
            match (outcome, r) {
                (Ok(code), Ok(result)) => {
                    &&& result.exit_code == code
                    &&& result.stdout@ == lossy_text(old(self).stdout_stream.buf@)
                    &&& result.stderr@ == lossy_text(old(self).stderr_stream.buf@)
                    &&& result_of(
                        result,
                        old(self).stdout_stream.buf@,
                        old(self).stderr_stream.buf@,
                        code,
                    )
                    &&& final(self).stdout_stream.buf@.len() == 0
                    &&& final(self).stderr_stream.buf@.len() == 0
                },
                (Err(e), Err(message)) => {
                    &&& message@ == "Execution error: "@ + e@
                    &&& *final(self) == *old(self)
                },
                _ => false,
            },
    {
        match outcome {
            Ok(exit_code) => {
                let stdout = self.stdout_stream.take_contents();
                let stderr = self.stderr_stream.take_contents();
                Ok(
                    ExecResult {
                        stdout: captured_text(&stdout),
                        stderr: captured_text(&stderr),
                        exit_code,
                    },
                )
            },
            Err(e) => Err("Execution error: ".to_owned().concat(e.as_str())),
        }
    }

    /// Takes the interpreter that was built, or says that none could be.
    pub fn take_interpreter<S>(built: Result<S, String>) -> (r: Result<S, String>)
        ensures
            match (built, r) {
                (Ok(state), Ok(taken)) => taken == state,
                (Err(e), Err(message)) => message@ == "Failed to create shell: "@ + e@,
                _ => false,
            },
    {
        match built {
            Ok(state) => Ok(state),
            Err(e) => Err("Failed to create shell: ".to_owned().concat(e.as_str())),
        }
    }

    /// Executes a script. `run` is the interpreter and `state` its state:
    /// variables, functions and all else that lasts from one script to the
    /// next. It is handed the state and the captured outputs, which are empty,
    /// and gives them back with what the script left and wrote, and the exit
    /// code. The state that the script left is given back.
    pub fn execute<
        S,
        R: Fn(S, InMemoryStream, InMemoryStream, &str) -> (
            S,
            InMemoryStream,
            InMemoryStream,
            Result<u8, String>,
        ),
    >(&mut self, state: S, script: &str, run: R) -> (r: (S, Result<ExecResult, String>))
        requires
            forall|s: S, o: InMemoryStream, e: InMemoryStream, t: &str| #[trigger]
                call_requires(run, (s, o, e, t)),
        ensures
            final(self).config == old(self).config,
            final(self).builtins == old(self).builtins,
            final(self).open_files == old(self).open_files,
            executed(run, state, script@, r.0, r.1, *final(self)),
    {
        self.begin_execution();
        let no_out = InMemoryStream::new();
        let no_err = InMemoryStream::new();
        let (after, out, err, outcome) = run(state, no_out, no_err, script);
        assert(ran(run, state, script@, after, out, err, outcome));
        self.stdout_stream = out;
        self.stderr_stream = err;
        let result = self.finish_execution(outcome);
        (after, result)
    }
}

/// Whether the interpreter can run the script in `state`, with empty outputs,
/// and leave this.
pub open spec fn ran<
    S,
    R: Fn(S, InMemoryStream, InMemoryStream, &str) -> (
        S,
        InMemoryStream,
        InMemoryStream,
        Result<u8, String>,
    ),
>(
    run: R,
    state: S,
    script: Seq<char>,
    after: S,
    out: InMemoryStream,
    err: InMemoryStream,
    outcome: Result<u8, String>,
) -> bool {
    exists|no_out: InMemoryStream, no_err: InMemoryStream, t: &str|
        {
            &&& no_out.buf@.len() == 0
            &&& no_err.buf@.len() == 0
            &&& t@ == script
            &&& #[trigger] call_ensures(
                run,
                (state, no_out, no_err, t),
                (after, out, err, outcome),
            )
        }
}

/// Whether executing the script in `state` can leave the state `after`, the
/// shell `shell`, and give `result`: the script is run once, and what it wrote
/// makes up the result.
pub open spec fn executed<
    S,
    R: Fn(S, InMemoryStream, InMemoryStream, &str) -> (
        S,
        InMemoryStream,
        InMemoryStream,
        Result<u8, String>,
    ),
>(
    run: R,
    state: S,
    script: Seq<char>,
    after: S,
    result: Result<ExecResult, String>,
    shell: BrushShell,
) -> bool {
    exists|out: InMemoryStream, err: InMemoryStream, outcome: Result<u8, String>|
        {
            &&& #[trigger] ran(run, state, script, after, out, err, outcome)
            &&& match (outcome, result) {
                (Ok(code), Ok(r)) => {
                    &&& result_of(r, out.buf@, err.buf@, code)
                    &&& shell.stdout_stream.buf@.len() == 0
                    &&& shell.stderr_stream.buf@.len() == 0
                },
                (Err(e), Err(message)) => {
                    &&& message@ == "Execution error: "@ + e@
                    &&& shell.stdout_stream == out
                    &&& shell.stderr_stream == err
                },
                _ => false,
            }
        }
}

/// The state is retained across executions, also across those that fail: each
/// script runs in the state that the one before it left. So whatever holds of
/// the state after some script, and is kept by the scripts that follow, holds
/// when the next one runs.
pub proof fn lemma_state_is_retained<
    S,
    R: Fn(S, InMemoryStream, InMemoryStream, &str) -> (
        S,
        InMemoryStream,
        InMemoryStream,
        Result<u8, String>,
    ),
>(
    run: R,
    states: Seq<S>,
    scripts: Seq<Seq<char>>,
    results: Seq<Result<ExecResult, String>>,
    shells: Seq<BrushShell>,
    holds: spec_fn(S) -> bool,
    from: int,
    to: int,
)
    requires
        states.len() == scripts.len() + 1,
        results.len() == scripts.len(),
        shells.len() == scripts.len(),
        forall|i: int|
            0 <= i < scripts.len() ==> executed(
                run,
                states[i],
                #[trigger] scripts[i],
                states[i + 1],
                results[i],
                shells[i],
            ),
        0 <= from <= to <= scripts.len(),
        holds(states[from]),
        forall|i: int, a: S, b: S, o: InMemoryStream, e: InMemoryStream, c: Result<u8, String>|
            from <= i < to && holds(a) && #[trigger] ran(run, a, scripts[i], b, o, e, c) ==> holds(b),
    ensures
        holds(states[to]),
    decreases to - from,
{
    if from < to {
        assert(executed(
            run,
            states[from],
            scripts[from],
            states[from + 1],
            results[from],
            shells[from],
        ));
        lemma_state_is_retained(run, states, scripts, results, shells, holds, from + 1, to);
    }
}

} // verus!
