//! Laws of executing scripts.

use vstd::prelude::*;
use vstd::string::*;
#[allow(unused_imports)]
use vstd::utf8::encode_utf8;

#[allow(unused_imports)]
use crate::session::{executed, ran, result_of, BrushShell, ExecResult};
#[allow(unused_imports)]
use crate::streams::{lossy_text, InMemoryStream};

verus! {

/// The exit code of a result is the one that the interpreter reported,
/// whatever the script wrote, and each output is what was captured of it. A
/// captured text is given back as it is.
pub proof fn law_result_is_what_was_captured(
    result: ExecResult,
    stdout: Seq<u8>,
    stderr: Seq<u8>,
    code: u8,
)
    requires
        result_of(result, stdout, stderr, code),
    ensures
        result.exit_code == code,
        result.stdout@ == lossy_text(stdout),
        result.stderr@ == lossy_text(stderr),
        forall|t: Seq<char>| stdout == #[trigger] encode_utf8(t) ==> result.stdout@ == t,
        forall|t: Seq<char>| stderr == #[trigger] encode_utf8(t) ==> result.stderr@ == t,
{
}

/// What is written to one output changes neither the other output nor the exit
/// code of the result.
pub proof fn law_outputs_are_apart(
    a: ExecResult,
    b: ExecResult,
    stdout: Seq<u8>,
    stderr_a: Seq<u8>,
    stderr_b: Seq<u8>,
    code: u8,
)
    requires
        result_of(a, stdout, stderr_a, code),
        result_of(b, stdout, stderr_b, code),
    ensures
        a.stdout@ == b.stdout@,
        a.exit_code == b.exit_code,
{
}

/// A script that gives a result was run once, in the state handed in and with
/// empty outputs, and reported an exit code. That code is the result's, and
/// the result's outputs are what the script left in them.
pub proof fn law_execution_reports_the_exit_code<
    S,
    R: Fn(S, InMemoryStream, InMemoryStream, &str) -> (
        S,
        InMemoryStream,
        InMemoryStream,
        Result<u8, String>,
    ),
>(run: R, state: S, script: Seq<char>, after: S, result: ExecResult, shell: BrushShell)
    requires
        executed(run, state, script, after, Ok(result), shell),
    ensures
        exists|
            no_out: InMemoryStream,
            no_err: InMemoryStream,
            t: &str,
            out: InMemoryStream,
            err: InMemoryStream,
            code: u8,
        |
            {
                &&& #[trigger] call_ensures(
                    run,
                    (state, no_out, no_err, t),
                    (after, out, err, Ok::<u8, String>(code)),
                )
                &&& t@ == script
                &&& no_out.buf@.len() == 0
                &&& no_err.buf@.len() == 0
                &&& result.exit_code == code
                &&& result.stdout@ == lossy_text(out.buf@)
                &&& result.stderr@ == lossy_text(err.buf@)
            },
        shell.stdout_stream.buf@.len() == 0,
        shell.stderr_stream.buf@.len() == 0,
{
    let (out, err, outcome) = choose|
        out: InMemoryStream,
        err: InMemoryStream,
        outcome: Result<u8, String>,
    |
        {
            &&& #[trigger] ran(run, state, script, after, out, err, outcome)
            &&& outcome matches Ok(code) && result_of(result, out.buf@, err.buf@, code)
        };
    assert(ran(run, state, script, after, out, err, outcome));
    assert(outcome == Ok::<u8, String>(outcome->Ok_0));
}

/// A script that gives no result was run once, in the state handed in, and
/// reported an error. That error is in the message, and what the script wrote
/// stays in the captured outputs.
pub proof fn law_execution_reports_the_error<
    S,
    R: Fn(S, InMemoryStream, InMemoryStream, &str) -> (
        S,
        InMemoryStream,
        InMemoryStream,
        Result<u8, String>,
    ),
>(run: R, state: S, script: Seq<char>, after: S, message: String, shell: BrushShell)
    requires
        executed(run, state, script, after, Err(message), shell),
    ensures
        exists|no_out: InMemoryStream, no_err: InMemoryStream, t: &str, e: String|
            {
                &&& #[trigger] call_ensures(
                    run,
                    (state, no_out, no_err, t),
                    (after, shell.stdout_stream, shell.stderr_stream, Err::<u8, String>(e)),
                )
                &&& t@ == script
                &&& no_out.buf@.len() == 0
                &&& no_err.buf@.len() == 0
                &&& message@ == "Execution error: "@ + e@
            },
{
    let (out, err, outcome) = choose|
        out: InMemoryStream,
        err: InMemoryStream,
        outcome: Result<u8, String>,
    |
        {
            &&& #[trigger] ran(run, state, script, after, out, err, outcome)
            &&& outcome matches Err(e) && message@ == "Execution error: "@ + e@
            &&& shell.stdout_stream == out
            &&& shell.stderr_stream == err
        };
    assert(ran(run, state, script, after, out, err, outcome));
    assert(outcome == Err::<u8, String>(outcome->Err_0));
}

} // verus!
