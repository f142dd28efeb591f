//! What a command leaves behind.

use vstd::prelude::*;
use vstd::string::*;

verus! {

/// What a command wrote to its two outputs, and its exit code.
pub struct CommandOutput {
    pub stdout: String,
    pub stderr: String,
    pub exit_code: u8,
}

impl CommandOutput {
    /// Whether this is what was written and the exit code.
    pub open spec fn is(self, stdout: Seq<char>, stderr: Seq<char>, exit_code: u8) -> bool {
        self.stdout@ == stdout && self.stderr@ == stderr && self.exit_code == exit_code
    }

    /// A command that wrote nothing.
    pub fn silent(exit_code: u8) -> (r: CommandOutput)
        ensures
            r.is(Seq::empty(), Seq::empty(), exit_code),
    {
        CommandOutput { stdout: String::new(), stderr: String::new(), exit_code }
    }

    /// A command that wrote one message to its error output.
    pub fn failed(message: String, exit_code: u8) -> (r: CommandOutput)
        ensures
            r.is(Seq::empty(), message@, exit_code),
    {
        CommandOutput { stdout: String::new(), stderr: message, exit_code }
    }
}

/// `before`, the middle, and `after`, one behind the other.
pub fn wrapped(before: &str, middle: &str, after: &str) -> (r: String)
    ensures
        r@ == before@ + middle@ + after@,
{
    let mut r = before.to_owned();
    r.append(middle);
    r.append(after);
    r
}

/// The exit status that a command reports: the low eight bits of its code.
pub fn exit_status(code: i32) -> (r: u8)
    ensures
        r == code as int % 256,
{
    let low: i32 = code & 0xFF;
    assert(0 <= low < 256 && low == code as int % 256) by {
        assert(0 <= code & 0xFF < 256) by (bit_vector);
        assert((code & 0xFFi32) as u32 == (code as u32) % 256) by (bit_vector);
        assert(code >= 0 ==> (code as u32) == code) by (bit_vector);
        assert(code < 0 ==> (code as u32) == code + 0x1_0000_0000) by (bit_vector);
    }
    low as u8
}

/// Whether running the utility on the arguments can leave `after` and report
/// `status`.
pub open spec fn utility_ran<W, U: Fn(W, &Vec<String>) -> (W, i32)>(
    utility: U,
    world: W,
    args: Vec<String>,
    after: W,
    status: u8,
) -> bool {
    exists|code: i32|
        {
            &&& #[trigger] call_ensures(utility, (world, &args), (after, code))
            &&& status == code as int % 256
        }
}

/// Runs a utility on all arguments, the name of the command among them.
/// `world` holds what the utility reads and writes: the standard streams of the
/// shell and the file system.
pub fn run_utility<W, U: Fn(W, &Vec<String>) -> (W, i32)>(
    utility: U,
    world: W,
    args: &Vec<String>,
) -> (r: (W, u8))
    requires
        forall|w: W, a: Vec<String>| #[trigger] call_requires(utility, (w, &a)),
    ensures
        utility_ran(utility, world, *args, r.0, r.1),
{
    let (after, code) = utility(world, args);
    assert(call_ensures(utility, (world, args), (after, code)));
    (after, exit_status(code))
}

/// The line that says why something could not be done with an item.
pub open spec fn failure_line(prefix: Seq<char>, item: Seq<char>, reason: Seq<char>) -> Seq<char> {
    prefix + item + "': "@ + reason + "\n"@
}

/// The lines about those of the first `n` items for which there is a reason.
pub open spec fn failure_lines(
    prefix: Seq<char>,
    items: Seq<Seq<char>>,
    reasons: Seq<Option<Seq<char>>>,
    n: int,
) -> Seq<char>
    decreases n,
{
    if n <= 0 {
        Seq::empty()
    } else {
        match reasons[n - 1] {
            Some(reason) => failure_lines(prefix, items, reasons, n - 1) + failure_line(
                prefix,
                items[n - 1],
                reason,
            ),
            None => failure_lines(prefix, items, reasons, n - 1),
        }
    }
}

/// Whether there is a reason among the first `n`.
pub open spec fn any_reason(reasons: Seq<Option<Seq<char>>>, n: int) -> bool {
    exists|i: int| 0 <= i < n && (#[trigger] reasons[i]) is Some
}

/// The lines of the first items depend on their reasons alone.
pub proof fn lemma_failure_lines_prefix(
    prefix: Seq<char>,
    items: Seq<Seq<char>>,
    a: Seq<Option<Seq<char>>>,
    b: Seq<Option<Seq<char>>>,
    n: int,
)
    requires
        n <= a.len(),
        n <= b.len(),
        forall|i: int| 0 <= i < n ==> a[i] == b[i],
    ensures
        failure_lines(prefix, items, a, n) == failure_lines(prefix, items, b, n),
    decreases n,
{
    if n > 0 {
        lemma_failure_lines_prefix(prefix, items, a, b, n - 1);
    }
}

/// One more reason, or none, for the next item.
pub proof fn lemma_next_reason(
    prefix: Seq<char>,
    items: Seq<Seq<char>>,
    reasons: Seq<Option<Seq<char>>>,
    reason: Option<Seq<char>>,
)
    ensures
        ({
            let n = reasons.len() as int;
            let all = reasons.push(reason);
            &&& failure_lines(prefix, items, all, n + 1) == (match reason {
                Some(r) => failure_lines(prefix, items, reasons, n) + failure_line(
                    prefix,
                    items[n],
                    r,
                ),
                None => failure_lines(prefix, items, reasons, n),
            })
            &&& any_reason(all, n + 1) == (any_reason(reasons, n) || reason is Some)
            &&& forall|i: int| 0 <= i < n ==> all[i] == reasons[i]
        }),
{
    let n = reasons.len() as int;
    let all = reasons.push(reason);
    lemma_failure_lines_prefix(prefix, items, all, reasons, n);
    if any_reason(reasons, n) {
        let i = choose|i: int| 0 <= i < n && (#[trigger] reasons[i]) is Some;
        assert(all[i] is Some);
    }
    if reason is Some {
        assert(all[n] is Some);
    }
    if any_reason(all, n + 1) {
        let i = choose|i: int| 0 <= i < n + 1 && (#[trigger] all[i]) is Some;
        assert(i < n ==> reasons[i] is Some);
    }
}

/// Adds the line that says why something could not be done with an item.
pub fn add_failure_line(out: &mut String, prefix: &str, item: &str, reason: &str)
    ensures
        final(out)@ == old(out)@ + failure_line(prefix@, item@, reason@),
{
    let ghost before = out@;
    out.append(prefix);
    out.append(item);
    out.append("': ");
    out.append(reason);
    out.append("\n");
    assert(out@ =~= before + failure_line(prefix@, item@, reason@));
}

} // verus!
