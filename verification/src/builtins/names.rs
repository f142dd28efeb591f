//! `basename` and `dirname`: the parts of a file name.

use vstd::prelude::*;
use vstd::string::*;

use crate::builtins::output::CommandOutput;
use crate::path::{file_name_of, parent_of};
#[allow(unused_imports)]
use crate::path::{file_name, parent};
use crate::text::{same_text, strip_text_suffix};
#[allow(unused_imports)]
use crate::text::{has_suffix, texts};

verus! {

/// `basename`: strip directory and suffix from filenames.
pub struct BasenameBuiltin;

/// `dirname`: strip last component from file name.
pub struct DirnameBuiltin;

/// The last name of a path. The root is its own, other paths without a last
/// name have an empty one.
pub open spec fn base_name(path: Seq<char>) -> Seq<char> {
    match file_name(path) {
        Some(name) => name,
        None => if path == "/"@ {
            "/"@
        } else {
            Seq::empty()
        },
    }
}

/// The name without the suffix, where it ends with it and is more than it.
pub open spec fn without_suffix(name: Seq<char>, suffix: Seq<char>) -> Seq<char> {
    if suffix.len() > 0 && has_suffix(name, suffix) && name != suffix {
        name.take(name.len() - suffix.len())
    } else {
        name
    }
}

/// The directory that a path lies in; the current one where there is none to
/// name.
pub open spec fn directory_name(path: Seq<char>) -> Seq<char> {
    match parent(path) {
        Some(dir) if dir.len() > 0 => dir,
        _ => "."@,
    }
}

/// The directories of the first `n` arguments, a line each.
pub open spec fn directory_lines(args: Seq<Seq<char>>, n: int) -> Seq<char>
    decreases n,
{
    if n <= 1 {
        Seq::empty()
    } else {
        directory_lines(args, n - 1) + directory_name(args[n - 1]) + "\n"@
    }
}

/// A name never shrinks to nothing by losing its suffix, and what is left with
/// the suffix behind it is the name.
pub proof fn lemma_suffix_is_cut_off(name: Seq<char>, suffix: Seq<char>)
    ensures
        name.len() > 0 ==> without_suffix(name, suffix).len() > 0,
        without_suffix(name, suffix) == name || without_suffix(name, suffix) + suffix == name,
{
    if suffix.len() > 0 && has_suffix(name, suffix) && name != suffix {
        assert(name.take(name.len() - suffix.len()) + suffix =~= name);
        if name.len() == suffix.len() {
            assert(name =~= suffix);
        }
    }
}

impl BasenameBuiltin {
    /// What the help says of the command.
    pub fn get_content(name: &str) -> (r: String)
        ensures
            r@ == name@ + ": strip directory and suffix from filenames\n"@,
    {
        name.to_owned().concat(": strip directory and suffix from filenames\n")
    }

    /// Writes the last name of the first argument, without the second argument
    /// at its end.
    pub fn execute(args: &Vec<String>) -> (out: CommandOutput)
        ensures
            args@.len() < 2 ==> out.is(Seq::empty(), "basename: missing operand\n"@, 1),
            args@.len() >= 2 ==> out.is(
                without_suffix(
                    base_name(args@[1]@),
                    if args@.len() > 2 {
                        args@[2]@
                    } else {
                        Seq::empty()
                    },
                ) + "\n"@,
                Seq::empty(),
                0,
            ),
    {
        if args.len() < 2 {
            return CommandOutput::failed("basename: missing operand\n".to_owned(), 1);
        }
        let path = args[1].as_str();
        let mut name = match file_name_of(path) {
            Some(name) => name,
            None => if same_text(path, "/") {
                "/".to_owned()
            } else {
                String::new()
            },
        };
        assert(name@ =~= base_name(path@));
        if args.len() > 2 {
            let suffix = args[2].as_str();
            if !suffix.is_empty() && !same_text(name.as_str(), suffix) {
                if let Some(rest) = strip_text_suffix(name.as_str(), suffix) {
                    name = rest;
                }
            }
        }
        CommandOutput { stdout: name.concat("\n"), stderr: String::new(), exit_code: 0 }
    }
}

impl DirnameBuiltin {
    /// What the help says of the command.
    pub fn get_content(name: &str) -> (r: String)
        ensures
            r@ == name@ + ": strip last component from file name\n"@,
    {
        name.to_owned().concat(": strip last component from file name\n")
    }

    /// Writes the directory of every argument.
    pub fn execute(args: &Vec<String>) -> (out: CommandOutput)
        ensures
            args@.len() < 2 ==> out.is(Seq::empty(), "dirname: missing operand\n"@, 1),
            args@.len() >= 2 ==> out.is(
                directory_lines(texts(args@), args@.len() as int),
                Seq::empty(),
                0,
            ),
    {
        if args.len() < 2 {
            return CommandOutput::failed("dirname: missing operand\n".to_owned(), 1);
        }
        let mut stdout = String::new();
        let mut i: usize = 1;
        while i < args.len()
            invariant
                1 <= i <= args@.len(),
                stdout@ == directory_lines(texts(args@), i as int),
            decreases args@.len() - i,
        {
            assert(texts(args@)[i as int] == args@[i as int]@);
            let dir = match parent_of(args[i].as_str()) {
                Some(dir) => if dir.as_str().is_empty() {
                    ".".to_owned()
                } else {
                    dir
                },
                None => ".".to_owned(),
            };
            stdout.append(dir.as_str());
            stdout.append("\n");
            i = i + 1;
        }
        CommandOutput { stdout, stderr: String::new(), exit_code: 0 }
    }
}

} // verus!
