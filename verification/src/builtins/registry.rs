//! The commands by their names.

use vstd::prelude::*;
use vstd::string::*;

use crate::builtins::find::{FindBuiltin, GrepBuiltin};
use crate::builtins::ls::LsBuiltin;
use crate::builtins::mkdir::MkdirBuiltin;
use crate::builtins::mv::MvBuiltin;
use crate::builtins::names::{BasenameBuiltin, DirnameBuiltin};
use crate::builtins::rm::RmBuiltin;
use crate::builtins::tee::TeeBuiltin;
use crate::builtins::touch::TouchBuiltin;
use crate::names::NameTable;

verus! {

/// A command that the shell brings along.
#[derive(Clone, Copy, Debug, PartialEq, Eq, Structural)]
pub enum Builtin {
    Cat,
    Echo,
    Sort,
    Uniq,
    Wc,
    Head,
    Tail,
    Cut,
    Tr,
    SeqNumbers,
    Grep,
    Printf,
    Ls,
    Mkdir,
    Rm,
    Mv,
    Touch,
    Tee,
    Basename,
    Dirname,
    Find,
}

/// The name of a command.
pub open spec fn builtin_name(builtin: Builtin) -> Seq<char> {
    match builtin {
        Builtin::Cat => "cat"@,
        Builtin::Echo => "echo"@,
        Builtin::Sort => "sort"@,
        Builtin::Uniq => "uniq"@,
        Builtin::Wc => "wc"@,
        Builtin::Head => "head"@,
        Builtin::Tail => "tail"@,
        Builtin::Cut => "cut"@,
        Builtin::Tr => "tr"@,
        Builtin::SeqNumbers => "seq"@,
        Builtin::Grep => "grep"@,
        Builtin::Printf => "printf"@,
        Builtin::Ls => "ls"@,
        Builtin::Mkdir => "mkdir"@,
        Builtin::Rm => "rm"@,
        Builtin::Mv => "mv"@,
        Builtin::Touch => "touch"@,
        Builtin::Tee => "tee"@,
        Builtin::Basename => "basename"@,
        Builtin::Dirname => "dirname"@,
        Builtin::Find => "find"@,
    }
}

/// What the help says of a command, behind its name.
pub open spec fn builtin_summary(builtin: Builtin) -> Seq<char> {
    match builtin {
        Builtin::Grep => ": grep (POSIX-compatible, ripgrep engine)\n"@,
        Builtin::Ls => ": list directory contents\n"@,
        Builtin::Mkdir => ": create directories\n"@,
        Builtin::Rm => ": remove files or directories\n"@,
        Builtin::Mv => ": move (rename) files\n"@,
        Builtin::Touch => ": create empty files\n"@,
        Builtin::Tee => ": read from stdin, write to stdout and files\n"@,
        Builtin::Basename => ": strip directory and suffix from filenames\n"@,
        Builtin::Dirname => ": strip last component from file name\n"@,
        Builtin::Find => ": search for files in a directory hierarchy\n"@,
        _ => ": uutils coreutils command\n"@,
    }
}

/// No two commands have the same name.
pub proof fn lemma_builtin_names_differ(a: Builtin, b: Builtin)
    ensures
        builtin_name(a) == builtin_name(b) ==> a == b,
{
    reveal_strlit("cat");
    reveal_strlit("echo");
    reveal_strlit("sort");
    reveal_strlit("uniq");
    reveal_strlit("wc");
    reveal_strlit("head");
    reveal_strlit("tail");
    reveal_strlit("cut");
    reveal_strlit("tr");
    reveal_strlit("seq");
    reveal_strlit("grep");
    reveal_strlit("printf");
    reveal_strlit("ls");
    reveal_strlit("mkdir");
    reveal_strlit("rm");
    reveal_strlit("mv");
    reveal_strlit("touch");
    reveal_strlit("tee");
    reveal_strlit("basename");
    reveal_strlit("dirname");
    reveal_strlit("find");
    let s = builtin_name(a);
    let t = builtin_name(b);
    if s == t {
        assert(s.len() == t.len());
        assert(s[0] == t[0]);
        assert(s[1] == t[1]);
    }
}

/// What the help says of a command that goes by the given name.
pub fn get_content(builtin: Builtin, name: &str) -> (r: String)
    ensures
        r@ == name@ + builtin_summary(builtin),
{
    match builtin {
        Builtin::Grep => GrepBuiltin::get_content(name),
        Builtin::Ls => LsBuiltin::get_content(name),
        Builtin::Mkdir => MkdirBuiltin::get_content(name),
        Builtin::Rm => RmBuiltin::get_content(name),
        Builtin::Mv => MvBuiltin::get_content(name),
        Builtin::Touch => TouchBuiltin::get_content(name),
        Builtin::Tee => TeeBuiltin::get_content(name),
        Builtin::Basename => BasenameBuiltin::get_content(name),
        Builtin::Dirname => DirnameBuiltin::get_content(name),
        Builtin::Find => FindBuiltin::get_content(name),
        _ => name.to_owned().concat(": uutils coreutils command\n"),
    }
}

/// The name under which a command is found.
pub fn name_of(builtin: Builtin) -> (name: String)
    ensures
        name@ == builtin_name(builtin),
{
    let name = match builtin {
        Builtin::Cat => "cat",
        Builtin::Echo => "echo",
        Builtin::Sort => "sort",
        Builtin::Uniq => "uniq",
        Builtin::Wc => "wc",
        Builtin::Head => "head",
        Builtin::Tail => "tail",
        Builtin::Cut => "cut",
        Builtin::Tr => "tr",
        Builtin::SeqNumbers => "seq",
        Builtin::Grep => "grep",
        Builtin::Printf => "printf",
        Builtin::Ls => "ls",
        Builtin::Mkdir => "mkdir",
        Builtin::Rm => "rm",
        Builtin::Mv => "mv",
        Builtin::Touch => "touch",
        Builtin::Tee => "tee",
        Builtin::Basename => "basename",
        Builtin::Dirname => "dirname",
        Builtin::Find => "find",
    };
    name.to_owned()
}

/// All commands, in the order in which they are registered.
pub fn all_builtins() -> (all: Vec<Builtin>)
    ensures
        forall|b: Builtin| all@.contains(b),
{
    let all: Vec<Builtin> = vec![
        Builtin::Cat,
        Builtin::Echo,
        Builtin::Sort,
        Builtin::Uniq,
        Builtin::Wc,
        Builtin::Head,
        Builtin::Tail,
        Builtin::Cut,
        Builtin::Tr,
        Builtin::SeqNumbers,
        Builtin::Grep,
        Builtin::Printf,
        Builtin::Ls,
        Builtin::Mkdir,
        Builtin::Rm,
        Builtin::Mv,
        Builtin::Touch,
        Builtin::Tee,
        Builtin::Basename,
        Builtin::Dirname,
        Builtin::Find,
    ];
    proof {
        assert forall|b: Builtin| all@.contains(b) by {
            let i: int = match b {
                Builtin::Cat => 0,
                Builtin::Echo => 1,
                Builtin::Sort => 2,
                Builtin::Uniq => 3,
                Builtin::Wc => 4,
                Builtin::Head => 5,
                Builtin::Tail => 6,
                Builtin::Cut => 7,
                Builtin::Tr => 8,
                Builtin::SeqNumbers => 9,
                Builtin::Grep => 10,
                Builtin::Printf => 11,
                Builtin::Ls => 12,
                Builtin::Mkdir => 13,
                Builtin::Rm => 14,
                Builtin::Mv => 15,
                Builtin::Touch => 16,
                Builtin::Tee => 17,
                Builtin::Basename => 18,
                Builtin::Dirname => 19,
                Builtin::Find => 20,
            };
            assert(all@[i] == b);
        }
    }
    all
}

/// All commands by their names: every command is found under its name, and
/// under no other name there is one.
pub fn uutils_builtins() -> (table: NameTable<Builtin>)
    ensures
        forall|b: Builtin| #[trigger] table.lookup(builtin_name(b)) == Some(b),
        forall|n: Seq<char>| #[trigger] table.lookup(n) matches Some(b) ==> n == builtin_name(b),
{
    let all = all_builtins();
    let mut table: NameTable<Builtin> = NameTable::new();
    let mut i: usize = 0;
    while i < all.len()
        invariant
            i <= all@.len(),
            forall|k: int|
                0 <= k < i ==> #[trigger] table.lookup(builtin_name(all@[k])) == Some(all@[k]),
            forall|n: Seq<char>| #[trigger]
                table.lookup(n) matches Some(b) ==> n == builtin_name(b),
        decreases all@.len() - i,
    {
        let builtin = all[i];
        let ghost before = table;
        table.set(name_of(builtin).as_str(), builtin);
        assert forall|k: int| 0 <= k < i + 1 implies #[trigger] table.lookup(builtin_name(all@[k]))
            == Some(all@[k]) by {
            lemma_builtin_names_differ(all@[k], builtin);
            assert(k < i ==> before.lookup(builtin_name(all@[k])) == Some(all@[k]));
        }
        i = i + 1;
    }
    assert forall|b: Builtin| #[trigger] table.lookup(builtin_name(b)) == Some(b) by {
        assert(all@.contains(b));
        let k = choose|k: int| 0 <= k < all@.len() && all@[k] == b;
        assert(table.lookup(builtin_name(all@[k])) == Some(all@[k]));
    }
    table
}

} // verus!
