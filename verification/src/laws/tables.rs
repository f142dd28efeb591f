//! Laws of the tables that the shell keeps.

use vstd::prelude::*;
use vstd::string::*;

#[allow(unused_imports)]
use crate::builtins::registry::{builtin_name, get_content, uutils_builtins, Builtin};
#[allow(unused_imports)]
use crate::env::{Environment, VariableView};
#[allow(unused_imports)]
use crate::names::{first_index, NameTable};
#[allow(unused_imports)]
use crate::open_files::{files_by_fd, ShellFd};

verus! {

proof fn lemma_first_index<V>(entries: Seq<(String, V)>, name: Seq<char>, n: int)
    requires
        0 <= n <= entries.len(),
    ensures
        first_index(entries, name, n) < 0 <==> forall|i: int|
            0 <= i < n ==> (#[trigger] entries[i]).0@ != name,
        first_index(entries, name, n) >= 0 ==> {
            let k = first_index(entries, name, n);
            &&& k < n
            &&& entries[k].0@ == name
            &&& forall|i: int| 0 <= i < k ==> (#[trigger] entries[i]).0@ != name
        },
    decreases n,
{
    if n > 0 {
        lemma_first_index(entries, name, n - 1);
    }
}

/// A name is found exactly when an entry has it, and what is found is the value
/// of the first such entry.
pub proof fn law_names_are_found<V>(table: NameTable<V>, name: Seq<char>)
    ensures
        table.lookup(name) is None <==> forall|i: int|
            0 <= i < table.entries@.len() ==> (#[trigger] table.entries@[i]).0@ != name,
        table.lookup(name) matches Some(v) ==> exists|k: int|
            {
                &&& 0 <= k < table.entries@.len()
                &&& (#[trigger] table.entries@[k]).0@ == name
                &&& table.entries@[k].1 == v
                &&& forall|i: int| 0 <= i < k ==> (#[trigger] table.entries@[i]).0@ != name
            },
{
    lemma_first_index(table.entries@, name, table.entries@.len() as int);
}

/// A variable has the value and the protection of its entry.
pub proof fn law_variables(env: Environment, name: Seq<char>)
    ensures
        env.variables.lookup(name) is None ==> {
            &&& env.variable(name) is None
            &&& env.value(name) is None
            &&& !env.is_readonly(name)
        },
        env.variables.lookup(name) matches Some(v) ==> {
            &&& env.value(name) == Some(v.value@)
            &&& env.is_readonly(name) == v.readonly
            &&& env.variable(name) == Some(
                VariableView { value: v.value@, readonly: v.readonly },
            )
        },
{
}

/// A descriptor has a file exactly when one is given for it, and one file more
/// takes the place of that of its descriptor and of no other.
pub proof fn law_files_by_descriptor<F>(fds: Seq<(ShellFd, F)>, fd: ShellFd, file: F)
    ensures
        files_by_fd(Seq::<(ShellFd, F)>::empty()) == Map::<ShellFd, F>::empty(),
        files_by_fd(fds.push((fd, file))).contains_key(fd),
        files_by_fd(fds.push((fd, file)))[fd] == file,
        forall|other: ShellFd|
            other != fd ==> (#[trigger] files_by_fd(fds.push((fd, file))).contains_key(other)
                <==> files_by_fd(fds).contains_key(other)),
        forall|other: ShellFd|
            other != fd && files_by_fd(fds).contains_key(other) ==> #[trigger] files_by_fd(
                fds.push((fd, file)),
            )[other] == files_by_fd(fds)[other],
{
    assert(fds.push((fd, file)).drop_last() =~= fds);
}

/// Every command is found by its name.
pub proof fn law_commands_are_found(table: NameTable<Builtin>)
    requires
        call_ensures(uutils_builtins, (), table),
    ensures
        table.lookup("cat"@) == Some(Builtin::Cat),
        table.lookup("echo"@) == Some(Builtin::Echo),
        table.lookup("sort"@) == Some(Builtin::Sort),
        table.lookup("uniq"@) == Some(Builtin::Uniq),
        table.lookup("wc"@) == Some(Builtin::Wc),
        table.lookup("head"@) == Some(Builtin::Head),
        table.lookup("tail"@) == Some(Builtin::Tail),
        table.lookup("cut"@) == Some(Builtin::Cut),
        table.lookup("tr"@) == Some(Builtin::Tr),
        table.lookup("seq"@) == Some(Builtin::SeqNumbers),
        table.lookup("grep"@) == Some(Builtin::Grep),
        table.lookup("printf"@) == Some(Builtin::Printf),
        table.lookup("ls"@) == Some(Builtin::Ls),
        table.lookup("mkdir"@) == Some(Builtin::Mkdir),
        table.lookup("rm"@) == Some(Builtin::Rm),
        table.lookup("mv"@) == Some(Builtin::Mv),
        table.lookup("touch"@) == Some(Builtin::Touch),
        table.lookup("tee"@) == Some(Builtin::Tee),
        table.lookup("basename"@) == Some(Builtin::Basename),
        table.lookup("dirname"@) == Some(Builtin::Dirname),
        table.lookup("find"@) == Some(Builtin::Find),
{
    assert(table.lookup(builtin_name(Builtin::Cat)) == Some(Builtin::Cat));
    assert(table.lookup(builtin_name(Builtin::Echo)) == Some(Builtin::Echo));
    assert(table.lookup(builtin_name(Builtin::Sort)) == Some(Builtin::Sort));
    assert(table.lookup(builtin_name(Builtin::Uniq)) == Some(Builtin::Uniq));
    assert(table.lookup(builtin_name(Builtin::Wc)) == Some(Builtin::Wc));
    assert(table.lookup(builtin_name(Builtin::Head)) == Some(Builtin::Head));
    assert(table.lookup(builtin_name(Builtin::Tail)) == Some(Builtin::Tail));
    assert(table.lookup(builtin_name(Builtin::Cut)) == Some(Builtin::Cut));
    assert(table.lookup(builtin_name(Builtin::Tr)) == Some(Builtin::Tr));
    assert(table.lookup(builtin_name(Builtin::SeqNumbers)) == Some(Builtin::SeqNumbers));
    assert(table.lookup(builtin_name(Builtin::Grep)) == Some(Builtin::Grep));
    assert(table.lookup(builtin_name(Builtin::Printf)) == Some(Builtin::Printf));
    assert(table.lookup(builtin_name(Builtin::Ls)) == Some(Builtin::Ls));
    assert(table.lookup(builtin_name(Builtin::Mkdir)) == Some(Builtin::Mkdir));
    assert(table.lookup(builtin_name(Builtin::Rm)) == Some(Builtin::Rm));
    assert(table.lookup(builtin_name(Builtin::Mv)) == Some(Builtin::Mv));
    assert(table.lookup(builtin_name(Builtin::Touch)) == Some(Builtin::Touch));
    assert(table.lookup(builtin_name(Builtin::Tee)) == Some(Builtin::Tee));
    assert(table.lookup(builtin_name(Builtin::Basename)) == Some(Builtin::Basename));
    assert(table.lookup(builtin_name(Builtin::Dirname)) == Some(Builtin::Dirname));
    assert(table.lookup(builtin_name(Builtin::Find)) == Some(Builtin::Find));
}

/// The help on a command begins with the name that it is asked under.
pub proof fn law_help_names_the_command(builtin: Builtin, name: &str, help: String)
    requires
        call_ensures(get_content, (builtin, name), help),
    ensures
        help@.len() > name@.len(),
        help@.take(name@.len() as int) == name@,
        help@.last() == '\n',
        builtin is Ls ==> help@ == name@ + ": list directory contents\n"@,
        builtin is Mkdir ==> help@ == name@ + ": create directories\n"@,
        builtin is Rm ==> help@ == name@ + ": remove files or directories\n"@,
        builtin is Mv ==> help@ == name@ + ": move (rename) files\n"@,
        builtin is Touch ==> help@ == name@ + ": create empty files\n"@,
        builtin is Tee ==> help@ == name@ + ": read from stdin, write to stdout and files\n"@,
        builtin is Basename ==> help@ == name@ + ": strip directory and suffix from filenames\n"@,
        builtin is Dirname ==> help@ == name@ + ": strip last component from file name\n"@,
        builtin is Find ==> help@ == name@ + ": search for files in a directory hierarchy\n"@,
        builtin is Grep ==> help@ == name@ + ": grep (POSIX-compatible, ripgrep engine)\n"@,
        builtin is Cat || builtin is Echo || builtin is Sort || builtin is Uniq || builtin is Wc
            || builtin is Head || builtin is Tail || builtin is Cut || builtin is Tr
            || builtin is SeqNumbers || builtin is Printf ==> help@ == name@
            + ": uutils coreutils command\n"@,
{
    reveal_strlit(": list directory contents\n");
    reveal_strlit(": create directories\n");
    reveal_strlit(": remove files or directories\n");
    reveal_strlit(": move (rename) files\n");
    reveal_strlit(": create empty files\n");
    reveal_strlit(": read from stdin, write to stdout and files\n");
    reveal_strlit(": strip directory and suffix from filenames\n");
    reveal_strlit(": strip last component from file name\n");
    reveal_strlit(": search for files in a directory hierarchy\n");
    reveal_strlit(": grep (POSIX-compatible, ripgrep engine)\n");
    reveal_strlit(": uutils coreutils command\n");
    assert(help@.take(name@.len() as int) =~= name@);
}

} // verus!
