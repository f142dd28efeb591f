//! Laws of opening files for the shell.

use vstd::prelude::*;
use vstd::string::*;

#[allow(unused_imports)]
use crate::error::IoError;
#[allow(unused_imports)]
use crate::open_files::ShellFd;
#[allow(unused_imports)]
use crate::path::{
    file_name, is_absolute, lemma_names_of_joined, lemma_parent_and_last_name, names, parent,
    plain_name,
};
#[allow(unused_imports)]
use crate::shell::{absolute, fd_reference, mode_or_none, opened, referenced_fd, Shell};
#[allow(unused_imports)]
use crate::text::parsed_i32;
#[allow(unused_imports)]
use crate::vfs::{read_mode, FileOpenMode, VfsHook};

verus! {

/// A path that stands for no open descriptor is opened by the registered hook,
/// which is handed the path and exactly the four flags of the mode.
pub proof fn law_hook_gets_the_mode<
    W,
    F,
    T: Fn(ShellFd) -> Option<F>,
    C: Fn(F) -> Result<F, IoError>,
    O: Fn(W, &str, bool, bool, bool, bool) -> (W, Result<F, IoError>),
    N: Fn(W, &str) -> (W, Result<F, IoError>),
>(
    path: Seq<char>,
    mode: FileOpenMode,
    try_fd: T,
    try_clone: C,
    hook: VfsHook<O>,
    f: O,
    open_native: N,
    world: W,
    after: W,
    result: Result<F, IoError>,
)
    requires
        opened(path, mode, try_fd, try_clone, hook, open_native, world, after, result),
        hook.callback == Some(f),
        fd_reference(path) matches Some(fd) ==> forall|file: F|
            !#[trigger] call_ensures(try_fd, (fd,), Some(file)),
    ensures
        exists|p: &str|
            p@ == path && #[trigger] call_ensures(
                f,
                (world, p, mode.read, mode.write, mode.create, mode.append),
                (after, result),
            ),
{
}

/// Opening a path that stands for no open descriptor asks the registered hook,
/// which is handed the absolute form of the path and each of the four flags of
/// the given mode as it is. So a mode without appending never appends.
pub proof fn law_file_is_opened_as_asked<
    W,
    F,
    T: Fn(ShellFd) -> Option<F>,
    C: Fn(F) -> Result<F, IoError>,
    O: Fn(W, &str, bool, bool, bool, bool) -> (W, Result<F, IoError>),
    N: Fn(W, &str) -> (W, Result<F, IoError>),
>(
    shell: &Shell<F>,
    path: &str,
    mode: FileOpenMode,
    try_fd: T,
    try_clone: C,
    hook: &VfsHook<O>,
    f: O,
    world: W,
    open_native: N,
    r: (W, Result<F, IoError>),
)
    requires
        call_ensures(
            Shell::<F>::open_file_with_mode::<W, T, C, O, N>,
            (shell, path, Some(mode), try_fd, try_clone, hook, world, open_native),
            r,
        ),
        hook.callback == Some(f),
        fd_reference(absolute(shell.working_dir@, path@)) matches Some(fd) ==> forall|file: F|
            !#[trigger] call_ensures(try_fd, (fd,), Some(file)),
    ensures
        exists|p: &str|
            p@ == absolute(shell.working_dir@, path@) && #[trigger] call_ensures(
                f,
                (world, p, mode.read, mode.write, mode.create, mode.append),
                (r.0, r.1),
            ),
{
    law_hook_gets_the_mode(
        absolute(shell.working_dir@, path@),
        mode,
        try_fd,
        try_clone,
        *hook,
        f,
        open_native,
        world,
        r.0,
        r.1,
    );
}

/// Opening a file without saying more asks the hook for reading only.
pub proof fn law_file_is_opened_for_reading<
    W,
    F,
    T: Fn(ShellFd) -> Option<F>,
    C: Fn(F) -> Result<F, IoError>,
    O: Fn(W, &str, bool, bool, bool, bool) -> (W, Result<F, IoError>),
    N: Fn(W, &str) -> (W, Result<F, IoError>),
>(
    shell: &Shell<F>,
    path: &str,
    try_fd: T,
    try_clone: C,
    hook: &VfsHook<O>,
    f: O,
    world: W,
    open_native: N,
    r: (W, Result<F, IoError>),
)
    requires
        call_ensures(
            Shell::<F>::open_file::<W, T, C, O, N>,
            (shell, path, try_fd, try_clone, hook, world, open_native),
            r,
        ),
        hook.callback == Some(f),
        fd_reference(absolute(shell.working_dir@, path@)) matches Some(fd) ==> forall|file: F|
            !#[trigger] call_ensures(try_fd, (fd,), Some(file)),
    ensures
        exists|p: &str|
            p@ == absolute(shell.working_dir@, path@) && #[trigger] call_ensures(
                f,
                (world, p, true, false, false, false),
                (r.0, r.1),
            ),
{
    law_hook_gets_the_mode(
        absolute(shell.working_dir@, path@),
        read_mode(),
        try_fd,
        try_clone,
        *hook,
        f,
        open_native,
        world,
        r.0,
        r.1,
    );
}

/// Without a registered hook, such a path is opened natively.
pub proof fn law_native_opens_otherwise<
    W,
    F,
    T: Fn(ShellFd) -> Option<F>,
    C: Fn(F) -> Result<F, IoError>,
    O: Fn(W, &str, bool, bool, bool, bool) -> (W, Result<F, IoError>),
    N: Fn(W, &str) -> (W, Result<F, IoError>),
>(
    path: Seq<char>,
    mode: FileOpenMode,
    try_fd: T,
    try_clone: C,
    hook: VfsHook<O>,
    open_native: N,
    world: W,
    after: W,
    result: Result<F, IoError>,
)
    requires
        opened(path, mode, try_fd, try_clone, hook, open_native, world, after, result),
        hook.callback is None,
        fd_reference(path) matches Some(fd) ==> forall|file: F|
            !#[trigger] call_ensures(try_fd, (fd,), Some(file)),
    ensures
        exists|p: &str|
            p@ == path && #[trigger] call_ensures(open_native, (world, p), (after, result)),
{
}

/// A path that stands for an open descriptor gives a duplicate of that file,
/// and no file system is asked.
pub proof fn law_open_descriptor_is_duplicated<
    W,
    F,
    T: Fn(ShellFd) -> Option<F>,
    C: Fn(F) -> Result<F, IoError>,
    O: Fn(W, &str, bool, bool, bool, bool) -> (W, Result<F, IoError>),
    N: Fn(W, &str) -> (W, Result<F, IoError>),
>(
    path: Seq<char>,
    fd: ShellFd,
    mode: FileOpenMode,
    try_fd: T,
    try_clone: C,
    hook: VfsHook<O>,
    open_native: N,
    world: W,
    after: W,
    result: Result<F, IoError>,
)
    requires
        opened(path, mode, try_fd, try_clone, hook, open_native, world, after, result),
        fd_reference(path) == Some(fd),
        !call_ensures(try_fd, (fd,), None::<F>),
    ensures
        after == world,
        exists|file: F| #[trigger]
            call_ensures(try_fd, (fd,), Some(file)) && call_ensures(try_clone, (file,), result),
{
}

/// A mode that is given counts as it is; where none is given, nothing is asked
/// for.
pub proof fn law_given_mode_counts(mode: Option<FileOpenMode>)
    ensures
        mode matches Some(m) ==> mode_or_none(mode) == m,
        mode is None ==> {
            let m = mode_or_none(mode);
            !m.read && !m.write && !m.create && !m.append
        },
{
}

/// Only an absolute path of the three names `dev`, `fd` and a number stands for
/// a descriptor, and it stands for that number.
pub proof fn law_descriptor_paths(path: Seq<char>)
    requires
        fd_reference(path) is Some,
    ensures
        is_absolute(path),
        names(path).len() == 3,
        names(path)[0] == seq!['d', 'e', 'v'],
        names(path)[1] == seq!['f', 'd'],
        parsed_i32(names(path)[2]) == fd_reference(path),
{
    lemma_parent_and_last_name(path);
    lemma_dev_fd_names();
    assert(names(path).drop_last().push(names(path).last()) =~= names(path));
}

/// The other way round: every such path stands for the descriptor of that
/// number.
pub proof fn law_descriptor_paths_are_found(path: Seq<char>)
    requires
        is_absolute(path),
        names(path) == seq![seq!['d', 'e', 'v'], seq!['f', 'd'], names(path).last()],
        file_name(path) == Some(names(path).last()),
    ensures
        fd_reference(path) == parsed_i32(names(path).last()),
{
    lemma_parent_and_last_name(path);
    lemma_dev_fd_names();
    let dir = parent(path)->0;
    assert(names(dir) =~= seq![seq!['d', 'e', 'v'], seq!['f', 'd']]);
}

/// The names of the directory of descriptors.
proof fn lemma_dev_fd_names()
    ensures
        is_absolute("/dev/fd"@),
        names("/dev/fd"@) == seq![seq!['d', 'e', 'v'], seq!['f', 'd']],
{
    reveal_strlit("/dev/fd");
    let path = "/dev/fd"@;
    let parts = seq![Seq::<char>::empty(), seq!['d', 'e', 'v'], seq!['f', 'd']];
    reveal_with_fuel(crate::text::join, 4);
    reveal_with_fuel(crate::path::significant_parts, 4);
    assert(parts.drop_last() =~= seq![Seq::<char>::empty(), seq!['d', 'e', 'v']]);
    assert(parts.drop_last().drop_last() =~= seq![Seq::<char>::empty()]);
    assert(crate::text::join(parts, '/') =~= path);
    assert forall|i: int| 0 <= i < parts.len() implies !(#[trigger] parts[i]).contains('/') by {}
    crate::text::lemma_split_join(parts, '/');
    assert(seq!['d', 'e', 'v'][1] != '.');
    assert(names(path) =~= seq![seq!['d', 'e', 'v'], seq!['f', 'd']]);
}

/// The absolute form of a path in an absolute directory is absolute, unless the
/// path is empty, and taking it again changes nothing. A path that is absolute
/// or empty is its own absolute form.
pub proof fn law_absolute_form(working_dir: Seq<char>, path: Seq<char>)
    ensures
        is_absolute(working_dir) && path.len() > 0 ==> is_absolute(absolute(working_dir, path)),
        is_absolute(working_dir) ==> absolute(working_dir, absolute(working_dir, path))
            == absolute(working_dir, path),
        path.len() == 0 || path[0] == '/' ==> absolute(working_dir, path) == path,
{
}

/// The absolute form of a relative path is the directory followed by the path,
/// with one slash between them.
pub proof fn law_absolute_form_of_relative(working_dir: Seq<char>, path: Seq<char>)
    requires
        path.len() > 0,
        path[0] != '/',
        working_dir.len() > 0,
    ensures
        working_dir.last() == '/' ==> absolute(working_dir, path) == working_dir + path,
        working_dir.last() != '/' ==> absolute(working_dir, path) == working_dir + seq!['/']
            + path,
{
    assert(working_dir.push('/') =~= working_dir + seq!['/']);
}

/// A plain name seen from a directory lies in it: its absolute form goes through
/// the names of the directory and then that name.
pub proof fn law_name_lies_in_directory(working_dir: Seq<char>, name: Seq<char>)
    requires
        plain_name(name),
    ensures
        names(absolute(working_dir, name)) == names(working_dir).push(name),
{
    lemma_names_of_joined(working_dir, name);
}

/// The absolute path that the shell computes is the path itself if it is empty
/// or starts at the root, and else the working directory and the path with one
/// slash between them.
pub proof fn law_absolute_path<F>(shell: &Shell<F>, path: &str, r: String)
    requires
        call_ensures(Shell::<F>::absolute_path, (shell, path), r),
    ensures
        path@.len() == 0 || path@[0] == '/' ==> r@ == path@,
        path@.len() > 0 && path@[0] != '/' && shell.working_dir@.len() > 0
            && shell.working_dir@.last() == '/' ==> r@ == shell.working_dir@ + path@,
        path@.len() > 0 && path@[0] != '/' && shell.working_dir@.len() > 0
            && shell.working_dir@.last() != '/' ==> r@ == shell.working_dir@ + seq!['/'] + path@,
{
    if path@.len() > 0 && path@[0] != '/' && shell.working_dir@.len() > 0 {
        law_absolute_form_of_relative(shell.working_dir@, path@);
    }
}

/// The descriptor that the shell reads from a path is the number behind
/// `/dev/fd`.
pub proof fn law_descriptor_of_a_path(path: &str, r: Option<ShellFd>)
    requires
        call_ensures(referenced_fd, (path,), r),
        r is Some,
    ensures
        is_absolute(path@),
        names(path@).len() == 3,
        names(path@)[0] == seq!['d', 'e', 'v'],
        names(path@)[1] == seq!['f', 'd'],
        parsed_i32(names(path@)[2]) == r,
{
    law_descriptor_paths(path@);
}

} // verus!
