//! Laws of the hooks: what a registered callback is called with.

use vstd::prelude::*;
use vstd::string::*;

#[allow(unused_imports)]
use crate::error::{IoError, IoErrorKind};
#[allow(unused_imports)]
use crate::vfs::{
    answers, makes, opens, read_mode, removes, wasm_file_exists, wasm_list_dir, wasm_mkdir,
    wasm_open_file, wasm_open_file_for_read, wasm_remove, wasm_stat, write_mode, FileOpenMode,
    VfsHook,
};
#[allow(unused_imports)]
use crate::wasm_vfs::{VfsDirEntry, VfsStat};

verus! {

/// A hook with a callback gives the callback's answer for that path in that
/// world.
pub proof fn law_answer_is_the_callbacks<W, A, T: Fn(&W, &str) -> A>(
    hook: VfsHook<T>,
    f: T,
    world: W,
    path: Seq<char>,
    otherwise: A,
    answer: A,
)
    requires
        answers(hook, world, path, otherwise, answer),
    ensures
        hook.callback == Some(f) ==> exists|p: &str|
            p@ == path && #[trigger] call_ensures(f, (&world, p), answer),
        hook.callback is None ==> answer == otherwise,
{
}

/// A hook with a callback removes what the callback removes at that path;
/// without one nothing is removed and nothing changes.
pub proof fn law_removal_is_the_callbacks<W, R: Fn(W, &str) -> (W, bool)>(
    hook: VfsHook<R>,
    f: R,
    world: W,
    path: Seq<char>,
    after: W,
    removed: bool,
)
    requires
        removes(hook, world, path, after, removed),
    ensures
        hook.callback == Some(f) ==> exists|p: &str|
            p@ == path && #[trigger] call_ensures(f, (world, p), (after, removed)),
        hook.callback is None ==> after == world && !removed,
{
}

/// A hook with a callback makes the directory that the callback makes; without
/// one nothing changes.
pub proof fn law_making_is_the_callbacks<W, M: Fn(W, &str) -> W>(
    hook: VfsHook<M>,
    f: M,
    world: W,
    path: Seq<char>,
    after: W,
)
    requires
        makes(hook, world, path, after),
    ensures
        hook.callback == Some(f) ==> exists|p: &str|
            p@ == path && #[trigger] call_ensures(f, (world, p), after),
        hook.callback is None ==> after == world,
{
}

/// A hook with a callback opens a file by the callback, which is handed the
/// path and each of the four flags as it is; without one nothing is found.
pub proof fn law_opening_is_the_callbacks<
    W,
    F,
    O: Fn(W, &str, bool, bool, bool, bool) -> (W, Result<F, IoError>),
>(
    hook: VfsHook<O>,
    f: O,
    world: W,
    path: Seq<char>,
    mode: FileOpenMode,
    after: W,
    result: Result<F, IoError>,
)
    requires
        opens(hook, world, path, mode, after, result),
    ensures
        hook.callback == Some(f) ==> exists|p: &str|
            p@ == path && #[trigger] call_ensures(
                f,
                (world, p, mode.read, mode.write, mode.create, mode.append),
                (after, result),
            ),
        hook.callback is None ==> {
            &&& after == world
            &&& result is Err
            &&& result->Err_0.kind == IoErrorKind::NotFound
            &&& result->Err_0.message@ == "no VFS registered"@
        },
{
}

/// A file that is only read is neither written, created nor appended to. A file
/// that is written is created where it is missing and not read, and it is
/// appended to exactly when that is asked for.
pub proof fn law_modes(append: bool)
    ensures
        read_mode().read,
        !read_mode().write && !read_mode().create && !read_mode().append,
        write_mode(append).write && write_mode(append).create && !write_mode(append).read,
        write_mode(append).append <==> append,
{
}

/// An error says exactly its kind and its message.
pub proof fn law_error_says_kind_and_message(e: IoError, kind: IoErrorKind, message: Seq<char>)
    ensures
        e.says(kind, message) <==> e.kind == kind && e.message@ == message,
{
}

/// Opening a file through the hook hands the callback the path and the four
/// flags, each at its place.
pub proof fn law_open_through_the_hook<
    W,
    F,
    O: Fn(W, &str, bool, bool, bool, bool) -> (W, Result<F, IoError>),
>(
    hook: &VfsHook<O>,
    f: O,
    world: W,
    path: &str,
    read: bool,
    write: bool,
    create: bool,
    append: bool,
    r: (W, Result<F, IoError>),
)
    requires
        call_ensures(
            wasm_open_file::<W, F, O>,
            (hook, world, path, read, write, create, append),
            r,
        ),
        hook.callback == Some(f),
    ensures
        exists|p: &str|
            p@ == path@ && #[trigger] call_ensures(
                f,
                (world, p, read, write, create, append),
                (r.0, r.1),
            ),
{
}

/// Opening a file for reading through the hook sets that flag and no other.
pub proof fn law_read_through_the_hook<
    W,
    F,
    O: Fn(W, &str, bool, bool, bool, bool) -> (W, Result<F, IoError>),
>(hook: &VfsHook<O>, f: O, world: W, path: &str, r: (W, Result<F, IoError>))
    requires
        call_ensures(wasm_open_file_for_read::<W, F, O>, (hook, world, path), r),
        hook.callback == Some(f),
    ensures
        exists|p: &str|
            p@ == path@ && #[trigger] call_ensures(
                f,
                (world, p, true, false, false, false),
                (r.0, r.1),
            ),
{
}

/// Whether a file exists is what the callback says; without one none does.
pub proof fn law_exists_through_the_hook<W, E: Fn(&W, &str) -> bool>(
    hook: &VfsHook<E>,
    f: E,
    world: &W,
    path: &str,
    r: bool,
)
    requires
        call_ensures(wasm_file_exists::<W, E>, (hook, world, path), r),
    ensures
        hook.callback == Some(f) ==> exists|p: &str|
            p@ == path@ && #[trigger] call_ensures(f, (world, p), r),
        hook.callback is None ==> !r,
{
}

/// A listing is what the callback lists; without one there is none.
pub proof fn law_list_through_the_hook<W, L: Fn(&W, &str) -> Option<Vec<VfsDirEntry>>>(
    hook: &VfsHook<L>,
    f: L,
    world: &W,
    path: &str,
    r: Option<Vec<VfsDirEntry>>,
)
    requires
        call_ensures(wasm_list_dir::<W, L>, (hook, world, path), r),
    ensures
        hook.callback == Some(f) ==> exists|p: &str|
            p@ == path@ && #[trigger] call_ensures(f, (world, p), r),
        hook.callback is None ==> r is None,
{
}

/// A record is what the callback records; without one there is none.
pub proof fn law_stat_through_the_hook<W, S: Fn(&W, &str) -> Option<VfsStat>>(
    hook: &VfsHook<S>,
    f: S,
    world: &W,
    path: &str,
    r: Option<VfsStat>,
)
    requires
        call_ensures(wasm_stat::<W, S>, (hook, world, path), r),
    ensures
        hook.callback == Some(f) ==> exists|p: &str|
            p@ == path@ && #[trigger] call_ensures(f, (world, p), r),
        hook.callback is None ==> r is None,
{
}

/// Removing is left to the callback; without one nothing is removed.
pub proof fn law_remove_through_the_hook<W, R: Fn(W, &str) -> (W, bool)>(
    hook: &VfsHook<R>,
    f: R,
    world: W,
    path: &str,
    r: (W, bool),
)
    requires
        call_ensures(wasm_remove::<W, R>, (hook, world, path), r),
    ensures
        hook.callback == Some(f) ==> exists|p: &str|
            p@ == path@ && #[trigger] call_ensures(f, (world, p), (r.0, r.1)),
        hook.callback is None ==> r.0 == world && !r.1,
{
}

/// Making a directory is left to the callback; without one nothing is made.
pub proof fn law_make_through_the_hook<W, M: Fn(W, &str) -> W>(
    hook: &VfsHook<M>,
    f: M,
    world: W,
    path: &str,
    after: W,
)
    requires
        call_ensures(wasm_mkdir::<W, M>, (hook, world, path), after),
    ensures
        hook.callback == Some(f) ==> exists|p: &str|
            p@ == path@ && #[trigger] call_ensures(f, (world, p), after),
        hook.callback is None ==> after == world,
{
}

} // verus!
