//! The hooks through which the shell reaches a virtual file system.
//!
//! A hook is a callback that somebody registers. It is handed the file system
//! as a value, `world`: one that only asks is handed a reference, one that can
//! change the file system takes it and gives it back. So what a function does
//! to the file system is what its contract says of the world it gives back.

use vstd::prelude::*;
use vstd::string::*;

use crate::error::{IoError, IoErrorKind};
use crate::wasm_vfs::{VfsDirEntry, VfsStat};

verus! {

/// A place for a callback, empty until one is registered.
pub struct VfsHook<T> {
    pub callback: Option<T>,
}

impl<T> VfsHook<T> {
    /// A hook without a callback.
    pub fn unregistered() -> (hook: VfsHook<T>)
        ensures
            hook.callback is None,
    {
        VfsHook { callback: None }
    }

    /// A hook with a callback.
    pub fn registered(callback: T) -> (hook: VfsHook<T>)
        ensures
            hook.callback == Some(callback),
    {
        VfsHook { callback: Some(callback) }
    }
}

/// All hooks of a virtual file system.
pub struct VfsHooks<O, E, L, R, S, M> {
    pub open: VfsHook<O>,
    pub exists: VfsHook<E>,
    pub list_dir: VfsHook<L>,
    pub remove: VfsHook<R>,
    pub stat: VfsHook<S>,
    pub mkdir: VfsHook<M>,
}

/// How a file is to be opened.
#[derive(Clone, Copy, Debug)]
pub struct FileOpenMode {
    /// Open for reading.
    pub read: bool,
    /// Open for writing.
    pub write: bool,
    /// Create the file if it doesn't exist.
    pub create: bool,
    /// Append to the file instead of truncating.
    pub append: bool,
}

impl Default for FileOpenMode {
    fn default() -> (mode: FileOpenMode)
        ensures
            !mode.read && !mode.write && !mode.create && !mode.append,
    {
        FileOpenMode { read: false, write: false, create: false, append: false }
    }
}

/// Whether the callback that asks, if there is one, can be called.
pub open spec fn can_ask<W, A, T: Fn(&W, &str) -> A>(hook: VfsHook<T>) -> bool {
    hook.callback matches Some(f) ==> forall|w: W, p: &str| #[trigger] call_requires(f, (&w, p))
}

/// Whether `answer` can be what the hook says of `path`: an answer of the
/// callback or, without a callback, `otherwise`.
pub open spec fn answers<W, A, T: Fn(&W, &str) -> A>(
    hook: VfsHook<T>,
    world: W,
    path: Seq<char>,
    otherwise: A,
    answer: A,
) -> bool {
    match hook.callback {
        Some(f) => exists|p: &str| p@ == path && #[trigger] call_ensures(f, (&world, p), answer),
        None => answer == otherwise,
    }
}

/// Whether the callback that removes, if there is one, can be called.
pub open spec fn can_remove<W, R: Fn(W, &str) -> (W, bool)>(hook: VfsHook<R>) -> bool {
    hook.callback matches Some(f) ==> forall|w: W, p: &str| #[trigger] call_requires(f, (w, p))
}

/// Whether removing `path` from `world` can leave `after` and say `removed`.
/// Without a callback nothing is removed.
pub open spec fn removes<W, R: Fn(W, &str) -> (W, bool)>(
    hook: VfsHook<R>,
    world: W,
    path: Seq<char>,
    after: W,
    removed: bool,
) -> bool {
    match hook.callback {
        Some(f) => exists|p: &str| p@ == path && #[trigger] call_ensures(
            f,
            (world, p),
            (after, removed),
        ),
        None => after == world && !removed,
    }
}

/// Whether the callback that makes directories, if there is one, can be called.
pub open spec fn can_make<W, M: Fn(W, &str) -> W>(hook: VfsHook<M>) -> bool {
    hook.callback matches Some(f) ==> forall|w: W, p: &str| #[trigger] call_requires(f, (w, p))
}

/// Whether making the directory `path` in `world` can leave `after`. Without a
/// callback nothing is made.
pub open spec fn makes<W, M: Fn(W, &str) -> W>(
    hook: VfsHook<M>,
    world: W,
    path: Seq<char>,
    after: W,
) -> bool {
    match hook.callback {
        Some(f) => exists|p: &str| p@ == path && #[trigger] call_ensures(f, (world, p), after),
        None => after == world,
    }
}

/// Whether the callback that opens, if there is one, can be called.
pub open spec fn can_open<W, F, O: Fn(W, &str, bool, bool, bool, bool) -> (W, Result<F, IoError>)>(
    hook: VfsHook<O>,
) -> bool {
    hook.callback matches Some(f) ==> forall|w: W, p: &str, r: bool, w2: bool, c: bool, a: bool|
        #[trigger]
        call_requires(f, (w, p, r, w2, c, a))
}

/// Whether opening `path` in `world` can leave `after` and give `result`.
/// Without a callback nothing is found.
pub open spec fn opens<W, F, O: Fn(W, &str, bool, bool, bool, bool) -> (W, Result<F, IoError>)>(
    hook: VfsHook<O>,
    world: W,
    path: Seq<char>,
    mode: FileOpenMode,
    after: W,
    result: Result<F, IoError>,
) -> bool {
    match hook.callback {
        Some(f) => exists|p: &str|
            p@ == path && #[trigger] call_ensures(
                f,
                (world, p, mode.read, mode.write, mode.create, mode.append),
                (after, result),
            ),
        None => {
            &&& after == world
            &&& result matches Err(e) && e.says(IoErrorKind::NotFound, "no VFS registered"@)
        },
    }
}

/// The mode in which a file is only read.
pub open spec fn read_mode() -> FileOpenMode {
    FileOpenMode { read: true, write: false, create: false, append: false }
}

/// The mode in which a file is written, at its end or from the beginning.
pub open spec fn write_mode(append: bool) -> FileOpenMode {
    FileOpenMode { read: false, write: true, create: true, append }
}

/// Registers the callbacks that open files and tell whether they exist.
pub fn set_wasm_vfs<O, E>(
    open_hook: &mut VfsHook<O>,
    exists_hook: &mut VfsHook<E>,
    open_fn: O,
    exists_fn: E,
)
    ensures
        final(open_hook).callback == Some(open_fn),
        final(exists_hook).callback == Some(exists_fn),
{
    open_hook.callback = Some(open_fn);
    exists_hook.callback = Some(exists_fn);
}

/// Registers the callbacks that list directories, remove, tell what is known of
/// a file, and make directories.
pub fn set_wasm_vfs_extended<L, R, S, M>(
    list_dir_hook: &mut VfsHook<L>,
    remove_hook: &mut VfsHook<R>,
    stat_hook: &mut VfsHook<S>,
    mkdir_hook: &mut VfsHook<M>,
    list_dir_fn: L,
    remove_fn: R,
    stat_fn: S,
    mkdir_fn: M,
)
    ensures
        final(list_dir_hook).callback == Some(list_dir_fn),
        final(remove_hook).callback == Some(remove_fn),
        final(stat_hook).callback == Some(stat_fn),
        final(mkdir_hook).callback == Some(mkdir_fn),
{
    list_dir_hook.callback = Some(list_dir_fn);
    remove_hook.callback = Some(remove_fn);
    stat_hook.callback = Some(stat_fn);
    mkdir_hook.callback = Some(mkdir_fn);
}

/// Opens a file.
pub fn wasm_open_file<
    W,
    F,
    O: Fn(W, &str, bool, bool, bool, bool) -> (W, Result<F, IoError>),
>(
    hook: &VfsHook<O>,
    world: W,
    path: &str,
    read: bool,
    write: bool,
    create: bool,
    append: bool,
) -> (r: (W, Result<F, IoError>))
    requires
        can_open::<W, F, O>(*hook),
    ensures
        opens(
            *hook,
            world,
            path@,
            (FileOpenMode { read, write, create, append }),
            r.0,
            r.1,
        ),
{
    match &hook.callback {
        Some(f) => {
            let r = f(world, path, read, write, create, append);
            assert(r == (r.0, r.1));
            r
        },
        None => (world, Err(IoError::new(IoErrorKind::NotFound, "no VFS registered"))),
    }
}

/// Opens a file for reading only.
pub fn wasm_open_file_for_read<
    W,
    F,
    O: Fn(W, &str, bool, bool, bool, bool) -> (W, Result<F, IoError>),
>(hook: &VfsHook<O>, world: W, path: &str) -> (r: (W, Result<F, IoError>))
    requires
        can_open::<W, F, O>(*hook),
    ensures
        opens(*hook, world, path@, read_mode(), r.0, r.1),
{
    wasm_open_file(hook, world, path, true, false, false, false)
}

/// Whether the file exists.
pub fn wasm_file_exists<W, E: Fn(&W, &str) -> bool>(
    hook: &VfsHook<E>,
    world: &W,
    path: &str,
) -> (r: bool)
    requires
        can_ask::<W, bool, E>(*hook),
    ensures
        answers(*hook, *world, path@, false, r),
{
    match &hook.callback {
        Some(f) => f(world, path),
        None => false,
    }
}

/// The entries of a directory.
pub fn wasm_list_dir<W, L: Fn(&W, &str) -> Option<Vec<VfsDirEntry>>>(
    hook: &VfsHook<L>,
    world: &W,
    path: &str,
) -> (r: Option<Vec<VfsDirEntry>>)
    requires
        can_ask::<W, Option<Vec<VfsDirEntry>>, L>(*hook),
    ensures
        answers(*hook, *world, path@, None, r),
{
    match &hook.callback {
        Some(f) => f(world, path),
        None => None,
    }
}

/// Removes a file or an empty directory.
pub fn wasm_remove<W, R: Fn(W, &str) -> (W, bool)>(
    hook: &VfsHook<R>,
    world: W,
    path: &str,
) -> (r: (W, bool))
    requires
        can_remove::<W, R>(*hook),
    ensures
        removes(*hook, world, path@, r.0, r.1),
{
    match &hook.callback {
        Some(f) => {
            let r = f(world, path);
            assert(r == (r.0, r.1));
            r
        },
        None => (world, false),
    }
}

/// What is known of a file or directory.
pub fn wasm_stat<W, S: Fn(&W, &str) -> Option<VfsStat>>(
    hook: &VfsHook<S>,
    world: &W,
    path: &str,
) -> (r: Option<VfsStat>)
    requires
        can_ask::<W, Option<VfsStat>, S>(*hook),
    ensures
        answers(*hook, *world, path@, None, r),
{
    match &hook.callback {
        Some(f) => f(world, path),
        None => None,
    }
}

/// Makes a directory.
pub fn wasm_mkdir<W, M: Fn(W, &str) -> W>(hook: &VfsHook<M>, world: W, path: &str) -> (after: W)
    requires
        can_make::<W, M>(*hook),
    ensures
        makes(*hook, world, path@, after),
{
    match &hook.callback {
        Some(f) => f(world, path),
        None => world,
    }
}

} // verus!
