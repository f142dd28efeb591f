//! The shell and the file system: working directory, home directory, search
//! for executables, opening of files.

use vstd::prelude::*;
use vstd::string::*;

#[allow(unused_imports)]
use crate::env::VariableView;
use crate::env::Environment;
use crate::error::{IoError, ShellError};
use crate::glob::{has_wildcard, matches_glob};
#[allow(unused_imports)]
use crate::glob::{glob_matches, is_glob};
use crate::names::NameTable;
#[allow(unused_imports)]
use crate::open_files::files_by_fd;
use crate::open_files::{OpenFiles, ShellFd};
#[allow(unused_imports)]
use crate::search::{beginning, compared, executables_kept, executables_listed, matching};
use crate::search::{compared_text, keep_executable, list_chosen};
use crate::path::{
    file_name_of, join_paths, names_of, normalize, parent_of, path_is_absolute,
};
#[allow(unused_imports)]
use crate::path::{
    file_name, is_absolute, joined, lemma_normalized_idempotent, lemma_normalized_names, names,
    normalized, parent, same_path,
};
#[allow(unused_imports)]
use crate::text::{has_prefix, parsed_i32, split, texts};
use crate::text::{parse_i32, same_text, split_at_char, strip_text_prefix, text_has_prefix};
#[allow(unused_imports)]
use crate::vfs::{answers, can_ask, can_open, opens, read_mode};
use crate::vfs::{wasm_file_exists, wasm_open_file, FileOpenMode, VfsHook};

verus! {

/// A shell, as far as it has to do with files. `F` is what an open file is.
pub struct Shell<F> {
    pub env: Environment,
    pub working_dir: String,
    /// Where executables were found, by their names.
    pub program_location_cache: NameTable<String>,
    pub open_files: OpenFiles<F>,
}

/// Whether `answer` can be what the callback says of `path`.
pub open spec fn said<A, T: Fn(&str) -> A>(callback: T, path: Seq<char>, answer: A) -> bool {
    exists|p: &str| p@ == path && #[trigger] call_ensures(callback, (p,), answer)
}

/// The absolute form of `path` in the directory `working_dir`. The empty path
/// has no other form.
pub open spec fn absolute(working_dir: Seq<char>, path: Seq<char>) -> Seq<char> {
    if path.len() == 0 || is_absolute(path) {
        path
    } else {
        joined(working_dir, path)
    }
}

/// The directories of a search path.
pub open spec fn search_dirs(path_var: Option<Seq<char>>) -> Seq<Seq<char>> {
    match path_var {
        Some(s) => split(s, ':'),
        None => split(Seq::empty(), ':'),
    }
}

/// The paths at which a file of that name is searched for, in order.
pub open spec fn candidates(path_var: Option<Seq<char>>, name: Seq<char>) -> Seq<Seq<char>> {
    let dirs = search_dirs(path_var);
    Seq::new(dirs.len(), |i: int| joined(dirs[i], name))
}

/// The descriptor that a path below `/dev/fd` stands for.
pub open spec fn fd_reference(path: Seq<char>) -> Option<ShellFd> {
    match (parent(path), file_name(path)) {
        (Some(dir), Some(name)) if same_path(dir, "/dev/fd"@) => parsed_i32(name),
        _ => None,
    }
}

/// `s` with the home directory at its beginning written as a tilde.
pub open spec fn shortened(home: Option<Seq<char>>, s: Seq<char>) -> Seq<char> {
    match home {
        Some(h) if has_prefix(s, h) => seq!['~'] + s.skip(h.len() as int),
        _ => s,
    }
}

/// What entering the directory at `path` makes of the shell. The path is
/// normalized and becomes the working directory; `PWD` holds it and `OLDPWD`
/// the directory before. A read-only `PWD` stops all of it, a read-only
/// `OLDPWD` only the last of it.
pub open spec fn entered<F>(
    before: Shell<F>,
    path: Seq<char>,
    after: Shell<F>,
    result: Result<(), ShellError>,
) -> bool {
    let dir = normalized(path);
    &&& after.program_location_cache == before.program_location_cache
    &&& after.open_files == before.open_files
    &&& if before.env.is_readonly("PWD"@) {
        &&& result matches Err(ShellError::ReadonlyVariable(name)) && name@ == "PWD"@
        &&& after.env == before.env
        &&& after.working_dir == before.working_dir
    } else {
        &&& after.working_dir@ == dir
        &&& after.env.variable("PWD"@) == Some(VariableView { value: dir, readonly: false })
        &&& forall|name: Seq<char>|
            name != "PWD"@ && name != "OLDPWD"@ ==> #[trigger] after.env.variable(name)
                == before.env.variable(name)
        &&& if before.env.is_readonly("OLDPWD"@) {
            &&& result matches Err(ShellError::ReadonlyVariable(name)) && name@ == "OLDPWD"@
            &&& after.env.variable("OLDPWD"@) == before.env.variable("OLDPWD"@)
        } else {
            &&& result is Ok
            &&& after.env.variable("OLDPWD"@) == Some(
                VariableView { value: before.working_dir@, readonly: false },
            )
        }
    }
}

/// Splits a search path into its directories.
pub fn split_paths(s: &str) -> (dirs: Vec<String>)
    ensures
        texts(dirs@) == split(s@, ':'),
{
    split_at_char(s, ':')
}

proof fn lemma_pwd_names()
    ensures
        "PWD"@ != "OLDPWD"@,
{
    reveal_strlit("PWD");
    reveal_strlit("OLDPWD");
    assert("PWD"@.len() != "OLDPWD"@.len());
}

impl<F> Shell<F> {
    /// A shell in the given directory, without variables and open files.
    pub fn new(working_dir: &str) -> (shell: Shell<F>)
        ensures
            shell.working_dir@ == working_dir@,
            forall|name: Seq<char>| #[trigger] shell.env.variable(name) is None,
            forall|name: Seq<char>| #[trigger] shell.program_location_cache.lookup(name) is None,
            shell.open_files@ == Map::<ShellFd, F>::empty(),
    {
        Shell {
            env: Environment::new(),
            working_dir: working_dir.to_owned(),
            program_location_cache: NameTable::new(),
            open_files: OpenFiles::new(),
        }
    }

    /// The absolute form of a path.
    pub fn absolute_path(&self, path: &str) -> (r: String)
        ensures
            r@ == absolute(self.working_dir@, path@),
    {
        if path.is_empty() || path_is_absolute(path) {
            path.to_owned()
        } else {
            join_paths(self.working_dir.as_str(), path)
        }
    }

    /// Makes the directory at `path`, which was found to be one, the working
    /// directory.
    pub fn enter_directory(&mut self, path: &str) -> (r: Result<(), ShellError>)
        ensures
            entered(*old(self), path@, *final(self), r),
    {
        proof {
            lemma_pwd_names();
        }
        let dir = normalize(path);
        match self.env.update_or_add("PWD", dir.as_str()) {
            Ok(()) => {},
            Err(e) => {
                return Err(e);
            },
        }
        let previous = self.working_dir.clone();
        self.working_dir = dir;
        self.env.update_or_add("OLDPWD", previous.as_str())
    }

    /// Changes the working directory. Where a virtual file system is
    /// registered and knows the path, or the path is the root, that is enough.
    /// Otherwise `metadata` of the path has to say that it is a directory.
    pub fn set_working_dir<
        W,
        E: Fn(&W, &str) -> bool,
        D: Fn(&str) -> Result<bool, IoError>,
    >(
        &mut self,
        exists_hook: &VfsHook<E>,
        world: &W,
        metadata: D,
        target_dir: &str,
    ) -> (r: Result<(), ShellError>)
        requires
            can_ask::<W, bool, E>(*exists_hook),
            forall|p: &str| #[trigger] call_requires(metadata, (p,)),
        ensures
            ({
                let path = absolute(old(self).working_dir@, target_dir@);
                exists|known: bool|
                    {
                        &&& #[trigger] answers(*exists_hook, *world, path, false, known)
                        &&& if exists_hook.callback is Some && (known || path == "/"@) {
                            entered(*old(self), path, *final(self), r)
                        } else {
                            exists|found: Result<bool, IoError>|
                                {
                                    &&& #[trigger] said(metadata, path, found)
                                    &&& match found {
                                        Ok(true) => entered(*old(self), path, *final(self), r),
                                        Ok(false) => {
                                            &&& r matches Err(ShellError::NotADirectory(p)) && p@
                                                == path
                                            &&& *final(self) == *old(self)
                                        },
                                        Err(e) => {
                                            &&& r == Err::<(), ShellError>(ShellError::Io(e))
                                            &&& *final(self) == *old(self)
                                        },
                                    }
                                }
                        }
                    }
            }),
    {
        let path = self.absolute_path(target_dir);
        let known = wasm_file_exists(exists_hook, world, path.as_str());
        let registered = exists_hook.callback.is_some();
        if registered && (known || same_text(path.as_str(), "/")) {
            let r = self.enter_directory(path.as_str());
            assert(answers(*exists_hook, *world, path@, false, known));
            return r;
        }
        assert(answers(*exists_hook, *world, path@, false, known));
        let found = metadata(path.as_str());
        assert(said(metadata, path@, found));
        match found {
            Ok(is_dir) => {
                if is_dir {
                    self.enter_directory(path.as_str())
                } else {
                    Err(ShellError::NotADirectory(path))
                }
            },
            Err(e) => Err(ShellError::Io(e)),
        }
    }

    /// The home directory: the value of `HOME` or, where it is not set, what
    /// the system says of the user.
    pub open spec fn home(self, user_home: Option<Seq<char>>) -> Option<Seq<char>> {
        match self.env.value("HOME"@) {
            Some(h) => Some(h),
            None => user_home,
        }
    }

    /// The home directory: the value of `HOME` or, where it is not set,
    /// `user_home`, which is what the system says of the user.
    pub fn home_dir(&self, user_home: Option<String>) -> (r: Option<String>)
        ensures
            match r {
                Some(h) => self.home(
                    match user_home {
                        Some(u) => Some(u@),
                        None => None,
                    },
                ) == Some(h@),
                None => self.env.value("HOME"@) is None && user_home is None,
            },
    {
        match self.env.get_str("HOME") {
            Some(home) => Some(home),
            None => user_home,
        }
    }

    /// Writes the home directory at the beginning of a text as a tilde.
    pub fn tilde_shorten(&self, s: String, user_home: Option<String>) -> (r: String)
        ensures
            r@ == shortened(
                self.home(
                    match user_home {
                        Some(u) => Some(u@),
                        None => None,
                    },
                ),
                s@,
            ),
    {
        if let Some(home) = self.home_dir(user_home) {
            if let Some(stripped) = strip_text_prefix(s.as_str(), home.as_str()) {
                let mut r = String::new();
                r.push('~');
                r.append(stripped.as_str());
                assert(r@ =~= seq!['~'] + stripped@);
                return r;
            }
        }
        s
    }

    /// The directories of the search path.
    fn path_dirs(&self) -> (dirs: Vec<String>)
        ensures
            texts(dirs@) == search_dirs(self.env.value("PATH"@)),
    {
        let path_var = match self.env.get_str("PATH") {
            Some(s) => s,
            None => String::new(),
        };
        assert(self.env.value("PATH"@) is None ==> path_var@ =~= Seq::<char>::empty());
        split_paths(path_var.as_str())
    }

    /// The paths at which a file of that name is searched for.
    fn named_candidates(&self, name: &str) -> (r: Vec<String>)
        ensures
            texts(r@) == candidates(self.env.value("PATH"@), name@),
    {
        let dirs = self.path_dirs();
        let ghost named = candidates(self.env.value("PATH"@), name@);
        let mut r: Vec<String> = Vec::new();
        let mut i: usize = 0;
        assert(texts(r@) =~= named.take(0));
        while i < dirs.len()
            invariant
                i <= dirs@.len(),
                texts(dirs@) == search_dirs(self.env.value("PATH"@)),
                named == candidates(self.env.value("PATH"@), name@),
                dirs@.len() == named.len(),
                texts(r@) == named.take(i as int),
            decreases dirs@.len() - i,
        {
            assert(texts(dirs@)[i as int] == dirs@[i as int]@);
            let ghost before = r@;
            r.push(join_paths(dirs[i].as_str(), name));
            assert(texts(r@) =~= texts(before).push(named[i as int]));
            assert(named.take(i + 1) =~= named.take(i as int).push(named[i as int]));
            i = i + 1;
        }
        assert(named.take(named.len() as int) =~= named);
        r
    }

    /// Finds the files on the search path that match the glob pattern and that
    /// `executable` says can be executed, in the order of the search path and,
    /// within a directory, in the order in which `list` gives its names. A
    /// pattern in which nothing stands for more than itself is a name and is
    /// looked for in every directory without listing it.
    pub fn find_executables_in_path<L: Fn(&str) -> Vec<String>, X: Fn(&str) -> bool>(
        &self,
        pattern: &str,
        list: L,
        executable: X,
    ) -> (r: Vec<String>)
        requires
            forall|p: &str| #[trigger] call_requires(list, (p,)),
            forall|p: &str| #[trigger] call_requires(executable, (p,)),
        ensures
            is_glob(pattern@) ==> exists|listings: Seq<Seq<Seq<char>>>, flags: Seq<bool>| #[trigger]
                executables_listed(
                    search_dirs(self.env.value("PATH"@)),
                    matching(pattern@),
                    list,
                    executable,
                    listings,
                    flags,
                    texts(r@),
                ),
            !is_glob(pattern@) ==> exists|flags: Seq<bool>| #[trigger]
                executables_kept(
                    candidates(self.env.value("PATH"@), pattern@),
                    executable,
                    flags,
                    texts(r@),
                ),
    {
        if has_wildcard(pattern) {
            let dirs = self.path_dirs();
            let test = |name: &str| -> (b: bool)
                ensures
                    b == glob_matches(pattern@, name@),
                { matches_glob(pattern, name) };
            let (all, Ghost(listings)) = list_chosen(
                &dirs,
                &list,
                &test,
                Ghost(matching(pattern@)),
            );
            let (r, Ghost(flags)) = keep_executable(&all, &executable);
            assert(executables_listed(
                search_dirs(self.env.value("PATH"@)),
                matching(pattern@),
                list,
                executable,
                listings,
                flags,
                texts(r@),
            ));
            r
        } else {
            let all = self.named_candidates(pattern);
            let (r, Ghost(flags)) = keep_executable(&all, &executable);
            r
        }
    }

    /// Finds the files on the search path whose names begin with the prefix and
    /// that `executable` says can be executed, in the order of the search path
    /// and, within a directory, in the order in which `list` gives its names.
    /// Where the case of letters does not count, the lower case of the names
    /// and of the prefix is compared.
    pub fn find_executables_in_path_with_prefix<
        L: Fn(&str) -> Vec<String>,
        X: Fn(&str) -> bool,
    >(
        &self,
        filename_prefix: &str,
        case_insensitive: bool,
        list: L,
        executable: X,
    ) -> (r: Vec<String>)
        requires
            forall|p: &str| #[trigger] call_requires(list, (p,)),
            forall|p: &str| #[trigger] call_requires(executable, (p,)),
        ensures
            exists|listings: Seq<Seq<Seq<char>>>, flags: Seq<bool>| #[trigger]
                executables_listed(
                    search_dirs(self.env.value("PATH"@)),
                    beginning(filename_prefix@, case_insensitive),
                    list,
                    executable,
                    listings,
                    flags,
                    texts(r@),
                ),
    {
        let dirs = self.path_dirs();
        let key = compared_text(filename_prefix, case_insensitive);
        let test = |name: &str| -> (b: bool)
            ensures
                b == has_prefix(compared(name@, case_insensitive), key@),
            {
                let name_key = compared_text(name, case_insensitive);
                text_has_prefix(name_key.as_str(), key.as_str())
            };
        let (all, Ghost(listings)) = list_chosen(
            &dirs,
            &list,
            &test,
            Ghost(beginning(filename_prefix@, case_insensitive)),
        );
        let (r, Ghost(flags)) = keep_executable(&all, &executable);
        assert(executables_listed(
            search_dirs(self.env.value("PATH"@)),
            beginning(filename_prefix@, case_insensitive),
            list,
            executable,
            listings,
            flags,
            texts(r@),
        ));
        r
    }

    /// Finds the first file of that name on the search path that `executable`
    /// says can be executed.
    pub fn find_first_executable_in_path<X: Fn(&str) -> bool>(
        &self,
        candidate_name: &str,
        executable: &X,
    ) -> (r: Option<String>)
        requires
            forall|p: &str| #[trigger] call_requires(*executable, (p,)),
        ensures
            first_found(
                candidates(self.env.value("PATH"@), candidate_name@),
                *executable,
                match r {
                    Some(p) => Some(p@),
                    None => None,
                },
            ),
    {
        let dirs = self.path_dirs();
        let ghost list = candidates(self.env.value("PATH"@), candidate_name@);
        let mut i: usize = 0;
        while i < dirs.len()
            invariant
                i <= dirs@.len(),
                dirs@.len() == list.len(),
                texts(dirs@) == search_dirs(self.env.value("PATH"@)),
                list == candidates(self.env.value("PATH"@), candidate_name@),
                forall|p: &str| #[trigger] call_requires(*executable, (p,)),
                forall|k: int| 0 <= k < i ==> said(*executable, #[trigger] list[k], false),
            decreases dirs@.len() - i,
        {
            let candidate = join_paths(dirs[i].as_str(), candidate_name);
            assert(texts(dirs@)[i as int] == dirs@[i as int]@);
            assert(candidate@ == list[i as int]);
            let found = executable(candidate.as_str());
            assert(said(*executable, list[i as int], found));
            if found {
                return Some(candidate);
            }
            i = i + 1;
        }
        None
    }

    /// The place of an executable: the remembered one or, where none is
    /// remembered, the first on the search path, which is then remembered.
    pub fn find_first_executable_in_path_using_cache<X: Fn(&str) -> bool>(
        &mut self,
        candidate_name: &str,
        executable: &X,
    ) -> (r: Option<String>)
        requires
            forall|p: &str| #[trigger] call_requires(*executable, (p,)),
        ensures
            final(self).env == old(self).env,
            final(self).working_dir == old(self).working_dir,
            final(self).open_files == old(self).open_files,
            match old(self).program_location_cache.lookup(candidate_name@) {
                Some(known) => r == Some(known) && *final(self) == *old(self),
                None => {
                    &&& first_found(
                        candidates(old(self).env.value("PATH"@), candidate_name@),
                        *executable,
                        match r {
                            Some(p) => Some(p@),
                            None => None,
                        },
                    )
                    &&& r is None ==> *final(self) == *old(self)
                    &&& r is Some ==> final(self).program_location_cache.lookup(candidate_name@) == r
                    &&& forall|other: Seq<char>|
                        other != candidate_name@ ==> #[trigger] final(self).program_location_cache.lookup(other)
                            == old(self).program_location_cache.lookup(other)
                },
            },
    {
        let cached = match self.program_location_cache.get(candidate_name) {
            Some(path) => Some(path.clone()),
            None => None,
        };
        if let Some(path) = cached {
            return Some(path);
        }
        match self.find_first_executable_in_path(candidate_name, executable) {
            Some(found) => {
                self.program_location_cache.set(candidate_name, found.clone());
                Some(found)
            },
            None => None,
        }
    }

    /// Opens a file for reading.
    pub fn open_file<
        W,
        T: Fn(ShellFd) -> Option<F>,
        C: Fn(F) -> Result<F, IoError>,
        O: Fn(W, &str, bool, bool, bool, bool) -> (W, Result<F, IoError>),
        N: Fn(W, &str) -> (W, Result<F, IoError>),
    >(
        &self,
        path: &str,
        try_fd: T,
        try_clone: C,
        open_hook: &VfsHook<O>,
        world: W,
        open_native: N,
    ) -> (r: (W, Result<F, IoError>))
        requires
            forall|fd: ShellFd| #[trigger] call_requires(try_fd, (fd,)),
            forall|f: F| #[trigger] call_requires(try_clone, (f,)),
            can_open::<W, F, O>(*open_hook),
            forall|w: W, p: &str| #[trigger] call_requires(open_native, (w, p)),
        ensures
            opened(
                absolute(self.working_dir@, path@),
                read_mode(),
                try_fd,
                try_clone,
                *open_hook,
                open_native,
                world,
                r.0,
                r.1,
            ),
    {
        let mode = FileOpenMode { read: true, write: false, create: false, append: false };
        self.open_file_with_mode(
            path,
            Some(mode),
            try_fd,
            try_clone,
            open_hook,
            world,
            open_native,
        )
    }

    /// Opens a file in the given mode. A path below `/dev/fd` that ends in the
    /// number of an open descriptor, which `try_fd` knows, gives a duplicate of
    /// that file. Every other path is opened in the virtual file system where
    /// one is registered, and otherwise by `open_native`.
    pub fn open_file_with_mode<
        W,
        T: Fn(ShellFd) -> Option<F>,
        C: Fn(F) -> Result<F, IoError>,
        O: Fn(W, &str, bool, bool, bool, bool) -> (W, Result<F, IoError>),
        N: Fn(W, &str) -> (W, Result<F, IoError>),
    >(
        &self,
        path: &str,
        mode: Option<FileOpenMode>,
        try_fd: T,
        try_clone: C,
        open_hook: &VfsHook<O>,
        world: W,
        open_native: N,
    ) -> (r: (W, Result<F, IoError>))
        requires
            forall|fd: ShellFd| #[trigger] call_requires(try_fd, (fd,)),
            forall|f: F| #[trigger] call_requires(try_clone, (f,)),
            can_open::<W, F, O>(*open_hook),
            forall|w: W, p: &str| #[trigger] call_requires(open_native, (w, p)),
        ensures
            opened(
                absolute(self.working_dir@, path@),
                mode_or_none(mode),
                try_fd,
                try_clone,
                *open_hook,
                open_native,
                world,
                r.0,
                r.1,
            ),
    {
        let path_to_open = self.absolute_path(path);
        let ghost abs = path_to_open@;
        let reference = referenced_fd(path_to_open.as_str());
        if let Some(fd) = reference {
            if let Some(file) = try_fd(fd) {
                assert(call_ensures(try_fd, (fd,), Some(file)));
                return (world, try_clone(file));
            }
            assert(call_ensures(try_fd, (fd,), None::<F>));
        }
        if open_hook.callback.is_some() {
            let m = match mode {
                Some(m) => m,
                None => FileOpenMode { read: false, write: false, create: false, append: false },
            };
            assert(m == mode_or_none(mode));
            return wasm_open_file(
                open_hook,
                world,
                path_to_open.as_str(),
                m.read,
                m.write,
                m.create,
                m.append,
            );
        }
        let r = open_native(world, path_to_open.as_str());
        assert(r == (r.0, r.1));
        r
    }

    /// Puts the given files in the place of those that are open.
    pub fn replace_open_files(&mut self, open_fds: Vec<(ShellFd, F)>)
        ensures
            final(self).open_files@ == files_by_fd(open_fds@),
            final(self).env == old(self).env,
            final(self).working_dir == old(self).working_dir,
            final(self).program_location_cache == old(self).program_location_cache,
    {
        self.open_files = OpenFiles::from_fds(open_fds);
    }

    /// The open files.
    pub fn persistent_open_files(&self) -> (r: &OpenFiles<F>)
        ensures
            *r == self.open_files,
    {
        &self.open_files
    }
}

/// The mode, or the one in which nothing is asked for.
pub open spec fn mode_or_none(mode: Option<FileOpenMode>) -> FileOpenMode {
    match mode {
        Some(m) => m,
        None => FileOpenMode { read: false, write: false, create: false, append: false },
    }
}

/// Whether `found` can be the first of the paths that can be executed.
pub open spec fn first_found<X: Fn(&str) -> bool>(
    list: Seq<Seq<char>>,
    executable: X,
    found: Option<Seq<char>>,
) -> bool {
    match found {
        Some(p) => exists|k: int|
            {
                &&& 0 <= k < list.len()
                &&& p == #[trigger] list[k]
                &&& said(executable, list[k], true)
                &&& forall|j: int| 0 <= j < k ==> said(executable, #[trigger] list[j], false)
            },
        None => forall|j: int| 0 <= j < list.len() ==> said(executable, #[trigger] list[j], false),
    }
}

/// Whether opening the file at `path` can leave `after` and give `result`.
pub open spec fn opened<
    W,
    F,
    T: Fn(ShellFd) -> Option<F>,
    C: Fn(F) -> Result<F, IoError>,
    O: Fn(W, &str, bool, bool, bool, bool) -> (W, Result<F, IoError>),
    N: Fn(W, &str) -> (W, Result<F, IoError>),
>(
    path: Seq<char>,
    mode: FileOpenMode,
    try_fd: T,
    try_clone: C,
    open_hook: VfsHook<O>,
    open_native: N,
    world: W,
    after: W,
    result: Result<F, IoError>,
) -> bool {
    let by_path = if open_hook.callback is Some {
        opens(open_hook, world, path, mode, after, result)
    } else {
        exists|p: &str|
            p@ == path && #[trigger] call_ensures(open_native, (world, p), (after, result))
    };
    match fd_reference(path) {
        Some(fd) => {
            ||| exists|file: F|
                {
                    &&& #[trigger] call_ensures(try_fd, (fd,), Some(file))
                    &&& call_ensures(try_clone, (file,), result)
                    &&& after == world
                }
            ||| call_ensures(try_fd, (fd,), None::<F>) && by_path
        },
        None => by_path,
    }
}

/// The descriptor that a path below `/dev/fd` stands for.
pub fn referenced_fd(path: &str) -> (r: Option<ShellFd>)
    ensures
        r == fd_reference(path@),
{
    if let Some(dir) = parent_of(path) {
        if path_is_absolute(dir.as_str()) == path_is_absolute("/dev/fd") && same_names(
            &names_of(dir.as_str()),
            &names_of("/dev/fd"),
        ) {
            if let Some(name) = file_name_of(path) {
                return parse_i32(name.as_str());
            }
        }
    }
    None
}

/// Whether the two lists hold the same texts.
fn same_names(a: &Vec<String>, b: &Vec<String>) -> (r: bool)
    ensures
        r == (texts(a@) == texts(b@)),
{
    if a.len() != b.len() {
        assert(texts(a@).len() != texts(b@).len());
        return false;
    }
    let mut i: usize = 0;
    while i < a.len()
        invariant
            i <= a@.len(),
            a@.len() == b@.len(),
            forall|k: int| 0 <= k < i ==> (#[trigger] a@[k])@ == b@[k]@,
        decreases a@.len() - i,
    {
        if !same_text(a[i].as_str(), b[i].as_str()) {
            assert(texts(a@)[i as int] != texts(b@)[i as int]);
            return false;
        }
        i = i + 1;
    }
    assert(texts(a@) =~= texts(b@));
    true
}

/// A shell that is in an absolute directory stays in one when it enters the
/// absolute form of a path that is not empty.
pub proof fn lemma_working_dir_stays_absolute<F>(
    before: Shell<F>,
    target: Seq<char>,
    after: Shell<F>,
    result: Result<(), ShellError>,
)
    requires
        is_absolute(before.working_dir@),
        target.len() > 0,
        entered(before, absolute(before.working_dir@, target), after, result),
    ensures
        is_absolute(after.working_dir@),
{
    lemma_normalized_names(absolute(before.working_dir@, target));
}

/// After a change of directory, the working directory is normalized, and
/// `PWD` holds it.
pub proof fn lemma_pwd_is_working_dir<F>(
    before: Shell<F>,
    path: Seq<char>,
    after: Shell<F>,
    result: Result<(), ShellError>,
)
    requires
        entered(before, path, after, result),
        result is Ok,
    ensures
        after.env.value("PWD"@) == Some(after.working_dir@),
        after.env.value("OLDPWD"@) == Some(before.working_dir@),
        normalized(after.working_dir@) == after.working_dir@,
{
    lemma_normalized_idempotent(path);
}

/// Entering a directory and then the one that `OLDPWD` holds leads back to
/// where the shell was, when that was a normalized path.
pub proof fn lemma_change_back<F>(
    first: Shell<F>,
    path: Seq<char>,
    second: Shell<F>,
    result: Result<(), ShellError>,
    third: Shell<F>,
    result_back: Result<(), ShellError>,
)
    requires
        normalized(first.working_dir@) == first.working_dir@,
        entered(first, path, second, result),
        result is Ok,
        entered(second, second.env.value("OLDPWD"@)->0, third, result_back),
    ensures
        result_back is Ok,
        third.working_dir@ == first.working_dir@,
        third.env.value("PWD"@) == Some(first.working_dir@),
        third.env.value("OLDPWD"@) == Some(second.working_dir@),
{
}

/// What was shortened to a tilde is the home directory.
pub proof fn lemma_tilde_stands_for_home(home: Seq<char>, s: Seq<char>)
    requires
        has_prefix(s, home),
    ensures
        shortened(Some(home), s).len() > 0,
        shortened(Some(home), s)[0] == '~',
        home + shortened(Some(home), s).skip(1) == s,
{
    assert(home + shortened(Some(home), s).skip(1) =~= s);
}

} // verus!
