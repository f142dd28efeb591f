//! The files that a shell has open, by their descriptors.

use std::collections::HashMap;
use vstd::prelude::*;

verus! {

broadcast use vstd::std_specs::hash::group_hash_axioms;

/// The number of an open file.
pub type ShellFd = i32;

/// The open files of a shell.
pub struct OpenFiles<F> {
    pub files: HashMap<ShellFd, F>,
}

/// The files by their descriptors; of several with one descriptor the last
/// counts.
pub open spec fn files_by_fd<F>(fds: Seq<(ShellFd, F)>) -> Map<ShellFd, F>
    decreases fds.len(),
{
    if fds.len() == 0 {
        Map::empty()
    } else {
        files_by_fd(fds.drop_last()).insert(fds.last().0, fds.last().1)
    }
}

/// Of several files given for one descriptor, the last is the one that is open.
pub proof fn lemma_last_file_counts<F>(fds: Seq<(ShellFd, F)>, i: int)
    requires
        0 <= i < fds.len(),
        forall|j: int| i < j < fds.len() ==> (#[trigger] fds[j]).0 != fds[i].0,
    ensures
        files_by_fd(fds).contains_key(fds[i].0),
        files_by_fd(fds)[fds[i].0] == fds[i].1,
    decreases fds.len(),
{
    if i < fds.len() - 1 {
        let front = fds.drop_last();
        assert(fds[fds.len() - 1].0 != fds[i].0);
        assert forall|j: int| i < j < front.len() implies (#[trigger] front[j]).0 != front[i].0 by {
            assert(fds[j].0 != fds[i].0);
        }
        lemma_last_file_counts(front, i);
    }
}

impl<F> OpenFiles<F> {
    /// The open files by their descriptors.
    pub open spec fn view(self) -> Map<ShellFd, F> {
        self.files@
    }

    /// No open files.
    pub fn new() -> (r: OpenFiles<F>)
        ensures
            r@ == Map::<ShellFd, F>::empty(),
    {
        OpenFiles { files: HashMap::new() }
    }

    /// The given files; of several with one descriptor the last counts.
    pub fn from_fds(fds: Vec<(ShellFd, F)>) -> (r: OpenFiles<F>)
        ensures
            r@ == files_by_fd(fds@),
    {
        let mut files: HashMap<ShellFd, F> = HashMap::new();
        assert(fds@.take(0) =~= Seq::<(ShellFd, F)>::empty());
        for pair in it: fds
            invariant
                it.seq() == fds@,
                files@ == files_by_fd(fds@.take(it.index() as int)),
        {
            let ghost i = it.index() as int;
            assert(fds@.take(i + 1).drop_last() =~= fds@.take(i));
            files.insert(pair.0, pair.1);
        }
        assert(fds@.take(fds@.len() as int) =~= fds@);
        OpenFiles { files }
    }

    /// The file with the descriptor, if there is one.
    pub fn get(&self, fd: ShellFd) -> (r: Option<&F>)
        ensures
            match r {
                Some(f) => self@.contains_key(fd) && self@[fd] == *f,
                None => !self@.contains_key(fd),
            },
    {
        self.files.get(&fd)
    }
}

} // verus!
