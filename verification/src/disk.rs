//! A small model of the directories the migration engine works on.
//!
//! The engine's decisions depend on very little of the real file system:
//! which directories exist, what (relative) files each holds, and which
//! operations the platform refuses.  This model captures exactly that: a
//! flat collection of directories, each named by its absolute path and
//! holding its files as relative paths, plus a set of protected paths on
//! which destructive operations fail — the way a write-protected location
//! behaves.  The shell performs the same operations on the real file
//! system, one call each, in the order the engine decides.

use vstd::prelude::*;

verus! {

/// One directory: its absolute path and the relative paths of the files
/// under it (subdirectory structure is encoded in the relative paths).
pub struct DirEntry {
    pub path: String,
    pub files: Vec<String>,
}

/// The modeled file system.
pub struct Disk {
    pub dirs: Vec<DirEntry>,
    /// Paths on which renames, copies, removals and creation fail.
    pub protected: Vec<String>,
}

impl Disk {
    /// Each directory path occurs at most once.
    pub open spec fn wf(self) -> bool {
        forall|i: int, j: int|
            0 <= i < j < self.dirs@.len() ==> #[trigger] self.dirs@[i].path@ != #[trigger] self.dirs@[j].path@
    }

    /// Whether a directory with path `p` exists.
    pub open spec fn has_dir(self, p: Seq<char>) -> bool {
        exists|i: int| 0 <= i < self.dirs@.len() && #[trigger] self.dirs@[i].path@ == p
    }

    /// The index of the directory with path `p` (meaningful when it exists
    /// and the disk is well formed).
    pub open spec fn idx_of(self, p: Seq<char>) -> int {
        choose|i: int| 0 <= i < self.dirs@.len() && #[trigger] self.dirs@[i].path@ == p
    }

    /// The files of the directory with path `p`.
    pub open spec fn files_of(self, p: Seq<char>) -> Seq<Seq<char>> {
        self.dirs@[self.idx_of(p)].files.deep_view()
    }

    /// Whether operations on `p` fail.
    pub open spec fn is_protected(self, p: Seq<char>) -> bool {
        exists|i: int| 0 <= i < self.protected@.len() && #[trigger] self.protected@[i]@ == p
    }

    /// Every directory other than `a` and `b` is exactly as it was.
    pub open spec fn untouched_except2(self, post: Disk, a: Seq<char>, b: Seq<char>) -> bool {
        forall|q: Seq<char>|
            q != a && q != b ==> (#[trigger] post.has_dir(q) == self.has_dir(q)) && (self.has_dir(q)
                ==> post.files_of(q) == self.files_of(q))
    }

    proof fn lemma_files_at(self, i: int)
        requires
            self.wf(),
            0 <= i < self.dirs@.len(),
        ensures
            self.has_dir(self.dirs@[i].path@),
            self.idx_of(self.dirs@[i].path@) == i,
            self.files_of(self.dirs@[i].path@) == self.dirs@[i].files.deep_view(),
    {
        let p = self.dirs@[i].path@;
        assert(self.has_dir(p));
        let j = self.idx_of(p);
        assert(0 <= j < self.dirs@.len() && self.dirs@[j].path@ == p);
        if i != j {
            if i < j {
                assert(self.dirs@[i].path@ != self.dirs@[j].path@);
            } else {
                assert(self.dirs@[j].path@ != self.dirs@[i].path@);
            }
        }
    }

    fn find_dir(&self, p: &String) -> (r: Option<usize>)
        ensures
            match r {
                Some(i) => i < self.dirs.len() && self.dirs@[i as int].path@ == p@,
                None => !self.has_dir(p@),
            },
    {
        let mut i: usize = 0;
        while i < self.dirs.len()
            invariant
                i <= self.dirs.len(),
                forall|j: int| 0 <= j < i ==> #[trigger] self.dirs@[j].path@ != p@,
            decreases self.dirs.len() - i,
        {
            if self.dirs[i].path.eq(p) {
                return Some(i);
            }
            i = i + 1;
        }
        None
    }

    /// Whether the directory exists.
    pub fn dir_exists(&self, p: &String) -> (r: bool)
        ensures
            r == self.has_dir(p@),
    {
        match self.find_dir(p) {
            Some(i) => {
                proof {
                    assert(self.has_dir(p@));
                }
                true
            },
            None => false,
        }
    }

    /// Whether the directory is empty.  A directory that cannot be read
    /// (here: one that does not exist) counts as empty, as the engine treats
    /// an unreadable destination as holding nothing worth backing up.
    pub fn is_dir_empty(&self, p: &String) -> (r: bool)
        requires
            self.wf(),
        ensures
            r == (!self.has_dir(p@) || self.files_of(p@).len() == 0),
    {
        match self.find_dir(p) {
            Some(i) => {
                proof {
                    self.lemma_files_at(i as int);
                }
                self.dirs[i].files.len() == 0
            },
            None => true,
        }
    }

    /// Whether operations on this path fail.
    pub fn is_protected_path(&self, p: &String) -> (r: bool)
        ensures
            r == self.is_protected(p@),
    {
        let mut i: usize = 0;
        while i < self.protected.len()
            invariant
                i <= self.protected.len(),
                forall|j: int| 0 <= j < i ==> #[trigger] self.protected@[j]@ != p@,
            decreases self.protected.len() - i,
        {
            if self.protected[i].eq(p) {
                proof {
                    assert(self.is_protected(p@));
                }
                return true;
            }
            i = i + 1;
        }
        false
    }

    fn take_dir(&mut self, p: &String) -> (r: Option<Vec<String>>)
        requires
            old(self).wf(),
        ensures
            final(self).wf(),
            final(self).protected == old(self).protected,
            match r {
                Some(files) => old(self).has_dir(p@) && files.deep_view() == old(self).files_of(p@)
                    && !final(self).has_dir(p@),
                None => !old(self).has_dir(p@) && *final(self) == *old(self),
            },
            old(self).untouched_except2(*final(self), p@, p@),
    {
        match self.find_dir(p) {
            None => None,
            Some(i) => {
                proof {
                    old(self).lemma_files_at(i as int);
                }
                let entry = self.dirs.remove(i);
                proof {
                    let od = old(self).dirs@;
                    let nd = self.dirs@;
                    od.remove_ensures(i as int);
                    assert forall|q: Seq<char>| q != p@ implies (self.has_dir(q) == old(self).has_dir(
                        q,
                    )) && (old(self).has_dir(q) ==> self.files_of(q) == old(self).files_of(q)) by {
                        if old(self).has_dir(q) {
                            let k = old(self).idx_of(q);
                            assert(0 <= k < od.len() && od[k].path@ == q);
                            assert(k != i);
                            let k2: int = if k < i { k } else { k - 1 };
                            assert(nd[k2] == od[k]);
                            assert(self.has_dir(q));
                            self.lemma_files_at(k2);
                            old(self).lemma_files_at(k);
                        }
                        if self.has_dir(q) {
                            let k = self.idx_of(q);
                            assert(0 <= k < nd.len() && nd[k].path@ == q);
                            let k2: int = if k < i { k } else { k + 1 };
                            assert(od[k2].path@ == q);
                            assert(old(self).has_dir(q));
                        }
                    }
                    assert(final(self).wf()) by {
                        assert forall|a: int, b: int| 0 <= a < b < nd.len() implies nd[a].path@
                            != nd[b].path@ by {
                            let a2: int = if a < i { a } else { a + 1 };
                            let b2: int = if b < i { b } else { b + 1 };
                            assert(nd[a] == od[a2] && nd[b] == od[b2]);
                        }
                    }
                    assert(!self.has_dir(p@)) by {
                        if self.has_dir(p@) {
                            let k = self.idx_of(p@);
                            let k2: int = if k < i { k } else { k + 1 };
                            assert(od[k2].path@ == p@);
                            assert(old(self).idx_of(p@) == i);
                            old(self).lemma_files_at(i as int);
                            if k2 != i {
                                if k2 < i {
                                    assert(od[k2].path@ != od[i as int].path@);
                                } else {
                                    assert(od[i as int].path@ != od[k2].path@);
                                }
                            }
                        }
                    }
                }
                Some(entry.files)
            },
        }
    }

    fn put_dir(&mut self, p: String, files: Vec<String>)
        requires
            old(self).wf(),
            !old(self).has_dir(p@),
        ensures
            final(self).wf(),
            final(self).protected == old(self).protected,
            final(self).has_dir(p@),
            final(self).files_of(p@) == files.deep_view(),
            old(self).untouched_except2(*final(self), p@, p@),
    {
        let ghost od = old(self).dirs@;
        self.dirs.push(DirEntry { path: p, files });
        proof {
            let nd = self.dirs@;
            let n = od.len() as int;
            assert(nd[n].path@ == p@);
            assert(final(self).wf()) by {
                assert forall|a: int, b: int| 0 <= a < b < nd.len() implies nd[a].path@
                    != nd[b].path@ by {
                    if b < n {
                        assert(nd[a] == od[a] && nd[b] == od[b]);
                    } else {
                        assert(nd[a] == od[a]);
                        assert(old(self).has_dir(nd[a].path@));
                    }
                }
            }
            self.lemma_files_at(n);
            assert forall|q: Seq<char>| q != p@ implies (self.has_dir(q) == old(self).has_dir(q))
                && (old(self).has_dir(q) ==> self.files_of(q) == old(self).files_of(q)) by {
                if old(self).has_dir(q) {
                    let k = old(self).idx_of(q);
                    assert(nd[k] == od[k]);
                    assert(self.has_dir(q));
                    self.lemma_files_at(k);
                    old(self).lemma_files_at(k);
                }
                if self.has_dir(q) {
                    let k = self.idx_of(q);
                    assert(0 <= k < nd.len() && nd[k].path@ == q);
                    assert(k != n);
                    assert(od[k].path@ == q);
                    assert(old(self).has_dir(q));
                }
            }
        }
    }

    /// Creates the directory (and, in the real system, its missing parents).
    /// Creating an existing directory succeeds and changes nothing; creating
    /// a protected path fails.
    pub fn create_dir_all(&mut self, p: &String) -> (r: bool)
        requires
            old(self).wf(),
        ensures
            final(self).wf(),
            final(self).protected == old(self).protected,
            r == (old(self).has_dir(p@) || !old(self).is_protected(p@)),
            old(self).has_dir(p@) || old(self).is_protected(p@) ==> *final(self) == *old(self),
            !old(self).has_dir(p@) && !old(self).is_protected(p@) ==> final(self).has_dir(p@)
                && final(self).files_of(p@).len() == 0,
            old(self).untouched_except2(*final(self), p@, p@),
    {
        if self.dir_exists(p) {
            return true;
        }
        if self.is_protected_path(p) {
            return false;
        }
        self.put_dir(p.clone(), Vec::new());
        proof {
            assert(self.files_of(p@) =~= Seq::<Seq<char>>::empty());
        }
        true
    }

    /// Removes the directory and everything under it.  Fails on a protected
    /// or missing path.
    pub fn remove_dir_all(&mut self, p: &String) -> (r: bool)
        requires
            old(self).wf(),
        ensures
            final(self).wf(),
            final(self).protected == old(self).protected,
            r == (old(self).has_dir(p@) && !old(self).is_protected(p@)),
            !r ==> *final(self) == *old(self),
            r ==> !final(self).has_dir(p@),
            old(self).untouched_except2(*final(self), p@, p@),
    {
        if self.is_protected_path(p) {
            return false;
        }
        match self.take_dir(p) {
            Some(_files) => true,
            None => false,
        }
    }

    /// Atomically renames `from` to `to`, as the same-volume fast path does.
    /// Succeeds when the source exists, neither path is protected, and the
    /// destination is absent or empty (or is the source itself); the
    /// destination then holds exactly what the source held.
    pub fn rename_dir(&mut self, from: &String, to: &String) -> (r: bool)
        requires
            old(self).wf(),
        ensures
            final(self).wf(),
            final(self).protected == old(self).protected,
            r == (old(self).has_dir(from@) && !old(self).is_protected(from@) && !old(
                self,
            ).is_protected(to@) && (from@ == to@ || !old(self).has_dir(to@) || old(self).files_of(
                to@,
            ).len() == 0)),
            !r ==> *final(self) == *old(self),
            r ==> final(self).has_dir(to@) && final(self).files_of(to@) == old(self).files_of(from@)
                && (from@ != to@ ==> !final(self).has_dir(from@)),
            old(self).untouched_except2(*final(self), from@, to@),
    {
        if self.is_protected_path(from) || self.is_protected_path(to) {
            return false;
        }
        if !self.dir_exists(from) {
            return false;
        }
        if from.eq(to) {
            proof {
                let i = self.idx_of(from@);
                self.lemma_files_at(i);
            }
            return true;
        }
        if self.dir_exists(to) && !self.is_dir_empty(to) {
            return false;
        }
        let files = match self.take_dir(from) {
            Some(f) => f,
            None => {
                proof {
                    assert(false);
                }
                Vec::new()
            },
        };
        let _ = self.take_dir(to);
        self.put_dir(to.clone(), files);
        true
    }

    fn clone_files(v: &Vec<String>) -> (r: Vec<String>)
        ensures
            r.deep_view() == v.deep_view(),
    {
        let mut r: Vec<String> = Vec::new();
        let mut i: usize = 0;
        while i < v.len()
            invariant
                i <= v.len(),
                r@.len() == i,
                forall|j: int| 0 <= j < i ==> #[trigger] r@[j]@ == v@[j]@,
            decreases v.len() - i,
        {
            r.push(v[i].clone());
            i = i + 1;
        }
        proof {
            assert(r.deep_view() =~= v.deep_view());
        }
        r
    }

    /// Recursively copies everything under `from` into `to`, creating `to`
    /// first, as the cross-volume fallback does.  The source is left as it
    /// was; what `to` already held stays in place, with the copied files
    /// after it.  Fails when the source is missing or the destination is
    /// protected.
    pub fn copy_dir_all(&mut self, from: &String, to: &String) -> (r: bool)
        requires
            old(self).wf(),
            from@ != to@,
        ensures
            final(self).wf(),
            final(self).protected == old(self).protected,
            r == (old(self).has_dir(from@) && !old(self).is_protected(to@)),
            !r ==> *final(self) == *old(self),
            r ==> final(self).has_dir(to@) && final(self).files_of(to@) == (if old(self).has_dir(
                to@,
            ) {
                old(self).files_of(to@)
            } else {
                Seq::<Seq<char>>::empty()
            }) + old(self).files_of(from@),
            r ==> final(self).has_dir(from@) && final(self).files_of(from@) == old(self).files_of(
                from@,
            ),
            old(self).untouched_except2(*final(self), from@, to@),
    {
        if self.is_protected_path(to) {
            return false;
        }
        let copied = match self.find_dir(from) {
            None => {
                return false;
            },
            Some(i) => {
                proof {
                    self.lemma_files_at(i as int);
                }
                Self::clone_files(&self.dirs[i].files)
            },
        };
        let mut merged = match self.take_dir(to) {
            Some(existing) => existing,
            None => Vec::new(),
        };
        let ghost mid = *self;
        let ghost pre = merged.deep_view();
        let mut copied = copied;
        merged.append(&mut copied);
        proof {
            assert(merged.deep_view() =~= pre + old(self).files_of(from@));
        }
        self.put_dir(to.clone(), merged);
        proof {
            assert(pre =~= (if old(self).has_dir(to@) {
                old(self).files_of(to@)
            } else {
                Seq::<Seq<char>>::empty()
            }));
            assert(mid.has_dir(from@) == old(self).has_dir(from@));
            assert(self.has_dir(from@) == mid.has_dir(from@));
            assert(mid.files_of(from@) == old(self).files_of(from@));
            assert(self.files_of(from@) == mid.files_of(from@));
            assert forall|q: Seq<char>| q != from@ && q != to@ implies (self.has_dir(q) == old(
                self,
            ).has_dir(q)) && (old(self).has_dir(q) ==> self.files_of(q) == old(self).files_of(
                q,
            )) by {
                assert(mid.has_dir(q) == old(self).has_dir(q));
                assert(self.has_dir(q) == mid.has_dir(q));
                if old(self).has_dir(q) {
                    assert(mid.files_of(q) == old(self).files_of(q));
                    assert(self.files_of(q) == mid.files_of(q));
                }
            }
        }
        true
    }

    /// Moves `from` to `to`: the atomic rename when the platform allows it,
    /// and otherwise the recursive copy followed by deleting the source.
    /// On success the destination holds what the source held — after
    /// whatever the destination already held, when the copy fallback ran
    /// against a non-empty destination.  On failure the source, if it
    /// existed, is still in place with its contents intact.
    pub fn move_dir(&mut self, from: &String, to: &String) -> (r: bool)
        requires
            old(self).wf(),
            from@ != to@,
        ensures
            final(self).wf(),
            final(self).protected == old(self).protected,
            r == (old(self).has_dir(from@) && !old(self).is_protected(from@) && !old(
                self,
            ).is_protected(to@)),
            r ==> final(self).has_dir(to@) && !final(self).has_dir(from@) && final(self).files_of(
                to@,
            ) == (if old(self).has_dir(to@) && old(self).files_of(to@).len() > 0 {
                old(self).files_of(to@)
            } else {
                Seq::<Seq<char>>::empty()
            }) + old(self).files_of(from@),
            !r ==> old(self).has_dir(from@) ==> final(self).has_dir(from@) && final(self).files_of(
                from@,
            ) == old(self).files_of(from@),
            old(self).untouched_except2(*final(self), from@, to@),
    {
        if self.rename_dir(from, to) {
            proof {
                assert(old(self).files_of(to@).len() == 0 ==> old(self).files_of(to@)
                    =~= Seq::<Seq<char>>::empty());
                assert(final(self).files_of(to@) =~= Seq::<Seq<char>>::empty() + old(
                    self,
                ).files_of(from@));
            }
            return true;
        }
        if !self.copy_dir_all(from, to) {
            return false;
        }
        let ghost mid = *self;
        if !self.remove_dir_all(from) {
            proof {
                assert(self.has_dir(from@) && self.files_of(from@) == old(self).files_of(from@));
                assert forall|q: Seq<char>| q != from@ && q != to@ implies (self.has_dir(q) == old(
                    self,
                ).has_dir(q)) && (old(self).has_dir(q) ==> self.files_of(q) == old(
                    self,
                ).files_of(q)) by {
                    assert(mid.has_dir(q) == old(self).has_dir(q));
                    assert(self.has_dir(q) == mid.has_dir(q));
                    if old(self).has_dir(q) {
                        assert(mid.files_of(q) == old(self).files_of(q));
                        assert(self.files_of(q) == mid.files_of(q));
                    }
                }
            }
            return false;
        }
        proof {
            assert(old(self).files_of(to@).len() == 0 ==> old(self).files_of(to@)
                =~= Seq::<Seq<char>>::empty());
            assert(self.has_dir(to@) == mid.has_dir(to@));
            assert(self.files_of(to@) == mid.files_of(to@));
            assert forall|q: Seq<char>| q != from@ && q != to@ implies (self.has_dir(q) == old(
                self,
            ).has_dir(q)) && (old(self).has_dir(q) ==> self.files_of(q) == old(self).files_of(
                q,
            )) by {
                assert(mid.has_dir(q) == old(self).has_dir(q));
                assert(self.has_dir(q) == mid.has_dir(q));
                if old(self).has_dir(q) {
                    assert(mid.files_of(q) == old(self).files_of(q));
                    assert(self.files_of(q) == mid.files_of(q));
                }
            }
        }
        true
    }
}

} // verus!
