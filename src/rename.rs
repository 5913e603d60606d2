//! Renaming an entry, possibly over another one.
use vstd::prelude::*;
use crate::errno::Errno;
use crate::fs::{WasiCtx, FileType, lookup, MAX_NODES};
use crate::path::{wants_directory, SEP};
use crate::rights::{RIGHT_PATH_RENAME_SOURCE, RIGHT_PATH_RENAME_TARGET};
use crate::store::{same_meta, rebinds};

verus! {

/// What a rename decides before it changes anything.
pub enum RenamePlan {
    Fail(Errno),
    /// Source and destination are the same entry: nothing to do.
    Keep,
    /// Move node `s`, bound to `sl` in `sp`, to the name `dl` in `dp`,
    /// replacing `t` if there is one.
    Move { sp: int, sl: Seq<u8>, s: int, dp: int, dl: Seq<u8>, t: Option<int> },
}

impl WasiCtx {
    /// Node `a` is met when climbing parents from `n` at most `fuel` times.
    pub open spec fn reaches_up(&self, n: int, a: int, fuel: nat) -> bool
        decreases fuel,
    {
        if n == a {
            true
        } else if fuel == 0 {
            false
        } else {
            let p = self.nodes@[n].parent as int;
            if p == n {
                false
            } else {
                self.reaches_up(p, a, (fuel - 1) as nat)
            }
        }
    }

    /// Directory `n` is `a` or lies below it.
    pub open spec fn is_within(&self, n: int, a: int) -> bool {
        self.reaches_up(n, a, self.nodes@.len())
    }

    pub fn within(&self, n: usize, a: usize) -> (r: bool)
        requires
            self.wf(),
            n < self.nodes@.len(),
        ensures
            r == self.is_within(n as int, a as int),
    {
        let mut cur = n;
        let mut fuel = self.nodes.len();
        loop
            invariant
                self.wf(),
                cur < self.nodes@.len(),
                self.reaches_up(cur as int, a as int, fuel as nat) == self.is_within(n as int, a as int),
            decreases fuel,
        {
            if cur == a {
                return true;
            }
            if fuel == 0 {
                return false;
            }
            let p = self.nodes[cur].parent;
            if p == cur {
                return false;
            }
            cur = p;
            fuel = fuel - 1;
        }
    }

    pub open spec fn rename_plan(&self, fd1: u32, old_path: Seq<u8>, fd2: u32, new_path: Seq<u8>) -> RenamePlan {
        match self.path_lookup(fd1, RIGHT_PATH_RENAME_SOURCE, old_path, false) {
            Err(e) => RenamePlan::Fail(e),
            Ok((sp, sl)) => match self.path_lookup(fd2, RIGHT_PATH_RENAME_TARGET, new_path, false) {
                Err(e) => RenamePlan::Fail(e),
                Ok((dp, dl)) => if sl.len() == 0 || dl.len() == 0 {
                    RenamePlan::Fail(Errno::Invalid)
                } else {
                    match self.child(sp, sl) {
                        None => RenamePlan::Fail(Errno::NotFound),
                        Some(s) => {
                            let sdir = self.kind(s) == FileType::Directory;
                            if !sdir && (wants_directory(old_path) || wants_directory(new_path)) {
                                RenamePlan::Fail(Errno::NotDir)
                            } else {
                                match self.child(dp, dl) {
                                    Some(t) => if t == s {
                                        RenamePlan::Keep
                                    } else if s == sp || self.is_within(dp, s) {
                                        RenamePlan::Fail(Errno::Invalid)
                                    } else if sdir {
                                        if self.kind(t) != FileType::Directory {
                                            RenamePlan::Fail(Errno::NotDir)
                                        } else if self.entries(t).len() > 0 {
                                            RenamePlan::Fail(Errno::NotEmpty)
                                        } else {
                                            RenamePlan::Move { sp, sl, s, dp, dl, t: Some(t) }
                                        }
                                    } else if self.kind(t) == FileType::Directory {
                                        RenamePlan::Fail(Errno::IsDir)
                                    } else {
                                        RenamePlan::Move { sp, sl, s, dp, dl, t: Some(t) }
                                    },
                                    None => if s == sp || self.is_within(dp, s) {
                                        RenamePlan::Fail(Errno::Invalid)
                                    } else if self.entries(dp).len() + 1 >= MAX_NODES {
                                        RenamePlan::Fail(Errno::NoSpace)
                                    } else {
                                        RenamePlan::Move { sp, sl, s, dp, dl, t: None }
                                    },
                                }
                            }
                        },
                    }
                },
            },
        }
    }

    /// What a rename leaves behind.
    pub open spec fn rename_post(&self, new: &WasiCtx, r: Result<(), Errno>, fd1: u32, old_path: Seq<u8>, fd2: u32, new_path: Seq<u8>) -> bool {
        match self.rename_plan(fd1, old_path, fd2, new_path) {
            RenamePlan::Fail(e) => r == Err::<(), Errno>(e) && *new == *self,
            RenamePlan::Keep => r is Ok && *new == *self,
            RenamePlan::Move { sp, sl, s, dp, dl, t } => {
                &&& r is Ok
                &&& new.fds == self.fds
                &&& new.nodes@.len() == self.nodes@.len()
                &&& forall|m: int|
                    0 <= m < self.nodes@.len() && m != sp && m != dp && m != s ==> #[trigger] new.nodes@[m]
                        == self.nodes@[m]
                &&& if sp == dp {
                    forall|x: Seq<u8>| #[trigger]
                        lookup(new.entries(sp), x) == if x == dl {
                            Some(s)
                        } else if x == sl {
                            None
                        } else {
                            lookup(self.entries(sp), x)
                        }
                } else {
                    &&& rebinds(new.entries(sp), self.entries(sp), sl, None)
                    &&& rebinds(new.entries(dp), self.entries(dp), dl, Some(s))
                }
                &&& same_meta(new.nodes@[sp], self.nodes@[sp])
                &&& same_meta(new.nodes@[dp], self.nodes@[dp])
                &&& new.nodes@[s].kind == self.nodes@[s].kind
                &&& new.nodes@[s].data@ == self.nodes@[s].data@
                &&& new.nodes@[s].entries == self.nodes@[s].entries
                &&& new.nodes@[s].parent == dp
            },
        }
    }

    /// Renames `old_path` under `fd1` to `new_path` under `fd2`. A directory
    /// may replace an empty directory, a file may replace a file; the rename
    /// happens whole or not at all.
    pub fn path_rename(&mut self, fd1: u32, old_path: &[u8], fd2: u32, new_path: &[u8]) -> (r: Result<(), Errno>)
        requires
            old(self).wf(),
        ensures
            final(self).wf(),
            old(self).rename_post(final(self), r, fd1, old_path@, fd2, new_path@),
            r matches Err(e) ==> e != Errno::Success,
    {
        let (sp, sl) = match self.path_lookup_exec(fd1, RIGHT_PATH_RENAME_SOURCE, old_path, false) {
            Err(e) => {
                return Err(e);
            },
            Ok(x) => x,
        };
        let (dp, dl) = match self.path_lookup_exec(fd2, RIGHT_PATH_RENAME_TARGET, new_path, false) {
            Err(e) => {
                return Err(e);
            },
            Ok(x) => x,
        };
        if sl.len() == 0 || dl.len() == 0 {
            return Err(Errno::Invalid);
        }
        let s = match self.find_child(sp, sl.as_slice()) {
            None => {
                return Err(Errno::NotFound);
            },
            Some(s) => s,
        };
        let sdir = self.nodes[s].kind == FileType::Directory;
        let old_slash = old_path.len() > 0 && old_path[old_path.len() - 1] == SEP;
        let new_slash = new_path.len() > 0 && new_path[new_path.len() - 1] == SEP;
        if !sdir && (old_slash || new_slash) {
            return Err(Errno::NotDir);
        }
        let target = self.find_child(dp, dl.as_slice());
        match target {
            Some(t) => {
                if t == s {
                    return Ok(());
                }
            },
            None => {},
        }
        if s == sp || self.within(dp, s) {
            return Err(Errno::Invalid);
        }
        match target {
            Some(t) => {
                let tdir = self.nodes[t].kind == FileType::Directory;
                if sdir && !tdir {
                    return Err(Errno::NotDir);
                }
                if sdir && self.nodes[t].entries.len() > 0 {
                    return Err(Errno::NotEmpty);
                }
                if !sdir && tdir {
                    return Err(Errno::IsDir);
                }
            },
            None => {
                if self.nodes[dp].entries.len() + 1 >= MAX_NODES {
                    return Err(Errno::NoSpace);
                }
            },
        }
        let ghost g0 = *self;
        self.remove_entry(sp, sl.as_slice());
        let ghost g1 = *self;
        match target {
            Some(_) => {
                self.retarget_entry(dp, dl.as_slice(), s);
            },
            None => {
                self.push_entry(dp, dl, s);
            },
        }
        let ghost g2 = *self;
        self.set_parent(s, dp);
        assert(self.entries(sp as int) == g2.entries(sp as int));
        assert(self.entries(dp as int) == g2.entries(dp as int));
        assert(sp != dp ==> g2.entries(sp as int) == g1.entries(sp as int));
        assert(sp != dp ==> g1.entries(dp as int) == g0.entries(dp as int));
        Ok(())
    }
}

} // verus!
