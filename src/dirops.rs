//! Operations on paths: creating and removing directories, unlinking files,
//! symlinks, and attributes reached through a path.
use vstd::prelude::*;
use crate::errno::Errno;
use crate::fs::{WasiCtx, Inode, FileType, MAX_FILE_SIZE};
use crate::path::{wants_directory, has_nul, contains_nul, copy_bytes, SEP};
use crate::rights::{
    RIGHT_PATH_CREATE_DIRECTORY, RIGHT_PATH_REMOVE_DIRECTORY, RIGHT_PATH_UNLINK_FILE, RIGHT_PATH_SYMLINK,
    RIGHT_PATH_READLINK, RIGHT_PATH_FILESTAT_GET, RIGHT_PATH_FILESTAT_SET_TIMES,
};
use crate::store::{others_kept, same_meta, rebinds};
use crate::open::{follows, LOOKUP_SYMLINK_FOLLOW};
use crate::stat::{
    FileStat, times_conflict, new_time, new_time_exec, FILESTAT_SET_ATIM, FILESTAT_SET_ATIM_NOW,
    FILESTAT_SET_MTIM, FILESTAT_SET_MTIM_NOW,
};
use crate::host::now_nanos;

verus! {

/// The first `n` bytes of `s`, or all of it when it is shorter.
pub open spec fn truncated(s: Seq<u8>, n: int) -> Seq<u8> {
    if n < s.len() {
        s.take(n)
    } else {
        s
    }
}

impl WasiCtx {
    /// Where `path` leads from the directory `dirfd`, once `dirfd` was found
    /// to hold `need`.
    pub open spec fn path_lookup(&self, dirfd: u32, need: u64, path: Seq<u8>, follow: bool) -> Result<(int, Seq<u8>), Errno> {
        match self.dir_lookup(dirfd, need) {
            Err(e) => Err(e),
            Ok(d) => self.resolve_spec(d.ino as int, path, follow),
        }
    }

    pub fn path_lookup_exec(&self, dirfd: u32, need: u64, path: &[u8], follow: bool) -> (r: Result<(usize, Vec<u8>), Errno>)
        requires
            self.wf(),
        ensures
            crate::fs::resolved_view(r) == self.path_lookup(dirfd, need, path@, follow),
            r matches Ok((p, _)) ==> p < self.nodes@.len(),
            r matches Err(e) ==> e != Errno::Success,
    {
        let d = match self.get_dir(dirfd, need) {
            Err(e) => {
                return Err(e);
            },
            Ok(d) => d,
        };
        self.resolve(d.ino, path, follow)
    }

    /// `new` is `self` with a fresh node of kind `kind` holding `data`, bound
    /// to `leaf` in directory `p` and stamped `now`.
    pub open spec fn creates(&self, new: &WasiCtx, p: int, leaf: Seq<u8>, kind: FileType, data: Seq<u8>, now: u64) -> bool {
        let n = self.nodes@.len() as int;
        &&& new.fds == self.fds
        &&& new.nodes@.len() == n + 1
        &&& others_kept(new.nodes@, self.nodes@, p)
        &&& same_meta(new.nodes@[p], self.nodes@[p])
        &&& rebinds(new.entries(p), self.entries(p), leaf, Some(n))
        &&& new.nodes@[n].kind == kind
        &&& new.nodes@[n].data@ == data
        &&& new.nodes@[n].entries@.len() == 0
        &&& new.nodes@[n].parent == p
        &&& new.nodes@[n].atim == now
        &&& new.nodes@[n].mtim == now
    }

    /// `new` is `self` with `leaf` unbound in directory `p`.
    pub open spec fn unbinds(&self, new: &WasiCtx, p: int, leaf: Seq<u8>) -> bool {
        &&& new.fds == self.fds
        &&& new.nodes@.len() == self.nodes@.len()
        &&& others_kept(new.nodes@, self.nodes@, p)
        &&& same_meta(new.nodes@[p], self.nodes@[p])
        &&& rebinds(new.entries(p), self.entries(p), leaf, None)
    }

    fn create_node(&mut self, p: usize, leaf: Vec<u8>, kind: FileType, data: Vec<u8>, now: u64) -> (r: usize)
        requires
            old(self).wf(),
            p < old(self).nodes@.len(),
            old(self).has_room(p as int),
            old(self).child(p as int, leaf@) is None,
            data@.len() <= MAX_FILE_SIZE,
        ensures
            final(self).wf(),
            old(self).creates(final(self), p as int, leaf@, kind, data@, now),
            r == old(self).nodes@.len(),
    {
        let ghost d = data@;
        let node = Inode { kind, data, entries: Vec::new(), parent: p, atim: now, mtim: now };
        let n = self.add_node(node);
        let ghost mid = *self;
        assert(self.entries(p as int) == old(self).entries(p as int));
        self.push_entry(p, leaf, n);
        assert(self.nodes@[n as int] == mid.nodes@[n as int]);
        n
    }

    pub open spec fn create_directory_status(&self, dirfd: u32, path: Seq<u8>) -> Errno {
        match self.path_lookup(dirfd, RIGHT_PATH_CREATE_DIRECTORY, path, false) {
            Err(e) => e,
            Ok((p, leaf)) => if leaf.len() == 0 || self.child(p, leaf) is Some {
                Errno::Exist
            } else if !self.has_room(p) {
                Errno::NoSpace
            } else {
                Errno::Success
            },
        }
    }

    /// Creates the directory `path`, stamped `now`.
    pub fn path_create_directory_at(&mut self, dirfd: u32, path: &[u8], now: u64) -> (r: Result<(), Errno>)
        requires
            old(self).wf(),
        ensures
            final(self).wf(),
            r is Ok <==> old(self).create_directory_status(dirfd, path@) == Errno::Success,
            r matches Err(e) ==> e == old(self).create_directory_status(dirfd, path@) && *final(self) == *old(self),
            r is Ok ==> (old(self).path_lookup(dirfd, RIGHT_PATH_CREATE_DIRECTORY, path@, false) matches Ok((p, leaf))
                && old(self).creates(final(self), p, leaf, FileType::Directory, seq![], now)),
    {
        let (p, leaf) = match self.path_lookup_exec(dirfd, RIGHT_PATH_CREATE_DIRECTORY, path, false) {
            Err(e) => {
                return Err(e);
            },
            Ok(x) => x,
        };
        if leaf.len() == 0 {
            return Err(Errno::Exist);
        }
        if self.find_child(p, leaf.as_slice()).is_some() {
            return Err(Errno::Exist);
        }
        if !self.room(p) {
            return Err(Errno::NoSpace);
        }
        let data: Vec<u8> = Vec::new();
        assert(data@ =~= seq![]);
        self.create_node(p, leaf, FileType::Directory, data, now);
        Ok(())
    }

    /// Creates the directory `path`, stamped with the wall clock.
    pub fn path_create_directory(&mut self, dirfd: u32, path: &[u8]) -> (r: Result<(), Errno>)
        requires
            old(self).wf(),
        ensures
            final(self).wf(),
            r is Ok <==> old(self).create_directory_status(dirfd, path@) == Errno::Success,
            r matches Err(e) ==> e == old(self).create_directory_status(dirfd, path@) && *final(self) == *old(self),
            r is Ok ==> (old(self).path_lookup(dirfd, RIGHT_PATH_CREATE_DIRECTORY, path@, false) matches Ok((p, leaf))
                && exists|now: u64| old(self).creates(final(self), p, leaf, FileType::Directory, seq![], now)),
    {
        let now = now_nanos();
        self.path_create_directory_at(dirfd, path, now)
    }

    pub open spec fn remove_directory_status(&self, dirfd: u32, path: Seq<u8>) -> Errno {
        match self.path_lookup(dirfd, RIGHT_PATH_REMOVE_DIRECTORY, path, false) {
            Err(e) => e,
            Ok((p, leaf)) => if leaf.len() == 0 {
                Errno::Invalid
            } else {
                match self.child(p, leaf) {
                    None => Errno::NotFound,
                    Some(c) => if self.kind(c) != FileType::Directory {
                        Errno::NotDir
                    } else if self.entries(c).len() > 0 {
                        Errno::NotEmpty
                    } else {
                        Errno::Success
                    },
                }
            },
        }
    }

    /// Removes the empty directory `path`.
    pub fn path_remove_directory(&mut self, dirfd: u32, path: &[u8]) -> (r: Result<(), Errno>)
        requires
            old(self).wf(),
        ensures
            final(self).wf(),
            r is Ok <==> old(self).remove_directory_status(dirfd, path@) == Errno::Success,
            r matches Err(e) ==> e == old(self).remove_directory_status(dirfd, path@) && *final(self) == *old(self),
            r is Ok ==> (old(self).path_lookup(dirfd, RIGHT_PATH_REMOVE_DIRECTORY, path@, false) matches Ok((p, leaf))
                && old(self).unbinds(final(self), p, leaf)),
    {
        let (p, leaf) = match self.path_lookup_exec(dirfd, RIGHT_PATH_REMOVE_DIRECTORY, path, false) {
            Err(e) => {
                return Err(e);
            },
            Ok(x) => x,
        };
        if leaf.len() == 0 {
            return Err(Errno::Invalid);
        }
        let c = match self.find_child(p, leaf.as_slice()) {
            None => {
                return Err(Errno::NotFound);
            },
            Some(c) => c,
        };
        if self.nodes[c].kind != FileType::Directory {
            return Err(Errno::NotDir);
        }
        if self.nodes[c].entries.len() > 0 {
            return Err(Errno::NotEmpty);
        }
        self.remove_entry(p, leaf.as_slice());
        Ok(())
    }

    pub open spec fn unlink_status(&self, dirfd: u32, path: Seq<u8>) -> Errno {
        match self.path_lookup(dirfd, RIGHT_PATH_UNLINK_FILE, path, false) {
            Err(e) => e,
            Ok((p, leaf)) => if leaf.len() == 0 {
                Errno::IsDir
            } else {
                match self.child(p, leaf) {
                    None => Errno::NotFound,
                    Some(c) => if self.kind(c) == FileType::Directory {
                        Errno::IsDir
                    } else if wants_directory(path) {
                        Errno::NotDir
                    } else {
                        Errno::Success
                    },
                }
            },
        }
    }

    /// Removes the file or symlink `path`; directories are refused.
    pub fn path_unlink_file(&mut self, dirfd: u32, path: &[u8]) -> (r: Result<(), Errno>)
        requires
            old(self).wf(),
        ensures
            final(self).wf(),
            r is Ok <==> old(self).unlink_status(dirfd, path@) == Errno::Success,
            r matches Err(e) ==> e == old(self).unlink_status(dirfd, path@) && *final(self) == *old(self),
            r is Ok ==> (old(self).path_lookup(dirfd, RIGHT_PATH_UNLINK_FILE, path@, false) matches Ok((p, leaf))
                && old(self).unbinds(final(self), p, leaf)),
    {
        let (p, leaf) = match self.path_lookup_exec(dirfd, RIGHT_PATH_UNLINK_FILE, path, false) {
            Err(e) => {
                return Err(e);
            },
            Ok(x) => x,
        };
        if leaf.len() == 0 {
            return Err(Errno::IsDir);
        }
        let c = match self.find_child(p, leaf.as_slice()) {
            None => {
                return Err(Errno::NotFound);
            },
            Some(c) => c,
        };
        if self.nodes[c].kind == FileType::Directory {
            return Err(Errno::IsDir);
        }
        if path.len() > 0 && path[path.len() - 1] == SEP {
            return Err(Errno::NotDir);
        }
        self.remove_entry(p, leaf.as_slice());
        Ok(())
    }

    pub open spec fn symlink_status(&self, old_path: Seq<u8>, dirfd: u32, new_path: Seq<u8>) -> Errno {
        match self.path_lookup(dirfd, RIGHT_PATH_SYMLINK, new_path, false) {
            Err(e) => e,
            Ok((p, leaf)) => if has_nul(old_path) {
                Errno::IllegalSequence
            } else if old_path.len() > MAX_FILE_SIZE {
                Errno::Invalid
            } else if leaf.len() == 0 || self.child(p, leaf) is Some {
                Errno::Exist
            } else if !self.has_room(p) {
                Errno::NoSpace
            } else {
                Errno::Success
            },
        }
    }

    /// Creates at `new_path` a symlink whose target text is `old_path`,
    /// stamped `now`. The target is not checked: it may dangle.
    pub fn path_symlink_at(&mut self, old_path: &[u8], dirfd: u32, new_path: &[u8], now: u64) -> (r: Result<(), Errno>)
        requires
            old(self).wf(),
        ensures
            final(self).wf(),
            r is Ok <==> old(self).symlink_status(old_path@, dirfd, new_path@) == Errno::Success,
            r matches Err(e) ==> e == old(self).symlink_status(old_path@, dirfd, new_path@) && *final(self) == *old(self),
            r is Ok ==> (old(self).path_lookup(dirfd, RIGHT_PATH_SYMLINK, new_path@, false) matches Ok((p, leaf))
                && old(self).creates(final(self), p, leaf, FileType::SymbolicLink, old_path@, now)),
    {
        let (p, leaf) = match self.path_lookup_exec(dirfd, RIGHT_PATH_SYMLINK, new_path, false) {
            Err(e) => {
                return Err(e);
            },
            Ok(x) => x,
        };
        if contains_nul(old_path) {
            return Err(Errno::IllegalSequence);
        }
        if old_path.len() as u64 > MAX_FILE_SIZE {
            return Err(Errno::Invalid);
        }
        if leaf.len() == 0 {
            return Err(Errno::Exist);
        }
        if self.find_child(p, leaf.as_slice()).is_some() {
            return Err(Errno::Exist);
        }
        if !self.room(p) {
            return Err(Errno::NoSpace);
        }
        let data = copy_bytes(old_path);
        self.create_node(p, leaf, FileType::SymbolicLink, data, now);
        Ok(())
    }

    /// `path_symlink_at` stamped with the wall clock.
    pub fn path_symlink(&mut self, old_path: &[u8], dirfd: u32, new_path: &[u8]) -> (r: Result<(), Errno>)
        requires
            old(self).wf(),
        ensures
            final(self).wf(),
            r is Ok <==> old(self).symlink_status(old_path@, dirfd, new_path@) == Errno::Success,
            r matches Err(e) ==> e == old(self).symlink_status(old_path@, dirfd, new_path@) && *final(self) == *old(self),
            r is Ok ==> (old(self).path_lookup(dirfd, RIGHT_PATH_SYMLINK, new_path@, false) matches Ok((p, leaf))
                && exists|now: u64| old(self).creates(final(self), p, leaf, FileType::SymbolicLink, old_path@, now)),
    {
        let now = now_nanos();
        self.path_symlink_at(old_path, dirfd, new_path, now)
    }

    /// The target text of the symlink `path`, cut to `buf_len` bytes.
    pub open spec fn readlink_spec(&self, dirfd: u32, path: Seq<u8>, buf_len: usize) -> Result<Seq<u8>, Errno> {
        match self.path_lookup(dirfd, RIGHT_PATH_READLINK, path, false) {
            Err(e) => Err(e),
            Ok((p, leaf)) => if leaf.len() == 0 {
                Err(Errno::Invalid)
            } else {
                match self.child(p, leaf) {
                    None => Err(Errno::NotFound),
                    Some(c) => if self.kind(c) != FileType::SymbolicLink {
                        Err(Errno::Invalid)
                    } else {
                        Ok(truncated(self.nodes@[c].data@, buf_len as int))
                    },
                }
            },
        }
    }

    /// Reads the target of the symlink `path` into at most `buf_len` bytes; a
    /// longer target is cut, which is no error.
    pub fn path_readlink(&self, dirfd: u32, path: &[u8], buf_len: usize) -> (r: Result<Vec<u8>, Errno>)
        requires
            self.wf(),
        ensures
            match r {
                Ok(v) => self.readlink_spec(dirfd, path@, buf_len) == Ok::<Seq<u8>, Errno>(v@),
                Err(e) => self.readlink_spec(dirfd, path@, buf_len) == Err::<Seq<u8>, Errno>(e),
            },
            r matches Err(e) ==> e != Errno::Success,
    {
        let (p, leaf) = match self.path_lookup_exec(dirfd, RIGHT_PATH_READLINK, path, false) {
            Err(e) => {
                return Err(e);
            },
            Ok(x) => x,
        };
        if leaf.len() == 0 {
            return Err(Errno::Invalid);
        }
        let c = match self.find_child(p, leaf.as_slice()) {
            None => {
                return Err(Errno::NotFound);
            },
            Some(c) => c,
        };
        if self.nodes[c].kind != FileType::SymbolicLink {
            return Err(Errno::Invalid);
        }
        let data = &self.nodes[c].data;
        let n = if buf_len < data.len() {
            buf_len
        } else {
            data.len()
        };
        let mut out: Vec<u8> = Vec::new();
        let mut i: usize = 0;
        while i < n
            invariant
                n <= data@.len(),
                i <= n,
                out@ == data@.take(i as int),
            decreases n - i,
        {
            out.push(data[i]);
            i = i + 1;
            assert(out@ =~= data@.take(i as int));
        }
        assert(out@ =~= truncated(data@, buf_len as int));
        Ok(out)
    }

    /// The attributes of the node that `path` names.
    pub open spec fn path_filestat_spec(&self, dirfd: u32, dirflags: u32, path: Seq<u8>) -> Result<FileStat, Errno> {
        match self.path_lookup(dirfd, RIGHT_PATH_FILESTAT_GET, path, follows(dirflags)) {
            Err(e) => Err(e),
            Ok((p, leaf)) => match self.target_of(p, leaf) {
                None => Err(Errno::NotFound),
                Some(t) => if wants_directory(path) && self.kind(t) != FileType::Directory {
                    Err(Errno::NotDir)
                } else {
                    Ok(self.filestat_of(t))
                },
            },
        }
    }

    pub fn path_filestat_get(&self, dirfd: u32, dirflags: u32, path: &[u8]) -> (r: Result<FileStat, Errno>)
        requires
            self.wf(),
        ensures
            r == self.path_filestat_spec(dirfd, dirflags, path@),
            r matches Err(e) ==> e != Errno::Success,
    {
        let (t, _) = match self.path_target(dirfd, RIGHT_PATH_FILESTAT_GET, dirflags, path) {
            Err(e) => {
                return Err(e);
            },
            Ok(x) => x,
        };
        Ok(self.filestat(t))
    }

    /// The node that `path` names, with the directory it was found in.
    fn path_target(&self, dirfd: u32, need: u64, dirflags: u32, path: &[u8]) -> (r: Result<(usize, usize), Errno>)
        requires
            self.wf(),
        ensures
            match self.path_lookup(dirfd, need, path@, follows(dirflags)) {
                Err(e) => r == Err::<(usize, usize), Errno>(e),
                Ok((p, leaf)) => match self.target_of(p, leaf) {
                    None => r == Err::<(usize, usize), Errno>(Errno::NotFound),
                    Some(t) => if wants_directory(path@) && self.kind(t) != FileType::Directory {
                        r == Err::<(usize, usize), Errno>(Errno::NotDir)
                    } else {
                        r == Ok::<(usize, usize), Errno>((t as usize, p as usize)) && 0 <= t < self.nodes@.len() && 0 <= p
                    },
                },
            },
            r matches Ok((t, _)) ==> t < self.nodes@.len(),
            r matches Err(e) ==> e != Errno::Success,
    {
        let follow = dirflags & LOOKUP_SYMLINK_FOLLOW != 0;
        let (p, leaf) = match self.path_lookup_exec(dirfd, need, path, follow) {
            Err(e) => {
                return Err(e);
            },
            Ok(x) => x,
        };
        let t = if leaf.len() == 0 {
            p
        } else {
            match self.find_child(p, leaf.as_slice()) {
                None => {
                    return Err(Errno::NotFound);
                },
                Some(c) => c,
            }
        };
        if path.len() > 0 && path[path.len() - 1] == SEP && self.nodes[t].kind != FileType::Directory {
            return Err(Errno::NotDir);
        }
        Ok((t, p))
    }

    pub open spec fn path_set_times_status(&self, dirfd: u32, dirflags: u32, path: Seq<u8>, fst: u16) -> Errno {
        if times_conflict(fst) {
            Errno::Invalid
        } else {
            match self.path_lookup(dirfd, RIGHT_PATH_FILESTAT_SET_TIMES, path, follows(dirflags)) {
                Err(e) => e,
                Ok((p, leaf)) => match self.target_of(p, leaf) {
                    None => Errno::NotFound,
                    Some(t) => if wants_directory(path) && self.kind(t) != FileType::Directory {
                        Errno::NotDir
                    } else {
                        Errno::Success
                    },
                },
            }
        }
    }

    /// `new` is `self` with the times of node `t` set as `fst` asks.
    pub open spec fn sets_times(&self, new: &WasiCtx, t: int, atim: u64, mtim: u64, fst: u16, now: u64) -> bool {
        &&& new.fds == self.fds
        &&& new.nodes@.len() == self.nodes@.len()
        &&& others_kept(new.nodes@, self.nodes@, t)
        &&& new.nodes@[t].kind == self.nodes@[t].kind
        &&& new.nodes@[t].data@ == self.nodes@[t].data@
        &&& new.nodes@[t].entries == self.nodes@[t].entries
        &&& new.nodes@[t].parent == self.nodes@[t].parent
        &&& new.nodes@[t].atim == new_time(
            self.nodes@[t].atim,
            atim,
            fst & FILESTAT_SET_ATIM != 0,
            fst & FILESTAT_SET_ATIM_NOW != 0,
            now,
        )
        &&& new.nodes@[t].mtim == new_time(
            self.nodes@[t].mtim,
            mtim,
            fst & FILESTAT_SET_MTIM != 0,
            fst & FILESTAT_SET_MTIM_NOW != 0,
            now,
        )
    }

    /// Sets the times of node `t`; the current time is `now`.
    pub fn set_times_of(&mut self, t: usize, atim: u64, mtim: u64, fst: u16, now: u64)
        requires
            old(self).wf(),
            t < old(self).nodes@.len(),
        ensures
            final(self).wf(),
            old(self).sets_times(final(self), t as int, atim, mtim, fst, now),
    {
        let a = new_time_exec(
            self.nodes[t].atim,
            atim,
            fst & FILESTAT_SET_ATIM != 0,
            fst & FILESTAT_SET_ATIM_NOW != 0,
            now,
        );
        let m = new_time_exec(
            self.nodes[t].mtim,
            mtim,
            fst & FILESTAT_SET_MTIM != 0,
            fst & FILESTAT_SET_MTIM_NOW != 0,
            now,
        );
        let data = self.take_data(t);
        self.put_data(t, data, a, m);
    }

    /// Sets the times of the node that `path` names; the current time is `now`.
    /// Asking for a time and for the current time at once changes nothing.
    pub fn path_filestat_set_times_at(
        &mut self,
        dirfd: u32,
        dirflags: u32,
        path: &[u8],
        atim: u64,
        mtim: u64,
        fst: u16,
        now: u64,
    ) -> (r: Result<(), Errno>)
        requires
            old(self).wf(),
        ensures
            final(self).wf(),
            r is Ok <==> old(self).path_set_times_status(dirfd, dirflags, path@, fst) == Errno::Success,
            r matches Err(e) ==> e == old(self).path_set_times_status(dirfd, dirflags, path@, fst) && *final(self)
                == *old(self),
            r is Ok ==> (old(self).path_lookup(dirfd, RIGHT_PATH_FILESTAT_SET_TIMES, path@, follows(dirflags)) matches Ok(
                (p, leaf),
            ) && (old(self).target_of(p, leaf) matches Some(t) && old(self).sets_times(final(self), t, atim, mtim, fst, now))),
    {
        if (fst & FILESTAT_SET_ATIM != 0 && fst & FILESTAT_SET_ATIM_NOW != 0) || (fst & FILESTAT_SET_MTIM != 0 && fst
            & FILESTAT_SET_MTIM_NOW != 0) {
            return Err(Errno::Invalid);
        }
        let (t, _) = match self.path_target(dirfd, RIGHT_PATH_FILESTAT_SET_TIMES, dirflags, path) {
            Err(e) => {
                return Err(e);
            },
            Ok(x) => x,
        };
        self.set_times_of(t, atim, mtim, fst, now);
        Ok(())
    }

    /// `path_filestat_set_times_at` with the wall clock as the current time.
    pub fn path_filestat_set_times(
        &mut self,
        dirfd: u32,
        dirflags: u32,
        path: &[u8],
        atim: u64,
        mtim: u64,
        fst: u16,
    ) -> (r: Result<(), Errno>)
        requires
            old(self).wf(),
        ensures
            final(self).wf(),
            r is Ok <==> old(self).path_set_times_status(dirfd, dirflags, path@, fst) == Errno::Success,
            r matches Err(e) ==> e == old(self).path_set_times_status(dirfd, dirflags, path@, fst) && *final(self)
                == *old(self),
            r is Ok ==> (old(self).path_lookup(dirfd, RIGHT_PATH_FILESTAT_SET_TIMES, path@, follows(dirflags)) matches Ok(
                (p, leaf),
            ) && (old(self).target_of(p, leaf) matches Some(t) && exists|now: u64|
                old(self).sets_times(final(self), t, atim, mtim, fst, now))),
    {
        let now = now_nanos();
        self.path_filestat_set_times_at(dirfd, dirflags, path, atim, mtim, fst, now)
    }
}

} // verus!
