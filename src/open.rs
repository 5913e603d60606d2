//! Opening a path relative to a directory descriptor.
use vstd::prelude::*;
use crate::errno::Errno;
use crate::fs::{WasiCtx, Inode, Descriptor, FileType, fd_fits, applicable_base};
use crate::path::{wants_directory, SEP};
use crate::rights::{
    granted, has_rights, check_rights, derive_rights, RIGHT_PATH_OPEN, RIGHT_PATH_CREATE_FILE,
    RIGHT_PATH_FILESTAT_SET_SIZE, RIGHTS_DIRECTORY_BASE, RIGHTS_DIRECTORY_INHERITING, RIGHTS_REGULAR_FILE_BASE,
    RIGHTS_REGULAR_FILE_INHERITING,
};
use crate::store::{others_kept, same_meta, rebinds};
use crate::table::{lowest_free, table_full, put};
use crate::host::now_nanos;

verus! {

/// Follow a symlink met as the last component.
pub const LOOKUP_SYMLINK_FOLLOW: u32 = 1;

pub const O_CREAT: u16 = 1;

pub const O_DIRECTORY: u16 = 2;

pub const O_EXCL: u16 = 4;

pub const O_TRUNC: u16 = 8;

pub open spec fn follows(dirflags: u32) -> bool {
    dirflags & LOOKUP_SYMLINK_FOLLOW != 0
}

/// The rights that the directory needs for an open with `oflags`.
pub open spec fn open_needs(oflags: u16) -> u64 {
    RIGHT_PATH_OPEN | (if oflags & O_CREAT != 0 {
        RIGHT_PATH_CREATE_FILE
    } else {
        0
    }) | (if oflags & O_TRUNC != 0 {
        RIGHT_PATH_FILESTAT_SET_SIZE
    } else {
        0
    })
}

pub fn open_needs_exec(oflags: u16) -> (r: u64)
    ensures
        r == open_needs(oflags),
{
    let c: u64 = if oflags & O_CREAT != 0 {
        RIGHT_PATH_CREATE_FILE
    } else {
        0
    };
    let t: u64 = if oflags & O_TRUNC != 0 {
        RIGHT_PATH_FILESTAT_SET_SIZE
    } else {
        0
    };
    RIGHT_PATH_OPEN | c | t
}

pub open spec fn applicable_inheriting(k: FileType) -> u64 {
    if k == FileType::Directory {
        RIGHTS_DIRECTORY_INHERITING
    } else {
        RIGHTS_REGULAR_FILE_INHERITING
    }
}

/// The descriptor that an open through `parent` creates for node `t`.
pub open spec fn opened(parent: Descriptor, t: int, kind: FileType, rb: u64, ri: u64, fdflags: u16) -> Descriptor {
    Descriptor {
        ino: t as usize,
        kind,
        rights_base: granted(rb, parent.rights_inheriting, applicable_base(kind)),
        rights_inheriting: granted(ri, parent.rights_inheriting, applicable_inheriting(kind)),
        flags: fdflags,
        offset: 0,
        preopened: false,
    }
}

/// What an open decides before it changes anything.
pub enum OpenPlan {
    Fail(Errno),
    /// Open the existing node.
    Existing(int),
    /// Create a regular file under this name in this directory.
    Create(int, Seq<u8>),
}

impl WasiCtx {
    /// The node a resolution names: the directory itself when no name is left.
    pub open spec fn target_of(&self, p: int, leaf: Seq<u8>) -> Option<int> {
        if leaf.len() == 0 {
            Some(p)
        } else {
            self.child(p, leaf)
        }
    }

    /// The directory descriptor behind `dirfd`, when it is open, a directory,
    /// and holds `need`.
    pub open spec fn dir_lookup(&self, dirfd: u32, need: u64) -> Result<Descriptor, Errno> {
        match self.fd_entry(dirfd as int) {
            None => Err(Errno::BadDescriptor),
            Some(d) => if d.kind != FileType::Directory {
                Err(Errno::NotDir)
            } else if !has_rights(d.rights_base, need) {
                Err(Errno::NotCapable)
            } else {
                Ok(d)
            },
        }
    }

    pub fn get_dir(&self, dirfd: u32, need: u64) -> (r: Result<Descriptor, Errno>)
        requires
            self.wf(),
        ensures
            r == self.dir_lookup(dirfd, need),
            r matches Ok(d) ==> fd_fits(d, self.nodes@),
    {
        let f = dirfd as usize;
        if f >= self.fds.len() {
            return Err(Errno::BadDescriptor);
        }
        match self.fds[f] {
            None => Err(Errno::BadDescriptor),
            Some(d) => {
                if d.kind != FileType::Directory {
                    Err(Errno::NotDir)
                } else if !check_rights(d.rights_base, need) {
                    Err(Errno::NotCapable)
                } else {
                    Ok(d)
                }
            },
        }
    }

    pub open spec fn open_plan(&self, dirfd: u32, dirflags: u32, path: Seq<u8>, oflags: u16) -> OpenPlan {
        match self.dir_lookup(dirfd, open_needs(oflags)) {
            Err(e) => OpenPlan::Fail(e),
            Ok(d) => match self.resolve_spec(d.ino as int, path, follows(dirflags)) {
                Err(e) => OpenPlan::Fail(e),
                Ok((p, leaf)) => {
                    let creat = oflags & O_CREAT != 0;
                    let want_dir = oflags & O_DIRECTORY != 0 || wants_directory(path);
                    match self.target_of(p, leaf) {
                        None => if !creat {
                            OpenPlan::Fail(Errno::NotFound)
                        } else if want_dir {
                            OpenPlan::Fail(Errno::Invalid)
                        } else {
                            OpenPlan::Create(p, leaf)
                        },
                        Some(t) => if creat && oflags & O_EXCL != 0 {
                            OpenPlan::Fail(Errno::Exist)
                        } else if self.kind(t) == FileType::SymbolicLink {
                            OpenPlan::Fail(Errno::Loop)
                        } else if self.kind(t) == FileType::Directory {
                            if creat || oflags & O_TRUNC != 0 {
                                OpenPlan::Fail(Errno::IsDir)
                            } else {
                                OpenPlan::Existing(t)
                            }
                        } else if want_dir {
                            OpenPlan::Fail(Errno::NotDir)
                        } else {
                            OpenPlan::Existing(t)
                        },
                    }
                },
            },
        }
    }

    /// The status an open reports.
    pub open spec fn open_status(&self, dirfd: u32, dirflags: u32, path: Seq<u8>, oflags: u16) -> Errno {
        match self.open_plan(dirfd, dirflags, path, oflags) {
            OpenPlan::Fail(e) => e,
            OpenPlan::Existing(_) => if table_full(self.fds@) {
                Errno::TooManyFiles
            } else {
                Errno::Success
            },
            OpenPlan::Create(p, _) => if table_full(self.fds@) {
                Errno::TooManyFiles
            } else if !self.has_room(p) {
                Errno::NoSpace
            } else {
                Errno::Success
            },
        }
    }

    /// What an open through `dirfd` leaves behind, the new node of a created
    /// file being stamped `now`.
    pub open spec fn open_post(
        &self,
        new: &WasiCtx,
        r: Result<u32, Errno>,
        dirfd: u32,
        dirflags: u32,
        path: Seq<u8>,
        oflags: u16,
        rb: u64,
        ri: u64,
        fdflags: u16,
        now: u64,
    ) -> bool {
        let parent = self.fds@[dirfd as int].unwrap();
        match self.open_plan(dirfd, dirflags, path, oflags) {
            OpenPlan::Fail(e) => r == Err::<u32, Errno>(e) && *new == *self,
            OpenPlan::Existing(t) => if table_full(self.fds@) {
                r == Err::<u32, Errno>(Errno::TooManyFiles) && *new == *self
            } else {
                &&& r is Ok
                &&& lowest_free(self.fds@, r.unwrap() as int)
                &&& new.fds@ == put(self.fds@, r.unwrap() as int, opened(parent, t, self.kind(t), rb, ri, fdflags))
                &&& if self.kind(t) == FileType::RegularFile && oflags & O_TRUNC != 0 {
                    &&& new.nodes@.len() == self.nodes@.len()
                    &&& others_kept(new.nodes@, self.nodes@, t)
                    &&& new.nodes@[t].data@.len() == 0
                    &&& new.nodes@[t].kind == self.nodes@[t].kind
                    &&& new.nodes@[t].entries == self.nodes@[t].entries
                    &&& new.nodes@[t].parent == self.nodes@[t].parent
                } else {
                    new.nodes == self.nodes
                }
            },
            OpenPlan::Create(p, leaf) => if table_full(self.fds@) {
                r == Err::<u32, Errno>(Errno::TooManyFiles) && *new == *self
            } else if !self.has_room(p) {
                r == Err::<u32, Errno>(Errno::NoSpace) && *new == *self
            } else {
                let n = self.nodes@.len() as int;
                &&& r is Ok
                &&& lowest_free(self.fds@, r.unwrap() as int)
                &&& new.fds@ == put(self.fds@, r.unwrap() as int, opened(parent, n, FileType::RegularFile, rb, ri, fdflags))
                &&& new.nodes@.len() == n + 1
                &&& others_kept(new.nodes@, self.nodes@, p)
                &&& same_meta(new.nodes@[p], self.nodes@[p])
                &&& rebinds(new.entries(p), self.entries(p), leaf, Some(n))
                &&& new.nodes@[n].kind == FileType::RegularFile
                &&& new.nodes@[n].data@.len() == 0
                &&& new.nodes@[n].entries@.len() == 0
                &&& new.nodes@[n].parent == p
                &&& new.nodes@[n].atim == now
                &&& new.nodes@[n].mtim == now
            },
        }
    }

    /// Opens `path` relative to the directory `dirfd`; a created file is
    /// stamped `now`.
    pub fn path_open_at(
        &mut self,
        dirfd: u32,
        dirflags: u32,
        path: &[u8],
        oflags: u16,
        rights_base: u64,
        rights_inheriting: u64,
        fdflags: u16,
        now: u64,
    ) -> (r: Result<u32, Errno>)
        requires
            old(self).wf(),
        ensures
            final(self).wf(),
            r matches Err(e) ==> e != Errno::Success,
            old(self).open_post(
                final(self),
                r,
                dirfd,
                dirflags,
                path@,
                oflags,
                rights_base,
                rights_inheriting,
                fdflags,
                now,
            ),
    {
        let needs = open_needs_exec(oflags);
        let d = match self.get_dir(dirfd, needs) {
            Err(e) => {
                return Err(e);
            },
            Ok(d) => d,
        };
        let follow = dirflags & LOOKUP_SYMLINK_FOLLOW != 0;
        let (p, leaf) = match self.resolve(d.ino, path, follow) {
            Err(e) => {
                return Err(e);
            },
            Ok(x) => x,
        };
        let creat = oflags & O_CREAT != 0;
        let want_dir = oflags & O_DIRECTORY != 0 || (path.len() > 0 && path[path.len() - 1] == SEP);
        let target = if leaf.len() == 0 {
            Some(p)
        } else {
            self.find_child(p, leaf.as_slice())
        };
        match target {
            None => {
                if !creat {
                    return Err(Errno::NotFound);
                }
                if want_dir {
                    return Err(Errno::Invalid);
                }
                let f = match self.lowest_free_fd() {
                    None => {
                        return Err(Errno::TooManyFiles);
                    },
                    Some(f) => f,
                };
                if !self.room(p) {
                    return Err(Errno::NoSpace);
                }
                let node = Inode {
                    kind: FileType::RegularFile,
                    data: Vec::new(),
                    entries: Vec::new(),
                    parent: p,
                    atim: now,
                    mtim: now,
                };
                let n = self.add_node(node);
                let ghost mid = *self;
                assert(self.entries(p as int) == old(self).entries(p as int));
                self.push_entry(p, leaf, n);
                let base = derive_rights(rights_base, d.rights_inheriting, RIGHTS_REGULAR_FILE_BASE);
                let inh = derive_rights(rights_inheriting, d.rights_inheriting, RIGHTS_REGULAR_FILE_INHERITING);
                let nd = Descriptor {
                    ino: n,
                    kind: FileType::RegularFile,
                    rights_base: base,
                    rights_inheriting: inh,
                    flags: fdflags,
                    offset: 0,
                    preopened: false,
                };
                self.install(f, nd);
                assert(self.nodes@[n as int] == mid.nodes@[n as int]);
                Ok(f)
            },
            Some(t) => {
                if creat && oflags & O_EXCL != 0 {
                    return Err(Errno::Exist);
                }
                let k = self.nodes[t].kind;
                if k == FileType::SymbolicLink {
                    return Err(Errno::Loop);
                }
                if k == FileType::Directory && (creat || oflags & O_TRUNC != 0) {
                    return Err(Errno::IsDir);
                }
                if k != FileType::Directory && want_dir {
                    return Err(Errno::NotDir);
                }
                let f = match self.lowest_free_fd() {
                    None => {
                        return Err(Errno::TooManyFiles);
                    },
                    Some(f) => f,
                };
                let (ab, ai) = if k == FileType::Directory {
                    (RIGHTS_DIRECTORY_BASE, RIGHTS_DIRECTORY_INHERITING)
                } else {
                    (RIGHTS_REGULAR_FILE_BASE, RIGHTS_REGULAR_FILE_INHERITING)
                };
                if k == FileType::RegularFile && oflags & O_TRUNC != 0 {
                    let _ = self.take_data(t);
                }
                let base = derive_rights(rights_base, d.rights_inheriting, ab);
                let inh = derive_rights(rights_inheriting, d.rights_inheriting, ai);
                let nd = Descriptor {
                    ino: t,
                    kind: k,
                    rights_base: base,
                    rights_inheriting: inh,
                    flags: fdflags,
                    offset: 0,
                    preopened: false,
                };
                self.install(f, nd);
                Ok(f)
            },
        }
    }

    /// Opens `path` relative to the directory `dirfd`, stamping a created file
    /// with the wall clock.
    pub fn path_open(
        &mut self,
        dirfd: u32,
        dirflags: u32,
        path: &[u8],
        oflags: u16,
        rights_base: u64,
        rights_inheriting: u64,
        fdflags: u16,
    ) -> (r: Result<u32, Errno>)
        requires
            old(self).wf(),
        ensures
            final(self).wf(),
            r matches Err(e) ==> e != Errno::Success,
            exists|now: u64|
                old(self).open_post(
                    final(self),
                    r,
                    dirfd,
                    dirflags,
                    path@,
                    oflags,
                    rights_base,
                    rights_inheriting,
                    fdflags,
                    now,
                ),
    {
        let now = now_nanos();
        self.path_open_at(dirfd, dirflags, path, oflags, rights_base, rights_inheriting, fdflags, now)
    }
}

} // verus!
