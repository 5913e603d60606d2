//! The descriptor table: creation of the layer, allocation of descriptor
//! numbers, and the operations on descriptors themselves.
use vstd::prelude::*;
use crate::errno::Errno;
use crate::fs::{WasiCtx, Inode, Descriptor, FileType, fd_fits, applicable_base, FIRST_FD, MAX_FDS};
use crate::rights::{
    has_rights, check_rights, lemma_has_rights_trans, RIGHTS_DIRECTORY_BASE, RIGHTS_DIRECTORY_INHERITING,
};

verus! {

/// What `fd_fdstat_get` reports of a descriptor.
#[derive(PartialEq, Eq, Structural, Clone, Copy, Debug)]
pub struct FdStat {
    pub fs_filetype: FileType,
    pub fs_flags: u16,
    pub fs_rights_base: u64,
    pub fs_rights_inheriting: u64,
}

pub open spec fn fdstat_of(d: Descriptor) -> FdStat {
    FdStat {
        fs_filetype: d.kind,
        fs_flags: d.flags,
        fs_rights_base: d.rights_base,
        fs_rights_inheriting: d.rights_inheriting,
    }
}

pub open spec fn is_free(fds: Seq<Option<Descriptor>>, f: int) -> bool {
    f >= fds.len() || fds[f] is None
}

/// `f` is the lowest free descriptor number from `FIRST_FD` on.
pub open spec fn lowest_free(fds: Seq<Option<Descriptor>>, f: int) -> bool {
    &&& FIRST_FD <= f < MAX_FDS
    &&& is_free(fds, f)
    &&& forall|g: int| FIRST_FD <= g < f ==> !is_free(fds, g)
}

pub open spec fn table_full(fds: Seq<Option<Descriptor>>) -> bool {
    forall|g: int| FIRST_FD <= g < MAX_FDS ==> !is_free(fds, g)
}

/// The table with descriptor `d` placed at `f`.
pub open spec fn put(fds: Seq<Option<Descriptor>>, f: int, d: Descriptor) -> Seq<Option<Descriptor>> {
    if f < fds.len() {
        fds.update(f, Some(d))
    } else {
        fds.push(Some(d))
    }
}

/// Placing a descriptor at the lowest free slot: the slot holds it and every
/// other slot keeps what it held.
pub proof fn lemma_put_lowest(fds: Seq<Option<Descriptor>>, f: int, d: Descriptor)
    requires
        lowest_free(fds, f),
        fds.len() >= FIRST_FD,
    ensures
        f <= fds.len(),
        put(fds, f, d).len() == if f < fds.len() { fds.len() } else { fds.len() + 1 },
        put(fds, f, d)[f] == Some(d),
        forall|g: int| 0 <= g < fds.len() && g != f ==> #[trigger] put(fds, f, d)[g] == fds[g],
{
    if f > fds.len() {
        assert(is_free(fds, fds.len() as int));
    }
}

/// The descriptor that the layer starts with: the sandbox root.
pub open spec fn root_descriptor() -> Descriptor {
    Descriptor {
        ino: 0,
        kind: FileType::Directory,
        rights_base: RIGHTS_DIRECTORY_BASE,
        rights_inheriting: RIGHTS_DIRECTORY_INHERITING,
        flags: 0,
        offset: 0,
        preopened: true,
    }
}

impl WasiCtx {
    /// A layer holding one empty directory, preopened as descriptor `FIRST_FD`.
    pub fn new() -> (r: WasiCtx)
        ensures
            r.wf(),
            r.nodes@.len() == 1,
            r.nodes@[0].kind == FileType::Directory,
            r.nodes@[0].entries@.len() == 0,
            r.nodes@[0].parent == 0,
            r.fds@.len() == FIRST_FD + 1,
            r.fds@[FIRST_FD as int] == Some(root_descriptor()),
            forall|f: int| 0 <= f < FIRST_FD ==> r.fds@[f] is None,
    {
        let mut nodes: Vec<Inode> = Vec::new();
        let root = Inode { kind: FileType::Directory, data: Vec::new(), entries: Vec::new(), parent: 0, atim: 0, mtim: 0 };
        nodes.push(root);
        let mut fds: Vec<Option<Descriptor>> = Vec::new();
        fds.push(None);
        fds.push(None);
        fds.push(None);
        let d = Descriptor {
            ino: 0,
            kind: FileType::Directory,
            rights_base: RIGHTS_DIRECTORY_BASE,
            rights_inheriting: RIGHTS_DIRECTORY_INHERITING,
            flags: 0,
            offset: 0,
            preopened: true,
        };
        fds.push(Some(d));
        let r = WasiCtx { nodes, fds };
        assert(has_rights(RIGHTS_DIRECTORY_BASE, RIGHTS_DIRECTORY_BASE)) by (bit_vector);
        assert(fd_fits(d, r.nodes@));
        r
    }

    /// The descriptor at `fd`, when it is open and holds the rights `need`.
    pub open spec fn fd_lookup(&self, fd: u32, need: u64) -> Result<Descriptor, Errno> {
        match self.fd_entry(fd as int) {
            None => Err(Errno::BadDescriptor),
            Some(d) => if has_rights(d.rights_base, need) {
                Ok(d)
            } else {
                Err(Errno::NotCapable)
            },
        }
    }

    /// The descriptor at `fd`, when it is open and holds at least one of the
    /// rights in `any`.
    pub open spec fn fd_lookup_any(&self, fd: u32, any: u64) -> Result<Descriptor, Errno> {
        match self.fd_entry(fd as int) {
            None => Err(Errno::BadDescriptor),
            Some(d) => if d.rights_base & any != 0 {
                Ok(d)
            } else {
                Err(Errno::NotCapable)
            },
        }
    }

    pub fn get_fd_any(&self, fd: u32, any: u64) -> (r: Result<Descriptor, Errno>)
        requires
            self.wf(),
        ensures
            r == self.fd_lookup_any(fd, any),
            r matches Ok(d) ==> fd_fits(d, self.nodes@),
    {
        let f = fd as usize;
        if f >= self.fds.len() {
            return Err(Errno::BadDescriptor);
        }
        match self.fds[f] {
            None => Err(Errno::BadDescriptor),
            Some(d) => {
                if d.rights_base & any != 0 {
                    Ok(d)
                } else {
                    Err(Errno::NotCapable)
                }
            },
        }
    }

    pub fn get_fd(&self, fd: u32, need: u64) -> (r: Result<Descriptor, Errno>)
        requires
            self.wf(),
        ensures
            r == self.fd_lookup(fd, need),
            r matches Ok(d) ==> fd_fits(d, self.nodes@),
    {
        let f = fd as usize;
        if f >= self.fds.len() {
            return Err(Errno::BadDescriptor);
        }
        match self.fds[f] {
            None => Err(Errno::BadDescriptor),
            Some(d) => {
                if check_rights(d.rights_base, need) {
                    Ok(d)
                } else {
                    Err(Errno::NotCapable)
                }
            },
        }
    }

    /// The lowest free descriptor number, if the table has room.
    pub fn lowest_free_fd(&self) -> (r: Option<u32>)
        requires
            self.wf(),
        ensures
            match r {
                Some(f) => lowest_free(self.fds@, f as int) && f <= self.fds@.len(),
                None => table_full(self.fds@),
            },
    {
        let mut f: usize = FIRST_FD as usize;
        while f < self.fds.len()
            invariant
                self.wf(),
                FIRST_FD <= f <= self.fds@.len(),
                forall|g: int| FIRST_FD <= g < f ==> !is_free(self.fds@, g),
            decreases self.fds@.len() - f,
        {
            if self.fds[f].is_none() {
                return Some(f as u32);
            }
            f = f + 1;
        }
        if f < MAX_FDS {
            Some(f as u32)
        } else {
            None
        }
    }

    /// Places descriptor `d` at the free slot `f`.
    pub fn install(&mut self, f: u32, d: Descriptor)
        requires
            old(self).wf(),
            f <= old(self).fds@.len(),
            f < MAX_FDS,
            fd_fits(d, old(self).nodes@),
        ensures
            final(self).wf(),
            final(self).fds@ == put(old(self).fds@, f as int, d),
            final(self).nodes == old(self).nodes,
    {
        if (f as usize) < self.fds.len() {
            self.fds.set(f as usize, Some(d));
        } else {
            self.fds.push(Some(d));
        }
    }

    pub open spec fn close_status(&self, fd: u32) -> Errno {
        match self.fd_entry(fd as int) {
            None => Errno::BadDescriptor,
            Some(d) => if d.preopened {
                Errno::NotSupported
            } else {
                Errno::Success
            },
        }
    }

    /// Closes `fd`. A preopened descriptor is never closed.
    pub fn fd_close(&mut self, fd: u32) -> (r: Result<(), Errno>)
        requires
            old(self).wf(),
        ensures
            final(self).wf(),
            r is Ok <==> old(self).close_status(fd) == Errno::Success,
            r matches Err(e) ==> e == old(self).close_status(fd) && *final(self) == *old(self),
            r is Ok ==> final(self).fds@ == old(self).fds@.update(fd as int, None) && final(self).nodes
                == old(self).nodes,
    {
        let f = fd as usize;
        if f >= self.fds.len() {
            return Err(Errno::BadDescriptor);
        }
        match self.fds[f] {
            None => Err(Errno::BadDescriptor),
            Some(d) => {
                if d.preopened {
                    return Err(Errno::NotSupported);
                }
                self.fds.set(f, None);
                Ok(())
            },
        }
    }

    pub open spec fn renumber_status(&self, from: u32, to: u32) -> Errno {
        let a = self.fd_entry(from as int);
        let b = self.fd_entry(to as int);
        if (a matches Some(x) && x.preopened) || (b matches Some(y) && y.preopened) {
            Errno::NotSupported
        } else if a is None || b is None {
            Errno::BadDescriptor
        } else {
            Errno::Success
        }
    }

    /// Moves the descriptor `from` to the number `to`, closing what `to` held.
    /// Neither may be preopened: that is refused before anything else.
    pub fn fd_renumber(&mut self, from: u32, to: u32) -> (r: Result<(), Errno>)
        requires
            old(self).wf(),
        ensures
            final(self).wf(),
            r is Ok <==> old(self).renumber_status(from, to) == Errno::Success,
            r matches Err(e) ==> e == old(self).renumber_status(from, to) && *final(self) == *old(self),
            r is Ok ==> final(self).nodes == old(self).nodes && final(self).fds@ == if from == to {
                old(self).fds@
            } else {
                old(self).fds@.update(to as int, old(self).fds@[from as int]).update(from as int, None)
            },
    {
        let a = from as usize;
        let b = to as usize;
        let ea = if a < self.fds.len() {
            self.fds[a]
        } else {
            None
        };
        let eb = if b < self.fds.len() {
            self.fds[b]
        } else {
            None
        };
        let pa = match ea {
            Some(x) => x.preopened,
            None => false,
        };
        let pb = match eb {
            Some(y) => y.preopened,
            None => false,
        };
        if pa || pb {
            return Err(Errno::NotSupported);
        }
        let da = match ea {
            None => {
                return Err(Errno::BadDescriptor);
            },
            Some(d) => d,
        };
        if eb.is_none() {
            return Err(Errno::BadDescriptor);
        }
        if a != b {
            self.fds.set(b, Some(da));
            self.fds.set(a, None);
        }
        Ok(())
    }

    /// The type, flags and rights of `fd`.
    pub fn fd_fdstat_get(&self, fd: u32) -> (r: Result<FdStat, Errno>)
        requires
            self.wf(),
        ensures
            match self.fd_entry(fd as int) {
                None => r == Err::<FdStat, Errno>(Errno::BadDescriptor),
                Some(d) => r == Ok::<FdStat, Errno>(fdstat_of(d)),
            },
    {
        let f = fd as usize;
        if f >= self.fds.len() {
            return Err(Errno::BadDescriptor);
        }
        match self.fds[f] {
            None => Err(Errno::BadDescriptor),
            Some(d) => {
                Ok(FdStat {
                    fs_filetype: d.kind,
                    fs_flags: d.flags,
                    fs_rights_base: d.rights_base,
                    fs_rights_inheriting: d.rights_inheriting,
                })
            },
        }
    }

    pub open spec fn set_rights_status(&self, fd: u32, base: u64, inheriting: u64) -> Errno {
        match self.fd_entry(fd as int) {
            None => Errno::BadDescriptor,
            Some(d) => if has_rights(d.rights_base, base) && has_rights(d.rights_inheriting, inheriting) {
                Errno::Success
            } else {
                Errno::NotCapable
            },
        }
    }

    /// Replaces the rights of `fd`; rights can be dropped, never gained.
    pub fn fd_fdstat_set_rights(&mut self, fd: u32, base: u64, inheriting: u64) -> (r: Result<(), Errno>)
        requires
            old(self).wf(),
        ensures
            final(self).wf(),
            r is Ok <==> old(self).set_rights_status(fd, base, inheriting) == Errno::Success,
            r matches Err(e) ==> e == old(self).set_rights_status(fd, base, inheriting) && *final(self) == *old(self),
            r is Ok ==> final(self).nodes == old(self).nodes && final(self).fds@ == old(self).fds@.update(
                fd as int,
                Some(
                    (Descriptor {
                        rights_base: base,
                        rights_inheriting: inheriting,
                        ..old(self).fds@[fd as int].unwrap()
                    }),
                ),
            ),
    {
        let f = fd as usize;
        if f >= self.fds.len() {
            return Err(Errno::BadDescriptor);
        }
        match self.fds[f] {
            None => Err(Errno::BadDescriptor),
            Some(d) => {
                if !check_rights(d.rights_base, base) || !check_rights(d.rights_inheriting, inheriting) {
                    return Err(Errno::NotCapable);
                }
                let nd = Descriptor { rights_base: base, rights_inheriting: inheriting, ..d };
                proof {
                    assert(fd_fits(d, self.nodes@));
                    lemma_has_rights_trans(applicable_base(d.kind), d.rights_base, base);
                }
                self.fds.set(f, Some(nd));
                Ok(())
            },
        }
    }
}

} // verus!
