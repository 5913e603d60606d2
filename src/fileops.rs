//! Operations on open descriptors: the cursor, reading and writing, size,
//! allocation and attributes.
use vstd::prelude::*;
use crate::errno::Errno;
use crate::fs::{WasiCtx, Descriptor, FileType, fd_fits, MAX_FILE_SIZE};
use crate::rights::{
    RIGHT_FD_SEEK, RIGHT_FD_TELL, RIGHT_FD_READ, RIGHT_FD_WRITE, RIGHT_FD_ALLOCATE, RIGHT_FD_FILESTAT_GET,
    RIGHT_FD_FILESTAT_SET_SIZE, RIGHT_FD_FILESTAT_SET_TIMES,
};
use crate::store::others_kept;
use crate::bytes::{spliced, window, resized, splice, read_window, resize_zero};
use crate::stat::{
    FileStat, times_conflict, FILESTAT_SET_ATIM, FILESTAT_SET_ATIM_NOW, FILESTAT_SET_MTIM,
    FILESTAT_SET_MTIM_NOW,
};
use crate::host::now_nanos;

verus! {

/// Seek relative to the current offset.
pub const WHENCE_CUR: u8 = 0;

/// Seek relative to the end of the file.
pub const WHENCE_END: u8 = 1;

/// Seek to an absolute offset.
pub const WHENCE_SET: u8 = 2;

/// Writes go to the end of the file.
pub const FDFLAG_APPEND: u16 = 1;

/// A descriptor that may read or write may also move and report its cursor
/// and read the attributes of its file; one that may write may also allocate,
/// resize and set times. Each operation asks for any one of these rights.
pub const SEEK_RIGHTS: u64 = RIGHT_FD_SEEK | RIGHT_FD_READ | RIGHT_FD_WRITE;

pub const TELL_RIGHTS: u64 = RIGHT_FD_TELL | RIGHT_FD_READ | RIGHT_FD_WRITE;

pub const FILESTAT_GET_RIGHTS: u64 = RIGHT_FD_FILESTAT_GET | RIGHT_FD_READ | RIGHT_FD_WRITE;

pub const ALLOCATE_RIGHTS: u64 = RIGHT_FD_ALLOCATE | RIGHT_FD_WRITE;

pub const SET_SIZE_RIGHTS: u64 = RIGHT_FD_FILESTAT_SET_SIZE | RIGHT_FD_WRITE;

pub const SET_TIMES_RIGHTS: u64 = RIGHT_FD_FILESTAT_SET_TIMES | RIGHT_FD_WRITE;

/// The offset a seek aims at, `None` for an unknown `whence`.
pub open spec fn seek_target(offset: u64, size: int, delta: i64, whence: u8) -> Option<int> {
    if whence == WHENCE_CUR {
        Some(offset + delta)
    } else if whence == WHENCE_END {
        Some(size + delta)
    } else if whence == WHENCE_SET {
        Some(delta as int)
    } else {
        None
    }
}

/// The descriptor `d` with its cursor at `off`.
pub open spec fn at_offset(d: Descriptor, off: u64) -> Descriptor {
    Descriptor { offset: off, ..d }
}

impl WasiCtx {
    pub open spec fn size_of(&self, n: int) -> int {
        self.nodes@[n].data@.len() as int
    }

    /// `new` is `self` with the bytes of node `n` replaced by `data`; the
    /// descriptor table is `fds`.
    pub open spec fn sets_data(&self, new: &WasiCtx, n: int, data: Seq<u8>, fds: Seq<Option<Descriptor>>) -> bool {
        &&& new.fds@ == fds
        &&& new.nodes@.len() == self.nodes@.len()
        &&& others_kept(new.nodes@, self.nodes@, n)
        &&& new.nodes@[n].data@ == data
        &&& new.nodes@[n].kind == self.nodes@[n].kind
        &&& new.nodes@[n].entries == self.nodes@[n].entries
        &&& new.nodes@[n].parent == self.nodes@[n].parent
        &&& new.nodes@[n].atim == self.nodes@[n].atim
        &&& new.nodes@[n].mtim == self.nodes@[n].mtim
    }

    fn set_offset(&mut self, fd: u32, d: Descriptor, off: u64)
        requires
            old(self).wf(),
            old(self).fd_entry(fd as int) == Some(d),
        ensures
            final(self).wf(),
            final(self).nodes == old(self).nodes,
            final(self).fds@ == old(self).fds@.update(fd as int, Some(at_offset(d, off))),
    {
        let nd = Descriptor { offset: off, ..d };
        assert(fd_fits(old(self).fds@[fd as int].unwrap(), self.nodes@));
        self.fds.set(fd as usize, Some(nd));
    }

    pub open spec fn seek_spec(&self, fd: u32, delta: i64, whence: u8) -> Result<u64, Errno> {
        match self.fd_lookup_any(fd, SEEK_RIGHTS) {
            Err(e) => Err(e),
            Ok(d) => match seek_target(d.offset, self.size_of(d.ino as int), delta, whence) {
                None => Err(Errno::Invalid),
                Some(t) => if t < 0 || t > u64::MAX {
                    Err(Errno::Invalid)
                } else {
                    Ok(t as u64)
                },
            },
        }
    }

    /// Moves the cursor of `fd`. The cursor may go past the end of the file,
    /// never below zero.
    pub fn fd_seek(&mut self, fd: u32, delta: i64, whence: u8) -> (r: Result<u64, Errno>)
        requires
            old(self).wf(),
        ensures
            final(self).wf(),
            r == old(self).seek_spec(fd, delta, whence),
            r is Err ==> *final(self) == *old(self),
            r matches Ok(o) ==> final(self).nodes == old(self).nodes && final(self).fds@ == old(self).fds@.update(
                fd as int,
                Some(at_offset(old(self).fds@[fd as int].unwrap(), o)),
            ),
    {
        let d = match self.get_fd_any(fd, SEEK_RIGHTS) {
            Err(e) => {
                return Err(e);
            },
            Ok(d) => d,
        };
        let base: i128 = if whence == WHENCE_CUR {
            d.offset as i128
        } else if whence == WHENCE_END {
            self.nodes[d.ino].data.len() as i128
        } else if whence == WHENCE_SET {
            0
        } else {
            return Err(Errno::Invalid);
        };
        let t: i128 = base + delta as i128;
        if t < 0 || t > u64::MAX as i128 {
            return Err(Errno::Invalid);
        }
        self.set_offset(fd, d, t as u64);
        Ok(t as u64)
    }

    /// The cursor of `fd`.
    pub fn fd_tell(&self, fd: u32) -> (r: Result<u64, Errno>)
        requires
            self.wf(),
        ensures
            match self.fd_lookup_any(fd, TELL_RIGHTS) {
                Err(e) => r == Err::<u64, Errno>(e),
                Ok(d) => r == Ok::<u64, Errno>(d.offset),
            },
    {
        match self.get_fd_any(fd, TELL_RIGHTS) {
            Err(e) => Err(e),
            Ok(d) => Ok(d.offset),
        }
    }

    /// Reads up to `len` bytes at `offset` without moving the cursor.
    pub fn fd_pread(&self, fd: u32, len: usize, offset: u64) -> (r: Result<Vec<u8>, Errno>)
        requires
            self.wf(),
        ensures
            match self.fd_lookup(fd, RIGHT_FD_READ) {
                Err(e) => r == Err::<Vec<u8>, Errno>(e),
                Ok(d) => r matches Ok(v) && v@ == window(self.nodes@[d.ino as int].data@, offset as int, len as int),
            },
    {
        match self.get_fd(fd, RIGHT_FD_READ) {
            Err(e) => Err(e),
            Ok(d) => Ok(read_window(&self.nodes[d.ino].data, offset, len)),
        }
    }

    /// Reads up to `len` bytes at the cursor and moves the cursor past them.
    pub fn fd_read(&mut self, fd: u32, len: usize) -> (r: Result<Vec<u8>, Errno>)
        requires
            old(self).wf(),
        ensures
            final(self).wf(),
            match old(self).fd_lookup(fd, RIGHT_FD_READ) {
                Err(e) => r == Err::<Vec<u8>, Errno>(e) && *final(self) == *old(self),
                Ok(d) => r matches Ok(v) && v@ == window(old(self).nodes@[d.ino as int].data@, d.offset as int, len as int)
                    && final(self).nodes == old(self).nodes && final(self).fds@ == old(self).fds@.update(
                    fd as int,
                    Some(at_offset(d, (d.offset + v@.len()) as u64)),
                ),
            },
    {
        let d = match self.get_fd(fd, RIGHT_FD_READ) {
            Err(e) => {
                return Err(e);
            },
            Ok(d) => d,
        };
        let v = read_window(&self.nodes[d.ino].data, d.offset, len);
        assert(v@.len() <= MAX_FILE_SIZE) by {
            assert(self.nodes@[d.ino as int].data@.len() <= MAX_FILE_SIZE);
        }
        assert(d.offset + v@.len() <= MAX_FILE_SIZE || v@.len() == 0);
        self.set_offset(fd, d, d.offset + v.len() as u64);
        Ok(v)
    }

    pub open spec fn pwrite_spec(&self, fd: u32, bytes: Seq<u8>, offset: u64) -> Result<(int, Seq<u8>), Errno> {
        match self.fd_lookup(fd, RIGHT_FD_WRITE) {
            Err(e) => Err(e),
            Ok(d) => if offset + bytes.len() > MAX_FILE_SIZE {
                Err(Errno::FileTooBig)
            } else {
                Ok((d.ino as int, spliced(self.nodes@[d.ino as int].data@, offset as int, bytes)))
            },
        }
    }

    /// Writes `bytes` at `offset` without moving the cursor; returns how many
    /// bytes were written.
    pub fn fd_pwrite(&mut self, fd: u32, bytes: &[u8], offset: u64) -> (r: Result<usize, Errno>)
        requires
            old(self).wf(),
        ensures
            final(self).wf(),
            match old(self).pwrite_spec(fd, bytes@, offset) {
                Err(e) => r == Err::<usize, Errno>(e) && *final(self) == *old(self),
                Ok((n, data)) => r == Ok::<usize, Errno>(bytes@.len() as usize) && old(self).sets_data(
                    final(self),
                    n,
                    data,
                    old(self).fds@,
                ),
            },
    {
        let d = match self.get_fd(fd, RIGHT_FD_WRITE) {
            Err(e) => {
                return Err(e);
            },
            Ok(d) => d,
        };
        if offset > MAX_FILE_SIZE || bytes.len() as u64 > MAX_FILE_SIZE - offset {
            return Err(Errno::FileTooBig);
        }
        let mut data = self.take_data(d.ino);
        splice(&mut data, offset as usize, bytes);
        self.put_data(d.ino, data, self.nodes[d.ino].atim, self.nodes[d.ino].mtim);
        Ok(bytes.len())
    }

    pub open spec fn write_spec(&self, fd: u32, bytes: Seq<u8>) -> Result<(int, Seq<u8>, Descriptor), Errno> {
        match self.fd_lookup(fd, RIGHT_FD_WRITE) {
            Err(e) => Err(e),
            Ok(d) => {
                let at = if d.flags & FDFLAG_APPEND != 0 {
                    self.size_of(d.ino as int)
                } else {
                    d.offset as int
                };
                if at + bytes.len() > MAX_FILE_SIZE {
                    Err(Errno::FileTooBig)
                } else {
                    Ok(
                        (
                            d.ino as int,
                            spliced(self.nodes@[d.ino as int].data@, at, bytes),
                            at_offset(d, (at + bytes.len()) as u64),
                        ),
                    )
                }
            },
        }
    }

    /// Writes `bytes` at the cursor, or at the end under `FDFLAG_APPEND`, and
    /// moves the cursor past them.
    pub fn fd_write(&mut self, fd: u32, bytes: &[u8]) -> (r: Result<usize, Errno>)
        requires
            old(self).wf(),
        ensures
            final(self).wf(),
            match old(self).write_spec(fd, bytes@) {
                Err(e) => r == Err::<usize, Errno>(e) && *final(self) == *old(self),
                Ok((n, data, nd)) => r == Ok::<usize, Errno>(bytes@.len() as usize) && old(self).sets_data(
                    final(self),
                    n,
                    data,
                    old(self).fds@.update(fd as int, Some(nd)),
                ),
            },
    {
        let d = match self.get_fd(fd, RIGHT_FD_WRITE) {
            Err(e) => {
                return Err(e);
            },
            Ok(d) => d,
        };
        let at: u64 = if d.flags & FDFLAG_APPEND != 0 {
            self.nodes[d.ino].data.len() as u64
        } else {
            d.offset
        };
        if at > MAX_FILE_SIZE || bytes.len() as u64 > MAX_FILE_SIZE - at {
            return Err(Errno::FileTooBig);
        }
        let mut data = self.take_data(d.ino);
        splice(&mut data, at as usize, bytes);
        self.put_data(d.ino, data, self.nodes[d.ino].atim, self.nodes[d.ino].mtim);
        self.set_offset(fd, d, at + bytes.len() as u64);
        Ok(bytes.len())
    }

    pub open spec fn allocate_spec(&self, fd: u32, offset: u64, len: u64) -> Result<(int, Seq<u8>), Errno> {
        match self.fd_lookup_any(fd, ALLOCATE_RIGHTS) {
            Err(e) => Err(e),
            Ok(d) => if offset + len > MAX_FILE_SIZE {
                Err(Errno::FileTooBig)
            } else {
                let data = self.nodes@[d.ino as int].data@;
                Ok(
                    (
                        d.ino as int,
                        if offset + len > data.len() {
                            resized(data, offset + len)
                        } else {
                            data
                        },
                    ),
                )
            },
        }
    }

    /// Makes room for `len` bytes at `offset`: the file grows to
    /// `offset + len` bytes when it is shorter, and never shrinks.
    pub fn fd_allocate(&mut self, fd: u32, offset: u64, len: u64) -> (r: Result<(), Errno>)
        requires
            old(self).wf(),
        ensures
            final(self).wf(),
            match old(self).allocate_spec(fd, offset, len) {
                Err(e) => r == Err::<(), Errno>(e) && *final(self) == *old(self),
                Ok((n, data)) => r is Ok && old(self).sets_data(final(self), n, data, old(self).fds@),
            },
    {
        let d = match self.get_fd_any(fd, ALLOCATE_RIGHTS) {
            Err(e) => {
                return Err(e);
            },
            Ok(d) => d,
        };
        if offset > MAX_FILE_SIZE || len > MAX_FILE_SIZE - offset {
            return Err(Errno::FileTooBig);
        }
        let end = offset + len;
        let mut data = self.take_data(d.ino);
        if end as usize > data.len() {
            resize_zero(&mut data, end as usize);
        }
        self.put_data(d.ino, data, self.nodes[d.ino].atim, self.nodes[d.ino].mtim);
        Ok(())
    }

    /// The attributes of the node behind `fd`.
    pub fn fd_filestat_get(&self, fd: u32) -> (r: Result<FileStat, Errno>)
        requires
            self.wf(),
        ensures
            match self.fd_lookup_any(fd, FILESTAT_GET_RIGHTS) {
                Err(e) => r == Err::<FileStat, Errno>(e),
                Ok(d) => r == Ok::<FileStat, Errno>(self.filestat_of(d.ino as int)),
            },
    {
        match self.get_fd_any(fd, FILESTAT_GET_RIGHTS) {
            Err(e) => Err(e),
            Ok(d) => Ok(self.filestat(d.ino)),
        }
    }

    pub open spec fn set_size_spec(&self, fd: u32, size: u64) -> Result<(int, Seq<u8>), Errno> {
        match self.fd_lookup_any(fd, SET_SIZE_RIGHTS) {
            Err(e) => Err(e),
            Ok(d) => if size > MAX_FILE_SIZE {
                Err(Errno::FileTooBig)
            } else {
                Ok((d.ino as int, resized(self.nodes@[d.ino as int].data@, size as int)))
            },
        }
    }

    /// Cuts or grows the file behind `fd` to `size` bytes; new bytes are zeros.
    pub fn fd_filestat_set_size(&mut self, fd: u32, size: u64) -> (r: Result<(), Errno>)
        requires
            old(self).wf(),
        ensures
            final(self).wf(),
            match old(self).set_size_spec(fd, size) {
                Err(e) => r == Err::<(), Errno>(e) && *final(self) == *old(self),
                Ok((n, data)) => r is Ok && old(self).sets_data(final(self), n, data, old(self).fds@),
            },
    {
        let d = match self.get_fd_any(fd, SET_SIZE_RIGHTS) {
            Err(e) => {
                return Err(e);
            },
            Ok(d) => d,
        };
        if size > MAX_FILE_SIZE {
            return Err(Errno::FileTooBig);
        }
        let mut data = self.take_data(d.ino);
        resize_zero(&mut data, size as usize);
        self.put_data(d.ino, data, self.nodes[d.ino].atim, self.nodes[d.ino].mtim);
        Ok(())
    }

    pub open spec fn fd_set_times_status(&self, fd: u32, fst: u16) -> Errno {
        if times_conflict(fst) {
            Errno::Invalid
        } else {
            match self.fd_lookup_any(fd, SET_TIMES_RIGHTS) {
                Err(e) => e,
                Ok(_) => Errno::Success,
            }
        }
    }

    /// Sets the times of the node behind `fd`; the current time is `now`.
    /// Asking for a time and for the current time at once changes nothing.
    pub fn fd_filestat_set_times_at(&mut self, fd: u32, atim: u64, mtim: u64, fst: u16, now: u64) -> (r: Result<(), Errno>)
        requires
            old(self).wf(),
        ensures
            final(self).wf(),
            r is Ok <==> old(self).fd_set_times_status(fd, fst) == Errno::Success,
            r matches Err(e) ==> e == old(self).fd_set_times_status(fd, fst) && *final(self) == *old(self),
            r is Ok ==> old(self).sets_times(
                final(self),
                old(self).fds@[fd as int].unwrap().ino as int,
                atim,
                mtim,
                fst,
                now,
            ),
    {
        if (fst & FILESTAT_SET_ATIM != 0 && fst & FILESTAT_SET_ATIM_NOW != 0) || (fst & FILESTAT_SET_MTIM != 0 && fst
            & FILESTAT_SET_MTIM_NOW != 0) {
            return Err(Errno::Invalid);
        }
        let d = match self.get_fd_any(fd, SET_TIMES_RIGHTS) {
            Err(e) => {
                return Err(e);
            },
            Ok(d) => d,
        };
        self.set_times_of(d.ino, atim, mtim, fst, now);
        Ok(())
    }

    /// `fd_filestat_set_times_at` with the wall clock as the current time.
    pub fn fd_filestat_set_times(&mut self, fd: u32, atim: u64, mtim: u64, fst: u16) -> (r: Result<(), Errno>)
        requires
            old(self).wf(),
        ensures
            final(self).wf(),
            r is Ok <==> old(self).fd_set_times_status(fd, fst) == Errno::Success,
            r matches Err(e) ==> e == old(self).fd_set_times_status(fd, fst) && *final(self) == *old(self),
            r is Ok ==> exists|now: u64|
                old(self).sets_times(
                    final(self),
                    old(self).fds@[fd as int].unwrap().ino as int,
                    atim,
                    mtim,
                    fst,
                    now,
                ),
    {
        let now = now_nanos();
        self.fd_filestat_set_times_at(fd, atim, mtim, fst, now)
    }

    /// Whether `fd` is a terminal: a character device without seek or tell
    /// rights. The tree holds no devices, so an open descriptor never is.
    pub fn isatty(&self, fd: u32) -> (r: Result<bool, Errno>)
        requires
            self.wf(),
        ensures
            match self.fd_entry(fd as int) {
                None => r == Err::<bool, Errno>(Errno::BadDescriptor),
                Some(d) => r == Ok::<bool, Errno>(d.kind == FileType::CharacterDevice && d.rights_base & (RIGHT_FD_SEEK
                    | RIGHT_FD_TELL) == 0),
            },
    {
        let f = fd as usize;
        if f >= self.fds.len() {
            return Err(Errno::BadDescriptor);
        }
        match self.fds[f] {
            None => Err(Errno::BadDescriptor),
            Some(d) => Ok(d.kind == FileType::CharacterDevice && d.rights_base & (RIGHT_FD_SEEK | RIGHT_FD_TELL) == 0),
        }
    }
}

} // verus!
