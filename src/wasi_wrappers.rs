//! The operations in the shape a guest calls them: paths as strings, a status
//! as the result, and out-parameters for what an operation hands back.
use vstd::prelude::*;
use vstd::string::StringSliceAdditionalSpecFns;
use crate::errno::{Errno, status_of};
use crate::fs::{WasiCtx, Descriptor, FileType, INVALID_FD};
use crate::rights::{
    RIGHT_PATH_CREATE_DIRECTORY, RIGHT_PATH_REMOVE_DIRECTORY, RIGHT_PATH_UNLINK_FILE, RIGHT_PATH_SYMLINK,
    RIGHT_PATH_FILESTAT_SET_TIMES,
};
use crate::open::follows;
use crate::fileops::{at_offset, TELL_RIGHTS, FILESTAT_GET_RIGHTS};
use crate::host::nanos_of;
use crate::table::FdStat;
use crate::stat::FileStat;

verus! {

/// Copies `src` to the front of `buf`.
pub fn copy_into(buf: &mut [u8], src: &Vec<u8>)
    requires
        src@.len() <= old(buf)@.len(),
    ensures
        final(buf)@ == src@ + old(buf)@.skip(src@.len() as int),
{
    let mut i: usize = 0;
    while i < src.len()
        invariant
            src@.len() <= buf@.len(),
            buf@.len() == old(buf)@.len(),
            i <= src@.len(),
            buf@ == src@.take(i as int) + old(buf)@.skip(i as int),
        decreases src@.len() - i,
    {
        buf[i] = src[i];
        i = i + 1;
        assert(buf@ =~= src@.take(i as int) + old(buf)@.skip(i as int));
    }
    assert(src@.take(src@.len() as int) =~= src@);
}

pub fn wasi_path_create_directory(ctx: &mut WasiCtx, dir_fd: u32, dir_name: &str) -> (r: Errno)
    requires
        old(ctx).wf(),
    ensures
        final(ctx).wf(),
        r == old(ctx).create_directory_status(dir_fd, dir_name.spec_bytes()),
        r != Errno::Success ==> *final(ctx) == *old(ctx),
        r == Errno::Success ==> (old(ctx).path_lookup(dir_fd, RIGHT_PATH_CREATE_DIRECTORY, dir_name.spec_bytes(), false)
            matches Ok((p, leaf)) && exists|now: u64|
            old(ctx).creates(final(ctx), p, leaf, FileType::Directory, seq![], now)),
{
    status_of_unit(ctx.path_create_directory(dir_fd, dir_name.as_bytes()))
}

pub fn wasi_path_remove_directory(ctx: &mut WasiCtx, dir_fd: u32, dir_name: &str) -> (r: Errno)
    requires
        old(ctx).wf(),
    ensures
        final(ctx).wf(),
        r == old(ctx).remove_directory_status(dir_fd, dir_name.spec_bytes()),
        r != Errno::Success ==> *final(ctx) == *old(ctx),
        r == Errno::Success ==> (old(ctx).path_lookup(dir_fd, RIGHT_PATH_REMOVE_DIRECTORY, dir_name.spec_bytes(), false)
            matches Ok((p, leaf)) && old(ctx).unbinds(final(ctx), p, leaf)),
{
    status_of_unit(ctx.path_remove_directory(dir_fd, dir_name.as_bytes()))
}

pub fn wasi_path_unlink_file(ctx: &mut WasiCtx, dir_fd: u32, file_name: &str) -> (r: Errno)
    requires
        old(ctx).wf(),
    ensures
        final(ctx).wf(),
        r == old(ctx).unlink_status(dir_fd, file_name.spec_bytes()),
        r != Errno::Success ==> *final(ctx) == *old(ctx),
        r == Errno::Success ==> (old(ctx).path_lookup(dir_fd, RIGHT_PATH_UNLINK_FILE, file_name.spec_bytes(), false)
            matches Ok((p, leaf)) && old(ctx).unbinds(final(ctx), p, leaf)),
{
    status_of_unit(ctx.path_unlink_file(dir_fd, file_name.as_bytes()))
}

pub fn wasi_path_symlink(ctx: &mut WasiCtx, old_path: &str, dirfd: u32, new_path: &str) -> (r: Errno)
    requires
        old(ctx).wf(),
    ensures
        final(ctx).wf(),
        r == old(ctx).symlink_status(old_path.spec_bytes(), dirfd, new_path.spec_bytes()),
        r != Errno::Success ==> *final(ctx) == *old(ctx),
        r == Errno::Success ==> (old(ctx).path_lookup(dirfd, RIGHT_PATH_SYMLINK, new_path.spec_bytes(), false) matches Ok(
            (p, leaf),
        ) && exists|now: u64| old(ctx).creates(final(ctx), p, leaf, FileType::SymbolicLink, old_path.spec_bytes(), now)),
{
    status_of_unit(ctx.path_symlink(old_path.as_bytes(), dirfd, new_path.as_bytes()))
}

/// The status of a `Result` without a value.
pub fn status_of_unit(r: Result<(), Errno>) -> (s: Errno)
    requires
        r matches Err(e) ==> e != Errno::Success,
    ensures
        s == status_of(r),
{
    match r {
        Ok(()) => Errno::Success,
        Err(e) => e,
    }
}

/// Opens `path`; `fd` receives the new descriptor, or `INVALID_FD` when the
/// open fails.
pub fn wasi_path_open(
    ctx: &mut WasiCtx,
    dirfd: u32,
    dirflags: u32,
    path: &str,
    oflags: u16,
    fs_rights_base: u64,
    fs_rights_inheriting: u64,
    fs_flags: u16,
    fd: &mut u32,
) -> (r: Errno)
    requires
        old(ctx).wf(),
    ensures
        final(ctx).wf(),
        exists|res: Result<u32, Errno>, now: u64|
            {
                &&& old(ctx).open_post(
                    final(ctx),
                    res,
                    dirfd,
                    dirflags,
                    path.spec_bytes(),
                    oflags,
                    fs_rights_base,
                    fs_rights_inheriting,
                    fs_flags,
                    now,
                )
                &&& r == status_of(res)
                &&& *final(fd) == match res {
                    Ok(f) => f,
                    Err(_) => INVALID_FD,
                }
            },
{
    let res = ctx.path_open(dirfd, dirflags, path.as_bytes(), oflags, fs_rights_base, fs_rights_inheriting, fs_flags);
    match res {
        Ok(f) => {
            *fd = f;
            Errno::Success
        },
        Err(e) => {
            *fd = INVALID_FD;
            e
        },
    }
}

/// Reads the target of the symlink `path` into `buf`, cut to its size;
/// `bufused` receives the number of bytes written.
pub fn wasi_path_readlink(ctx: &WasiCtx, dirfd: u32, path: &str, buf: &mut [u8], bufused: &mut usize) -> (r: Errno)
    requires
        ctx.wf(),
    ensures
        match ctx.readlink_spec(dirfd, path.spec_bytes(), old(buf)@.len() as usize) {
            Ok(v) => r == Errno::Success && *final(bufused) == v.len() && final(buf)@ == v + old(buf)@.skip(
                v.len() as int,
            ),
            Err(e) => r == e && final(buf)@ == old(buf)@ && *final(bufused) == *old(bufused),
        },
{
    match ctx.path_readlink(dirfd, path.as_bytes(), buf.len()) {
        Ok(v) => {
            copy_into(buf, &v);
            *bufused = v.len();
            Errno::Success
        },
        Err(e) => e,
    }
}

pub fn wasi_path_rename(ctx: &mut WasiCtx, old_dirfd: u32, old_path: &str, new_dirfd: u32, new_path: &str) -> (r: Errno)
    requires
        old(ctx).wf(),
    ensures
        final(ctx).wf(),
        exists|res: Result<(), Errno>|
            old(ctx).rename_post(final(ctx), res, old_dirfd, old_path.spec_bytes(), new_dirfd, new_path.spec_bytes())
                && r == status_of(res),
{
    let res = ctx.path_rename(old_dirfd, old_path.as_bytes(), new_dirfd, new_path.as_bytes());
    let r = match res {
        Ok(()) => Errno::Success,
        Err(e) => e,
    };
    assert(old(ctx).rename_post(ctx, res, old_dirfd, old_path.spec_bytes(), new_dirfd, new_path.spec_bytes())
        && r == status_of(res));
    r
}

pub fn wasi_fd_fdstat_get(ctx: &WasiCtx, fd: u32, fdstat: &mut FdStat) -> (r: Errno)
    requires
        ctx.wf(),
    ensures
        match ctx.fd_entry(fd as int) {
            None => r == Errno::BadDescriptor && *final(fdstat) == *old(fdstat),
            Some(d) => r == Errno::Success && *final(fdstat) == crate::table::fdstat_of(d),
        },
{
    match ctx.fd_fdstat_get(fd) {
        Ok(s) => {
            *fdstat = s;
            Errno::Success
        },
        Err(e) => e,
    }
}

pub fn wasi_fd_close(ctx: &mut WasiCtx, fd: u32) -> (r: Errno)
    requires
        old(ctx).wf(),
    ensures
        final(ctx).wf(),
        r == old(ctx).close_status(fd),
        r != Errno::Success ==> *final(ctx) == *old(ctx),
        r == Errno::Success ==> final(ctx).fds@ == old(ctx).fds@.update(fd as int, None) && final(ctx).nodes == old(
            ctx,
        ).nodes,
{
    match ctx.fd_close(fd) {
        Ok(()) => Errno::Success,
        Err(e) => e,
    }
}

pub fn wasi_fd_renumber(ctx: &mut WasiCtx, from: u32, to: u32) -> (r: Errno)
    requires
        old(ctx).wf(),
    ensures
        final(ctx).wf(),
        r == old(ctx).renumber_status(from, to),
        r != Errno::Success ==> *final(ctx) == *old(ctx),
        r == Errno::Success ==> final(ctx).nodes == old(ctx).nodes && final(ctx).fds@ == if from == to {
            old(ctx).fds@
        } else {
            old(ctx).fds@.update(to as int, old(ctx).fds@[from as int]).update(from as int, None)
        },
{
    match ctx.fd_renumber(from, to) {
        Ok(()) => Errno::Success,
        Err(e) => e,
    }
}

pub fn wasi_fd_fdstat_set_rights(ctx: &mut WasiCtx, fd: u32, base: u64, inheriting: u64) -> (r: Errno)
    requires
        old(ctx).wf(),
    ensures
        final(ctx).wf(),
        r == old(ctx).set_rights_status(fd, base, inheriting),
        r != Errno::Success ==> *final(ctx) == *old(ctx),
        r == Errno::Success ==> final(ctx).nodes == old(ctx).nodes && final(ctx).fds@ == old(ctx).fds@.update(
            fd as int,
            Some(
                (Descriptor {
                    rights_base: base,
                    rights_inheriting: inheriting,
                    ..old(ctx).fds@[fd as int].unwrap()
                }),
            ),
        ),
{
    match ctx.fd_fdstat_set_rights(fd, base, inheriting) {
        Ok(()) => Errno::Success,
        Err(e) => e,
    }
}

pub fn wasi_fd_seek(ctx: &mut WasiCtx, fd: u32, offset: i64, whence: u8, newoffset: &mut u64) -> (r: Errno)
    requires
        old(ctx).wf(),
    ensures
        final(ctx).wf(),
        match old(ctx).seek_spec(fd, offset, whence) {
            Ok(o) => r == Errno::Success && *final(newoffset) == o && final(ctx).nodes == old(ctx).nodes
                && final(ctx).fds@ == old(ctx).fds@.update(
                fd as int,
                Some(at_offset(old(ctx).fds@[fd as int].unwrap(), o)),
            ),
            Err(e) => r == e && *final(newoffset) == *old(newoffset) && *final(ctx) == *old(ctx),
        },
{
    match ctx.fd_seek(fd, offset, whence) {
        Ok(o) => {
            *newoffset = o;
            Errno::Success
        },
        Err(e) => e,
    }
}

pub fn wasi_fd_tell(ctx: &WasiCtx, fd: u32, offset: &mut u64) -> (r: Errno)
    requires
        ctx.wf(),
    ensures
        match ctx.fd_lookup_any(fd, TELL_RIGHTS) {
            Ok(d) => r == Errno::Success && *final(offset) == d.offset,
            Err(e) => r == e && *final(offset) == *old(offset),
        },
{
    match ctx.fd_tell(fd) {
        Ok(o) => {
            *offset = o;
            Errno::Success
        },
        Err(e) => e,
    }
}

pub fn wasi_clock_time_get(clock_id: u32, precision: u64, time: &mut u64) -> (r: Errno)
    ensures
        crate::host::clock_of_id(clock_id) is None <==> r == Errno::Invalid,
        r == Errno::Success || r == Errno::Invalid || r == Errno::Io,
        r != Errno::Success ==> *final(time) == *old(time),
        r == Errno::Success ==> exists|sec: i64, nsec: i64| nanos_of(sec, nsec) == Some(*final(time)),
{
    match crate::host::clock_time_get(clock_id, precision) {
        Ok(t) => {
            *time = t;
            Errno::Success
        },
        Err(e) => e,
    }
}

pub fn wasi_fd_filestat_get(ctx: &WasiCtx, fd: u32, filestat: &mut FileStat) -> (r: Errno)
    requires
        ctx.wf(),
    ensures
        match ctx.fd_lookup_any(fd, FILESTAT_GET_RIGHTS) {
            Ok(d) => r == Errno::Success && *final(filestat) == ctx.filestat_of(d.ino as int),
            Err(e) => r == e && *final(filestat) == *old(filestat),
        },
{
    match ctx.fd_filestat_get(fd) {
        Ok(s) => {
            *filestat = s;
            Errno::Success
        },
        Err(e) => e,
    }
}

/// Reads into `buf` from `offset`; `nread` receives the number of bytes read.
pub fn wasi_fd_pread(ctx: &WasiCtx, fd: u32, buf: &mut [u8], offset: u64, nread: &mut usize) -> (r: Errno)
    requires
        ctx.wf(),
    ensures
        match ctx.fd_lookup(fd, crate::rights::RIGHT_FD_READ) {
            Ok(d) => {
                let v = crate::bytes::window(ctx.nodes@[d.ino as int].data@, offset as int, old(buf)@.len() as int);
                &&& r == Errno::Success
                &&& *final(nread) == v.len()
                &&& final(buf)@ == v + old(buf)@.skip(v.len() as int)
            },
            Err(e) => r == e && final(buf)@ == old(buf)@ && *final(nread) == *old(nread),
        },
{
    match ctx.fd_pread(fd, buf.len(), offset) {
        Ok(v) => {
            copy_into(buf, &v);
            *nread = v.len();
            Errno::Success
        },
        Err(e) => e,
    }
}

/// Writes `buf` at `offset`; `nwritten` receives the number of bytes written.
pub fn wasi_fd_pwrite(ctx: &mut WasiCtx, fd: u32, buf: &[u8], offset: u64, nwritten: &mut usize) -> (r: Errno)
    requires
        old(ctx).wf(),
    ensures
        final(ctx).wf(),
        match old(ctx).pwrite_spec(fd, buf@, offset) {
            Ok((n, data)) => r == Errno::Success && *final(nwritten) == buf@.len() && old(ctx).sets_data(
                final(ctx),
                n,
                data,
                old(ctx).fds@,
            ),
            Err(e) => r == e && *final(ctx) == *old(ctx) && *final(nwritten) == *old(nwritten),
        },
{
    match ctx.fd_pwrite(fd, buf, offset) {
        Ok(n) => {
            *nwritten = n;
            Errno::Success
        },
        Err(e) => e,
    }
}

/// Fills `buf` with the listing of the directory `fd` from `cookie` on, up to
/// `buf_len` bytes; `buf_used` receives the number of bytes written.
pub fn wasi_fd_readdir(ctx: &WasiCtx, fd: u32, buf: &mut [u8], buf_len: usize, cookie: u64, buf_used: &mut usize) -> (r: Errno)
    requires
        ctx.wf(),
    ensures
        match ctx.readdir_spec(fd, if buf_len < old(buf)@.len() { buf_len } else { old(buf)@.len() as usize }, cookie) {
            Ok(v) => r == Errno::Success && *final(buf_used) == v.len() && final(buf)@ == v + old(buf)@.skip(
                v.len() as int,
            ),
            Err(e) => r == e && final(buf)@ == old(buf)@ && *final(buf_used) == *old(buf_used),
        },
{
    let n = if buf_len < buf.len() {
        buf_len
    } else {
        buf.len()
    };
    match ctx.fd_readdir(fd, n, cookie) {
        Ok(v) => {
            copy_into(buf, &v);
            *buf_used = v.len();
            Errno::Success
        },
        Err(e) => e,
    }
}

/// The first `len` bytes of `s`.
pub fn prefix_bytes(s: &str, len: usize) -> (r: Vec<u8>)
    requires
        len <= s.spec_bytes().len(),
    ensures
        r@ == s.spec_bytes().take(len as int),
{
    let b = s.as_bytes();
    let mut out: Vec<u8> = Vec::new();
    let mut i: usize = 0;
    while i < len
        invariant
            len <= b@.len(),
            i <= len,
            out@ == b@.take(i as int),
        decreases len - i,
    {
        out.push(b[i]);
        i = i + 1;
        assert(out@ =~= b@.take(i as int));
    }
    out
}

/// The attributes of the node that the first `path_len` bytes of `path` name.
pub fn wasi_path_filestat_get(
    ctx: &WasiCtx,
    fd: u32,
    dirflags: u32,
    path: &str,
    path_len: usize,
    filestat: &mut FileStat,
) -> (r: Errno)
    requires
        ctx.wf(),
        path_len <= path.spec_bytes().len(),
    ensures
        match ctx.path_filestat_spec(fd, dirflags, path.spec_bytes().take(path_len as int)) {
            Ok(s) => r == Errno::Success && *final(filestat) == s,
            Err(e) => r == e && *final(filestat) == *old(filestat),
        },
{
    let p = prefix_bytes(path, path_len);
    match ctx.path_filestat_get(fd, dirflags, p.as_slice()) {
        Ok(s) => {
            *filestat = s;
            Errno::Success
        },
        Err(e) => e,
    }
}

/// Sets the times of the node that the first `path_len` bytes of `path` name.
pub fn wasi_path_filestat_set_times(
    ctx: &mut WasiCtx,
    fd: u32,
    dirflags: u32,
    path: &str,
    path_len: usize,
    st_atim: u64,
    st_mtim: u64,
    fst_flags: u16,
) -> (r: Errno)
    requires
        old(ctx).wf(),
        path_len <= path.spec_bytes().len(),
    ensures
        final(ctx).wf(),
        r == old(ctx).path_set_times_status(fd, dirflags, path.spec_bytes().take(path_len as int), fst_flags),
        r != Errno::Success ==> *final(ctx) == *old(ctx),
        r == Errno::Success ==> (old(ctx).path_lookup(
            fd,
            RIGHT_PATH_FILESTAT_SET_TIMES,
            path.spec_bytes().take(path_len as int),
            follows(dirflags),
        ) matches Ok((p, leaf)) && (old(ctx).target_of(p, leaf) matches Some(t) && exists|now: u64|
            old(ctx).sets_times(final(ctx), t, st_atim, st_mtim, fst_flags, now))),
{
    let p = prefix_bytes(path, path_len);
    match ctx.path_filestat_set_times(fd, dirflags, p.as_slice(), st_atim, st_mtim, fst_flags) {
        Ok(()) => Errno::Success,
        Err(e) => e,
    }
}

/// Writes `buf` at the cursor; `nwritten` receives the number of bytes written.
pub fn wasi_fd_write(ctx: &mut WasiCtx, fd: u32, buf: &[u8], nwritten: &mut usize) -> (r: Errno)
    requires
        old(ctx).wf(),
    ensures
        final(ctx).wf(),
        match old(ctx).write_spec(fd, buf@) {
            Ok((n, data, nd)) => r == Errno::Success && *final(nwritten) == buf@.len() && old(ctx).sets_data(
                final(ctx),
                n,
                data,
                old(ctx).fds@.update(fd as int, Some(nd)),
            ),
            Err(e) => r == e && *final(ctx) == *old(ctx) && *final(nwritten) == *old(nwritten),
        },
{
    match ctx.fd_write(fd, buf) {
        Ok(n) => {
            *nwritten = n;
            Errno::Success
        },
        Err(e) => e,
    }
}

/// Reads into `buf` at the cursor; `nread` receives the number of bytes read.
pub fn wasi_fd_read(ctx: &mut WasiCtx, fd: u32, buf: &mut [u8], nread: &mut usize) -> (r: Errno)
    requires
        old(ctx).wf(),
    ensures
        final(ctx).wf(),
        match old(ctx).fd_lookup(fd, crate::rights::RIGHT_FD_READ) {
            Ok(d) => {
                let v = crate::bytes::window(old(ctx).nodes@[d.ino as int].data@, d.offset as int, old(buf)@.len() as int);
                &&& r == Errno::Success
                &&& *final(nread) == v.len()
                &&& final(buf)@ == v + old(buf)@.skip(v.len() as int)
                &&& final(ctx).nodes == old(ctx).nodes
                &&& final(ctx).fds@ == old(ctx).fds@.update(
                    fd as int,
                    Some(crate::fileops::at_offset(d, (d.offset + v.len()) as u64)),
                )
            },
            Err(e) => r == e && final(buf)@ == old(buf)@ && *final(nread) == *old(nread) && *final(ctx) == *old(ctx),
        },
{
    match ctx.fd_read(fd, buf.len()) {
        Ok(v) => {
            copy_into(buf, &v);
            *nread = v.len();
            Errno::Success
        },
        Err(e) => e,
    }
}

pub fn wasi_fd_allocate(ctx: &mut WasiCtx, fd: u32, offset: u64, len: u64) -> (r: Errno)
    requires
        old(ctx).wf(),
    ensures
        final(ctx).wf(),
        match old(ctx).allocate_spec(fd, offset, len) {
            Ok((n, data)) => r == Errno::Success && old(ctx).sets_data(final(ctx), n, data, old(ctx).fds@),
            Err(e) => r == e && *final(ctx) == *old(ctx),
        },
{
    match ctx.fd_allocate(fd, offset, len) {
        Ok(()) => Errno::Success,
        Err(e) => e,
    }
}

pub fn wasi_fd_filestat_set_size(ctx: &mut WasiCtx, fd: u32, size: u64) -> (r: Errno)
    requires
        old(ctx).wf(),
    ensures
        final(ctx).wf(),
        match old(ctx).set_size_spec(fd, size) {
            Ok((n, data)) => r == Errno::Success && old(ctx).sets_data(final(ctx), n, data, old(ctx).fds@),
            Err(e) => r == e && *final(ctx) == *old(ctx),
        },
{
    match ctx.fd_filestat_set_size(fd, size) {
        Ok(()) => Errno::Success,
        Err(e) => e,
    }
}

pub fn wasi_fd_filestat_set_times(ctx: &mut WasiCtx, fd: u32, st_atim: u64, st_mtim: u64, fst_flags: u16) -> (r: Errno)
    requires
        old(ctx).wf(),
    ensures
        final(ctx).wf(),
        r == old(ctx).fd_set_times_status(fd, fst_flags),
        r != Errno::Success ==> *final(ctx) == *old(ctx),
        r == Errno::Success ==> exists|now: u64|
            old(ctx).sets_times(
                final(ctx),
                old(ctx).fds@[fd as int].unwrap().ino as int,
                st_atim,
                st_mtim,
                fst_flags,
                now,
            ),
{
    match ctx.fd_filestat_set_times(fd, st_atim, st_mtim, fst_flags) {
        Ok(()) => Errno::Success,
        Err(e) => e,
    }
}

pub fn wasi_sched_yield() -> (r: Errno)
    ensures
        r == Errno::Success || r == Errno::Io,
{
    crate::host::sched_yield()
}

} // verus!
