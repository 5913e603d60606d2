//! Helpers for callers that expect an operation to succeed: each states, as
//! its precondition, the condition under which the operation succeeds.
use vstd::prelude::*;
use vstd::string::StringSliceAdditionalSpecFns;
use crate::errno::Errno;
use crate::fs::{WasiCtx, FileType};
use crate::open::{O_CREAT, OpenPlan, opened};
use crate::rights::{RIGHT_PATH_CREATE_DIRECTORY, RIGHT_PATH_REMOVE_DIRECTORY, RIGHT_PATH_UNLINK_FILE};
use crate::table::lemma_put_lowest;

verus! {

/// Creates the directory `dir_name`, which must be creatable.
pub fn create_dir(ctx: &mut WasiCtx, dir_fd: u32, dir_name: &str)
    requires
        old(ctx).wf(),
        old(ctx).create_directory_status(dir_fd, dir_name.spec_bytes()) == Errno::Success,
    ensures
        final(ctx).wf(),
        old(ctx).path_lookup(dir_fd, RIGHT_PATH_CREATE_DIRECTORY, dir_name.spec_bytes(), false) matches Ok((p, leaf))
            && exists|now: u64| old(ctx).creates(final(ctx), p, leaf, FileType::Directory, seq![], now),
{
    let r = ctx.path_create_directory(dir_fd, dir_name.as_bytes());
    assert(r is Ok);
}

/// Removes the directory `dir_name`, which must be there and empty.
pub fn cleanup_dir(ctx: &mut WasiCtx, dir_fd: u32, dir_name: &str)
    requires
        old(ctx).wf(),
        old(ctx).remove_directory_status(dir_fd, dir_name.spec_bytes()) == Errno::Success,
    ensures
        final(ctx).wf(),
        old(ctx).path_lookup(dir_fd, RIGHT_PATH_REMOVE_DIRECTORY, dir_name.spec_bytes(), false) matches Ok((p, leaf))
            && old(ctx).unbinds(final(ctx), p, leaf),
{
    let r = ctx.path_remove_directory(dir_fd, dir_name.as_bytes());
    assert(r is Ok);
}

/// Creates the empty file `file_name` if it is not there, and closes it again.
pub fn create_file(ctx: &mut WasiCtx, dir_fd: u32, file_name: &str)
    requires
        old(ctx).wf(),
        old(ctx).open_status(dir_fd, 0, file_name.spec_bytes(), O_CREAT) == Errno::Success,
    ensures
        final(ctx).wf(),
        exists|mid: WasiCtx, f: u32, now: u64|
            {
                &&& old(ctx).open_post(&mid, Ok(f), dir_fd, 0, file_name.spec_bytes(), O_CREAT, 0, 0, 0, now)
                &&& final(ctx).nodes == mid.nodes
                &&& final(ctx).fds@ == mid.fds@.update(f as int, None)
            },
{
    let now = crate::host::now_nanos();
    let r = ctx.path_open_at(dir_fd, 0, file_name.as_bytes(), O_CREAT, 0, 0, 0, now);
    let ghost mid = *ctx;
    proof {
        match old(ctx).open_plan(dir_fd, 0, file_name.spec_bytes(), O_CREAT) {
            OpenPlan::Fail(e) => {
                assert(0u32 & 1u32 == 0) by (bit_vector);
                if let Ok(d) = old(ctx).dir_lookup(dir_fd, crate::open::open_needs(O_CREAT)) {
                    old(ctx).lemma_resolve_err(d.ino as int, file_name.spec_bytes(), false);
                }
                assert(false);
            },
            OpenPlan::Existing(t) => {
                assert(r is Ok);
                let f = r.unwrap() as int;
                let parent = old(ctx).fds@[dir_fd as int].unwrap();
                lemma_put_lowest(old(ctx).fds@, f, opened(parent, t, old(ctx).kind(t), 0, 0, 0));
                assert(mid.fds@[f] is Some && !mid.fds@[f].unwrap().preopened && f < mid.fds@.len());
            },
            OpenPlan::Create(p, leaf) => {
                assert(r is Ok);
                let f = r.unwrap() as int;
                let parent = old(ctx).fds@[dir_fd as int].unwrap();
                let n = old(ctx).nodes@.len() as int;
                lemma_put_lowest(old(ctx).fds@, f, opened(parent, n, FileType::RegularFile, 0, 0, 0));
                assert(mid.fds@[f] is Some && !mid.fds@[f].unwrap().preopened && f < mid.fds@.len());
            },
        }
    }
    let f = match r {
        Ok(f) => f,
        Err(_) => {
            assert(false);
            return;
        },
    };
    assert(mid.fd_entry(f as int) is Some && !mid.fd_entry(f as int).unwrap().preopened);
    let c = ctx.fd_close(f);
    assert(c is Ok);
}

/// Unlinks the file or symlink `file_name`, which must be there.
pub fn cleanup_file(ctx: &mut WasiCtx, dir_fd: u32, file_name: &str)
    requires
        old(ctx).wf(),
        old(ctx).unlink_status(dir_fd, file_name.spec_bytes()) == Errno::Success,
    ensures
        final(ctx).wf(),
        old(ctx).path_lookup(dir_fd, RIGHT_PATH_UNLINK_FILE, file_name.spec_bytes(), false) matches Ok((p, leaf))
            && old(ctx).unbinds(final(ctx), p, leaf),
{
    let r = ctx.path_unlink_file(dir_fd, file_name.as_bytes());
    assert(r is Ok);
}

/// Closes `fd`, which must be open and not preopened.
pub fn close_fd(ctx: &mut WasiCtx, fd: u32)
    requires
        old(ctx).wf(),
        old(ctx).close_status(fd) == Errno::Success,
    ensures
        final(ctx).wf(),
        final(ctx).fds@ == old(ctx).fds@.update(fd as int, None),
        final(ctx).nodes == old(ctx).nodes,
{
    let r = ctx.fd_close(fd);
    assert(r is Ok);
}

} // verus!
