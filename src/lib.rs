//! A capability-secured filesystem layer: descriptors carry rights, paths are
//! resolved inside the subtree of a directory descriptor, and every operation
//! reports a status from a fixed error taxonomy.

pub mod errno;
pub mod rights;
pub mod path;
pub mod fs;
pub mod store;
pub mod table;
pub mod host;
pub mod open;
pub mod stat;
pub mod dirops;
pub mod bytes;
pub mod fileops;
pub mod rename;
pub mod layout;
pub mod readdir;
pub mod wasi_wrappers;
pub mod utils;
pub mod laws;

use vstd::prelude::*;
use vstd::string::StringSliceAdditionalSpecFns;

verus! {

/// Opens the directory `path` of the sandbox through the preopened root, with
/// every right a directory can hold and hand on.
pub fn open_scratch_directory(ctx: &mut fs::WasiCtx, path: &str) -> (r: Result<u32, errno::Errno>)
    requires
        old(ctx).wf(),
    ensures
        final(ctx).wf(),
        exists|now: u64|
            old(ctx).open_post(
                final(ctx),
                r,
                fs::FIRST_FD,
                0,
                path.spec_bytes(),
                open::O_DIRECTORY,
                rights::RIGHTS_DIRECTORY_BASE,
                rights::RIGHTS_DIRECTORY_INHERITING,
                0,
                now,
            ),
{
    ctx.path_open(
        fs::FIRST_FD,
        0,
        path.as_bytes(),
        open::O_DIRECTORY,
        rights::RIGHTS_DIRECTORY_BASE,
        rights::RIGHTS_DIRECTORY_INHERITING,
        0,
    )
}

} // verus!
