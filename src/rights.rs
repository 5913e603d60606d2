use vstd::prelude::*;

verus! {

pub const RIGHT_FD_DATASYNC: u64 = 0x1;
pub const RIGHT_FD_READ: u64 = 0x2;
pub const RIGHT_FD_SEEK: u64 = 0x4;
pub const RIGHT_FD_FDSTAT_SET_FLAGS: u64 = 0x8;
pub const RIGHT_FD_SYNC: u64 = 0x10;
pub const RIGHT_FD_TELL: u64 = 0x20;
pub const RIGHT_FD_WRITE: u64 = 0x40;
pub const RIGHT_FD_ADVISE: u64 = 0x80;
pub const RIGHT_FD_ALLOCATE: u64 = 0x100;
pub const RIGHT_PATH_CREATE_DIRECTORY: u64 = 0x200;
pub const RIGHT_PATH_CREATE_FILE: u64 = 0x400;
pub const RIGHT_PATH_LINK_SOURCE: u64 = 0x800;
pub const RIGHT_PATH_LINK_TARGET: u64 = 0x1000;
pub const RIGHT_PATH_OPEN: u64 = 0x2000;
pub const RIGHT_FD_READDIR: u64 = 0x4000;
pub const RIGHT_PATH_READLINK: u64 = 0x8000;
pub const RIGHT_PATH_RENAME_SOURCE: u64 = 0x10000;
pub const RIGHT_PATH_RENAME_TARGET: u64 = 0x20000;
pub const RIGHT_PATH_FILESTAT_GET: u64 = 0x40000;
pub const RIGHT_PATH_FILESTAT_SET_SIZE: u64 = 0x80000;
pub const RIGHT_PATH_FILESTAT_SET_TIMES: u64 = 0x100000;
pub const RIGHT_FD_FILESTAT_GET: u64 = 0x200000;
pub const RIGHT_FD_FILESTAT_SET_SIZE: u64 = 0x400000;
pub const RIGHT_FD_FILESTAT_SET_TIMES: u64 = 0x800000;
pub const RIGHT_PATH_SYMLINK: u64 = 0x1000000;
pub const RIGHT_PATH_REMOVE_DIRECTORY: u64 = 0x2000000;
pub const RIGHT_PATH_UNLINK_FILE: u64 = 0x4000000;
pub const RIGHT_POLL_FD_READWRITE: u64 = 0x8000000;
pub const RIGHT_SOCK_SHUTDOWN: u64 = 0x10000000;

/// Every right there is.
pub const RIGHTS_ALL: u64 = 0x1fffffff;

/// The rights that mean something on a directory descriptor: no read, write,
/// seek, tell or size change.
pub const RIGHTS_DIRECTORY_BASE: u64 = 0xfbffe98;

/// The rights that a directory can hand on: those of directories and of files.
pub const RIGHTS_DIRECTORY_INHERITING: u64 = 0xfffffff;

/// The rights that mean something on a regular file descriptor.
pub const RIGHTS_REGULAR_FILE_BASE: u64 = 0x8e001ff;

/// A regular file opens nothing, so it hands on no right.
pub const RIGHTS_REGULAR_FILE_INHERITING: u64 = 0;

/// True when every right of `need` is in `have`.
pub open spec fn has_rights(have: u64, need: u64) -> bool {
    have & need == need
}

/// Whether a descriptor holding `have` may perform an operation needing `need`.
pub fn check_rights(have: u64, need: u64) -> (r: bool)
    ensures
        r == has_rights(have, need),
{
    have & need == need
}

/// The rights granted to a new descriptor: what was asked, clamped to what the
/// parent hands on and to what applies to the kind of the new descriptor.
pub open spec fn granted(requested: u64, parent_inheriting: u64, applicable: u64) -> u64 {
    requested & parent_inheriting & applicable
}

/// Computes `granted`, and shows that it never exceeds the parent's inheriting
/// rights nor the rights that apply.
pub fn derive_rights(requested: u64, parent_inheriting: u64, applicable: u64) -> (r: u64)
    ensures
        r == granted(requested, parent_inheriting, applicable),
        has_rights(parent_inheriting, r),
        has_rights(applicable, r),
        has_rights(requested, r),
{
    let r = requested & parent_inheriting & applicable;
    assert(parent_inheriting & r == r) by (bit_vector)
        requires
            r == requested & parent_inheriting & applicable,
    ;
    assert(applicable & r == r) by (bit_vector)
        requires
            r == requested & parent_inheriting & applicable,
    ;
    assert(requested & r == r) by (bit_vector)
        requires
            r == requested & parent_inheriting & applicable,
    ;
    r
}

/// Derivation never escalates: whatever is requested, a descriptor opened
/// through a parent holds no right that the parent does not hand on, and a
/// directory holds none of the rights to read, write, seek or resize.
pub proof fn lemma_no_escalation(requested: u64, parent_inheriting: u64)
    ensures
        has_rights(parent_inheriting, granted(requested, parent_inheriting, RIGHTS_DIRECTORY_BASE)),
        has_rights(parent_inheriting, granted(requested, parent_inheriting, RIGHTS_REGULAR_FILE_BASE)),
        granted(requested, parent_inheriting, RIGHTS_DIRECTORY_BASE) & (RIGHT_FD_READ | RIGHT_FD_WRITE
            | RIGHT_FD_SEEK | RIGHT_FD_TELL | RIGHT_FD_FILESTAT_SET_SIZE) == 0,
{
    assert(parent_inheriting & (requested & parent_inheriting & 0xfbffe98u64) == (requested
        & parent_inheriting & 0xfbffe98u64)) by (bit_vector);
    assert(parent_inheriting & (requested & parent_inheriting & 0x8e001ffu64) == (requested
        & parent_inheriting & 0x8e001ffu64)) by (bit_vector);
    assert((requested & parent_inheriting & 0xfbffe98u64) & (0x2u64 | 0x40u64 | 0x4u64 | 0x20u64
        | 0x400000u64) == 0) by (bit_vector);
}

} // verus!

verus! {

/// Holding is transitive.
pub proof fn lemma_has_rights_trans(a: u64, b: u64, c: u64)
    requires
        has_rights(a, b),
        has_rights(b, c),
    ensures
        has_rights(a, c),
{
    assert(a & b == b && b & c == c ==> a & c == c) by (bit_vector);
}

} // verus!
