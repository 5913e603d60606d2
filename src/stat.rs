//! File attributes and timestamps.
use vstd::prelude::*;
use crate::fs::{WasiCtx, FileType};

verus! {

/// Set the access time to the given value.
pub const FILESTAT_SET_ATIM: u16 = 1;

/// Set the access time to the current time.
pub const FILESTAT_SET_ATIM_NOW: u16 = 2;

/// Set the modification time to the given value.
pub const FILESTAT_SET_MTIM: u16 = 4;

/// Set the modification time to the current time.
pub const FILESTAT_SET_MTIM_NOW: u16 = 8;

/// The attributes of a node.
#[derive(PartialEq, Eq, Structural, Clone, Copy, Debug)]
pub struct FileStat {
    pub st_dev: u64,
    pub st_ino: u64,
    pub st_filetype: FileType,
    pub st_nlink: u64,
    pub st_size: u64,
    pub st_atim: u64,
    pub st_mtim: u64,
    pub st_ctim: u64,
}

/// A request asks for a time and for the current time at once.
pub open spec fn times_conflict(fst: u16) -> bool {
    (fst & FILESTAT_SET_ATIM != 0 && fst & FILESTAT_SET_ATIM_NOW != 0) || (fst & FILESTAT_SET_MTIM != 0 && fst
        & FILESTAT_SET_MTIM_NOW != 0)
}

/// The time a request leaves in place of `cur`.
pub open spec fn new_time(cur: u64, given: u64, set: bool, set_now: bool, now: u64) -> u64 {
    if set {
        given
    } else if set_now {
        now
    } else {
        cur
    }
}

pub fn new_time_exec(cur: u64, given: u64, set: bool, set_now: bool, now: u64) -> (r: u64)
    ensures
        r == new_time(cur, given, set, set_now, now),
{
    if set {
        given
    } else if set_now {
        now
    } else {
        cur
    }
}

impl WasiCtx {
    pub open spec fn filestat_of(&self, n: int) -> FileStat {
        FileStat {
            st_dev: 0,
            st_ino: n as u64,
            st_filetype: self.nodes@[n].kind,
            st_nlink: 1,
            st_size: self.nodes@[n].data@.len() as u64,
            st_atim: self.nodes@[n].atim,
            st_mtim: self.nodes@[n].mtim,
            st_ctim: self.nodes@[n].mtim,
        }
    }

    pub fn filestat(&self, n: usize) -> (r: FileStat)
        requires
            self.wf(),
            n < self.nodes@.len(),
        ensures
            r == self.filestat_of(n as int),
    {
        let node = &self.nodes[n];
        FileStat {
            st_dev: 0,
            st_ino: n as u64,
            st_filetype: node.kind,
            st_nlink: 1,
            st_size: node.data.len() as u64,
            st_atim: node.atim,
            st_mtim: node.mtim,
            st_ctim: node.mtim,
        }
    }
}

} // verus!
