//! Listing a directory as a cookie-addressed stream of entries.
use vstd::prelude::*;
use crate::errno::Errno;
use crate::fs::{WasiCtx, FileType, filetype_code};
use crate::path::DOT;
use crate::rights::RIGHT_FD_READDIR;
use crate::layout::{dirent_bytes, push_dirent};
use crate::dirops::truncated;

verus! {

impl WasiCtx {
    /// Number of entries in the listing of directory `n`: `.`, `..`, then its entries.
    pub open spec fn listing_len(&self, n: int) -> int {
        2 + self.entries(n).len() as int
    }

    /// Name, inode and type tag of entry `k` of the listing of directory `n`.
    /// `.` and `..` carry the regular file tag.
    pub open spec fn listed(&self, n: int, k: int) -> (Seq<u8>, u64, u8) {
        if k == 0 {
            (seq![DOT], n as u64, filetype_code(FileType::RegularFile))
        } else if k == 1 {
            (seq![DOT, DOT], self.nodes@[n].parent as u64, filetype_code(FileType::RegularFile))
        } else {
            let e = self.entries(n)[k - 2];
            (e.name@, e.ino as u64, filetype_code(self.kind(e.ino as int)))
        }
    }

    /// The bytes of the listing of directory `n` from cookie `from` on; each
    /// entry carries the cookie of the one after it.
    pub open spec fn stream(&self, n: int, from: int) -> Seq<u8>
        decreases self.listing_len(n) - from,
    {
        if from < 0 || from >= self.listing_len(n) {
            seq![]
        } else {
            let (name, ino, ty) = self.listed(n, from);
            dirent_bytes((from + 1) as u64, ino, ty, name) + self.stream(n, from + 1)
        }
    }

    pub open spec fn readdir_spec(&self, fd: u32, buf_len: usize, cookie: u64) -> Result<Seq<u8>, Errno> {
        match self.fd_lookup(fd, RIGHT_FD_READDIR) {
            Err(e) => Err(e),
            Ok(d) => if d.kind != FileType::Directory {
                Err(Errno::NotDir)
            } else {
                Ok(truncated(self.stream(d.ino as int, cookie as int), buf_len as int))
            },
        }
    }

    /// Fills at most `buf_len` bytes with the listing of the directory `fd`
    /// from `cookie` on. The last entry may be cut; reading again from its
    /// cookie gives it whole.
    pub fn fd_readdir(&self, fd: u32, buf_len: usize, cookie: u64) -> (r: Result<Vec<u8>, Errno>)
        requires
            self.wf(),
        ensures
            match r {
                Ok(v) => self.readdir_spec(fd, buf_len, cookie) == Ok::<Seq<u8>, Errno>(v@),
                Err(e) => self.readdir_spec(fd, buf_len, cookie) == Err::<Seq<u8>, Errno>(e),
            },
    {
        let d = match self.get_fd(fd, RIGHT_FD_READDIR) {
            Err(e) => {
                return Err(e);
            },
            Ok(d) => d,
        };
        if d.kind != FileType::Directory {
            return Err(Errno::NotDir);
        }
        let n = d.ino;
        let es = &self.nodes[n].entries;
        let total = es.len() as u64 + 2;
        let mut out: Vec<u8> = Vec::new();
        if cookie >= total {
            assert(out@ =~= truncated(self.stream(n as int, cookie as int), buf_len as int));
            return Ok(out);
        }
        let mut k: u64 = cookie;
        assert(out@ + self.stream(n as int, k as int) =~= self.stream(n as int, cookie as int));
        while k < total && out.len() < buf_len
            invariant
                self.wf(),
                n < self.nodes@.len(),
                es@ == self.entries(n as int),
                total == self.listing_len(n as int),
                cookie <= k <= total,
                out@ + self.stream(n as int, k as int) == self.stream(n as int, cookie as int),
            decreases total - k,
        {
            let ghost before = out@;
            assert(self.stream(n as int, k as int) == dirent_bytes(
                (k + 1) as u64,
                self.listed(n as int, k as int).1,
                self.listed(n as int, k as int).2,
                self.listed(n as int, k as int).0,
            ) + self.stream(n as int, k + 1));
            if k == 0 {
                push_dirent(&mut out, 1, n as u64, 4, &[DOT]);
                assert(seq![DOT] =~= [DOT]@);
            } else if k == 1 {
                push_dirent(&mut out, 2, self.nodes[n].parent as u64, 4, &[DOT, DOT]);
                assert(seq![DOT, DOT] =~= [DOT, DOT]@);
            } else {
                let e = &es[(k - 2) as usize];
                assert(self.nodes@[n as int].entries@[k - 2].ino < self.nodes@.len());
                let ty = self.nodes[e.ino].kind.code();
                push_dirent(&mut out, k + 1, e.ino as u64, ty, e.name.as_slice());
            }
            assert(out@ + self.stream(n as int, k + 1) =~= before + self.stream(n as int, k as int));
            k = k + 1;
        }
        let ghost full = out@;
        out.truncate(buf_len);
        assert(out@ =~= truncated(self.stream(n as int, cookie as int), buf_len as int));
        Ok(out)
    }
}

} // verus!
