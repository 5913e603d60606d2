//! Properties that hold of every state of the layer and every request.
use vstd::prelude::*;
use crate::errno::Errno;
use crate::fs::{WasiCtx, FileType, MAX_SYMLINK_HOPS, filetype_code};
use crate::path::{normalize, escapes, is_absolute, has_nul, DOT};
use crate::open::{OpenPlan, open_needs, follows, O_CREAT, O_EXCL};
use crate::rename::RenamePlan;
use crate::rights::{RIGHT_PATH_RENAME_SOURCE, RIGHT_PATH_RENAME_TARGET};
use crate::fileops::{seek_target, WHENCE_END, SEEK_RIGHTS};
use crate::layout::{Dirent, DIRENT_SIZE, dirent_bytes, entry_at, le_bytes, lemma_le_round_trip, pow256};
use crate::dirops::truncated;

verus! {

/// A path that is absolute, or whose normal form climbs above the directory
/// it starts from, is refused as not capable, whatever the flags and rights
/// asked for.
pub proof fn lemma_escape_refused(ctx: &WasiCtx, dirfd: u32, dirflags: u32, path: Seq<u8>, oflags: u16)
    requires
        ctx.wf(),
        ctx.fd_entry(dirfd as int) matches Some(d) && d.kind == FileType::Directory,
        !has_nul(path),
        is_absolute(path) || escapes(path),
    ensures
        ctx.open_plan(dirfd, dirflags, path, oflags) == OpenPlan::Fail(Errno::NotCapable),
{
}

proof fn lemma_self_walk_loops(ctx: &WasiCtx, base: int, name: Seq<u8>, s: int, hops: nat)
    requires
        ctx.child(base, name) == Some(s),
        ctx.kind(s) == FileType::SymbolicLink,
        ctx.nodes@[s].data@ == name,
        normalize(name) == Some(seq![name]),
        !is_absolute(name),
    ensures
        ctx.walk(base, base, seq![name], 0, hops, true) == Err::<(int, Seq<u8>), Errno>(Errno::Loop),
    decreases hops,
{
    if hops > 0 {
        let names = seq![name];
        assert(names.take(0) =~= Seq::<Seq<u8>>::empty());
        assert(seq![name] + names.skip(1) =~= names);
        lemma_self_walk_loops(ctx, base, name, s, (hops - 1) as nat);
    }
}

/// Opening a symlink whose target is its own name reports a loop, whether
/// the last component is followed or not.
pub proof fn lemma_self_symlink_loops(ctx: &WasiCtx, dirfd: u32, dirflags: u32, name: Seq<u8>, oflags: u16)
    requires
        ctx.wf(),
        ctx.dir_lookup(dirfd, open_needs(oflags)) matches Ok(d) && ctx.child(d.ino as int, name) matches Some(s)
            && ctx.kind(s) == FileType::SymbolicLink && ctx.nodes@[s].data@ == name,
        !has_nul(name),
        !is_absolute(name),
        normalize(name) == Some(seq![name]),
        !(oflags & O_CREAT != 0 && oflags & O_EXCL != 0),
    ensures
        ctx.open_plan(dirfd, dirflags, name, oflags) == OpenPlan::Fail(Errno::Loop),
{
    let d = ctx.dir_lookup(dirfd, open_needs(oflags)).unwrap();
    let s = ctx.child(d.ino as int, name).unwrap();
    assert(name.len() > 0);
    if follows(dirflags) {
        lemma_self_walk_loops(ctx, d.ino as int, name, s, MAX_SYMLINK_HOPS as nat);
    }
}

/// Reading a symlink into an empty buffer succeeds exactly when reading it
/// into any buffer does, and then hands back nothing.
pub proof fn lemma_readlink_empty_buffer(ctx: &WasiCtx, dirfd: u32, path: Seq<u8>, n: usize)
    ensures
        ctx.readlink_spec(dirfd, path, 0) is Ok <==> ctx.readlink_spec(dirfd, path, n) is Ok,
        ctx.readlink_spec(dirfd, path, 0) matches Ok(v) ==> v.len() == 0,
{
}

/// Reading back a directory entry written at position `pre.len()` gives its
/// header and name.
pub proof fn lemma_entry_round_trip(pre: Seq<u8>, next: u64, ino: u64, ty: u8, name: Seq<u8>, rest: Seq<u8>)
    requires
        name.len() < 0x1_0000_0000,
    ensures
        entry_at(pre + dirent_bytes(next, ino, ty, name) + rest, pre.len() as int) == Some(
            (
                Dirent { d_next: next, d_ino: ino, d_namlen: name.len() as u32, d_type: ty },
                name,
                pre.len() + DIRENT_SIZE + name.len(),
            ),
        ),
{
    let buf = pre + dirent_bytes(next, ino, ty, name) + rest;
    let p = pre.len() as int;
    reveal_with_fuel(pow256, 9);
    lemma_le_round_trip(next as nat, 8);
    lemma_le_round_trip(ino as nat, 8);
    lemma_le_round_trip(name.len(), 4);
    assert(buf.subrange(p, p + 8) =~= le_bytes(next as nat, 8));
    assert(buf.subrange(p + 8, p + 16) =~= le_bytes(ino as nat, 8));
    assert(buf.subrange(p + 16, p + 20) =~= le_bytes(name.len(), 4));
    assert(buf[p + 20] == ty);
    assert(buf.subrange(p + 24, p + 24 + name.len()) =~= name);
}

/// The listing of every directory starts with `.` and then `..`, whatever
/// its other entries and the order they came in.
pub proof fn lemma_readdir_dots_first(ctx: &WasiCtx, fd: u32, buf_len: usize)
    requires
        ctx.readdir_spec(fd, buf_len, 0) is Ok,
        buf_len >= 2 * DIRENT_SIZE + 3,
    ensures
        ctx.readdir_spec(fd, buf_len, 0) matches Ok(v) && (entry_at(v, 0) matches Some((d0, n0, e0)) && (n0 == seq![DOT]
            && (entry_at(v, e0) matches Some((d1, n1, e1)) && n1 == seq![DOT, DOT]))),
{
    let d = ctx.fd_lookup(fd, crate::rights::RIGHT_FD_READDIR).unwrap();
    let n = d.ino as int;
    let a = dirent_bytes(1, n as u64, filetype_code(FileType::RegularFile), seq![DOT]);
    let b = dirent_bytes(2, ctx.nodes@[n].parent as u64, filetype_code(FileType::RegularFile), seq![DOT, DOT]);
    let c = ctx.stream(n, 2);
    assert(ctx.stream(n, 1) == b + c);
    assert(ctx.stream(n, 0) == a + (b + c));
    reveal_with_fuel(le_bytes, 9);
    assert(a.len() == 25 && b.len() == 26);
    let v = truncated(ctx.stream(n, 0), buf_len as int);
    let c2 = truncated(c, buf_len - 51);
    assert(v =~= a + b + c2);
    lemma_entry_round_trip(seq![], 1, n as u64, 4, seq![DOT], b + c2);
    assert(Seq::<u8>::empty() + a + (b + c2) =~= v);
    lemma_entry_round_trip(a, 2, ctx.nodes@[n].parent as u64, 4, seq![DOT, DOT], c2);
}

/// A directory renamed onto another entry: over a directory that holds
/// entries the rename fails as not empty, over a file as not a directory.
pub proof fn lemma_rename_directory_over(ctx: &WasiCtx, fd1: u32, old_path: Seq<u8>, fd2: u32, new_path: Seq<u8>)
    requires
        ctx.path_lookup(fd1, RIGHT_PATH_RENAME_SOURCE, old_path, false) matches Ok((sp, sl)) && (sl.len() > 0
            && (ctx.child(sp, sl) matches Some(s) && (ctx.kind(s) == FileType::Directory && s != sp
            && (ctx.path_lookup(fd2, RIGHT_PATH_RENAME_TARGET, new_path, false) matches Ok((dp, dl)) && (dl.len() > 0
            && (ctx.child(dp, dl) matches Some(t) && t != s && !ctx.is_within(dp, s))))))),
    ensures
        ({
            let (dp, dl) = ctx.path_lookup(fd2, RIGHT_PATH_RENAME_TARGET, new_path, false).unwrap();
            let t = ctx.child(dp, dl).unwrap();
            &&& ctx.kind(t) == FileType::Directory && ctx.entries(t).len() > 0 ==> ctx.rename_plan(
                fd1,
                old_path,
                fd2,
                new_path,
            ) == RenamePlan::Fail(Errno::NotEmpty)
            &&& ctx.kind(t) != FileType::Directory ==> ctx.rename_plan(fd1, old_path, fd2, new_path)
                == RenamePlan::Fail(Errno::NotDir)
        }),
{
}

/// A preopened descriptor can be neither closed nor renumbered, in either
/// direction, and it is a directory.
pub proof fn lemma_preopen_protected(ctx: &WasiCtx, pre: u32, other: u32)
    requires
        ctx.wf(),
        ctx.fd_entry(pre as int) matches Some(d) && d.preopened,
    ensures
        ctx.close_status(pre) == Errno::NotSupported,
        ctx.renumber_status(pre, other) == Errno::NotSupported,
        ctx.renumber_status(other, pre) == Errno::NotSupported,
        ctx.fd_entry(pre as int).unwrap().kind == FileType::Directory,
{
    assert(ctx.fds@[pre as int] is Some);
}

/// A seek by a descriptor that may seek, read or write may go any distance
/// past the end of the file; a seek whose target
/// would be negative is invalid.
pub proof fn lemma_seek_bounds(ctx: &WasiCtx, fd: u32, delta: i64, whence: u8)
    requires
        ctx.wf(),
        ctx.fd_lookup_any(fd, SEEK_RIGHTS) is Ok,
    ensures
        ({
            let d = ctx.fd_lookup_any(fd, SEEK_RIGHTS).unwrap();
            let size = ctx.size_of(d.ino as int);
            &&& delta >= 0 ==> ctx.seek_spec(fd, delta, WHENCE_END) == Ok::<u64, Errno>((size + delta) as u64)
            &&& (seek_target(d.offset, size, delta, whence) matches Some(t) && t < 0) ==> ctx.seek_spec(fd, delta, whence)
                == Err::<u64, Errno>(Errno::Invalid)
        }),
{
    let d = ctx.fd_lookup_any(fd, SEEK_RIGHTS).unwrap();
    assert(ctx.fds@[fd as int] is Some);
    assert(ctx.nodes@[d.ino as int].data@.len() <= crate::fs::MAX_FILE_SIZE);
}

} // verus!

verus! {

impl WasiCtx {
    /// The directory reached from `base` by going down the entries `names`,
    /// each naming a directory.
    pub open spec fn descend(&self, base: int, names: Seq<Seq<u8>>) -> Option<int>
        decreases names.len(),
    {
        if names.len() == 0 {
            Some(base)
        } else {
            match self.descend(base, names.drop_last()) {
                None => None,
                Some(d) => match self.child(d, names.last()) {
                    Some(c) => if self.kind(c) == FileType::Directory {
                        Some(c)
                    } else {
                        None
                    },
                    None => None,
                },
            }
        }
    }

    /// Directory `p` lies in the subtree of `base`.
    pub open spec fn in_subtree(&self, base: int, p: int) -> bool {
        exists|names: Seq<Seq<u8>>| self.descend(base, names) == Some(p)
    }
}

proof fn lemma_walk_confined(
    ctx: &WasiCtx,
    base: int,
    cur: int,
    names: Seq<Seq<u8>>,
    i: int,
    hops: nat,
    follow: bool,
)
    requires
        ctx.in_subtree(base, cur),
    ensures
        ctx.walk(base, cur, names, i, hops, follow) matches Ok((p, _)) ==> ctx.in_subtree(base, p),
    decreases hops, names.len() - i,
{
    if 0 <= i < names.len() {
        let last = i + 1 == names.len();
        match ctx.child(cur, names[i]) {
            None => {},
            Some(c) => {
                let k = ctx.kind(c);
                if k == FileType::SymbolicLink && (!last || follow) {
                    if hops > 0 {
                        match crate::fs::expand(names, i, ctx.nodes@[c].data@) {
                            None => {},
                            Some(nn) => {
                                assert(ctx.descend(base, seq![]) == Some(base));
                                lemma_walk_confined(ctx, base, base, nn, 0, (hops - 1) as nat, follow);
                            },
                        }
                    }
                } else if !last && k == FileType::Directory {
                    let ns = choose|ns: Seq<Seq<u8>>| ctx.descend(base, ns) == Some(cur);
                    let ns2 = ns.push(names[i]);
                    assert(ns2.drop_last() =~= ns);
                    assert(ctx.descend(base, ns2) == Some(c));
                    lemma_walk_confined(ctx, base, c, names, i + 1, hops, follow);
                }
            },
        }
    }
}

/// Resolution never leaves the subtree of the directory it starts from,
/// whatever symlinks it expands: the directory it ends in is reached from
/// there by going down directory entries.
pub proof fn lemma_resolution_confined(ctx: &WasiCtx, base: int, path: Seq<u8>, follow: bool)
    ensures
        ctx.resolve_spec(base, path, follow) matches Ok((p, _)) ==> ctx.in_subtree(base, p),
{
    assert(ctx.descend(base, seq![]) == Some(base));
    if let Some(names) = normalize(path) {
        lemma_walk_confined(ctx, base, base, names, 0, MAX_SYMLINK_HOPS as nat, follow);
    }
}

} // verus!

verus! {

/// A directory descriptor never seeks, whatever rights were asked for when
/// it was opened: a seek on it is refused as not capable.
pub proof fn lemma_directory_never_seeks(ctx: &WasiCtx, fd: u32, delta: i64, whence: u8)
    requires
        ctx.wf(),
        ctx.fd_entry(fd as int) matches Some(d) && d.kind == FileType::Directory,
    ensures
        ctx.seek_spec(fd, delta, whence) == Err::<u64, Errno>(Errno::NotCapable),
{
    let d = ctx.fd_entry(fd as int).unwrap();
    assert(ctx.fds@[fd as int] is Some);
    let b = d.rights_base;
    assert(0xfbffe98u64 & b == b ==> b & (0x4u64 | 0x2u64 | 0x40u64) == 0) by (bit_vector);
}

} // verus!
