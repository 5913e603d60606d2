//! Guest-visible binary layouts: little-endian integers, the directory entry
//! header that readdir writes, and the 32-bit guest's buffer descriptors.
use vstd::prelude::*;

verus! {

/// Size in bytes of the header that precedes each name in a readdir buffer.
pub const DIRENT_SIZE: usize = 24;

/// The `n` low bytes of `x`, least significant first.
pub open spec fn le_bytes(x: nat, n: nat) -> Seq<u8>
    decreases n,
{
    if n == 0 {
        seq![]
    } else {
        seq![(x % 256) as u8] + le_bytes(x / 256, (n - 1) as nat)
    }
}

/// The number whose little-endian bytes are `s`.
pub open spec fn le_value(s: Seq<u8>) -> nat
    decreases s.len(),
{
    if s.len() == 0 {
        0
    } else {
        s[0] as nat + 256 * le_value(s.drop_first())
    }
}

/// Reading back `n` little-endian bytes gives the number modulo `256^n`.
pub proof fn lemma_le_round_trip(x: nat, n: nat)
    ensures
        le_bytes(x, n).len() == n,
        x < pow256(n) ==> le_value(le_bytes(x, n)) == x,
    decreases n,
{
    if n > 0 {
        lemma_le_round_trip(x / 256, (n - 1) as nat);
        let s = le_bytes(x, n);
        assert(s.drop_first() =~= le_bytes(x / 256, (n - 1) as nat));
        if x < pow256(n) {
            assert(x / 256 < pow256((n - 1) as nat)) by (nonlinear_arith)
                requires
                    x < pow256(n),
                    pow256(n) == 256 * pow256((n - 1) as nat),
            ;
            assert(x == x % 256 + 256 * (x / 256)) by (nonlinear_arith);
        }
    }
}

pub open spec fn pow256(n: nat) -> nat
    decreases n,
{
    if n == 0 {
        1
    } else {
        256 * pow256((n - 1) as nat)
    }
}

/// Appends the `n` low bytes of `x`, least significant first.
pub fn push_le(out: &mut Vec<u8>, x: u64, n: usize)
    requires
        n <= 8,
    ensures
        final(out)@ == old(out)@ + le_bytes(x as nat, n as nat),
{
    let mut v = x;
    let mut i: usize = 0;
    while i < n
        invariant
            i <= n,
            old(out)@ + le_bytes(x as nat, n as nat) == out@ + le_bytes(v as nat, (n - i) as nat),
        decreases n - i,
    {
        let ghost before = out@;
        out.push((v % 256) as u8);
        assert(le_bytes(v as nat, (n - i) as nat) == seq![(v % 256) as u8] + le_bytes((v / 256) as nat, (n - i - 1) as nat));
        assert(out@ + le_bytes((v / 256) as nat, (n - i - 1) as nat) =~= before + le_bytes(v as nat, (n - i) as nat));
        v = v / 256;
        i = i + 1;
    }
    assert(out@ + le_bytes(v as nat, 0) =~= out@);
}

/// Reads the `n` bytes at `at` as a little-endian number.
pub fn read_le(buf: &[u8], at: usize, n: usize) -> (r: u64)
    requires
        n <= 8,
        at + n <= buf@.len(),
    ensures
        r as nat == le_value(buf@.subrange(at as int, at + n)),
{
    let mut r: u64 = 0;
    let mut i: usize = n;
    let blen = buf.len();
    proof {
        lemma_le_value_bound(buf@.subrange(at as int, at + n));
    }
    while i > 0
        invariant
            n <= 8,
            i <= n,
            at + n <= buf@.len(),
            blen == buf@.len(),
            r as nat == le_value(buf@.subrange(at + i, at + n)),
            le_value(buf@.subrange(at + i, at + n)) < pow256((n - i) as nat),
        decreases i,
    {
        let ghost s = buf@.subrange(at + i - 1, at + n);
        assert(s.drop_first() =~= buf@.subrange(at + i, at + n));
        assert(s[0] == buf@[at + i - 1]);
        proof {
            lemma_pow256_le8((n - i + 1) as nat);
        }
        assert(buf@[at + i - 1] as nat + 256 * (r as nat) < pow256((n - i + 1) as nat)) by (nonlinear_arith)
            requires
                (r as nat) < pow256((n - i) as nat),
                pow256((n - i + 1) as nat) == 256 * pow256((n - i) as nat),
                buf@[at + i - 1] < 256,
        ;
        r = buf[at + i - 1] as u64 + 256 * r;
        i = i - 1;
    }
    r
}

proof fn lemma_le_value_bound(s: Seq<u8>)
    ensures
        le_value(s) < pow256(s.len()),
    decreases s.len(),
{
    if s.len() > 0 {
        lemma_le_value_bound(s.drop_first());
        assert(s[0] as nat + 256 * le_value(s.drop_first()) < pow256(s.len())) by (nonlinear_arith)
            requires
                le_value(s.drop_first()) < pow256((s.len() - 1) as nat),
                pow256(s.len()) == 256 * pow256((s.len() - 1) as nat),
                s[0] < 256,
        ;
    }
}

proof fn lemma_pow256_le8(n: nat)
    requires
        n <= 8,
    ensures
        pow256(n) <= 0x1_0000_0000_0000_0000,
        pow256(n) == 256 * pow256((n - 1) as nat) || n == 0,
{
    reveal_with_fuel(pow256, 9);
}

/// The readdir header of an entry followed by its name: the cookie of the
/// next entry, the inode, the name's length, the type tag, three bytes of
/// padding.
pub open spec fn dirent_bytes(next: u64, ino: u64, ty: u8, name: Seq<u8>) -> Seq<u8> {
    le_bytes(next as nat, 8) + le_bytes(ino as nat, 8) + le_bytes(name.len(), 4) + seq![ty, 0u8, 0u8, 0u8]
        + name
}

pub fn push_dirent(out: &mut Vec<u8>, next: u64, ino: u64, ty: u8, name: &[u8])
    ensures
        final(out)@ == old(out)@ + dirent_bytes(next, ino, ty, name@),
{
    push_le(out, next, 8);
    push_le(out, ino, 8);
    push_le(out, name.len() as u64, 4);
    out.push(ty);
    out.push(0u8);
    out.push(0u8);
    out.push(0u8);
    let mut i: usize = 0;
    let ghost head = out@;
    while i < name.len()
        invariant
            i <= name@.len(),
            out@ == head + name@.take(i as int),
        decreases name@.len() - i,
    {
        out.push(name[i]);
        i = i + 1;
        assert(out@ =~= head + name@.take(i as int));
    }
    assert(name@.take(name@.len() as int) =~= name@);
    assert(out@ =~= old(out)@ + dirent_bytes(next, ino, ty, name@));
}

/// The header of one entry read back from a readdir buffer.
#[derive(PartialEq, Eq, Structural, Clone, Copy, Debug)]
pub struct Dirent {
    pub d_next: u64,
    pub d_ino: u64,
    pub d_namlen: u32,
    pub d_type: u8,
}

/// One entry read back from a readdir buffer.
pub struct ReadDirEntry {
    pub dirent: Dirent,
    /// The name exactly as the buffer holds it, `d_namlen` bytes without a
    /// terminator; a caller that wants text decodes it.
    pub name: Vec<u8>,
}

/// A cursor over the entries of a readdir buffer.
pub struct ReadDir {
    pub buf: Vec<u8>,
    pub pos: usize,
}

/// The entry that starts at `pos` in `buf`, when its header and whole name
/// are there: its header and the position after it.
pub open spec fn entry_at(buf: Seq<u8>, pos: int) -> Option<(Dirent, Seq<u8>, int)> {
    if pos + DIRENT_SIZE > buf.len() {
        None
    } else {
        let namlen = le_value(buf.subrange(pos + 16, pos + 20));
        let end = pos + DIRENT_SIZE + namlen;
        if end > buf.len() {
            None
        } else {
            Some(
                (
                    Dirent {
                        d_next: le_value(buf.subrange(pos, pos + 8)) as u64,
                        d_ino: le_value(buf.subrange(pos + 8, pos + 16)) as u64,
                        d_namlen: namlen as u32,
                        d_type: buf[pos + 20],
                    },
                    buf.subrange(pos + DIRENT_SIZE, end),
                    end,
                ),
            )
        }
    }
}

impl ReadDir {
    pub fn from_slice(buf: &[u8]) -> (r: ReadDir)
        ensures
            r.buf@ == buf@,
            r.pos == 0,
    {
        ReadDir { buf: crate::path::copy_bytes(buf), pos: 0 }
    }

    /// The next whole entry; `None` at the end, or where the buffer cuts an
    /// entry short.
    pub fn next(&mut self) -> (r: Option<ReadDirEntry>)
        requires
            old(self).pos <= old(self).buf@.len(),
        ensures
            final(self).buf == old(self).buf,
            final(self).pos <= final(self).buf@.len(),
            match entry_at(old(self).buf@, old(self).pos as int) {
                None => r is None && final(self).pos == old(self).pos,
                Some((d, name, end)) => r matches Some(e) && e.dirent == d && e.name@ == name && final(self).pos == end,
            },
    {
        let pos = self.pos;
        if self.buf.len() - pos < DIRENT_SIZE {
            return None;
        }
        let next = read_le(self.buf.as_slice(), pos, 8);
        let ino = read_le(self.buf.as_slice(), pos + 8, 8);
        let namlen = read_le(self.buf.as_slice(), pos + 16, 4);
        proof {
            lemma_le_value_bound(self.buf@.subrange(pos + 16, pos + 20));
            reveal_with_fuel(pow256, 5);
        }
        let ty = self.buf[pos + 20];
        if namlen as usize > self.buf.len() - pos - DIRENT_SIZE {
            return None;
        }
        let start = pos + DIRENT_SIZE;
        let end = start + namlen as usize;
        let mut name: Vec<u8> = Vec::new();
        let mut i: usize = start;
        while i < end
            invariant
                start <= i <= end <= self.buf@.len(),
                name@ == self.buf@.subrange(start as int, i as int),
            decreases end - i,
        {
            name.push(self.buf[i]);
            i = i + 1;
            assert(name@ =~= self.buf@.subrange(start as int, i as int));
        }
        self.pos = end;
        Some(ReadDirEntry { dirent: Dirent { d_next: next, d_ino: ino, d_namlen: namlen as u32, d_type: ty }, name })
    }
}

/// A buffer a 32-bit guest hands in for writing: its address and length.
#[derive(PartialEq, Eq, Structural, Clone, Copy, Debug)]
pub struct Ciovec {
    pub buf: u32,
    pub buf_len: u32,
}

/// A buffer a 32-bit guest hands in for reading: its address and length.
#[derive(PartialEq, Eq, Structural, Clone, Copy, Debug)]
pub struct Iovec {
    pub buf: u32,
    pub buf_len: u32,
}

/// What a preopened directory reports: the length of its name.
#[derive(PartialEq, Eq, Structural, Clone, Copy, Debug)]
pub struct PrestatDir {
    pub pr_name_len: u32,
}

/// The body of a preopen description.
#[derive(PartialEq, Eq, Structural, Clone, Copy, Debug)]
pub struct PrestatU {
    pub dir: PrestatDir,
}

/// A preopen description: its type tag and body.
#[derive(PartialEq, Eq, Structural, Clone, Copy, Debug)]
pub struct Prestat {
    pub pr_type: u8,
    pub u: PrestatU,
}

/// The guest bytes of a buffer descriptor: address, then length.
pub open spec fn iovec_bytes(buf: u32, buf_len: u32) -> Seq<u8> {
    le_bytes(buf as nat, 4) + le_bytes(buf_len as nat, 4)
}

/// The guest bytes of a preopen description: tag, three bytes of padding, name length.
pub open spec fn prestat_bytes(pr_type: u8, pr_name_len: u32) -> Seq<u8> {
    seq![pr_type, 0u8, 0u8, 0u8] + le_bytes(pr_name_len as nat, 4)
}

impl Ciovec {
    /// The descriptor as the guest lays it out in memory.
    pub fn to_guest(&self) -> (r: Vec<u8>)
        ensures
            r@ == iovec_bytes(self.buf, self.buf_len),
    {
        let mut out: Vec<u8> = Vec::new();
        push_le(&mut out, self.buf as u64, 4);
        push_le(&mut out, self.buf_len as u64, 4);
        assert(out@ =~= iovec_bytes(self.buf, self.buf_len));
        out
    }

    /// Reads a descriptor from guest memory at `at`.
    pub fn from_guest(mem: &[u8], at: usize) -> (r: Option<Ciovec>)
        ensures
            at + 8 <= mem@.len() <==> r is Some,
            r matches Some(c) ==> c.buf as nat == le_value(mem@.subrange(at as int, at + 4)) && c.buf_len as nat
                == le_value(mem@.subrange(at + 4, at + 8)),
    {
        if at > mem.len() || mem.len() - at < 8 {
            return None;
        }
        proof {
            lemma_le_value_bound(mem@.subrange(at as int, at + 4));
            lemma_le_value_bound(mem@.subrange(at + 4, at + 8));
            reveal_with_fuel(pow256, 5);
        }
        let buf = read_le(mem, at, 4);
        let buf_len = read_le(mem, at + 4, 4);
        Some(Ciovec { buf: buf as u32, buf_len: buf_len as u32 })
    }
}

impl Iovec {
    /// The descriptor as the guest lays it out in memory.
    pub fn to_guest(&self) -> (r: Vec<u8>)
        ensures
            r@ == iovec_bytes(self.buf, self.buf_len),
    {
        let mut out: Vec<u8> = Vec::new();
        push_le(&mut out, self.buf as u64, 4);
        push_le(&mut out, self.buf_len as u64, 4);
        assert(out@ =~= iovec_bytes(self.buf, self.buf_len));
        out
    }
}

impl PrestatDir {
    /// The description as the guest lays it out in memory.
    pub fn to_guest(&self) -> (r: Vec<u8>)
        ensures
            r@ == le_bytes(self.pr_name_len as nat, 4),
    {
        let mut out: Vec<u8> = Vec::new();
        push_le(&mut out, self.pr_name_len as u64, 4);
        assert(out@ =~= le_bytes(self.pr_name_len as nat, 4));
        out
    }
}

impl PrestatU {
    /// The body as the guest lays it out in memory.
    pub fn to_guest(&self) -> (r: Vec<u8>)
        ensures
            r@ == le_bytes(self.dir.pr_name_len as nat, 4),
    {
        self.dir.to_guest()
    }
}

impl Prestat {
    /// The description as the guest lays it out in memory.
    pub fn to_guest(&self) -> (r: Vec<u8>)
        ensures
            r@ == prestat_bytes(self.pr_type, self.u.dir.pr_name_len),
    {
        let mut out: Vec<u8> = Vec::new();
        out.push(self.pr_type);
        out.push(0u8);
        out.push(0u8);
        out.push(0u8);
        push_le(&mut out, self.u.dir.pr_name_len as u64, 4);
        assert(out@ =~= prestat_bytes(self.pr_type, self.u.dir.pr_name_len));
        out
    }
}

} // verus!
