//! File contents as byte sequences: reading a window, writing over a range,
//! and changing the size.
use vstd::prelude::*;

verus! {

/// The bytes of `data` after writing `bytes` at `off`; a gap before `off`
/// reads as zeros.
pub open spec fn spliced(data: Seq<u8>, off: int, bytes: Seq<u8>) -> Seq<u8> {
    let len = if data.len() > off + bytes.len() {
        data.len() as int
    } else {
        off + bytes.len()
    };
    Seq::new(
        len as nat,
        |i: int|
            if off <= i < off + bytes.len() {
                bytes[i - off]
            } else if i < data.len() {
                data[i]
            } else {
                0u8
            },
    )
}

/// Up to `n` bytes of `data` from `off` on.
pub open spec fn window(data: Seq<u8>, off: int, n: int) -> Seq<u8> {
    if off >= data.len() {
        seq![]
    } else if off + n < data.len() {
        data.subrange(off, off + n)
    } else {
        data.subrange(off, data.len() as int)
    }
}

/// `data` cut or grown with zeros to `n` bytes.
pub open spec fn resized(data: Seq<u8>, n: int) -> Seq<u8> {
    Seq::new(n as nat, |i: int| if i < data.len() { data[i] } else { 0u8 })
}

pub fn splice(v: &mut Vec<u8>, off: usize, bytes: &[u8])
    requires
        off + bytes@.len() <= usize::MAX,
    ensures
        final(v)@ == spliced(old(v)@, off as int, bytes@),
{
    let ghost orig = v@;
    while v.len() < off
        invariant
            v@.len() <= off || v@.len() == orig.len(),
            v@.len() >= orig.len(),
            forall|i: int| 0 <= i < orig.len() ==> v@[i] == orig[i],
            forall|i: int| orig.len() <= i < v@.len() ==> v@[i] == 0u8,
        decreases off - v@.len(),
    {
        v.push(0u8);
    }
    let mut k: usize = 0;
    while k < bytes.len()
        invariant
            off + bytes@.len() <= usize::MAX,
            k <= bytes@.len(),
            v@ == spliced(orig, off as int, bytes@.take(k as int)),
        decreases bytes@.len() - k,
    {
        if k == 0 {
            assert(v@ =~= spliced(orig, off as int, bytes@.take(0)));
        }
        let at = off + k;
        if at < v.len() {
            v.set(at, bytes[k]);
        } else {
            v.push(bytes[k]);
        }
        k = k + 1;
        assert(v@ =~= spliced(orig, off as int, bytes@.take(k as int)));
    }
    assert(bytes@.take(bytes@.len() as int) =~= bytes@);
    if bytes.len() == 0 {
        assert(v@ =~= spliced(orig, off as int, bytes@));
    }
}

pub fn read_window(data: &Vec<u8>, off: u64, n: usize) -> (r: Vec<u8>)
    ensures
        r@ == window(data@, off as int, n as int),
{
    let mut out: Vec<u8> = Vec::new();
    if off >= data.len() as u64 {
        assert(out@ =~= window(data@, off as int, n as int));
        return out;
    }
    let start = off as usize;
    let end = if n < data.len() - start {
        start + n
    } else {
        data.len()
    };
    let mut i: usize = start;
    while i < end
        invariant
            start <= i <= end <= data@.len(),
            out@ == data@.subrange(start as int, i as int),
        decreases end - i,
    {
        out.push(data[i]);
        i = i + 1;
        assert(out@ =~= data@.subrange(start as int, i as int));
    }
    assert(out@ =~= window(data@, off as int, n as int));
    out
}

pub fn resize_zero(v: &mut Vec<u8>, n: usize)
    ensures
        final(v)@ == resized(old(v)@, n as int),
{
    if n <= v.len() {
        v.truncate(n);
        assert(v@ =~= resized(old(v)@, n as int));
        return;
    }
    let ghost orig = v@;
    while v.len() < n
        invariant
            orig.len() <= v@.len() <= n,
            forall|i: int| 0 <= i < orig.len() ==> v@[i] == orig[i],
            forall|i: int| orig.len() <= i < v@.len() ==> v@[i] == 0u8,
        decreases n - v@.len(),
    {
        v.push(0u8);
    }
    assert(v@ =~= resized(orig, n as int));
}

} // verus!
