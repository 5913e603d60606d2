//! Lexical treatment of paths: splitting at `/`, dropping `.` and empty
//! components, and collapsing `..` against the component before it.
use vstd::prelude::*;

verus! {

pub const SEP: u8 = 0x2f;

pub const DOT: u8 = 0x2e;

/// The views of a sequence of byte vectors.
pub open spec fn views(v: Seq<Vec<u8>>) -> Seq<Seq<u8>> {
    v.map_values(|x: Vec<u8>| x@)
}

pub open spec fn is_dot(c: Seq<u8>) -> bool {
    c == seq![DOT]
}

pub open spec fn is_dot_dot(c: Seq<u8>) -> bool {
    c == seq![DOT, DOT]
}

/// Scanner state: the names kept so far, the component being read, and
/// whether a `..` ever climbed above the starting point.
pub type Scan = (Seq<Seq<u8>>, Seq<u8>, bool);

/// Ends the component being read.
pub open spec fn finish(s: Scan) -> Scan {
    let (names, cur, escaped) = s;
    if cur.len() == 0 || is_dot(cur) {
        (names, seq![], escaped)
    } else if is_dot_dot(cur) {
        if names.len() == 0 {
            (names, seq![], true)
        } else {
            (names.drop_last(), seq![], escaped)
        }
    } else {
        (names.push(cur), seq![], escaped)
    }
}

pub open spec fn step(s: Scan, b: u8) -> Scan {
    if b == SEP {
        finish(s)
    } else {
        (s.0, s.1.push(b), s.2)
    }
}

/// The state after reading all of `p`, starting from the names `init`.
pub open spec fn scan(init: Seq<Seq<u8>>, p: Seq<u8>) -> Scan
    decreases p.len(),
{
    if p.len() == 0 {
        (init, seq![], false)
    } else {
        step(scan(init, p.drop_last()), p.last())
    }
}

/// The names that `p` leads to from the names `init`, or `None` when a `..`
/// would climb above the point where `init` starts.
pub open spec fn normalize_from(init: Seq<Seq<u8>>, p: Seq<u8>) -> Option<Seq<Seq<u8>>> {
    let s = finish(scan(init, p));
    if s.2 {
        None
    } else {
        Some(s.0)
    }
}

/// `normalize_from` with nothing resolved yet.
pub open spec fn normalize(p: Seq<u8>) -> Option<Seq<Seq<u8>>> {
    normalize_from(seq![], p)
}

/// True when the normal form of `p` leaves its starting directory.
pub open spec fn escapes(p: Seq<u8>) -> bool {
    normalize(p) is None
}

pub open spec fn is_absolute(p: Seq<u8>) -> bool {
    p.len() > 0 && p[0] == SEP
}

pub open spec fn has_nul(p: Seq<u8>) -> bool {
    exists|i: int| 0 <= i < p.len() && p[i] == 0
}

/// A trailing separator asks for a directory.
pub open spec fn wants_directory(p: Seq<u8>) -> bool {
    p.len() > 0 && p.last() == SEP
}

pub fn bytes_eq(a: &[u8], b: &[u8]) -> (r: bool)
    ensures
        r == (a@ == b@),
{
    if a.len() != b.len() {
        return false;
    }
    let mut i: usize = 0;
    while i < a.len()
        invariant
            a@.len() == b@.len(),
            i <= a@.len(),
            forall|j: int| 0 <= j < i ==> a@[j] == b@[j],
        decreases a@.len() - i,
    {
        if a[i] != b[i] {
            return false;
        }
        i = i + 1;
    }
    assert(a@ =~= b@);
    true
}

pub fn copy_bytes(a: &[u8]) -> (r: Vec<u8>)
    ensures
        r@ == a@,
{
    let mut r: Vec<u8> = Vec::new();
    let mut i: usize = 0;
    while i < a.len()
        invariant
            i <= a@.len(),
            r@ == a@.subrange(0, i as int),
        decreases a@.len() - i,
    {
        r.push(a[i]);
        i = i + 1;
        assert(r@ =~= a@.subrange(0, i as int));
    }
    assert(r@ =~= a@);
    r
}

pub fn contains_nul(p: &[u8]) -> (r: bool)
    ensures
        r == has_nul(p@),
{
    let mut i: usize = 0;
    while i < p.len()
        invariant
            i <= p@.len(),
            forall|j: int| 0 <= j < i ==> p@[j] != 0,
        decreases p@.len() - i,
    {
        if p[i] == 0 {
            return true;
        }
        i = i + 1;
    }
    false
}

pub proof fn lemma_views_push(v: Seq<Vec<u8>>, x: Vec<u8>)
    ensures
        views(v.push(x)) == views(v).push(x@),
{
    assert(views(v.push(x)) =~= views(v).push(x@));
}

pub proof fn lemma_views_drop_last(v: Seq<Vec<u8>>)
    requires
        v.len() > 0,
    ensures
        views(v.drop_last()) == views(v).drop_last(),
{
    assert(views(v.drop_last()) =~= views(v).drop_last());
}

fn finish_exec(names: &mut Vec<Vec<u8>>, cur: Vec<u8>, escaped: bool) -> (e: bool)
    ensures
        finish((views(old(names)@), cur@, escaped)) == (views(final(names)@), Seq::<u8>::empty(), e),
{
    let n = cur.len();
    if n == 0 || (n == 1 && cur[0] == DOT) {
        assert(n == 1 ==> cur@ =~= seq![DOT]);
        return escaped;
    }
    if n == 2 && cur[0] == DOT && cur[1] == DOT {
        assert(cur@ =~= seq![DOT, DOT]);
        if names.len() == 0 {
            return true;
        }
        proof {
            lemma_views_drop_last(names@);
        }
        names.pop();
        return escaped;
    }
    assert(!is_dot(cur@) && !is_dot_dot(cur@)) by {
        if is_dot(cur@) {
            assert(cur@.len() == 1 && cur@[0] == DOT);
        }
        if is_dot_dot(cur@) {
            assert(cur@.len() == 2 && cur@[0] == DOT && cur@[1] == DOT);
        }
    }
    proof {
        lemma_views_push(names@, cur);
    }
    names.push(cur);
    escaped
}

/// Normalizes `p` on top of the names `init`: the result holds the names
/// reached and whether a `..` climbed above where `init` starts.
pub fn normalize_onto(init: Vec<Vec<u8>>, p: &[u8]) -> (r: (Vec<Vec<u8>>, bool))
    ensures
        finish(scan(views(init@), p@)) == (views(r.0@), Seq::<u8>::empty(), r.1),
{
    let mut names = init;
    let mut cur: Vec<u8> = Vec::new();
    let mut escaped = false;
    let mut i: usize = 0;
    assert(p@.subrange(0, 0) =~= Seq::<u8>::empty());
    while i < p.len()
        invariant
            i <= p@.len(),
            scan(views(init@), p@.subrange(0, i as int)) == (views(names@), cur@, escaped),
        decreases p@.len() - i,
    {
        let b = p[i];
        assert(p@.subrange(0, i + 1).drop_last() =~= p@.subrange(0, i as int));
        if b == SEP {
            let c = cur;
            cur = Vec::new();
            escaped = finish_exec(&mut names, c, escaped);
        } else {
            cur.push(b);
        }
        i = i + 1;
    }
    assert(p@.subrange(0, p@.len() as int) =~= p@);
    escaped = finish_exec(&mut names, cur, escaped);
    (names, escaped)
}

/// Lexically normalizes `p`: `None` when it leaves its starting directory.
pub fn normalize_path(p: &[u8]) -> (r: Option<Vec<Vec<u8>>>)
    ensures
        match r {
            Some(v) => normalize(p@) == Some(views(v@)),
            None => normalize(p@) is None,
        },
{
    let init: Vec<Vec<u8>> = Vec::new();
    assert(views(init@) =~= Seq::<Seq<u8>>::empty());
    let (names, escaped) = normalize_onto(init, p);
    if escaped {
        None
    } else {
        Some(names)
    }
}

} // verus!
