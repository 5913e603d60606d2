//! The in-memory file tree, the descriptor table, and path resolution
//! confined to the subtree of a directory.
use vstd::prelude::*;
use crate::errno::Errno;
use crate::rights::{has_rights, RIGHTS_DIRECTORY_BASE, RIGHTS_REGULAR_FILE_BASE};
use crate::path::{
    views, normalize, normalize_from, normalize_onto, normalize_path, is_absolute, has_nul,
    contains_nul, bytes_eq, copy_bytes, lemma_views_push, SEP,
};

verus! {

/// How many symlinks one resolution may expand before it reports a loop.
pub const MAX_SYMLINK_HOPS: u32 = 32;

/// Number of slots that the descriptor table may hold.
pub const MAX_FDS: usize = 0x10000;

/// Number of nodes that the tree may hold.
pub const MAX_NODES: usize = 0x1000_0000;

/// Largest size, in bytes, of a file of the tree.
pub const MAX_FILE_SIZE: u64 = 0x40000000;

/// Descriptor numbers below this one are left to the standard streams.
pub const FIRST_FD: u32 = 3;

/// The descriptor number that a failed open reports.
pub const INVALID_FD: u32 = 0xffff_ffff;

#[derive(PartialEq, Eq, Structural, Clone, Copy, Debug)]
pub enum FileType {
    Unknown,
    CharacterDevice,
    Directory,
    RegularFile,
    SymbolicLink,
}

impl FileType {
    /// The file type tag of the WASI numbering.
    pub fn code(&self) -> (r: u8)
        ensures
            r == filetype_code(*self),
    {
        match self {
            FileType::Unknown => 0,
            FileType::CharacterDevice => 2,
            FileType::Directory => 3,
            FileType::RegularFile => 4,
            FileType::SymbolicLink => 7,
        }
    }
}

pub open spec fn filetype_code(t: FileType) -> u8 {
    match t {
        FileType::Unknown => 0,
        FileType::CharacterDevice => 2,
        FileType::Directory => 3,
        FileType::RegularFile => 4,
        FileType::SymbolicLink => 7,
    }
}

/// A name in a directory and the inode it stands for.
pub struct DirEntry {
    pub name: Vec<u8>,
    pub ino: usize,
}

/// A node of the tree. A regular file keeps its bytes in `data`, a symlink its
/// target text; a directory keeps its entries in insertion order.
pub struct Inode {
    pub kind: FileType,
    pub data: Vec<u8>,
    pub entries: Vec<DirEntry>,
    pub parent: usize,
    pub atim: u64,
    pub mtim: u64,
}

/// An open descriptor: the inode it reaches, its rights, its flags and its
/// cursor.
#[derive(PartialEq, Eq, Structural, Clone, Copy, Debug)]
pub struct Descriptor {
    pub ino: usize,
    pub kind: FileType,
    pub rights_base: u64,
    pub rights_inheriting: u64,
    pub flags: u16,
    pub offset: u64,
    pub preopened: bool,
}

/// The whole state of the layer: the tree and the descriptor table.
pub struct WasiCtx {
    pub nodes: Vec<Inode>,
    pub fds: Vec<Option<Descriptor>>,
}

/// `i` is the first entry of `es` named `name`.
pub open spec fn is_first(es: Seq<DirEntry>, name: Seq<u8>, i: int) -> bool {
    &&& 0 <= i < es.len()
    &&& es[i].name@ == name
    &&& forall|j: int| 0 <= j < i ==> es[j].name@ != name
}

pub open spec fn entry_index(es: Seq<DirEntry>, name: Seq<u8>) -> Option<int> {
    if exists|i: int| is_first(es, name, i) {
        Some(choose|i: int| is_first(es, name, i))
    } else {
        None
    }
}

proof fn lemma_first_unique(es: Seq<DirEntry>, name: Seq<u8>, i: int, k: int)
    requires
        is_first(es, name, i),
        is_first(es, name, k),
    ensures
        i == k,
{
    if i < k {
        assert(es[i].name@ != name);
    }
    if k < i {
        assert(es[k].name@ != name);
    }
}

/// No two entries of a directory share a name.
pub open spec fn names_unique(es: Seq<DirEntry>) -> bool {
    forall|j: int, k: int| 0 <= j < es.len() && 0 <= k < es.len() && j != k ==> es[j].name@ != es[k].name@
}

/// What `name` stands for among the entries `es`.
pub open spec fn lookup(es: Seq<DirEntry>, name: Seq<u8>) -> Option<int> {
    match entry_index(es, name) {
        Some(i) => Some(es[i].ino as int),
        None => None,
    }
}

pub proof fn lemma_lookup_at(es: Seq<DirEntry>, i: int)
    requires
        names_unique(es),
        0 <= i < es.len(),
    ensures
        lookup(es, es[i].name@) == Some(es[i].ino as int),
{
    assert(is_first(es, es[i].name@, i));
    let k = choose|k: int| is_first(es, es[i].name@, k);
    lemma_first_unique(es, es[i].name@, i, k);
}

/// `lookup` finds an entry exactly when some entry carries the name.
pub proof fn lemma_lookup_some(es: Seq<DirEntry>, name: Seq<u8>)
    requires
        names_unique(es),
    ensures
        lookup(es, name) is None <==> forall|j: int| 0 <= j < es.len() ==> es[j].name@ != name,
        forall|j: int| 0 <= j < es.len() && es[j].name@ == name ==> lookup(es, name) == Some(es[j].ino as int),
{
    assert forall|j: int| 0 <= j < es.len() && es[j].name@ == name implies lookup(es, name) == Some(es[j].ino as int) by {
        lemma_lookup_at(es, j);
    }
}

/// Adding an entry under a fresh name.
pub proof fn lemma_lookup_push(es: Seq<DirEntry>, e: DirEntry)
    requires
        names_unique(es),
        lookup(es, e.name@) is None,
    ensures
        names_unique(es.push(e)),
        forall|n: Seq<u8>| #[trigger] lookup(es.push(e), n) == if n == e.name@ { Some(e.ino as int) } else { lookup(es, n) },
{
    lemma_lookup_some(es, e.name@);
    let es2 = es.push(e);
    assert forall|j: int, k: int| 0 <= j < es2.len() && 0 <= k < es2.len() && j != k implies es2[j].name@ != es2[k].name@ by {
        if j < es.len() && k < es.len() {
            assert(es2[j] == es[j] && es2[k] == es[k]);
        }
    }
    assert forall|n: Seq<u8>| #[trigger] lookup(es2, n) == if n == e.name@ { Some(e.ino as int) } else { lookup(es, n) } by {
        lemma_lookup_some(es2, n);
        lemma_lookup_some(es, n);
        if n == e.name@ {
            assert(es2[es.len() as int] == e);
        } else {
            assert forall|j: int| 0 <= j < es2.len() && es2[j].name@ == n implies j < es.len() && es[j] == es2[j] by {}
            if lookup(es, n) is Some {
                let j = choose|j: int| 0 <= j < es.len() && es[j].name@ == n;
                assert(es2[j] == es[j]);
            }
        }
    }
}

/// Removing the entry at `i`.
pub proof fn lemma_lookup_remove(es: Seq<DirEntry>, i: int)
    requires
        names_unique(es),
        0 <= i < es.len(),
    ensures
        names_unique(es.remove(i)),
        forall|n: Seq<u8>| #[trigger] lookup(es.remove(i), n) == if n == es[i].name@ { None } else { lookup(es, n) },
        forall|j: int| 0 <= j < es.remove(i).len() ==> exists|k: int| 0 <= k < es.len() && #[trigger] es.remove(i)[j] == es[k],
{
    let es2 = es.remove(i);
    assert forall|j: int| 0 <= j < es2.len() implies exists|k: int| 0 <= k < es.len() && #[trigger] es2[j] == es[k] by {
        if j < i {
            assert(es2[j] == es[j]);
        } else {
            assert(es2[j] == es[j + 1]);
        }
    }
    assert forall|j: int, k: int| 0 <= j < es2.len() && 0 <= k < es2.len() && j != k implies es2[j].name@ != es2[k].name@ by {
        let jj = if j < i { j } else { j + 1 };
        let kk = if k < i { k } else { k + 1 };
        assert(es2[j] == es[jj] && es2[k] == es[kk]);
    }
    assert forall|n: Seq<u8>| #[trigger] lookup(es2, n) == if n == es[i].name@ { None } else { lookup(es, n) } by {
        lemma_lookup_some(es2, n);
        lemma_lookup_some(es, n);
        if n == es[i].name@ {
            assert forall|j: int| 0 <= j < es2.len() implies es2[j].name@ != n by {
                let jj = if j < i { j } else { j + 1 };
                assert(es2[j] == es[jj]);
            }
        } else {
            if lookup(es, n) is Some {
                let k = choose|k: int| 0 <= k < es.len() && es[k].name@ == n;
                let kk = if k < i { k } else { k - 1 };
                assert(es2[kk] == es[k]);
            } else {
                assert forall|j: int| 0 <= j < es2.len() implies es2[j].name@ != n by {
                    let jj = if j < i { j } else { j + 1 };
                    assert(es2[j] == es[jj]);
                }
            }
        }
    }
}

/// Pointing the entry at `i` to another inode.
pub proof fn lemma_lookup_retarget(es: Seq<DirEntry>, i: int, e: DirEntry)
    requires
        names_unique(es),
        0 <= i < es.len(),
        e.name@ == es[i].name@,
    ensures
        names_unique(es.update(i, e)),
        forall|n: Seq<u8>| #[trigger] lookup(es.update(i, e), n) == if n == e.name@ { Some(e.ino as int) } else { lookup(es, n) },
{
    let es2 = es.update(i, e);
    assert forall|j: int, k: int| 0 <= j < es2.len() && 0 <= k < es2.len() && j != k implies es2[j].name@ != es2[k].name@ by {}
    assert forall|n: Seq<u8>| #[trigger] lookup(es2, n) == if n == e.name@ { Some(e.ino as int) } else { lookup(es, n) } by {
        lemma_lookup_some(es2, n);
        lemma_lookup_some(es, n);
        if n == e.name@ {
            assert(es2[i] == e);
        } else if lookup(es, n) is Some {
            let k = choose|k: int| 0 <= k < es.len() && es[k].name@ == n;
            assert(es2[k] == es[k]);
        }
    }
}

/// The rights that apply to a descriptor of kind `k`.
pub open spec fn applicable_base(k: FileType) -> u64 {
    if k == FileType::Directory {
        RIGHTS_DIRECTORY_BASE
    } else {
        RIGHTS_REGULAR_FILE_BASE
    }
}

/// A descriptor reaches a node of the tree, of its own kind, and holds only
/// rights that apply to that kind.
pub open spec fn fd_fits(d: Descriptor, nodes: Seq<Inode>) -> bool {
    &&& d.ino < nodes.len()
    &&& nodes[d.ino as int].kind == d.kind
    &&& d.kind != FileType::SymbolicLink
    &&& d.preopened ==> d.kind == FileType::Directory
    &&& has_rights(applicable_base(d.kind), d.rights_base)
}

/// Result of a resolution in the view: the directory reached and the last
/// name, empty when the path names that directory itself.
pub open spec fn resolved_view(r: Result<(usize, Vec<u8>), Errno>) -> Result<(int, Seq<u8>), Errno> {
    match r {
        Ok((d, leaf)) => Ok((d as int, leaf@)),
        Err(e) => Err(e),
    }
}

/// The names after a symlink met at position `i` was replaced by its target.
pub open spec fn expand(names: Seq<Seq<u8>>, i: int, target: Seq<u8>) -> Option<Seq<Seq<u8>>> {
    if is_absolute(target) {
        None
    } else {
        match normalize_from(names.take(i), target) {
            Some(s) => Some(s + names.skip(i + 1)),
            None => None,
        }
    }
}

impl WasiCtx {
    pub open spec fn entries(&self, n: int) -> Seq<DirEntry> {
        self.nodes@[n].entries@
    }

    pub open spec fn kind(&self, n: int) -> FileType {
        self.nodes@[n].kind
    }

    /// The inode that `name` stands for in directory `dir`.
    pub open spec fn child(&self, dir: int, name: Seq<u8>) -> Option<int> {
        lookup(self.entries(dir), name)
    }

    pub open spec fn fd_entry(&self, fd: int) -> Option<Descriptor> {
        if 0 <= fd < self.fds@.len() {
            self.fds@[fd]
        } else {
            None
        }
    }

    pub open spec fn wf(&self) -> bool {
        &&& 0 < self.nodes@.len() < MAX_NODES
        &&& FIRST_FD <= self.fds@.len() <= MAX_FDS
        &&& forall|n: int, j: int|
            0 <= n < self.nodes@.len() && 0 <= j < self.nodes@[n].entries@.len()
                ==> #[trigger] self.nodes@[n].entries@[j].ino < self.nodes@.len()
        &&& forall|n: int| 0 <= n < self.nodes@.len() ==> #[trigger] self.nodes@[n].parent < self.nodes@.len()
        &&& forall|n: int| 0 <= n < self.nodes@.len() ==> names_unique(#[trigger] self.nodes@[n].entries@)
        &&& forall|n: int| 0 <= n < self.nodes@.len() ==> #[trigger] self.nodes@[n].entries@.len() < MAX_NODES
        &&& forall|n: int|
            0 <= n < self.nodes@.len() ==> #[trigger] self.nodes@[n].data@.len() <= MAX_FILE_SIZE
        &&& forall|f: int|
            0 <= f < self.fds@.len() && #[trigger] self.fds@[f] is Some ==> fd_fits(self.fds@[f].unwrap(), self.nodes@)
    }

    /// The tree can take one more node, and directory `p` one more entry.
    pub open spec fn has_room(&self, p: int) -> bool {
        self.nodes@.len() + 1 < MAX_NODES && self.entries(p).len() + 1 < MAX_NODES
    }

    pub fn room(&self, p: usize) -> (r: bool)
        requires
            self.wf(),
            p < self.nodes@.len(),
        ensures
            r == self.has_room(p as int),
    {
        self.nodes.len() + 1 < MAX_NODES && self.nodes[p].entries.len() + 1 < MAX_NODES
    }

    /// Walks `names` from position `i` in directory `cur`; `base` is where a
    /// symlink's target is resolved from again.
    pub open spec fn walk(
        &self,
        base: int,
        cur: int,
        names: Seq<Seq<u8>>,
        i: int,
        hops: nat,
        follow: bool,
    ) -> Result<(int, Seq<u8>), Errno>
        decreases hops, names.len() - i,
    {
        if i < 0 || i >= names.len() {
            Ok((cur, seq![]))
        } else {
            let last = i + 1 == names.len();
            match self.child(cur, names[i]) {
                None => if last {
                    Ok((cur, names[i]))
                } else {
                    Err(Errno::NotFound)
                },
                Some(c) => {
                    let k = self.kind(c);
                    if k == FileType::SymbolicLink && (!last || follow) {
                        if hops == 0 {
                            Err(Errno::Loop)
                        } else {
                            match expand(names, i, self.nodes@[c].data@) {
                                None => Err(Errno::NotCapable),
                                Some(nn) => self.walk(base, base, nn, 0, (hops - 1) as nat, follow),
                            }
                        }
                    } else if last {
                        Ok((cur, names[i]))
                    } else if k == FileType::Directory {
                        self.walk(base, c, names, i + 1, hops, follow)
                    } else {
                        Err(Errno::NotDir)
                    }
                },
            }
        }
    }

    /// A walk fails only with a real error.
    pub proof fn lemma_walk_err(&self, base: int, cur: int, names: Seq<Seq<u8>>, i: int, hops: nat, follow: bool)
        ensures
            self.walk(base, cur, names, i, hops, follow) matches Err(e) ==> e != Errno::Success,
        decreases hops, names.len() - i,
    {
        if 0 <= i < names.len() {
            let last = i + 1 == names.len();
            match self.child(cur, names[i]) {
                None => {},
                Some(c) => {
                    let k = self.kind(c);
                    if k == FileType::SymbolicLink && (!last || follow) {
                        if hops > 0 {
                            match expand(names, i, self.nodes@[c].data@) {
                                None => {},
                                Some(nn) => self.lemma_walk_err(base, base, nn, 0, (hops - 1) as nat, follow),
                            }
                        }
                    } else if !last && k == FileType::Directory {
                        self.lemma_walk_err(base, c, names, i + 1, hops, follow);
                    }
                },
            }
        }
    }

    /// A resolution fails only with a real error.
    pub proof fn lemma_resolve_err(&self, base: int, path: Seq<u8>, follow: bool)
        ensures
            self.resolve_spec(base, path, follow) matches Err(e) ==> e != Errno::Success,
    {
        if let Some(names) = normalize(path) {
            self.lemma_walk_err(base, base, names, 0, MAX_SYMLINK_HOPS as nat, follow);
        }
    }

    /// Where `path` leads from directory `base`: the directory that holds the
    /// last name, and that name. A symlink in the middle of the path is always
    /// expanded, the last one only when `follow` holds.
    pub open spec fn resolve_spec(&self, base: int, path: Seq<u8>, follow: bool) -> Result<(int, Seq<u8>), Errno> {
        if has_nul(path) {
            Err(Errno::IllegalSequence)
        } else if path.len() == 0 {
            Err(Errno::NotFound)
        } else if is_absolute(path) {
            Err(Errno::NotCapable)
        } else {
            match normalize(path) {
                None => Err(Errno::NotCapable),
                Some(names) => self.walk(base, base, names, 0, MAX_SYMLINK_HOPS as nat, follow),
            }
        }
    }

    /// Looks `name` up in directory `dir`.
    pub fn find_child(&self, dir: usize, name: &[u8]) -> (r: Option<usize>)
        requires
            self.wf(),
            dir < self.nodes@.len(),
        ensures
            match r {
                Some(c) => self.child(dir as int, name@) == Some(c as int) && c < self.nodes@.len(),
                None => self.child(dir as int, name@) is None,
            },
    {
        let es = &self.nodes[dir].entries;
        let mut j: usize = 0;
        while j < es.len()
            invariant
                self.wf(),
                dir < self.nodes@.len(),
                es@ == self.entries(dir as int),
                j <= es@.len(),
                forall|k: int| 0 <= k < j ==> es@[k].name@ != name@,
            decreases es@.len() - j,
        {
            if bytes_eq(es[j].name.as_slice(), name) {
                assert(is_first(es@, name@, j as int));
                proof {
                    let k = choose|k: int| is_first(es@, name@, k);
                    lemma_first_unique(es@, name@, j as int, k);
                }
                assert(self.nodes@[dir as int].entries@[j as int].ino < self.nodes@.len());
                return Some(es[j].ino);
            }
            j = j + 1;
        }
        assert(!exists|i: int| is_first(es@, name@, i));
        None
    }

    fn expand_exec(names: &Vec<Vec<u8>>, i: usize, target: &[u8]) -> (r: Option<Vec<Vec<u8>>>)
        requires
            i < names@.len(),
        ensures
            match r {
                Some(v) => expand(views(names@), i as int, target@) == Some(views(v@)),
                None => expand(views(names@), i as int, target@) is None,
            },
    {
        if target.len() > 0 && target[0] == SEP {
            return None;
        }
        let mut init: Vec<Vec<u8>> = Vec::new();
        let mut k: usize = 0;
        while k < i
            invariant
                k <= i < names@.len(),
                views(init@) == views(names@).take(k as int),
            decreases i - k,
        {
            let c = copy_bytes(names[k].as_slice());
            proof {
                lemma_views_push(init@, c);
            }
            init.push(c);
            k = k + 1;
            assert(views(init@) =~= views(names@).take(k as int));
        }
        let (mut out, escaped) = normalize_onto(init, target);
        if escaped {
            return None;
        }
        let ghost head = views(out@);
        assert(normalize_from(views(names@).take(i as int), target@) == Some(head));
        let n = names.len();
        let mut k: usize = i + 1;
        assert(views(out@) =~= head + views(names@).subrange(i + 1, i + 1));
        while k < names.len()
            invariant
                i + 1 <= k <= names@.len(),
                views(out@) == head + views(names@).subrange(i + 1, k as int),
            decreases names@.len() - k,
        {
            let c = copy_bytes(names[k].as_slice());
            proof {
                lemma_views_push(out@, c);
            }
            out.push(c);
            k = k + 1;
            assert(views(out@) =~= head + views(names@).subrange(i + 1, k as int));
        }
        assert(views(names@).subrange(i + 1, names@.len() as int) =~= views(names@).skip(i + 1));
        Some(out)
    }

    /// Resolves `path` from directory `base`, following a final symlink only
    /// when `follow` holds.
    pub fn resolve(&self, base: usize, path: &[u8], follow: bool) -> (r: Result<(usize, Vec<u8>), Errno>)
        requires
            self.wf(),
            base < self.nodes@.len(),
        ensures
            resolved_view(r) == self.resolve_spec(base as int, path@, follow),
            r matches Ok((d, _)) ==> d < self.nodes@.len(),
            r matches Err(e) ==> e != Errno::Success,
    {
        proof {
            if let Some(names) = normalize(path@) {
                self.lemma_walk_err(base as int, base as int, names, 0, MAX_SYMLINK_HOPS as nat, follow);
            }
        }
        if contains_nul(path) {
            return Err(Errno::IllegalSequence);
        }
        if path.len() == 0 {
            return Err(Errno::NotFound);
        }
        if path[0] == SEP {
            return Err(Errno::NotCapable);
        }
        let mut names = match normalize_path(path) {
            None => {
                return Err(Errno::NotCapable);
            },
            Some(v) => v,
        };
        let ghost goal = self.walk(base as int, base as int, views(names@), 0, MAX_SYMLINK_HOPS as nat, follow);
        assert(goal == self.resolve_spec(base as int, path@, follow));
        let mut i: usize = 0;
        let mut cur: usize = base;
        let mut hops: u32 = MAX_SYMLINK_HOPS;
        loop
            invariant
                self.wf(),
                base < self.nodes@.len(),
                cur < self.nodes@.len(),
                i <= names@.len(),
                self.walk(base as int, cur as int, views(names@), i as int, hops as nat, follow) == goal,
                goal == self.resolve_spec(base as int, path@, follow),
            decreases hops, names@.len() - i,
        {
            if i >= names.len() {
                let leaf: Vec<u8> = Vec::new();
                assert(leaf@ =~= seq![]);
                return Ok((cur, leaf));
            }
            let last = i + 1 == names.len();
            assert(views(names@)[i as int] == names@[i as int]@);
            match self.find_child(cur, names[i].as_slice()) {
                None => {
                    if last {
                        return Ok((cur, copy_bytes(names[i].as_slice())));
                    }
                    return Err(Errno::NotFound);
                },
                Some(c) => {
                    let k = self.nodes[c].kind;
                    if k == FileType::SymbolicLink && (!last || follow) {
                        if hops == 0 {
                            return Err(Errno::Loop);
                        }
                        match Self::expand_exec(&names, i, self.nodes[c].data.as_slice()) {
                            None => {
                                return Err(Errno::NotCapable);
                            },
                            Some(nn) => {
                                names = nn;
                                i = 0;
                                cur = base;
                                hops = hops - 1;
                            },
                        }
                    } else if last {
                        return Ok((cur, copy_bytes(names[i].as_slice())));
                    } else if k == FileType::Directory {
                        cur = c;
                        i = i + 1;
                    } else {
                        return Err(Errno::NotDir);
                    }
                },
            }
        }
    }
}

} // verus!
