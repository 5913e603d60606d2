//! Changes to single nodes of the tree, each keeping the tree well formed.
use vstd::prelude::*;
use crate::fs::{
    WasiCtx, Inode, DirEntry, FileType, lookup, names_unique, lemma_lookup_push, lemma_lookup_remove,
    lemma_lookup_retarget, lemma_lookup_some, MAX_FILE_SIZE, MAX_NODES, fd_fits,
};
use crate::path::bytes_eq;

verus! {

/// Node `n` keeps everything but its entries.
pub open spec fn same_meta(a: Inode, b: Inode) -> bool {
    &&& a.kind == b.kind
    &&& a.data@ == b.data@
    &&& a.parent == b.parent
    &&& a.atim == b.atim
    &&& a.mtim == b.mtim
}

/// Every node of `old` other than `n` is found unchanged in `new`.
pub open spec fn others_kept(new: Seq<Inode>, old: Seq<Inode>, n: int) -> bool {
    &&& new.len() >= old.len()
    &&& forall|m: int| 0 <= m < old.len() && m != n ==> #[trigger] new[m] == old[m]
}

/// The entries `new` bind `name` to `target` and every other name as `old` does.
pub open spec fn rebinds(new: Seq<DirEntry>, old: Seq<DirEntry>, name: Seq<u8>, target: Option<int>) -> bool {
    forall|x: Seq<u8>| #[trigger] lookup(new, x) == if x == name { target } else { lookup(old, x) }
}

impl Inode {
    pub fn placeholder() -> (r: Inode)
        ensures
            r.kind == FileType::Unknown,
            r.data@.len() == 0,
            r.entries@.len() == 0,
            r.parent == 0,
    {
        Inode { kind: FileType::Unknown, data: Vec::new(), entries: Vec::new(), parent: 0, atim: 0, mtim: 0 }
    }
}

impl WasiCtx {
    /// Position of the entry named `name` in directory `dir`.
    pub fn find_entry_index(&self, dir: usize, name: &[u8]) -> (r: Option<usize>)
        requires
            self.wf(),
            dir < self.nodes@.len(),
        ensures
            match r {
                Some(j) => j < self.entries(dir as int).len() && self.entries(dir as int)[j as int].name@ == name@
                    && self.child(dir as int, name@) == Some(self.entries(dir as int)[j as int].ino as int),
                None => self.child(dir as int, name@) is None,
            },
    {
        let es = &self.nodes[dir].entries;
        let mut j: usize = 0;
        proof {
            lemma_lookup_some(es@, name@);
        }
        while j < es.len()
            invariant
                es@ == self.entries(dir as int),
                names_unique(es@),
                j <= es@.len(),
                forall|k: int| 0 <= k < j ==> es@[k].name@ != name@,
                lookup(es@, name@) is None <==> forall|k: int| 0 <= k < es@.len() ==> es@[k].name@ != name@,
                forall|k: int| 0 <= k < es@.len() && es@[k].name@ == name@ ==> lookup(es@, name@) == Some(es@[k].ino as int),
            decreases es@.len() - j,
        {
            if bytes_eq(es[j].name.as_slice(), name) {
                return Some(j);
            }
            j = j + 1;
        }
        None
    }

    /// Binds the fresh name `name` in directory `dir` to node `ino`.
    pub fn push_entry(&mut self, dir: usize, name: Vec<u8>, ino: usize)
        requires
            old(self).wf(),
            dir < old(self).nodes@.len(),
            ino < old(self).nodes@.len(),
            old(self).entries(dir as int).len() + 1 < MAX_NODES,
            old(self).child(dir as int, name@) is None,
        ensures
            final(self).wf(),
            final(self).fds == old(self).fds,
            final(self).nodes@.len() == old(self).nodes@.len(),
            others_kept(final(self).nodes@, old(self).nodes@, dir as int),
            same_meta(final(self).nodes@[dir as int], old(self).nodes@[dir as int]),
            rebinds(final(self).entries(dir as int), old(self).entries(dir as int), name@, Some(ino as int)),
    {
        let ghost old_es = self.entries(dir as int);
        let e = DirEntry { name, ino };
        proof {
            lemma_lookup_push(old_es, e);
        }
        let mut tmp = Inode::placeholder();
        self.nodes.set_and_swap(dir, &mut tmp);
        tmp.entries.push(e);
        self.nodes.set_and_swap(dir, &mut tmp);
        assert(self.entries(dir as int) == old_es.push(e));
        proof {
            self.lemma_wf_after_node_change(old(self), dir as int);
        }
    }

    /// Removes the entry named `name` from directory `dir`; returns the node it bound.
    pub fn remove_entry(&mut self, dir: usize, name: &[u8]) -> (r: usize)
        requires
            old(self).wf(),
            dir < old(self).nodes@.len(),
            old(self).child(dir as int, name@) is Some,
        ensures
            final(self).wf(),
            final(self).fds == old(self).fds,
            final(self).nodes@.len() == old(self).nodes@.len(),
            old(self).child(dir as int, name@) == Some(r as int),
            final(self).entries(dir as int).len() + 1 == old(self).entries(dir as int).len(),
            others_kept(final(self).nodes@, old(self).nodes@, dir as int),
            same_meta(final(self).nodes@[dir as int], old(self).nodes@[dir as int]),
            rebinds(final(self).entries(dir as int), old(self).entries(dir as int), name@, None),
    {
        let j = match self.find_entry_index(dir, name) {
            Some(j) => j,
            None => {
                assert(false);
                0
            },
        };
        let ghost old_es = self.entries(dir as int);
        proof {
            lemma_lookup_remove(old_es, j as int);
        }
        let mut tmp = Inode::placeholder();
        self.nodes.set_and_swap(dir, &mut tmp);
        let e = tmp.entries.remove(j);
        self.nodes.set_and_swap(dir, &mut tmp);
        assert(self.entries(dir as int) == old_es.remove(j as int));
        proof {
            self.lemma_wf_after_node_change(old(self), dir as int);
        }
        e.ino
    }

    /// Points the existing name `name` of directory `dir` at node `ino`.
    pub fn retarget_entry(&mut self, dir: usize, name: &[u8], ino: usize)
        requires
            old(self).wf(),
            dir < old(self).nodes@.len(),
            ino < old(self).nodes@.len(),
            old(self).child(dir as int, name@) is Some,
        ensures
            final(self).wf(),
            final(self).fds == old(self).fds,
            final(self).nodes@.len() == old(self).nodes@.len(),
            others_kept(final(self).nodes@, old(self).nodes@, dir as int),
            same_meta(final(self).nodes@[dir as int], old(self).nodes@[dir as int]),
            rebinds(final(self).entries(dir as int), old(self).entries(dir as int), name@, Some(ino as int)),
    {
        let j = match self.find_entry_index(dir, name) {
            Some(j) => j,
            None => {
                assert(false);
                0
            },
        };
        let ghost old_es = self.entries(dir as int);
        let mut tmp = Inode::placeholder();
        self.nodes.set_and_swap(dir, &mut tmp);
        let old_e = tmp.entries.remove(j);
        let e = DirEntry { name: old_e.name, ino };
        proof {
            lemma_lookup_retarget(old_es, j as int, e);
        }
        tmp.entries.insert(j, e);
        assert(tmp.entries@ =~= old_es.update(j as int, e));
        self.nodes.set_and_swap(dir, &mut tmp);
        assert(self.entries(dir as int) == old_es.update(j as int, e));
        proof {
            self.lemma_wf_after_node_change(old(self), dir as int);
        }
    }

    /// Adds a node without entries; returns its number.
    pub fn add_node(&mut self, node: Inode) -> (r: usize)
        requires
            old(self).wf(),
            old(self).nodes@.len() + 1 < MAX_NODES,
            node.entries@.len() == 0,
            node.parent < old(self).nodes@.len(),
            node.data@.len() <= MAX_FILE_SIZE,
        ensures
            final(self).wf(),
            final(self).fds == old(self).fds,
            r == old(self).nodes@.len(),
            final(self).nodes@ == old(self).nodes@.push(node),
    {
        let r = self.nodes.len();
        self.nodes.push(node);
        assert forall|f: int| 0 <= f < self.fds@.len() && #[trigger] self.fds@[f] is Some implies fd_fits(
            self.fds@[f].unwrap(),
            self.nodes@,
        ) by {
            assert(fd_fits(old(self).fds@[f].unwrap(), old(self).nodes@));
            assert(self.nodes@[self.fds@[f].unwrap().ino as int] == old(self).nodes@[self.fds@[f].unwrap().ino as int]);
        }
        assert forall|n: int, j: int|
            0 <= n < self.nodes@.len() && 0 <= j < self.nodes@[n].entries@.len() implies #[trigger] self.nodes@[n].entries@[j].ino
            < self.nodes@.len() by {
            if n < r {
                assert(self.nodes@[n] == old(self).nodes@[n]);
            }
        }
        assert forall|n: int| 0 <= n < self.nodes@.len() implies names_unique(#[trigger] self.nodes@[n].entries@) by {
            if n < r {
                assert(self.nodes@[n] == old(self).nodes@[n]);
            }
        }
        assert forall|n: int| 0 <= n < self.nodes@.len() implies #[trigger] self.nodes@[n].entries@.len() < MAX_NODES by {
            if n < r {
                assert(self.nodes@[n] == old(self).nodes@[n]);
            }
        }
        assert forall|n: int| 0 <= n < self.nodes@.len() implies #[trigger] self.nodes@[n].parent < self.nodes@.len() by {
            if n < r {
                assert(self.nodes@[n] == old(self).nodes@[n]);
            }
        }
        assert forall|n: int| 0 <= n < self.nodes@.len() implies #[trigger] self.nodes@[n].data@.len() <= MAX_FILE_SIZE by {
            if n < r {
                assert(self.nodes@[n] == old(self).nodes@[n]);
            }
        }
        r
    }

    /// Takes the bytes out of node `n`, leaving it empty.
    pub fn take_data(&mut self, n: usize) -> (r: Vec<u8>)
        requires
            old(self).wf(),
            n < old(self).nodes@.len(),
        ensures
            final(self).wf(),
            final(self).fds == old(self).fds,
            r@ == old(self).nodes@[n as int].data@,
            final(self).nodes@.len() == old(self).nodes@.len(),
            others_kept(final(self).nodes@, old(self).nodes@, n as int),
            final(self).nodes@[n as int].data@.len() == 0,
            final(self).nodes@[n as int].entries == old(self).nodes@[n as int].entries,
            final(self).nodes@[n as int].kind == old(self).nodes@[n as int].kind,
            final(self).nodes@[n as int].parent == old(self).nodes@[n as int].parent,
            final(self).nodes@[n as int].atim == old(self).nodes@[n as int].atim,
            final(self).nodes@[n as int].mtim == old(self).nodes@[n as int].mtim,
    {
        let mut tmp = Inode::placeholder();
        self.nodes.set_and_swap(n, &mut tmp);
        let mut data: Vec<u8> = Vec::new();
        std::mem::swap(&mut data, &mut tmp.data);
        self.nodes.set_and_swap(n, &mut tmp);
        proof {
            self.lemma_wf_after_node_change(old(self), n as int);
        }
        data
    }

    /// Puts `data` in node `n` and sets its times.
    pub fn put_data(&mut self, n: usize, data: Vec<u8>, atim: u64, mtim: u64)
        requires
            old(self).wf(),
            n < old(self).nodes@.len(),
            data@.len() <= MAX_FILE_SIZE,
        ensures
            final(self).wf(),
            final(self).fds == old(self).fds,
            final(self).nodes@.len() == old(self).nodes@.len(),
            others_kept(final(self).nodes@, old(self).nodes@, n as int),
            final(self).nodes@[n as int].data@ == data@,
            final(self).nodes@[n as int].entries == old(self).nodes@[n as int].entries,
            final(self).nodes@[n as int].kind == old(self).nodes@[n as int].kind,
            final(self).nodes@[n as int].parent == old(self).nodes@[n as int].parent,
            final(self).nodes@[n as int].atim == atim,
            final(self).nodes@[n as int].mtim == mtim,
    {
        let mut tmp = Inode::placeholder();
        self.nodes.set_and_swap(n, &mut tmp);
        tmp.data = data;
        tmp.atim = atim;
        tmp.mtim = mtim;
        self.nodes.set_and_swap(n, &mut tmp);
        proof {
            self.lemma_wf_after_node_change(old(self), n as int);
        }
    }

    /// Sets the parent of node `n`.
    pub fn set_parent(&mut self, n: usize, p: usize)
        requires
            old(self).wf(),
            n < old(self).nodes@.len(),
            p < old(self).nodes@.len(),
        ensures
            final(self).wf(),
            final(self).fds == old(self).fds,
            final(self).nodes@.len() == old(self).nodes@.len(),
            others_kept(final(self).nodes@, old(self).nodes@, n as int),
            final(self).nodes@[n as int].parent == p,
            final(self).nodes@[n as int].data@ == old(self).nodes@[n as int].data@,
            final(self).nodes@[n as int].entries == old(self).nodes@[n as int].entries,
            final(self).nodes@[n as int].kind == old(self).nodes@[n as int].kind,
            final(self).nodes@[n as int].atim == old(self).nodes@[n as int].atim,
            final(self).nodes@[n as int].mtim == old(self).nodes@[n as int].mtim,
    {
        let mut tmp = Inode::placeholder();
        self.nodes.set_and_swap(n, &mut tmp);
        tmp.parent = p;
        self.nodes.set_and_swap(n, &mut tmp);
        proof {
            self.lemma_wf_after_node_change(old(self), n as int);
        }
    }

    /// A change to node `n` alone that keeps its kind, points its entries
    /// inside the tree with unique names, and keeps its parent and size in
    /// bounds, keeps the tree well formed.
    proof fn lemma_wf_after_node_change(&self, old: &WasiCtx, n: int)
        requires
            old.wf(),
            0 <= n < old.nodes@.len(),
            self.nodes@.len() == old.nodes@.len(),
            self.fds == old.fds,
            others_kept(self.nodes@, old.nodes@, n),
            self.nodes@[n].kind == old.nodes@[n].kind,
            self.nodes@[n].parent < self.nodes@.len(),
            self.nodes@[n].data@.len() <= MAX_FILE_SIZE,
            names_unique(self.nodes@[n].entries@),
            self.nodes@[n].entries@.len() < MAX_NODES,
            forall|j: int| 0 <= j < self.nodes@[n].entries@.len() ==> #[trigger] self.nodes@[n].entries@[j].ino < self.nodes@.len(),
        ensures
            self.wf(),
    {
        assert forall|f: int| 0 <= f < self.fds@.len() && #[trigger] self.fds@[f] is Some implies fd_fits(
            self.fds@[f].unwrap(),
            self.nodes@,
        ) by {
            assert(fd_fits(old.fds@[f].unwrap(), old.nodes@));
        }
        assert forall|m: int, j: int|
            0 <= m < self.nodes@.len() && 0 <= j < self.nodes@[m].entries@.len() implies #[trigger] self.nodes@[m].entries@[j].ino
            < self.nodes@.len() by {
            if m != n {
                assert(self.nodes@[m] == old.nodes@[m]);
            }
        }
        assert forall|m: int| 0 <= m < self.nodes@.len() implies names_unique(#[trigger] self.nodes@[m].entries@) by {
            if m != n {
                assert(self.nodes@[m] == old.nodes@[m]);
            }
        }
        assert forall|m: int| 0 <= m < self.nodes@.len() implies #[trigger] self.nodes@[m].entries@.len() < MAX_NODES by {
            if m != n {
                assert(self.nodes@[m] == old.nodes@[m]);
            }
        }
        assert forall|m: int| 0 <= m < self.nodes@.len() implies #[trigger] self.nodes@[m].parent < self.nodes@.len() by {
            if m != n {
                assert(self.nodes@[m] == old.nodes@[m]);
            }
        }
        assert forall|m: int| 0 <= m < self.nodes@.len() implies #[trigger] self.nodes@[m].data@.len() <= MAX_FILE_SIZE by {
            if m != n {
                assert(self.nodes@[m] == old.nodes@[m]);
            }
        }
    }
}

} // verus!
