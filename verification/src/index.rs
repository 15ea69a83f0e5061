use vstd::prelude::*;

verus! {

broadcast use vstd::seq_lib::lemma_seq_contains_after_push;

/// The vault ids currently indexed under one owner.
pub struct IndexEntry {
    pub owner: u64,
    pub ids: Vec<u64>,
}

/// The owner-to-vault-ids index of the vault store: every initialized vault
/// is listed exactly once, under its current owner.
pub struct OwnerIndex {
    pub entries: Vec<IndexEntry>,
}

/// Whether the entry list records vault `id` under `owner`.
pub open spec fn index_contains(s: Seq<IndexEntry>, owner: u64, id: u64) -> bool {
    exists|j: int| 0 <= j < s.len() && (#[trigger] s[j]).owner == owner && s[j].ids@.contains(id)
}

/// No two entries are kept for the same owner.
pub open spec fn owners_unique(s: Seq<IndexEntry>) -> bool {
    forall|i: int, j: int| 0 <= i < j < s.len() ==> (#[trigger] s[i]).owner != (#[trigger] s[j]).owner
}

/// No id is listed twice within one entry.
pub open spec fn entry_ids_unique(ids: Seq<u64>) -> bool {
    forall|i: int, j: int| 0 <= i < j < ids.len() ==> ids[i] != ids[j]
}

impl OwnerIndex {
    /// The index's invariant: one entry per owner, no duplicate membership.
    pub open spec fn wf(self) -> bool {
        &&& owners_unique(self.entries@)
        &&& forall|j: int|
            0 <= j < self.entries@.len() ==> entry_ids_unique((#[trigger] self.entries@[j]).ids@)
    }

    /// Whether vault `id` is indexed under `owner`.
    pub open spec fn contains(self, owner: u64, id: u64) -> bool {
        index_contains(self.entries@, owner, id)
    }

    /// An empty index.
    pub fn new() -> (r: OwnerIndex)
        ensures
            r.wf(),
            forall|o: u64, id: u64| !(#[trigger] r.contains(o, id)),
    {
        OwnerIndex { entries: Vec::new() }
    }

    /// Position of the entry kept for `owner`, if any.
    fn find_owner(&self, owner: u64) -> (r: Option<usize>)
        ensures
            match r {
                Some(j) => j < self.entries@.len() && self.entries@[j as int].owner == owner,
                None => forall|j: int|
                    0 <= j < self.entries@.len() ==> (#[trigger] self.entries@[j]).owner != owner,
            },
    {
        let mut j: usize = 0;
        while j < self.entries.len()
            invariant
                j <= self.entries@.len(),
                forall|k: int| 0 <= k < j ==> (#[trigger] self.entries@[k]).owner != owner,
            decreases self.entries@.len() - j,
        {
            if self.entries[j].owner == owner {
                return Some(j);
            }
            j = j + 1;
        }
        None
    }

    /// The ids indexed under `owner`, as a fresh vector.
    pub fn ids_of(&self, owner: u64) -> (r: Vec<u64>)
        requires
            self.wf(),
        ensures
            forall|id: u64| r@.contains(id) <==> self.contains(owner, id),
            entry_ids_unique(r@),
    {
        match self.find_owner(owner) {
            Some(j) => {
                let src = &self.entries[j].ids;
                let mut r: Vec<u64> = Vec::new();
                let mut k: usize = 0;
                while k < src.len()
                    invariant
                        k <= src@.len(),
                        r@ =~= src@.take(k as int),
                    decreases src@.len() - k,
                {
                    proof {
                        assert(src@.take(k + 1).drop_last() =~= src@.take(k as int));
                    }
                    r.push(src[k]);
                    k = k + 1;
                }
                proof {
                    assert(src@.take(src@.len() as int) =~= src@);
                    let ghost jj = j as int;
                    assert forall|id: u64| r@.contains(id) <==> self.contains(owner, id) by {
                        if r@.contains(id) {
                            assert(self.entries@[jj].owner == owner
                                && self.entries@[jj].ids@.contains(id));
                        }
                        if self.contains(owner, id) {
                            let j2 = choose|j2: int|
                                0 <= j2 < self.entries@.len()
                                    && (#[trigger] self.entries@[j2]).owner == owner
                                    && self.entries@[j2].ids@.contains(id);
                            assert(j2 == jj);
                        }
                    }
                }
                r
            },
            None => {
                let r: Vec<u64> = Vec::new();
                proof {
                    assert forall|id: u64| r@.contains(id) <==> self.contains(owner, id) by {
                        if self.contains(owner, id) {
                            let j2 = choose|j2: int|
                                0 <= j2 < self.entries@.len()
                                    && (#[trigger] self.entries@[j2]).owner == owner
                                    && self.entries@[j2].ids@.contains(id);
                        }
                    }
                }
                r
            },
        }
    }

    /// Indexes vault `id` under `owner`. The id must not be indexed anywhere
    /// yet; afterwards the index records exactly the old memberships plus
    /// this one.
    pub fn insert(&mut self, owner: u64, id: u64)
        requires
            old(self).wf(),
            forall|o2: u64| !old(self).contains(o2, id),
        ensures
            final(self).wf(),
            forall|o2: u64, id2: u64|
                #[trigger] final(self).contains(o2, id2) <==> (old(self).contains(o2, id2) || (o2
                    == owner && id2 == id)),
    {
        let ghost s0 = self.entries@;
        match self.find_owner(owner) {
            Some(j) => {
                let ghost jj = j as int;
                proof {
                    if s0[jj].ids@.contains(id) {
                        assert(old(self).contains(owner, id));
                    }
                }
                let src = &self.entries[j].ids;
                let mut ids: Vec<u64> = Vec::new();
                let mut k: usize = 0;
                while k < src.len()
                    invariant
                        k <= src@.len(),
                        ids@ =~= src@.take(k as int),
                    decreases src@.len() - k,
                {
                    proof {
                        assert(src@.take(k + 1).drop_last() =~= src@.take(k as int));
                    }
                    ids.push(src[k]);
                    k = k + 1;
                }
                proof {
                    assert(src@.take(src@.len() as int) =~= src@);
                }
                ids.push(id);
                let e = IndexEntry { owner, ids };
                self.entries.set(j, e);
                proof {
                    assert forall|o2: u64, id2: u64|
                        #[trigger] self.contains(o2, id2) <==> (index_contains(s0, o2, id2) || (o2
                            == owner && id2 == id)) by {
                        if self.contains(o2, id2) {
                            let j2 = choose|j2: int|
                                0 <= j2 < self.entries@.len()
                                    && (#[trigger] self.entries@[j2]).owner == o2
                                    && self.entries@[j2].ids@.contains(id2);
                            if j2 == jj {
                                if id2 != id {
                                    assert(s0[jj].ids@.contains(id2));
                                    assert(index_contains(s0, o2, id2));
                                }
                            } else {
                                assert(s0[j2].owner == o2 && s0[j2].ids@.contains(id2));
                            }
                        }
                        if index_contains(s0, o2, id2) {
                            let j2 = choose|j2: int|
                                0 <= j2 < s0.len() && (#[trigger] s0[j2]).owner == o2
                                    && s0[j2].ids@.contains(id2);
                            if j2 == jj {
                                assert(self.entries@[jj].ids@.contains(id2));
                            } else {
                                assert(self.entries@[j2].owner == o2
                                    && self.entries@[j2].ids@.contains(id2));
                            }
                        }
                        if o2 == owner && id2 == id {
                            assert(self.entries@[jj].ids@.contains(id2));
                        }
                    }
                }
            },
            None => {
                let mut ids: Vec<u64> = Vec::new();
                ids.push(id);
                let e = IndexEntry { owner, ids };
                self.entries.push(e);
                let ghost n = s0.len() as int;
                proof {
                    assert forall|o2: u64, id2: u64|
                        #[trigger] self.contains(o2, id2) <==> (index_contains(s0, o2, id2) || (o2
                            == owner && id2 == id)) by {
                        if self.contains(o2, id2) {
                            let j2 = choose|j2: int|
                                0 <= j2 < self.entries@.len()
                                    && (#[trigger] self.entries@[j2]).owner == o2
                                    && self.entries@[j2].ids@.contains(id2);
                            if j2 < n {
                                assert(s0[j2].owner == o2 && s0[j2].ids@.contains(id2));
                            } else {
                                assert(self.entries@[j2] == e);
                                assert(e.ids@[0] == id);
                            }
                        }
                        if index_contains(s0, o2, id2) {
                            let j2 = choose|j2: int|
                                0 <= j2 < s0.len() && (#[trigger] s0[j2]).owner == o2
                                    && s0[j2].ids@.contains(id2);
                            assert(self.entries@[j2].owner == o2
                                && self.entries@[j2].ids@.contains(id2));
                        }
                        if o2 == owner && id2 == id {
                            assert(self.entries@[n].ids@[0] == id);
                            assert(self.entries@[n].ids@.contains(id2));
                        }
                    }
                }
            },
        }
    }

    /// Drops the membership of vault `id` under `owner`, if present;
    /// afterwards the index records exactly the old memberships minus it.
    pub fn remove(&mut self, owner: u64, id: u64)
        requires
            old(self).wf(),
        ensures
            final(self).wf(),
            forall|o2: u64, id2: u64|
                #[trigger] final(self).contains(o2, id2) <==> (old(self).contains(o2, id2) && !(o2
                    == owner && id2 == id)),
    {
        let ghost s0 = self.entries@;
        match self.find_owner(owner) {
            Some(j) => {
                let ghost jj = j as int;
                let src = &self.entries[j].ids;
                let mut ids: Vec<u64> = Vec::new();
                let mut k: usize = 0;
                while k < src.len()
                    invariant
                        k <= src@.len(),
                        entry_ids_unique(src@),
                        forall|x: u64| #![trigger ids@.contains(x)]
                            ids@.contains(x) <==> (src@.take(k as int).contains(x) && x != id),
                        entry_ids_unique(ids@),
                    decreases src@.len() - k,
                {
                    proof {
                        src@.lemma_take_succ_push(k as int);
                        if src@.take(k as int).contains(src@[k as int]) {
                            let a = choose|a: int|
                                0 <= a < k && (#[trigger] src@.take(k as int)[a]) == src@[k as int];
                            assert(src@[a] == src@[k as int]);
                        }
                    }
                    if src[k] != id {
                        proof {
                            assert(!ids@.contains(src@[k as int]));
                            assert forall|a: int| 0 <= a < ids@.len() implies (#[trigger] ids@[a])
                                != src@[k as int] by {
                                if ids@[a] == src@[k as int] {
                                    assert(ids@.contains(src@[k as int]));
                                }
                            }
                        }
                        ids.push(src[k]);
                    }
                    k = k + 1;
                }
                proof {
                    assert(src@.take(src@.len() as int) =~= src@);
                }
                let e = IndexEntry { owner, ids };
                self.entries.set(j, e);
                proof {
                    assert forall|o2: u64, id2: u64|
                        #[trigger] self.contains(o2, id2) <==> (index_contains(s0, o2, id2) && !(o2
                            == owner && id2 == id)) by {
                        if self.contains(o2, id2) {
                            let j2 = choose|j2: int|
                                0 <= j2 < self.entries@.len()
                                    && (#[trigger] self.entries@[j2]).owner == o2
                                    && self.entries@[j2].ids@.contains(id2);
                            if j2 == jj {
                                assert(s0[jj].ids@.contains(id2) && id2 != id);
                                assert(index_contains(s0, o2, id2));
                            } else {
                                assert(s0[j2].owner == o2 && s0[j2].ids@.contains(id2));
                            }
                        }
                        if index_contains(s0, o2, id2) && !(o2 == owner && id2 == id) {
                            let j2 = choose|j2: int|
                                0 <= j2 < s0.len() && (#[trigger] s0[j2]).owner == o2
                                    && s0[j2].ids@.contains(id2);
                            if j2 == jj {
                                assert(self.entries@[jj].ids@.contains(id2));
                            } else {
                                assert(self.entries@[j2].owner == o2
                                    && self.entries@[j2].ids@.contains(id2));
                            }
                        }
                    }
                }
            },
            None => {
                proof {
                    assert forall|o2: u64, id2: u64|
                        #[trigger] self.contains(o2, id2) <==> (index_contains(s0, o2, id2) && !(o2
                            == owner && id2 == id)) by {
                        if index_contains(s0, o2, id2) && o2 == owner && id2 == id {
                            let j2 = choose|j2: int|
                                0 <= j2 < s0.len() && (#[trigger] s0[j2]).owner == o2
                                    && s0[j2].ids@.contains(id2);
                        }
                    }
                }
            },
        }
    }
}

} // verus!
