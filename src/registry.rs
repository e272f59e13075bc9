use vstd::prelude::*;
use crate::types::{LockState, Nft, NftError, NftModel};

verus! {

/// Some record of `recs` carries the identifier `id`.
pub open spec fn has_id(recs: Seq<NftModel>, id: Seq<char>) -> bool {
    exists|i: int| 0 <= i < recs.len() && (#[trigger] recs[i]).id == id
}

/// The position of the record that carries `id` (meaningful when `has_id`).
pub open spec fn index_of(recs: Seq<NftModel>, id: Seq<char>) -> int {
    choose|i: int| 0 <= i < recs.len() && (#[trigger] recs[i]).id == id
}

/// The record that carries `id`, if any.
pub open spec fn lookup(recs: Seq<NftModel>, id: Seq<char>) -> Option<NftModel> {
    if has_id(recs, id) {
        Some(recs[index_of(recs, id)])
    } else {
        None
    }
}

pub open spec fn unique_ids(recs: Seq<NftModel>) -> bool {
    forall|i: int, j: int|
        0 <= i < recs.len() && 0 <= j < recs.len() && i != j ==> (#[trigger] recs[i]).id
            != (#[trigger] recs[j]).id
}

/// The registry's invariant: identifiers are unique, and every record has a
/// well-formed identifier and owner.
pub open spec fn registry_ok(recs: Seq<NftModel>) -> bool {
    &&& unique_ids(recs)
    &&& forall|i: int| 0 <= i < recs.len() ==> (#[trigger] recs[i]).valid()
}

/// What inserting `r` answers.
pub open spec fn insert_outcome(recs: Seq<NftModel>, r: NftModel) -> Result<(), NftError> {
    if has_id(recs, r.id) {
        Err(NftError::DuplicateIdentifier)
    } else {
        Ok(())
    }
}

/// The records after inserting `r`.
pub open spec fn insert_after(recs: Seq<NftModel>, r: NftModel) -> Seq<NftModel> {
    if has_id(recs, r.id) {
        recs
    } else {
        recs.push(r)
    }
}

/// Where identifiers are unique, the record at `k` is the one that `id` finds.
pub proof fn lemma_index_of(recs: Seq<NftModel>, id: Seq<char>, k: int)
    requires
        unique_ids(recs),
        0 <= k < recs.len(),
        recs[k].id == id,
    ensures
        has_id(recs, id),
        index_of(recs, id) == k,
        lookup(recs, id) == Some(recs[k]),
{
    assert(has_id(recs, id));
    let j = index_of(recs, id);
    assert(recs[j].id == id);
}

/// The registry: records in order of insertion, keyed by identifier.
pub struct NftState {
    nfts: Vec<Nft>,
}

impl View for NftState {
    type V = Seq<NftModel>;

    closed spec fn view(&self) -> Seq<NftModel> {
        self.nfts@.map_values(|n: Nft| n@)
    }
}

impl NftState {
    pub open spec fn wf(&self) -> bool {
        registry_ok(self@)
    }

    /// An empty registry.
    pub fn new() -> (r: NftState)
        ensures
            r@ == Seq::<NftModel>::empty(),
            r.wf(),
    {
        let r = NftState { nfts: Vec::new() };
        assert(r@ =~= Seq::<NftModel>::empty());
        r
    }

    /// The number of records.
    pub fn len(&self) -> (r: usize)
        ensures
            r == self@.len(),
    {
        self.nfts.len()
    }

    /// The position of the record that carries `id`.
    pub fn find(&self, id: &String) -> (r: Option<usize>)
        requires
            self.wf(),
        ensures
            r is None <==> !has_id(self@, id@),
            r matches Some(i) ==> i < self@.len() && i == index_of(self@, id@) && self@[i as int].id
                == id@,
    {
        let mut i: usize = 0;
        while i < self.nfts.len()
            invariant
                i <= self.nfts.len(),
                self.wf(),
                self@.len() == self.nfts@.len(),
                forall|j: int| 0 <= j < i ==> (#[trigger] self@[j]).id != id@,
            decreases self.nfts.len() - i,
        {
            assert(self@[i as int] == self.nfts@[i as int]@);
            if self.nfts[i].id == *id {
                proof {
                    lemma_index_of(self@, id@, i as int);
                }
                return Some(i);
            }
            i = i + 1;
        }
        None
    }

    /// A copy of the record at position `i`.
    pub fn record_at(&self, i: usize) -> (r: Nft)
        requires
            i < self@.len(),
        ensures
            r@ == self@[i as int],
    {
        self.nfts[i].duplicate()
    }

    /// A copy of the record that carries `id`, if any.
    pub fn get_nft(&self, id: &String) -> (r: Option<Nft>)
        requires
            self.wf(),
        ensures
            r is None <==> lookup(self@, id@) is None,
            r matches Some(n) ==> lookup(self@, id@) == Some(n@),
    {
        match self.find(id) {
            Some(i) => Some(self.record_at(i)),
            None => None,
        }
    }

    /// Adds `nft`, unless a record with its identifier is present.
    pub fn insert(&mut self, nft: Nft) -> (r: Result<(), NftError>)
        requires
            old(self).wf(),
            nft@.valid(),
        ensures
            final(self).wf(),
            r == insert_outcome(old(self)@, nft@),
            final(self)@ == insert_after(old(self)@, nft@),
    {
        if self.find(&nft.id).is_some() {
            return Err(NftError::DuplicateIdentifier);
        }
        let ghost before = self@;
        self.nfts.push(nft);
        assert(self@ =~= before.push(nft@));
        Ok(())
    }

    /// Gives the record at position `i` the owner `owner`.
    pub(crate) fn set_owner(&mut self, i: usize, owner: String)
        requires
            old(self).wf(),
            i < old(self)@.len(),
            crate::text::valid_principal(owner@),
        ensures
            final(self).wf(),
            final(self)@ == old(self)@.update(i as int, with_owner(old(self)@[i as int], owner@)),
    {
        let ghost before = self@;
        let mut n = self.nfts[i].duplicate();
        n.owner = owner;
        self.nfts.set(i, n);
        assert(self@ =~= before.update(i as int, with_owner(before[i as int], owner@)));
    }

    /// Gives the record at position `i` the lock state `lock`.
    pub(crate) fn set_lock(&mut self, i: usize, lock: LockState)
        requires
            old(self).wf(),
            i < old(self)@.len(),
        ensures
            final(self).wf(),
            final(self)@ == old(self)@.update(i as int, with_lock(old(self)@[i as int], lock)),
    {
        let ghost before = self@;
        let mut n = self.nfts[i].duplicate();
        n.lock_state = lock;
        self.nfts.set(i, n);
        assert(self@ =~= before.update(i as int, with_lock(before[i as int], lock)));
    }
}

/// `r` with the owner `owner`.
pub open spec fn with_owner(r: NftModel, owner: Seq<char>) -> NftModel {
    NftModel {
        id: r.id,
        owner,
        metadata: r.metadata,
        maturity: r.maturity,
        lock_state: r.lock_state,
    }
}

/// `r` with the lock state `lock`.
pub open spec fn with_lock(r: NftModel, lock: LockState) -> NftModel {
    NftModel {
        id: r.id,
        owner: r.owner,
        metadata: r.metadata,
        maturity: r.maturity,
        lock_state: lock,
    }
}

} // verus!
