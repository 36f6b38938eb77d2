//! The durable contract state: the record table, the identifier
//! counter and the three address indexes, held together so that one
//! transition mutates them as one atomic unit of work.

use vstd::prelude::*;

use crate::index::AddressIndex;
use crate::state::Escrow;

verus! {

/// Every identifier a lookup in `idx` can yield lies in `1..=bound`.
pub open spec fn index_bounded(idx: AddressIndex, bound: u64) -> bool {
    forall|a: Seq<char>, j: int|
        0 <= j < idx.ids_of(a).len() ==> 1 <= #[trigger] idx.ids_of(a)[j] && idx.ids_of(a)[j]
            <= bound
}

/// An identifier above the bound cannot already be recorded anywhere
/// in a bounded index.
pub proof fn lemma_fresh_id_not_in_index(idx: AddressIndex, bound: u64, a: Seq<char>, id: u64)
    requires
        index_bounded(idx, bound),
        id > bound,
    ensures
        !idx.ids_of(a).contains(id),
{
    if idx.ids_of(a).contains(id) {
        let j = choose|j: int| 0 <= j < idx.ids_of(a).len() && idx.ids_of(a)[j] == id;
        assert(idx.ids_of(a)[j] <= bound);
    }
}

/// The whole persisted state of the custody mechanism.
///
/// Identifiers are dense: the record with identifier `i` sits at
/// position `i - 1` of the table, and `counter` equals the number of
/// records ever created. Records are never deleted.
#[derive(Debug)]
pub struct EscrowStore {
    /// The last identifier handed out; the next escrow gets `counter + 1`.
    pub counter: u64,
    /// The record table, in identifier order.
    pub escrows: Vec<Escrow>,
    /// Identifiers by creator address.
    pub by_creator: AddressIndex,
    /// Identifiers by beneficiary address.
    pub by_beneficiary: AddressIndex,
    /// Identifiers by approver address, deduplicated across the slots.
    pub by_approver: AddressIndex,
}

impl EscrowStore {
    /// The record stored under `id`, if any.
    pub open spec fn spec_get(self, id: u64) -> Option<Escrow> {
        if 1 <= id && id <= self.escrows@.len() {
            Some(self.escrows@[id - 1])
        } else {
            None
        }
    }

    /// Internal consistency of the whole store.
    pub open spec fn wf(self) -> bool {
        &&& self.counter as int == self.escrows@.len()
        &&& forall|i: int|
            0 <= i < self.escrows@.len() ==> (#[trigger] self.escrows@[i]).id == i + 1
        &&& forall|i: int| 0 <= i < self.escrows@.len() ==> (#[trigger] self.escrows@[i]).wf()
        &&& self.by_creator.wf()
        &&& self.by_beneficiary.wf()
        &&& self.by_approver.wf()
        &&& index_bounded(self.by_creator, self.counter)
        &&& index_bounded(self.by_beneficiary, self.counter)
        &&& index_bounded(self.by_approver, self.counter)
    }

    /// A store with the counter at zero and nothing recorded.
    pub fn new() -> (r: EscrowStore)
        ensures
            r.wf(),
            r.counter == 0,
            r.escrows@.len() == 0,
            forall|a: Seq<char>| r.by_creator.ids_of(a) == Seq::<u64>::empty(),
            forall|a: Seq<char>| r.by_beneficiary.ids_of(a) == Seq::<u64>::empty(),
            forall|a: Seq<char>| r.by_approver.ids_of(a) == Seq::<u64>::empty(),
    {
        EscrowStore {
            counter: 0,
            escrows: Vec::new(),
            by_creator: AddressIndex::new(),
            by_beneficiary: AddressIndex::new(),
            by_approver: AddressIndex::new(),
        }
    }

    /// Point lookup of the record stored under `id`.
    pub fn get(&self, id: u64) -> (r: Option<&Escrow>)
        requires
            self.wf(),
        ensures
            match r {
                Some(e) => self.spec_get(id) == Some(*e),
                None => self.spec_get(id) is None,
            },
    {
        let n = self.escrows.len();
        if 1 <= id && id <= self.counter {
            assert(id - 1 < n as int);
            let i = (id - 1) as usize;
            Some(&self.escrows[i])
        } else {
            None
        }
    }
}

} // verus!
