//! Secondary indexes: address to the escrow identifiers it takes part in.
//!
//! One `AddressIndex` serves one role (creator, beneficiary or
//! approver). It is an association list keyed by address, with
//! idempotent add and remove; an address that was never seen maps to
//! the empty identifier list.

use vstd::prelude::*;

verus! {

/// Keeps every identifier other than `id`; the shape a removal leaves.
pub open spec fn without_id(id: u64) -> spec_fn(u64) -> bool {
    |x: u64| x != id
}

/// One address and the identifiers recorded for it.
#[derive(Debug)]
pub struct IndexEntry {
    pub addr: String,
    pub ids: Vec<u64>,
}

/// The identifier list recorded for `a`, reading entries front to back.
pub open spec fn lookup(entries: Seq<IndexEntry>, a: Seq<char>) -> Seq<u64>
    decreases entries.len(),
{
    if entries.len() == 0 {
        Seq::empty()
    } else if entries[0].addr@ == a {
        entries[0].ids@
    } else {
        lookup(entries.drop_first(), a)
    }
}

/// A set of escrow identifiers per address, for one participation role.
#[derive(Debug)]
pub struct AddressIndex {
    pub entries: Vec<IndexEntry>,
}

impl AddressIndex {
    /// The identifiers recorded for `a`; empty if `a` was never seen.
    pub open spec fn ids_of(self, a: Seq<char>) -> Seq<u64> {
        lookup(self.entries@, a)
    }

    /// Addresses keyed at most once, and no identifier listed twice.
    pub open spec fn wf(self) -> bool {
        &&& forall|i: int, j: int|
            0 <= i < j < self.entries@.len() ==> (#[trigger] self.entries@[i]).addr@ != (
            #[trigger] self.entries@[j]).addr@
        &&& forall|i: int|
            0 <= i < self.entries@.len() ==> (#[trigger] self.entries@[i]).ids@.no_duplicates()
    }

    /// An index with no entries.
    pub fn new() -> (r: AddressIndex)
        ensures
            r.wf(),
            forall|a: Seq<char>| r.ids_of(a) == Seq::<u64>::empty(),
    {
        AddressIndex { entries: Vec::new() }
    }

    /// The position of the entry for `addr`, if there is one.
    fn find_entry(&self, addr: &String) -> (r: Option<usize>)
        ensures
            match r {
                Some(i) => i < self.entries@.len() && self.entries@[i as int].addr@ == addr@
                    && forall|j: int| 0 <= j < i ==> self.entries@[j].addr@ != addr@,
                None => forall|j: int|
                    0 <= j < self.entries@.len() ==> self.entries@[j].addr@ != addr@,
            },
    {
        let n = self.entries.len();
        let mut i: usize = 0;
        while i < n
            invariant
                n == self.entries@.len(),
                0 <= i <= n,
                forall|j: int| 0 <= j < i ==> self.entries@[j].addr@ != addr@,
            decreases n - i,
        {
            if self.entries[i].addr == *addr {
                return Some(i);
            }
            i += 1;
        }
        None
    }

    /// The identifiers recorded for `addr`; empty if `addr` was never seen.
    pub fn get_ids(&self, addr: &String) -> (r: Vec<u64>)
        ensures
            r@ == self.ids_of(addr@),
    {
        match self.find_entry(addr) {
            Some(i) => {
                proof {
                    lemma_lookup_first(self.entries@, addr@, i as int);
                }
                let ids = self.entries[i].ids.clone();
                assert(ids@ =~= self.entries@[i as int].ids@);
                ids
            },
            None => {
                proof {
                    lemma_lookup_absent(self.entries@, addr@);
                }
                Vec::new()
            },
        }
    }

    /// Records `id` for `addr`; a no-op when it is already recorded.
    pub fn add(&mut self, addr: &String, id: u64)
        requires
            old(self).wf(),
        ensures
            final(self).wf(),
            final(self).ids_of(addr@) == (if old(self).ids_of(addr@).contains(id) {
                old(self).ids_of(addr@)
            } else {
                old(self).ids_of(addr@).push(id)
            }),
            forall|a: Seq<char>| a != addr@ ==> final(self).ids_of(a) == old(self).ids_of(a),
    {
        match self.find_entry(addr) {
            Some(i) => {
                proof {
                    lemma_lookup_first(self.entries@, addr@, i as int);
                }
                let mut ids = self.entries[i].ids.clone();
                assert(ids@ =~= self.entries@[i as int].ids@);
                if !contains_id(&ids, id) {
                    ids.push(id);
                    let entry = IndexEntry { addr: self.entries[i].addr.clone(), ids };
                    let ghost pre = self.entries@;
                    self.entries.set(i, entry);
                    proof {
                        lemma_lookup_first(self.entries@, addr@, i as int);
                        assert forall|a: Seq<char>| a != addr@ implies lookup(self.entries@, a)
                            == lookup(pre, a) by {
                            lemma_lookup_update_other(pre, i as int, self.entries@[i as int], a);
                        }
                    }
                }
            },
            None => {
                proof {
                    lemma_lookup_absent(self.entries@, addr@);
                }
                let mut ids = Vec::new();
                ids.push(id);
                let entry = IndexEntry { addr: addr.clone(), ids };
                let ghost pre = self.entries@;
                self.entries.push(entry);
                proof {
                    lemma_lookup_first(self.entries@, addr@, pre.len() as int);
                    assert(self.ids_of(addr@) =~= lookup(pre, addr@).push(id));
                    assert forall|a: Seq<char>| a != addr@ implies lookup(self.entries@, a)
                        == lookup(pre, a) by {
                        lemma_lookup_push_other(pre, self.entries@[pre.len() as int], a);
                    }
                }
            },
        }
    }

    /// Strikes `id` from the list for `addr`; a no-op when it is absent.
    pub fn remove(&mut self, addr: &String, id: u64)
        requires
            old(self).wf(),
        ensures
            final(self).wf(),
            final(self).ids_of(addr@) == old(self).ids_of(addr@).filter(without_id(id)),
            forall|a: Seq<char>| a != addr@ ==> final(self).ids_of(a) == old(self).ids_of(a),
    {
        match self.find_entry(addr) {
            Some(i) => {
                proof {
                    lemma_lookup_first(self.entries@, addr@, i as int);
                }
                let ids = remove_id(&self.entries[i].ids, id);
                let entry = IndexEntry { addr: self.entries[i].addr.clone(), ids };
                let ghost pre = self.entries@;
                self.entries.set(i, entry);
                proof {
                    lemma_filter_no_duplicates(pre[i as int].ids@, without_id(id));
                    lemma_lookup_first(self.entries@, addr@, i as int);
                    assert forall|a: Seq<char>| a != addr@ implies lookup(self.entries@, a)
                        == lookup(pre, a) by {
                        lemma_lookup_update_other(pre, i as int, self.entries@[i as int], a);
                    }
                }
            },
            None => {
                proof {
                    lemma_lookup_absent(self.entries@, addr@);
                    assert(self.ids_of(addr@).filter(without_id(id)) =~= Seq::<u64>::empty());
                }
            },
        }
    }
}

/// Whether `v` holds `id`.
pub fn contains_id(v: &Vec<u64>, id: u64) -> (r: bool)
    ensures
        r == v@.contains(id),
{
    let n = v.len();
    let mut i: usize = 0;
    while i < n
        invariant
            n == v@.len(),
            0 <= i <= n,
            forall|j: int| 0 <= j < i ==> v@[j] != id,
        decreases n - i,
    {
        if v[i] == id {
            return true;
        }
        i += 1;
    }
    false
}

/// A copy of `v` with every occurrence of `id` struck out.
fn remove_id(v: &Vec<u64>, id: u64) -> (r: Vec<u64>)
    ensures
        r@ == v@.filter(without_id(id)),
{
    let n = v.len();
    let mut r: Vec<u64> = Vec::new();
    let mut i: usize = 0;
    while i < n
        invariant
            n == v@.len(),
            0 <= i <= n,
            r@ == v@.take(i as int).filter(without_id(id)),
        decreases n - i,
    {
        let ghost pre = r@;
        if !(v[i] == id) {
            r.push(v[i]);
        }
        proof {
            assert(v@.take(i + 1).drop_last() =~= v@.take(i as int));
            reveal_with_fuel(Seq::filter, 2);
            assert(v@.take(i + 1).last() == v@[i as int]);
        }
        i += 1;
    }
    proof {
        assert(v@.take(n as int) =~= v@);
    }
    r
}

/// Striking out by a predicate keeps a duplicate-free list duplicate-free.
proof fn lemma_filter_no_duplicates(s: Seq<u64>, p: spec_fn(u64) -> bool)
    requires
        s.no_duplicates(),
    ensures
        s.filter(p).no_duplicates(),
    decreases s.len(),
{
    reveal_with_fuel(Seq::filter, 2);
    if s.len() > 0 {
        lemma_filter_no_duplicates(s.drop_last(), p);
        if p(s.last()) {
            if s.drop_last().filter(p).contains(s.last()) {
                broadcast use vstd::seq_lib::group_seq_properties;

                let k = choose|k: int|
                    0 <= k < s.drop_last().filter(p).len() && s.drop_last().filter(p)[k]
                        == s.last();
                s.drop_last().lemma_filter_contains_rev(p, s.last());
                assert(s.drop_last().contains(s.last()));
                assert(false);
            }
        }
    }
}

/// When position `i` is the first entry for `a`, lookup lands on it.
proof fn lemma_lookup_first(entries: Seq<IndexEntry>, a: Seq<char>, i: int)
    requires
        0 <= i < entries.len(),
        entries[i].addr@ == a,
        forall|j: int| 0 <= j < i ==> entries[j].addr@ != a,
    ensures
        lookup(entries, a) == entries[i].ids@,
    decreases i,
{
    if i > 0 {
        assert forall|j: int| 0 <= j < i - 1 implies entries.drop_first()[j].addr@ != a by {
            assert(entries.drop_first()[j] == entries[j + 1]);
        }
        assert(entries.drop_first()[i - 1] == entries[i]);
        lemma_lookup_first(entries.drop_first(), a, i - 1);
    }
}

/// When no entry is keyed by `a`, lookup yields the empty list.
proof fn lemma_lookup_absent(entries: Seq<IndexEntry>, a: Seq<char>)
    requires
        forall|j: int| 0 <= j < entries.len() ==> entries[j].addr@ != a,
    ensures
        lookup(entries, a) == Seq::<u64>::empty(),
    decreases entries.len(),
{
    if entries.len() > 0 {
        assert forall|j: int| 0 <= j < entries.len() - 1 implies entries.drop_first()[j].addr@
            != a by {
            assert(entries.drop_first()[j] == entries[j + 1]);
        }
        lemma_lookup_absent(entries.drop_first(), a);
    }
}

/// Appending an entry for another address leaves a lookup unchanged.
proof fn lemma_lookup_push_other(entries: Seq<IndexEntry>, e: IndexEntry, a: Seq<char>)
    requires
        e.addr@ != a,
    ensures
        lookup(entries.push(e), a) == lookup(entries, a),
    decreases entries.len(),
{
    reveal_with_fuel(lookup, 3);
    if entries.len() == 0 {
        assert(entries.push(e)[0] == e);
        assert(entries.push(e).drop_first() =~= Seq::<IndexEntry>::empty());
    } else {
        assert(entries.push(e)[0] == entries[0]);
        assert(entries.push(e).drop_first() =~= entries.drop_first().push(e));
        lemma_lookup_push_other(entries.drop_first(), e, a);
    }
}

/// Replacing an entry in place, same key, leaves other lookups unchanged.
proof fn lemma_lookup_update_other(entries: Seq<IndexEntry>, i: int, e2: IndexEntry, a: Seq<char>)
    requires
        0 <= i < entries.len(),
        entries[i].addr@ == e2.addr@,
        a != e2.addr@,
    ensures
        lookup(entries.update(i, e2), a) == lookup(entries, a),
    decreases entries.len(),
{
    if i == 0 {
        assert(entries.update(i, e2)[0] == e2);
        assert(entries.update(i, e2).drop_first() =~= entries.drop_first());
    } else {
        assert(entries.update(i, e2)[0] == entries[0]);
        assert(entries.update(i, e2).drop_first() =~= entries.drop_first().update(i - 1, e2));
        lemma_lookup_update_other(entries.drop_first(), i - 1, e2, a);
    }
}

} // verus!
