//! Read-only projections over the store and the indexes.
//!
//! Queries bypass the lifecycle engine: a point lookup resolves one
//! identifier, the full listing walks the dense record table, and the
//! by-address listing unions the three index roles, deduplicates,
//! sorts, paginates and resolves.

use vstd::prelude::*;

use crate::addr::{valid_addr, validate_address};
use crate::error::ContractError;
use crate::msg::{EscrowListResponse, EscrowResponse, QueryAnswer, QueryMsg};
use crate::pagination::{
    above, ids_above, lemma_filter_strict, lemma_page_exhausts, lemma_page_strictly_sorted,
    lemma_strictly_sorted_equal, page_of, paginate_ids, sorted_distinct, strictly_sorted,
};
use crate::state::Escrow;
use crate::store::EscrowStore;

verus! {

/// The views of an optional address.
pub open spec fn opt_addr_view(a: Option<String>) -> Option<Seq<char>> {
    match a {
        Some(s) => Some(s@),
        None => None,
    }
}

/// The observable content of `r` is exactly the record `e`.
pub open spec fn is_response_of(r: EscrowResponse, e: Escrow) -> bool {
    &&& r.id == e.id
    &&& r.creator@ == e.creator@
    &&& r.beneficiary@ == e.beneficiary@
    &&& r.amount.denom@ == e.amount.denom@
    &&& r.amount.amount == e.amount.amount
    &&& r.approver1@ == e.approver1@
    &&& r.approver2@ == e.approver2@
    &&& opt_addr_view(r.approver3) == opt_addr_view(e.approver3)
    &&& r.description@ == e.description@
    &&& r.approvals.deep_view() == e.approvals.deep_view()
    &&& r.is_completed == e.is_completed
    &&& r.created_at == e.created_at
    &&& r.completed_at == e.completed_at
}

/// Two projections with the same observable content.
pub open spec fn responses_match(r1: EscrowResponse, r2: EscrowResponse) -> bool {
    &&& r1.id == r2.id
    &&& r1.creator@ == r2.creator@
    &&& r1.beneficiary@ == r2.beneficiary@
    &&& r1.amount.denom@ == r2.amount.denom@
    &&& r1.amount.amount == r2.amount.amount
    &&& r1.approver1@ == r2.approver1@
    &&& r1.approver2@ == r2.approver2@
    &&& opt_addr_view(r1.approver3) == opt_addr_view(r2.approver3)
    &&& r1.description@ == r2.description@
    &&& r1.approvals.deep_view() == r2.approvals.deep_view()
    &&& r1.is_completed == r2.is_completed
    &&& r1.created_at == r2.created_at
    &&& r1.completed_at == r2.completed_at
}

/// Every entry of `rs` is the stored record under its own identifier.
pub open spec fn resolved(store: EscrowStore, rs: Seq<EscrowResponse>) -> bool {
    forall|k: int|
        0 <= k < rs.len() ==> (store.spec_get((#[trigger] rs[k]).id) matches Some(e)
            && is_response_of(rs[k], e))
}

/// `rs` resolves the identifier listing `ids`, entry by entry.
pub open spec fn resolves_page(store: EscrowStore, ids: Seq<u64>, rs: Seq<EscrowResponse>) -> bool {
    &&& rs.len() == ids.len()
    &&& forall|i: int|
        0 <= i < ids.len() ==> (#[trigger] rs[i]).id == ids[i]
    &&& resolved(store, rs)
}

/// Every identifier ever assigned, in ascending order.
pub open spec fn all_ids(store: EscrowStore) -> Seq<u64> {
    Seq::new(store.escrows@.len(), |i: int| (i + 1) as u64)
}

/// `id` is indexed for `a` in at least one of the three roles.
pub open spec fn union_contains(store: EscrowStore, a: Seq<char>, id: u64) -> bool {
    ||| store.by_creator.ids_of(a).contains(id)
    ||| store.by_beneficiary.ids_of(a).contains(id)
    ||| store.by_approver.ids_of(a).contains(id)
}

/// The page start actually used: the given identifier, or no lower bound.
pub open spec fn start_bound(start_after: Option<u64>) -> u64 {
    match start_after {
        Some(s) => s,
        None => 0,
    }
}

/// The page size actually used: the given limit, or ten.
pub open spec fn limit_bound(limit: Option<u32>) -> int {
    match limit {
        Some(l) => l as int,
        None => 10,
    }
}

/// What the by-address listing returns: a page of at most `lim`
/// projections, each resolving an identifier indexed for `a` strictly
/// above `start`, in ascending order with no repeats, exhausting the
/// qualifying identifiers up to the page boundary.
pub open spec fn by_address_page_ok(
    store: EscrowStore,
    a: Seq<char>,
    start: u64,
    lim: int,
    rs: Seq<EscrowResponse>,
) -> bool {
    &&& rs.len() <= lim
    &&& forall|i: int|
        0 <= i < rs.len() ==> union_contains(store, a, (#[trigger] rs[i]).id) && rs[i].id > start
    &&& resolved(store, rs)
    &&& forall|i: int, j: int|
        0 <= i < j < rs.len() ==> (#[trigger] rs[i]).id < (#[trigger] rs[j]).id
    &&& forall|id: u64|
        #[trigger] union_contains(store, a, id) && id > start && (rs.len() < lim || (rs.len() > 0
            && id <= rs[rs.len() - 1].id)) ==> exists|i: int|
            0 <= i < rs.len() && (#[trigger] rs[i]).id == id
}

/// Projects one record into its query shape.
pub fn escrow_to_response(e: &Escrow) -> (r: EscrowResponse)
    ensures
        is_response_of(r, *e),
{
    let approvals = e.approvals.clone();
    proof {
        assert(approvals.deep_view() =~= e.approvals.deep_view());
    }
    EscrowResponse {
        id: e.id,
        creator: e.creator.clone(),
        beneficiary: e.beneficiary.clone(),
        amount: e.amount.dup(),
        approver1: e.approver1.clone(),
        approver2: e.approver2.clone(),
        approver3: match &e.approver3 {
            Some(a) => Some(a.clone()),
            None => None,
        },
        description: e.description.clone(),
        approvals,
        is_completed: e.is_completed,
        created_at: e.created_at,
        completed_at: e.completed_at,
    }
}

/// Point lookup of one escrow.
pub fn query_escrow(store: &EscrowStore, escrow_id: u64) -> (r: Result<
    EscrowResponse,
    ContractError,
>)
    requires
        store.wf(),
    ensures
        match store.spec_get(escrow_id) {
            Some(e) => r matches Ok(resp) && is_response_of(resp, e),
            None => r == Err::<EscrowResponse, ContractError>(ContractError::EscrowNotFound),
        },
{
    match store.get(escrow_id) {
        Some(e) => Ok(escrow_to_response(e)),
        None => Err(ContractError::EscrowNotFound),
    }
}

/// The full listing, strictly after `start_after`, at most `limit`
/// (ten when unspecified) records, in ascending identifier order.
pub fn query_all_escrows(
    store: &EscrowStore,
    start_after: Option<u64>,
    limit: Option<u32>,
) -> (r: Result<EscrowListResponse, ContractError>)
    requires
        store.wf(),
    ensures
        r matches Ok(list) && resolves_page(
            *store,
            page_of(all_ids(*store), start_bound(start_after), limit_bound(limit)),
            list.escrows@,
        ),
{
    let start: u64 = match start_after {
        Some(s) => s,
        None => 0,
    };
    let lim: usize = match limit {
        Some(l) => l as usize,
        None => 10,
    };
    let n = store.escrows.len();
    let first: usize = if start >= n as u64 {
        n
    } else {
        start as usize
    };
    let mut rs: Vec<EscrowResponse> = Vec::new();
    let mut i: usize = first;
    while i < n && rs.len() < lim
        invariant
            store.wf(),
            n == store.escrows@.len(),
            first <= i <= n,
            rs@.len() == i - first,
            rs@.len() <= lim,
            forall|j: int|
                0 <= j < rs@.len() ==> is_response_of(
                    #[trigger] rs@[j],
                    store.escrows@[first + j],
                ),
        decreases n - i,
    {
        let resp = escrow_to_response(&store.escrows[i]);
        rs.push(resp);
        i += 1;
    }
    proof {
        let ids = all_ids(*store);
        let k = first as int;
        lemma_all_ids_above(*store, start, k);
        let f = ids.skip(k);
        let page = page_of(ids, start, lim as int);
        assert(f.len() == n - k);
        if i == n {
            assert(rs@.len() == f.len());
            assert(page == f);
        } else {
            assert(rs@.len() == lim);
            assert(f.len() >= lim);
            if f.len() > lim {
                assert(page == f.take(lim as int));
            }
        }
        assert(page.len() == rs@.len());
        assert forall|j: int| 0 <= j < page.len() implies (#[trigger] rs@[j]).id == page[j] by {
            assert(page[j] == f[j]);
            assert(f[j] == ids[k + j]);
            assert(is_response_of(rs@[j], store.escrows@[k + j]));
            assert(store.escrows@[k + j].id == k + j + 1);
        }
        assert forall|j: int|
            0 <= j < rs@.len() implies (store.spec_get((#[trigger] rs@[j]).id) matches Some(e)
            && is_response_of(rs@[j], e)) by {
            assert(rs@[j].id == k + j + 1);
            assert(store.spec_get(rs@[j].id) == Some(store.escrows@[k + j]));
        }
    }
    Ok(EscrowListResponse { escrows: rs })
}

/// The identifiers above `start` are exactly the tail of the full
/// ascending listing.
proof fn lemma_all_ids_above(store: EscrowStore, start: u64, k: int)
    requires
        store.wf(),
        k == if start >= store.escrows@.len() {
            store.escrows@.len() as int
        } else {
            start as int
        },
    ensures
        ids_above(all_ids(store), start) == all_ids(store).skip(k),
{
    broadcast use vstd::seq_lib::group_filter_ensures;

    let ids = all_ids(store);
    assert(strictly_sorted(ids));
    lemma_filter_strict(ids, above(start));
    let lhs = ids_above(ids, start);
    let rhs = ids.skip(k);
    assert(strictly_sorted(rhs));
    assert forall|y: u64| lhs.contains(y) implies rhs.contains(y) by {
        let j = choose|j: int| 0 <= j < lhs.len() && lhs[j] == y;
        assert(above(start)(lhs[j]));
        ids.lemma_filter_contains_rev(above(start), y);
        let m = choose|m: int| 0 <= m < ids.len() && ids[m] == y;
        assert(y == m + 1);
        assert(y > start);
        assert(m >= k);
        assert(rhs[m - k] == y);
    }
    assert forall|y: u64| rhs.contains(y) implies lhs.contains(y) by {
        let j = choose|j: int| 0 <= j < rhs.len() && rhs[j] == y;
        assert(ids[k + j] == y);
        assert(y == k + j + 1);
        assert(y > start);
        assert(above(start)(ids[k + j]));
        ids.lemma_filter_contains(above(start), k + j);
    }
    lemma_strictly_sorted_equal(lhs, rhs);
}

/// The listing for one address: its three index roles unioned,
/// deduplicated, sorted ascending, bounded below by `start_after`,
/// truncated to `limit` (ten when unspecified), and resolved.
pub fn query_escrows_by_address(
    store: &EscrowStore,
    address: String,
    start_after: Option<u64>,
    limit: Option<u32>,
) -> (r: Result<EscrowListResponse, ContractError>)
    requires
        store.wf(),
    ensures
        valid_addr(address@) ==> (r matches Ok(list) && by_address_page_ok(
            *store,
            address@,
            start_bound(start_after),
            limit_bound(limit),
            list.escrows@,
        )),
        !valid_addr(address@) ==> r == Err::<EscrowListResponse, ContractError>(
            ContractError::Std,
        ),
{
    if !validate_address(&address) {
        return Err(ContractError::Std);
    }
    let start: u64 = match start_after {
        Some(s) => s,
        None => 0,
    };
    let lim: usize = match limit {
        Some(l) => l as usize,
        None => 10,
    };

    let ghost c = store.by_creator.ids_of(address@);
    let ghost b = store.by_beneficiary.ids_of(address@);
    let ghost ap = store.by_approver.ids_of(address@);
    let mut all: Vec<u64> = store.by_creator.get_ids(&address);
    let mut from_b = store.by_beneficiary.get_ids(&address);
    let mut from_ap = store.by_approver.get_ids(&address);
    all.append(&mut from_b);
    all.append(&mut from_ap);
    proof {
        assert(all@ =~= c + b + ap);
        assert forall|y: u64| all@.contains(y) <==> union_contains(*store, address@, y) by {
            if all@.contains(y) {
                let j = choose|j: int| 0 <= j < all@.len() && all@[j] == y;
                if j < c.len() {
                    assert(c[j] == y);
                } else if j < c.len() + b.len() {
                    assert(b[j - c.len()] == y);
                } else {
                    assert(ap[j - c.len() - b.len()] == y);
                }
            }
            if c.contains(y) {
                let j = choose|j: int| 0 <= j < c.len() && c[j] == y;
                assert(all@[j] == y);
            }
            if b.contains(y) {
                let j = choose|j: int| 0 <= j < b.len() && b[j] == y;
                assert(all@[c.len() + j] == y);
            }
            if ap.contains(y) {
                let j = choose|j: int| 0 <= j < ap.len() && ap[j] == y;
                assert(all@[c.len() + b.len() + j] == y);
            }
        }
    }

    let u = sorted_distinct(&all);
    let page = paginate_ids(&u, start, lim);
    proof {
        lemma_page_strictly_sorted(u@, start, lim as int);
    }

    let np = page.len();
    let mut rs: Vec<EscrowResponse> = Vec::new();
    let mut i: usize = 0;
    while i < np
        invariant
            store.wf(),
            np == page@.len(),
            0 <= i <= np,
            rs@.len() == i,
            strictly_sorted(u@),
            forall|y: u64| u@.contains(y) <==> union_contains(*store, address@, y),
            page@ == page_of(u@, start, lim as int),
            forall|j: int|
                0 <= j < page@.len() ==> #[trigger] page@[j] > start && u@.contains(page@[j]),
            forall|j: int|
                0 <= j < rs@.len() ==> (store.spec_get((#[trigger] rs@[j]).id) matches Some(e)
                    && is_response_of(rs@[j], e)),
            forall|j: int| 0 <= j < rs@.len() ==> (#[trigger] rs@[j]).id == page@[j],
        decreases np - i,
    {
        let id = page[i];
        proof {
            assert(page@[i as int] > start && u@.contains(page@[i as int]));
            assert(union_contains(*store, address@, id));
            if store.spec_get(id) is None {
                assert(id == 0 || id > store.counter);
                assert(false);
            }
        }
        match store.get(id) {
            Some(e) => {
                let resp = escrow_to_response(e);
                proof {
                    assert(e.id == id);
                }
                rs.push(resp);
            },
            None => {
                // cannot happen: indexed identifiers always resolve
            },
        }
        i += 1;
    }

    proof {
        broadcast use vstd::seq_lib::group_filter_ensures;

        let a = address@;
        let limi = lim as int;
        let f = ids_above(u@, start);
        lemma_filter_strict(u@, above(start));
        assert forall|id: u64|
            #[trigger] union_contains(*store, a, id) && id > start && (rs@.len() < limi || (
            rs@.len() > 0 && id <= rs@[rs@.len() - 1].id)) implies exists|i2: int|
            0 <= i2 < rs@.len() && (#[trigger] rs@[i2]).id == id by {
            assert(u@.contains(id));
            let m = choose|m: int| 0 <= m < u@.len() && u@[m] == id;
            assert(above(start)(u@[m]));
            u@.lemma_filter_contains(above(start), m);
            let w = choose|w: int| 0 <= w < f.len() && f[w] == id;
            if rs@.len() < limi {
                lemma_page_exhausts(u@, start, limi);
                assert(page@[w] == id);
                assert(rs@[w].id == id);
            } else {
                assert(rs@.len() == limi);
                assert(page@[limi - 1] == f[limi - 1]);
                assert(id <= f[limi - 1]);
                if w >= limi {
                    assert(f[limi - 1] < f[w]);
                    assert(false);
                }
                assert(page@[w] == f[w]);
                assert(rs@[w].id == id);
            }
        }
    }
    Ok(EscrowListResponse { escrows: rs })
}

/// Routes one read-only query to its projection.
pub fn query(store: &EscrowStore, msg: QueryMsg) -> (r: Result<QueryAnswer, ContractError>)
    requires
        store.wf(),
    ensures
        match msg {
            QueryMsg::GetEscrow { escrow_id } => match store.spec_get(escrow_id) {
                Some(e) => r matches Ok(QueryAnswer::Escrow(resp)) && is_response_of(resp, e),
                None => r == Err::<QueryAnswer, ContractError>(ContractError::EscrowNotFound),
            },
            QueryMsg::GetEscrowsByAddress { address, start_after, limit } => if valid_addr(
                address@,
            ) {
                r matches Ok(QueryAnswer::List(list)) && by_address_page_ok(
                    *store,
                    address@,
                    start_bound(start_after),
                    limit_bound(limit),
                    list.escrows@,
                )
            } else {
                r == Err::<QueryAnswer, ContractError>(ContractError::Std)
            },
            QueryMsg::GetAllEscrows { start_after, limit } => r matches Ok(
                QueryAnswer::List(list),
            ) && resolves_page(
                *store,
                page_of(all_ids(*store), start_bound(start_after), limit_bound(limit)),
                list.escrows@,
            ),
        },
{
    match msg {
        QueryMsg::GetEscrow { escrow_id } => match query_escrow(store, escrow_id) {
            Ok(resp) => Ok(QueryAnswer::Escrow(resp)),
            Err(e) => Err(e),
        },
        QueryMsg::GetEscrowsByAddress { address, start_after, limit } => match query_escrows_by_address(
            store,
            address,
            start_after,
            limit,
        ) {
            Ok(list) => Ok(QueryAnswer::List(list)),
            Err(e) => Err(e),
        },
        QueryMsg::GetAllEscrows { start_after, limit } => match query_all_escrows(
            store,
            start_after,
            limit,
        ) {
            Ok(list) => Ok(QueryAnswer::List(list)),
            Err(e) => Err(e),
        },
    }
}

} // verus!
