//! The custody laws, stated and proved once over the transition and
//! query specifications.

use vstd::prelude::*;

use crate::engine::{approve_error, approve_transition, cancel_error, cancel_transition};
use crate::error::ContractError;
use crate::msg::Response;
use crate::query::{is_response_of, resolved, responses_match};
use crate::msg::EscrowResponse;
use crate::state::Escrow;
use crate::store::EscrowStore;

verus! {

/// The quorum rule: one distinct approver needs one approval; two or
/// three distinct approvers need two. Three approvals are never
/// required.
pub proof fn lemma_required_approvals(e: Escrow)
    ensures
        1 <= e.approver_views().len() <= 3,
        e.approver_views().len() == 1 ==> e.spec_required() == 1,
        e.approver_views().len() == 2 ==> e.spec_required() == 2,
        e.approver_views().len() == 3 ==> e.spec_required() == 2,
        e.spec_required() <= 2,
{
    broadcast use vstd::set::group_set_axioms;

    let base = Set::empty().insert(e.approver1@).insert(e.approver2@);
    assert(1 <= base.len() <= 2);
    match e.approver3 {
        Some(a) => {
            assert(e.approver_views() == base.insert(a@));
            assert(1 <= base.insert(a@).len() <= 3);
        },
        None => {},
    }
}

/// A terminal record rejects every further approval: whoever calls,
/// approving a completed escrow fails with `EscrowCompleted`.
pub proof fn lemma_completed_forecloses_approval(store: EscrowStore, sender: Seq<char>, id: u64)
    requires
        store.spec_get(id) matches Some(e) && e.is_completed,
    ensures
        approve_error(store, sender, id) == Some(ContractError::EscrowCompleted),
{
}

/// No address approves twice: an approver already on the approvals
/// list of an open escrow fails with `AlreadyApproved`.
pub proof fn lemma_no_double_approval(store: EscrowStore, sender: Seq<char>, id: u64)
    requires
        store.spec_get(id) matches Some(e) && !e.is_completed && e.spec_is_approver(sender)
            && e.spec_has_approved(sender),
    ensures
        approve_error(store, sender, id) == Some(ContractError::AlreadyApproved),
{
}

/// Any recorded approval forecloses cancellation: once the approvals
/// list is non-empty, cancelling fails for every caller.
pub proof fn lemma_approval_forecloses_cancellation(store: EscrowStore, sender: Seq<char>, id: u64)
    requires
        store.spec_get(id) matches Some(e) && e.approvals_view().len() > 0,
    ensures
        cancel_error(store, sender, id) is Some,
{
}

/// A recorded approval is permanent under approvals: an approval
/// transition only ever appends to an approvals list, so a record
/// whose cancellation is foreclosed stays foreclosed.
pub proof fn lemma_approve_never_clears_approvals(
    pre: EscrowStore,
    post: EscrowStore,
    sender: Seq<char>,
    now: u64,
    id: u64,
    r: Result<Response, ContractError>,
    k: u64,
)
    requires
        approve_transition(pre, post, sender, now, id, r),
        pre.spec_get(k) matches Some(e) && e.approvals_view().len() > 0,
    ensures
        post.spec_get(k) matches Some(e2) && e2.approvals_view().len() >= pre.spec_get(
            k,
        ).unwrap().approvals_view().len(),
{
}

/// A recorded approval is permanent under cancellation: a cancel
/// transition never touches an approvals list, of its own record or of
/// any other.
pub proof fn lemma_cancel_never_clears_approvals(
    pre: EscrowStore,
    post: EscrowStore,
    sender: Seq<char>,
    id: u64,
    r: Result<Response, ContractError>,
    k: u64,
)
    requires
        cancel_transition(pre, post, sender, id, r),
        pre.spec_get(k) matches Some(e),
    ensures
        post.spec_get(k) matches Some(e2) && e2.approvals_view() == pre.spec_get(
            k,
        ).unwrap().approvals_view(),
{
}

/// The full listing and the by-address listing agree on content: two
/// resolved projections of the same identifier, drawn from the same
/// store, carry the same record.
pub proof fn lemma_query_agreement(
    store: EscrowStore,
    rs1: Seq<EscrowResponse>,
    rs2: Seq<EscrowResponse>,
    i: int,
    j: int,
)
    requires
        resolved(store, rs1),
        resolved(store, rs2),
        0 <= i < rs1.len(),
        0 <= j < rs2.len(),
        rs1[i].id == rs2[j].id,
    ensures
        responses_match(rs1[i], rs2[j]),
{
    assert(store.spec_get(rs1[i].id) matches Some(e) && is_response_of(rs1[i], e));
    assert(store.spec_get(rs2[j].id) matches Some(e) && is_response_of(rs2[j], e));
}

} // verus!
