//! The escrow lifecycle engine: create, approve and cancel transitions.
//!
//! Each transition is total over well-formed stores: it either returns
//! the error its specification names, leaving the store untouched, or
//! applies exactly the documented state change. The transition
//! predicates below are the authoritative statement of both.

use vstd::prelude::*;

use crate::addr::{valid_addr, validate_address};
use crate::error::ContractError;
use crate::index::{without_id, AddressIndex};
use crate::msg::{BankTransfer, ExecuteMsg, InstantiateMsg, MessageInfo, Response};
use crate::state::{Coin, Escrow};
use crate::store::{index_bounded, EscrowStore};

verus! {

/// The views of an optional address.
pub open spec fn opt_view(a: Option<String>) -> Option<Seq<char>> {
    match a {
        Some(s) => Some(s@),
        None => None,
    }
}

/// Whether `a` is one of the three (possibly coinciding) approver slots.
pub open spec fn in_slots(a: Seq<char>, a1: Seq<char>, a2: Seq<char>, a3: Option<Seq<char>>) -> bool {
    ||| a == a1
    ||| a == a2
    ||| (a3 matches Some(x) && a == x)
}

/// The error `CreateEscrow` fails with, if any, checked in order:
/// funding first, then the beneficiary, then each approver slot.
pub open spec fn create_error(
    funds: Seq<Coin>,
    beneficiary: Seq<char>,
    a1: Seq<char>,
    a2: Seq<char>,
    a3: Option<Seq<char>>,
) -> Option<ContractError> {
    if funds.len() != 1 {
        Some(ContractError::InsufficientFunds)
    } else if funds[0].amount == 0 {
        Some(ContractError::InsufficientFunds)
    } else if !valid_addr(beneficiary) {
        Some(ContractError::InvalidBeneficiary)
    } else if !valid_addr(a1) {
        Some(ContractError::InvalidApprover)
    } else if !valid_addr(a2) {
        Some(ContractError::InvalidApprover)
    } else if a3 matches Some(x) && !valid_addr(x) {
        Some(ContractError::InvalidApprover)
    } else {
        None
    }
}

/// The error `ApproveRelease` fails with, if any, checked in order:
/// existence, terminal flag, authorization, duplicate approval.
pub open spec fn approve_error(pre: EscrowStore, sender: Seq<char>, id: u64) -> Option<
    ContractError,
> {
    match pre.spec_get(id) {
        None => Some(ContractError::EscrowNotFound),
        Some(e) => if e.is_completed {
            Some(ContractError::EscrowCompleted)
        } else if !e.spec_is_approver(sender) {
            Some(ContractError::Unauthorized)
        } else if e.spec_has_approved(sender) {
            Some(ContractError::AlreadyApproved)
        } else {
            None
        },
    }
}

/// The error `CancelEscrow` fails with, if any, checked in order:
/// existence, creator authorization, terminal flag, and then any
/// recorded approval (which forecloses cancellation, again as
/// `Unauthorized`).
pub open spec fn cancel_error(pre: EscrowStore, sender: Seq<char>, id: u64) -> Option<
    ContractError,
> {
    match pre.spec_get(id) {
        None => Some(ContractError::EscrowNotFound),
        Some(e) => if e.creator@ != sender {
            Some(ContractError::Unauthorized)
        } else if e.is_completed {
            Some(ContractError::EscrowCompleted)
        } else if e.approvals_view().len() > 0 {
            Some(ContractError::Unauthorized)
        } else {
            None
        },
    }
}

/// The record `CreateEscrow` stores: fresh identifier, empty approval
/// list, open, stamped with the creation time.
pub open spec fn is_created_record(
    e: Escrow,
    id: u64,
    creator: Seq<char>,
    beneficiary: Seq<char>,
    coin: Coin,
    a1: Seq<char>,
    a2: Seq<char>,
    a3: Option<Seq<char>>,
    desc: Seq<char>,
    now: u64,
) -> bool {
    &&& e.id == id
    &&& e.creator@ == creator
    &&& e.beneficiary@ == beneficiary
    &&& e.amount.denom@ == coin.denom@
    &&& e.amount.amount == coin.amount
    &&& e.approver1@ == a1
    &&& e.approver2@ == a2
    &&& opt_view(e.approver3) == a3
    &&& e.description@ == desc
    &&& e.approvals@.len() == 0
    &&& !e.is_completed
    &&& e.created_at == now
    &&& e.completed_at is None
}

/// The index for `key` gains exactly `id`; every other address is
/// untouched.
pub open spec fn index_after_add(
    pre: AddressIndex,
    post: AddressIndex,
    key: Seq<char>,
    id: u64,
) -> bool {
    &&& post.ids_of(key) == pre.ids_of(key).push(id)
    &&& forall|a: Seq<char>| a != key ==> post.ids_of(a) == pre.ids_of(a)
}

/// Each distinct approver slot gains exactly `id`; every other address
/// is untouched.
pub open spec fn approver_index_after_add(
    pre: AddressIndex,
    post: AddressIndex,
    a1: Seq<char>,
    a2: Seq<char>,
    a3: Option<Seq<char>>,
    id: u64,
) -> bool {
    &&& forall|a: Seq<char>|
        in_slots(a, a1, a2, a3) ==> post.ids_of(a) == pre.ids_of(a).push(id)
    &&& forall|a: Seq<char>| !in_slots(a, a1, a2, a3) ==> post.ids_of(a) == pre.ids_of(a)
}

/// The index for `key` loses every occurrence of `id`; every other
/// address is untouched.
pub open spec fn index_after_remove(
    pre: AddressIndex,
    post: AddressIndex,
    key: Seq<char>,
    id: u64,
) -> bool {
    &&& post.ids_of(key) == pre.ids_of(key).filter(without_id(id))
    &&& forall|a: Seq<char>| a != key ==> post.ids_of(a) == pre.ids_of(a)
}

/// Each distinct approver slot loses every occurrence of `id`; every
/// other address is untouched.
pub open spec fn approver_index_after_remove(
    pre: AddressIndex,
    post: AddressIndex,
    a1: Seq<char>,
    a2: Seq<char>,
    a3: Option<Seq<char>>,
    id: u64,
) -> bool {
    &&& forall|a: Seq<char>|
        in_slots(a, a1, a2, a3) ==> post.ids_of(a) == pre.ids_of(a).filter(without_id(id))
    &&& forall|a: Seq<char>| !in_slots(a, a1, a2, a3) ==> post.ids_of(a) == pre.ids_of(a)
}

/// What `CreateEscrow` does: either the named error and no state
/// change, or a fresh record appended, all three indexes extended, and
/// the creation acknowledged. No transfer happens at creation.
pub open spec fn create_transition(
    pre: EscrowStore,
    post: EscrowStore,
    sender: Seq<char>,
    funds: Seq<Coin>,
    now: u64,
    beneficiary: Seq<char>,
    a1: Seq<char>,
    a2: Seq<char>,
    a3: Option<Seq<char>>,
    desc: Seq<char>,
    r: Result<Response, ContractError>,
) -> bool {
    match create_error(funds, beneficiary, a1, a2, a3) {
        Some(e) => r == Err::<Response, ContractError>(e) && post == pre,
        None => {
            let id = (pre.counter + 1) as u64;
            &&& post.counter == pre.counter + 1
            &&& post.escrows@.len() == pre.escrows@.len() + 1
            &&& forall|i: int|
                0 <= i < pre.escrows@.len() ==> post.escrows@[i] == pre.escrows@[i]
            &&& is_created_record(
                post.escrows@.last(),
                id,
                sender,
                beneficiary,
                funds[0],
                a1,
                a2,
                a3,
                desc,
                now,
            )
            &&& index_after_add(pre.by_creator, post.by_creator, sender, id)
            &&& index_after_add(pre.by_beneficiary, post.by_beneficiary, beneficiary, id)
            &&& approver_index_after_add(pre.by_approver, post.by_approver, a1, a2, a3, id)
            &&& (r matches Ok(
                Response::Created { escrow_id, creator, beneficiary: b, amount, description },
            ) && escrow_id == id && creator@ == sender && b@ == beneficiary && amount.denom@
                == funds[0].denom@ && amount.amount == funds[0].amount && description@ == desc)
        },
    }
}

/// How an approved record relates to its predecessor: the caller is
/// appended to the approvals, the terminal flag and completion time are
/// set exactly when quorum is reached, and nothing else moves.
pub open spec fn is_approved_record(
    e: Escrow,
    ne: Escrow,
    sender: Seq<char>,
    now: u64,
    released: bool,
) -> bool {
    &&& ne.id == e.id
    &&& ne.creator == e.creator
    &&& ne.beneficiary == e.beneficiary
    &&& ne.amount == e.amount
    &&& ne.approver1 == e.approver1
    &&& ne.approver2 == e.approver2
    &&& ne.approver3 == e.approver3
    &&& ne.description == e.description
    &&& ne.approvals_view() == e.approvals_view().push(sender)
    &&& ne.is_completed == released
    &&& ne.completed_at == (if released {
        Some(now)
    } else {
        e.completed_at
    })
    &&& ne.created_at == e.created_at
}

/// The transfer instruction carried by an approval acknowledgment:
/// present, and paying the full amount to the beneficiary, exactly when
/// this approval released the funds.
pub open spec fn approve_transfer_matches(t: Option<BankTransfer>, released: bool, e: Escrow) -> bool {
    if released {
        t matches Some(bt) && bt.to_address@ == e.beneficiary@ && bt.amount.denom@
            == e.amount.denom@ && bt.amount.amount == e.amount.amount
    } else {
        t is None
    }
}

/// What `ApproveRelease` does: either the named error and no state
/// change, or the one record updated per `is_approved_record`, the
/// indexes untouched, and the approval acknowledged with a transfer
/// instruction exactly on release.
pub open spec fn approve_transition(
    pre: EscrowStore,
    post: EscrowStore,
    sender: Seq<char>,
    now: u64,
    id: u64,
    r: Result<Response, ContractError>,
) -> bool {
    match approve_error(pre, sender, id) {
        Some(err) => r == Err::<Response, ContractError>(err) && post == pre,
        None => {
            let e = pre.spec_get(id).unwrap();
            let released = e.approvals_view().len() + 1 >= e.spec_required();
            &&& post.counter == pre.counter
            &&& post.escrows@.len() == pre.escrows@.len()
            &&& forall|i: int|
                0 <= i < pre.escrows@.len() && i != id - 1 ==> post.escrows@[i]
                    == pre.escrows@[i]
            &&& is_approved_record(e, post.escrows@[id - 1], sender, now, released)
            &&& post.by_creator == pre.by_creator
            &&& post.by_beneficiary == pre.by_beneficiary
            &&& post.by_approver == pre.by_approver
            &&& (r matches Ok(
                Response::Approved { escrow_id, approver, total_approvals, released: rel, transfer },
            ) && escrow_id == id && approver@ == sender && total_approvals == e.approvals_view().len()
                + 1 && rel == released && approve_transfer_matches(transfer, released, e))
        },
    }
}

/// How a cancelled record relates to its predecessor: the terminal flag
/// is set, the completion time is not (that is the release path's
/// stamp), and nothing else moves.
pub open spec fn is_cancelled_record(e: Escrow, ne: Escrow) -> bool {
    &&& ne.id == e.id
    &&& ne.creator == e.creator
    &&& ne.beneficiary == e.beneficiary
    &&& ne.amount == e.amount
    &&& ne.approver1 == e.approver1
    &&& ne.approver2 == e.approver2
    &&& ne.approver3 == e.approver3
    &&& ne.description == e.description
    &&& ne.approvals_view() == e.approvals_view()
    &&& ne.is_completed
    &&& ne.completed_at == e.completed_at
    &&& ne.created_at == e.created_at
}

/// What `CancelEscrow` does: either the named error and no state
/// change, or the record closed, its identifier struck from all three
/// indexes, and the full amount refunded to the creator.
pub open spec fn cancel_transition(
    pre: EscrowStore,
    post: EscrowStore,
    sender: Seq<char>,
    id: u64,
    r: Result<Response, ContractError>,
) -> bool {
    match cancel_error(pre, sender, id) {
        Some(err) => r == Err::<Response, ContractError>(err) && post == pre,
        None => {
            let e = pre.spec_get(id).unwrap();
            &&& post.counter == pre.counter
            &&& post.escrows@.len() == pre.escrows@.len()
            &&& forall|i: int|
                0 <= i < pre.escrows@.len() && i != id - 1 ==> post.escrows@[i]
                    == pre.escrows@[i]
            &&& is_cancelled_record(e, post.escrows@[id - 1])
            &&& index_after_remove(pre.by_creator, post.by_creator, e.creator@, id)
            &&& index_after_remove(pre.by_beneficiary, post.by_beneficiary, e.beneficiary@, id)
            &&& approver_index_after_remove(
                pre.by_approver,
                post.by_approver,
                e.approver1@,
                e.approver2@,
                opt_view(e.approver3),
                id,
            )
            &&& (r matches Ok(Response::Cancelled { escrow_id, refunded_to, transfer })
                && escrow_id == id && refunded_to@ == e.creator@ && transfer.to_address@
                == e.creator@ && transfer.amount.denom@ == e.amount.denom@
                && transfer.amount.amount == e.amount.amount)
        },
    }
}

/// Sets up the custody mechanism: a zeroed counter and empty tables.
pub fn instantiate(_msg: InstantiateMsg) -> (r: EscrowStore)
    ensures
        r.wf(),
        r.counter == 0,
        r.escrows@.len() == 0,
        forall|a: Seq<char>| r.by_creator.ids_of(a) == Seq::<u64>::empty(),
        forall|a: Seq<char>| r.by_beneficiary.ids_of(a) == Seq::<u64>::empty(),
        forall|a: Seq<char>| r.by_approver.ids_of(a) == Seq::<u64>::empty(),
{
    EscrowStore::new()
}

/// Routes one inbound command to its transition.
pub fn execute(store: &mut EscrowStore, info: MessageInfo, now: u64, msg: ExecuteMsg) -> (r:
    Result<Response, ContractError>)
    requires
        old(store).wf(),
        msg matches ExecuteMsg::CreateEscrow { .. } ==> old(store).counter < u64::MAX,
    ensures
        final(store).wf(),
        match msg {
            ExecuteMsg::CreateEscrow { beneficiary, approver1, approver2, approver3, description } => create_transition(
                *old(store),
                *final(store),
                info.sender@,
                info.funds@,
                now,
                beneficiary@,
                approver1@,
                approver2@,
                opt_view(approver3),
                description@,
                r,
            ),
            ExecuteMsg::ApproveRelease { escrow_id } => approve_transition(
                *old(store),
                *final(store),
                info.sender@,
                now,
                escrow_id,
                r,
            ),
            ExecuteMsg::CancelEscrow { escrow_id } => cancel_transition(
                *old(store),
                *final(store),
                info.sender@,
                escrow_id,
                r,
            ),
        },
{
    match msg {
        ExecuteMsg::CreateEscrow { beneficiary, approver1, approver2, approver3, description } => {
            execute_create_escrow(
                store,
                info,
                now,
                beneficiary,
                approver1,
                approver2,
                approver3,
                description,
            )
        },
        ExecuteMsg::ApproveRelease { escrow_id } => {
            execute_approve_release(store, info, now, escrow_id)
        },
        ExecuteMsg::CancelEscrow { escrow_id } => {
            execute_cancel_escrow(store, info, now, escrow_id)
        },
    }
}

/// Creates an escrow from the attached funds.
///
/// Exactly one coin of positive quantity must be attached, and every
/// given address must be well-formed; the beneficiary may coincide with
/// any approver, and approver slots may repeat (which shrinks the
/// effective quorum). The record is stored open, and the creator,
/// beneficiary and each distinct approver are indexed.
pub fn execute_create_escrow(
    store: &mut EscrowStore,
    info: MessageInfo,
    now: u64,
    beneficiary: String,
    approver1: String,
    approver2: String,
    approver3: Option<String>,
    description: String,
) -> (r: Result<Response, ContractError>)
    requires
        old(store).wf(),
        old(store).counter < u64::MAX,
    ensures
        final(store).wf(),
        create_transition(
            *old(store),
            *final(store),
            info.sender@,
            info.funds@,
            now,
            beneficiary@,
            approver1@,
            approver2@,
            opt_view(approver3),
            description@,
            r,
        ),
{
    let ghost pre = *store;
    if info.funds.len() != 1 {
        return Err(ContractError::InsufficientFunds);
    }
    let amount = info.funds[0].dup();
    if amount.amount == 0 {
        return Err(ContractError::InsufficientFunds);
    }
    if !validate_address(&beneficiary) {
        return Err(ContractError::InvalidBeneficiary);
    }
    if !validate_address(&approver1) {
        return Err(ContractError::InvalidApprover);
    }
    if !validate_address(&approver2) {
        return Err(ContractError::InvalidApprover);
    }
    match &approver3 {
        Some(a) => {
            if !validate_address(a) {
                return Err(ContractError::InvalidApprover);
            }
        },
        None => {},
    }

    let escrow_id = store.counter + 1;
    store.counter = escrow_id;

    proof {
        crate::store::lemma_fresh_id_not_in_index(
            pre.by_creator,
            pre.counter,
            info.sender@,
            escrow_id,
        );
        crate::store::lemma_fresh_id_not_in_index(
            pre.by_beneficiary,
            pre.counter,
            beneficiary@,
            escrow_id,
        );
    }
    store.by_creator.add(&info.sender, escrow_id);
    store.by_beneficiary.add(&beneficiary, escrow_id);

    proof {
        crate::store::lemma_fresh_id_not_in_index(
            pre.by_approver,
            pre.counter,
            approver1@,
            escrow_id,
        );
    }
    store.by_approver.add(&approver1, escrow_id);
    if !(approver2 == approver1) {
        proof {
            crate::store::lemma_fresh_id_not_in_index(
                pre.by_approver,
                pre.counter,
                approver2@,
                escrow_id,
            );
        }
        store.by_approver.add(&approver2, escrow_id);
    }
    match &approver3 {
        Some(a3) => {
            if !(*a3 == approver1) && !(*a3 == approver2) {
                proof {
                    crate::store::lemma_fresh_id_not_in_index(
                        pre.by_approver,
                        pre.counter,
                        a3@,
                        escrow_id,
                    );
                }
                store.by_approver.add(a3, escrow_id);
            }
        },
        None => {},
    }

    proof {
        let ghost a3v = opt_view(approver3);
        assert forall|a: Seq<char>| in_slots(a, approver1@, approver2@, a3v) implies store
            .by_approver.ids_of(a) == pre.by_approver.ids_of(a).push(escrow_id) by {};
        assert forall|a: Seq<char>| !in_slots(a, approver1@, approver2@, a3v) implies store
            .by_approver.ids_of(a) == pre.by_approver.ids_of(a) by {};
    }

    let record = Escrow {
        id: escrow_id,
        creator: info.sender.clone(),
        beneficiary: beneficiary.clone(),
        amount: amount.dup(),
        approver1,
        approver2,
        approver3,
        description: description.clone(),
        approvals: Vec::new(),
        is_completed: false,
        created_at: now,
        completed_at: None,
    };
    store.escrows.push(record);

    proof {
        assert(index_bounded(store.by_creator, store.counter)) by {
            lemma_bounded_after_extend(pre.by_creator, store.by_creator, pre.counter, escrow_id);
        }
        assert(index_bounded(store.by_beneficiary, store.counter)) by {
            lemma_bounded_after_extend(
                pre.by_beneficiary,
                store.by_beneficiary,
                pre.counter,
                escrow_id,
            );
        }
        assert(index_bounded(store.by_approver, store.counter)) by {
            lemma_bounded_after_extend(pre.by_approver, store.by_approver, pre.counter, escrow_id);
        }
    }

    Ok(
        Response::Created {
            escrow_id,
            creator: info.sender,
            beneficiary,
            amount,
            description,
        },
    )
}

/// Every lookup in `post` is a lookup in `pre`, possibly extended by
/// the fresh identifier; so `post` is bounded by that identifier.
proof fn lemma_bounded_after_extend(pre: AddressIndex, post: AddressIndex, bound: u64, id: u64)
    requires
        index_bounded(pre, bound),
        bound < id,
        forall|a: Seq<char>|
            (#[trigger] post.ids_of(a)) == pre.ids_of(a) || post.ids_of(a) == pre.ids_of(a).push(
                id,
            ),
    ensures
        index_bounded(post, id),
{
    assert forall|a: Seq<char>, j: int| 0 <= j < post.ids_of(a).len() implies 1 <= #[trigger] post
        .ids_of(a)[j] && post.ids_of(a)[j] <= id by {
        if post.ids_of(a) == pre.ids_of(a) {
            assert(1 <= pre.ids_of(a)[j] && pre.ids_of(a)[j] <= bound);
        } else {
            if j < pre.ids_of(a).len() {
                assert(1 <= pre.ids_of(a)[j] && pre.ids_of(a)[j] <= bound);
            }
        }
    }
}

/// Records one approval, releasing the funds when quorum is reached.
pub fn execute_approve_release(
    store: &mut EscrowStore,
    info: MessageInfo,
    now: u64,
    escrow_id: u64,
) -> (r: Result<Response, ContractError>)
    requires
        old(store).wf(),
    ensures
        final(store).wf(),
        approve_transition(*old(store), *final(store), info.sender@, now, escrow_id, r),
{
    let ghost pre = *store;
    let n = store.escrows.len();
    if escrow_id == 0 || escrow_id > store.counter {
        return Err(ContractError::EscrowNotFound);
    }
    assert(escrow_id - 1 < n as int);
    let idx = (escrow_id - 1) as usize;

    let e = &store.escrows[idx];
    if e.is_completed {
        return Err(ContractError::EscrowCompleted);
    }
    if !e.is_approver(&info.sender) {
        return Err(ContractError::Unauthorized);
    }
    if e.has_approved(&info.sender) {
        return Err(ContractError::AlreadyApproved);
    }

    let mut approvals = e.approvals.clone();
    assert(approvals@ =~= e.approvals@);
    approvals.push(info.sender.clone());
    let total = approvals.len();
    let needed = e.required_approvals();
    let released = total >= needed;

    let transfer: Option<BankTransfer> = if released {
        Some(BankTransfer { to_address: e.beneficiary.clone(), amount: e.amount.dup() })
    } else {
        None
    };

    let ne = Escrow {
        id: e.id,
        creator: e.creator.clone(),
        beneficiary: e.beneficiary.clone(),
        amount: e.amount.dup(),
        approver1: e.approver1.clone(),
        approver2: e.approver2.clone(),
        approver3: match &e.approver3 {
            Some(a) => Some(a.clone()),
            None => None,
        },
        description: e.description.clone(),
        approvals,
        is_completed: released,
        created_at: e.created_at,
        completed_at: if released {
            Some(now)
        } else {
            e.completed_at
        },
    };
    let response = Response::Approved {
        escrow_id,
        approver: info.sender.clone(),
        total_approvals: total as u64,
        released,
        transfer,
    };

    proof {
        assert(ne.approvals_view() =~= pre.escrows@[escrow_id - 1].approvals_view().push(
            info.sender@,
        ));
    }
    store.escrows.set(idx, ne);

    proof {
        let olde = pre.escrows@[escrow_id - 1];
        let newe = store.escrows@[escrow_id - 1];
        assert(newe.wf()) by {
            assert forall|i: int|
                0 <= i < newe.approvals_view().len() implies newe.spec_is_approver(
                #[trigger] newe.approvals_view()[i],
            ) by {
                if i < olde.approvals_view().len() {
                    assert(olde.spec_is_approver(olde.approvals_view()[i]));
                }
            }
            assert(newe.approvals_view().no_duplicates());
        }
    }

    Ok(response)
}

/// Cancels an open, unapproved escrow and refunds its creator.
pub fn execute_cancel_escrow(
    store: &mut EscrowStore,
    info: MessageInfo,
    _now: u64,
    escrow_id: u64,
) -> (r: Result<Response, ContractError>)
    requires
        old(store).wf(),
    ensures
        final(store).wf(),
        cancel_transition(*old(store), *final(store), info.sender@, escrow_id, r),
{
    let ghost pre = *store;
    let n = store.escrows.len();
    if escrow_id == 0 || escrow_id > store.counter {
        return Err(ContractError::EscrowNotFound);
    }
    assert(escrow_id - 1 < n as int);
    let idx = (escrow_id - 1) as usize;

    let e = &store.escrows[idx];
    if !(e.creator == info.sender) {
        return Err(ContractError::Unauthorized);
    }
    if e.is_completed {
        return Err(ContractError::EscrowCompleted);
    }
    if e.approvals.len() > 0 {
        return Err(ContractError::Unauthorized);
    }

    let creator = e.creator.clone();
    let beneficiary = e.beneficiary.clone();
    let approver1 = e.approver1.clone();
    let approver2 = e.approver2.clone();
    let approver3 = match &e.approver3 {
        Some(a) => Some(a.clone()),
        None => None,
    };

    let ne = Escrow {
        id: e.id,
        creator: e.creator.clone(),
        beneficiary: e.beneficiary.clone(),
        amount: e.amount.dup(),
        approver1: e.approver1.clone(),
        approver2: e.approver2.clone(),
        approver3: match &e.approver3 {
            Some(a) => Some(a.clone()),
            None => None,
        },
        description: e.description.clone(),
        approvals: e.approvals.clone(),
        is_completed: true,
        created_at: e.created_at,
        completed_at: e.completed_at,
    };
    let transfer = BankTransfer { to_address: e.creator.clone(), amount: e.amount.dup() };

    proof {
        assert(ne.approvals_view() =~= pre.escrows@[escrow_id - 1].approvals_view());
    }
    store.escrows.set(idx, ne);

    store.by_creator.remove(&creator, escrow_id);
    store.by_beneficiary.remove(&beneficiary, escrow_id);

    store.by_approver.remove(&approver1, escrow_id);
    if !(approver2 == approver1) {
        store.by_approver.remove(&approver2, escrow_id);
    }
    match &approver3 {
        Some(a3) => {
            if !(*a3 == approver1) && !(*a3 == approver2) {
                store.by_approver.remove(a3, escrow_id);
            }
        },
        None => {},
    }

    proof {
        let olde = pre.escrows@[escrow_id - 1];
        let a3v = opt_view(olde.approver3);
        assert forall|a: Seq<char>|
            in_slots(a, olde.approver1@, olde.approver2@, a3v) implies store.by_approver.ids_of(a)
            == pre.by_approver.ids_of(a).filter(without_id(escrow_id)) by {};
        assert forall|a: Seq<char>|
            !in_slots(a, olde.approver1@, olde.approver2@, a3v) implies store.by_approver.ids_of(a)
            == pre.by_approver.ids_of(a) by {};
        assert(index_bounded(store.by_creator, store.counter)) by {
            lemma_bounded_after_filter(pre.by_creator, store.by_creator, pre.counter, escrow_id);
        }
        assert(index_bounded(store.by_beneficiary, store.counter)) by {
            lemma_bounded_after_filter(
                pre.by_beneficiary,
                store.by_beneficiary,
                pre.counter,
                escrow_id,
            );
        }
        assert(index_bounded(store.by_approver, store.counter)) by {
            lemma_bounded_after_filter(pre.by_approver, store.by_approver, pre.counter, escrow_id);
        }
    }

    Ok(Response::Cancelled { escrow_id, refunded_to: creator, transfer })
}

/// Every lookup in `post` is a lookup in `pre`, possibly with one
/// identifier struck out; so `pre`'s bound still holds.
proof fn lemma_bounded_after_filter(pre: AddressIndex, post: AddressIndex, bound: u64, id: u64)
    requires
        index_bounded(pre, bound),
        forall|a: Seq<char>|
            (#[trigger] post.ids_of(a)) == pre.ids_of(a) || post.ids_of(a) == pre.ids_of(
                a,
            ).filter(without_id(id)),
    ensures
        index_bounded(post, bound),
{
    assert forall|a: Seq<char>, j: int| 0 <= j < post.ids_of(a).len() implies 1 <= #[trigger] post
        .ids_of(a)[j] && post.ids_of(a)[j] <= bound by {
        if post.ids_of(a) == pre.ids_of(a) {
            assert(1 <= pre.ids_of(a)[j] && pre.ids_of(a)[j] <= bound);
        } else {
            let f = pre.ids_of(a).filter(without_id(id));
            assert(f.contains(f[j]));
            pre.ids_of(a).lemma_filter_contains_rev(without_id(id), f[j]);
            let k = choose|k: int|
                0 <= k < pre.ids_of(a).len() && pre.ids_of(a)[k] == f[j];
            assert(1 <= pre.ids_of(a)[k] && pre.ids_of(a)[k] <= bound);
        }
    }
}

} // verus!
