use cosmoscrow::engine::{execute, instantiate};
use cosmoscrow::error::ContractError;
use cosmoscrow::msg::{ExecuteMsg, InstantiateMsg, MessageInfo, QueryAnswer, QueryMsg, Response};
use cosmoscrow::query::query;
use cosmoscrow::state::{Coin, Escrow};
use cosmoscrow::store::EscrowStore;

fn coins(amount: u128, denom: &str) -> Vec<Coin> {
    vec![Coin { denom: denom.to_string(), amount }]
}

fn mock_info(sender: &str, funds: Vec<Coin>) -> MessageInfo {
    MessageInfo {
        sender: sender.to_string(),
        funds,
    }
}

fn create(
    store: &mut EscrowStore,
    creator: &str,
    beneficiary: &str,
    a1: &str,
    a2: &str,
    a3: Option<&str>,
) -> Response {
    let info = mock_info(creator, coins(1000, "ujuno"));
    let msg = ExecuteMsg::CreateEscrow {
        beneficiary: beneficiary.to_string(),
        approver1: a1.to_string(),
        approver2: a2.to_string(),
        approver3: a3.map(|s| s.to_string()),
        description: "Test escrow".to_string(),
    };
    execute(store, info, 7, msg).unwrap()
}

fn approve(store: &mut EscrowStore, sender: &str, id: u64) -> Result<Response, ContractError> {
    let info = mock_info(sender, vec![]);
    execute(store, info, 9, ExecuteMsg::ApproveRelease { escrow_id: id })
}

fn sample_escrow(a1: &str, a2: &str, a3: Option<&str>) -> Escrow {
    Escrow {
        id: 1,
        creator: "creator".to_string(),
        beneficiary: "beneficiary".to_string(),
        amount: Coin { denom: "ujuno".to_string(), amount: 1000 },
        approver1: a1.to_string(),
        approver2: a2.to_string(),
        approver3: a3.map(|s| s.to_string()),
        description: "d".to_string(),
        approvals: vec![],
        is_completed: false,
        created_at: 7,
        completed_at: None,
    }
}

#[test]
fn quorum_follows_distinct_approver_count() {
    let one = sample_escrow("alice", "alice", None);
    assert_eq!(one.total_approvers(), 1);
    assert_eq!(one.required_approvals(), 1);

    let one_of_three = sample_escrow("alice", "alice", Some("alice"));
    assert_eq!(one_of_three.total_approvers(), 1);
    assert_eq!(one_of_three.required_approvals(), 1);

    let two = sample_escrow("alice", "bob", None);
    assert_eq!(two.total_approvers(), 2);
    assert_eq!(two.required_approvals(), 2);

    let two_of_three = sample_escrow("alice", "bob", Some("alice"));
    assert_eq!(two_of_three.total_approvers(), 2);
    assert_eq!(two_of_three.required_approvals(), 2);

    // Three distinct approvers still need only two approvals.
    let three = sample_escrow("alice", "bob", Some("carol"));
    assert_eq!(three.total_approvers(), 3);
    assert_eq!(three.required_approvals(), 2);
}

#[test]
fn single_distinct_approver_releases_on_first_approval() {
    // Both mandatory slots name the same address: quorum is one.
    let mut store = instantiate(InstantiateMsg {});
    create(&mut store, "creator", "beneficiary", "alice", "alice", None);

    let res = approve(&mut store, "alice", 1).unwrap();
    match res {
        Response::Approved { total_approvals, released, transfer, .. } => {
            assert_eq!(total_approvals, 1);
            assert!(released);
            let t = transfer.expect("release carries the transfer");
            assert_eq!(t.to_address, "beneficiary");
            assert_eq!(t.amount.amount, 1000);
            assert_eq!(t.amount.denom, "ujuno");
        }
        other => panic!("unexpected acknowledgment {:?}", other),
    }
}

#[test]
fn repeated_slot_shrinks_quorum() {
    // approver1 == approver3: two distinct approvers although three
    // slots are filled, so the second approval releases.
    let mut store = instantiate(InstantiateMsg {});
    create(&mut store, "creator", "beneficiary", "alice", "bob", Some("alice"));

    match approve(&mut store, "alice", 1).unwrap() {
        Response::Approved { total_approvals, released, .. } => {
            assert_eq!(total_approvals, 1);
            assert!(!released);
        }
        other => panic!("unexpected acknowledgment {:?}", other),
    }
    match approve(&mut store, "bob", 1).unwrap() {
        Response::Approved { total_approvals, released, transfer, .. } => {
            assert_eq!(total_approvals, 2);
            assert!(released);
            assert!(transfer.is_some());
        }
        other => panic!("unexpected acknowledgment {:?}", other),
    }
}

#[test]
fn cancel_before_approval_refunds_creator() {
    let mut store = instantiate(InstantiateMsg {});
    create(&mut store, "creator", "beneficiary", "alice", "bob", None);

    let info = mock_info("creator", vec![]);
    let res = execute(&mut store, info, 9, ExecuteMsg::CancelEscrow { escrow_id: 1 }).unwrap();
    match res {
        Response::Cancelled { escrow_id, refunded_to, transfer } => {
            assert_eq!(escrow_id, 1);
            assert_eq!(refunded_to, "creator");
            assert_eq!(transfer.to_address, "creator");
            assert_eq!(transfer.amount.amount, 1000);
            assert_eq!(transfer.amount.denom, "ujuno");
        }
        other => panic!("unexpected acknowledgment {:?}", other),
    }

    // The record is terminal, but without a completion stamp.
    match query(&store, QueryMsg::GetEscrow { escrow_id: 1 }).unwrap() {
        QueryAnswer::Escrow(e) => {
            assert!(e.is_completed);
            assert_eq!(e.completed_at, None);
        }
        other => panic!("unexpected answer {:?}", other),
    }

    // A subsequent approval is rejected.
    let err = approve(&mut store, "alice", 1).unwrap_err();
    assert!(matches!(err, ContractError::EscrowCompleted));
}

#[test]
fn one_approval_waits_for_quorum_of_two() {
    let mut store = instantiate(InstantiateMsg {});
    create(&mut store, "creator", "beneficiary", "alice", "bob", None);

    match approve(&mut store, "alice", 1).unwrap() {
        Response::Approved { total_approvals, released, transfer, .. } => {
            assert_eq!(total_approvals, 1);
            assert!(!released);
            assert!(transfer.is_none());
        }
        other => panic!("unexpected acknowledgment {:?}", other),
    }
    match approve(&mut store, "bob", 1).unwrap() {
        Response::Approved { total_approvals, released, transfer, .. } => {
            assert_eq!(total_approvals, 2);
            assert!(released);
            assert!(transfer.is_some());
        }
        other => panic!("unexpected acknowledgment {:?}", other),
    }
}

#[test]
fn multi_denomination_funding_is_rejected_before_any_write() {
    let mut store = instantiate(InstantiateMsg {});
    let mut funds = coins(1000, "ujuno");
    funds.extend(coins(5, "uatom"));
    let info = mock_info("creator", funds);
    let msg = ExecuteMsg::CreateEscrow {
        beneficiary: "beneficiary".to_string(),
        approver1: "alice".to_string(),
        approver2: "bob".to_string(),
        approver3: None,
        description: "Test escrow".to_string(),
    };
    let err = execute(&mut store, info, 7, msg).unwrap_err();
    assert!(matches!(err, ContractError::InsufficientFunds));
    assert_eq!(store.counter, 0);

    // The counter was not consumed: the next creation takes id 1.
    match create(&mut store, "creator", "beneficiary", "alice", "bob", None) {
        Response::Created { escrow_id, .. } => assert_eq!(escrow_id, 1),
        other => panic!("unexpected acknowledgment {:?}", other),
    }
}

#[test]
fn zero_amount_funding_is_rejected() {
    let mut store = instantiate(InstantiateMsg {});
    let info = mock_info("creator", coins(0, "ujuno"));
    let msg = ExecuteMsg::CreateEscrow {
        beneficiary: "beneficiary".to_string(),
        approver1: "alice".to_string(),
        approver2: "bob".to_string(),
        approver3: None,
        description: "Test escrow".to_string(),
    };
    let err = execute(&mut store, info, 7, msg).unwrap_err();
    assert!(matches!(err, ContractError::InsufficientFunds));
}

#[test]
fn malformed_addresses_are_rejected() {
    let mut store = instantiate(InstantiateMsg {});

    let info = mock_info("creator", coins(1000, "ujuno"));
    let msg = ExecuteMsg::CreateEscrow {
        beneficiary: "BAD Address".to_string(),
        approver1: "alice".to_string(),
        approver2: "bob".to_string(),
        approver3: None,
        description: "d".to_string(),
    };
    let err = execute(&mut store, info, 7, msg).unwrap_err();
    assert!(matches!(err, ContractError::InvalidBeneficiary));

    let info = mock_info("creator", coins(1000, "ujuno"));
    let msg = ExecuteMsg::CreateEscrow {
        beneficiary: "beneficiary".to_string(),
        approver1: "alice".to_string(),
        approver2: "".to_string(),
        approver3: None,
        description: "d".to_string(),
    };
    let err = execute(&mut store, info, 7, msg).unwrap_err();
    assert!(matches!(err, ContractError::InvalidApprover));

    let info = mock_info("creator", coins(1000, "ujuno"));
    let msg = ExecuteMsg::CreateEscrow {
        beneficiary: "beneficiary".to_string(),
        approver1: "alice".to_string(),
        approver2: "bob".to_string(),
        approver3: Some("Not-Valid".to_string()),
        description: "d".to_string(),
    };
    let err = execute(&mut store, info, 7, msg).unwrap_err();
    assert!(matches!(err, ContractError::InvalidApprover));

    assert_eq!(store.counter, 0);
}

#[test]
fn double_approval_is_rejected() {
    let mut store = instantiate(InstantiateMsg {});
    create(&mut store, "creator", "beneficiary", "alice", "bob", Some("carol"));

    approve(&mut store, "alice", 1).unwrap();
    let err = approve(&mut store, "alice", 1).unwrap_err();
    assert!(matches!(err, ContractError::AlreadyApproved));
}

#[test]
fn outsiders_cannot_approve_or_cancel() {
    let mut store = instantiate(InstantiateMsg {});
    create(&mut store, "creator", "beneficiary", "alice", "bob", None);

    let err = approve(&mut store, "mallory", 1).unwrap_err();
    assert!(matches!(err, ContractError::Unauthorized));

    let info = mock_info("mallory", vec![]);
    let err = execute(&mut store, info, 9, ExecuteMsg::CancelEscrow { escrow_id: 1 }).unwrap_err();
    assert!(matches!(err, ContractError::Unauthorized));
}

#[test]
fn recorded_approval_forecloses_cancellation() {
    let mut store = instantiate(InstantiateMsg {});
    create(&mut store, "creator", "beneficiary", "alice", "bob", None);
    approve(&mut store, "alice", 1).unwrap();

    let info = mock_info("creator", vec![]);
    let err = execute(&mut store, info, 9, ExecuteMsg::CancelEscrow { escrow_id: 1 }).unwrap_err();
    assert!(matches!(err, ContractError::Unauthorized));

    // The approval stands and the escrow can still be released.
    match approve(&mut store, "bob", 1).unwrap() {
        Response::Approved { released, .. } => assert!(released),
        other => panic!("unexpected acknowledgment {:?}", other),
    }
}

#[test]
fn unknown_identifiers_are_not_found() {
    let mut store = instantiate(InstantiateMsg {});

    let err = approve(&mut store, "alice", 42).unwrap_err();
    assert!(matches!(err, ContractError::EscrowNotFound));

    let info = mock_info("creator", vec![]);
    let err = execute(&mut store, info, 9, ExecuteMsg::CancelEscrow { escrow_id: 42 }).unwrap_err();
    assert!(matches!(err, ContractError::EscrowNotFound));

    let err = query(&store, QueryMsg::GetEscrow { escrow_id: 42 }).unwrap_err();
    assert!(matches!(err, ContractError::EscrowNotFound));
}

#[test]
fn approvals_record_each_approver_once() {
    let mut store = instantiate(InstantiateMsg {});
    create(&mut store, "creator", "beneficiary", "alice", "bob", Some("carol"));
    approve(&mut store, "carol", 1).unwrap();

    match query(&store, QueryMsg::GetEscrow { escrow_id: 1 }).unwrap() {
        QueryAnswer::Escrow(e) => {
            assert_eq!(e.approvals, vec!["carol".to_string()]);
            assert!(!e.is_completed);
            assert_eq!(e.completed_at, None);
        }
        other => panic!("unexpected answer {:?}", other),
    }

    approve(&mut store, "alice", 1).unwrap();
    match query(&store, QueryMsg::GetEscrow { escrow_id: 1 }).unwrap() {
        QueryAnswer::Escrow(e) => {
            assert_eq!(e.approvals, vec!["carol".to_string(), "alice".to_string()]);
            assert!(e.is_completed);
            assert_eq!(e.completed_at, Some(9));
        }
        other => panic!("unexpected answer {:?}", other),
    }
}
