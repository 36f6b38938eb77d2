use cosmoscrow::engine::{execute, instantiate};
use cosmoscrow::error::ContractError;
use cosmoscrow::msg::{ExecuteMsg, InstantiateMsg, MessageInfo, QueryAnswer, QueryMsg, Response};
use cosmoscrow::query::query;
use cosmoscrow::state::Coin;

fn coins(amount: u128, denom: &str) -> Vec<Coin> {
    vec![Coin { denom: denom.to_string(), amount }]
}

fn mock_info(sender: &str, funds: Vec<Coin>) -> MessageInfo {
    MessageInfo {
        sender: sender.to_string(),
        funds,
    }
}

const MOCK_TIME: u64 = 1_571_797_419;

#[test]
fn proper_initialization() {
    let store = instantiate(InstantiateMsg {});
    assert_eq!(store.counter, 0);
}

#[test]
fn create_escrow_success() {
    let mut store = instantiate(InstantiateMsg {});

    // Create escrow
    let info = mock_info("creator", coins(1000, "ujuno"));
    let msg = ExecuteMsg::CreateEscrow {
        beneficiary: "beneficiary".to_string(),
        approver1: "approver1".to_string(),
        approver2: "approver2".to_string(),
        approver3: Some("approver3".to_string()),
        description: "Test escrow".to_string(),
    };

    let res = execute(&mut store, info, MOCK_TIME, msg).unwrap();
    match res {
        Response::Created {
            escrow_id,
            creator,
            beneficiary,
            amount,
            description,
        } => {
            assert_eq!(escrow_id, 1);
            assert_eq!(creator, "creator");
            assert_eq!(beneficiary, "beneficiary");
            assert_eq!(amount.amount, 1000);
            assert_eq!(amount.denom, "ujuno");
            assert_eq!(description, "Test escrow");
        }
        other => panic!("expected a creation acknowledgment, got {:?}", other),
    }
}

#[test]
fn create_escrow_insufficient_funds() {
    let mut store = instantiate(InstantiateMsg {});

    // Try to create escrow without funds
    let info = mock_info("creator", vec![]);
    let msg = ExecuteMsg::CreateEscrow {
        beneficiary: "beneficiary".to_string(),
        approver1: "approver1".to_string(),
        approver2: "approver2".to_string(),
        approver3: None,
        description: "Test escrow".to_string(),
    };

    let err = execute(&mut store, info, MOCK_TIME, msg).unwrap_err();
    assert!(matches!(err, ContractError::InsufficientFunds));
}

#[test]
fn approve_release_success() {
    let mut store = instantiate(InstantiateMsg {});

    // Create escrow; the creator fills the first approver slot.
    let info = mock_info("creator", coins(1000, "ujuno"));
    let msg = ExecuteMsg::CreateEscrow {
        beneficiary: "beneficiary".to_string(),
        approver1: "creator".to_string(),
        approver2: "approver2".to_string(),
        approver3: Some("approver3".to_string()),
        description: "Test escrow".to_string(),
    };
    let _res = execute(&mut store, info, MOCK_TIME, msg).unwrap();

    // First approval: the creator is an approver and may approve its
    // own escrow (the engine never raises a self-approval error).
    let info = mock_info("creator", vec![]);
    let msg = ExecuteMsg::ApproveRelease { escrow_id: 1 };
    let res = execute(&mut store, info, MOCK_TIME, msg).unwrap();
    match res {
        Response::Approved {
            total_approvals,
            released,
            transfer,
            ..
        } => {
            assert_eq!(total_approvals, 1);
            assert!(!released);
            assert!(transfer.is_none());
        }
        other => panic!("expected an approval acknowledgment, got {:?}", other),
    }

    // Second approval from approver2 - should trigger release
    let info = mock_info("approver2", vec![]);
    let msg = ExecuteMsg::ApproveRelease { escrow_id: 1 };
    let res = execute(&mut store, info, MOCK_TIME, msg).unwrap();
    match res {
        Response::Approved {
            total_approvals,
            released,
            transfer,
            ..
        } => {
            assert_eq!(total_approvals, 2);
            assert!(released);
            let transfer = transfer.expect("a release must carry a transfer");
            assert_eq!(transfer.to_address, "beneficiary");
            assert_eq!(transfer.amount.amount, 1000);
            assert_eq!(transfer.amount.denom, "ujuno");
        }
        other => panic!("expected an approval acknowledgment, got {:?}", other),
    }

    // The escrow is terminal now: a further approval is rejected.
    let info = mock_info("approver3", vec![]);
    let msg = ExecuteMsg::ApproveRelease { escrow_id: 1 };
    let err = execute(&mut store, info, MOCK_TIME, msg).unwrap_err();
    assert!(matches!(err, ContractError::EscrowCompleted));
}

#[test]
fn query_escrow() {
    let mut store = instantiate(InstantiateMsg {});

    // Create escrow
    let info = mock_info("creator", coins(1000, "ujuno"));
    let msg = ExecuteMsg::CreateEscrow {
        beneficiary: "beneficiary".to_string(),
        approver1: "approver1".to_string(),
        approver2: "approver2".to_string(),
        approver3: None,
        description: "Test escrow".to_string(),
    };
    let _res = execute(&mut store, info, MOCK_TIME, msg).unwrap();

    // Query escrow
    let res = query(&store, QueryMsg::GetEscrow { escrow_id: 1 }).unwrap();
    let escrow = match res {
        QueryAnswer::Escrow(e) => e,
        other => panic!("expected a single escrow, got {:?}", other),
    };

    assert_eq!(escrow.id, 1);
    assert_eq!(escrow.creator, "creator");
    assert_eq!(escrow.beneficiary, "beneficiary");
    assert_eq!(escrow.amount.amount, 1000);
    assert_eq!(escrow.amount.denom, "ujuno");
    assert_eq!(escrow.description, "Test escrow");
    assert!(!escrow.is_completed);
    assert_eq!(escrow.approvals.len(), 0);
}
