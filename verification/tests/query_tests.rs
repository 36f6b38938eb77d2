use cosmoscrow::engine::{execute, instantiate};
use cosmoscrow::error::ContractError;
use cosmoscrow::msg::{
    EscrowListResponse, ExecuteMsg, InstantiateMsg, MessageInfo, QueryAnswer, QueryMsg,
};
use cosmoscrow::query::query;
use cosmoscrow::state::Coin;
use cosmoscrow::store::EscrowStore;

fn coins(amount: u128, denom: &str) -> Vec<Coin> {
    vec![Coin { denom: denom.to_string(), amount }]
}

fn create(store: &mut EscrowStore, creator: &str, beneficiary: &str, a1: &str, a2: &str) {
    let info = MessageInfo {
        sender: creator.to_string(),
        funds: coins(1000, "ujuno"),
    };
    let msg = ExecuteMsg::CreateEscrow {
        beneficiary: beneficiary.to_string(),
        approver1: a1.to_string(),
        approver2: a2.to_string(),
        approver3: None,
        description: "d".to_string(),
    };
    execute(store, info, 7, msg).unwrap();
}

fn all_page(store: &EscrowStore, start_after: Option<u64>, limit: Option<u32>) -> EscrowListResponse {
    match query(store, QueryMsg::GetAllEscrows { start_after, limit }).unwrap() {
        QueryAnswer::List(l) => l,
        other => panic!("unexpected answer {:?}", other),
    }
}

fn addr_page(
    store: &EscrowStore,
    address: &str,
    start_after: Option<u64>,
    limit: Option<u32>,
) -> EscrowListResponse {
    let msg = QueryMsg::GetEscrowsByAddress {
        address: address.to_string(),
        start_after,
        limit,
    };
    match query(store, msg).unwrap() {
        QueryAnswer::List(l) => l,
        other => panic!("unexpected answer {:?}", other),
    }
}

fn ids(list: &EscrowListResponse) -> Vec<u64> {
    list.escrows.iter().map(|e| e.id).collect()
}

#[test]
fn all_escrows_default_page_is_ten() {
    let mut store = instantiate(InstantiateMsg {});
    for _ in 0..25 {
        create(&mut store, "creator", "beneficiary", "alice", "bob");
    }
    let page = all_page(&store, None, None);
    assert_eq!(ids(&page), (1..=10).collect::<Vec<u64>>());
}

#[test]
fn all_escrows_pages_chain_without_gaps_or_repeats() {
    let mut store = instantiate(InstantiateMsg {});
    for _ in 0..25 {
        create(&mut store, "creator", "beneficiary", "alice", "bob");
    }
    // Feed each page's last identifier back as the next start.
    let mut collected: Vec<u64> = vec![];
    let mut start: Option<u64> = None;
    loop {
        let page = all_page(&store, start, None);
        if page.escrows.is_empty() {
            break;
        }
        collected.extend(ids(&page));
        start = Some(page.escrows.last().unwrap().id);
    }
    assert_eq!(collected, (1..=25).collect::<Vec<u64>>());
}

#[test]
fn all_escrows_respects_start_and_limit() {
    let mut store = instantiate(InstantiateMsg {});
    for _ in 0..25 {
        create(&mut store, "creator", "beneficiary", "alice", "bob");
    }
    let page = all_page(&store, Some(20), Some(3));
    assert_eq!(ids(&page), vec![21, 22, 23]);
    let page = all_page(&store, Some(24), Some(10));
    assert_eq!(ids(&page), vec![25]);
    let page = all_page(&store, Some(25), None);
    assert!(page.escrows.is_empty());
}

#[test]
fn by_address_unions_roles_and_deduplicates() {
    let mut store = instantiate(InstantiateMsg {});
    // "carol" takes part as creator (1), beneficiary (2), approver (3),
    // and in several roles at once (4); escrow 5 does not involve her.
    create(&mut store, "carol", "beneficiary", "alice", "bob");
    create(&mut store, "creator", "carol", "alice", "bob");
    create(&mut store, "creator", "beneficiary", "carol", "bob");
    create(&mut store, "carol", "carol", "carol", "carol");
    create(&mut store, "creator", "beneficiary", "alice", "bob");

    let page = addr_page(&store, "carol", None, None);
    assert_eq!(ids(&page), vec![1, 2, 3, 4]);
}

#[test]
fn by_address_pages_chain_like_the_full_listing() {
    let mut store = instantiate(InstantiateMsg {});
    for _ in 0..12 {
        create(&mut store, "carol", "beneficiary", "alice", "bob");
    }
    let first = addr_page(&store, "carol", None, Some(5));
    assert_eq!(ids(&first), vec![1, 2, 3, 4, 5]);
    let second = addr_page(&store, "carol", Some(5), Some(5));
    assert_eq!(ids(&second), vec![6, 7, 8, 9, 10]);
    let third = addr_page(&store, "carol", Some(10), Some(5));
    assert_eq!(ids(&third), vec![11, 12]);
    let fourth = addr_page(&store, "carol", Some(12), Some(5));
    assert!(fourth.escrows.is_empty());
}

#[test]
fn empty_store_lists_nothing() {
    let store = instantiate(InstantiateMsg {});
    assert!(all_page(&store, None, None).escrows.is_empty());
    assert!(addr_page(&store, "nobody", None, None).escrows.is_empty());
}

#[test]
fn zero_limit_yields_an_empty_page() {
    let mut store = instantiate(InstantiateMsg {});
    create(&mut store, "creator", "beneficiary", "alice", "bob");
    assert!(all_page(&store, None, Some(0)).escrows.is_empty());
    assert!(addr_page(&store, "creator", None, Some(0)).escrows.is_empty());
}

#[test]
fn start_after_beyond_the_end_yields_an_empty_page() {
    let mut store = instantiate(InstantiateMsg {});
    create(&mut store, "creator", "beneficiary", "alice", "bob");
    assert!(all_page(&store, Some(u64::MAX), None).escrows.is_empty());
    assert!(addr_page(&store, "creator", Some(u64::MAX), None).escrows.is_empty());
}

#[test]
fn by_address_rejects_malformed_addresses() {
    let store = instantiate(InstantiateMsg {});
    let msg = QueryMsg::GetEscrowsByAddress {
        address: "NOT VALID".to_string(),
        start_after: None,
        limit: None,
    };
    let err = query(&store, msg).unwrap_err();
    assert!(matches!(err, ContractError::Std));
}

#[test]
fn listings_agree_on_shared_records() {
    let mut store = instantiate(InstantiateMsg {});
    create(&mut store, "carol", "beneficiary", "alice", "bob");
    create(&mut store, "creator", "carol", "alice", "bob");
    create(&mut store, "creator", "beneficiary", "alice", "bob");

    let all = all_page(&store, None, None);
    let carols = addr_page(&store, "carol", None, None);
    assert_eq!(ids(&carols), vec![1, 2]);
    for c in &carols.escrows {
        let same = all
            .escrows
            .iter()
            .find(|e| e.id == c.id)
            .expect("the full listing holds every indexed id");
        assert_eq!(same.creator, c.creator);
        assert_eq!(same.beneficiary, c.beneficiary);
        assert_eq!(same.amount.denom, c.amount.denom);
        assert_eq!(same.amount.amount, c.amount.amount);
        assert_eq!(same.approver1, c.approver1);
        assert_eq!(same.approver2, c.approver2);
        assert_eq!(same.approver3, c.approver3);
        assert_eq!(same.description, c.description);
        assert_eq!(same.approvals, c.approvals);
        assert_eq!(same.is_completed, c.is_completed);
        assert_eq!(same.created_at, c.created_at);
        assert_eq!(same.completed_at, c.completed_at);
    }
}

#[test]
fn cancellation_removes_index_entries_but_release_keeps_them() {
    let mut store = instantiate(InstantiateMsg {});
    create(&mut store, "carol", "beneficiary", "alice", "bob");
    create(&mut store, "carol", "beneficiary", "alice", "bob");

    // Release escrow 1: its index entries stay.
    let info = MessageInfo { sender: "alice".to_string(), funds: vec![] };
    execute(&mut store, info, 9, ExecuteMsg::ApproveRelease { escrow_id: 1 }).unwrap();
    let info = MessageInfo { sender: "bob".to_string(), funds: vec![] };
    execute(&mut store, info, 9, ExecuteMsg::ApproveRelease { escrow_id: 1 }).unwrap();
    assert_eq!(ids(&addr_page(&store, "carol", None, None)), vec![1, 2]);

    // Cancel escrow 2: its index entries are removed, everywhere.
    let info = MessageInfo { sender: "carol".to_string(), funds: vec![] };
    execute(&mut store, info, 9, ExecuteMsg::CancelEscrow { escrow_id: 2 }).unwrap();
    assert_eq!(ids(&addr_page(&store, "carol", None, None)), vec![1]);
    assert_eq!(ids(&addr_page(&store, "alice", None, None)), vec![1]);
    assert_eq!(ids(&addr_page(&store, "beneficiary", None, None)), vec![1]);

    // The record itself is retained in the full listing.
    assert_eq!(ids(&all_page(&store, None, None)), vec![1, 2]);
}
