use fortune_box::contract::{execute, execute_add_tokenfactory_rewards, execute_cancel_box,
    execute_create_box, execute_open_box, execute_receive_nft, execute_receive_token, instantiate,
    query, query_boxes, query_config, query_users};
use fortune_box::error::ContractError;
use fortune_box::msg::{ExecuteMsg, InstantiateMsg, NftReceiveMsg, QueryAnswer, QueryMsg,
    TokenFactoryReward, TokenReceiveMsg};
use fortune_box::draw::{build_weighted_list, u64_decimal_bytes};
use fortune_box::state::{Coin, LootboxState, RewardType};
use fortune_box::util::{check_owner, execute_update_config, transfer_token_message, TransferMsg};

use sha2::{Digest, Sha256};

fn init() -> LootboxState {
    instantiate(InstantiateMsg {
        owner: "owner".to_string(),
        native_token: "inj".to_string(),
        founder_addr: "founder".to_string(),
        dev_addr: "dev".to_string(),
    })
}

fn coins(denom: &str, amount: u128) -> Vec<Coin> {
    vec![Coin { denom: denom.to_string(), amount }]
}

fn make_box(state: &mut LootboxState, id: &str, price: u128) {
    let r = execute_create_box(
        state,
        "creator".to_string(),
        &coins("inj", 1),
        id.to_string(),
        price,
        "inj".to_string(),
        18,
        "native".to_string(),
        86400,
    );
    assert!(r.is_ok());
}

fn tf_reward(amount: u128, odds: u64, count: u64) -> TokenFactoryReward {
    TokenFactoryReward {
        id: 0,
        odds,
        token_denom: "inj".to_string(),
        token_decimals: 18,
        reward_type: RewardType::TokenFactory,
        amount,
        count,
    }
}

/// The index the deterministic draw selects for a given timestamp and pool
/// length, recomputed from first principles.
fn expected_index(time_seconds: u64, pool_len: u64) -> u64 {
    let mut hasher = Sha256::new();
    hasher.update(time_seconds.to_string());
    let digest = hasher.finalize();
    let mut bytes = [0u8; 8];
    bytes.copy_from_slice(&digest[0..8]);
    u64::from_be_bytes(bytes) % pool_len
}

#[test]
fn test() {
    let mut weighted_list = Vec::new();
    let mut rewards: Vec<_> = Vec::new();
    rewards.push(TokenFactoryReward {
        id: 1,
        token_denom: "inj".to_string(),
        amount: 10000000000000000u64 as u128,
        token_decimals: 18,
        odds: 10,
        count: 12,
        reward_type: RewardType::TokenFactory,
    });
    rewards.push(TokenFactoryReward {
        id: 2,
        token_denom: "inj".to_string(),
        amount: 1000000000000000000u64 as u128,
        token_decimals: 18,
        odds: 10,
        count: 3,
        reward_type: RewardType::TokenFactory,
    });

    for ticket_info in rewards.iter() {
        for _ in 0..ticket_info.odds {
            weighted_list.push(ticket_info.id);
        }
    }

    let random_number = 1;

    let reward_id = weighted_list[random_number as usize];
    let reward = rewards.iter().find(|x| x.id == reward_id);
    if reward.is_some() {
        let mut cnt = reward.unwrap().clone();
        cnt.count -= 1;
    }
    println!("{:}", reward.unwrap().count)
}

#[test]
fn instantiate_sets_config() {
    let state = init();
    let cfg = query_config(&state);
    assert_eq!(cfg.owner, "owner");
    assert_eq!(cfg.token, "inj");
    assert_eq!(cfg.injscribed_address, "dev");
    assert_eq!(cfg.feature_fees, 400000000000000000u128);
}

#[test]
fn create_box_conflict_id() {
    let mut state = init();
    make_box(&mut state, "b1", 100);
    let r = execute_create_box(
        &mut state,
        "creator".to_string(),
        &coins("inj", 1),
        "b1".to_string(),
        100,
        "inj".to_string(),
        18,
        "native".to_string(),
        86400,
    );
    assert_eq!(r.unwrap_err(), ContractError::ConflictID);
    assert_eq!(query_boxes(&state).boxes.len(), 1);
}

#[test]
fn create_box_featured_flag() {
    let mut state = init();
    let r = execute_create_box(
        &mut state,
        "creator".to_string(),
        &coins("inj", 400000000000000000),
        "featured".to_string(),
        100,
        "inj".to_string(),
        18,
        "native".to_string(),
        86400,
    );
    assert!(r.is_ok());
    make_box(&mut state, "plain", 100);
    let boxes = query_boxes(&state).boxes;
    assert!(boxes[0].is_featured);
    assert!(!boxes[1].is_featured);
}

#[test]
fn single_reward_depletes_and_terminates() {
    let mut state = init();
    make_box(&mut state, "b1", 100);
    let r = execute_add_tokenfactory_rewards(
        &mut state,
        &coins("inj", 30),
        &"b1".to_string(),
        vec![tf_reward(10, 10, 3)],
    );
    let resp = r.unwrap();
    assert_eq!(resp.total_rewards, 1);
    assert_eq!(resp.amount_paid, 30);
    assert_eq!(resp.total_amount, 30);
    assert_eq!(resp.total_odds, 10);

    // First open: the pool is ten identical slots, so reward 1 always wins.
    let r = execute_open_box(&mut state, &"b1".to_string(), &"alice".to_string(), &coins("inj", 100), 1700000001);
    let resp = r.unwrap();
    assert_eq!(resp.reward_id, 1);
    assert_eq!(resp.messages.len(), 3);
    match &resp.messages[0] {
        TransferMsg::Bank { denom, amount, to_address } => {
            assert_eq!(denom, "inj");
            assert_eq!(*amount, 10);
            assert_eq!(to_address, "alice");
        },
        _ => panic!("expected a bank transfer of the won unit"),
    }
    match &resp.messages[1] {
        TransferMsg::Bank { amount, to_address, .. } => {
            assert_eq!(*amount, 95);
            assert_eq!(to_address, "creator");
        },
        _ => panic!("expected the creator transfer"),
    }
    match &resp.messages[2] {
        TransferMsg::Bank { amount, to_address, .. } => {
            assert_eq!(*amount, 5);
            assert_eq!(to_address, "dev");
        },
        _ => panic!("expected the fee transfer"),
    }
    let boxes = query_boxes(&state).boxes;
    assert_eq!(boxes[0].rewards[0].count, 2);
    assert!(!boxes[0].is_over);
    let users = query_users(&state).users;
    assert_eq!(users.len(), 1);
    assert_eq!(users[0].address, "alice");
    assert_eq!(users[0].box_opened, 1);
    assert_eq!(users[0].inj_spent, 100);
    assert_eq!(users[0].rewards[0].box_id, "b1");
    assert_eq!(users[0].rewards[0].reward_ids, vec![1]);

    // Second and third opens: the count runs out and the box terminates
    // exactly once, with no sweep instructions since no other rewards exist.
    let r = execute_open_box(&mut state, &"b1".to_string(), &"alice".to_string(), &coins("inj", 100), 1700000002);
    assert_eq!(r.unwrap().messages.len(), 3);
    let r = execute_open_box(&mut state, &"b1".to_string(), &"alice".to_string(), &coins("inj", 100), 1700000003);
    let resp = r.unwrap();
    assert_eq!(resp.messages.len(), 3);
    let boxes = query_boxes(&state).boxes;
    assert_eq!(boxes[0].rewards[0].count, 0);
    assert!(boxes[0].is_over);
    let users = query_users(&state).users;
    assert_eq!(users[0].box_opened, 3);
    assert_eq!(users[0].inj_spent, 300);
    assert_eq!(users[0].rewards[0].reward_ids, vec![1, 1, 1]);
}

#[test]
fn open_terminated_box_fails() {
    let mut state = init();
    make_box(&mut state, "b1", 100);
    execute_add_tokenfactory_rewards(
        &mut state,
        &coins("inj", 10),
        &"b1".to_string(),
        vec![tf_reward(10, 10, 1)],
    )
    .unwrap();
    execute_open_box(&mut state, &"b1".to_string(), &"alice".to_string(), &coins("inj", 100), 1)
        .unwrap();
    let before = query_boxes(&state).boxes;
    assert!(before[0].is_over);
    let r = execute_open_box(&mut state, &"b1".to_string(), &"bob".to_string(), &coins("inj", 100), 2);
    assert_eq!(r.unwrap_err(), ContractError::BoxTerminated);
    let after = query_boxes(&state).boxes;
    assert_eq!(after.len(), 1);
    assert_eq!(after[0].rewards[0].count, 0);
    assert!(after[0].is_over);
    assert_eq!(query_users(&state).users.len(), 1);
}

#[test]
fn fee_split_truncates() {
    let mut state = init();
    make_box(&mut state, "b1", 103);
    execute_add_tokenfactory_rewards(
        &mut state,
        &coins("inj", 20),
        &"b1".to_string(),
        vec![tf_reward(10, 10, 2)],
    )
    .unwrap();
    let resp = execute_open_box(
        &mut state,
        &"b1".to_string(),
        &"alice".to_string(),
        &coins("inj", 103),
        7,
    )
    .unwrap();
    let (creator_amt, fee_amt) = match (&resp.messages[1], &resp.messages[2]) {
        (
            TransferMsg::Bank { amount: a, .. },
            TransferMsg::Bank { amount: b, .. },
        ) => (*a, *b),
        _ => panic!("expected two bank transfers"),
    };
    assert_eq!(fee_amt, 103 * 5 / 100);
    assert_eq!(fee_amt, 5);
    assert_eq!(creator_amt, 98);
    assert_eq!(creator_amt + fee_amt, 103);
}

#[test]
fn cancel_refunds_and_deletes() {
    let mut state = init();
    make_box(&mut state, "b1", 100);
    execute_add_tokenfactory_rewards(
        &mut state,
        &coins("inj", 70),
        &"b1".to_string(),
        vec![tf_reward(10, 10, 3), tf_reward(20, 10, 2)],
    )
    .unwrap();
    let msgs = execute_cancel_box(&mut state, &"anyone".to_string(), &"b1".to_string()).unwrap();
    assert_eq!(msgs.len(), 2);
    match &msgs[0] {
        TransferMsg::Bank { denom, amount, to_address } => {
            assert_eq!(denom, "inj");
            assert_eq!(*amount, 30);
            assert_eq!(to_address, "anyone");
        },
        _ => panic!("expected a bank refund"),
    }
    match &msgs[1] {
        TransferMsg::Bank { amount, .. } => assert_eq!(*amount, 40),
        _ => panic!("expected a bank refund"),
    }
    assert_eq!(query_boxes(&state).boxes.len(), 0);
    let r = execute_cancel_box(&mut state, &"anyone".to_string(), &"b1".to_string());
    assert_eq!(r.unwrap_err(), ContractError::BoxNotFound);
}

#[test]
fn batch_over_budget_rejected() {
    let mut state = init();
    make_box(&mut state, "b1", 100);
    execute_add_tokenfactory_rewards(
        &mut state,
        &coins("inj", 990),
        &"b1".to_string(),
        vec![tf_reward(1, 990, 1)],
    )
    .unwrap();
    let r = execute_add_tokenfactory_rewards(
        &mut state,
        &coins("inj", 40),
        &"b1".to_string(),
        vec![tf_reward(1, 10, 1), tf_reward(1, 10, 1)],
    );
    assert_eq!(
        r.unwrap_err(),
        ContractError::MaxOddsReached { current: 990, requested: 20 }
    );
    let boxes = query_boxes(&state).boxes;
    assert_eq!(boxes[0].rewards.len(), 1);
    assert_eq!(boxes[0].rewards[0].odds, 990);
}

#[test]
fn payment_failed_on_bad_funds() {
    let mut state = init();
    make_box(&mut state, "b1", 100);
    let r = execute_add_tokenfactory_rewards(
        &mut state,
        &coins("other", 10),
        &"b1".to_string(),
        vec![tf_reward(1, 10, 1)],
    );
    assert_eq!(r.unwrap_err(), ContractError::PaymentFailed);
    let r = execute_add_tokenfactory_rewards(
        &mut state,
        &Vec::new(),
        &"b1".to_string(),
        vec![tf_reward(1, 10, 1)],
    );
    assert_eq!(r.unwrap_err(), ContractError::PaymentFailed);
    let r = execute_add_tokenfactory_rewards(
        &mut state,
        &coins("inj", 0),
        &"b1".to_string(),
        vec![tf_reward(1, 10, 1)],
    );
    assert_eq!(r.unwrap_err(), ContractError::PaymentFailed);
    assert_eq!(query_boxes(&state).boxes[0].rewards.len(), 0);
}

#[test]
fn box_not_found_paths() {
    let mut state = init();
    let r = execute_open_box(&mut state, &"nope".to_string(), &"a".to_string(), &coins("inj", 1), 1);
    assert_eq!(r.unwrap_err(), ContractError::BoxNotFound);
    let r = execute_cancel_box(&mut state, &"a".to_string(), &"nope".to_string());
    assert_eq!(r.unwrap_err(), ContractError::BoxNotFound);
    let r = execute_receive_nft(
        &mut state,
        &"coll".to_string(),
        NftReceiveMsg::AddNftReward {
            box_id: "nope".to_string(),
            collection_addr: "coll".to_string(),
            nft_id: "n1".to_string(),
            odds: 5,
        },
    );
    assert_eq!(r.unwrap_err(), ContractError::BoxNotFound);
    let r = execute_add_tokenfactory_rewards(
        &mut state,
        &coins("inj", 10),
        &"nope".to_string(),
        vec![tf_reward(1, 10, 1)],
    );
    assert_eq!(r.unwrap_err(), ContractError::BoxNotFound);
}

#[test]
fn nft_reward_requires_collection_sender() {
    let mut state = init();
    make_box(&mut state, "b1", 100);
    let msg = NftReceiveMsg::AddNftReward {
        box_id: "b1".to_string(),
        collection_addr: "coll".to_string(),
        nft_id: "n1".to_string(),
        odds: 5,
    };
    let r = execute_receive_nft(&mut state, &"stranger".to_string(), msg);
    assert_eq!(r.unwrap_err(), ContractError::InvalidCw721Token);
    let msg = NftReceiveMsg::AddNftReward {
        box_id: "b1".to_string(),
        collection_addr: "coll".to_string(),
        nft_id: "n1".to_string(),
        odds: 5,
    };
    let r = execute_receive_nft(&mut state, &"coll".to_string(), msg);
    assert!(r.is_ok());
    let boxes = query_boxes(&state).boxes;
    assert_eq!(boxes[0].rewards.len(), 1);
    assert_eq!(boxes[0].rewards[0].id, 1);
    assert_eq!(boxes[0].rewards[0].reward_type, RewardType::Nft);
    assert_eq!(boxes[0].rewards[0].count, 1);
}

#[test]
fn nft_win_emits_ownership_transfer() {
    let mut state = init();
    make_box(&mut state, "b1", 100);
    execute_receive_nft(
        &mut state,
        &"coll".to_string(),
        NftReceiveMsg::AddNftReward {
            box_id: "b1".to_string(),
            collection_addr: "coll".to_string(),
            nft_id: "n1".to_string(),
            odds: 5,
        },
    )
    .unwrap();
    let resp = execute_open_box(
        &mut state,
        &"b1".to_string(),
        &"alice".to_string(),
        &coins("inj", 100),
        42,
    )
    .unwrap();
    assert_eq!(resp.reward_id, 1);
    match &resp.messages[0] {
        TransferMsg::NftTransfer { collection_addr, nft_id, recipient } => {
            assert_eq!(collection_addr, "coll");
            assert_eq!(nft_id, "n1");
            assert_eq!(recipient, "alice");
        },
        _ => panic!("expected an ownership transfer"),
    }
    assert!(query_boxes(&state).boxes[0].is_over);
}

#[test]
fn nft_odds_over_budget_rejected() {
    let mut state = init();
    make_box(&mut state, "b1", 100);
    let r = execute_receive_nft(
        &mut state,
        &"coll".to_string(),
        NftReceiveMsg::AddNftReward {
            box_id: "b1".to_string(),
            collection_addr: "coll".to_string(),
            nft_id: "n1".to_string(),
            odds: 2000,
        },
    );
    assert_eq!(
        r.unwrap_err(),
        ContractError::MaxOddsReached { current: 0, requested: 2000 }
    );
    assert_eq!(query_boxes(&state).boxes[0].rewards.len(), 0);
}

#[test]
fn receive_token_creates_then_appends() {
    let mut state = init();
    let r = execute_receive_token(
        &mut state,
        TokenReceiveMsg::CreateFortuneBoxWithCoin {
            box_id: "funded".to_string(),
            creator: "carol".to_string(),
            denom: "tokenA".to_string(),
            amount: 500,
            odds: 50,
            price: 10,
            token_denom: "inj".to_string(),
            token_decimals: 18,
            token_type: "native".to_string(),
            duration: 3600,
        },
    );
    assert!(r.is_ok());
    let boxes = query_boxes(&state).boxes;
    assert_eq!(boxes.len(), 1);
    assert_eq!(boxes[0].id, "funded");
    assert_eq!(boxes[0].creator, "carol");
    assert!(!boxes[0].is_featured);
    assert_eq!(boxes[0].rewards.len(), 1);
    assert_eq!(boxes[0].rewards[0].reward_type, RewardType::Cw20);
    assert_eq!(boxes[0].rewards[0].amount, Some(500));

    let r = execute_receive_token(
        &mut state,
        TokenReceiveMsg::CreateFortuneBoxWithCoin {
            box_id: "funded".to_string(),
            creator: "carol".to_string(),
            denom: "tokenA".to_string(),
            amount: 700,
            odds: 25,
            price: 10,
            token_denom: "inj".to_string(),
            token_decimals: 18,
            token_type: "native".to_string(),
            duration: 3600,
        },
    );
    assert!(r.is_ok());
    let boxes = query_boxes(&state).boxes;
    assert_eq!(boxes[0].rewards.len(), 2);
    assert_eq!(boxes[0].rewards[1].id, 2);
    assert_eq!(boxes[0].rewards[1].odds, 25);
}

#[test]
fn selection_follows_the_digest() {
    let mut state = init();
    make_box(&mut state, "b1", 100);
    execute_add_tokenfactory_rewards(
        &mut state,
        &coins("inj", 2),
        &"b1".to_string(),
        vec![tf_reward(1, 1, 2), tf_reward(2, 1, 2)],
    )
    .unwrap();
    // The pool is [1, 2]; the winner is fixed by the hash of the timestamp's
    // decimal text, recomputed here independently.
    for time in [1700000000u64, 1700000001, 1700000002, 1700000003, 3, 999983] {
        let k = expected_index(time, 2);
        let resp = execute_open_box(
            &mut state,
            &"b1".to_string(),
            &"alice".to_string(),
            &coins("inj", 100),
            time,
        )
        .unwrap();
        assert_eq!(resp.selection_index, k);
        assert_eq!(resp.reward_id, k + 1);
        if query_boxes(&state).boxes[0].is_over {
            break;
        }
    }
}

#[test]
fn termination_sweeps_other_rewards() {
    let mut state = init();
    make_box(&mut state, "b1", 100);
    // One certain winner (odds 1000 would fill the budget; use odds that
    // leave the second reward unreachable by giving it zero odds).
    execute_add_tokenfactory_rewards(
        &mut state,
        &coins("inj", 50),
        &"b1".to_string(),
        vec![tf_reward(10, 10, 1), tf_reward(20, 0, 2)],
    )
    .unwrap();
    // The pool holds only reward 1's slots, so it wins and is depleted; the
    // box terminates and reward 2's remaining 2 units go back to the creator.
    let resp = execute_open_box(
        &mut state,
        &"b1".to_string(),
        &"alice".to_string(),
        &coins("inj", 100),
        5,
    )
    .unwrap();
    assert_eq!(resp.reward_id, 1);
    assert_eq!(resp.messages.len(), 4);
    match &resp.messages[3] {
        TransferMsg::Bank { amount, to_address, .. } => {
            assert_eq!(*amount, 40);
            assert_eq!(to_address, "creator");
        },
        _ => panic!("expected the sweep refund"),
    }
    assert!(query_boxes(&state).boxes[0].is_over);
}

#[test]
fn execute_dispatches() {
    let mut state = init();
    let r = execute(
        &mut state,
        "creator".to_string(),
        &coins("inj", 1),
        0,
        ExecuteMsg::CreateBox {
            box_id: "b1".to_string(),
            price: 100,
            token_denom: "inj".to_string(),
            token_decimals: 18,
            token_type: "native".to_string(),
            duration: 86400,
        },
    );
    assert!(r.is_ok());
    let r = execute(
        &mut state,
        "anyone".to_string(),
        &coins("inj", 1),
        0,
        ExecuteMsg::CancelBox { box_id: "b1".to_string() },
    );
    assert!(r.is_ok());
    match query(&state, QueryMsg::GetBoxes) {
        QueryAnswer::Boxes(b) => assert_eq!(b.boxes.len(), 0),
        _ => panic!("expected the box listing"),
    }
}

#[test]
fn update_config_requires_owner() {
    let mut state = init();
    let r = execute_update_config(
        &mut state,
        &"stranger".to_string(),
        "peggy".to_string(),
        "newdev".to_string(),
        7,
    );
    assert_eq!(r.unwrap_err(), ContractError::Unauthorized);
    assert!(check_owner(&state.config, &"owner".to_string()).is_ok());
    let r = execute_update_config(
        &mut state,
        &"owner".to_string(),
        "peggy".to_string(),
        "newdev".to_string(),
        7,
    );
    assert!(r.is_ok());
    let cfg = query_config(&state);
    assert_eq!(cfg.token, "peggy");
    assert_eq!(cfg.injscribed_address, "newdev");
    assert_eq!(cfg.feature_fees, 7);
}

#[test]
fn transfer_builder_picks_the_kind() {
    let m = transfer_token_message("inj".to_string(), "native".to_string(), 9, "bob".to_string());
    match m {
        TransferMsg::Bank { denom, amount, to_address } => {
            assert_eq!(denom, "inj");
            assert_eq!(amount, 9);
            assert_eq!(to_address, "bob");
        },
        _ => panic!("expected a bank transfer"),
    }
    let m = transfer_token_message("contract7".to_string(), "cw20".to_string(), 9, "bob".to_string());
    match m {
        TransferMsg::Cw20Transfer { contract_addr, amount, recipient } => {
            assert_eq!(contract_addr, "contract7");
            assert_eq!(amount, 9);
            assert_eq!(recipient, "bob");
        },
        _ => panic!("expected a token-contract transfer"),
    }
}

#[test]
fn decimal_rendering_is_exact() {
    assert_eq!(u64_decimal_bytes(0), b"0".to_vec());
    assert_eq!(u64_decimal_bytes(7), b"7".to_vec());
    assert_eq!(u64_decimal_bytes(1700000000), b"1700000000".to_vec());
    assert_eq!(u64_decimal_bytes(u64::MAX), b"18446744073709551615".to_vec());
}

#[test]
fn weighted_pool_one_slot_per_point_of_odds() {
    let rewards = vec![
        fortune_box::state::RewardData {
            id: 1,
            reward_type: RewardType::TokenFactory,
            collection_addr: None,
            nft_id: None,
            denom: Some("inj".to_string()),
            amount: Some(10),
            decimals: Some(18),
            odds: 3,
            count: 2,
        },
        fortune_box::state::RewardData {
            id: 2,
            reward_type: RewardType::TokenFactory,
            collection_addr: None,
            nft_id: None,
            denom: Some("inj".to_string()),
            amount: Some(20),
            decimals: Some(18),
            odds: 2,
            count: 1,
        },
    ];
    let pool = build_weighted_list(&rewards);
    assert_eq!(pool, vec![1, 1, 1, 2, 2]);
}
