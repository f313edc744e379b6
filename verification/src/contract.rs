use vstd::prelude::*;
use vstd::string::StringExecFns;

use crate::draw::{build_weighted_list, current_total_odds, find_box_index, find_entry_index,
    find_reward_index, find_user_index, next_id_of, selection_index, total_batch_amount,
    total_batch_odds, u64_decimal_bytes};
use crate::error::ContractError;
use crate::externals::{must_pay_native, sha256_digest, sha256_of};
use crate::model::{box_after_open, box_idx, box_wf, box_with_rewards, decimal_digits,
    has_box, has_reward, has_user, lemma_box_push_reward_wf,
    lemma_fee_split, lemma_pool_len, lemma_pool_slot_is_reward, lemma_refund_msgs_take_step,
    lemma_remove_insert, lemma_sum_odds_push,
    lemma_sum_odds_update,
    lemma_sum_tf_amount_term_le, lemma_sum_tf_odds_nonneg,
    lemma_sum_tf_odds_take_le, lemma_sum_tf_odds_take_step, lemma_update_box_wf, next_reward_id,
    open_messages, pool_of, refund_msg, refund_msgs, reward_idx, reward_wf, settlement_msgs,
    state_wf, sum_odds, sum_tf_amount, sum_tf_odds, tf_batch_rewards, tf_to_reward, user_idx,
    user_wf, users_after_open, won_reward_msg, be_u64_of, dec_count, fresh_user_after_open,
    lemma_users_after_open_wf, user_after_open};
use crate::msg::{AddRewardsResponse, BoxesResponse, ConfigResponse, ExecuteMsg, ExecuteResponse,
    InstantiateMsg, NftReceiveMsg, OpenBoxResponse, QueryAnswer, QueryMsg, SpecTokenFactoryReward,
    TokenFactoryReward, TokenReceiveMsg, UsersInfoResponse};
use crate::state::{Coin, Config, FortuneBox, LootboxState, RewardData, RewardType, SpecBox,
    SpecConfig, SpecReward, SpecState, SpecUser, UserBoxRewards, UserInfo, WinnerStruct};
use crate::util::{transfer_token_message, TransferMsg};

verus! {

/// A clone of the string an `Option` is known to hold.
fn unwrap_opt_string(o: &Option<String>) -> (r: String)
    requires
        o is Some,
    ensures
        Some(r@) == o.deep_view(),
{
    match o {
        Some(s) => s.clone(),
        None => {
            proof {
                assert(false);
            }
            String::new()
        },
    }
}

// ---------------------------------------------------------------------------
// Initialization
// ---------------------------------------------------------------------------

/// What initialization leaves behind: the configuration singleton under the
/// fixed feature fee and odds budget, and empty box and user stores.
pub fn instantiate(msg: InstantiateMsg) -> (state: LootboxState)
    ensures
        state@.config == (SpecConfig {
            owner: msg.owner@,
            creator: msg.owner@,
            native_token: msg.native_token@,
            injscribed_address: msg.dev_addr@,
            feature_fees: 400000000000000000u128,
            max_odds: 1000u64,
            enabled: true,
        }),
        state@.boxes == Seq::<SpecBox>::empty(),
        state@.users == Seq::<SpecUser>::empty(),
        state_wf(state@),
{
    let config = Config {
        owner: msg.owner.clone(),
        creator: msg.owner,
        native_token: msg.native_token,
        injscribed_address: msg.dev_addr,
        feature_fees: 400000000000000000u128,
        max_odds: 1000,
        enabled: true,
    };
    let state = LootboxState { config, boxes: Vec::new(), users: Vec::new() };
    proof {
        assert(state.boxes.deep_view() =~= Seq::<SpecBox>::empty());
        assert(state.users.deep_view() =~= Seq::<SpecUser>::empty());
    }
    state
}

// ---------------------------------------------------------------------------
// Box creation
// ---------------------------------------------------------------------------

/// The box a direct creation call stores: no rewards yet, live, and featured
/// exactly when the attached payment is the configured feature fee in the
/// native denomination.
pub open spec fn created_box(
    cfg: SpecConfig,
    sender: Seq<char>,
    funds: Seq<crate::state::SpecCoin>,
    box_id: Seq<char>,
    price: u128,
    token_denom: Seq<char>,
    token_decimals: u64,
    token_type: Seq<char>,
    duration: u64,
) -> SpecBox {
    SpecBox {
        id: box_id,
        creator: sender,
        rewards: Seq::empty(),
        max_odds: cfg.max_odds,
        price,
        token_denom,
        token_decimals,
        token_type,
        duration,
        is_over: false,
        is_featured: funds[0].amount == cfg.feature_fees && funds[0].denom == cfg.native_token,
        winners: None,
    }
}

/// Everything a direct box creation does: it fails with `ConflictID` exactly
/// when the id is taken, and otherwise appends the new box and touches
/// nothing else.
pub open spec fn create_box_post(
    pre: SpecState,
    post: SpecState,
    sender: Seq<char>,
    funds: Seq<crate::state::SpecCoin>,
    box_id: Seq<char>,
    price: u128,
    token_denom: Seq<char>,
    token_decimals: u64,
    token_type: Seq<char>,
    duration: u64,
    r: Result<(), ContractError>,
) -> bool {
    &&& (r is Err <==> has_box(pre.boxes, box_id))
    &&& (r is Err ==> r == Err::<(), ContractError>(ContractError::ConflictID) && post == pre)
    &&& (r is Ok ==> post.config == pre.config && post.users == pre.users && post.boxes
        == pre.boxes.push(
        created_box(
            pre.config,
            sender,
            funds,
            box_id,
            price,
            token_denom,
            token_decimals,
            token_type,
            duration,
        ),
    ))
}

/// Creates an empty box under a fresh id. The caller's payment decides the
/// featured flag; the box is stored with the configured odds budget.
pub fn execute_create_box(
    state: &mut LootboxState,
    sender: String,
    funds: &Vec<Coin>,
    box_id: String,
    price: u128,
    token_denom: String,
    token_decimals: u64,
    token_type: String,
    duration: u64,
) -> (r: Result<(), ContractError>)
    requires
        state_wf(old(state)@),
        funds@.len() >= 1,
    ensures
        state_wf(final(state)@),
        create_box_post(
            old(state)@,
            final(state)@,
            sender@,
            funds.deep_view(),
            box_id@,
            price,
            token_denom@,
            token_decimals,
            token_type@,
            duration,
            r,
        ),
{
    let ghost pre = state@;
    let is_featured = funds[0].amount == state.config.feature_fees
        && funds[0].denom == state.config.native_token;
    proof {
        assert(funds.deep_view()[0] == funds@[0]@);
    }
    match find_box_index(&state.boxes, &box_id) {
        Some(_) => Err(ContractError::ConflictID),
        None => {
            let ghost new_spec_box = created_box(
                pre.config,
                sender@,
                funds.deep_view(),
                box_id@,
                price,
                token_denom@,
                token_decimals,
                token_type@,
                duration,
            );
            let fbox = FortuneBox {
                id: box_id,
                creator: sender,
                rewards: Vec::new(),
                max_odds: state.config.max_odds,
                price,
                token_denom,
                token_decimals,
                token_type,
                duration,
                is_over: false,
                is_featured,
                winners: None,
            };
            proof {
                assert(fbox.rewards.deep_view() =~= Seq::<SpecReward>::empty());
                assert(fbox@ == new_spec_box);
            }
            state.boxes.push(fbox);
            proof {
                assert(state.boxes.deep_view() =~= pre.boxes.push(new_spec_box));
                assert(state@.users =~= pre.users);
                lemma_create_box_wf(pre, state@, new_spec_box);
            }
            Ok(())
        },
    }
}

/// A sound state stays sound when a sound, freshly-identified box is
/// appended.
proof fn lemma_create_box_wf(pre: SpecState, post: SpecState, b: SpecBox)
    requires
        state_wf(pre),
        !has_box(pre.boxes, b.id),
        box_wf(b, pre.config.max_odds),
        post.config == pre.config,
        post.users == pre.users,
        post.boxes == pre.boxes.push(b),
    ensures
        state_wf(post),
{
    assert forall|i: int, j: int| 0 <= i < j < post.boxes.len() implies #[trigger] post.boxes[i].id
        != #[trigger] post.boxes[j].id by {
        if j == post.boxes.len() - 1 {
            assert(pre.boxes[i].id != b.id);
        }
    }
    assert forall|i: int| 0 <= i < post.boxes.len() implies box_wf(
        #[trigger] post.boxes[i],
        post.config.max_odds,
    ) by {
        if i < pre.boxes.len() {
            assert(box_wf(pre.boxes[i], pre.config.max_odds));
        }
    }
}

// ---------------------------------------------------------------------------
// Cancellation
// ---------------------------------------------------------------------------

/// Everything cancellation does: it fails with `BoxNotFound` exactly when no
/// box has the id; otherwise it hands the caller one refund instruction per
/// reward still holding inventory, deletes the box — no box with the id
/// remains — and touches nothing else.
pub open spec fn cancel_box_post(
    pre: SpecState,
    post: SpecState,
    sender: Seq<char>,
    box_id: Seq<char>,
    r: Result<Vec<TransferMsg>, ContractError>,
) -> bool {
    &&& (r is Err <==> !has_box(pre.boxes, box_id))
    &&& (r is Err ==> r == Err::<Vec<TransferMsg>, ContractError>(ContractError::BoxNotFound)
        && post == pre)
    &&& (r is Ok ==> {
        let i = box_idx(pre.boxes, box_id);
        &&& post.boxes == pre.boxes.remove(i)
        &&& !has_box(post.boxes, box_id)
        &&& post.config == pre.config
        &&& post.users == pre.users
        &&& (r->Ok_0).deep_view() == refund_msgs(pre.boxes[i].rewards, sender)
    })
}

/// Cancels a box: refunds every reward that still holds inventory to the
/// caller and deletes the box from the registry.
#[verifier::loop_isolation(false)]
pub fn execute_cancel_box(state: &mut LootboxState, sender: &String, box_id: &String) -> (r:
    Result<Vec<TransferMsg>, ContractError>)
    requires
        state_wf(old(state)@),
    ensures
        state_wf(final(state)@),
        cancel_box_post(old(state)@, final(state)@, sender@, box_id@, r),
{
    let ghost pre = state@;
    match find_box_index(&state.boxes, box_id) {
        None => Err(ContractError::BoxNotFound),
        Some(i) => {
            let fbox = state.boxes.remove(i);
            let ghost rs = fbox@.rewards;
            proof {
                assert(state.boxes.deep_view() =~= pre.boxes.remove(i as int));
                assert(state@.users =~= pre.users);
                assert(box_wf(pre.boxes[i as int], pre.config.max_odds));
                assert(fbox@ == pre.boxes[i as int]);
            }
            let mut msgs: Vec<TransferMsg> = Vec::new();
            let mut k: usize = 0;
            while k < fbox.rewards.len()
                invariant
                    k <= fbox.rewards.len(),
                    rs == fbox.rewards.deep_view(),
                    box_wf(fbox@, pre.config.max_odds),
                    msgs.deep_view() == refund_msgs(rs.take(k as int), sender@),
                decreases fbox.rewards.len() - k,
            {
                proof {
                    assert(rs[k as int] == fbox.rewards@[k as int]@);
                    assert(reward_wf(rs[k as int]));
                }
                if fbox.rewards[k].count > 0 {
                    let m = refund_instruction(&fbox.rewards[k], sender);
                    msgs.push(m);
                    proof {
                        assert(msgs.deep_view() =~= refund_msgs(rs.take(k as int), sender@).push(
                            refund_msg(rs[k as int], sender@),
                        ));
                        lemma_refund_msgs_take_step(rs, sender@, k as int);
                        assert(refund_msgs(rs.take(k as int + 1), sender@) =~= refund_msgs(
                            rs.take(k as int),
                            sender@,
                        ).push(refund_msg(rs[k as int], sender@)));
                    }
                } else {
                    proof {
                        lemma_refund_msgs_take_step(rs, sender@, k as int);
                        assert(refund_msgs(rs.take(k as int + 1), sender@) =~= refund_msgs(
                            rs.take(k as int),
                            sender@,
                        ));
                    }
                }
                k += 1;
            }
            proof {
                assert(rs.take(fbox.rewards.len() as int) =~= rs);
                lemma_cancel_box_wf(pre, state@, i as int);
            }
            Ok(msgs)
        },
    }
}

/// Appends one refund instruction per reward still holding inventory, in
/// reward order.
#[verifier::loop_isolation(false)]
fn append_refunds(msgs: &mut Vec<TransferMsg>, rewards: &Vec<RewardData>, recipient: &String)
    requires
        forall|a: int|
            0 <= a < rewards.deep_view().len() ==> reward_wf(#[trigger] rewards.deep_view()[a]),
    ensures
        final(msgs).deep_view() == old(msgs).deep_view() + refund_msgs(
            rewards.deep_view(),
            recipient@,
        ),
{
    let ghost rs = rewards.deep_view();
    let ghost base = msgs.deep_view();
    let mut k: usize = 0;
    while k < rewards.len()
        invariant
            k <= rewards.len(),
            msgs.deep_view() == base + refund_msgs(rs.take(k as int), recipient@),
        decreases rewards.len() - k,
    {
        proof {
            assert(rs[k as int] == rewards@[k as int]@);
            lemma_refund_msgs_take_step(rs, recipient@, k as int);
        }
        if rewards[k].count > 0 {
            let m = refund_instruction(&rewards[k], recipient);
            msgs.push(m);
            proof {
                assert(m@ == refund_msg(rs[k as int], recipient@));
                assert(refund_msgs(rs.take(k as int + 1), recipient@) =~= refund_msgs(
                    rs.take(k as int),
                    recipient@,
                ).push(refund_msg(rs[k as int], recipient@)));
                assert(msgs.deep_view() =~= (base + refund_msgs(rs.take(k as int), recipient@)).push(
                    m@,
                ));
                assert(msgs.deep_view() =~= base + refund_msgs(rs.take(k as int + 1), recipient@));
            }
        } else {
            proof {
                assert(msgs.deep_view() =~= base + refund_msgs(rs.take(k as int + 1), recipient@));
            }
        }
        k += 1;
    }
    proof {
        assert(rs.take(rewards.len() as int) =~= rs);
    }
}

/// Creates or updates the opener's ledger record after a successful open.
#[verifier::loop_isolation(false)]
fn update_user_ledger(
    users: &mut Vec<UserInfo>,
    opener: &String,
    box_id: &String,
    reward_id: u64,
    price: u128,
)
    requires
        forall|a: int, c: int|
            0 <= a < c < old(users).deep_view().len() ==> #[trigger] old(
                users,
            ).deep_view()[a].address != #[trigger] old(users).deep_view()[c].address,
        forall|a: int| 0 <= a < old(users).deep_view().len() ==> user_wf(
            #[trigger] old(users).deep_view()[a],
        ),
        has_user(old(users).deep_view(), opener@) ==> opener_tallies_fit(
            old(users).deep_view()[user_idx(old(users).deep_view(), opener@)],
            price,
        ),
    ensures
        final(users).deep_view() == users_after_open(
            old(users).deep_view(),
            opener@,
            box_id@,
            reward_id,
            price,
        ),
{
    let ghost pre_users = users.deep_view();
    match find_user_index(users, opener) {
        Some(ui) => {
            proof {
                assert(user_wf(pre_users[ui as int]));
            }
            let mut u = users.remove(ui);
            let ghost u0 = u@;
            u.box_opened = u.box_opened + 1;
            u.inj_spent = u.inj_spent + price;
            match find_entry_index(&u.rewards, box_id) {
                Some(e) => {
                    let mut ent = u.rewards.remove(e);
                    let ghost ent0 = ent@;
                    ent.reward_ids.push(reward_id);
                    proof {
                        assert(ent.reward_ids.deep_view() =~= ent0.reward_ids.push(reward_id));
                    }
                    u.rewards.insert(e, ent);
                    proof {
                        assert(ent@ == (crate::state::SpecUserBoxRewards {
                            box_id: ent0.box_id,
                            reward_ids: ent0.reward_ids.push(reward_id),
                        }));
                        assert(ent0 == u0.rewards[e as int]);
                        assert(u.rewards.deep_view() =~= u0.rewards.remove(e as int).insert(
                            e as int,
                            ent@,
                        ));
                        lemma_remove_insert(u0.rewards, e as int, ent@);
                        assert(u.rewards.deep_view() == u0.rewards.update(e as int, ent@));
                    }
                },
                None => {
                    let mut ids: Vec<u64> = Vec::new();
                    ids.push(reward_id);
                    proof {
                        assert(ids.deep_view() =~= seq![reward_id]);
                    }
                    u.rewards.push(UserBoxRewards { box_id: box_id.clone(), reward_ids: ids });
                    proof {
                        assert(u.rewards.deep_view() =~= u0.rewards.push(
                            crate::state::SpecUserBoxRewards {
                                box_id: box_id@,
                                reward_ids: seq![reward_id],
                            },
                        ));
                    }
                },
            }
            proof {
                assert(u@ == user_after_open(u0, box_id@, reward_id, price));
            }
            users.insert(ui, u);
            proof {
                assert(users.deep_view() =~= pre_users.remove(ui as int).insert(ui as int, u@));
                lemma_remove_insert(pre_users, ui as int, u@);
                assert(users.deep_view() == users_after_open(
                    pre_users,
                    opener@,
                    box_id@,
                    reward_id,
                    price,
                ));
            }
        },
        None => {
            let mut ids: Vec<u64> = Vec::new();
            ids.push(reward_id);
            proof {
                assert(ids.deep_view() =~= seq![reward_id]);
            }
            let mut entries: Vec<UserBoxRewards> = Vec::new();
            entries.push(UserBoxRewards { box_id: box_id.clone(), reward_ids: ids });
            proof {
                assert(entries.deep_view() =~= seq![
                    crate::state::SpecUserBoxRewards { box_id: box_id@, reward_ids: seq![reward_id] },
                ]);
            }
            let u = UserInfo {
                address: opener.clone(),
                box_created: 0,
                inj_spent: price,
                tokens_spent: 0,
                box_opened: 1,
                rewards: entries,
            };
            proof {
                assert(u@ == fresh_user_after_open(opener@, box_id@, reward_id, price));
            }
            users.push(u);
            proof {
                assert(users.deep_view() =~= pre_users.push(
                    fresh_user_after_open(opener@, box_id@, reward_id, price),
                ));
            }
        },
    }
}

/// The refund instruction for one reward: the whole remaining value for
/// fungible and multi-unit rewards, the item itself for non-fungible ones.
fn refund_instruction(reward: &RewardData, recipient: &String) -> (m: TransferMsg)
    requires
        reward_wf(reward@),
    ensures
        m@ == refund_msg(reward@, recipient@),
{
    match reward.reward_type {
        RewardType::Nft => TransferMsg::NftTransfer {
            collection_addr: unwrap_opt_string(&reward.collection_addr),
            nft_id: unwrap_opt_string(&reward.nft_id),
            recipient: recipient.clone(),
        },
        RewardType::TokenFactory => {
            let amount = unwrap_amount(&reward.amount);
            proof {
                assert(reward@.amount->0 * reward@.count <= u128::MAX);
            }
            TransferMsg::Bank {
                denom: unwrap_opt_string(&reward.denom),
                amount: amount * (reward.count as u128),
                to_address: recipient.clone(),
            }
        },
        RewardType::Cw20 => {
            let amount = unwrap_amount(&reward.amount);
            proof {
                assert(reward@.amount->0 * reward@.count <= u128::MAX);
            }
            TransferMsg::Cw20Transfer {
                contract_addr: unwrap_opt_string(&reward.denom),
                amount: amount * (reward.count as u128),
                recipient: recipient.clone(),
            }
        },
    }
}

/// The amount an `Option` is known to hold.
fn unwrap_amount(o: &Option<u128>) -> (r: u128)
    requires
        o is Some,
    ensures
        r == o->0,
{
    match o {
        Some(a) => *a,
        None => {
            proof {
                assert(false);
            }
            0
        },
    }
}

/// A sound state stays sound when a box is removed.
proof fn lemma_cancel_box_wf(pre: SpecState, post: SpecState, i: int)
    requires
        state_wf(pre),
        0 <= i < pre.boxes.len(),
        post.config == pre.config,
        post.users == pre.users,
        post.boxes == pre.boxes.remove(i),
    ensures
        state_wf(post),
        !has_box(post.boxes, pre.boxes[i].id),
{
    assert forall|a: int| 0 <= a < post.boxes.len() implies box_wf(
        #[trigger] post.boxes[a],
        post.config.max_odds,
    ) by {
        if a < i {
            assert(post.boxes[a] == pre.boxes[a]);
        } else {
            assert(post.boxes[a] == pre.boxes[a + 1]);
        }
    }
    assert forall|a: int, b: int| 0 <= a < b < post.boxes.len() implies #[trigger] post.boxes[a].id
        != #[trigger] post.boxes[b].id by {
        let pa = if a < i { a } else { a + 1 };
        let pb = if b < i { b } else { b + 1 };
        assert(post.boxes[a] == pre.boxes[pa]);
        assert(post.boxes[b] == pre.boxes[pb]);
        assert(pre.boxes[pa].id != pre.boxes[pb].id);
    }
    assert forall|a: int| 0 <= a < post.boxes.len() implies #[trigger] post.boxes[a].id
        != pre.boxes[i].id by {
        let pa = if a < i { a } else { a + 1 };
        assert(post.boxes[a] == pre.boxes[pa]);
        if pa < i {
            assert(pre.boxes[pa].id != pre.boxes[i].id);
        } else {
            assert(pre.boxes[i].id != pre.boxes[pa].id);
        }
    }
}


// ---------------------------------------------------------------------------
// Reward accumulation
// ---------------------------------------------------------------------------

/// A stored non-fungible reward: the deposited item under its collection,
/// one unit, and the declared win weight.
pub open spec fn nft_reward(
    collection_addr: Seq<char>,
    nft_id: Seq<char>,
    odds: u64,
    id: u64,
) -> SpecReward {
    SpecReward {
        id,
        reward_type: RewardType::Nft,
        collection_addr: Some(collection_addr),
        nft_id: Some(nft_id),
        denom: None,
        amount: None,
        decimals: None,
        odds,
        count: 1,
    }
}

/// A stored fungible-deposit reward: one unit of the deposited amount.
pub open spec fn cw20_reward(
    denom: Seq<char>,
    amount: u128,
    decimals: u64,
    odds: u64,
    id: u64,
) -> SpecReward {
    SpecReward {
        id,
        reward_type: RewardType::Cw20,
        collection_addr: None,
        nft_id: None,
        denom: Some(denom),
        amount: Some(amount),
        decimals: Some(decimals),
        odds,
        count: 1,
    }
}

/// Machine limits a single reward-adding call must respect: the next id and
/// the grown odds sum still fit their words. The budget check itself is not
/// here — exceeding the budget is answered with an error, not excluded.
pub open spec fn add_one_fits(pre: SpecState, box_id: Seq<char>, odds: u64) -> bool {
    has_box(pre.boxes, box_id) ==> {
        let b = pre.boxes[box_idx(pre.boxes, box_id)];
        &&& next_reward_id(b.rewards) <= u64::MAX
        &&& sum_odds(b.rewards) + odds <= u64::MAX
    }
}

/// Everything a non-fungible deposit does: refused unless sent by its
/// claimed collection; then `BoxNotFound` exactly when the box is missing;
/// then `MaxOddsReached` — with the current and requested odds — exactly
/// when the budget would be exceeded, leaving the box unchanged; otherwise
/// the reward is appended under the next id with one unit.
pub open spec fn receive_nft_post(
    pre: SpecState,
    post: SpecState,
    sender: Seq<char>,
    box_id: Seq<char>,
    collection_addr: Seq<char>,
    nft_id: Seq<char>,
    odds: u64,
    r: Result<(), ContractError>,
) -> bool {
    if sender != collection_addr {
        r == Err::<(), ContractError>(ContractError::InvalidCw721Token) && post == pre
    } else if !has_box(pre.boxes, box_id) {
        r == Err::<(), ContractError>(ContractError::BoxNotFound) && post == pre
    } else {
        let i = box_idx(pre.boxes, box_id);
        let b = pre.boxes[i];
        if sum_odds(b.rewards) + odds > pre.config.max_odds {
            r == Err::<(), ContractError>(
                ContractError::MaxOddsReached {
                    current: sum_odds(b.rewards) as u64,
                    requested: odds,
                },
            ) && post == pre
        } else {
            &&& r is Ok
            &&& post.config == pre.config
            &&& post.users == pre.users
            &&& post.boxes == pre.boxes.update(
                i,
                box_with_rewards(
                    b,
                    b.rewards.push(
                        nft_reward(collection_addr, nft_id, odds, next_reward_id(b.rewards) as u64),
                    ),
                ),
            )
        }
    }
}

/// Appends a deposited non-fungible item to a box as a one-unit reward. The
/// deposit must come from the claimed collection itself, and the box's odds
/// budget must bear the declared weight.
pub fn execute_receive_nft(state: &mut LootboxState, sender: &String, msg: NftReceiveMsg) -> (r:
    Result<(), ContractError>)
    requires
        state_wf(old(state)@),
        msg matches NftReceiveMsg::AddNftReward { box_id, odds, .. } ==> add_one_fits(
            old(state)@,
            box_id@,
            odds,
        ),
    ensures
        state_wf(final(state)@),
        msg matches NftReceiveMsg::AddNftReward {
            box_id,
            collection_addr,
            nft_id,
            odds,
        } ==> receive_nft_post(
            old(state)@,
            final(state)@,
            sender@,
            box_id@,
            collection_addr@,
            nft_id@,
            odds,
            r,
        ),
{
    let ghost pre = state@;
    match msg {
        NftReceiveMsg::AddNftReward { box_id, collection_addr, nft_id, odds } => {
            if *sender != collection_addr {
                return Err(ContractError::InvalidCw721Token);
            }
            match find_box_index(&state.boxes, &box_id) {
                None => Err(ContractError::BoxNotFound),
                Some(i) => {
                    let ghost b = pre.boxes[i as int];
                    let current = current_total_odds(&state.boxes[i].rewards);
                    if current + odds > state.config.max_odds {
                        return Err(ContractError::MaxOddsReached { current, requested: odds });
                    }
                    let mut fbox = state.boxes.remove(i);
                    proof {
                        assert(fbox@ == b);
                    }
                    let next_id = next_id_of(&fbox.rewards);
                    let reward = RewardData {
                        id: next_id,
                        reward_type: RewardType::Nft,
                        collection_addr: Some(collection_addr),
                        nft_id: Some(nft_id),
                        denom: None,
                        amount: None,
                        decimals: None,
                        odds,
                        count: 1,
                    };
                    let ghost spec_reward = reward@;
                    fbox.rewards.push(reward);
                    proof {
                        assert(fbox.rewards.deep_view() =~= b.rewards.push(spec_reward));
                        assert(spec_reward == nft_reward(
                            collection_addr@,
                            nft_id@,
                            odds,
                            next_reward_id(b.rewards) as u64,
                        ));
                        assert(fbox@ == box_with_rewards(b, b.rewards.push(spec_reward)));
                    }
                    state.boxes.insert(i, fbox);
                    proof {
                        assert(state.boxes.deep_view() =~= pre.boxes.remove(i as int).insert(
                            i as int,
                            fbox@,
                        ));
                        lemma_remove_insert(pre.boxes, i as int, fbox@);
                        lemma_box_push_reward_wf(b, spec_reward, pre.config.max_odds);
                        assert(state@.users =~= pre.users);
                        lemma_update_box_wf(pre, state@, i as int, fbox@);
                    }
                    Ok(())
                },
            }
        },
    }
}

/// Everything a fungible deposit does. When the box exists: `MaxOddsReached`
/// — with the current and requested odds — exactly when the budget would be
/// exceeded, the box unchanged; otherwise a one-unit fungible reward is
/// appended under the next id. When it does not: a new box is created,
/// already funded with that reward under id 1, unfeatured, provided the
/// declared weight alone fits the budget.
pub open spec fn receive_token_post(
    pre: SpecState,
    post: SpecState,
    box_id: Seq<char>,
    creator: Seq<char>,
    denom: Seq<char>,
    amount: u128,
    odds: u64,
    price: u128,
    token_denom: Seq<char>,
    token_decimals: u64,
    token_type: Seq<char>,
    duration: u64,
    r: Result<(), ContractError>,
) -> bool {
    if has_box(pre.boxes, box_id) {
        let i = box_idx(pre.boxes, box_id);
        let b = pre.boxes[i];
        if sum_odds(b.rewards) + odds > pre.config.max_odds {
            r == Err::<(), ContractError>(
                ContractError::MaxOddsReached {
                    current: sum_odds(b.rewards) as u64,
                    requested: odds,
                },
            ) && post == pre
        } else {
            &&& r is Ok
            &&& post.config == pre.config
            &&& post.users == pre.users
            &&& post.boxes == pre.boxes.update(
                i,
                box_with_rewards(
                    b,
                    b.rewards.push(
                        cw20_reward(
                            denom,
                            amount,
                            token_decimals,
                            odds,
                            next_reward_id(b.rewards) as u64,
                        ),
                    ),
                ),
            )
        }
    } else {
        if odds > pre.config.max_odds {
            r == Err::<(), ContractError>(
                ContractError::MaxOddsReached { current: 0, requested: odds },
            ) && post == pre
        } else {
            &&& r is Ok
            &&& post.config == pre.config
            &&& post.users == pre.users
            &&& post.boxes == pre.boxes.push(
                SpecBox {
                    id: box_id,
                    creator,
                    rewards: seq![cw20_reward(denom, amount, token_decimals, odds, 1)],
                    max_odds: pre.config.max_odds,
                    price,
                    token_denom,
                    token_decimals,
                    token_type,
                    duration,
                    is_over: false,
                    is_featured: false,
                    winners: None,
                },
            )
        }
    }
}

/// Machine limits of a fungible deposit, and the shape it needs: beside the
/// limits of any single add, a box that already exists must hold a reward,
/// since the next id is read from the last one.
pub open spec fn receive_token_fits(pre: SpecState, box_id: Seq<char>, odds: u64) -> bool {
    &&& add_one_fits(pre, box_id, odds)
    &&& (has_box(pre.boxes, box_id) ==> pre.boxes[box_idx(pre.boxes, box_id)].rewards.len() > 0)
}

/// `receive_token_post` under the fields the deposit message carries.
pub open spec fn receive_token_msg_post(
    pre: SpecState,
    post: SpecState,
    msg: TokenReceiveMsg,
    r: Result<(), ContractError>,
) -> bool {
    match msg {
        TokenReceiveMsg::CreateFortuneBoxWithCoin {
            box_id,
            creator,
            denom,
            amount,
            odds,
            price,
            token_denom,
            token_decimals,
            token_type,
            duration,
        } => receive_token_post(
            pre,
            post,
            box_id@,
            creator@,
            denom@,
            amount,
            odds,
            price,
            token_denom@,
            token_decimals,
            token_type@,
            duration,
            r,
        ),
    }
}

/// `receive_token_fits` under the fields the deposit message carries.
pub open spec fn receive_token_msg_fits(pre: SpecState, msg: TokenReceiveMsg) -> bool {
    match msg {
        TokenReceiveMsg::CreateFortuneBoxWithCoin { box_id, odds, .. } => receive_token_fits(
            pre,
            box_id@,
            odds,
        ),
    }
}

/// Takes a fungible deposit: appends it as a one-unit reward when the box
/// exists, and otherwise creates the box already funded with it.
pub fn execute_receive_token(state: &mut LootboxState, msg: TokenReceiveMsg) -> (r:
    Result<(), ContractError>)
    requires
        state_wf(old(state)@),
        receive_token_msg_fits(old(state)@, msg),
    ensures
        state_wf(final(state)@),
        receive_token_msg_post(old(state)@, final(state)@, msg, r),
{
    let ghost pre = state@;
    match msg {
        TokenReceiveMsg::CreateFortuneBoxWithCoin { box_id, creator, denom, amount, odds, price, token_denom, token_decimals, token_type, duration } => {
            match find_box_index(&state.boxes, &box_id) {
                Some(i) => {
                    let ghost b = pre.boxes[i as int];
                    let current = current_total_odds(&state.boxes[i].rewards);
                    if current + odds > state.config.max_odds {
                        return Err(ContractError::MaxOddsReached { current, requested: odds });
                    }
                    let mut fbox = state.boxes.remove(i);
                    proof {
                        assert(fbox@ == b);
                    }
                    let next_id = next_id_of(&fbox.rewards);
                    let reward = RewardData {
                        id: next_id,
                        reward_type: RewardType::Cw20,
                        collection_addr: None,
                        nft_id: None,
                        denom: Some(denom),
                        amount: Some(amount),
                        decimals: Some(token_decimals),
                        odds,
                        count: 1,
                    };
                    let ghost spec_reward = reward@;
                    fbox.rewards.push(reward);
                    proof {
                        assert(fbox.rewards.deep_view() =~= b.rewards.push(spec_reward));
                        assert(spec_reward == cw20_reward(
                            denom@,
                            amount,
                            token_decimals,
                            odds,
                            next_reward_id(b.rewards) as u64,
                        ));
                        assert(fbox@ == box_with_rewards(b, b.rewards.push(spec_reward)));
                    }
                    state.boxes.insert(i, fbox);
                    proof {
                        assert(state.boxes.deep_view() =~= pre.boxes.remove(i as int).insert(
                            i as int,
                            fbox@,
                        ));
                        lemma_remove_insert(pre.boxes, i as int, fbox@);
                        assert(spec_reward.count == 1);
                        assert(spec_reward.amount->0 * spec_reward.count
                            == spec_reward.amount->0) by (nonlinear_arith)
                            requires
                                spec_reward.count == 1,
                        ;
                        assert(reward_wf(spec_reward));
                        lemma_box_push_reward_wf(b, spec_reward, pre.config.max_odds);
                        assert(state@.users =~= pre.users);
                        lemma_update_box_wf(pre, state@, i as int, fbox@);
                    }
                    Ok(())
                },
                None => {
                    if odds > state.config.max_odds {
                        return Err(ContractError::MaxOddsReached { current: 0, requested: odds });
                    }
                    let reward = RewardData {
                        id: 1,
                        reward_type: RewardType::Cw20,
                        collection_addr: None,
                        nft_id: None,
                        denom: Some(denom),
                        amount: Some(amount),
                        decimals: Some(token_decimals),
                        odds,
                        count: 1,
                    };
                    let ghost spec_reward = reward@;
                    let mut rewards_vec: Vec<RewardData> = Vec::new();
                    rewards_vec.push(reward);
                    let fbox = FortuneBox {
                        id: box_id,
                        creator,
                        rewards: rewards_vec,
                        max_odds: state.config.max_odds,
                        price,
                        token_denom,
                        token_decimals,
                        token_type,
                        duration,
                        is_over: false,
                        is_featured: false,
                        winners: None,
                    };
                    proof {
                        assert(fbox.rewards.deep_view() =~= seq![spec_reward]);
                    }
                    state.boxes.push(fbox);
                    proof {
                        assert(state.boxes.deep_view() =~= pre.boxes.push(fbox@));
                        assert(state@.users =~= pre.users);
                        assert(seq![spec_reward].drop_last() =~= Seq::<SpecReward>::empty());
                        assert(sum_odds(Seq::<SpecReward>::empty()) == 0);
                        assert(seq![spec_reward].last() == spec_reward);
                        assert(sum_odds(seq![spec_reward]) == odds);
                        assert(spec_reward.count == 1);
                        assert(spec_reward.amount->0 * spec_reward.count
                            == spec_reward.amount->0) by (nonlinear_arith)
                            requires
                                spec_reward.count == 1,
                        ;
                        assert(reward_wf(spec_reward));
                        lemma_create_box_wf(pre, state@, fbox@);
                    }
                    Ok(())
                },
            }
        },
    }
}


/// A payment in order: exactly one attached coin, non-zero, of the native
/// denomination.
pub open spec fn payment_ok(funds: Seq<crate::state::SpecCoin>, denom: Seq<char>) -> bool {
    funds.len() == 1 && funds[0].amount != 0 && funds[0].denom == denom
}

/// Machine limits a batch add must respect: the batch's sums fit their
/// words, every line has at least one unit, and ids and the grown odds sum
/// stay within their words.
pub open spec fn add_tf_fits(
    pre: SpecState,
    box_id: Seq<char>,
    batch: Seq<SpecTokenFactoryReward>,
) -> bool {
    &&& sum_tf_odds(batch) <= u64::MAX
    &&& sum_tf_amount(batch) <= u128::MAX
    &&& (forall|t: int| 0 <= t < batch.len() ==> (#[trigger] batch[t]).count >= 1)
    &&& (has_box(pre.boxes, box_id) ==> add_tf_box_fits(
        pre.boxes[box_idx(pre.boxes, box_id)],
        pre.config.max_odds,
        batch,
    ))
}

/// The per-box part of the batch-add machine limits.
pub open spec fn add_tf_box_fits(
    b: SpecBox,
    max_odds: u64,
    batch: Seq<SpecTokenFactoryReward>,
) -> bool {
    &&& sum_odds(b.rewards) + sum_tf_odds(batch) <= u64::MAX
    &&& next_reward_id(b.rewards) + batch.len() - 1 <= u64::MAX
}

/// Everything a batch add of multi-unit rewards does: `BoxNotFound` exactly
/// when the box is missing; then `PaymentFailed` exactly when the attached
/// funds are not one non-zero coin of the native denomination; then
/// `MaxOddsReached` — with the current and requested sums — exactly when the
/// budget would be exceeded; each error leaves the state unchanged.
/// Otherwise the batch is appended under sequential ids and the response
/// reports the batch size, the payment, the declared total value and the
/// summed odds.
pub open spec fn add_tf_post(
    pre: SpecState,
    post: SpecState,
    funds: Seq<crate::state::SpecCoin>,
    box_id: Seq<char>,
    batch: Seq<SpecTokenFactoryReward>,
    r: Result<AddRewardsResponse, ContractError>,
) -> bool {
    if !has_box(pre.boxes, box_id) {
        r == Err::<AddRewardsResponse, ContractError>(ContractError::BoxNotFound) && post == pre
    } else {
        let i = box_idx(pre.boxes, box_id);
        let b = pre.boxes[i];
        if !payment_ok(funds, pre.config.native_token) {
            r == Err::<AddRewardsResponse, ContractError>(ContractError::PaymentFailed) && post
                == pre
        } else if sum_odds(b.rewards) + sum_tf_odds(batch) > pre.config.max_odds {
            r == Err::<AddRewardsResponse, ContractError>(
                ContractError::MaxOddsReached {
                    current: sum_odds(b.rewards) as u64,
                    requested: sum_tf_odds(batch) as u64,
                },
            ) && post == pre
        } else {
            &&& r is Ok
            &&& (r->Ok_0).total_rewards == batch.len()
            &&& (r->Ok_0).amount_paid == funds[0].amount
            &&& (r->Ok_0).total_amount == sum_tf_amount(batch)
            &&& (r->Ok_0).total_odds == sum_tf_odds(batch)
            &&& post.config == pre.config
            &&& post.users == pre.users
            &&& post.boxes == pre.boxes.update(
                i,
                box_with_rewards(
                    b,
                    b.rewards + tf_batch_rewards(batch, next_reward_id(b.rewards)),
                ),
            )
        }
    }
}

/// Appends a paid-for batch of multi-unit rewards to a box, assigning
/// sequential ids. The payment must be one non-zero coin of the native
/// denomination; by design the declared value of the batch is reported but
/// not compared with the payment.
#[verifier::loop_isolation(false)]
pub fn execute_add_tokenfactory_rewards(
    state: &mut LootboxState,
    funds: &Vec<Coin>,
    box_id: &String,
    rewards: Vec<TokenFactoryReward>,
) -> (r: Result<AddRewardsResponse, ContractError>)
    requires
        state_wf(old(state)@),
        add_tf_fits(old(state)@, box_id@, rewards.deep_view()),
    ensures
        state_wf(final(state)@),
        add_tf_post(
            old(state)@,
            final(state)@,
            funds.deep_view(),
            box_id@,
            rewards.deep_view(),
            r,
        ),
{
    let ghost pre = state@;
    let ghost batch = rewards.deep_view();
    let i = match find_box_index(&state.boxes, box_id) {
        None => {
            return Err(ContractError::BoxNotFound);
        },
        Some(i) => i,
    };
    let ghost b = pre.boxes[i as int];
    let current = current_total_odds(&state.boxes[i].rewards);
    let batch_odds = total_batch_odds(&rewards);
    let amount_sum = total_batch_amount(&rewards);
    let amount_paid = match must_pay_native(funds, &state.config.native_token) {
        Ok(a) => a,
        Err(_) => {
            return Err(ContractError::PaymentFailed);
        },
    };
    if current + batch_odds > state.config.max_odds {
        return Err(ContractError::MaxOddsReached { current, requested: batch_odds });
    }
    let mut fbox = state.boxes.remove(i);
    proof {
        assert(fbox@ == b);
        assert(fbox.rewards.deep_view() =~= b.rewards + tf_batch_rewards(
            batch,
            next_reward_id(b.rewards),
        ).take(0));
    }
    let mut last_reward_id: u64 = if fbox.rewards.len() > 0 {
        proof {
            assert(fbox.rewards.deep_view()[fbox.rewards@.len() - 1] == fbox.rewards@[fbox.rewards@.len() - 1]@);
        }
        fbox.rewards[fbox.rewards.len() - 1].id
    } else {
        0
    };
    let ghost first_id = next_reward_id(b.rewards);
    let mut t: usize = 0;
    while t < rewards.len()
        invariant
            t <= rewards.len(),
            last_reward_id == first_id - 1 + t,
            fbox.rewards.deep_view() == b.rewards + tf_batch_rewards(batch, first_id).take(
                t as int,
            ),
            fbox@ == box_with_rewards(b, fbox.rewards.deep_view()),
            sum_odds(fbox@.rewards) == sum_odds(b.rewards) + sum_tf_odds(batch.take(t as int)),
            box_wf(fbox@, pre.config.max_odds),
        decreases rewards.len() - t,
    {
        let ghost cur = fbox.rewards.deep_view();
        proof {
            assert(batch[t as int] == rewards@[t as int]@);
            lemma_sum_tf_odds_take_step(batch, t as int);
            lemma_sum_tf_odds_take_le(batch, t as int + 1);
            lemma_sum_tf_amount_term_le(batch, t as int);
            assert(0 <= sum_tf_odds(batch.take(t as int))) by {
                lemma_sum_tf_odds_nonneg(batch.take(t as int));
            }
        }
        let reward = &rewards[t];
        let rwrd = RewardData {
            id: last_reward_id + 1,
            reward_type: RewardType::TokenFactory,
            collection_addr: None,
            nft_id: None,
            denom: Some(reward.token_denom.clone()),
            amount: Some(reward.amount),
            decimals: Some(reward.token_decimals),
            odds: reward.odds,
            count: reward.count,
        };
        proof {
            assert(rwrd@ == tf_to_reward(batch[t as int], (first_id + t) as u64));
            assert(reward_wf(rwrd@));
            if t == 0 {
                assert(tf_batch_rewards(batch, first_id).take(0) =~= Seq::<SpecReward>::empty());
                assert(cur =~= b.rewards);
                assert(next_reward_id(cur) == first_id);
            } else {
                assert(cur.last() == tf_batch_rewards(batch, first_id)[t as int - 1]);
                assert(cur.last().id == first_id - 1 + t);
                assert(next_reward_id(cur) == first_id + t);
            }
            lemma_box_push_reward_wf(fbox@, rwrd@, pre.config.max_odds);
        }
        last_reward_id = last_reward_id + 1;
        fbox.rewards.push(rwrd);
        t += 1;
        proof {
            assert(fbox.rewards.deep_view() =~= cur.push(rwrd@));
            assert(cur.push(rwrd@) =~= b.rewards + tf_batch_rewards(batch, first_id).take(
                t as int,
            ));
            lemma_sum_odds_push(cur, rwrd@);
        }
    }
    proof {
        assert(tf_batch_rewards(batch, first_id).take(batch.len() as int) =~= tf_batch_rewards(
            batch,
            first_id,
        ));
    }
    let total_rewards = rewards.len() as u64;
    state.boxes.insert(i, fbox);
    proof {
        assert(state.boxes.deep_view() =~= pre.boxes.remove(i as int).insert(i as int, fbox@));
        lemma_remove_insert(pre.boxes, i as int, fbox@);
        assert(state@.users =~= pre.users);
        lemma_update_box_wf(pre, state@, i as int, fbox@);
    }
    Ok(
        AddRewardsResponse {
            total_rewards,
            amount_paid,
            total_amount: amount_sum,
            total_odds: batch_odds,
        },
    )
}


// ---------------------------------------------------------------------------
// Resolution: opening a box
// ---------------------------------------------------------------------------

/// Machine limits and liveness preconditions of an open on a live box: the
/// pool is non-empty (some reward has positive odds), a payment coin is
/// attached, the fee product and the opener's grown tallies fit their words.
pub open spec fn open_box_fits(
    pre: SpecState,
    box_id: Seq<char>,
    opener: Seq<char>,
    funds: Seq<crate::state::SpecCoin>,
) -> bool {
    has_box(pre.boxes, box_id) ==> open_live_box_fits(
        pre.boxes[box_idx(pre.boxes, box_id)],
        pre.users,
        opener,
        funds,
    )
}

/// The live-box part of the open preconditions.
pub open spec fn open_live_box_fits(
    b: SpecBox,
    users: Seq<SpecUser>,
    opener: Seq<char>,
    funds: Seq<crate::state::SpecCoin>,
) -> bool {
    !b.is_over ==> {
        &&& sum_odds(b.rewards) > 0
        &&& funds.len() >= 1
        &&& funds[0].amount * 5 <= u128::MAX
        &&& (has_user(users, opener) ==> opener_tallies_fit(
            users[user_idx(users, opener)],
            b.price,
        ))
    }
}

/// The opener's tallies can take one more open of this box.
pub open spec fn opener_tallies_fit(u: SpecUser, price: u128) -> bool {
    &&& u.inj_spent + price <= u128::MAX
    &&& u.box_opened + 1 <= u64::MAX
}

/// Everything an open with a given digest does: `BoxNotFound` exactly when
/// the box is missing, `BoxTerminated` exactly when it is finalized — both
/// leaving the state unchanged and emitting nothing. Otherwise the digest's
/// leading eight bytes select a slot of the weighted pool; the reward at
/// that slot wins and loses one unit; the box is finalized exactly when that
/// unit was its last, sweeping the remaining inventory back to the creator;
/// the emitted instructions are the won unit, the fee split of the payment,
/// and the sweep; and the opener's ledger entry is created or updated.
pub open spec fn open_box_post(
    pre: SpecState,
    post: SpecState,
    box_id: Seq<char>,
    opener: Seq<char>,
    funds: Seq<crate::state::SpecCoin>,
    digest: Seq<u8>,
    r: Result<OpenBoxResponse, ContractError>,
) -> bool {
    if !has_box(pre.boxes, box_id) {
        r == Err::<OpenBoxResponse, ContractError>(ContractError::BoxNotFound) && post == pre
    } else {
        let i = box_idx(pre.boxes, box_id);
        let b = pre.boxes[i];
        if b.is_over {
            r == Err::<OpenBoxResponse, ContractError>(ContractError::BoxTerminated) && post == pre
        } else {
            let pool = pool_of(b.rewards);
            let k = be_u64_of(digest.take(8)) % pool.len() as int;
            let rid = pool[k];
            let j = reward_idx(b.rewards, rid);
            &&& r is Ok
            &&& (r->Ok_0).selection_index == k
            &&& (r->Ok_0).reward_id == rid
            &&& (r->Ok_0).messages.deep_view() == open_messages(
                b,
                j,
                opener,
                funds[0],
                pre.config.injscribed_address,
            )
            &&& post.boxes == pre.boxes.update(i, box_after_open(b, j))
            &&& post.users == users_after_open(pre.users, opener, box_id, rid, b.price)
            &&& post.config == pre.config
        }
    }
}

/// The instruction that hands the won unit to the opener.
fn won_instruction(reward: &RewardData, recipient: &String) -> (m: TransferMsg)
    requires
        reward_wf(reward@),
    ensures
        m@ == won_reward_msg(reward@, recipient@),
{
    match reward.reward_type {
        RewardType::Nft => TransferMsg::NftTransfer {
            collection_addr: unwrap_opt_string(&reward.collection_addr),
            nft_id: unwrap_opt_string(&reward.nft_id),
            recipient: recipient.clone(),
        },
        RewardType::TokenFactory => TransferMsg::Bank {
            denom: unwrap_opt_string(&reward.denom),
            amount: unwrap_amount(&reward.amount),
            to_address: recipient.clone(),
        },
        RewardType::Cw20 => TransferMsg::Cw20Transfer {
            contract_addr: unwrap_opt_string(&reward.denom),
            amount: unwrap_amount(&reward.amount),
            recipient: recipient.clone(),
        },
    }
}

/// A sound state stays sound across a successful open: the drawn box is
/// replaced by a sound box with the same id, and the user ledger is updated
/// as `users_after_open` says.
proof fn lemma_open_state_wf(
    pre: SpecState,
    post: SpecState,
    i: int,
    b2: SpecBox,
    opener: Seq<char>,
    box_id: Seq<char>,
    rid: u64,
    price: u128,
)
    requires
        state_wf(pre),
        0 <= i < pre.boxes.len(),
        b2.id == pre.boxes[i].id,
        box_wf(b2, pre.config.max_odds),
        post.config == pre.config,
        post.boxes == pre.boxes.update(i, b2),
        post.users == users_after_open(pre.users, opener, box_id, rid, price),
    ensures
        state_wf(post),
{
    assert forall|a: int| 0 <= a < post.boxes.len() implies box_wf(
        #[trigger] post.boxes[a],
        post.config.max_odds,
    ) by {
        if a != i {
            assert(post.boxes[a] == pre.boxes[a]);
        }
    }
    assert forall|a: int, c: int| 0 <= a < c < post.boxes.len() implies #[trigger] post.boxes[a].id
        != #[trigger] post.boxes[c].id by {
        assert(pre.boxes[a].id != pre.boxes[c].id);
    }
    lemma_users_after_open_wf(pre.users, opener, box_id, rid, price);
}

/// The decremented reward is still sound.
proof fn lemma_dec_count_wf(r: SpecReward)
    requires
        reward_wf(r),
        r.count >= 1,
    ensures
        reward_wf(dec_count(r)),
{
    if r.amount is Some {
        assert(r.amount->0 * dec_count(r).count <= r.amount->0 * r.count) by (nonlinear_arith)
            requires
                r.amount->0 >= 0,
                0 <= dec_count(r).count <= r.count,
        ;
    }
}

/// Opens a box under a given digest: the verified whole of resolution. The
/// digest decides the slot; everything after the draw — settlement,
/// depletion, termination, sweep, ledger update — is fixed by the contract.
#[verifier::loop_isolation(false)]
pub fn open_box_with_digest(
    state: &mut LootboxState,
    box_id: &String,
    opener: &String,
    funds: &Vec<Coin>,
    digest: &Vec<u8>,
) -> (r: Result<OpenBoxResponse, ContractError>)
    requires
        state_wf(old(state)@),
        digest@.len() >= 8,
        open_box_fits(old(state)@, box_id@, opener@, funds.deep_view()),
    ensures
        state_wf(final(state)@),
        open_box_post(
            old(state)@,
            final(state)@,
            box_id@,
            opener@,
            funds.deep_view(),
            digest@,
            r,
        ),
{
    let ghost pre = state@;
    let i = match find_box_index(&state.boxes, box_id) {
        None => {
            return Err(ContractError::BoxNotFound);
        },
        Some(i) => i,
    };
    if state.boxes[i].is_over {
        proof {
            assert(pre.boxes[i as int].is_over);
        }
        return Err(ContractError::BoxTerminated);
    }
    let ghost b = pre.boxes[i as int];
    let mut fbox = state.boxes.remove(i);
    proof {
        assert(fbox@ == b);
        assert(box_wf(b, pre.config.max_odds));
        assert(open_live_box_fits(b, pre.users, opener@, funds.deep_view()));
    }
    let pool = build_weighted_list(&fbox.rewards);
    proof {
        lemma_pool_len(b.rewards);
    }
    let pool_len = pool.len() as u64;
    let k = selection_index(digest, pool_len);
    let reward_id = pool[k as usize];
    proof {
        lemma_pool_slot_is_reward(b.rewards, k as int);
        assert(has_reward(b.rewards, reward_id));
        assert forall|a: int, c: int|
            0 <= a < c < fbox.rewards.deep_view().len()
                implies #[trigger] fbox.rewards.deep_view()[a].id
                != #[trigger] fbox.rewards.deep_view()[c].id by {
            assert(b.rewards[a].id < b.rewards[c].id);
        }
    }
    let j = match find_reward_index(&fbox.rewards, reward_id) {
        Some(j) => j,
        None => {
            proof {
                assert(false);
            }
            state.boxes.insert(i, fbox);
            return Err(ContractError::RewardNotFound);
        },
    };
    let ghost jj = j as int;
    proof {
        assert(reward_wf(b.rewards[jj]));
        assert(b.rewards[jj].count >= 1);
    }
    let mut msgs: Vec<TransferMsg> = Vec::new();
    let won = won_instruction(&fbox.rewards[j], opener);
    msgs.push(won);
    let payment_amount = funds[0].amount;
    proof {
        assert(funds.deep_view()[0] == funds@[0]@);
        lemma_fee_split(payment_amount);
    }
    let fees = payment_amount * 5 / 100;
    let m_creator = transfer_token_message(
        funds[0].denom.clone(),
        String::from_str("native"),
        payment_amount - fees,
        fbox.creator.clone(),
    );
    msgs.push(m_creator);
    let m_fee = transfer_token_message(
        funds[0].denom.clone(),
        String::from_str("native"),
        fees,
        state.config.injscribed_address.clone(),
    );
    msgs.push(m_fee);
    let ghost base_msgs = seq![won_reward_msg(b.rewards[jj], opener@)] + settlement_msgs(
        funds.deep_view()[0],
        b.creator,
        pre.config.injscribed_address,
    );
    proof {
        assert(msgs.deep_view() =~= base_msgs);
    }
    let mut rw = fbox.rewards.remove(j);
    let ghost old_rw = rw@;
    rw.count = rw.count - 1;
    let terminated = rw.count == 0;
    fbox.rewards.insert(j, rw);
    proof {
        assert(fbox.rewards.deep_view() =~= b.rewards.remove(jj).insert(jj, dec_count(old_rw)));
        lemma_remove_insert(b.rewards, jj, dec_count(old_rw));
        assert(fbox.rewards.deep_view() == b.rewards.update(jj, dec_count(old_rw)));
    }
    if terminated {
        fbox.is_over = true;
    }
    proof {
        assert(fbox@ == box_after_open(b, jj));
    }
    let price = fbox.price;
    proof {
        if has_user(pre.users, opener@) {
            assert(opener_tallies_fit(pre.users[user_idx(pre.users, opener@)], price));
        }
    }
    update_user_ledger(&mut state.users, opener, box_id, reward_id, price);
    proof {
        assert(state.users.deep_view() == users_after_open(
            pre.users,
            opener@,
            box_id@,
            reward_id,
            price,
        ));
    }
    if terminated {
        proof {
            lemma_box_after_open_wf(b, jj, pre.config.max_odds);
        }
        append_refunds(&mut msgs, &fbox.rewards, &fbox.creator);
    }
    proof {
        assert(msgs.deep_view() == open_messages(
            b,
            jj,
            opener@,
            funds.deep_view()[0],
            pre.config.injscribed_address,
        )) by {
            if !(b.rewards[jj].count == 1) {
                assert(msgs.deep_view() =~= base_msgs);
            }
        }
    }
    state.boxes.insert(i, fbox);
    proof {
        assert(state.boxes.deep_view() =~= pre.boxes.remove(i as int).insert(i as int, fbox@));
        lemma_remove_insert(pre.boxes, i as int, fbox@);
        assert(box_wf(fbox@, pre.config.max_odds)) by {
            lemma_box_after_open_wf(b, jj, pre.config.max_odds);
        }
        lemma_open_state_wf(
            pre,
            state@,
            i as int,
            fbox@,
            opener@,
            box_id@,
            reward_id,
            price,
        );
    }
    Ok(OpenBoxResponse { messages: msgs, selection_index: k, reward_id })
}

/// A sound live box is still sound after one unit of reward `j` is drawn.
proof fn lemma_box_after_open_wf(b: SpecBox, j: int, max_odds: u64)
    requires
        box_wf(b, max_odds),
        !b.is_over,
        0 <= j < b.rewards.len(),
    ensures
        box_wf(box_after_open(b, j), max_odds),
{
    let b2 = box_after_open(b, j);
    lemma_sum_odds_update(b.rewards, j, dec_count(b.rewards[j]));
    lemma_dec_count_wf(b.rewards[j]);
    assert forall|a: int| 0 <= a < b2.rewards.len() implies reward_wf(
        #[trigger] b2.rewards[a],
    ) by {
        if a != j {
            assert(b2.rewards[a] == b.rewards[a]);
        }
    }
    assert forall|a: int, c: int| 0 <= a < c < b2.rewards.len()
        implies #[trigger] b2.rewards[a].id < #[trigger] b2.rewards[c].id by {
        assert(b.rewards[a].id < b.rewards[c].id);
    }
    if !b2.is_over {
        assert forall|a: int| 0 <= a < b2.rewards.len() implies (
        #[trigger] b2.rewards[a]).count >= 1 by {
            if a != j {
                assert(b2.rewards[a] == b.rewards[a]);
            }
        }
    }
}

/// Opens a box: seeds the draw from the block timestamp — its decimal text,
/// hashed — then resolves as `open_box_post` says for that digest.
pub fn execute_open_box(
    state: &mut LootboxState,
    box_id: &String,
    opener: &String,
    funds: &Vec<Coin>,
    time_seconds: u64,
) -> (r: Result<OpenBoxResponse, ContractError>)
    requires
        state_wf(old(state)@),
        open_box_fits(old(state)@, box_id@, opener@, funds.deep_view()),
    ensures
        state_wf(final(state)@),
        open_box_post(
            old(state)@,
            final(state)@,
            box_id@,
            opener@,
            funds.deep_view(),
            sha256_of(decimal_digits(time_seconds as int)),
            r,
        ),
{
    let seed = u64_decimal_bytes(time_seconds);
    let digest = sha256_digest(&seed);
    open_box_with_digest(state, box_id, opener, funds, &digest)
}


// ---------------------------------------------------------------------------
// Queries
// ---------------------------------------------------------------------------

/// A clone of an optional string, equal in the model.
fn clone_opt_string(o: &Option<String>) -> (c: Option<String>)
    ensures
        c.deep_view() == o.deep_view(),
{
    match o {
        None => None,
        Some(s) => Some(s.clone()),
    }
}

/// A clone of one reward record, equal in the model.
fn clone_reward(r: &RewardData) -> (c: RewardData)
    ensures
        c@ == r@,
{
    RewardData {
        id: r.id,
        reward_type: r.reward_type,
        collection_addr: clone_opt_string(&r.collection_addr),
        nft_id: clone_opt_string(&r.nft_id),
        denom: clone_opt_string(&r.denom),
        amount: r.amount,
        decimals: r.decimals,
        odds: r.odds,
        count: r.count,
    }
}

/// A clone of a reward sequence, equal in the model.
#[verifier::loop_isolation(false)]
fn clone_rewards(v: &Vec<RewardData>) -> (c: Vec<RewardData>)
    ensures
        c.deep_view() == v.deep_view(),
{
    let mut c: Vec<RewardData> = Vec::new();
    let mut i: usize = 0;
    while i < v.len()
        invariant
            i <= v.len(),
            c.deep_view() == v.deep_view().take(i as int),
        decreases v.len() - i,
    {
        c.push(clone_reward(&v[i]));
        i += 1;
        proof {
            assert(c.deep_view() =~= v.deep_view().take(i as int));
        }
    }
    proof {
        assert(v.deep_view().take(v.len() as int) =~= v.deep_view());
    }
    c
}

/// A clone of a vector of won reward ids, equal in the model.
#[verifier::loop_isolation(false)]
fn clone_ids(v: &Vec<u64>) -> (c: Vec<u64>)
    ensures
        c@ == v@,
{
    let mut c: Vec<u64> = Vec::new();
    let mut i: usize = 0;
    while i < v.len()
        invariant
            i <= v.len(),
            c@ == v@.take(i as int),
        decreases v.len() - i,
    {
        c.push(v[i]);
        i += 1;
        proof {
            assert(c@ =~= v@.take(i as int));
        }
    }
    proof {
        assert(v@.take(v.len() as int) =~= v@);
    }
    c
}

/// A clone of a winner audit entry, equal in the model.
fn clone_winner(w: &WinnerStruct) -> (c: WinnerStruct)
    ensures
        c@ == w@,
{
    WinnerStruct { address: w.address.clone(), rewards: clone_rewards(&w.rewards) }
}

/// A clone of the optional winner log, equal in the model.
#[verifier::loop_isolation(false)]
fn clone_winners(o: &Option<Vec<WinnerStruct>>) -> (c: Option<Vec<WinnerStruct>>)
    ensures
        c.deep_view() == o.deep_view(),
{
    match o {
        None => None,
        Some(ws) => {
            let mut c: Vec<WinnerStruct> = Vec::new();
            let mut i: usize = 0;
            while i < ws.len()
                invariant
                    i <= ws.len(),
                    c.deep_view() == ws.deep_view().take(i as int),
                decreases ws.len() - i,
            {
                c.push(clone_winner(&ws[i]));
                i += 1;
                proof {
                    assert(c.deep_view() =~= ws.deep_view().take(i as int));
                }
            }
            proof {
                assert(ws.deep_view().take(ws.len() as int) =~= ws.deep_view());
            }
            Some(c)
        },
    }
}

/// A clone of one stored box, equal in the model.
fn clone_box(b: &FortuneBox) -> (c: FortuneBox)
    ensures
        c@ == b@,
{
    FortuneBox {
        id: b.id.clone(),
        creator: b.creator.clone(),
        rewards: clone_rewards(&b.rewards),
        max_odds: b.max_odds,
        price: b.price,
        token_denom: b.token_denom.clone(),
        token_decimals: b.token_decimals,
        token_type: b.token_type.clone(),
        duration: b.duration,
        is_over: b.is_over,
        is_featured: b.is_featured,
        winners: clone_winners(&b.winners),
    }
}

/// A clone of one user record, equal in the model.
#[verifier::loop_isolation(false)]
fn clone_user(u: &UserInfo) -> (c: UserInfo)
    ensures
        c@ == u@,
{
    let mut entries: Vec<UserBoxRewards> = Vec::new();
    let mut i: usize = 0;
    while i < u.rewards.len()
        invariant
            i <= u.rewards.len(),
            entries.deep_view() == u.rewards.deep_view().take(i as int),
        decreases u.rewards.len() - i,
    {
        let e = &u.rewards[i];
        entries.push(UserBoxRewards { box_id: e.box_id.clone(), reward_ids: clone_ids(&e.reward_ids) });
        i += 1;
        proof {
            assert(entries.deep_view() =~= u.rewards.deep_view().take(i as int));
        }
    }
    proof {
        assert(u.rewards.deep_view().take(u.rewards@.len() as int) =~= u.rewards.deep_view());
    }
    UserInfo {
        address: u.address.clone(),
        box_created: u.box_created,
        inj_spent: u.inj_spent,
        tokens_spent: u.tokens_spent,
        box_opened: u.box_opened,
        rewards: entries,
    }
}

/// The configuration snapshot a query returns.
pub fn query_config(state: &LootboxState) -> (r: ConfigResponse)
    ensures
        r.owner@ == state@.config.owner,
        r.token@ == state@.config.native_token,
        r.injscribed_address@ == state@.config.injscribed_address,
        r.feature_fees == state@.config.feature_fees,
{
    ConfigResponse {
        owner: state.config.owner.clone(),
        token: state.config.native_token.clone(),
        injscribed_address: state.config.injscribed_address.clone(),
        feature_fees: state.config.feature_fees,
    }
}

/// Every stored box, in storage order: a read-only mirror of the registry.
#[verifier::loop_isolation(false)]
pub fn query_boxes(state: &LootboxState) -> (r: BoxesResponse)
    ensures
        r.boxes.deep_view() == state@.boxes,
{
    let mut boxes: Vec<FortuneBox> = Vec::new();
    let mut i: usize = 0;
    while i < state.boxes.len()
        invariant
            i <= state.boxes.len(),
            boxes.deep_view() == state@.boxes.take(i as int),
        decreases state.boxes.len() - i,
    {
        boxes.push(clone_box(&state.boxes[i]));
        i += 1;
        proof {
            assert(boxes.deep_view() =~= state@.boxes.take(i as int));
        }
    }
    proof {
        assert(state@.boxes.take(state.boxes@.len() as int) =~= state@.boxes);
    }
    BoxesResponse { boxes }
}

/// Every stored user record, in storage order: a read-only mirror of the
/// ledger.
#[verifier::loop_isolation(false)]
pub fn query_users(state: &LootboxState) -> (r: UsersInfoResponse)
    ensures
        r.users.deep_view() == state@.users,
{
    let mut users: Vec<UserInfo> = Vec::new();
    let mut i: usize = 0;
    while i < state.users.len()
        invariant
            i <= state.users.len(),
            users.deep_view() == state@.users.take(i as int),
        decreases state.users.len() - i,
    {
        users.push(clone_user(&state.users[i]));
        i += 1;
        proof {
            assert(users.deep_view() =~= state@.users.take(i as int));
        }
    }
    proof {
        assert(state@.users.take(state.users@.len() as int) =~= state@.users);
    }
    UsersInfoResponse { users }
}

/// Everything a read-only query returns: the matching snapshot, untouched
/// state being implicit in the shared borrow.
pub open spec fn query_post(pre: SpecState, msg: QueryMsg, r: QueryAnswer) -> bool {
    match msg {
        QueryMsg::GetConfig => {
            &&& r is Config
            &&& (r->Config_0).owner@ == pre.config.owner
            &&& (r->Config_0).token@ == pre.config.native_token
            &&& (r->Config_0).injscribed_address@ == pre.config.injscribed_address
            &&& (r->Config_0).feature_fees == pre.config.feature_fees
        },
        QueryMsg::GetBoxes => r is Boxes && (r->Boxes_0).boxes.deep_view() == pre.boxes,
        QueryMsg::GetUsers => r is Users && (r->Users_0).users.deep_view() == pre.users,
    }
}

/// Answers one read-only query with the matching snapshot.
pub fn query(state: &LootboxState, msg: QueryMsg) -> (r: QueryAnswer)
    ensures
        query_post(state@, msg, r),
{
    match msg {
        QueryMsg::GetConfig => QueryAnswer::Config(query_config(state)),
        QueryMsg::GetBoxes => QueryAnswer::Boxes(query_boxes(state)),
        QueryMsg::GetUsers => QueryAnswer::Users(query_users(state)),
    }
}


// ---------------------------------------------------------------------------
// Dispatch
// ---------------------------------------------------------------------------

/// The preconditions of whichever operation the request names.
pub open spec fn execute_fits(
    pre: SpecState,
    sender: Seq<char>,
    funds: Seq<crate::state::SpecCoin>,
    msg: ExecuteMsg,
) -> bool {
    match msg {
        ExecuteMsg::CreateBox { .. } => funds.len() >= 1,
        ExecuteMsg::ReceiveNft(m) => (m matches NftReceiveMsg::AddNftReward { box_id, odds, .. }
            ==> add_one_fits(pre, box_id@, odds)),
        ExecuteMsg::Receive(m) => receive_token_msg_fits(pre, m),
        ExecuteMsg::AddTokenFactoryReward { box_id, rewards } => add_tf_fits(
            pre,
            box_id@,
            rewards.deep_view(),
        ),
        ExecuteMsg::OpenBox { box_id } => open_box_fits(pre, box_id@, sender, funds),
        ExecuteMsg::CancelBox { .. } => true,
    }
}

/// Everything a dispatched request does: the named operation's contract,
/// with its result wrapped in the matching response variant.
pub open spec fn execute_post(
    pre: SpecState,
    post: SpecState,
    sender: Seq<char>,
    funds: Seq<crate::state::SpecCoin>,
    time_seconds: u64,
    msg: ExecuteMsg,
    r: Result<ExecuteResponse, ContractError>,
) -> bool {
    match msg {
        ExecuteMsg::CreateBox { box_id, price, token_denom, token_decimals, token_type, duration } => {
            &&& (r is Ok ==> r->Ok_0 is Created && create_box_post(
                pre,
                post,
                sender,
                funds,
                box_id@,
                price,
                token_denom@,
                token_decimals,
                token_type@,
                duration,
                Ok(()),
            ))
            &&& (r is Err ==> create_box_post(
                pre,
                post,
                sender,
                funds,
                box_id@,
                price,
                token_denom@,
                token_decimals,
                token_type@,
                duration,
                Err(r->Err_0),
            ))
        },
        ExecuteMsg::ReceiveNft(m) => {
            m matches NftReceiveMsg::AddNftReward { box_id, collection_addr, nft_id, odds } ==> {
                &&& (r is Ok ==> r->Ok_0 is RewardAdded && receive_nft_post(
                    pre,
                    post,
                    sender,
                    box_id@,
                    collection_addr@,
                    nft_id@,
                    odds,
                    Ok(()),
                ))
                &&& (r is Err ==> receive_nft_post(
                    pre,
                    post,
                    sender,
                    box_id@,
                    collection_addr@,
                    nft_id@,
                    odds,
                    Err(r->Err_0),
                ))
            }
        },
        ExecuteMsg::Receive(m) => {
            &&& (r is Ok ==> r->Ok_0 is RewardAdded && receive_token_msg_post(pre, post, m, Ok(())))
            &&& (r is Err ==> receive_token_msg_post(pre, post, m, Err(r->Err_0)))
        },
        ExecuteMsg::AddTokenFactoryReward { box_id, rewards } => {
            &&& (r is Ok ==> r->Ok_0 is RewardsAdded && add_tf_post(
                pre,
                post,
                funds,
                box_id@,
                rewards.deep_view(),
                Ok(r->Ok_0->RewardsAdded_0),
            ))
            &&& (r is Err ==> add_tf_post(
                pre,
                post,
                funds,
                box_id@,
                rewards.deep_view(),
                Err(r->Err_0),
            ))
        },
        ExecuteMsg::OpenBox { box_id } => {
            &&& (r is Ok ==> r->Ok_0 is Opened && open_box_post(
                pre,
                post,
                box_id@,
                sender,
                funds,
                sha256_of(decimal_digits(time_seconds as int)),
                Ok(r->Ok_0->Opened_0),
            ))
            &&& (r is Err ==> open_box_post(
                pre,
                post,
                box_id@,
                sender,
                funds,
                sha256_of(decimal_digits(time_seconds as int)),
                Err(r->Err_0),
            ))
        },
        ExecuteMsg::CancelBox { box_id } => {
            &&& (r is Ok ==> r->Ok_0 is Cancelled && cancel_box_post(
                pre,
                post,
                sender,
                box_id@,
                Ok(r->Ok_0->Cancelled_0),
            ))
            &&& (r is Err ==> cancel_box_post(pre, post, sender, box_id@, Err(r->Err_0)))
        },
    }
}

/// Dispatches one mutating request to its operation and wraps the result.
pub fn execute(
    state: &mut LootboxState,
    sender: String,
    funds: &Vec<Coin>,
    time_seconds: u64,
    msg: ExecuteMsg,
) -> (r: Result<ExecuteResponse, ContractError>)
    requires
        state_wf(old(state)@),
        execute_fits(old(state)@, sender@, funds.deep_view(), msg),
    ensures
        state_wf(final(state)@),
        execute_post(
            old(state)@,
            final(state)@,
            sender@,
            funds.deep_view(),
            time_seconds,
            msg,
            r,
        ),
{
    match msg {
        ExecuteMsg::CreateBox { box_id, price, token_denom, token_decimals, token_type, duration } => {
            match execute_create_box(
                state,
                sender,
                funds,
                box_id,
                price,
                token_denom,
                token_decimals,
                token_type,
                duration,
            ) {
                Ok(_) => Ok(ExecuteResponse::Created),
                Err(e) => Err(e),
            }
        },
        ExecuteMsg::ReceiveNft(m) => {
            match execute_receive_nft(state, &sender, m) {
                Ok(_) => Ok(ExecuteResponse::RewardAdded),
                Err(e) => Err(e),
            }
        },
        ExecuteMsg::Receive(m) => {
            match execute_receive_token(state, m) {
                Ok(_) => Ok(ExecuteResponse::RewardAdded),
                Err(e) => Err(e),
            }
        },
        ExecuteMsg::AddTokenFactoryReward { box_id, rewards } => {
            match execute_add_tokenfactory_rewards(state, funds, &box_id, rewards) {
                Ok(resp) => Ok(ExecuteResponse::RewardsAdded(resp)),
                Err(e) => Err(e),
            }
        },
        ExecuteMsg::OpenBox { box_id } => {
            match execute_open_box(state, &box_id, &sender, funds, time_seconds) {
                Ok(resp) => Ok(ExecuteResponse::Opened(resp)),
                Err(e) => Err(e),
            }
        },
        ExecuteMsg::CancelBox { box_id } => {
            match execute_cancel_box(state, &sender, &box_id) {
                Ok(msgs) => Ok(ExecuteResponse::Cancelled(msgs)),
                Err(e) => Err(e),
            }
        },
    }
}



} // verus!
