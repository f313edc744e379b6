use vstd::prelude::*;

use crate::msg::SpecTokenFactoryReward;
use crate::state::{SpecBox, SpecCoin, SpecReward, SpecState, SpecUser, SpecUserBoxRewards, RewardType};
use crate::util::SpecTransfer;

verus! {

// ---------------------------------------------------------------------------
// Sums and the weighted pool
// ---------------------------------------------------------------------------

/// The sum of the win weights of all rewards in a box: the box's used odds
/// budget, and the length of the weighted draw pool.
pub open spec fn sum_odds(rs: Seq<SpecReward>) -> int
    decreases rs.len(),
{
    if rs.len() == 0 {
        0
    } else {
        sum_odds(rs.drop_last()) + rs.last().odds
    }
}

/// `n` copies of one reward id: the slots one reward occupies in the pool.
pub open spec fn repeat_id(id: u64, n: nat) -> Seq<u64> {
    Seq::new(n, |i: int| id)
}

/// The weighted draw pool: each reward's id repeated `odds` times, in reward
/// order. A uniformly chosen slot of this pool decides the winner.
pub open spec fn pool_of(rs: Seq<SpecReward>) -> Seq<u64>
    decreases rs.len(),
{
    if rs.len() == 0 {
        Seq::empty()
    } else {
        pool_of(rs.drop_last()) + repeat_id(rs.last().id, rs.last().odds as nat)
    }
}

/// How many slots of `s` hold the id `x`.
pub open spec fn count_in(s: Seq<u64>, x: u64) -> int
    decreases s.len(),
{
    if s.len() == 0 {
        0
    } else {
        count_in(s.drop_last(), x) + (if s.last() == x { 1int } else { 0int })
    }
}

/// The summed odds of a batch of incoming multi-unit rewards.
pub open spec fn sum_tf_odds(ts: Seq<SpecTokenFactoryReward>) -> int
    decreases ts.len(),
{
    if ts.len() == 0 {
        0
    } else {
        sum_tf_odds(ts.drop_last()) + ts.last().odds
    }
}

/// The declared total value of a batch of incoming multi-unit rewards:
/// per-unit amount times unit count, summed over the batch.
pub open spec fn sum_tf_amount(ts: Seq<SpecTokenFactoryReward>) -> int
    decreases ts.len(),
{
    if ts.len() == 0 {
        0
    } else {
        sum_tf_amount(ts.drop_last()) + ts.last().amount * ts.last().count
    }
}

// ---------------------------------------------------------------------------
// Selection arithmetic
// ---------------------------------------------------------------------------

/// A byte string read as a big-endian unsigned integer.
pub open spec fn be_u64_of(s: Seq<u8>) -> int
    decreases s.len(),
{
    if s.len() == 0 {
        0
    } else {
        be_u64_of(s.drop_last()) * 256 + s.last()
    }
}

/// 256 to the `n`th power: the bound on a big-endian value of `n` bytes.
pub open spec fn pow256(n: nat) -> int
    decreases n,
{
    if n == 0 {
        1
    } else {
        256 * pow256((n - 1) as nat)
    }
}

/// The ASCII decimal digits of a non-negative integer, most significant
/// first: what feeding a number to the digest as text hashes.
pub open spec fn decimal_digits(n: int) -> Seq<u8>
    decreases n,
{
    if n < 10 {
        seq![(48 + n) as u8]
    } else {
        decimal_digits(n / 10).push((48 + n % 10) as u8)
    }
}

/// The house fee on an entry payment: five percent, truncating.
pub open spec fn fee_of(p: u128) -> int {
    p * 5 / 100
}

// ---------------------------------------------------------------------------
// Well-formedness
// ---------------------------------------------------------------------------

/// A stored reward is sound: positive id, the payload its kind needs, and a
/// remaining value that fits the machine word (the add operations computed
/// `amount * count` when the reward came in, so it fit then; counts only
/// decrease).
pub open spec fn reward_wf(r: SpecReward) -> bool {
    &&& r.id >= 1
    &&& (match r.reward_type {
        RewardType::Nft => r.collection_addr is Some && r.nft_id is Some,
        RewardType::Cw20 => r.denom is Some && r.amount is Some,
        RewardType::TokenFactory => r.denom is Some && r.amount is Some,
    })
    &&& (r.amount is Some ==> r.amount->0 * r.count <= u128::MAX)
}

/// Reward ids grow strictly along the sequence: ids are unique and assigned
/// in insertion order.
pub open spec fn ids_increasing(rs: Seq<SpecReward>) -> bool {
    forall|i: int, j: int|
        0 <= i < j < rs.len() ==> #[trigger] rs[i].id < #[trigger] rs[j].id
}

/// A stored box is sound under the odds budget `max_odds`: the budget holds,
/// every reward is sound, ids grow along the sequence, and as long as the box
/// is live every reward still has at least one unit (the draw that takes the
/// last unit of a reward finalizes the box in the same step).
pub open spec fn box_wf(b: SpecBox, max_odds: u64) -> bool {
    &&& sum_odds(b.rewards) <= max_odds
    &&& (forall|i: int| 0 <= i < b.rewards.len() ==> reward_wf(#[trigger] b.rewards[i]))
    &&& ids_increasing(b.rewards)
    &&& (!b.is_over ==> forall|i: int|
        0 <= i < b.rewards.len() ==> (#[trigger] b.rewards[i]).count >= 1)
}

/// A user record is sound: at most one entry per box id.
pub open spec fn user_wf(u: SpecUser) -> bool {
    forall|i: int, j: int|
        0 <= i < j < u.rewards.len() ==> #[trigger] u.rewards[i].box_id != #[trigger] u.rewards[j].box_id
}

/// The whole state is sound: every box is sound and box ids are unique;
/// every user record is sound and user addresses are unique.
pub open spec fn state_wf(s: SpecState) -> bool {
    &&& (forall|i: int| 0 <= i < s.boxes.len() ==> box_wf(#[trigger] s.boxes[i], s.config.max_odds))
    &&& (forall|i: int, j: int|
        0 <= i < j < s.boxes.len() ==> #[trigger] s.boxes[i].id != #[trigger] s.boxes[j].id)
    &&& (forall|i: int| 0 <= i < s.users.len() ==> user_wf(#[trigger] s.users[i]))
    &&& (forall|i: int, j: int|
        0 <= i < j < s.users.len() ==> #[trigger] s.users[i].address != #[trigger] s.users[j].address)
}

// ---------------------------------------------------------------------------
// Lookups
// ---------------------------------------------------------------------------

/// Whether a box with this id is stored.
pub open spec fn has_box(boxes: Seq<SpecBox>, id: Seq<char>) -> bool {
    exists|i: int| 0 <= i < boxes.len() && #[trigger] boxes[i].id == id
}

/// The index of the box with this id (unique when the state is sound).
pub open spec fn box_idx(boxes: Seq<SpecBox>, id: Seq<char>) -> int {
    choose|i: int| 0 <= i < boxes.len() && #[trigger] boxes[i].id == id
}

/// Whether a user record with this address is stored.
pub open spec fn has_user(users: Seq<SpecUser>, address: Seq<char>) -> bool {
    exists|i: int| 0 <= i < users.len() && #[trigger] users[i].address == address
}

/// The index of the user record with this address.
pub open spec fn user_idx(users: Seq<SpecUser>, address: Seq<char>) -> int {
    choose|i: int| 0 <= i < users.len() && #[trigger] users[i].address == address
}

/// Whether some reward in the sequence has this id.
pub open spec fn has_reward(rs: Seq<SpecReward>, id: u64) -> bool {
    exists|i: int| 0 <= i < rs.len() && #[trigger] rs[i].id == id
}

/// The index of the reward with this id.
pub open spec fn reward_idx(rs: Seq<SpecReward>, id: u64) -> int {
    choose|i: int| 0 <= i < rs.len() && #[trigger] rs[i].id == id
}

/// Whether the user already has a won-rewards entry for this box.
pub open spec fn has_entry(es: Seq<SpecUserBoxRewards>, box_id: Seq<char>) -> bool {
    exists|i: int| 0 <= i < es.len() && #[trigger] es[i].box_id == box_id
}

/// The index of the user's won-rewards entry for this box.
pub open spec fn entry_idx(es: Seq<SpecUserBoxRewards>, box_id: Seq<char>) -> int {
    choose|i: int| 0 <= i < es.len() && #[trigger] es[i].box_id == box_id
}

// ---------------------------------------------------------------------------
// Transfer instructions
// ---------------------------------------------------------------------------

/// The instruction that hands one won unit of a reward to the opener: a
/// one-unit value transfer for fungible and multi-unit rewards, an ownership
/// transfer for non-fungible ones.
pub open spec fn won_reward_msg(r: SpecReward, recipient: Seq<char>) -> SpecTransfer {
    match r.reward_type {
        RewardType::Nft => SpecTransfer::NftTransfer {
            collection_addr: r.collection_addr->0,
            nft_id: r.nft_id->0,
            recipient,
        },
        RewardType::TokenFactory => SpecTransfer::Bank {
            denom: r.denom->0,
            amount: r.amount->0,
            to_address: recipient,
        },
        RewardType::Cw20 => SpecTransfer::Cw20Transfer {
            contract_addr: r.denom->0,
            amount: r.amount->0,
            recipient,
        },
    }
}

/// The instruction that refunds one reward's whole remaining inventory:
/// amount times remaining count for fungible and multi-unit rewards, an
/// ownership transfer for non-fungible ones.
pub open spec fn refund_msg(r: SpecReward, recipient: Seq<char>) -> SpecTransfer {
    match r.reward_type {
        RewardType::Nft => SpecTransfer::NftTransfer {
            collection_addr: r.collection_addr->0,
            nft_id: r.nft_id->0,
            recipient,
        },
        RewardType::TokenFactory => SpecTransfer::Bank {
            denom: r.denom->0,
            amount: (r.amount->0 * r.count) as u128,
            to_address: recipient,
        },
        RewardType::Cw20 => SpecTransfer::Cw20Transfer {
            contract_addr: r.denom->0,
            amount: (r.amount->0 * r.count) as u128,
            recipient,
        },
    }
}

/// One refund instruction for each reward that still holds inventory, in
/// reward order: what cancellation sends the caller and what the termination
/// sweep sends the creator.
pub open spec fn refund_msgs(rs: Seq<SpecReward>, recipient: Seq<char>) -> Seq<SpecTransfer>
    decreases rs.len(),
{
    if rs.len() == 0 {
        Seq::empty()
    } else {
        refund_msgs(rs.drop_last(), recipient)
            + (if rs.last().count > 0 {
                seq![refund_msg(rs.last(), recipient)]
            } else {
                Seq::<SpecTransfer>::empty()
            })
    }
}

/// The fee split of an entry payment: the payment minus the house fee to the
/// box creator, the house fee to the configured fee recipient. The two
/// amounts sum to the payment.
pub open spec fn settlement_msgs(
    payment: SpecCoin,
    creator: Seq<char>,
    fee_recipient: Seq<char>,
) -> Seq<SpecTransfer> {
    seq![
        SpecTransfer::Bank {
            denom: payment.denom,
            amount: (payment.amount - fee_of(payment.amount)) as u128,
            to_address: creator,
        },
        SpecTransfer::Bank {
            denom: payment.denom,
            amount: fee_of(payment.amount) as u128,
            to_address: fee_recipient,
        },
    ]
}

// ---------------------------------------------------------------------------
// State transitions of a successful open
// ---------------------------------------------------------------------------

/// The drawn reward with one unit taken.
pub open spec fn dec_count(r: SpecReward) -> SpecReward {
    SpecReward {
        id: r.id,
        reward_type: r.reward_type,
        collection_addr: r.collection_addr,
        nft_id: r.nft_id,
        denom: r.denom,
        amount: r.amount,
        decimals: r.decimals,
        odds: r.odds,
        count: (r.count - 1) as u64,
    }
}

/// The box after reward `j` was drawn: that reward loses one unit, and the
/// box is finalized exactly when that unit was its last.
pub open spec fn box_after_open(b: SpecBox, j: int) -> SpecBox {
    SpecBox {
        id: b.id,
        creator: b.creator,
        rewards: b.rewards.update(j, dec_count(b.rewards[j])),
        max_odds: b.max_odds,
        price: b.price,
        token_denom: b.token_denom,
        token_decimals: b.token_decimals,
        token_type: b.token_type,
        duration: b.duration,
        is_over: b.rewards[j].count == 1,
        is_featured: b.is_featured,
        winners: b.winners,
    }
}

/// Every instruction a successful open of box `b` emits, in order: the won
/// unit to the opener, the fee split of the payment, and, when the draw
/// finalized the box, one refund per reward still holding inventory back to
/// the creator.
pub open spec fn open_messages(
    b: SpecBox,
    j: int,
    opener: Seq<char>,
    payment: SpecCoin,
    fee_recipient: Seq<char>,
) -> Seq<SpecTransfer> {
    let base = seq![won_reward_msg(b.rewards[j], opener)]
        + settlement_msgs(payment, b.creator, fee_recipient);
    if b.rewards[j].count == 1 {
        base + refund_msgs(box_after_open(b, j).rewards, b.creator)
    } else {
        base
    }
}

/// An existing user record after one successful open: one more opened box,
/// the entry price added to the native spend, and the won reward id appended
/// to this box's list (the list is created if absent).
pub open spec fn user_after_open(
    u: SpecUser,
    box_id: Seq<char>,
    reward_id: u64,
    price: u128,
) -> SpecUser {
    let entries = if has_entry(u.rewards, box_id) {
        let k = entry_idx(u.rewards, box_id);
        u.rewards.update(
            k,
            SpecUserBoxRewards {
                box_id: u.rewards[k].box_id,
                reward_ids: u.rewards[k].reward_ids.push(reward_id),
            },
        )
    } else {
        u.rewards.push(SpecUserBoxRewards { box_id, reward_ids: seq![reward_id] })
    };
    SpecUser {
        address: u.address,
        box_created: u.box_created,
        inj_spent: (u.inj_spent + price) as u128,
        tokens_spent: u.tokens_spent,
        box_opened: (u.box_opened + 1) as u64,
        rewards: entries,
    }
}

/// The record created for a first-time opener.
pub open spec fn fresh_user_after_open(
    address: Seq<char>,
    box_id: Seq<char>,
    reward_id: u64,
    price: u128,
) -> SpecUser {
    SpecUser {
        address,
        box_created: 0,
        inj_spent: price,
        tokens_spent: 0,
        box_opened: 1,
        rewards: seq![SpecUserBoxRewards { box_id, reward_ids: seq![reward_id] }],
    }
}

/// The user ledger after one successful open by `opener`.
pub open spec fn users_after_open(
    users: Seq<SpecUser>,
    opener: Seq<char>,
    box_id: Seq<char>,
    reward_id: u64,
    price: u128,
) -> Seq<SpecUser> {
    if has_user(users, opener) {
        let k = user_idx(users, opener);
        users.update(k, user_after_open(users[k], box_id, reward_id, price))
    } else {
        users.push(fresh_user_after_open(opener, box_id, reward_id, price))
    }
}

// ---------------------------------------------------------------------------
// Incoming batch rewards
// ---------------------------------------------------------------------------

/// The stored form of one incoming multi-unit reward, under its assigned id.
pub open spec fn tf_to_reward(t: SpecTokenFactoryReward, id: u64) -> SpecReward {
    SpecReward {
        id,
        reward_type: RewardType::TokenFactory,
        collection_addr: None,
        nft_id: None,
        denom: Some(t.token_denom),
        amount: Some(t.amount),
        decimals: Some(t.token_decimals),
        odds: t.odds,
        count: t.count,
    }
}

/// The id the next appended reward gets: one past the last assigned id, and
/// one for the first reward of a box.
pub open spec fn next_reward_id(rs: Seq<SpecReward>) -> int {
    if rs.len() == 0 {
        1
    } else {
        rs.last().id + 1
    }
}

/// The same box with its reward sequence replaced.
pub open spec fn box_with_rewards(b: SpecBox, rs: Seq<SpecReward>) -> SpecBox {
    SpecBox {
        id: b.id,
        creator: b.creator,
        rewards: rs,
        max_odds: b.max_odds,
        price: b.price,
        token_denom: b.token_denom,
        token_decimals: b.token_decimals,
        token_type: b.token_type,
        duration: b.duration,
        is_over: b.is_over,
        is_featured: b.is_featured,
        winners: b.winners,
    }
}

/// The batch of incoming multi-unit rewards in stored form, ids assigned
/// sequentially from `first_id`.
pub open spec fn tf_batch_rewards(batch: Seq<SpecTokenFactoryReward>, first_id: int) -> Seq<
    SpecReward,
> {
    Seq::new(batch.len(), |t: int| tf_to_reward(batch[t], (first_id + t) as u64))
}

// ---------------------------------------------------------------------------
// Lemmas about sums and the pool
// ---------------------------------------------------------------------------


/// Appending one reward adds exactly its odds to the budget.
pub proof fn lemma_sum_odds_push(rs: Seq<SpecReward>, r: SpecReward)
    ensures
        sum_odds(rs.push(r)) == sum_odds(rs) + r.odds,
{
    assert(rs.push(r).drop_last() =~= rs);
}

/// Replacing a reward by one with the same odds leaves the budget unchanged.
pub proof fn lemma_sum_odds_update(rs: Seq<SpecReward>, j: int, r: SpecReward)
    requires
        0 <= j < rs.len(),
        r.odds == rs[j].odds,
    ensures
        sum_odds(rs.update(j, r)) == sum_odds(rs),
    decreases rs.len(),
{
    let upd = rs.update(j, r);
    if j == rs.len() - 1 {
        assert(upd.drop_last() =~= rs.drop_last());
    } else {
        assert(upd.drop_last() =~= rs.drop_last().update(j, r));
        lemma_sum_odds_update(rs.drop_last(), j, r);
    }
}

/// One loop step of an odds sum over a prefix of a batch.
pub proof fn lemma_sum_tf_odds_take_step(ts: Seq<SpecTokenFactoryReward>, t: int)
    requires
        0 <= t < ts.len(),
    ensures
        sum_tf_odds(ts.take(t + 1)) == sum_tf_odds(ts.take(t)) + ts[t].odds,
{
    assert(ts.take(t + 1).drop_last() =~= ts.take(t));
}

/// One loop step of a declared-value sum over a prefix of a batch.
pub proof fn lemma_sum_tf_amount_take_step(ts: Seq<SpecTokenFactoryReward>, t: int)
    requires
        0 <= t < ts.len(),
    ensures
        sum_tf_amount(ts.take(t + 1)) == sum_tf_amount(ts.take(t)) + ts[t].amount * ts[t].count,
{
    assert(ts.take(t + 1).drop_last() =~= ts.take(t));
}

/// The declared value of a batch never counts a line negatively.
pub proof fn lemma_sum_tf_amount_nonneg(ts: Seq<SpecTokenFactoryReward>)
    ensures
        0 <= sum_tf_amount(ts),
    decreases ts.len(),
{
    if ts.len() > 0 {
        lemma_sum_tf_amount_nonneg(ts.drop_last());
        assert(0 <= ts.last().amount * ts.last().count) by (nonlinear_arith);
    }
}

/// The odds of a batch never count a line negatively.
pub proof fn lemma_sum_tf_odds_nonneg(ts: Seq<SpecTokenFactoryReward>)
    ensures
        0 <= sum_tf_odds(ts),
    decreases ts.len(),
{
    if ts.len() > 0 {
        lemma_sum_tf_odds_nonneg(ts.drop_last());
    }
}

/// The pool holds exactly one slot per point of odds: its length is the
/// box's used odds budget.
pub proof fn lemma_pool_len(rs: Seq<SpecReward>)
    ensures
        pool_of(rs).len() == sum_odds(rs),
    decreases rs.len(),
{
    if rs.len() > 0 {
        lemma_pool_len(rs.drop_last());
    }
}

/// One loop step of building the pool.
pub proof fn lemma_pool_take_step(rs: Seq<SpecReward>, i: int)
    requires
        0 <= i < rs.len(),
    ensures
        pool_of(rs.take(i + 1)) == pool_of(rs.take(i)) + repeat_id(rs[i].id, rs[i].odds as nat),
{
    assert(rs.take(i + 1).drop_last() =~= rs.take(i));
}

/// One loop step of building refund instructions.
pub proof fn lemma_refund_msgs_take_step(rs: Seq<SpecReward>, recipient: Seq<char>, i: int)
    requires
        0 <= i < rs.len(),
    ensures
        refund_msgs(rs.take(i + 1), recipient) == refund_msgs(rs.take(i), recipient)
            + (if rs[i].count > 0 {
                seq![refund_msg(rs[i], recipient)]
            } else {
                Seq::<SpecTransfer>::empty()
            }),
{
    assert(rs.take(i + 1).drop_last() =~= rs.take(i));
}

/// One loop step of an odds sum over a prefix of a reward sequence.
pub proof fn lemma_sum_odds_take_step(rs: Seq<SpecReward>, k: int)
    requires
        0 <= k < rs.len(),
    ensures
        sum_odds(rs.take(k + 1)) == sum_odds(rs.take(k)) + rs[k].odds,
{
    assert(rs.take(k + 1).drop_last() =~= rs.take(k));
}

/// A prefix never sums to more odds than the whole sequence.
pub proof fn lemma_sum_odds_take_le(rs: Seq<SpecReward>, k: int)
    requires
        0 <= k <= rs.len(),
    ensures
        sum_odds(rs.take(k)) <= sum_odds(rs),
    decreases rs.len() - k,
{
    if k == rs.len() {
        assert(rs.take(k) =~= rs);
    } else {
        lemma_sum_odds_take_step(rs, k);
        lemma_sum_odds_take_le(rs, k + 1);
    }
}

/// A prefix never sums to more odds than the whole batch.
pub proof fn lemma_sum_tf_odds_take_le(ts: Seq<SpecTokenFactoryReward>, k: int)
    requires
        0 <= k <= ts.len(),
    ensures
        sum_tf_odds(ts.take(k)) <= sum_tf_odds(ts),
    decreases ts.len() - k,
{
    if k == ts.len() {
        assert(ts.take(k) =~= ts);
    } else {
        lemma_sum_tf_odds_take_step(ts, k);
        lemma_sum_tf_odds_take_le(ts, k + 1);
    }
}

/// A prefix never sums to more declared value than the whole batch.
pub proof fn lemma_sum_tf_amount_take_le(ts: Seq<SpecTokenFactoryReward>, k: int)
    requires
        0 <= k <= ts.len(),
    ensures
        sum_tf_amount(ts.take(k)) <= sum_tf_amount(ts),
    decreases ts.len() - k,
{
    if k == ts.len() {
        assert(ts.take(k) =~= ts);
    } else {
        lemma_sum_tf_amount_take_step(ts, k);
        assert(0 <= ts[k].amount * ts[k].count) by (nonlinear_arith);
        lemma_sum_tf_amount_take_le(ts, k + 1);
    }
}

/// One line's declared value never exceeds the batch's declared total.
pub proof fn lemma_sum_tf_amount_term_le(ts: Seq<SpecTokenFactoryReward>, t: int)
    requires
        0 <= t < ts.len(),
    ensures
        ts[t].amount * ts[t].count <= sum_tf_amount(ts),
    decreases ts.len(),
{
    if t == ts.len() - 1 {
        lemma_sum_tf_amount_nonneg(ts.drop_last());
    } else {
        lemma_sum_tf_amount_term_le(ts.drop_last(), t);
        assert(0 <= ts.last().amount * ts.last().count) by (nonlinear_arith);
    }
}

/// A sound live box stays sound when a sound reward with a fresh, larger id,
/// at least one unit and affordable odds is appended.
pub proof fn lemma_box_push_reward_wf(b: SpecBox, r: SpecReward, max_odds: u64)
    requires
        box_wf(b, max_odds),
        reward_wf(r),
        sum_odds(b.rewards) + r.odds <= max_odds,
        next_reward_id(b.rewards) <= r.id,
        !b.is_over ==> r.count >= 1,
    ensures
        box_wf(box_with_rewards(b, b.rewards.push(r)), max_odds),
{
    lemma_sum_odds_push(b.rewards, r);
    let rs = b.rewards.push(r);
    assert forall|i: int, j: int| 0 <= i < j < rs.len() implies #[trigger] rs[i].id
        < #[trigger] rs[j].id by {
        if j == rs.len() - 1 {
            if i < b.rewards.len() - 1 {
                assert(b.rewards[i].id < b.rewards[b.rewards.len() - 1].id);
            }
        }
    }
}

/// A sound state stays sound when one box is replaced by a sound box with
/// the same id.
pub proof fn lemma_update_box_wf(pre: SpecState, post: SpecState, i: int, b: SpecBox)
    requires
        state_wf(pre),
        0 <= i < pre.boxes.len(),
        b.id == pre.boxes[i].id,
        box_wf(b, pre.config.max_odds),
        post.config == pre.config,
        post.users == pre.users,
        post.boxes == pre.boxes.update(i, b),
    ensures
        state_wf(post),
{
    assert forall|a: int| 0 <= a < post.boxes.len() implies box_wf(
        #[trigger] post.boxes[a],
        post.config.max_odds,
    ) by {
        if a != i {
            assert(post.boxes[a] == pre.boxes[a]);
        }
    }
    assert forall|a: int, c: int| 0 <= a < c < post.boxes.len() implies #[trigger] post.boxes[a].id
        != #[trigger] post.boxes[c].id by {
        assert(pre.boxes[a].id != pre.boxes[c].id);
    }
}

/// How often an id appears among `n` copies of another.
pub proof fn lemma_count_repeat(id: u64, n: nat, x: u64)
    ensures
        count_in(repeat_id(id, n), x) == if x == id { n as int } else { 0 },
    decreases n,
{
    if n == 0 {
    } else {
        assert(repeat_id(id, n).drop_last() =~= repeat_id(id, (n - 1) as nat));
        lemma_count_repeat(id, (n - 1) as nat, x);
    }
}

/// Counting slots distributes over concatenation.
pub proof fn lemma_count_concat(a: Seq<u64>, b: Seq<u64>, x: u64)
    ensures
        count_in(a + b, x) == count_in(a, x) + count_in(b, x),
    decreases b.len(),
{
    if b.len() == 0 {
        assert(a + b =~= a);
    } else {
        assert((a + b).drop_last() =~= a + b.drop_last());
        lemma_count_concat(a, b.drop_last(), x);
    }
}

/// An id no reward carries fills no slot of the pool.
pub proof fn lemma_pool_count_absent(rs: Seq<SpecReward>, x: u64)
    requires
        forall|i: int| 0 <= i < rs.len() ==> #[trigger] rs[i].id != x,
    ensures
        count_in(pool_of(rs), x) == 0,
    decreases rs.len(),
{
    if rs.len() > 0 {
        lemma_pool_count_absent(rs.drop_last(), x);
        lemma_count_repeat(rs.last().id, rs.last().odds as nat, x);
        lemma_count_concat(
            pool_of(rs.drop_last()),
            repeat_id(rs.last().id, rs.last().odds as nat),
            x,
        );
    }
}

/// Every slot of the pool names a stored reward with positive odds.
pub proof fn lemma_pool_slot_is_reward(rs: Seq<SpecReward>, k: int)
    requires
        0 <= k < pool_of(rs).len(),
    ensures
        exists|j: int|
            0 <= j < rs.len() && #[trigger] rs[j].id == pool_of(rs)[k] && rs[j].odds > 0,
    decreases rs.len(),
{
    let prefix = pool_of(rs.drop_last());
    if k < prefix.len() {
        lemma_pool_slot_is_reward(rs.drop_last(), k);
        let j = choose|j: int|
            0 <= j < rs.drop_last().len() && #[trigger] rs.drop_last()[j].id == prefix[k]
                && rs.drop_last()[j].odds > 0;
        assert(pool_of(rs)[k] == prefix[k]);
        assert(rs[j].id == pool_of(rs)[k] && rs[j].odds > 0);
    } else {
        let j = rs.len() - 1;
        assert(pool_of(rs)[k] == repeat_id(rs.last().id, rs.last().odds as nat)[k - prefix.len()]);
        assert(rs[j].id == pool_of(rs)[k] && rs[j].odds > 0);
    }
}

/// Law: the weighted pool a resolution draws from has one slot per point of
/// odds, and the reward at position `j` fills exactly `odds_j` of its
/// `sum-of-odds` slots — so a uniformly chosen slot selects reward `j` with
/// probability odds_j / sum-of-odds.
pub proof fn lemma_pool_weight(rs: Seq<SpecReward>, j: int)
    requires
        ids_increasing(rs),
        0 <= j < rs.len(),
    ensures
        pool_of(rs).len() == sum_odds(rs),
        count_in(pool_of(rs), rs[j].id) == rs[j].odds,
    decreases rs.len(),
{
    lemma_pool_len(rs);
    let prefix = pool_of(rs.drop_last());
    let rep = repeat_id(rs.last().id, rs.last().odds as nat);
    lemma_count_concat(prefix, rep, rs[j].id);
    lemma_count_repeat(rs.last().id, rs.last().odds as nat, rs[j].id);
    if j == rs.len() - 1 {
        assert(forall|i: int|
            0 <= i < rs.drop_last().len() ==> #[trigger] rs.drop_last()[i].id != rs[j].id);
        lemma_pool_count_absent(rs.drop_last(), rs[j].id);
    } else {
        lemma_pool_weight(rs.drop_last(), j);
        assert(rs[j].id != rs.last().id);
    }
}

/// Law: for an entry payment `p`, the amount sent to the box creator plus
/// the amount sent to the fee recipient equals `p`, and the fee is five
/// percent of `p`, truncating.
pub proof fn lemma_fee_split(p: u128)
    ensures
        fee_of(p) == p * 5 / 100,
        0 <= fee_of(p) <= p,
        (p - fee_of(p)) + fee_of(p) == p,
{
    assert(0 <= p * 5 / 100 <= p) by (nonlinear_arith);
}

/// Law: in a sound state no box's rewards ever sum to more odds than the
/// configured budget allows.
pub proof fn lemma_odds_budget(s: SpecState, i: int)
    requires
        state_wf(s),
        0 <= i < s.boxes.len(),
    ensures
        sum_odds(s.boxes[i].rewards) <= s.config.max_odds,
{
}

/// Taking an element out and putting another back in its place is an update.
pub proof fn lemma_remove_insert<T>(s: Seq<T>, i: int, v: T)
    requires
        0 <= i < s.len(),
    ensures
        s.remove(i).insert(i, v) == s.update(i, v),
{
    assert(s.remove(i).insert(i, v) =~= s.update(i, v));
}


// ---------------------------------------------------------------------------
// Lemmas about selection arithmetic
// ---------------------------------------------------------------------------


/// One loop step of reading a big-endian value.
pub proof fn lemma_be_u64_take_step(s: Seq<u8>, i: int)
    requires
        0 <= i < s.len(),
    ensures
        be_u64_of(s.take(i + 1)) == be_u64_of(s.take(i)) * 256 + s[i],
{
    assert(s.take(i + 1).drop_last() =~= s.take(i));
}


/// How many rewards still hold at least one unit.
pub open spec fn count_positive(rs: Seq<SpecReward>) -> int
    decreases rs.len(),
{
    if rs.len() == 0 {
        0
    } else {
        count_positive(rs.drop_last()) + (if rs.last().count > 0 { 1int } else { 0int })
    }
}

/// Law: a refund batch — what cancellation hands the caller and what the
/// termination sweep hands the creator — holds exactly one instruction per
/// reward that still holds inventory.
pub proof fn lemma_refund_msgs_len(rs: Seq<SpecReward>, recipient: Seq<char>)
    ensures
        refund_msgs(rs, recipient).len() == count_positive(rs),
    decreases rs.len(),
{
    if rs.len() > 0 {
        lemma_refund_msgs_len(rs.drop_last(), recipient);
    }
}

/// Law: the draw that takes a reward's last unit finalizes the box in the
/// same step, and only that draw does; a finalizing open emits the won unit,
/// the two settlement transfers, and one sweep refund per other reward still
/// holding inventory, while any other open emits exactly the first three.
pub proof fn lemma_open_termination(
    b: SpecBox,
    j: int,
    opener: Seq<char>,
    payment: SpecCoin,
    fee_recipient: Seq<char>,
)
    requires
        0 <= j < b.rewards.len(),
        b.rewards[j].count >= 1,
    ensures
        box_after_open(b, j).is_over <==> b.rewards[j].count == 1,
        box_after_open(b, j).rewards[j].count == b.rewards[j].count - 1,
        b.rewards[j].count == 1 ==> open_messages(b, j, opener, payment, fee_recipient).len() == 3
            + count_positive(box_after_open(b, j).rewards),
        b.rewards[j].count != 1 ==> open_messages(b, j, opener, payment, fee_recipient).len() == 3,
{
    if b.rewards[j].count == 1 {
        lemma_refund_msgs_len(box_after_open(b, j).rewards, b.creator);
    }
}

/// A sound user ledger stays sound across one successful open: addresses
/// stay unique and each record keeps one entry per box.
pub proof fn lemma_users_after_open_wf(
    users: Seq<SpecUser>,
    opener: Seq<char>,
    box_id: Seq<char>,
    rid: u64,
    price: u128,
)
    requires
        forall|a: int, b: int|
            0 <= a < b < users.len() ==> #[trigger] users[a].address != #[trigger] users[b].address,
        forall|a: int| 0 <= a < users.len() ==> user_wf(#[trigger] users[a]),
    ensures
        forall|a: int, b: int|
            0 <= a < b < users_after_open(users, opener, box_id, rid, price).len()
                ==> #[trigger] users_after_open(users, opener, box_id, rid, price)[a].address
                != #[trigger] users_after_open(users, opener, box_id, rid, price)[b].address,
        forall|a: int|
            0 <= a < users_after_open(users, opener, box_id, rid, price).len() ==> user_wf(
                #[trigger] users_after_open(users, opener, box_id, rid, price)[a],
            ),
{
    let post = users_after_open(users, opener, box_id, rid, price);
    if has_user(users, opener) {
        let k = user_idx(users, opener);
        assert(0 <= k < users.len() && users[k].address == opener);
        let u2 = user_after_open(users[k], box_id, rid, price);
        assert(u2.address == users[k].address);
        assert(user_wf(u2)) by {
            let u = users[k];
            assert(user_wf(u));
            if has_entry(u.rewards, box_id) {
                let e = entry_idx(u.rewards, box_id);
                assert(0 <= e < u.rewards.len() && u.rewards[e].box_id == box_id);
                assert(forall|a: int|
                    0 <= a < u2.rewards.len() ==> #[trigger] u2.rewards[a].box_id
                        == u.rewards[a].box_id);
            } else {
                assert(forall|a: int|
                    0 <= a < u.rewards.len() ==> #[trigger] u.rewards[a].box_id != box_id);
            }
        }
        assert(forall|a: int|
            0 <= a < post.len() ==> #[trigger] post[a].address == users[a].address);
    } else {
        assert(forall|a: int| 0 <= a < users.len() ==> #[trigger] users[a].address != opener);
        assert(user_wf(post[users.len() as int]));
    }
}

} // verus!
