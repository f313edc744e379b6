use vstd::prelude::*;

use crate::model::{
    be_u64_of, box_idx, decimal_digits, entry_idx, has_box, has_entry, has_reward, has_user,
    lemma_be_u64_take_step, lemma_pool_take_step, lemma_sum_odds_take_le, lemma_sum_odds_take_step,
    lemma_sum_tf_amount_nonneg, lemma_sum_tf_amount_take_le, lemma_sum_tf_amount_take_step,
    lemma_sum_tf_odds_take_le, lemma_sum_tf_odds_take_step, next_reward_id, pool_of, pow256,
    repeat_id, reward_idx, sum_odds, sum_tf_amount, sum_tf_odds, user_idx,
};
use crate::msg::TokenFactoryReward;
use crate::state::{FortuneBox, RewardData, UserInfo, UserBoxRewards};

verus! {

/// The ASCII decimal rendering of `n`, most significant digit first: the
/// text that is fed to the digest when a draw is seeded from a timestamp.
pub fn u64_decimal_bytes(n: u64) -> (r: Vec<u8>)
    ensures
        r@ == decimal_digits(n as int),
    decreases n,
{
    if n < 10 {
        let mut v: Vec<u8> = Vec::new();
        v.push(48 + n as u8);
        proof {
            assert(v@ =~= decimal_digits(n as int));
        }
        v
    } else {
        let mut v = u64_decimal_bytes(n / 10);
        v.push(48 + (n % 10) as u8);
        v
    }
}

/// The first eight bytes of `bytes` read as a big-endian integer.
pub fn be_u64_from(bytes: &Vec<u8>) -> (r: u64)
    requires
        bytes@.len() >= 8,
    ensures
        r == be_u64_of(bytes@.take(8)),
{
    proof {
        reveal_with_fuel(pow256, 9);
    }
    let mut acc: u64 = 0;
    let mut i: usize = 0;
    while i < 8
        invariant
            i <= 8,
            bytes@.len() >= 8,
            acc == be_u64_of(bytes@.take(i as int)),
            acc < pow256(i as nat),
            pow256(8) == 0x1_0000_0000_0000_0000,
        decreases 8 - i,
    {
        proof {
            lemma_be_u64_take_step(bytes@, i as int);
            lemma_pow256_increases((i + 1) as nat, 8);
            assert(acc * 256 + 255 < pow256((i + 1) as nat)) by (nonlinear_arith)
                requires
                    acc < pow256(i as nat),
                    pow256((i + 1) as nat) == 256 * pow256(i as nat),
            ;
        }
        acc = acc * 256 + (bytes[i] as u64);
        i += 1;
    }
    proof {
        assert(bytes@.take(8) =~= bytes@.take(8int));
    }
    acc
}

/// Powers of 256 are positive.
proof fn lemma_pow256_pos(n: nat)
    ensures
        pow256(n) >= 1,
    decreases n,
{
    if n > 0 {
        lemma_pow256_pos((n - 1) as nat);
    }
}

/// The power only grows with the exponent.
proof fn lemma_pow256_increases(a: nat, b: nat)
    requires
        a <= b,
    ensures
        pow256(a) <= pow256(b),
    decreases b,
{
    if a < b {
        lemma_pow256_increases(a, (b - 1) as nat);
        lemma_pow256_pos((b - 1) as nat);
        assert(pow256(b) == 256 * pow256((b - 1) as nat));
        assert(pow256((b - 1) as nat) <= 256 * pow256((b - 1) as nat)) by (nonlinear_arith)
            requires
                pow256((b - 1) as nat) >= 1,
        ;
    }
}

/// The slot of the weighted pool a digest selects: its leading eight bytes,
/// big-endian, reduced modulo the pool length.
pub fn selection_index(digest: &Vec<u8>, pool_len: u64) -> (r: u64)
    requires
        digest@.len() >= 8,
        pool_len > 0,
    ensures
        r == be_u64_of(digest@.take(8)) % (pool_len as int),
        r < pool_len,
{
    let be = be_u64_from(digest);
    be % pool_len
}

/// Builds the weighted draw pool of a box: each reward's id, repeated as
/// many times as the reward has odds, in reward order.
pub fn build_weighted_list(rewards: &Vec<RewardData>) -> (r: Vec<u64>)
    ensures
        r@ == pool_of(rewards.deep_view()),
{
    let ghost rs = rewards.deep_view();
    let mut pool: Vec<u64> = Vec::new();
    let mut i: usize = 0;
    while i < rewards.len()
        invariant
            i <= rewards.len(),
            rs == rewards.deep_view(),
            pool@ == pool_of(rs.take(i as int)),
        decreases rewards.len() - i,
    {
        let id = rewards[i].id;
        let odds = rewards[i].odds;
        proof {
            assert(rs[i as int] == rewards[i as int]@);
        }
        let mut t: u64 = 0;
        while t < odds
            invariant
                t <= odds,
                i < rewards.len(),
                rs == rewards.deep_view(),
                id == rs[i as int].id,
                odds == rs[i as int].odds,
                pool@ == pool_of(rs.take(i as int)) + repeat_id(id, t as nat),
            decreases odds - t,
        {
            pool.push(id);
            t += 1;
            proof {
                assert(pool@ =~= pool_of(rs.take(i as int)) + repeat_id(id, t as nat));
            }
        }
        i += 1;
        proof {
            lemma_pool_take_step(rs, i - 1);
            assert(pool@ =~= pool_of(rs.take(i as int)));
        }
    }
    proof {
        assert(rs.take(rewards.len() as int) =~= rs);
    }
    pool
}

/// Sums the odds of every reward in a box: the used part of the odds budget.
#[verifier::loop_isolation(false)]
pub fn current_total_odds(rewards: &Vec<RewardData>) -> (r: u64)
    requires
        sum_odds(rewards.deep_view()) <= u64::MAX,
    ensures
        r == sum_odds(rewards.deep_view()),
{
    let ghost rs = rewards.deep_view();
    let mut acc: u64 = 0;
    let mut k: usize = 0;
    while k < rewards.len()
        invariant
            k <= rewards.len(),
            acc == sum_odds(rs.take(k as int)),
        decreases rewards.len() - k,
    {
        proof {
            assert(rs[k as int] == rewards@[k as int]@);
            lemma_sum_odds_take_step(rs, k as int);
            lemma_sum_odds_take_le(rs, k as int + 1);
        }
        acc = acc + rewards[k].odds;
        k += 1;
    }
    proof {
        assert(rs.take(rewards.len() as int) =~= rs);
    }
    acc
}

/// Sums the odds of an incoming batch of multi-unit rewards.
#[verifier::loop_isolation(false)]
pub fn total_batch_odds(batch: &Vec<TokenFactoryReward>) -> (r: u64)
    requires
        sum_tf_odds(batch.deep_view()) <= u64::MAX,
    ensures
        r == sum_tf_odds(batch.deep_view()),
{
    let ghost ts = batch.deep_view();
    let mut acc: u64 = 0;
    let mut k: usize = 0;
    while k < batch.len()
        invariant
            k <= batch.len(),
            acc == sum_tf_odds(ts.take(k as int)),
        decreases batch.len() - k,
    {
        proof {
            assert(ts[k as int] == batch@[k as int]@);
            lemma_sum_tf_odds_take_step(ts, k as int);
            lemma_sum_tf_odds_take_le(ts, k as int + 1);
        }
        acc = acc + batch[k].odds;
        k += 1;
    }
    proof {
        assert(ts.take(batch.len() as int) =~= ts);
    }
    acc
}

/// The declared total value of an incoming batch: per-unit amount times unit
/// count, summed over the batch.
#[verifier::loop_isolation(false)]
pub fn total_batch_amount(batch: &Vec<TokenFactoryReward>) -> (r: u128)
    requires
        sum_tf_amount(batch.deep_view()) <= u128::MAX,
    ensures
        r == sum_tf_amount(batch.deep_view()),
{
    let ghost ts = batch.deep_view();
    let mut acc: u128 = 0;
    let mut k: usize = 0;
    while k < batch.len()
        invariant
            k <= batch.len(),
            acc == sum_tf_amount(ts.take(k as int)),
        decreases batch.len() - k,
    {
        proof {
            assert(ts[k as int] == batch@[k as int]@);
            lemma_sum_tf_amount_take_step(ts, k as int);
            lemma_sum_tf_amount_take_le(ts, k as int + 1);
            lemma_sum_tf_amount_nonneg(ts.take(k as int));
            assert(0 <= ts[k as int].amount * ts[k as int].count) by (nonlinear_arith);
        }
        acc = acc + batch[k].amount * (batch[k].count as u128);
        k += 1;
    }
    proof {
        assert(ts.take(batch.len() as int) =~= ts);
    }
    acc
}

/// The id the next appended reward gets: one past the last assigned id.
pub fn next_id_of(rewards: &Vec<RewardData>) -> (r: u64)
    requires
        next_reward_id(rewards.deep_view()) <= u64::MAX,
    ensures
        r == next_reward_id(rewards.deep_view()),
{
    if rewards.len() > 0 {
        proof {
            assert(rewards.deep_view()[rewards@.len() - 1] == rewards@[rewards@.len() - 1]@);
        }
        rewards[rewards.len() - 1].id + 1
    } else {
        1
    }
}

/// The position of the box stored under `id`, or `None` when there is none.
/// Box ids must be unique, as they are in a sound state.
#[verifier::loop_isolation(false)]
pub fn find_box_index(boxes: &Vec<FortuneBox>, id: &String) -> (r: Option<usize>)
    requires
        forall|i: int, j: int|
            0 <= i < j < boxes.deep_view().len()
                ==> #[trigger] boxes.deep_view()[i].id != #[trigger] boxes.deep_view()[j].id,
    ensures
        r is Some <==> has_box(boxes.deep_view(), id@),
        r matches Some(i) ==> 0 <= i < boxes.len() && boxes.deep_view()[i as int].id == id@
            && i == box_idx(boxes.deep_view(), id@),
{
    let ghost bs = boxes.deep_view();
    let mut i: usize = 0;
    while i < boxes.len()
        invariant
            i <= boxes.len(),
            bs == boxes.deep_view(),
            forall|k: int| 0 <= k < i ==> #[trigger] bs[k].id != id@,
        decreases boxes.len() - i,
    {
        if boxes[i].id == *id {
            proof {
                assert(bs[i as int] == boxes@[i as int].deep_view());
                assert(bs[i as int].id == id@);
                assert(has_box(bs, id@));
                let w = box_idx(bs, id@);
                assert(0 <= w < bs.len() && bs[w].id == id@);
                if w < i as int {
                    assert(bs[w].id != id@);
                } else if w > i as int {
                    assert(boxes.deep_view()[i as int].id != boxes.deep_view()[w].id);
                }
                assert(w == i as int);
            }
            return Some(i);
        }
        i += 1;
    }
    proof {
        assert(!has_box(bs, id@));
    }
    None
}

/// The position of the user record stored under `address`, or `None` when
/// there is none. Addresses must be unique, as they are in a sound state.
#[verifier::loop_isolation(false)]
pub fn find_user_index(users: &Vec<UserInfo>, address: &String) -> (r: Option<usize>)
    requires
        forall|i: int, j: int|
            0 <= i < j < users.deep_view().len()
                ==> #[trigger] users.deep_view()[i].address != #[trigger] users.deep_view()[j].address,
    ensures
        r is Some <==> has_user(users.deep_view(), address@),
        r matches Some(i) ==> 0 <= i < users.len()
            && users.deep_view()[i as int].address == address@
            && i == user_idx(users.deep_view(), address@),
{
    let ghost us = users.deep_view();
    let mut i: usize = 0;
    while i < users.len()
        invariant
            i <= users.len(),
            us == users.deep_view(),
            forall|k: int| 0 <= k < i ==> #[trigger] us[k].address != address@,
        decreases users.len() - i,
    {
        if users[i].address == *address {
            proof {
                assert(us[i as int] == users@[i as int].deep_view());
                assert(us[i as int].address == address@);
                assert(has_user(us, address@));
                let w = user_idx(us, address@);
                assert(0 <= w < us.len() && us[w].address == address@);
                if w < i as int {
                    assert(us[w].address != address@);
                } else if w > i as int {
                    assert(users.deep_view()[i as int].address != users.deep_view()[w].address);
                }
                assert(w == i as int);
            }
            return Some(i);
        }
        i += 1;
    }
    proof {
        assert(!has_user(us, address@));
    }
    None
}

/// The position of the reward with this id, or `None` when no reward has it.
/// Reward ids must be unique, as they are in a sound box.
#[verifier::loop_isolation(false)]
pub fn find_reward_index(rewards: &Vec<RewardData>, id: u64) -> (r: Option<usize>)
    requires
        forall|i: int, j: int|
            0 <= i < j < rewards.deep_view().len()
                ==> #[trigger] rewards.deep_view()[i].id != #[trigger] rewards.deep_view()[j].id,
    ensures
        r is Some <==> has_reward(rewards.deep_view(), id),
        r matches Some(i) ==> 0 <= i < rewards.len() && rewards.deep_view()[i as int].id == id
            && i == reward_idx(rewards.deep_view(), id),
{
    let ghost rs = rewards.deep_view();
    let mut i: usize = 0;
    while i < rewards.len()
        invariant
            i <= rewards.len(),
            rs == rewards.deep_view(),
            forall|k: int| 0 <= k < i ==> #[trigger] rs[k].id != id,
        decreases rewards.len() - i,
    {
        if rewards[i].id == id {
            proof {
                assert(rs[i as int] == rewards@[i as int].deep_view());
                assert(rs[i as int].id == id);
                assert(has_reward(rs, id));
                let w = reward_idx(rs, id);
                assert(0 <= w < rs.len() && rs[w].id == id);
                if w < i as int {
                    assert(rs[w].id != id);
                } else if w > i as int {
                    assert(rewards.deep_view()[i as int].id != rewards.deep_view()[w].id);
                }
                assert(w == i as int);
            }
            return Some(i);
        }
        i += 1;
    }
    proof {
        assert(!has_reward(rs, id));
    }
    None
}

/// The position of a user's won-rewards entry for this box, or `None` when
/// the user has not won in it yet. Entry box ids must be unique, as they are
/// in a sound user record.
#[verifier::loop_isolation(false)]
pub fn find_entry_index(entries: &Vec<UserBoxRewards>, box_id: &String) -> (r: Option<usize>)
    requires
        forall|i: int, j: int|
            0 <= i < j < entries.deep_view().len()
                ==> #[trigger] entries.deep_view()[i].box_id != #[trigger] entries.deep_view()[j].box_id,
    ensures
        r is Some <==> has_entry(entries.deep_view(), box_id@),
        r matches Some(i) ==> 0 <= i < entries.len()
            && entries.deep_view()[i as int].box_id == box_id@
            && i == entry_idx(entries.deep_view(), box_id@),
{
    let ghost es = entries.deep_view();
    let mut i: usize = 0;
    while i < entries.len()
        invariant
            i <= entries.len(),
            es == entries.deep_view(),
            forall|k: int| 0 <= k < i ==> #[trigger] es[k].box_id != box_id@,
        decreases entries.len() - i,
    {
        if entries[i].box_id == *box_id {
            proof {
                assert(es[i as int] == entries@[i as int].deep_view());
                assert(es[i as int].box_id == box_id@);
                assert(has_entry(es, box_id@));
                let w = entry_idx(es, box_id@);
                assert(0 <= w < es.len() && es[w].box_id == box_id@);
                if w < i as int {
                    assert(es[w].box_id != box_id@);
                } else if w > i as int {
                    assert(entries.deep_view()[i as int].box_id != entries.deep_view()[w].box_id);
                }
                assert(w == i as int);
            }
            return Some(i);
        }
        i += 1;
    }
    proof {
        assert(!has_entry(es, box_id@));
    }
    None
}

} // verus!
