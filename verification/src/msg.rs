use vstd::prelude::*;

use crate::state::{FortuneBox, RewardType, UserInfo};
use crate::util::TransferMsg;

verus! {

/// Initialization request: identities and the native denomination for the
/// configuration singleton.
pub struct InstantiateMsg {
    pub owner: String,
    pub native_token: String,
    pub founder_addr: String,
    pub dev_addr: String,
}

/// A mutating request against the ledger.
pub enum ExecuteMsg {
    CreateBox {
        box_id: String,
        price: u128,
        token_denom: String,
        token_decimals: u64,
        token_type: String,
        duration: u64,
    },
    ReceiveNft(NftReceiveMsg),
    Receive(TokenReceiveMsg),
    AddTokenFactoryReward { box_id: String, rewards: Vec<TokenFactoryReward> },
    OpenBox { box_id: String },
    CancelBox { box_id: String },
}

/// The request carried by a non-fungible-asset deposit: append the deposited
/// item to a box as a reward.
pub enum NftReceiveMsg {
    AddNftReward { box_id: String, collection_addr: String, nft_id: String, odds: u64 },
}

/// The request carried by a fungible-token deposit: create a box already
/// funded with one fungible reward, or append that reward when the box exists.
pub enum TokenReceiveMsg {
    CreateFortuneBoxWithCoin {
        box_id: String,
        creator: String,
        denom: String,
        amount: u128,
        odds: u64,
        price: u128,
        token_denom: String,
        token_decimals: u64,
        token_type: String,
        duration: u64,
    },
}

/// One multi-unit reward in a batch add: `count` units of `amount` each, with
/// one win weight for the whole line.
#[derive(Clone)]
pub struct TokenFactoryReward {
    pub id: u64,
    pub odds: u64,
    pub token_denom: String,
    pub token_decimals: u64,
    pub reward_type: RewardType,
    pub amount: u128,
    pub count: u64,
}

/// Mathematical model of a `TokenFactoryReward`.
pub struct SpecTokenFactoryReward {
    pub id: u64,
    pub odds: u64,
    pub token_denom: Seq<char>,
    pub token_decimals: u64,
    pub reward_type: RewardType,
    pub amount: u128,
    pub count: u64,
}

impl View for TokenFactoryReward {
    type V = SpecTokenFactoryReward;

    open spec fn view(&self) -> SpecTokenFactoryReward {
        SpecTokenFactoryReward {
            id: self.id,
            odds: self.odds,
            token_denom: self.token_denom@,
            token_decimals: self.token_decimals,
            reward_type: self.reward_type,
            amount: self.amount,
            count: self.count,
        }
    }
}

impl DeepView for TokenFactoryReward {
    type V = SpecTokenFactoryReward;

    open spec fn deep_view(&self) -> SpecTokenFactoryReward {
        self@
    }
}

/// A read-only request against the ledger.
#[derive(Debug, Clone, PartialEq, Eq, Structural)]
pub enum QueryMsg {
    GetConfig,
    GetBoxes,
    GetUsers,
}

/// Snapshot of the configuration singleton.
pub struct ConfigResponse {
    pub owner: String,
    pub token: String,
    pub injscribed_address: String,
    pub feature_fees: u128,
}

/// Every stored box.
pub struct BoxesResponse {
    pub boxes: Vec<FortuneBox>,
}

/// Every stored user record.
pub struct UsersInfoResponse {
    pub users: Vec<UserInfo>,
}

/// The answer to one `QueryMsg`.
pub enum QueryAnswer {
    Config(ConfigResponse),
    Boxes(BoxesResponse),
    Users(UsersInfoResponse),
}

/// The result of a successful open: the outbound transfer instructions, the
/// selected slot of the weighted pool, and the id of the won reward.
#[derive(Debug)]
pub struct OpenBoxResponse {
    pub messages: Vec<TransferMsg>,
    pub selection_index: u64,
    pub reward_id: u64,
}

/// Observability figures of a successful batch reward add: how many rewards
/// were appended, the payment that was attached, the declared total value of
/// the batch (per-unit amount times count, summed), and the batch's summed
/// odds. The declared value is reported but, by design, not compared with the
/// payment.
#[derive(Debug)]
pub struct AddRewardsResponse {
    pub total_rewards: u64,
    pub amount_paid: u128,
    pub total_amount: u128,
    pub total_odds: u64,
}

/// The result of a successful `ExecuteMsg`.
#[derive(Debug)]
pub enum ExecuteResponse {
    Created,
    RewardAdded,
    RewardsAdded(AddRewardsResponse),
    Cancelled(Vec<TransferMsg>),
    Opened(OpenBoxResponse),
}

} // verus!
