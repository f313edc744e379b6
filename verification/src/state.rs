use vstd::prelude::*;

verus! {

/// The kind of asset a reward carries: a fungible token-contract deposit, a
/// non-fungible item, or a multi-unit token-factory asset.
#[derive(Debug, Clone, Copy, PartialEq, Eq, Structural)]
pub enum RewardType {
    Cw20,
    Nft,
    TokenFactory,
}

/// One attached coin: a denomination and an amount.
#[derive(Debug)]
pub struct Coin {
    pub denom: String,
    pub amount: u128,
}

/// Mathematical model of a `Coin`.
pub struct SpecCoin {
    pub denom: Seq<char>,
    pub amount: u128,
}

impl View for Coin {
    type V = SpecCoin;

    open spec fn view(&self) -> SpecCoin {
        SpecCoin { denom: self.denom@, amount: self.amount }
    }
}

impl DeepView for Coin {
    type V = SpecCoin;

    open spec fn deep_view(&self) -> SpecCoin {
        self@
    }
}

/// The global configuration record, created at initialization.
pub struct Config {
    pub owner: String,
    pub creator: String,
    pub native_token: String,
    pub injscribed_address: String,
    pub feature_fees: u128,
    pub max_odds: u64,
    pub enabled: bool,
}

/// Mathematical model of a `Config`.
pub struct SpecConfig {
    pub owner: Seq<char>,
    pub creator: Seq<char>,
    pub native_token: Seq<char>,
    pub injscribed_address: Seq<char>,
    pub feature_fees: u128,
    pub max_odds: u64,
    pub enabled: bool,
}

impl View for Config {
    type V = SpecConfig;

    open spec fn view(&self) -> SpecConfig {
        SpecConfig {
            owner: self.owner@,
            creator: self.creator@,
            native_token: self.native_token@,
            injscribed_address: self.injscribed_address@,
            feature_fees: self.feature_fees,
            max_odds: self.max_odds,
            enabled: self.enabled,
        }
    }
}

impl DeepView for Config {
    type V = SpecConfig;

    open spec fn deep_view(&self) -> SpecConfig {
        self@
    }
}

/// One inventory line inside a box: an asset with a win weight and remaining
/// claimable units. Non-fungible rewards carry a collection and an item id;
/// fungible and multi-unit rewards carry a denomination, a per-unit amount and
/// the token's decimals.
#[derive(Debug)]
pub struct RewardData {
    pub id: u64,
    pub reward_type: RewardType,
    pub collection_addr: Option<String>,
    pub nft_id: Option<String>,
    pub denom: Option<String>,
    pub amount: Option<u128>,
    pub decimals: Option<u64>,
    pub odds: u64,
    pub count: u64,
}

/// Mathematical model of a `RewardData`.
pub struct SpecReward {
    pub id: u64,
    pub reward_type: RewardType,
    pub collection_addr: Option<Seq<char>>,
    pub nft_id: Option<Seq<char>>,
    pub denom: Option<Seq<char>>,
    pub amount: Option<u128>,
    pub decimals: Option<u64>,
    pub odds: u64,
    pub count: u64,
}

impl View for RewardData {
    type V = SpecReward;

    open spec fn view(&self) -> SpecReward {
        SpecReward {
            id: self.id,
            reward_type: self.reward_type,
            collection_addr: self.collection_addr.deep_view(),
            nft_id: self.nft_id.deep_view(),
            denom: self.denom.deep_view(),
            amount: self.amount,
            decimals: self.decimals,
            odds: self.odds,
            count: self.count,
        }
    }
}

impl DeepView for RewardData {
    type V = SpecReward;

    open spec fn deep_view(&self) -> SpecReward {
        self@
    }
}

/// An audit entry for a resolved winner. Present in the stored shape of a box
/// but never populated by the operations here: a write-only audit slot.
#[derive(Debug)]
pub struct WinnerStruct {
    pub address: String,
    pub rewards: Vec<RewardData>,
}

/// Mathematical model of a `WinnerStruct`.
pub struct SpecWinner {
    pub address: Seq<char>,
    pub rewards: Seq<SpecReward>,
}

impl View for WinnerStruct {
    type V = SpecWinner;

    open spec fn view(&self) -> SpecWinner {
        SpecWinner { address: self.address@, rewards: self.rewards.deep_view() }
    }
}

impl DeepView for WinnerStruct {
    type V = SpecWinner;

    open spec fn deep_view(&self) -> SpecWinner {
        self@
    }
}

/// A named pool of rewards with an entry price and termination state.
#[derive(Debug)]
pub struct FortuneBox {
    pub id: String,
    pub creator: String,
    pub rewards: Vec<RewardData>,
    pub max_odds: u64,
    pub price: u128,
    pub token_denom: String,
    pub token_decimals: u64,
    pub token_type: String,
    pub duration: u64,
    pub is_over: bool,
    pub is_featured: bool,
    pub winners: Option<Vec<WinnerStruct>>,
}

/// Mathematical model of a `FortuneBox`.
pub struct SpecBox {
    pub id: Seq<char>,
    pub creator: Seq<char>,
    pub rewards: Seq<SpecReward>,
    pub max_odds: u64,
    pub price: u128,
    pub token_denom: Seq<char>,
    pub token_decimals: u64,
    pub token_type: Seq<char>,
    pub duration: u64,
    pub is_over: bool,
    pub is_featured: bool,
    pub winners: Option<Seq<SpecWinner>>,
}

impl View for FortuneBox {
    type V = SpecBox;

    open spec fn view(&self) -> SpecBox {
        SpecBox {
            id: self.id@,
            creator: self.creator@,
            rewards: self.rewards.deep_view(),
            max_odds: self.max_odds,
            price: self.price,
            token_denom: self.token_denom@,
            token_decimals: self.token_decimals,
            token_type: self.token_type@,
            duration: self.duration,
            is_over: self.is_over,
            is_featured: self.is_featured,
            winners: self.winners.deep_view(),
        }
    }
}

impl DeepView for FortuneBox {
    type V = SpecBox;

    open spec fn deep_view(&self) -> SpecBox {
        self@
    }
}

/// The reward ids a participant has won in one box, in the order won.
#[derive(Debug)]
pub struct UserBoxRewards {
    pub box_id: String,
    pub reward_ids: Vec<u64>,
}

/// Mathematical model of a `UserBoxRewards`.
pub struct SpecUserBoxRewards {
    pub box_id: Seq<char>,
    pub reward_ids: Seq<u64>,
}

impl View for UserBoxRewards {
    type V = SpecUserBoxRewards;

    open spec fn view(&self) -> SpecUserBoxRewards {
        SpecUserBoxRewards { box_id: self.box_id@, reward_ids: self.reward_ids.deep_view() }
    }
}

impl DeepView for UserBoxRewards {
    type V = SpecUserBoxRewards;

    open spec fn deep_view(&self) -> SpecUserBoxRewards {
        self@
    }
}

/// Per-participant accounting, created lazily on the first successful open.
#[derive(Debug)]
pub struct UserInfo {
    pub address: String,
    pub box_created: u64,
    pub inj_spent: u128,
    pub tokens_spent: u128,
    pub box_opened: u64,
    pub rewards: Vec<UserBoxRewards>,
}

/// Mathematical model of a `UserInfo`.
pub struct SpecUser {
    pub address: Seq<char>,
    pub box_created: u64,
    pub inj_spent: u128,
    pub tokens_spent: u128,
    pub box_opened: u64,
    pub rewards: Seq<SpecUserBoxRewards>,
}

impl View for UserInfo {
    type V = SpecUser;

    open spec fn view(&self) -> SpecUser {
        SpecUser {
            address: self.address@,
            box_created: self.box_created,
            inj_spent: self.inj_spent,
            tokens_spent: self.tokens_spent,
            box_opened: self.box_opened,
            rewards: self.rewards.deep_view(),
        }
    }
}

impl DeepView for UserInfo {
    type V = SpecUser;

    open spec fn deep_view(&self) -> SpecUser {
        self@
    }
}

/// The whole persisted state: the configuration singleton, the box registry
/// and the user ledger. The host runtime hands the state to each operation and
/// persists it back atomically.
pub struct LootboxState {
    pub config: Config,
    pub boxes: Vec<FortuneBox>,
    pub users: Vec<UserInfo>,
}

/// Mathematical model of the whole state.
pub struct SpecState {
    pub config: SpecConfig,
    pub boxes: Seq<SpecBox>,
    pub users: Seq<SpecUser>,
}

impl View for LootboxState {
    type V = SpecState;

    open spec fn view(&self) -> SpecState {
        SpecState {
            config: self.config@,
            boxes: self.boxes.deep_view(),
            users: self.users.deep_view(),
        }
    }
}

impl DeepView for LootboxState {
    type V = SpecState;

    open spec fn deep_view(&self) -> SpecState {
        self@
    }
}

} // verus!
