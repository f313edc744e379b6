use vstd::prelude::*;
use vstd::string::StringExecFns;

use crate::error::ContractError;
use crate::state::{Config, LootboxState, SpecConfig};

verus! {

/// An outbound transfer instruction handed to the host runtime: a native bank
/// transfer, a token-contract transfer call, or a non-fungible ownership
/// transfer.
#[derive(Debug)]
pub enum TransferMsg {
    Bank { denom: String, amount: u128, to_address: String },
    Cw20Transfer { contract_addr: String, amount: u128, recipient: String },
    NftTransfer { collection_addr: String, nft_id: String, recipient: String },
}

/// Mathematical model of a `TransferMsg`.
pub enum SpecTransfer {
    Bank { denom: Seq<char>, amount: u128, to_address: Seq<char> },
    Cw20Transfer { contract_addr: Seq<char>, amount: u128, recipient: Seq<char> },
    NftTransfer { collection_addr: Seq<char>, nft_id: Seq<char>, recipient: Seq<char> },
}

impl View for TransferMsg {
    type V = SpecTransfer;

    open spec fn view(&self) -> SpecTransfer {
        match self {
            TransferMsg::Bank { denom, amount, to_address } => SpecTransfer::Bank {
                denom: denom@,
                amount: *amount,
                to_address: to_address@,
            },
            TransferMsg::Cw20Transfer { contract_addr, amount, recipient } => SpecTransfer::Cw20Transfer {
                contract_addr: contract_addr@,
                amount: *amount,
                recipient: recipient@,
            },
            TransferMsg::NftTransfer { collection_addr, nft_id, recipient } => SpecTransfer::NftTransfer {
                collection_addr: collection_addr@,
                nft_id: nft_id@,
                recipient: recipient@,
            },
        }
    }
}

impl DeepView for TransferMsg {
    type V = SpecTransfer;

    open spec fn deep_view(&self) -> SpecTransfer {
        self@
    }
}

/// What `transfer_token_message` builds: a bank transfer when the token type
/// is the native kind, a token-contract transfer call addressed to the
/// denomination otherwise.
pub open spec fn spec_transfer(
    denom: Seq<char>,
    token_type: Seq<char>,
    amount: u128,
    receiver: Seq<char>,
) -> SpecTransfer {
    if token_type == "native"@ {
        SpecTransfer::Bank { denom, amount, to_address: receiver }
    } else {
        SpecTransfer::Cw20Transfer { contract_addr: denom, amount, recipient: receiver }
    }
}

/// Pure transfer builder: turns (asset denomination, asset kind, amount,
/// recipient) into one outbound instruction.
pub fn transfer_token_message(
    denom: String,
    token_type: String,
    amount: u128,
    receiver: String,
) -> (r: TransferMsg)
    ensures
        r@ == spec_transfer(denom@, token_type@, amount, receiver@),
{
    let native = String::from_str("native");
    if token_type == native {
        TransferMsg::Bank { denom, amount, to_address: receiver }
    } else {
        TransferMsg::Cw20Transfer { contract_addr: denom, amount, recipient: receiver }
    }
}

/// Whether the address may administer the configuration: it must be the
/// configured owner or creator.
pub fn check_owner(cfg: &Config, address: &String) -> (r: Result<(), ContractError>)
    ensures
        r is Ok <==> (address@ == cfg@.owner || address@ == cfg@.creator),
        r is Err ==> r == Err::<(), ContractError>(ContractError::Unauthorized),
{
    if *address == cfg.owner || *address == cfg.creator {
        Ok(())
    } else {
        Err(ContractError::Unauthorized)
    }
}

/// Administrative update of the mutable configuration fields: the native
/// denomination, the fee recipient and the feature fee. Owner or creator
/// only; everything else in the state is untouched.
pub fn execute_update_config(
    state: &mut LootboxState,
    address: &String,
    native_token: String,
    injscribed_address: String,
    feature_fees: u128,
) -> (r: Result<(), ContractError>)
    ensures
        r is Ok <==> (address@ == old(state)@.config.owner || address@ == old(state)@.config.creator),
        r is Err ==> r == Err::<(), ContractError>(ContractError::Unauthorized) && final(state)@ == old(state)@,
        r is Ok ==> final(state)@.config == (SpecConfig {
            owner: old(state)@.config.owner,
            creator: old(state)@.config.creator,
            native_token: native_token@,
            injscribed_address: injscribed_address@,
            feature_fees: feature_fees,
            max_odds: old(state)@.config.max_odds,
            enabled: old(state)@.config.enabled,
        }),
        r is Ok ==> final(state)@.boxes == old(state)@.boxes && final(state)@.users == old(state)@.users,
{
    match check_owner(&state.config, address) {
        Ok(_) => {
            state.config.native_token = native_token;
            state.config.injscribed_address = injscribed_address;
            state.config.feature_fees = feature_fees;
            Ok(())
        },
        Err(e) => Err(e),
    }
}

} // verus!
