//! A lootbox ledger: creators deposit rewards (fungible tokens, non-fungible
//! items, or multi-unit token-factory assets) into a named box with per-reward
//! win weights; participants pay an entry price to open a box and receive one
//! weighted-random reward, with house and creator fees settled atomically;
//! unopened boxes can be cancelled and refunded; a box whose drawn reward runs
//! out is finalized and its remaining inventory returned to the creator.

pub mod contract;
pub mod draw;
pub mod error;
pub mod externals;
pub mod model;
pub mod msg;
pub mod state;
pub mod util;
