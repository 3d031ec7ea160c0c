//! A non-fungible token registry with a combat and rank game layered on top:
//! ownership and approvals, per-token victory and loss tallies, eight rank
//! tiers unlocked at exact victory counts, directed alliances between tokens,
//! and a per-account cooldown. Every operation takes the caller and the
//! current block explicitly and either applies in full or changes nothing.
use vstd::prelude::*;

pub mod account;
pub mod erc721;
pub mod events;
pub mod laws;
pub mod rank;
pub mod table;

pub use account::{AccountId, BlockNumber, CallContext};
pub use erc721::{Erc721, Error};
pub use events::{Alliance, Approval, ApprovalForAll, Ascension, Attack, Event, Transfer};
pub use rank::Tier;

verus! {

/// Identifier of a token, chosen by the minter.
pub type TokenId = u32;

} // verus!
