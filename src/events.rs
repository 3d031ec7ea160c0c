use vstd::prelude::*;

use crate::account::{AccountId, BlockNumber};
use crate::TokenId;

verus! {

/// A token changed hands; the all-zero account stands for mint and burn.
#[derive(Clone, Copy, Debug, PartialEq, Eq)]
pub struct Transfer {
    pub from: Option<AccountId>,
    pub to: Option<AccountId>,
    pub id: TokenId,
}

/// An account was approved to move one token.
#[derive(Clone, Copy, Debug, PartialEq, Eq)]
pub struct Approval {
    pub from: AccountId,
    pub to: AccountId,
    pub id: TokenId,
}

/// An operator was enabled or disabled for all tokens of an owner.
#[derive(Clone, Copy, Debug, PartialEq, Eq)]
pub struct ApprovalForAll {
    pub owner: AccountId,
    pub operator: AccountId,
    pub approved: bool,
}

/// A token reached a new tier.
#[derive(Clone, Copy, Debug, PartialEq, Eq)]
pub struct Ascension {
    pub token: TokenId,
    pub victories: u64,
}

/// A cooldown limit was computed for `victim` by `attacker`.
#[derive(Clone, Copy, Debug, PartialEq, Eq)]
pub struct Attack {
    pub attacker: AccountId,
    pub victim: AccountId,
    pub block: BlockNumber,
}

/// An alliance entry was written for an ordered pair of tokens.
#[derive(Clone, Copy, Debug, PartialEq, Eq)]
pub struct Alliance {
    pub angel: TokenId,
    pub ally: TokenId,
}

/// Any of the notifications that the registry emits.
#[derive(Clone, Copy, Debug, PartialEq, Eq)]
pub enum Event {
    Transfer(Transfer),
    Approval(Approval),
    ApprovalForAll(ApprovalForAll),
    Ascension(Ascension),
    Attack(Attack),
    Alliance(Alliance),
}

} // verus!
