use vstd::prelude::*;

use crate::account::{AccountId, BlockNumber, CallContext};
use crate::events::{Alliance, Approval, ApprovalForAll, Ascension, Attack, Event, Transfer};
use crate::rank::{ascension_tier, tier_at, Tier};
use crate::table::{Table, TableKey};
use crate::TokenId;

verus! {

/// Blocks that a standard privileged action arms the caller's cooldown for.
pub const COOLDOWN: u32 = 7200;

/// Blocks that a coordinated attack arms the caller's cooldown for.
pub const GANG_COOLDOWN: u32 = 14400;

/// Blocks that delaying an opponent arms the caller's own cooldown for.
pub const DELAY_COOLDOWN: u32 = 3600;

/// Victories a token needs before one of its losses can be erased.
pub const ERASE_MIN_VICTORIES: u64 = 64;

/// Why an operation was rejected. No operation changes any state when it
/// fails.
#[derive(Clone, Copy, Debug, PartialEq, Eq, Structural)]
pub enum Error {
    NotOwner,
    NotApproved,
    TokenExists,
    TokenNotFound,
    CannotInsert,
    CannotRemove,
    CannotFetchValue,
    NotAllowed,
    /// A role or balance condition that correct usage never violates.
    InvariantViolated,
}

/// The abstract state of the registry.
pub struct Erc721Model {
    pub owners: Map<TokenId, AccountId>,
    pub approvals: Map<TokenId, AccountId>,
    pub balances: Map<AccountId, u32>,
    pub operators: Map<(AccountId, AccountId), bool>,
    pub victories: Map<TokenId, u32>,
    pub losses: Map<TokenId, u32>,
    pub ready: Map<AccountId, BlockNumber>,
    pub tiers: Map<(TokenId, Tier), bool>,
    pub alliances: Map<(TokenId, TokenId), bool>,
    pub events: Seq<Event>,
}

/// The tokens that `owners` assigns to `account`.
pub open spec fn owned_set(owners: Map<TokenId, AccountId>, account: AccountId) -> Set<TokenId> {
    owners.dom().filter(|t: TokenId| owners[t] == account)
}

/// The number of tokens that `owners` assigns to `account`.
pub open spec fn owned_count(owners: Map<TokenId, AccountId>, account: AccountId) -> nat {
    owned_set(owners, account).len()
}

impl Erc721Model {
    pub open spec fn balance(self, account: AccountId) -> nat {
        if self.balances.contains_key(account) {
            self.balances[account] as nat
        } else {
            0
        }
    }

    pub open spec fn victories_of(self, id: TokenId) -> nat {
        if self.victories.contains_key(id) {
            self.victories[id] as nat
        } else {
            0
        }
    }

    pub open spec fn losses_of(self, id: TokenId) -> nat {
        if self.losses.contains_key(id) {
            self.losses[id] as nat
        } else {
            0
        }
    }

    pub open spec fn has_tier(self, id: TokenId, tier: Tier) -> bool {
        self.tiers.contains_key((id, tier)) && self.tiers[(id, tier)]
    }

    pub open spec fn ready_at(self, account: AccountId) -> BlockNumber {
        if self.ready.contains_key(account) {
            self.ready[account]
        } else {
            0
        }
    }

    /// An account may act while its cooldown lies strictly ahead of the block.
    pub open spec fn allowed(self, account: AccountId, block: BlockNumber) -> bool {
        self.ready_at(account) > block
    }

    pub open spec fn is_operator(self, owner: AccountId, operator: AccountId) -> bool {
        self.operators.contains_key((owner, operator)) && self.operators[(owner, operator)]
    }

    pub open spec fn allied(self, a: TokenId, b: TokenId) -> bool {
        self.alliances.contains_key((a, b)) && self.alliances[(a, b)]
    }

    /// `spender` may move token `id`: it is not the sentinel, and it owns the
    /// token, holds the token's approval, or is an operator of the owner.
    pub open spec fn may_spend(self, spender: AccountId, id: TokenId) -> bool {
        &&& !spender.is_sentinel()
        &&& self.owners.contains_key(id)
        &&& (spender == self.owners[id] || (self.approvals.contains_key(id)
            && self.approvals[id] == spender) || self.is_operator(self.owners[id], spender))
    }

    /// No token is owned by the all-zero account.
    pub open spec fn no_sentinel_owner(self) -> bool {
        forall|t: TokenId| #[trigger] self.owners.contains_key(t) ==> !self.owners[t].is_sentinel()
    }

    /// Every account's stored balance equals the number of tokens it owns.
    pub open spec fn counts_consistent(self) -> bool {
        forall|a: AccountId| #[trigger] self.balance(a) == owned_count(self.owners, a)
    }

    pub open spec fn emit(self, e: Event) -> Erc721Model {
        Erc721Model { events: self.events.push(e), ..self }
    }

    /// The cooldown of `account` set to `limit` unless it already has
    /// one, and the cooldown notification recorded.
    pub open spec fn constrain(
        self,
        caller: AccountId,
        account: AccountId,
        limit: BlockNumber,
    ) -> Erc721Model {
        Erc721Model {
            ready: if self.ready.contains_key(account) {
                self.ready
            } else {
                self.ready.insert(account, limit)
            },
            events: self.events.push(
                Event::Attack(Attack { attacker: caller, victim: account, block: limit }),
            ),
            ..self
        }
    }

    pub open spec fn set_balance(self, account: AccountId, n: nat) -> Erc721Model {
        Erc721Model { balances: self.balances.insert(account, n as u32), ..self }
    }

    /// Which error, if any, `mint` by `caller` gives.
    pub open spec fn mint_outcome(self, caller: AccountId, id: TokenId) -> Result<(), Error> {
        if self.balance(caller) != 0 {
            Err(Error::InvariantViolated)
        } else if self.owners.contains_key(id) {
            Err(Error::TokenExists)
        } else if caller.is_sentinel() {
            Err(Error::NotAllowed)
        } else {
            Ok(())
        }
    }

    pub open spec fn after_mint(self, caller: AccountId, id: TokenId) -> Erc721Model {
        Erc721Model {
            owners: self.owners.insert(id, caller),
            ..self.set_balance(caller, self.balance(caller) + 1)
        }.emit(
            Event::Transfer(
                Transfer { from: Some(AccountId::sentinel()), to: Some(caller), id },
            ),
        )
    }

    /// Which error, if any, `burn` by `caller` gives.
    pub open spec fn burn_outcome(self, caller: AccountId, id: TokenId) -> Result<(), Error> {
        if !self.owners.contains_key(id) {
            Err(Error::TokenNotFound)
        } else if self.owners[id] != caller {
            Err(Error::NotOwner)
        } else if self.balance(caller) == 0 {
            Err(Error::CannotFetchValue)
        } else {
            Ok(())
        }
    }

    pub open spec fn after_burn(self, caller: AccountId, id: TokenId) -> Erc721Model {
        Erc721Model {
            owners: self.owners.remove(id),
            ..self.set_balance(caller, (self.balance(caller) - 1) as nat)
        }.emit(
            Event::Transfer(
                Transfer { from: Some(caller), to: Some(AccountId::sentinel()), id },
            ),
        )
    }

    /// Which error, if any, moving token `id` from `from` to `to` on behalf of
    /// `spender` gives. The named source must be the token's owner.
    pub open spec fn transfer_outcome(
        self,
        spender: AccountId,
        from: AccountId,
        to: AccountId,
        id: TokenId,
    ) -> Result<(), Error> {
        if !self.owners.contains_key(id) {
            Err(Error::TokenNotFound)
        } else if !self.may_spend(spender, id) {
            Err(Error::NotApproved)
        } else if self.owners[id] != from {
            Err(Error::NotOwner)
        } else if self.balance(from) == 0 {
            Err(Error::CannotFetchValue)
        } else if to.is_sentinel() {
            Err(Error::NotAllowed)
        } else {
            Ok(())
        }
    }

    /// The approval of `id` cleared, one token taken from the balance of
    /// `from` and given to `to`, `to` made the owner.
    pub open spec fn after_transfer(self, from: AccountId, to: AccountId, id: TokenId) -> Erc721Model {
        let taken = Erc721Model {
            approvals: self.approvals.remove(id),
            ..self.set_balance(from, (self.balance(from) - 1) as nat)
        };
        Erc721Model {
            owners: self.owners.insert(id, to),
            ..taken.set_balance(to, taken.balance(to) + 1)
        }.emit(Event::Transfer(Transfer { from: Some(from), to: Some(to), id }))
    }

    /// Which error, if any, `approve` by `caller` gives.
    pub open spec fn approve_outcome(self, caller: AccountId, to: AccountId, id: TokenId) -> Result<
        (),
        Error,
    > {
        if !self.owners.contains_key(id) {
            Err(Error::TokenNotFound)
        } else if !(self.owners[id] == caller || self.is_operator(self.owners[id], caller)) {
            Err(Error::NotAllowed)
        } else if to.is_sentinel() {
            Err(Error::NotAllowed)
        } else if self.approvals.contains_key(id) {
            Err(Error::CannotInsert)
        } else {
            Ok(())
        }
    }

    /// Which error, if any, writing an alliance entry for the ordered pair
    /// gives: the first token must be a dominion, the second must not, and the
    /// pair must have no entry yet.
    pub open spec fn ally_outcome(self, angel: TokenId, ally: TokenId) -> Result<(), Error> {
        if !self.has_tier(angel, Tier::Dominion) || self.has_tier(ally, Tier::Dominion) {
            Err(Error::NotAllowed)
        } else if self.alliances.contains_key((angel, ally)) {
            Err(Error::CannotInsert)
        } else {
            Ok(())
        }
    }

    pub open spec fn after_ally(self, angel: TokenId, ally: TokenId, approval: bool) -> Erc721Model {
        Erc721Model {
            alliances: self.alliances.insert((angel, ally), approval),
            ..self
        }.emit(Event::Alliance(Alliance { angel, ally }))
    }

    pub open spec fn add_loss(self, id: TokenId) -> Erc721Model {
        Erc721Model { losses: self.losses.insert(id, (self.losses_of(id) + 1) as u32), ..self }
    }

    pub open spec fn add_victory(self, id: TokenId) -> Erc721Model {
        Erc721Model {
            victories: self.victories.insert(id, (self.victories_of(id) + 1) as u32),
            ..self
        }
    }
}

/// Inserting a new token moves the count of its owner up by one and leaves
/// every other account's count alone.
proof fn lemma_owned_insert(
    owners: Map<TokenId, AccountId>,
    id: TokenId,
    owner: AccountId,
    a: AccountId,
)
    requires
        owners.dom().finite(),
        !owners.contains_key(id),
    ensures
        owned_count(owners.insert(id, owner), a) == owned_count(owners, a) + (if owner == a {
            1int
        } else {
            0int
        }),
{
    let m2 = owners.insert(id, owner);
    let s1 = owned_set(owners, a);
    let s2 = owned_set(m2, a);
    vstd::set_lib::lemma_set_subset_finite(owners.dom(), s1);
    if owner == a {
        assert(s2 =~= s1.insert(id));
    } else {
        assert(s2 =~= s1);
    }
}

/// Removing a token moves the count of its owner down by one and leaves every
/// other account's count alone.
proof fn lemma_owned_remove(owners: Map<TokenId, AccountId>, id: TokenId, a: AccountId)
    requires
        owners.dom().finite(),
        owners.contains_key(id),
    ensures
        owned_count(owners.remove(id), a) == owned_count(owners, a) - (if owners[id] == a {
            1int
        } else {
            0int
        }),
{
    let m2 = owners.remove(id);
    let s1 = owned_set(owners, a);
    let s2 = owned_set(m2, a);
    vstd::set_lib::lemma_set_subset_finite(owners.dom(), s1);
    if owners[id] == a {
        assert(s2 =~= s1.remove(id));
    } else {
        assert(s2 =~= s1);
    }
}

/// Two states with the same owners and balances agree on whether the counts
/// are consistent.
proof fn lemma_same_registry(a: Erc721Model, b: Erc721Model)
    requires
        a.owners == b.owners,
        a.balances == b.balances,
    ensures
        a.counts_consistent() ==> b.counts_consistent(),
{
    if a.counts_consistent() {
        assert forall|x: AccountId| #[trigger] b.balance(x) == owned_count(b.owners, x) by {
            assert(a.balance(x) == owned_count(a.owners, x));
        }
    }
}

/// The registry: ownership, approvals, the combat ledger, alliances and the
/// cooldowns, with the notifications emitted so far.
pub struct Erc721 {
    token_owner: Table<TokenId, AccountId>,
    token_approvals: Table<TokenId, AccountId>,
    owned_tokens_count: Table<AccountId, u32>,
    operator_approvals: Table<(AccountId, AccountId), bool>,
    victories: Table<TokenId, u32>,
    losses: Table<TokenId, u32>,
    ready_time: Table<AccountId, BlockNumber>,
    tiers: Table<(TokenId, Tier), bool>,
    alliances: Table<(TokenId, TokenId), bool>,
    events: Vec<Event>,
}

impl View for Erc721 {
    type V = Erc721Model;

    closed spec fn view(&self) -> Erc721Model {
        Erc721Model {
            owners: self.token_owner@,
            approvals: self.token_approvals@,
            balances: self.owned_tokens_count@,
            operators: self.operator_approvals@,
            victories: self.victories@,
            losses: self.losses@,
            ready: self.ready_time@,
            tiers: self.tiers@,
            alliances: self.alliances@,
            events: self.events@,
        }
    }
}

impl Erc721 {
    pub closed spec fn wf(&self) -> bool {
        &&& self.token_owner.wf()
        &&& self.token_approvals.wf()
        &&& self.owned_tokens_count.wf()
        &&& self.operator_approvals.wf()
        &&& self.victories.wf()
        &&& self.losses.wf()
        &&& self.ready_time.wf()
        &&& self.tiers.wf()
        &&& self.alliances.wf()
        &&& self@.no_sentinel_owner()
    }

    /// In a well-formed registry no token is owned by the all-zero account.
    pub proof fn lemma_no_sentinel_owner(&self)
        requires
            self.wf(),
        ensures
            self@.no_sentinel_owner(),
    {
    }

    /// The token map of a well-formed registry is finite.
    pub proof fn lemma_owners_finite(&self)
        requires
            self.wf(),
        ensures
            self@.owners.dom().finite(),
    {
        self.token_owner.lemma_finite();
    }

    /// Creates an empty registry.
    pub fn new() -> (r: Erc721)
        ensures
            r.wf(),
            r@.owners == Map::<TokenId, AccountId>::empty(),
            r@.approvals == Map::<TokenId, AccountId>::empty(),
            r@.balances == Map::<AccountId, u32>::empty(),
            r@.operators == Map::<(AccountId, AccountId), bool>::empty(),
            r@.victories == Map::<TokenId, u32>::empty(),
            r@.losses == Map::<TokenId, u32>::empty(),
            r@.ready == Map::<AccountId, BlockNumber>::empty(),
            r@.tiers == Map::<(TokenId, Tier), bool>::empty(),
            r@.alliances == Map::<(TokenId, TokenId), bool>::empty(),
            r@.events == Seq::<Event>::empty(),
            r@.counts_consistent(),
    {
        let r = Erc721 {
            token_owner: Table::new(),
            token_approvals: Table::new(),
            owned_tokens_count: Table::new(),
            operator_approvals: Table::new(),
            victories: Table::new(),
            losses: Table::new(),
            ready_time: Table::new(),
            tiers: Table::new(),
            alliances: Table::new(),
            events: Vec::new(),
        };
        assert forall|a: AccountId| #[trigger] r@.balance(a) == owned_count(r@.owners, a) by {
            assert(r@.owners.dom().filter(|t: TokenId| r@.owners[t] == a) =~= Set::empty());
        }
        r
    }

    /// The number of tokens that `owner` holds.
    pub fn balance_of(&self, owner: AccountId) -> (r: u32)
        requires
            self.wf(),
        ensures
            r == self@.balance(owner),
    {
        self.owned_tokens_count.get_or(&owner, 0)
    }

    /// The victories recorded for a token.
    pub fn victories_count(&self, id: TokenId) -> (r: u64)
        requires
            self.wf(),
        ensures
            r == self@.victories_of(id),
    {
        self.victories.get_or(&id, 0) as u64
    }

    /// The losses recorded for a token.
    pub fn losses_count(&self, id: TokenId) -> (r: u64)
        requires
            self.wf(),
        ensures
            r == self@.losses_of(id),
    {
        self.losses.get_or(&id, 0) as u64
    }

    /// Whether a token holds a tier; an absent flag reads as false.
    pub fn has_tier(&self, id: TokenId, tier: Tier) -> (r: bool)
        requires
            self.wf(),
        ensures
            r == self@.has_tier(id, tier),
    {
        self.tiers.get_or(&(id, tier), false)
    }

    /// The block at which an account's cooldown is set, zero where it has none.
    pub fn is_ready(&self, account: AccountId) -> (r: BlockNumber)
        requires
            self.wf(),
        ensures
            r == self@.ready_at(account),
    {
        self.ready_time.get_or(&account, 0)
    }

    /// Whether the account's cooldown lies strictly ahead of the current block.
    pub fn is_account_allowed(&self, ctx: &CallContext, account: AccountId) -> (r: bool)
        requires
            self.wf(),
        ensures
            r == self@.allowed(account, ctx.block_number),
    {
        self.is_ready(account) > ctx.block_number
    }

    /// The owner of a token, if it exists.
    pub fn owner_of(&self, id: TokenId) -> (r: Option<AccountId>)
        requires
            self.wf(),
        ensures
            r == (if self@.owners.contains_key(id) {
                Some(self@.owners[id])
            } else {
                None
            }),
    {
        self.token_owner.get(&id)
    }

    /// The account approved for a token, if any.
    pub fn get_approved(&self, id: TokenId) -> (r: Option<AccountId>)
        requires
            self.wf(),
        ensures
            r == (if self@.approvals.contains_key(id) {
                Some(self@.approvals[id])
            } else {
                None
            }),
    {
        self.token_approvals.get(&id)
    }

    /// Whether `operator` may act for `owner` on all of its tokens.
    pub fn is_approved_for_all(&self, owner: AccountId, operator: AccountId) -> (r: bool)
        requires
            self.wf(),
        ensures
            r == self@.is_operator(owner, operator),
    {
        self.operator_approvals.get_or(&(owner, operator), false)
    }

    /// Whether the ordered pair of tokens is allied.
    pub fn is_allied(&self, angel: TokenId, ally: TokenId) -> (r: bool)
        requires
            self.wf(),
        ensures
            r == self@.allied(angel, ally),
    {
        self.alliances.get_or(&(angel, ally), false)
    }

    /// The notifications emitted so far, oldest first.
    pub fn events(&self) -> (r: &[Event])
        requires
            self.wf(),
        ensures
            r@ == self@.events,
    {
        self.events.as_slice()
    }

    fn emit(&mut self, e: Event)
        requires
            old(self).wf(),
        ensures
            final(self).wf(),
            final(self)@ == old(self)@.emit(e),
    {
        self.events.push(e);
    }

    /// Sets the cooldown of `account` to the current block plus `duration`,
    /// unless it already has one, and records the cooldown notification either
    /// way.
    pub fn time_constrain(&mut self, ctx: &CallContext, account: AccountId, duration: u32)
        requires
            old(self).wf(),
            ctx.block_number + duration <= u32::MAX,
        ensures
            final(self).wf(),
            old(self)@.counts_consistent() ==> final(self)@.counts_consistent(),
            final(self)@ == old(self)@.constrain(
                ctx.caller,
                account,
                (ctx.block_number + duration) as BlockNumber,
            ),
    {
        let limit: BlockNumber = duration + ctx.block_number;
        if !self.ready_time.contains(&account) {
            self.ready_time.set(account, limit);
        }
        proof {
            assert forall|t: TokenId| #[trigger] self@.owners.contains_key(t) implies !self@.owners[t].is_sentinel() by {
                assert(old(self)@.owners.contains_key(t));
            }
        }
        self.emit(Event::Attack(Attack { attacker: ctx.caller, victim: account, block: limit }));
        proof {
            lemma_same_registry(old(self)@, self@);
        }
    }
}


/// Takes one from the counter under `key`. Fails, changing nothing, where
/// the counter is absent or zero.
fn decrease_counter_of<K: TableKey>(table: &mut Table<K, u32>, key: K) -> (r: Result<(), Error>)
    requires
        old(table).wf(),
    ensures
        final(table).wf(),
        r == (if old(table)@.contains_key(key) && old(table)@[key] > 0 {
            Ok(())
        } else {
            Err(Error::CannotFetchValue)
        }),
        r is Ok ==> final(table)@ == old(table)@.insert(key, (old(table)@[key] - 1) as u32),
        r is Err ==> final(table)@ == old(table)@,
{
    match table.get(&key) {
        Some(n) => {
            if n == 0 {
                return Err(Error::CannotFetchValue);
            }
            table.set(key, n - 1);
            Ok(())
        },
        None => Err(Error::CannotFetchValue),
    }
}

/// Adds one to the counter under `key`, starting an absent one at one.
fn increase_counter_of<K: TableKey>(table: &mut Table<K, u32>, key: K)
    requires
        old(table).wf(),
        !old(table)@.contains_key(key) || old(table)@[key] < u32::MAX,
    ensures
        final(table).wf(),
        final(table)@ == old(table)@.insert(
            key,
            (if old(table)@.contains_key(key) {
                old(table)@[key] + 1
            } else {
                1
            }) as u32,
        ),
{
    match table.get(&key) {
        Some(n) => table.set(key, n + 1),
        None => table.set(key, 1),
    }
}

impl Erc721 {
    /// Whether `spender` may move token `id`.
    fn approved_or_owner(&self, spender: AccountId, id: TokenId) -> (r: bool)
        requires
            self.wf(),
        ensures
            r == self@.may_spend(spender, id),
    {
        if spender.is_zero() {
            return false;
        }
        match self.token_owner.get(&id) {
            None => false,
            Some(owner) => {
                let approved = match self.token_approvals.get(&id) {
                    Some(a) => a.same(&spender),
                    None => false,
                };
                spender.same(&owner) || approved || self.is_approved_for_all(owner, spender)
            },
        }
    }

    /// Whether token `id` exists.
    fn token_exists(&self, id: TokenId) -> (r: bool)
        requires
            self.wf(),
        ensures
            r == self@.owners.contains_key(id),
    {
        self.token_owner.contains(&id)
    }

    /// Drops the approval of token `id`, if it has one.
    fn clear_approval(&mut self, id: TokenId)
        requires
            old(self).wf(),
        ensures
            final(self).wf(),
            final(self)@ == (Erc721Model { approvals: old(self)@.approvals.remove(id), ..old(self)@ }),
    {
        if self.token_approvals.contains(&id) {
            self.token_approvals.remove(&id);
        }
        proof {
            assert(self@.approvals =~= old(self)@.approvals.remove(id));
        }
    }

    /// Takes token `id` away from `from`: its balance goes down by one and
    /// the token loses its owner.
    fn remove_token_from(&mut self, from: AccountId, id: TokenId) -> (r: Result<(), Error>)
        requires
            old(self).wf(),
        ensures
            final(self).wf(),
            r == (if !old(self)@.owners.contains_key(id) {
                Err(Error::TokenNotFound)
            } else if old(self)@.balance(from) == 0 {
                Err(Error::CannotFetchValue)
            } else {
                Ok(())
            }),
            r is Err ==> final(self)@ == old(self)@,
            r is Ok ==> final(self)@ == (Erc721Model {
                owners: old(self)@.owners.remove(id),
                ..old(self)@.set_balance(from, (old(self)@.balance(from) - 1) as nat)
            }),
    {
        if !self.token_owner.contains(&id) {
            return Err(Error::TokenNotFound);
        }
        decrease_counter_of(&mut self.owned_tokens_count, from)?;
        self.token_owner.remove(&id);
        proof {
            assert forall|t: TokenId| #[trigger] self@.owners.contains_key(t) implies !self@.owners[t].is_sentinel() by {
                assert(old(self)@.owners.contains_key(t));
            }
        }
        Ok(())
    }

    /// Gives token `id` to `to`: its balance goes up by one and it becomes
    /// the owner.
    fn add_token_to(&mut self, to: AccountId, id: TokenId) -> (r: Result<(), Error>)
        requires
            old(self).wf(),
            old(self)@.balance(to) < u32::MAX,
        ensures
            final(self).wf(),
            r == (if old(self)@.owners.contains_key(id) {
                Err(Error::TokenExists)
            } else if to.is_sentinel() {
                Err(Error::NotAllowed)
            } else {
                Ok(())
            }),
            r is Err ==> final(self)@ == old(self)@,
            r is Ok ==> final(self)@ == (Erc721Model {
                owners: old(self)@.owners.insert(id, to),
                ..old(self)@.set_balance(to, old(self)@.balance(to) + 1)
            }),
    {
        if self.token_owner.contains(&id) {
            return Err(Error::TokenExists);
        }
        if to.is_zero() {
            return Err(Error::NotAllowed);
        }
        increase_counter_of(&mut self.owned_tokens_count, to);
        self.token_owner.set(id, to);
        proof {
            assert forall|t: TokenId| #[trigger] self@.owners.contains_key(t) implies !self@.owners[t].is_sentinel() by {
                if t != id {
                    assert(old(self)@.owners.contains_key(t));
                }
            }
        }
        Ok(())
    }

    /// Moves token `id` from `from` to `to` on behalf of the caller.
    fn transfer_token_from(
        &mut self,
        ctx: &CallContext,
        from: AccountId,
        to: AccountId,
        id: TokenId,
    ) -> (r: Result<(), Error>)
        requires
            old(self).wf(),
            old(self)@.balance(to) < u32::MAX,
        ensures
            final(self).wf(),
            r == old(self)@.transfer_outcome(ctx.caller, from, to, id),
            r is Err ==> final(self)@ == old(self)@,
            r is Ok ==> final(self)@ == old(self)@.after_transfer(from, to, id),
            old(self)@.counts_consistent() ==> final(self)@.counts_consistent(),
    {
        if !self.token_exists(id) {
            return Err(Error::TokenNotFound);
        }
        if !self.approved_or_owner(ctx.caller, id) {
            return Err(Error::NotApproved);
        }
        match self.token_owner.get(&id) {
            Some(owner) => {
                if !owner.same(&from) {
                    return Err(Error::NotOwner);
                }
            },
            None => {
                return Err(Error::TokenNotFound);
            },
        }
        if self.balance_of(from) == 0 {
            return Err(Error::CannotFetchValue);
        }
        if to.is_zero() {
            return Err(Error::NotAllowed);
        }
        let ghost s0 = self@;
        self.clear_approval(id);
        self.remove_token_from(from, id)?;
        let ghost s1 = self@;
        self.add_token_to(to, id)?;
        let ghost s2 = self@;
        self.emit(Event::Transfer(Transfer { from: Some(from), to: Some(to), id }));
        proof {
            assert(s2.owners =~= s0.owners.insert(id, to)) by {
                assert(s1.owners =~= s0.owners.remove(id));
            }
            assert(self@.owners == s0.owners.insert(id, to));
            if s0.counts_consistent() {
                self.lemma_owners_finite();
                old(self).lemma_owners_finite();
                assert forall|a: AccountId| #[trigger] self@.balance(a) == owned_count(
                    self@.owners,
                    a,
                ) by {
                    lemma_owned_remove(s0.owners, id, a);
                    lemma_owned_insert(s0.owners.remove(id), id, to, a);
                    assert(s0.owners.remove(id).insert(id, to) =~= self@.owners);
                    assert(s0.balance(a) == owned_count(s0.owners, a));
                }
            }
        }
        Ok(())
    }

    /// Creates token `id` owned by the caller, who must own no token yet.
    pub fn mint(&mut self, ctx: &CallContext, id: TokenId) -> (r: Result<(), Error>)
        requires
            old(self).wf(),
        ensures
            final(self).wf(),
            r == old(self)@.mint_outcome(ctx.caller, id),
            r is Err ==> final(self)@ == old(self)@,
            r is Ok ==> final(self)@ == old(self)@.after_mint(ctx.caller, id),
            old(self)@.counts_consistent() ==> final(self)@.counts_consistent(),
    {
        if self.balance_of(ctx.caller) != 0 {
            return Err(Error::InvariantViolated);
        }
        self.add_token_to(ctx.caller, id)?;
        self.emit(
            Event::Transfer(Transfer { from: Some(AccountId::zero()), to: Some(ctx.caller), id }),
        );
        proof {
            if old(self)@.counts_consistent() {
                old(self).lemma_owners_finite();
                assert forall|a: AccountId| #[trigger] self@.balance(a) == owned_count(
                    self@.owners,
                    a,
                ) by {
                    lemma_owned_insert(old(self)@.owners, id, ctx.caller, a);
                    assert(old(self)@.balance(a) == owned_count(old(self)@.owners, a));
                }
            }
        }
        Ok(())
    }

    /// Destroys token `id`; only its owner may.
    pub fn burn(&mut self, ctx: &CallContext, id: TokenId) -> (r: Result<(), Error>)
        requires
            old(self).wf(),
        ensures
            final(self).wf(),
            r == old(self)@.burn_outcome(ctx.caller, id),
            r is Err ==> final(self)@ == old(self)@,
            r is Ok ==> final(self)@ == old(self)@.after_burn(ctx.caller, id),
            old(self)@.counts_consistent() ==> final(self)@.counts_consistent(),
            old(self)@.counts_consistent() ==> r != Err::<(), Error>(Error::CannotFetchValue),
    {
        let owner = match self.token_owner.get(&id) {
            None => return Err(Error::TokenNotFound),
            Some(o) => o,
        };
        if !owner.same(&ctx.caller) {
            return Err(Error::NotOwner);
        }
        proof {
            if old(self)@.counts_consistent() {
                old(self).lemma_owners_finite();
                assert(owned_set(old(self)@.owners, ctx.caller).contains(id));
                vstd::set_lib::lemma_set_subset_finite(
                    old(self)@.owners.dom(),
                    owned_set(old(self)@.owners, ctx.caller),
                );
                assert(old(self)@.balance(ctx.caller) == owned_count(old(self)@.owners, ctx.caller));
            }
        }
        decrease_counter_of(&mut self.owned_tokens_count, ctx.caller)?;
        self.token_owner.remove(&id);
        self.emit(
            Event::Transfer(Transfer { from: Some(ctx.caller), to: Some(AccountId::zero()), id }),
        );
        proof {
            if old(self)@.counts_consistent() {
                old(self).lemma_owners_finite();
                assert forall|a: AccountId| #[trigger] self@.balance(a) == owned_count(
                    self@.owners,
                    a,
                ) by {
                    lemma_owned_remove(old(self)@.owners, id, a);
                    assert(old(self)@.balance(a) == owned_count(old(self)@.owners, a));
                }
            }
        }
        Ok(())
    }

    /// Moves token `id` from the caller, who must own it, to `destination`.
    /// The destination's balance must have room for one more token.
    pub fn transfer(&mut self, ctx: &CallContext, destination: AccountId, id: TokenId) -> (r:
        Result<(), Error>)
        requires
            old(self).wf(),
            old(self)@.balance(destination) < u32::MAX,
        ensures
            final(self).wf(),
            r == old(self)@.transfer_outcome(ctx.caller, ctx.caller, destination, id),
            r is Err ==> final(self)@ == old(self)@,
            r is Ok ==> final(self)@ == old(self)@.after_transfer(ctx.caller, destination, id),
            old(self)@.counts_consistent() ==> final(self)@.counts_consistent(),
    {
        self.transfer_token_from(ctx, ctx.caller, destination, id)
    }

    /// Moves token `id` from its owner `from` to `to`; the caller must own
    /// it, hold its approval, or be an operator of its owner. The balance of
    /// `to` must have room for one more token.
    pub fn transfer_from(
        &mut self,
        ctx: &CallContext,
        from: AccountId,
        to: AccountId,
        id: TokenId,
    ) -> (r: Result<(), Error>)
        requires
            old(self).wf(),
            old(self)@.balance(to) < u32::MAX,
        ensures
            final(self).wf(),
            r == old(self)@.transfer_outcome(ctx.caller, from, to, id),
            r is Err ==> final(self)@ == old(self)@,
            r is Ok ==> final(self)@ == old(self)@.after_transfer(from, to, id),
            old(self)@.counts_consistent() ==> final(self)@.counts_consistent(),
    {
        self.transfer_token_from(ctx, from, to, id)
    }

    /// Approves `to` to move token `id`; an approval stays until a transfer
    /// clears it.
    pub fn approve(&mut self, ctx: &CallContext, to: AccountId, id: TokenId) -> (r: Result<
        (),
        Error,
    >)
        requires
            old(self).wf(),
        ensures
            final(self).wf(),
            old(self)@.counts_consistent() ==> final(self)@.counts_consistent(),
            r == old(self)@.approve_outcome(ctx.caller, to, id),
            r is Err ==> final(self)@ == old(self)@,
            r is Ok ==> final(self)@ == (Erc721Model {
                approvals: old(self)@.approvals.insert(id, to),
                ..old(self)@
            }).emit(Event::Approval(Approval { from: ctx.caller, to, id })),
    {
        self.approve_for(ctx, to, id)
    }

    /// Approves `to` to move token `id` on behalf of the caller.
    fn approve_for(&mut self, ctx: &CallContext, to: AccountId, id: TokenId) -> (r: Result<
        (),
        Error,
    >)
        requires
            old(self).wf(),
        ensures
            final(self).wf(),
            old(self)@.counts_consistent() ==> final(self)@.counts_consistent(),
            r == old(self)@.approve_outcome(ctx.caller, to, id),
            r is Err ==> final(self)@ == old(self)@,
            r is Ok ==> final(self)@ == (Erc721Model {
                approvals: old(self)@.approvals.insert(id, to),
                ..old(self)@
            }).emit(Event::Approval(Approval { from: ctx.caller, to, id })),
    {
        let owner = match self.token_owner.get(&id) {
            None => return Err(Error::TokenNotFound),
            Some(o) => o,
        };
        if !(owner.same(&ctx.caller) || self.is_approved_for_all(owner, ctx.caller)) {
            return Err(Error::NotAllowed);
        }
        if to.is_zero() {
            return Err(Error::NotAllowed);
        }
        if self.token_approvals.contains(&id) {
            return Err(Error::CannotInsert);
        }
        self.token_approvals.set(id, to);
        self.emit(Event::Approval(Approval { from: ctx.caller, to, id }));
        proof {
            lemma_same_registry(old(self)@, self@);
        }
        Ok(())
    }

    /// Enables or disables `to` as an operator for all of the caller's
    /// tokens.
    pub fn set_approval_for_all(&mut self, ctx: &CallContext, to: AccountId, approved: bool) -> (r:
        Result<(), Error>)
        requires
            old(self).wf(),
        ensures
            final(self).wf(),
            old(self)@.counts_consistent() ==> final(self)@.counts_consistent(),
            r == (if to == ctx.caller {
                Err(Error::NotAllowed)
            } else {
                Ok(())
            }),
            r is Err ==> final(self)@ == old(self)@,
            r is Ok ==> final(self)@ == (Erc721Model {
                operators: old(self)@.operators.insert((ctx.caller, to), approved),
                ..old(self)@
            }).emit(
                Event::ApprovalForAll(ApprovalForAll { owner: ctx.caller, operator: to, approved }),
            ),
    {
        self.approve_for_all(ctx, to, approved)
    }

    /// Records whether `to` is an operator for all of the caller's tokens.
    fn approve_for_all(&mut self, ctx: &CallContext, to: AccountId, approved: bool) -> (r:
        Result<(), Error>)
        requires
            old(self).wf(),
        ensures
            final(self).wf(),
            old(self)@.counts_consistent() ==> final(self)@.counts_consistent(),
            r == (if to == ctx.caller {
                Err(Error::NotAllowed)
            } else {
                Ok(())
            }),
            r is Err ==> final(self)@ == old(self)@,
            r is Ok ==> final(self)@ == (Erc721Model {
                operators: old(self)@.operators.insert((ctx.caller, to), approved),
                ..old(self)@
            }).emit(
                Event::ApprovalForAll(ApprovalForAll { owner: ctx.caller, operator: to, approved }),
            ),
    {
        if to.same(&ctx.caller) {
            return Err(Error::NotAllowed);
        }
        self.emit(
            Event::ApprovalForAll(ApprovalForAll { owner: ctx.caller, operator: to, approved }),
        );
        self.operator_approvals.set((ctx.caller, to), approved);
        proof {
            lemma_same_registry(old(self)@, self@);
        }
        Ok(())
    }
}


/// The cooldown that an action at `block` arms for `duration` blocks.
pub open spec fn limit_after(block: BlockNumber, duration: u32) -> BlockNumber {
    (block + duration) as BlockNumber
}

impl Erc721 {
    pub fn is_archangel(&self, id: TokenId) -> (r: bool)
        requires
            self.wf(),
        ensures
            r == self@.has_tier(id, Tier::Archangel),
    {
        self.has_tier(id, Tier::Archangel)
    }

    pub fn is_principality(&self, id: TokenId) -> (r: bool)
        requires
            self.wf(),
        ensures
            r == self@.has_tier(id, Tier::Principality),
    {
        self.has_tier(id, Tier::Principality)
    }

    pub fn is_power(&self, id: TokenId) -> (r: bool)
        requires
            self.wf(),
        ensures
            r == self@.has_tier(id, Tier::Power),
    {
        self.has_tier(id, Tier::Power)
    }

    pub fn is_virtue(&self, id: TokenId) -> (r: bool)
        requires
            self.wf(),
        ensures
            r == self@.has_tier(id, Tier::Virtue),
    {
        self.has_tier(id, Tier::Virtue)
    }

    pub fn is_dominion(&self, id: TokenId) -> (r: bool)
        requires
            self.wf(),
        ensures
            r == self@.has_tier(id, Tier::Dominion),
    {
        self.has_tier(id, Tier::Dominion)
    }

    pub fn is_throne(&self, id: TokenId) -> (r: bool)
        requires
            self.wf(),
        ensures
            r == self@.has_tier(id, Tier::Throne),
    {
        self.has_tier(id, Tier::Throne)
    }

    pub fn is_cherubim(&self, id: TokenId) -> (r: bool)
        requires
            self.wf(),
        ensures
            r == self@.has_tier(id, Tier::Cherubim),
    {
        self.has_tier(id, Tier::Cherubim)
    }

    pub fn is_seraphim(&self, id: TokenId) -> (r: bool)
        requires
            self.wf(),
        ensures
            r == self@.has_tier(id, Tier::Seraphim),
    {
        self.has_tier(id, Tier::Seraphim)
    }

    fn add_loss(&mut self, id: TokenId)
        requires
            old(self).wf(),
            old(self)@.losses_of(id) < u32::MAX,
        ensures
            final(self).wf(),
            final(self)@ == old(self)@.add_loss(id),
    {
        let n: u32 = self.losses.get_or(&id, 0);
        self.losses.set(id, n + 1);
        proof {
            assert forall|t: TokenId| #[trigger] self@.owners.contains_key(t) implies !self@.owners[t].is_sentinel() by {
                assert(old(self)@.owners.contains_key(t));
            }
        }
    }

    fn add_victory(&mut self, id: TokenId)
        requires
            old(self).wf(),
            old(self)@.victories_of(id) < u32::MAX,
        ensures
            final(self).wf(),
            final(self)@ == old(self)@.add_victory(id),
    {
        let n: u32 = self.victories.get_or(&id, 0);
        self.victories.set(id, n + 1);
        proof {
            assert forall|t: TokenId| #[trigger] self@.owners.contains_key(t) implies !self@.owners[t].is_sentinel() by {
                assert(old(self)@.owners.contains_key(t));
            }
        }
    }

    /// Writes an alliance entry for the ordered pair, once.
    fn ally(&mut self, angel: TokenId, an_ally: TokenId, approval: bool) -> (r: Result<(), Error>)
        requires
            old(self).wf(),
        ensures
            final(self).wf(),
            r == old(self)@.ally_outcome(angel, an_ally),
            r is Err ==> final(self)@ == old(self)@,
            r is Ok ==> final(self)@ == old(self)@.after_ally(angel, an_ally, approval),
    {
        if !self.is_dominion(angel) || self.is_dominion(an_ally) {
            return Err(Error::NotAllowed);
        }
        if self.alliances.contains(&(angel, an_ally)) {
            return Err(Error::CannotInsert);
        }
        self.emit(Event::Alliance(Alliance { angel, ally: an_ally }));
        self.alliances.set((angel, an_ally), approval);
        Ok(())
    }

    /// Token `from` scores a victory and token `to` a loss. Both counters
    /// must have room for one more, and the new cooldown limit must fit in a
    /// block number.
    pub fn attack(&mut self, ctx: &CallContext, from: TokenId, to: TokenId) -> (r: Result<
        (),
        Error,
    >)
        requires
            old(self).wf(),
            ctx.block_number + COOLDOWN <= u32::MAX,
            old(self)@.victories_of(from) < u32::MAX,
            old(self)@.losses_of(to) < u32::MAX,
        ensures
            final(self).wf(),
            old(self)@.counts_consistent() ==> final(self)@.counts_consistent(),
            r == (if old(self)@.allowed(ctx.caller, ctx.block_number) {
                Ok(())
            } else {
                Err(Error::NotAllowed)
            }),
            r is Err ==> final(self)@ == old(self)@,
            r is Ok ==> final(self)@ == old(self)@.add_loss(to).add_victory(from).constrain(
                ctx.caller,
                ctx.caller,
                limit_after(ctx.block_number, COOLDOWN),
            ),
    {
        if !self.is_account_allowed(ctx, ctx.caller) {
            return Err(Error::NotAllowed);
        }
        self.add_loss(to);
        self.add_victory(from);
        self.time_constrain(ctx, ctx.caller, COOLDOWN);
        proof {
            lemma_same_registry(old(self)@, self@);
        }
        Ok(())
    }

    /// Raises token `id` to the tier that its exact victory count unlocks.
    pub fn ascend(&mut self, ctx: &CallContext, id: TokenId) -> (r: Result<(), Error>)
        requires
            old(self).wf(),
            ctx.block_number + COOLDOWN <= u32::MAX,
        ensures
            final(self).wf(),
            old(self)@.counts_consistent() ==> final(self)@.counts_consistent(),
            r == (if !old(self)@.allowed(ctx.caller, ctx.block_number) {
                Err(Error::NotAllowed)
            } else if tier_at(old(self)@.victories_of(id) as int) is None {
                Err(Error::NotAllowed)
            } else {
                Ok(())
            }),
            r is Err ==> final(self)@ == old(self)@,
            r is Ok ==> final(self)@ == (Erc721Model {
                tiers: old(self)@.tiers.insert(
                    (id, tier_at(old(self)@.victories_of(id) as int)->Some_0),
                    true,
                ),
                ..old(self)@
            }).emit(
                Event::Ascension(
                    Ascension { token: id, victories: old(self)@.victories_of(id) as u64 },
                ),
            ).constrain(ctx.caller, ctx.caller, limit_after(ctx.block_number, COOLDOWN)),
    {
        if !self.is_account_allowed(ctx, ctx.caller) {
            return Err(Error::NotAllowed);
        }
        let vict_count: u64 = self.victories_count(id);
        let tier = match ascension_tier(vict_count) {
            Some(t) => t,
            None => return Err(Error::NotAllowed),
        };
        self.tiers.set((id, tier), true);
        self.emit(Event::Ascension(Ascension { token: id, victories: vict_count }));
        self.time_constrain(ctx, ctx.caller, COOLDOWN);
        proof {
            lemma_same_registry(old(self)@, self@);
        }
        Ok(())
    }

    /// Takes one loss off token `id`, which needs at least 64 victories.
    pub fn erase_loss(&mut self, ctx: &CallContext, id: TokenId) -> (r: Result<(), Error>)
        requires
            old(self).wf(),
            ctx.block_number + COOLDOWN <= u32::MAX,
        ensures
            final(self).wf(),
            old(self)@.counts_consistent() ==> final(self)@.counts_consistent(),
            r == (if !old(self)@.allowed(ctx.caller, ctx.block_number) {
                Err(Error::NotAllowed)
            } else if old(self)@.victories_of(id) < ERASE_MIN_VICTORIES {
                Err(Error::InvariantViolated)
            } else if old(self)@.losses_of(id) == 0 {
                Err(Error::CannotFetchValue)
            } else {
                Ok(())
            }),
            r is Err ==> final(self)@ == old(self)@,
            r is Ok ==> final(self)@ == (Erc721Model {
                losses: old(self)@.losses.insert(id, (old(self)@.losses_of(id) - 1) as u32),
                ..old(self)@
            }).constrain(ctx.caller, ctx.caller, limit_after(ctx.block_number, COOLDOWN)),
    {
        if !self.is_account_allowed(ctx, ctx.caller) {
            return Err(Error::NotAllowed);
        }
        if self.victories_count(id) < ERASE_MIN_VICTORIES {
            return Err(Error::InvariantViolated);
        }
        decrease_counter_of(&mut self.losses, id)?;
        self.time_constrain(ctx, ctx.caller, COOLDOWN);
        proof {
            lemma_same_registry(old(self)@, self@);
        }
        Ok(())
    }

    /// A seraphim `id` acts against the archangel `to`. The write only
    /// inserts an absent flag, so an archangel keeps its tier.
    pub fn relegate_archangel(&mut self, ctx: &CallContext, id: TokenId, to: TokenId) -> (r:
        Result<(), Error>)
        requires
            old(self).wf(),
            ctx.block_number + COOLDOWN <= u32::MAX,
        ensures
            final(self).wf(),
            old(self)@.counts_consistent() ==> final(self)@.counts_consistent(),
            r == (if !old(self)@.allowed(ctx.caller, ctx.block_number) {
                Err(Error::NotAllowed)
            } else if !old(self)@.has_tier(id, Tier::Seraphim) {
                Err(Error::InvariantViolated)
            } else if !old(self)@.has_tier(to, Tier::Archangel) {
                Err(Error::NotAllowed)
            } else {
                Ok(())
            }),
            r is Err ==> final(self)@ == old(self)@,
            r is Ok ==> final(self)@ == old(self)@.constrain(
                ctx.caller,
                ctx.caller,
                limit_after(ctx.block_number, COOLDOWN),
            ),
    {
        if !self.is_account_allowed(ctx, ctx.caller) {
            return Err(Error::NotAllowed);
        }
        if !self.is_seraphim(id) {
            return Err(Error::InvariantViolated);
        }
        if !self.is_archangel(to) {
            return Err(Error::NotAllowed);
        }
        if !self.tiers.contains(&(to, Tier::Archangel)) {
            self.tiers.set((to, Tier::Archangel), false);
        }
        self.time_constrain(ctx, ctx.caller, COOLDOWN);
        proof {
            lemma_same_registry(old(self)@, self@);
        }
        Ok(())
    }

    /// An archangel `from` arms the cooldown of `opponent`, and the caller's own
    /// for half as long.
    pub fn delay_angel(&mut self, ctx: &CallContext, from: TokenId, opponent: AccountId) -> (r:
        Result<(), Error>)
        requires
            old(self).wf(),
            ctx.block_number + COOLDOWN <= u32::MAX,
        ensures
            final(self).wf(),
            old(self)@.counts_consistent() ==> final(self)@.counts_consistent(),
            r == (if !old(self)@.has_tier(from, Tier::Archangel) {
                Err(Error::InvariantViolated)
            } else if !old(self)@.allowed(ctx.caller, ctx.block_number) {
                Err(Error::NotAllowed)
            } else {
                Ok(())
            }),
            r is Err ==> final(self)@ == old(self)@,
            r is Ok ==> final(self)@ == old(self)@.constrain(
                ctx.caller,
                opponent,
                limit_after(ctx.block_number, COOLDOWN),
            ).constrain(ctx.caller, ctx.caller, limit_after(ctx.block_number, DELAY_COOLDOWN)),
    {
        if !self.is_archangel(from) {
            return Err(Error::InvariantViolated);
        }
        if !self.is_account_allowed(ctx, ctx.caller) {
            return Err(Error::NotAllowed);
        }
        self.time_constrain(ctx, opponent, COOLDOWN);
        self.time_constrain(ctx, ctx.caller, DELAY_COOLDOWN);
        proof {
            lemma_same_registry(old(self)@, self@);
        }
        Ok(())
    }

    /// A dominion `angel` allies with the non-dominion `ally`.
    pub fn form_alliance(&mut self, ctx: &CallContext, angel: TokenId, ally: TokenId) -> (r:
        Result<(), Error>)
        requires
            old(self).wf(),
            ctx.block_number + COOLDOWN <= u32::MAX,
        ensures
            final(self).wf(),
            old(self)@.counts_consistent() ==> final(self)@.counts_consistent(),
            r == (if !old(self)@.allowed(ctx.caller, ctx.block_number) {
                Err(Error::NotAllowed)
            } else {
                old(self)@.ally_outcome(angel, ally)
            }),
            r is Err ==> final(self)@ == old(self)@,
            r is Ok ==> final(self)@ == old(self)@.after_ally(angel, ally, true).constrain(
                ctx.caller,
                ctx.caller,
                limit_after(ctx.block_number, COOLDOWN),
            ),
    {
        if !self.is_account_allowed(ctx, ctx.caller) {
            return Err(Error::NotAllowed);
        }
        self.ally(angel, ally, true)?;
        self.time_constrain(ctx, ctx.caller, COOLDOWN);
        proof {
            lemma_same_registry(old(self)@, self@);
        }
        Ok(())
    }

    /// A cherubim `attacker` writes a false alliance entry for the pair
    /// (`victim`, `ally`), through the same insert-once path as forming one.
    pub fn dissolve_alliance(
        &mut self,
        ctx: &CallContext,
        attacker: TokenId,
        victim: TokenId,
        ally: TokenId,
    ) -> (r: Result<(), Error>)
        requires
            old(self).wf(),
            ctx.block_number + COOLDOWN <= u32::MAX,
        ensures
            final(self).wf(),
            old(self)@.counts_consistent() ==> final(self)@.counts_consistent(),
            r == (if !old(self)@.allowed(ctx.caller, ctx.block_number) {
                Err(Error::NotAllowed)
            } else if !old(self)@.has_tier(attacker, Tier::Cherubim) {
                Err(Error::InvariantViolated)
            } else {
                old(self)@.ally_outcome(victim, ally)
            }),
            r is Err ==> final(self)@ == old(self)@,
            r is Ok ==> final(self)@ == old(self)@.after_ally(victim, ally, false).constrain(
                ctx.caller,
                ctx.caller,
                limit_after(ctx.block_number, COOLDOWN),
            ),
    {
        if !self.is_account_allowed(ctx, ctx.caller) {
            return Err(Error::NotAllowed);
        }
        if !self.is_cherubim(attacker) {
            return Err(Error::InvariantViolated);
        }
        self.ally(victim, ally, false)?;
        self.time_constrain(ctx, ctx.caller, COOLDOWN);
        proof {
            lemma_same_registry(old(self)@, self@);
        }
        Ok(())
    }

    /// Allied tokens gang up on `victim`: it gains a loss and gives up a
    /// victory. A power-tier victim is immune.
    pub fn gangel_bangel(
        &mut self,
        ctx: &CallContext,
        attacker: TokenId,
        attacker_ally: TokenId,
        victim: TokenId,
    ) -> (r: Result<(), Error>)
        requires
            old(self).wf(),
            ctx.block_number + GANG_COOLDOWN <= u32::MAX,
            old(self)@.losses_of(victim) < u32::MAX,
        ensures
            final(self).wf(),
            old(self)@.counts_consistent() ==> final(self)@.counts_consistent(),
            r == (if !old(self)@.allowed(ctx.caller, ctx.block_number) {
                Err(Error::NotAllowed)
            } else if !old(self)@.allied(attacker, attacker_ally) {
                Err(Error::InvariantViolated)
            } else if old(self)@.has_tier(victim, Tier::Power) {
                Err(Error::InvariantViolated)
            } else if old(self)@.victories_of(victim) == 0 {
                Err(Error::CannotFetchValue)
            } else {
                Ok(())
            }),
            r is Err ==> final(self)@ == old(self)@,
            r is Ok ==> final(self)@ == (Erc721Model {
                victories: old(self)@.victories.insert(
                    victim,
                    (old(self)@.victories_of(victim) - 1) as u32,
                ),
                ..old(self)@.add_loss(victim)
            }).constrain(ctx.caller, ctx.caller, limit_after(ctx.block_number, GANG_COOLDOWN)),
            old(self)@.has_tier(victim, Tier::Power) ==> r is Err,
    {
        if !self.is_account_allowed(ctx, ctx.caller) {
            return Err(Error::NotAllowed);
        }
        if !self.is_allied(attacker, attacker_ally) {
            return Err(Error::InvariantViolated);
        }
        if self.is_power(victim) {
            return Err(Error::InvariantViolated);
        }
        if self.victories_count(victim) == 0 {
            return Err(Error::CannotFetchValue);
        }
        self.add_loss(victim);
        decrease_counter_of(&mut self.victories, victim)?;
        self.time_constrain(ctx, ctx.caller, GANG_COOLDOWN);
        proof {
            lemma_same_registry(old(self)@, self@);
        }
        Ok(())
    }
}

} // verus!
