use vstd::prelude::*;

use crate::account::{AccountId, BlockNumber};
use crate::erc721::{owned_set, Erc721Model};
use crate::rank::tier_at;
use crate::TokenId;

verus! {

/// In a registry whose balances match ownership and where no token belongs to
/// the all-zero account, an owner may always move its own token to a real
/// account.
pub proof fn lemma_owner_transfer_succeeds(s: Erc721Model, owner: AccountId, to: AccountId, id: TokenId)
    requires
        s.owners.dom().finite(),
        s.counts_consistent(),
        s.no_sentinel_owner(),
        s.owners.contains_key(id),
        s.owners[id] == owner,
        !to.is_sentinel(),
    ensures
        s.transfer_outcome(owner, owner, to, id) is Ok,
{
    let owned = owned_set(s.owners, owner);
    vstd::set_lib::lemma_set_subset_finite(s.owners.dom(), owned);
    assert(owned.contains(id));
    assert(s.balance(owner) == owned.len());
}

/// A token's presence changes only through mint, which adds it, and burn,
/// which removes it: a transfer keeps the set of existing tokens, and the
/// cooldown, the combat ledger and alliance writes leave ownership untouched.
pub proof fn lemma_token_presence(
    s: Erc721Model,
    caller: AccountId,
    from: AccountId,
    to: AccountId,
    id: TokenId,
    other: TokenId,
    limit: BlockNumber,
    approval: bool,
)
    ensures
        s.after_mint(caller, id).owners.dom() == s.owners.dom().insert(id),
        s.after_burn(caller, id).owners.dom() == s.owners.dom().remove(id),
        s.owners.contains_key(id) ==> s.after_transfer(from, to, id).owners.dom()
            == s.owners.dom(),
        s.constrain(caller, from, limit).owners == s.owners,
        s.add_loss(other).owners == s.owners,
        s.add_victory(other).owners == s.owners,
        s.after_ally(id, other, approval).owners == s.owners,
{
    assert(s.after_mint(caller, id).owners.dom() =~= s.owners.dom().insert(id));
    assert(s.after_burn(caller, id).owners.dom() =~= s.owners.dom().remove(id));
    if s.owners.contains_key(id) {
        assert(s.after_transfer(from, to, id).owners.dom() =~= s.owners.dom());
    }
}

/// After a transfer, an approval that the previous owner gave no longer lets
/// its holder move the token, unless the holder is the new owner or one of
/// its operators.
pub proof fn lemma_transfer_voids_approval(
    s: Erc721Model,
    spender: AccountId,
    from: AccountId,
    to: AccountId,
    id: TokenId,
    holder: AccountId,
)
    requires
        s.transfer_outcome(spender, from, to, id) is Ok,
        holder != to,
        !s.is_operator(to, holder),
    ensures
        !s.after_transfer(from, to, id).may_spend(holder, id),
        !s.after_transfer(from, to, id).approvals.contains_key(id),
{
}

/// Once an account has a cooldown, writing another one leaves it as it was.
pub proof fn lemma_cooldown_written_once(
    s: Erc721Model,
    caller: AccountId,
    later_caller: AccountId,
    account: AccountId,
    first: BlockNumber,
    second: BlockNumber,
)
    ensures
        s.constrain(caller, account, first).constrain(later_caller, account, second).ready_at(account)
            == s.constrain(caller, account, first).ready_at(account),
        !s.ready.contains_key(account) ==> s.constrain(caller, account, first).ready_at(account)
            == first,
{
}

/// Only the exact thresholds unlock a tier; every count between or above
/// them unlocks none.
pub proof fn lemma_ascension_exact(victories: int)
    ensures
        tier_at(victories) is Some <==> (victories == 4 || victories == 8 || victories == 16
            || victories == 32 || victories == 64 || victories == 128 || victories == 256
            || victories == 512),
{
}

} // verus!
