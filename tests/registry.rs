use erc721::{AccountId, CallContext, Erc721, Error, Event, Transfer};

fn alice() -> AccountId {
    AccountId::new([1u8; 32])
}

fn bob() -> AccountId {
    AccountId::new([2u8; 32])
}

fn charlie() -> AccountId {
    AccountId::new([3u8; 32])
}

fn eve() -> AccountId {
    AccountId::new([5u8; 32])
}

fn frank() -> AccountId {
    AccountId::new([6u8; 32])
}

fn as_caller(caller: AccountId) -> CallContext {
    CallContext { caller, block_number: 0 }
}

#[test]
fn mint_works() {
    let accounts_alice = alice();
    let ctx = as_caller(accounts_alice);
    let mut erc721 = Erc721::new();
    assert_eq!(erc721.owner_of(1), None);
    assert_eq!(erc721.balance_of(accounts_alice), 0);
    assert_eq!(erc721.mint(&ctx, 1), Ok(()));
    assert_eq!(erc721.balance_of(accounts_alice), 1);
    assert_eq!(erc721.is_archangel(1), false);
}

#[test]
fn mint_existing_should_fail() {
    let mut erc721 = Erc721::new();
    assert_eq!(erc721.mint(&as_caller(alice()), 1), Ok(()));
    assert_eq!(1, erc721.events().len());
    assert_eq!(erc721.balance_of(alice()), 1);
    assert_eq!(erc721.owner_of(1), Some(alice()));
    // Bob cannot own token 1.
    assert_eq!(erc721.mint(&as_caller(bob()), 1), Err(Error::TokenExists));
}

#[test]
fn transfer_works() {
    let mut erc721 = Erc721::new();
    let ctx = as_caller(alice());
    assert_eq!(erc721.mint(&ctx, 1), Ok(()));
    assert_eq!(erc721.balance_of(alice()), 1);
    assert_eq!(erc721.balance_of(bob()), 0);
    assert_eq!(1, erc721.events().len());
    assert_eq!(erc721.transfer(&ctx, bob(), 1), Ok(()));
    assert_eq!(2, erc721.events().len());
    assert_eq!(erc721.balance_of(bob()), 1);
}

#[test]
fn invalid_transfer_should_fail() {
    let mut erc721 = Erc721::new();
    let ctx = as_caller(alice());
    assert_eq!(erc721.transfer(&ctx, bob(), 2), Err(Error::TokenNotFound));
    assert_eq!(erc721.owner_of(2), None);
    assert_eq!(erc721.mint(&ctx, 2), Ok(()));
    assert_eq!(erc721.balance_of(alice()), 1);
    assert_eq!(erc721.owner_of(2), Some(alice()));
    // Bob cannot transfer tokens he does not own.
    assert_eq!(erc721.transfer(&as_caller(bob()), eve(), 2), Err(Error::NotApproved));
}

#[test]
fn approved_transfer_works() {
    let mut erc721 = Erc721::new();
    let ctx = as_caller(alice());
    assert_eq!(erc721.mint(&ctx, 1), Ok(()));
    assert_eq!(erc721.owner_of(1), Some(alice()));
    assert_eq!(erc721.approve(&ctx, bob(), 1), Ok(()));
    assert_eq!(erc721.transfer_from(&as_caller(bob()), alice(), eve(), 1), Ok(()));
    assert_eq!(erc721.owner_of(1), Some(eve()));
    assert_eq!(erc721.balance_of(alice()), 0);
    assert_eq!(erc721.balance_of(bob()), 0);
    assert_eq!(erc721.balance_of(eve()), 1);
}

#[test]
fn approved_for_all_works() {
    let mut erc721 = Erc721::new();
    let ctx = as_caller(alice());
    assert_eq!(erc721.mint(&ctx, 1), Ok(()));
    // Alice may mint only while she owns nothing, so token 2 reaches her
    // through Bob.
    assert_eq!(erc721.mint(&as_caller(bob()), 2), Ok(()));
    assert_eq!(erc721.transfer(&as_caller(bob()), alice(), 2), Ok(()));
    assert_eq!(erc721.balance_of(alice()), 2);
    assert_eq!(erc721.set_approval_for_all(&ctx, bob(), true), Ok(()));
    assert_eq!(erc721.is_approved_for_all(alice(), bob()), true);
    let bob_ctx = as_caller(bob());
    assert_eq!(erc721.transfer_from(&bob_ctx, alice(), eve(), 1), Ok(()));
    assert_eq!(erc721.owner_of(1), Some(eve()));
    assert_eq!(erc721.balance_of(alice()), 1);
    assert_eq!(erc721.transfer_from(&bob_ctx, alice(), eve(), 2), Ok(()));
    assert_eq!(erc721.balance_of(bob()), 0);
    assert_eq!(erc721.balance_of(eve()), 2);
    assert_eq!(erc721.set_approval_for_all(&ctx, bob(), false), Ok(()));
    assert_eq!(erc721.is_approved_for_all(alice(), bob()), false);
}

#[test]
fn not_approved_transfer_should_fail() {
    let mut erc721 = Erc721::new();
    assert_eq!(erc721.mint(&as_caller(alice()), 1), Ok(()));
    assert_eq!(erc721.balance_of(alice()), 1);
    assert_eq!(erc721.balance_of(bob()), 0);
    assert_eq!(erc721.balance_of(eve()), 0);
    assert_eq!(
        erc721.transfer_from(&as_caller(eve()), alice(), frank(), 1),
        Err(Error::NotApproved)
    );
    assert_eq!(erc721.balance_of(alice()), 1);
    assert_eq!(erc721.balance_of(bob()), 0);
    assert_eq!(erc721.balance_of(eve()), 0);
}

#[test]
fn burn_works() {
    let mut erc721 = Erc721::new();
    let ctx = as_caller(alice());
    assert_eq!(erc721.mint(&ctx, 1), Ok(()));
    assert_eq!(erc721.balance_of(alice()), 1);
    assert_eq!(erc721.owner_of(1), Some(alice()));
    assert_eq!(erc721.burn(&ctx, 1), Ok(()));
    assert_eq!(erc721.balance_of(alice()), 0);
    assert_eq!(erc721.owner_of(1), None);
}

#[test]
fn burn_fails_token_not_found() {
    let mut erc721 = Erc721::new();
    assert_eq!(erc721.burn(&as_caller(alice()), 1), Err(Error::TokenNotFound));
}

#[test]
fn burn_fails_not_owner() {
    let mut erc721 = Erc721::new();
    assert_eq!(erc721.mint(&as_caller(alice()), 1), Ok(()));
    assert_eq!(erc721.burn(&as_caller(eve()), 1), Err(Error::NotOwner));
}

#[test]
fn mint_and_burn_emit_sentinel_transfers() {
    let mut erc721 = Erc721::new();
    let ctx = as_caller(alice());
    assert_eq!(erc721.mint(&ctx, 7), Ok(()));
    assert_eq!(erc721.burn(&ctx, 7), Ok(()));
    let zero = AccountId::zero();
    assert_eq!(
        erc721.events().to_vec(),
        vec![
            Event::Transfer(Transfer { from: Some(zero), to: Some(alice()), id: 7 }),
            Event::Transfer(Transfer { from: Some(alice()), to: Some(zero), id: 7 }),
        ]
    );
}

#[test]
fn burned_token_can_be_minted_again() {
    let mut erc721 = Erc721::new();
    let ctx = as_caller(alice());
    assert_eq!(erc721.mint(&ctx, 3), Ok(()));
    assert_eq!(erc721.burn(&ctx, 3), Ok(()));
    assert_eq!(erc721.owner_of(3), None);
    assert_eq!(erc721.mint(&as_caller(bob()), 3), Ok(()));
    assert_eq!(erc721.owner_of(3), Some(bob()));
}

#[test]
fn balances_follow_owners() {
    let mut erc721 = Erc721::new();
    assert_eq!(erc721.mint(&as_caller(alice()), 1), Ok(()));
    assert_eq!(erc721.mint(&as_caller(bob()), 2), Ok(()));
    assert_eq!(erc721.transfer(&as_caller(bob()), alice(), 2), Ok(()));
    assert_eq!(erc721.mint(&as_caller(bob()), 3), Ok(()));
    assert_eq!(erc721.burn(&as_caller(alice()), 1), Ok(()));
    let accounts = [alice(), bob(), charlie()];
    for a in accounts.iter() {
        let owned = [1u32, 2, 3].iter().filter(|t| erc721.owner_of(**t) == Some(*a)).count();
        assert_eq!(erc721.balance_of(*a) as usize, owned);
    }
    assert_eq!(erc721.balance_of(alice()), 1);
    assert_eq!(erc721.balance_of(bob()), 1);
}

#[test]
fn mint_while_owning_fails_for_any_id() {
    let mut erc721 = Erc721::new();
    let ctx = as_caller(alice());
    assert_eq!(erc721.mint(&ctx, 1), Ok(()));
    for id in [1u32, 2, 99, u32::MAX] {
        assert_eq!(erc721.mint(&ctx, id), Err(Error::InvariantViolated));
    }
    assert_eq!(erc721.balance_of(alice()), 1);
    assert_eq!(erc721.events().len(), 1);
}

#[test]
fn mint_by_sentinel_is_refused() {
    let mut erc721 = Erc721::new();
    assert_eq!(erc721.mint(&as_caller(AccountId::zero()), 1), Err(Error::NotAllowed));
    assert_eq!(erc721.owner_of(1), None);
}

#[test]
fn second_approval_fails_cannot_insert() {
    let mut erc721 = Erc721::new();
    let ctx = as_caller(alice());
    assert_eq!(erc721.mint(&ctx, 1), Ok(()));
    assert_eq!(erc721.approve(&ctx, bob(), 1), Ok(()));
    assert_eq!(erc721.approve(&ctx, bob(), 1), Err(Error::CannotInsert));
    assert_eq!(erc721.approve(&ctx, eve(), 1), Err(Error::CannotInsert));
    assert_eq!(erc721.get_approved(1), Some(bob()));
}

#[test]
fn approve_errors() {
    let mut erc721 = Erc721::new();
    let ctx = as_caller(alice());
    assert_eq!(erc721.approve(&ctx, bob(), 1), Err(Error::TokenNotFound));
    assert_eq!(erc721.mint(&ctx, 1), Ok(()));
    assert_eq!(erc721.approve(&as_caller(bob()), eve(), 1), Err(Error::NotAllowed));
    assert_eq!(erc721.approve(&ctx, AccountId::zero(), 1), Err(Error::NotAllowed));
    // An operator of the owner may approve.
    assert_eq!(erc721.set_approval_for_all(&ctx, bob(), true), Ok(()));
    assert_eq!(erc721.approve(&as_caller(bob()), eve(), 1), Ok(()));
    assert_eq!(erc721.get_approved(1), Some(eve()));
}

#[test]
fn stale_approval_does_not_authorize() {
    let mut erc721 = Erc721::new();
    let ctx = as_caller(alice());
    assert_eq!(erc721.mint(&ctx, 1), Ok(()));
    assert_eq!(erc721.approve(&ctx, bob(), 1), Ok(()));
    assert_eq!(erc721.transfer(&ctx, charlie(), 1), Ok(()));
    assert_eq!(erc721.get_approved(1), None);
    assert_eq!(
        erc721.transfer_from(&as_caller(bob()), charlie(), eve(), 1),
        Err(Error::NotApproved)
    );
    assert_eq!(erc721.owner_of(1), Some(charlie()));
}

#[test]
fn transfer_to_sentinel_is_refused() {
    let mut erc721 = Erc721::new();
    let ctx = as_caller(alice());
    assert_eq!(erc721.mint(&ctx, 1), Ok(()));
    assert_eq!(erc721.transfer(&ctx, AccountId::zero(), 1), Err(Error::NotAllowed));
    assert_eq!(erc721.owner_of(1), Some(alice()));
    assert_eq!(erc721.balance_of(alice()), 1);
}

#[test]
fn transfer_from_non_owner_source_fails() {
    let mut erc721 = Erc721::new();
    let ctx = as_caller(alice());
    assert_eq!(erc721.mint(&ctx, 1), Ok(()));
    // The owner names Bob, who does not own the token, as the source.
    assert_eq!(erc721.transfer_from(&ctx, bob(), eve(), 1), Err(Error::NotOwner));
    assert_eq!(erc721.owner_of(1), Some(alice()));
}

#[test]
fn transfer_from_source_with_other_token_fails() {
    let mut erc721 = Erc721::new();
    assert_eq!(erc721.mint(&as_caller(alice()), 1), Ok(()));
    assert_eq!(erc721.mint(&as_caller(bob()), 2), Ok(()));
    assert_eq!(
        erc721.transfer_from(&as_caller(alice()), bob(), charlie(), 1),
        Err(Error::NotOwner)
    );
    assert_eq!(erc721.balance_of(alice()), 1);
    assert_eq!(erc721.balance_of(bob()), 1);
    assert_eq!(erc721.owner_of(1), Some(alice()));
    assert_eq!(erc721.owner_of(2), Some(bob()));
}

#[test]
fn approved_caller_cannot_use_transfer() {
    let mut erc721 = Erc721::new();
    assert_eq!(erc721.mint(&as_caller(alice()), 1), Ok(()));
    assert_eq!(erc721.mint(&as_caller(bob()), 2), Ok(()));
    assert_eq!(erc721.approve(&as_caller(alice()), bob(), 1), Ok(()));
    // `transfer` moves from the caller, and Bob does not own token 1.
    assert_eq!(erc721.transfer(&as_caller(bob()), charlie(), 1), Err(Error::NotOwner));
    assert_eq!(erc721.balance_of(bob()), 1);
    assert_eq!(erc721.get_approved(1), Some(bob()));
    // Through `transfer_from` with the real owner as source, Bob may move it.
    assert_eq!(erc721.transfer_from(&as_caller(bob()), alice(), charlie(), 1), Ok(()));
    assert_eq!(erc721.balance_of(alice()), 0);
    assert_eq!(erc721.balance_of(charlie()), 1);
}

#[test]
fn set_approval_for_all_rules() {
    let mut erc721 = Erc721::new();
    let ctx = as_caller(alice());
    assert_eq!(erc721.set_approval_for_all(&ctx, alice(), true), Err(Error::NotAllowed));
    assert_eq!(erc721.events().len(), 0);
    assert_eq!(erc721.set_approval_for_all(&ctx, bob(), true), Ok(()));
    assert_eq!(erc721.set_approval_for_all(&ctx, bob(), true), Ok(()));
    assert_eq!(erc721.set_approval_for_all(&ctx, bob(), false), Ok(()));
    assert_eq!(erc721.set_approval_for_all(&ctx, bob(), true), Ok(()));
    assert_eq!(erc721.is_approved_for_all(alice(), bob()), true);
    assert_eq!(erc721.events().len(), 4);
}

#[test]
fn scenario_approved_spender_moves_token() {
    let mut erc721 = Erc721::new();
    let ctx = as_caller(alice());
    assert_eq!(erc721.mint(&ctx, 1), Ok(()));
    assert_eq!(erc721.approve(&ctx, bob(), 1), Ok(()));
    assert_eq!(erc721.transfer_from(&as_caller(bob()), alice(), charlie(), 1), Ok(()));
    assert_eq!(erc721.owner_of(1), Some(charlie()));
    assert_eq!(erc721.balance_of(alice()), 0);
    assert_eq!(erc721.get_approved(1), None);
}
