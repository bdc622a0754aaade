use nft_ledger::{AccountId, Error, MyErc721};

fn account(tag: u8) -> AccountId {
    AccountId::new([tag; 32])
}

fn demo() -> MyErc721 {
    MyErc721::new(String::from("Demo"), String::from("DEMO"))
}

#[test]
fn new_ledger_is_empty() {
    let ledger = demo();
    assert_eq!(ledger.name(), "Demo");
    assert_eq!(ledger.symbol(), "DEMO");
    assert_eq!(ledger.total_supply(), 0);
    assert_eq!(ledger.balance_of(account(1)), 0);
    assert_eq!(ledger.owner_of(1), Err(Error::NotFound));
    assert_eq!(ledger.token_uri(1), Err(Error::NotFound));
    assert_eq!(ledger.get_approved(1), None);
    assert!(!ledger.is_approved_for_all(account(1), account(2)));
}

#[test]
fn mint_transfer_burn_scenario() {
    let alice = account(1);
    let bob = account(2);
    let mut ledger = demo();

    assert_eq!(ledger.mint(alice, 1, String::from("ipfs://x")), Ok(()));
    assert_eq!(ledger.owner_of(1), Ok(alice));
    assert_eq!(ledger.balance_of(alice), 1);
    assert_eq!(ledger.total_supply(), 1);
    assert_eq!(ledger.token_uri(1), Ok(String::from("ipfs://x")));

    assert_eq!(ledger.transfer(alice, bob, 1), Ok(()));
    assert_eq!(ledger.owner_of(1), Ok(bob));
    assert_eq!(ledger.balance_of(alice), 0);
    assert_eq!(ledger.balance_of(bob), 1);

    assert_eq!(ledger.transfer(alice, bob, 1), Err(Error::NotOwner));
    assert_eq!(ledger.owner_of(1), Ok(bob));
    assert_eq!(ledger.balance_of(alice), 0);
    assert_eq!(ledger.balance_of(bob), 1);
    assert_eq!(ledger.total_supply(), 1);
    assert_eq!(ledger.token_uri(1), Ok(String::from("ipfs://x")));

    assert_eq!(ledger.burn(1), Ok(()));
    assert_eq!(ledger.owner_of(1), Err(Error::NotFound));
    assert_eq!(ledger.total_supply(), 0);
    assert_eq!(ledger.balance_of(bob), 0);
    assert_eq!(ledger.token_uri(1), Err(Error::NotFound));
}

#[test]
fn balances_count_owned_tokens() {
    let alice = account(1);
    let bob = account(2);
    let carol = account(3);
    let mut ledger = demo();
    for id in 0..6u32 {
        let to = if id % 2 == 0 { alice } else { bob };
        assert_eq!(ledger.mint(to, id, format!("uri-{id}")), Ok(()));
    }
    assert_eq!(ledger.transfer(alice, carol, 0), Ok(()));
    assert_eq!(ledger.transfer(bob, alice, 1), Ok(()));
    assert_eq!(ledger.burn(3), Ok(()));
    assert_eq!(ledger.transfer(carol, carol, 0), Ok(()));
    assert_eq!(ledger.burn(9), Err(Error::NotFound));

    for who in [alice, bob, carol, account(4)] {
        let mut owned: u32 = 0;
        for id in 0..10u32 {
            if ledger.owner_of(id) == Ok(who) {
                owned += 1;
            }
        }
        assert_eq!(ledger.balance_of(who), owned);
    }
    assert_eq!(ledger.balance_of(alice), 3);
    assert_eq!(ledger.balance_of(bob), 1);
    assert_eq!(ledger.balance_of(carol), 1);
    assert_eq!(ledger.total_supply(), 5);
}

#[test]
fn mint_of_existing_token_is_refused() {
    let alice = account(1);
    let bob = account(2);
    let mut ledger = demo();
    assert_eq!(ledger.mint(alice, 7, String::from("first")), Ok(()));
    assert_eq!(ledger.mint(bob, 7, String::from("second")), Err(Error::AlreadyExists));
    assert_eq!(ledger.mint(alice, 7, String::from("third")), Err(Error::AlreadyExists));
    assert_eq!(ledger.owner_of(7), Ok(alice));
    assert_eq!(ledger.token_uri(7), Ok(String::from("first")));
    assert_eq!(ledger.balance_of(alice), 1);
    assert_eq!(ledger.balance_of(bob), 0);
    assert_eq!(ledger.total_supply(), 1);
}

#[test]
fn burn_of_missing_token_is_refused() {
    let alice = account(1);
    let mut ledger = demo();
    assert_eq!(ledger.burn(1), Err(Error::NotFound));
    assert_eq!(ledger.mint(alice, 2, String::new()), Ok(()));
    assert_eq!(ledger.burn(1), Err(Error::NotFound));
    assert_eq!(ledger.total_supply(), 1);
    assert_eq!(ledger.balance_of(alice), 1);
    assert_eq!(ledger.owner_of(2), Ok(alice));
}

#[test]
fn burn_removes_token_and_lowers_supply_by_one() {
    let alice = account(1);
    let mut ledger = demo();
    assert_eq!(ledger.mint(alice, 1, String::from("a")), Ok(()));
    assert_eq!(ledger.mint(alice, 2, String::from("b")), Ok(()));
    assert_eq!(ledger.total_supply(), 2);
    assert_eq!(ledger.burn(1), Ok(()));
    assert_eq!(ledger.total_supply(), 1);
    assert_eq!(ledger.owner_of(1), Err(Error::NotFound));
    assert_eq!(ledger.token_uri(1), Err(Error::NotFound));
    assert_eq!(ledger.owner_of(2), Ok(alice));
    assert_eq!(ledger.balance_of(alice), 1);
    assert_eq!(ledger.burn(1), Err(Error::NotFound));
}

#[test]
fn burned_token_id_can_be_minted_again() {
    let alice = account(1);
    let bob = account(2);
    let mut ledger = demo();
    assert_eq!(ledger.mint(alice, 1, String::from("old")), Ok(()));
    assert_eq!(ledger.burn(1), Ok(()));
    assert_eq!(ledger.mint(bob, 1, String::from("new")), Ok(()));
    assert_eq!(ledger.owner_of(1), Ok(bob));
    assert_eq!(ledger.token_uri(1), Ok(String::from("new")));
    assert_eq!(ledger.balance_of(alice), 0);
    assert_eq!(ledger.balance_of(bob), 1);
    assert_eq!(ledger.total_supply(), 1);
}

#[test]
fn transfer_of_missing_token_is_refused() {
    let alice = account(1);
    let bob = account(2);
    let mut ledger = demo();
    assert_eq!(ledger.transfer(alice, bob, 1), Err(Error::NotFound));
    assert_eq!(ledger.balance_of(alice), 0);
    assert_eq!(ledger.balance_of(bob), 0);
}

#[test]
fn transfer_by_non_owner_is_refused() {
    let alice = account(1);
    let bob = account(2);
    let carol = account(3);
    let mut ledger = demo();
    assert_eq!(ledger.mint(alice, 1, String::from("a")), Ok(()));
    assert_eq!(ledger.transfer(bob, carol, 1), Err(Error::NotOwner));
    assert_eq!(ledger.transfer(bob, bob, 1), Err(Error::NotOwner));
    assert_eq!(ledger.owner_of(1), Ok(alice));
    assert_eq!(ledger.balance_of(alice), 1);
    assert_eq!(ledger.balance_of(bob), 0);
    assert_eq!(ledger.balance_of(carol), 0);
}

#[test]
fn transfer_moves_one_token() {
    let alice = account(1);
    let bob = account(2);
    let mut ledger = demo();
    assert_eq!(ledger.mint(alice, 1, String::from("a")), Ok(()));
    assert_eq!(ledger.mint(alice, 2, String::from("b")), Ok(()));
    assert_eq!(ledger.mint(bob, 3, String::from("c")), Ok(()));
    assert_eq!(ledger.transfer(alice, bob, 2), Ok(()));
    assert_eq!(ledger.owner_of(2), Ok(bob));
    assert_eq!(ledger.owner_of(1), Ok(alice));
    assert_eq!(ledger.balance_of(alice), 1);
    assert_eq!(ledger.balance_of(bob), 2);
    assert_eq!(ledger.total_supply(), 3);
    assert_eq!(ledger.token_uri(2), Ok(String::from("b")));
}

#[test]
fn self_transfer_keeps_balance() {
    let alice = account(1);
    let mut ledger = demo();
    assert_eq!(ledger.mint(alice, 1, String::from("a")), Ok(()));
    assert_eq!(ledger.transfer(alice, alice, 1), Ok(()));
    assert_eq!(ledger.owner_of(1), Ok(alice));
    assert_eq!(ledger.balance_of(alice), 1);
    assert_eq!(ledger.total_supply(), 1);
}

#[test]
fn approve_records_one_spender() {
    let alice = account(1);
    let bob = account(2);
    let carol = account(3);
    let mut ledger = demo();
    assert_eq!(ledger.mint(alice, 1, String::from("a")), Ok(()));
    assert_eq!(ledger.get_approved(1), None);
    assert_eq!(ledger.approve(bob, 1), Ok(()));
    assert_eq!(ledger.get_approved(1), Some(bob));
    assert_eq!(ledger.approve(carol, 1), Ok(()));
    assert_eq!(ledger.get_approved(1), Some(carol));
    assert_eq!(ledger.owner_of(1), Ok(alice));
    assert_eq!(ledger.balance_of(alice), 1);
}

#[test]
fn approve_of_owner_is_refused() {
    let alice = account(1);
    let bob = account(2);
    let mut ledger = demo();
    assert_eq!(ledger.mint(alice, 1, String::from("a")), Ok(()));
    assert_eq!(ledger.approve(alice, 1), Err(Error::SelfApproval));
    assert_eq!(ledger.get_approved(1), None);
    assert_eq!(ledger.approve(bob, 1), Ok(()));
    assert_eq!(ledger.approve(alice, 1), Err(Error::SelfApproval));
    assert_eq!(ledger.get_approved(1), Some(bob));
}

#[test]
fn approve_of_missing_token_is_refused() {
    let mut ledger = demo();
    assert_eq!(ledger.approve(account(1), 1), Err(Error::NotFound));
    assert_eq!(ledger.get_approved(1), None);
}

#[test]
fn approval_stays_as_recorded_after_transfer() {
    let alice = account(1);
    let bob = account(2);
    let carol = account(3);
    let mut ledger = demo();
    assert_eq!(ledger.mint(alice, 1, String::from("a")), Ok(()));
    assert_eq!(ledger.approve(carol, 1), Ok(()));
    assert_eq!(ledger.transfer(alice, bob, 1), Ok(()));
    assert_eq!(ledger.get_approved(1), Some(carol));
}

#[test]
fn burn_clears_the_approved_spender() {
    let alice = account(1);
    let bob = account(2);
    let carol = account(3);
    let mut ledger = demo();
    assert_eq!(ledger.mint(alice, 1, String::from("a")), Ok(()));
    assert_eq!(ledger.mint(alice, 2, String::from("b")), Ok(()));
    assert_eq!(ledger.approve(bob, 1), Ok(()));
    assert_eq!(ledger.approve(bob, 2), Ok(()));
    assert_eq!(ledger.get_approved(1), Some(bob));
    assert_eq!(ledger.burn(1), Ok(()));
    assert_eq!(ledger.get_approved(1), None);
    assert_eq!(ledger.get_approved(2), Some(bob));
    assert_eq!(ledger.mint(carol, 1, String::from("c")), Ok(()));
    assert_eq!(ledger.owner_of(1), Ok(carol));
    assert_eq!(ledger.get_approved(1), None);
    assert_eq!(ledger.get_approved(2), Some(bob));
}

#[test]
fn mint_adds_one_token_to_the_receiver_only() {
    let alice = account(1);
    let bob = account(2);
    let mut ledger = demo();
    assert_eq!(ledger.mint(alice, 1, String::from("a")), Ok(()));
    assert_eq!(ledger.mint(bob, 2, String::from("b")), Ok(()));
    assert_eq!(ledger.mint(alice, 3, String::from("c")), Ok(()));
    assert_eq!(ledger.owner_of(3), Ok(alice));
    assert_eq!(ledger.owner_of(1), Ok(alice));
    assert_eq!(ledger.owner_of(2), Ok(bob));
    assert_eq!(ledger.balance_of(alice), 2);
    assert_eq!(ledger.balance_of(bob), 1);
    assert_eq!(ledger.total_supply(), 3);
    assert_eq!(ledger.token_uri(3), Ok(String::from("c")));
    assert_eq!(ledger.get_approved(3), None);
}

#[test]
fn minter_is_reported() {
    let admin = account(9);
    assert_eq!(demo().minter(), None);
    let gated = MyErc721::with_minter(String::from("Gated"), String::from("GTD"), admin);
    assert_eq!(gated.minter(), Some(admin));
}

#[test]
fn operator_approval_is_granted_and_revoked() {
    let alice = account(1);
    let bob = account(2);
    let mut ledger = demo();
    assert!(!ledger.is_approved_for_all(alice, bob));
    ledger.set_approval_for_all(alice, bob, true);
    assert!(ledger.is_approved_for_all(alice, bob));
    assert!(!ledger.is_approved_for_all(bob, alice));
    ledger.set_approval_for_all(alice, bob, false);
    assert!(!ledger.is_approved_for_all(alice, bob));
    assert_eq!(ledger.total_supply(), 0);
}

#[test]
fn gated_collection_mints_for_its_minter_only() {
    let admin = account(9);
    let alice = account(1);
    let mut ledger = MyErc721::with_minter(String::from("Gated"), String::from("GTD"), admin);
    assert_eq!(ledger.mint_as(alice, alice, 1, String::from("a")), Err(Error::Unauthorized));
    assert_eq!(ledger.mint(alice, 1, String::from("a")), Err(Error::Unauthorized));
    assert_eq!(ledger.total_supply(), 0);
    assert_eq!(ledger.owner_of(1), Err(Error::NotFound));
    assert_eq!(ledger.balance_of(alice), 0);

    assert_eq!(ledger.mint_as(admin, alice, 1, String::from("a")), Ok(()));
    assert_eq!(ledger.owner_of(1), Ok(alice));
    assert_eq!(ledger.balance_of(alice), 1);
    assert_eq!(ledger.total_supply(), 1);

    assert_eq!(ledger.mint_as(alice, alice, 1, String::from("b")), Err(Error::AlreadyExists));
    assert_eq!(ledger.mint_as(admin, alice, 1, String::from("b")), Err(Error::AlreadyExists));
    assert_eq!(ledger.token_uri(1), Ok(String::from("a")));
}

#[test]
fn open_collection_mints_for_any_caller() {
    let alice = account(1);
    let bob = account(2);
    let mut ledger = demo();
    assert_eq!(ledger.mint_as(bob, alice, 1, String::from("a")), Ok(()));
    assert_eq!(ledger.mint(bob, 2, String::from("b")), Ok(()));
    assert_eq!(ledger.balance_of(alice), 1);
    assert_eq!(ledger.balance_of(bob), 1);
    assert_eq!(ledger.total_supply(), 2);
}

#[test]
fn accounts_are_equal_when_their_bytes_agree() {
    let mut bytes = [0u8; 32];
    bytes[31] = 1;
    let a = AccountId::new(bytes);
    let b = AccountId::new(bytes);
    let c = AccountId::new([0u8; 32]);
    assert_eq!(a, b);
    assert_ne!(a, c);
    assert_eq!(a.bytes, bytes);
}
