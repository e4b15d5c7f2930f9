use erc::erc721::{ERC721Error, ERC721Events, UniqueItemRegistry, ERC721};
use erc::ZERO_ADDRESS;

const A: u64 = 1;
const B: u64 = 2;
const C: u64 = 3;

struct Quiet;

impl ERC721Events for Quiet {
    fn emit_transfer(&self, _: Option<u64>, _: Option<u64>, _: u64) {}
    fn emit_approval(&self, _: u64, _: u64, _: u64) {}
    fn emit_approval_for_all(&self, _: u64, _: u64, _: bool) {}
}

fn with_items() -> UniqueItemRegistry {
    let mut g = UniqueItemRegistry::new();
    g.mint(&Quiet, A, 10).unwrap();
    g.mint(&Quiet, A, 11).unwrap();
    g.mint(&Quiet, B, 12).unwrap();
    g
}

#[test]
fn mint_sets_owner_and_counts() {
    let g = with_items();
    assert_eq!(g.owner_of(10), Ok(A));
    assert_eq!(g.owner_of(12), Ok(B));
    assert_eq!(g.balance_of(A), Ok(2));
    assert_eq!(g.balance_of(B), Ok(1));
    assert_eq!(g.balance_of(C), Ok(0));
    assert_eq!(g.total_supply(), 3);
    assert_eq!(g.balance_of(ZERO_ADDRESS), Err(ERC721Error::ZeroAddress));
}

#[test]
fn mint_of_existing_item_fails() {
    let mut g = with_items();
    assert_eq!(g.mint(&Quiet, C, 10), Err(ERC721Error::AlreadyMinted));
    assert_eq!(g.owner_of(10), Ok(A));
    assert_eq!(g.mint(&Quiet, ZERO_ADDRESS, 99), Err(ERC721Error::ZeroAddress));
}

#[test]
fn burned_item_is_not_found() {
    let mut g = with_items();
    assert_eq!(g.burn(&Quiet, A, 10), Ok(()));
    assert_eq!(g.owner_of(10), Err(ERC721Error::NonexistentToken));
    assert_eq!(g.get_approved(10), Err(ERC721Error::NonexistentToken));
    assert_eq!(g.balance_of(A), Ok(1));
    assert_eq!(g.total_supply(), 2);
    assert_eq!(g.burn(&Quiet, A, 10), Err(ERC721Error::NonexistentToken));
    assert_eq!(g.owner_of(77), Err(ERC721Error::NonexistentToken));
    assert_eq!(g.mint(&Quiet, C, 10), Ok(()));
    assert_eq!(g.owner_of(10), Ok(C));
}

#[test]
fn burn_needs_rights() {
    let mut g = with_items();
    assert_eq!(g.burn(&Quiet, C, 10), Err(ERC721Error::Unauthorized));
    assert_eq!(g.owner_of(10), Ok(A));
}

#[test]
fn transfer_moves_item_and_clears_approval() {
    let mut g = with_items();
    g.approve(&Quiet, A, C, 10).unwrap();
    assert_eq!(g.get_approved(10), Ok(Some(C)));
    assert_eq!(g.transfer_from(&Quiet, A, A, B, 10), Ok(()));
    assert_eq!(g.owner_of(10), Ok(B));
    assert_eq!(g.get_approved(10), Ok(None));
    assert_eq!(g.balance_of(A), Ok(1));
    assert_eq!(g.balance_of(B), Ok(2));
    assert_eq!(g.total_supply(), 3);
}

#[test]
fn approved_address_may_transfer_once() {
    let mut g = with_items();
    g.approve(&Quiet, A, C, 11).unwrap();
    assert_eq!(g.safe_transfer_from(&Quiet, C, A, C, 11, None), Ok(()));
    assert_eq!(g.owner_of(11), Ok(C));
    assert_eq!(g.transfer_from(&Quiet, A, C, A, 11), Err(ERC721Error::Unauthorized));
}

#[test]
fn operator_may_transfer_and_approve() {
    let mut g = with_items();
    assert_eq!(g.transfer_from(&Quiet, C, A, C, 10), Err(ERC721Error::Unauthorized));
    g.set_approval_for_all(&Quiet, A, C, true).unwrap();
    assert_eq!(g.is_approved_for_all(A, C), Ok(true));
    assert_eq!(g.approve(&Quiet, C, B, 11), Ok(()));
    assert_eq!(g.get_approved(11), Ok(Some(B)));
    assert_eq!(g.safe_transfer_from(&Quiet, C, A, B, 10, Some(vec![1, 2])), Ok(()));
    assert_eq!(g.owner_of(10), Ok(B));
}

#[test]
fn item_transfer_errors() {
    let mut g = with_items();
    assert_eq!(g.transfer_from(&Quiet, A, A, B, 50), Err(ERC721Error::NonexistentToken));
    assert_eq!(g.transfer_from(&Quiet, A, B, C, 10), Err(ERC721Error::InvalidAddress));
    assert_eq!(g.transfer_from(&Quiet, A, A, ZERO_ADDRESS, 10), Err(ERC721Error::ZeroAddress));
    assert_eq!(g.owner_of(10), Ok(A));
}

#[test]
fn item_self_approval_is_rejected() {
    let mut g = with_items();
    assert_eq!(g.approve(&Quiet, A, A, 10), Err(ERC721Error::SelfApproval));
    assert_eq!(g.set_approval_for_all(&Quiet, A, A, true), Err(ERC721Error::SelfApproval));
    assert_eq!(g.get_approved(10), Ok(None));
    assert_eq!(g.is_approved_for_all(A, A), Ok(false));
}

#[test]
fn approve_needs_owner_or_operator() {
    let mut g = with_items();
    assert_eq!(g.approve(&Quiet, B, C, 10), Err(ERC721Error::Unauthorized));
    assert_eq!(g.approve(&Quiet, A, C, 99), Err(ERC721Error::NonexistentToken));
}

#[test]
fn name_symbol_and_token_uri() {
    let mut g = UniqueItemRegistry::with_metadata("Kittens".to_string(), "KIT".to_string());
    assert_eq!(g.name(), Some("Kittens".to_string()));
    assert_eq!(g.symbol(), Some("KIT".to_string()));
    assert_eq!(UniqueItemRegistry::new().name(), None);
    assert_eq!(g.token_uri(5), Err(ERC721Error::NonexistentToken));
    assert_eq!(g.set_token_uri(5, "ipfs://five".to_string()), Err(ERC721Error::NonexistentToken));
    g.mint(&Quiet, A, 5).unwrap();
    assert_eq!(g.token_uri(5), Ok(String::new()));
    assert_eq!(g.set_token_uri(5, "ipfs://five".to_string()), Ok(()));
    assert_eq!(g.token_uri(5), Ok("ipfs://five".to_string()));
    g.transfer_from(&Quiet, A, A, B, 5).unwrap();
    assert_eq!(g.token_uri(5), Ok("ipfs://five".to_string()));
    g.burn(&Quiet, B, 5).unwrap();
    assert_eq!(g.token_uri(5), Err(ERC721Error::NonexistentToken));
    g.mint(&Quiet, C, 5).unwrap();
    assert_eq!(g.token_uri(5), Ok(String::new()));
}
