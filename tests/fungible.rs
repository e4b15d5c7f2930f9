use erc::erc20::{ERC20Error, FungibleLedger, IERC20, UNLIMITED_ALLOWANCE};
use erc::ZERO_ADDRESS;

const A: u64 = 1;
const B: u64 = 2;
const C: u64 = 3;

fn funded(amount: u64) -> FungibleLedger {
    let mut l = FungibleLedger::new();
    l.mint(A, amount).unwrap();
    l
}

#[test]
fn mint_approve_transfer_from_scenario() {
    let mut l = funded(1000);
    assert_eq!(l.total_supply(), 1000);
    assert_eq!(l.balance_of(A), 1000);
    assert_eq!(l.approve(A, B, 300), Ok(()));
    assert_eq!(l.transfer_from(B, A, C, 300), Ok(()));
    assert_eq!(l.balance_of(C), 300);
    assert_eq!(l.balance_of(A), 700);
    assert_eq!(l.allowance(A, B), 0);
    assert_eq!(l.total_supply(), 1000);
}

#[test]
fn allowance_is_decremented_by_transfer_from() {
    let mut l = funded(500);
    l.approve(A, B, 100).unwrap();
    let before = l.balance_of(C);
    assert_eq!(l.transfer_from(B, A, C, 40), Ok(()));
    assert_eq!(l.allowance(A, B), 60);
    assert_eq!(l.balance_of(C), before + 40);
}

#[test]
fn approve_overwrites_previous_allowance() {
    let mut l = funded(10);
    l.approve(A, B, 100).unwrap();
    l.approve(A, B, 7).unwrap();
    assert_eq!(l.allowance(A, B), 7);
}

#[test]
fn unlimited_allowance_is_not_decremented() {
    let mut l = funded(500);
    l.approve(A, B, UNLIMITED_ALLOWANCE).unwrap();
    assert_eq!(l.transfer_from(B, A, C, 200), Ok(()));
    assert_eq!(l.allowance(A, B), UNLIMITED_ALLOWANCE);
    assert_eq!(l.balance_of(C), 200);
}

#[test]
fn allowance_self_approval_is_rejected() {
    let mut l = funded(10);
    for n in [0u64, 1, 100, u64::MAX] {
        assert_eq!(l.approve(A, A, n), Err(ERC20Error::SelfApproval));
        assert_eq!(l.allowance(A, A), 0);
    }
}

#[test]
fn approve_of_zero_spender_is_rejected() {
    let mut l = funded(10);
    assert_eq!(l.approve(A, ZERO_ADDRESS, 5), Err(ERC20Error::ZeroAddress));
}

#[test]
fn transfer_to_zero_is_rejected_without_effect() {
    let mut l = funded(1000);
    l.transfer(A, B, 10).unwrap();
    for amount in [0u64, 1, 990, 5000] {
        assert_eq!(l.transfer(A, ZERO_ADDRESS, amount), Err(ERC20Error::ZeroAddress));
        assert_eq!(l.balance_of(A), 990);
        assert_eq!(l.balance_of(B), 10);
        assert_eq!(l.balance_of(ZERO_ADDRESS), 0);
        assert_eq!(l.total_supply(), 1000);
    }
}

#[test]
fn transfer_moves_exact_amount() {
    let mut l = funded(100);
    assert_eq!(l.transfer(A, B, 30), Ok(()));
    assert_eq!(l.balance_of(A), 70);
    assert_eq!(l.balance_of(B), 30);
    assert_eq!(l.total_supply(), 100);
}

#[test]
fn transfer_beyond_balance_is_rejected() {
    let mut l = funded(100);
    assert_eq!(l.transfer(A, B, 101), Err(ERC20Error::InsufficientBalance));
    assert_eq!(l.balance_of(A), 100);
    assert_eq!(l.balance_of(B), 0);
}

#[test]
fn transfer_to_self_keeps_balance() {
    let mut l = funded(100);
    assert_eq!(l.transfer(A, A, 60), Ok(()));
    assert_eq!(l.balance_of(A), 100);
}

#[test]
fn transfer_from_beyond_allowance_is_rejected() {
    let mut l = funded(100);
    l.approve(A, B, 20).unwrap();
    assert_eq!(l.transfer_from(B, A, C, 21), Err(ERC20Error::InsufficientAllowance));
    assert_eq!(l.allowance(A, B), 20);
    assert_eq!(l.balance_of(A), 100);
}

#[test]
fn transfer_from_beyond_balance_is_rejected_first() {
    let mut l = funded(10);
    l.approve(A, B, 5).unwrap();
    assert_eq!(l.transfer_from(B, A, C, 11), Err(ERC20Error::InsufficientBalance));
}

#[test]
fn transfer_from_zero_party_is_rejected() {
    let mut l = funded(10);
    l.approve(A, B, 5).unwrap();
    assert_eq!(l.transfer_from(B, ZERO_ADDRESS, C, 1), Err(ERC20Error::ZeroAddress));
    assert_eq!(l.transfer_from(B, A, ZERO_ADDRESS, 1), Err(ERC20Error::ZeroAddress));
    assert_eq!(l.allowance(A, B), 5);
}

#[test]
fn mint_past_u64_max_overflows() {
    let mut l = funded(u64::MAX - 1);
    assert_eq!(l.mint(B, 2), Err(ERC20Error::ArithmeticOverflow));
    assert_eq!(l.mint(B, 1), Ok(()));
    assert_eq!(l.total_supply(), u64::MAX);
    assert_eq!(l.mint(ZERO_ADDRESS, 0), Err(ERC20Error::ZeroAddress));
}

#[test]
fn burn_reduces_balance_and_supply() {
    let mut l = funded(100);
    assert_eq!(l.burn(A, 30), Ok(()));
    assert_eq!(l.balance_of(A), 70);
    assert_eq!(l.total_supply(), 70);
    assert_eq!(l.burn(A, 71), Err(ERC20Error::InsufficientBalance));
}

#[test]
fn balances_add_up_to_supply_after_a_sequence() {
    let mut l = funded(1000);
    l.mint(B, 50).unwrap();
    l.transfer(A, C, 300).unwrap();
    l.approve(C, B, 100).unwrap();
    l.transfer_from(B, C, B, 80).unwrap();
    l.burn(A, 100).unwrap();
    let _ = l.transfer(C, A, 10_000);
    let sum = l.balance_of(A) + l.balance_of(B) + l.balance_of(C);
    assert_eq!(sum, l.total_supply());
    assert_eq!(l.total_supply(), 950);
}
