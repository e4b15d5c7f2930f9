use std::cell::RefCell;

use erc::erc1155::{ERC1155Error, ERC1155Events, MultiTokenLedger, ERC1155};
use erc::ZERO_ADDRESS;

const A: u64 = 1;
const B: u64 = 2;
const C: u64 = 3;

struct Quiet;

impl ERC1155Events for Quiet {
    fn emit_transfer_single(&self, _: u64, _: u64, _: u64, _: u64, _: u64) {}
    fn emit_transfer_batch(&self, _: u64, _: u64, _: u64, _: Vec<u64>, _: Vec<u64>) {}
    fn emit_approval_for_all(&self, _: u64, _: u64, _: bool) {}
    fn emit_uri(&self, _: String, _: u64) {}
}

#[derive(Default)]
struct Recorder {
    seen: RefCell<Vec<String>>,
}

impl ERC1155Events for Recorder {
    fn emit_transfer_single(&self, operator: u64, from: u64, to: u64, id: u64, value: u64) {
        self.seen.borrow_mut().push(format!("single {operator} {from} {to} {id} {value}"));
    }
    fn emit_transfer_batch(&self, operator: u64, from: u64, to: u64, ids: Vec<u64>, values: Vec<u64>) {
        self.seen.borrow_mut().push(format!("batch {operator} {from} {to} {ids:?} {values:?}"));
    }
    fn emit_approval_for_all(&self, owner: u64, operator: u64, approved: bool) {
        self.seen.borrow_mut().push(format!("operator {owner} {operator} {approved}"));
    }
    fn emit_uri(&self, value: String, id: u64) {
        self.seen.borrow_mut().push(format!("uri {value} {id}"));
    }
}

fn stocked() -> MultiTokenLedger {
    let mut l = MultiTokenLedger::new();
    l.mint(&Quiet, A, A, 1, 100, vec![]).unwrap();
    l.mint(&Quiet, A, A, 2, 5, vec![]).unwrap();
    l
}

#[test]
fn mint_sets_supply_and_balance() {
    let l = stocked();
    assert_eq!(l.total_supply(1), Some(100));
    assert_eq!(l.balance_of(A, 1), Ok(100));
    assert_eq!(l.balance_of(B, 1), Ok(0));
    assert_eq!(l.total_supply(9), None);
}

#[test]
fn balance_of_zero_account_is_rejected() {
    let l = stocked();
    assert_eq!(l.balance_of(ZERO_ADDRESS, 1), Err(ERC1155Error::ZeroAddress));
}

#[test]
fn failing_leg_leaves_batch_without_effect() {
    let mut l = stocked();
    let r = l.safe_batch_transfer_from(&Quiet, A, A, B, vec![1, 2, 1], vec![10, 6, 1], vec![]);
    assert_eq!(r, Err(ERC1155Error::InsufficientBalance));
    assert_eq!(l.balance_of(A, 1), Ok(100));
    assert_eq!(l.balance_of(A, 2), Ok(5));
    assert_eq!(l.balance_of(B, 1), Ok(0));
    assert_eq!(l.balance_of(B, 2), Ok(0));
}

#[test]
fn repeated_class_in_batch_is_checked_cumulatively() {
    let mut l = stocked();
    let r = l.safe_batch_transfer_from(&Quiet, A, A, B, vec![2, 2], vec![3, 3], vec![]);
    assert_eq!(r, Err(ERC1155Error::InsufficientBalance));
    assert_eq!(l.balance_of(A, 2), Ok(5));
    let r = l.safe_batch_transfer_from(&Quiet, A, A, B, vec![2, 1, 2], vec![3, 40, 2], vec![]);
    assert_eq!(r, Ok(()));
    assert_eq!(l.balance_of(A, 2), Ok(0));
    assert_eq!(l.balance_of(B, 2), Ok(5));
    assert_eq!(l.balance_of(A, 1), Ok(60));
    assert_eq!(l.balance_of(B, 1), Ok(40));
    assert_eq!(l.total_supply(1), Some(100));
}

#[test]
fn batch_with_unequal_arrays_is_rejected() {
    let mut l = stocked();
    let r = l.safe_batch_transfer_from(&Quiet, A, A, B, vec![1, 2], vec![1], vec![]);
    assert_eq!(r, Err(ERC1155Error::ArraysLengthMismatch));
    assert_eq!(l.balance_of_batch(vec![A], vec![1, 2]), Err(ERC1155Error::ArraysLengthMismatch));
    assert_eq!(l.mint_batch(&Quiet, A, A, vec![1], vec![], vec![]), Err(ERC1155Error::ArraysLengthMismatch));
    assert_eq!(l.burn_batch(&Quiet, A, A, vec![], vec![1]), Err(ERC1155Error::ArraysLengthMismatch));
}

#[test]
fn balance_of_batch_pairs_accounts_and_classes() {
    let mut l = stocked();
    l.safe_transfer_from(&Quiet, A, A, C, 2, 4, vec![]).unwrap();
    assert_eq!(l.balance_of_batch(vec![A, C, B], vec![1, 2, 2]), Ok(vec![100, 4, 0]));
    assert_eq!(l.balance_of_batch(vec![A, ZERO_ADDRESS], vec![1, 2]), Err(ERC1155Error::ZeroAddress));
}

#[test]
fn transfer_needs_holder_or_operator() {
    let mut l = stocked();
    assert_eq!(l.safe_transfer_from(&Quiet, B, A, C, 1, 1, vec![]), Err(ERC1155Error::Unauthorized));
    assert_eq!(l.set_approval_for_all(&Quiet, A, B, true), Ok(()));
    assert_eq!(l.is_approved_for_all(A, B), Ok(true));
    assert_eq!(l.safe_transfer_from(&Quiet, B, A, C, 1, 1, vec![7]), Ok(()));
    assert_eq!(l.balance_of(C, 1), Ok(1));
    l.set_approval_for_all(&Quiet, A, B, false).unwrap();
    assert_eq!(l.is_approved_for_all(A, B), Ok(false));
    let r = l.safe_batch_transfer_from(&Quiet, B, A, C, vec![1], vec![1], vec![]);
    assert_eq!(r, Err(ERC1155Error::Unauthorized));
}

#[test]
fn transfer_errors() {
    let mut l = stocked();
    assert_eq!(l.safe_transfer_from(&Quiet, A, A, ZERO_ADDRESS, 1, 1, vec![]), Err(ERC1155Error::ZeroAddress));
    assert_eq!(l.safe_transfer_from(&Quiet, A, A, B, 1, 101, vec![]), Err(ERC1155Error::InsufficientBalance));
    let r = l.safe_batch_transfer_from(&Quiet, A, A, ZERO_ADDRESS, vec![1], vec![1], vec![]);
    assert_eq!(r, Err(ERC1155Error::ZeroAddress));
    assert_eq!(l.balance_of(A, 1), Ok(100));
}

#[test]
fn operator_self_approval_is_rejected() {
    let mut l = stocked();
    assert_eq!(l.set_approval_for_all(&Quiet, A, A, true), Err(ERC1155Error::SelfApproval));
    assert_eq!(l.set_approval_for_all(&Quiet, A, A, false), Err(ERC1155Error::SelfApproval));
    assert_eq!(l.is_approved_for_all(A, A), Ok(false));
}

#[test]
fn mint_overflow_and_zero_recipient() {
    let mut l = stocked();
    assert_eq!(l.mint(&Quiet, A, B, 1, u64::MAX - 99, vec![]), Err(ERC1155Error::ArithmeticOverflow));
    assert_eq!(l.mint(&Quiet, A, ZERO_ADDRESS, 1, 1, vec![]), Err(ERC1155Error::ZeroAddress));
    assert_eq!(l.total_supply(1), Some(100));
    let r = l.mint_batch(&Quiet, A, B, vec![3, 1], vec![1, u64::MAX - 99], vec![]);
    assert_eq!(r, Err(ERC1155Error::ArithmeticOverflow));
    assert_eq!(l.total_supply(3), None);
}

#[test]
fn mint_batch_and_burn_batch() {
    let mut l = MultiTokenLedger::new();
    assert_eq!(l.mint_batch(&Quiet, A, B, vec![4, 5, 4], vec![10, 20, 5], vec![]), Ok(()));
    assert_eq!(l.balance_of(B, 4), Ok(15));
    assert_eq!(l.total_supply(4), Some(15));
    assert_eq!(l.total_supply(5), Some(20));
    assert_eq!(l.burn_batch(&Quiet, B, B, vec![4, 4], vec![10, 6]), Err(ERC1155Error::InsufficientBalance));
    assert_eq!(l.balance_of(B, 4), Ok(15));
    assert_eq!(l.burn_batch(&Quiet, A, B, vec![4], vec![1]), Err(ERC1155Error::Unauthorized));
    assert_eq!(l.burn_batch(&Quiet, B, B, vec![4, 5, 4], vec![10, 20, 5]), Ok(()));
    assert_eq!(l.total_supply(4), Some(0));
    assert_eq!(l.balance_of(B, 5), Ok(0));
}

#[test]
fn burn_checks_balance_and_rights() {
    let mut l = stocked();
    assert_eq!(l.burn(&Quiet, A, A, 1, 101), Err(ERC1155Error::InsufficientBalance));
    assert_eq!(l.burn(&Quiet, B, A, 1, 1), Err(ERC1155Error::Unauthorized));
    assert_eq!(l.burn(&Quiet, A, ZERO_ADDRESS, 1, 1), Err(ERC1155Error::ZeroAddress));
    assert_eq!(l.burn(&Quiet, A, A, 1, 40), Ok(()));
    assert_eq!(l.total_supply(1), Some(60));
    assert_eq!(l.balance_of(A, 1), Ok(60));
}

#[test]
fn class_balances_add_up_to_supply() {
    let mut l = stocked();
    l.safe_transfer_from(&Quiet, A, A, B, 1, 30, vec![]).unwrap();
    l.safe_batch_transfer_from(&Quiet, A, A, C, vec![1, 2], vec![20, 5], vec![]).unwrap();
    l.burn(&Quiet, B, B, 1, 10).unwrap();
    l.mint(&Quiet, A, C, 2, 7, vec![]).unwrap();
    for id in [1u64, 2] {
        let sum: u64 = [A, B, C].iter().map(|a| l.balance_of(*a, id).unwrap()).sum();
        assert_eq!(Some(sum), l.total_supply(id));
    }
}

#[test]
fn uri_is_stored_and_replaced() {
    let mut l = stocked();
    assert_eq!(l.uri(1), Err(ERC1155Error::UnknownToken));
    l.set_uri(&Quiet, 1, "ipfs://one".to_string());
    l.set_uri(&Quiet, 2, "ipfs://two".to_string());
    l.set_uri(&Quiet, 1, "ipfs://uno".to_string());
    assert_eq!(l.uri(1), Ok("ipfs://uno".to_string()));
    assert_eq!(l.uri(2), Ok("ipfs://two".to_string()));
}

#[test]
fn events_follow_committed_changes() {
    let rec = Recorder::default();
    let mut l = MultiTokenLedger::new();
    l.mint(&rec, A, A, 1, 10, vec![]).unwrap();
    l.set_approval_for_all(&rec, A, B, true).unwrap();
    l.safe_batch_transfer_from(&rec, B, A, C, vec![1], vec![4], vec![]).unwrap();
    let _ = l.safe_transfer_from(&rec, A, A, C, 1, 100, vec![]);
    l.set_uri(&rec, 1, "u".to_string());
    let seen = rec.seen.borrow().clone();
    assert_eq!(
        seen,
        vec![
            "single 1 0 1 1 10".to_string(),
            "operator 1 2 true".to_string(),
            "batch 2 1 3 [1] [4]".to_string(),
            "uri u 1".to_string(),
        ]
    );
}
