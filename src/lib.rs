//! Token ledgers: fungible balances with allowances, multi-class balances with
//! batch operations, and a registry of unique items, each proved to keep its
//! accounting invariants.
pub mod metadata;
pub mod table;
pub mod erc20;
pub mod erc1155;
pub mod erc721;

use vstd::prelude::*;

verus! {

/// An account identifier, supplied by the caller already authenticated.
pub type Address = u64;

/// The reserved account that stands for "no account".
pub const ZERO_ADDRESS: Address = 0;

/// The balance that account `x`, which held `held`, holds after `value`
/// moved from `from` to `to`.
pub open spec fn moved(held: nat, x: Address, from: Address, to: Address, value: nat) -> int {
    held - (if x == from { value } else { 0 }) + (if x == to { value } else { 0 })
}

} // verus!
