//! The fungible ledger: one denomination, balances and spender allowances.
use vstd::prelude::*;
use crate::table::{PairTable, lemma_pair_le_sum};
use crate::{moved, Address, ZERO_ADDRESS};

verus! {

#[derive(Clone, Copy, Debug, PartialEq, Eq)]
pub enum ERC20Error {
    /// The holder has less than the amount to move.
    InsufficientBalance,
    /// The spender's remaining allowance is less than the amount to move.
    InsufficientAllowance,
    /// Supply arithmetic would leave the range of `u64`.
    ArithmeticOverflow,
    /// A party is the zero account.
    ZeroAddress,
    /// Not returned by this ledger, whose accounts are plain identifiers.
    InvalidAddress,
    /// An account tried to approve itself.
    SelfApproval,
}

/// An allowance of this size is never decremented by `transfer_from`.
pub const UNLIMITED_ALLOWANCE: u64 = 0xffff_ffff_ffff_ffff;

/// The allowance left after `transfer_from` spends `value` of `current`.
pub open spec fn spent_allowance(current: nat, value: nat) -> nat {
    if current == UNLIMITED_ALLOWANCE {
        current
    } else {
        (current - value) as nat
    }
}

/// A fungible token: a supply, balances and allowances, each call made on
/// behalf of an already-authenticated `caller`.
pub trait IERC20 {
    /// The ledger's invariant: the balances add up to the supply.
    spec fn inv(&self) -> bool;

    spec fn supply_spec(&self) -> nat;

    spec fn balance_spec(&self, account: Address) -> nat;

    spec fn allowance_spec(&self, owner: Address, spender: Address) -> nat;

    fn total_supply(&self) -> (r: u64)
        requires
            self.inv(),
        ensures
            r as nat == self.supply_spec(),
    ;

    fn balance_of(&self, account: Address) -> (r: u64)
        requires
            self.inv(),
        ensures
            r as nat == self.balance_spec(account),
    ;

    /// What `spender` may still move out of `owner`'s balance.
    fn allowance(&self, owner: Address, spender: Address) -> (r: u64)
        requires
            self.inv(),
        ensures
            r as nat == self.allowance_spec(owner, spender),
    ;

    /// Moves `value` from `caller` to `to`.
    fn transfer(&mut self, caller: Address, to: Address, value: u64) -> (r: Result<(), ERC20Error>)
        requires
            old(self).inv(),
        ensures
            final(self).inv(),
            caller == ZERO_ADDRESS || to == ZERO_ADDRESS ==> r == Err::<(), ERC20Error>(
                ERC20Error::ZeroAddress,
            ),
            caller != ZERO_ADDRESS && to != ZERO_ADDRESS && value > old(self).balance_spec(caller)
                ==> r == Err::<(), ERC20Error>(ERC20Error::InsufficientBalance),
            r is Ok <==> caller != ZERO_ADDRESS && to != ZERO_ADDRESS && value <= old(
                self,
            ).balance_spec(caller),
            final(self).supply_spec() == old(self).supply_spec(),
            forall|x: Address|
                #[trigger] final(self).balance_spec(x) == moved(
                    old(self).balance_spec(x),
                    x,
                    caller,
                    to,
                    if r is Ok { value as nat } else { 0 },
                ),
            forall|o: Address, s: Address|
                #[trigger] final(self).allowance_spec(o, s) == old(self).allowance_spec(o, s),
    ;

    /// Moves `value` from `from` to `to`, spending `caller`'s allowance on `from`.
    fn transfer_from(&mut self, caller: Address, from: Address, to: Address, value: u64) -> (r:
        Result<(), ERC20Error>)
        requires
            old(self).inv(),
        ensures
            final(self).inv(),
            from == ZERO_ADDRESS || to == ZERO_ADDRESS ==> r == Err::<(), ERC20Error>(
                ERC20Error::ZeroAddress,
            ),
            from != ZERO_ADDRESS && to != ZERO_ADDRESS && value > old(self).balance_spec(from) ==> r
                == Err::<(), ERC20Error>(ERC20Error::InsufficientBalance),
            from != ZERO_ADDRESS && to != ZERO_ADDRESS && value <= old(self).balance_spec(from)
                && value > old(self).allowance_spec(from, caller) ==> r == Err::<(), ERC20Error>(
                ERC20Error::InsufficientAllowance,
            ),
            r is Ok <==> from != ZERO_ADDRESS && to != ZERO_ADDRESS && value <= old(
                self,
            ).balance_spec(from) && value <= old(self).allowance_spec(from, caller),
            final(self).supply_spec() == old(self).supply_spec(),
            forall|x: Address|
                #[trigger] final(self).balance_spec(x) == moved(
                    old(self).balance_spec(x),
                    x,
                    from,
                    to,
                    if r is Ok { value as nat } else { 0 },
                ),
            forall|o: Address, s: Address|
                #[trigger] final(self).allowance_spec(o, s) == if r is Ok && o == from && s
                    == caller {
                    spent_allowance(old(self).allowance_spec(o, s), value as nat)
                } else {
                    old(self).allowance_spec(o, s)
                },
    ;

    /// Sets what `spender` may move out of `caller`'s balance to `value`.
    fn approve(&mut self, caller: Address, spender: Address, value: u64) -> (r: Result<(), ERC20Error>)
        requires
            old(self).inv(),
        ensures
            final(self).inv(),
            caller == spender ==> r == Err::<(), ERC20Error>(ERC20Error::SelfApproval),
            caller != spender && (caller == ZERO_ADDRESS || spender == ZERO_ADDRESS) ==> r == Err::<
                (),
                ERC20Error,
            >(ERC20Error::ZeroAddress),
            r is Ok <==> caller != spender && caller != ZERO_ADDRESS && spender != ZERO_ADDRESS,
            final(self).supply_spec() == old(self).supply_spec(),
            forall|x: Address| #[trigger]
                final(self).balance_spec(x) == old(self).balance_spec(x),
            forall|o: Address, s: Address|
                #[trigger] final(self).allowance_spec(o, s) == if r is Ok && o == caller && s
                    == spender {
                    value as nat
                } else {
                    old(self).allowance_spec(o, s)
                },
    ;
}

/// The column of the balance table that holds the single denomination.
const DENOMINATION: u64 = 0;

/// A fungible ledger held in memory.
pub struct FungibleLedger {
    balances: PairTable,
    allowances: PairTable,
    supply: u64,
}

impl FungibleLedger {
    /// The sum of the balances of all accounts, each counted once.
    pub closed spec fn balance_sum(&self) -> nat {
        self.balances.total(DENOMINATION)
    }

    /// Conservation: in every state that the ledger's operations reach, the
    /// balances of all accounts add up to the total supply, and no account
    /// holds more than the supply.
    pub proof fn lemma_conservation(&self, account: Address)
        requires
            self.inv(),
        ensures
            self.balance_sum() == self.supply_spec(),
            self.balance_spec(account) <= self.supply_spec(),
    {
        lemma_pair_le_sum(self.balances.cells@, account, account, DENOMINATION);
    }

    /// An empty ledger: no supply, no balances, no allowances.
    pub fn new() -> (l: FungibleLedger)
        ensures
            l.inv(),
            l.supply_spec() == 0,
            forall|x: Address| #[trigger] l.balance_spec(x) == 0,
            forall|o: Address, s: Address| #[trigger] l.allowance_spec(o, s) == 0,
    {
        FungibleLedger { balances: PairTable::new(), allowances: PairTable::new(), supply: 0 }
    }

    /// Creates `value` new units and credits them to `to`.
    pub fn mint(&mut self, to: Address, value: u64) -> (r: Result<(), ERC20Error>)
        requires
            old(self).inv(),
        ensures
            final(self).inv(),
            to == ZERO_ADDRESS ==> r == Err::<(), ERC20Error>(ERC20Error::ZeroAddress),
            to != ZERO_ADDRESS && old(self).supply_spec() + value > u64::MAX ==> r == Err::<
                (),
                ERC20Error,
            >(ERC20Error::ArithmeticOverflow),
            r is Ok <==> to != ZERO_ADDRESS && old(self).supply_spec() + value <= u64::MAX,
            final(self).supply_spec() == old(self).supply_spec() + if r is Ok {
                value as nat
            } else {
                0
            },
            forall|x: Address|
                #[trigger] final(self).balance_spec(x) == old(self).balance_spec(x) + if r is Ok
                    && x == to {
                    value as nat
                } else {
                    0
                },
            forall|o: Address, s: Address|
                #[trigger] final(self).allowance_spec(o, s) == old(self).allowance_spec(o, s),
    {
        if to == ZERO_ADDRESS {
            return Err(ERC20Error::ZeroAddress);
        }
        let supply = match self.supply.checked_add(value) {
            Some(s) => s,
            None => return Err(ERC20Error::ArithmeticOverflow),
        };
        let held = self.balances.get(to, DENOMINATION);
        proof {
            lemma_pair_le_sum(self.balances.cells@, to, to, DENOMINATION);
        }
        self.balances.set(to, DENOMINATION, held + value);
        self.supply = supply;
        Ok(())
    }

    /// Destroys `value` units held by `from`.
    pub fn burn(&mut self, from: Address, value: u64) -> (r: Result<(), ERC20Error>)
        requires
            old(self).inv(),
        ensures
            final(self).inv(),
            from == ZERO_ADDRESS ==> r == Err::<(), ERC20Error>(ERC20Error::ZeroAddress),
            from != ZERO_ADDRESS && value > old(self).balance_spec(from) ==> r == Err::<
                (),
                ERC20Error,
            >(ERC20Error::InsufficientBalance),
            r is Ok <==> from != ZERO_ADDRESS && value <= old(self).balance_spec(from),
            final(self).supply_spec() == old(self).supply_spec() - if r is Ok {
                value as nat
            } else {
                0
            },
            forall|x: Address|
                #[trigger] final(self).balance_spec(x) == old(self).balance_spec(x) - if r is Ok
                    && x == from {
                    value as nat
                } else {
                    0
                },
            forall|o: Address, s: Address|
                #[trigger] final(self).allowance_spec(o, s) == old(self).allowance_spec(o, s),
    {
        if from == ZERO_ADDRESS {
            return Err(ERC20Error::ZeroAddress);
        }
        let held = self.balances.get(from, DENOMINATION);
        if held < value {
            return Err(ERC20Error::InsufficientBalance);
        }
        proof {
            lemma_pair_le_sum(self.balances.cells@, from, from, DENOMINATION);
        }
        self.balances.set(from, DENOMINATION, held - value);
        self.supply = self.supply - value;
        Ok(())
    }

    /// Moves `value` from `from` to `to` once every check has passed.
    fn move_balance(&mut self, from: Address, to: Address, value: u64)
        requires
            old(self).inv(),
            value <= old(self).balance_spec(from),
        ensures
            final(self).inv(),
            final(self).supply_spec() == old(self).supply_spec(),
            forall|x: Address|
                #[trigger] final(self).balance_spec(x) == moved(
                    old(self).balance_spec(x),
                    x,
                    from,
                    to,
                    value as nat,
                ),
            final(self).allowances == old(self).allowances,
    {
        self.balances.move_amount(from, to, DENOMINATION, value);
    }
}

impl IERC20 for FungibleLedger {
    closed spec fn inv(&self) -> bool {
        &&& self.balances.wf()
        &&& self.allowances.wf()
        &&& self.balances.total(DENOMINATION) == self.supply as nat
        &&& forall|x: Address, c: u64|
            c != DENOMINATION ==> #[trigger] self.balances.value(x, c) == 0
    }

    closed spec fn supply_spec(&self) -> nat {
        self.supply as nat
    }

    closed spec fn balance_spec(&self, account: Address) -> nat {
        self.balances.value(account, DENOMINATION)
    }

    closed spec fn allowance_spec(&self, owner: Address, spender: Address) -> nat {
        self.allowances.value(owner, spender)
    }

    fn total_supply(&self) -> (r: u64) {
        self.supply
    }

    fn balance_of(&self, account: Address) -> (r: u64) {
        self.balances.get(account, DENOMINATION)
    }

    fn allowance(&self, owner: Address, spender: Address) -> (r: u64) {
        self.allowances.get(owner, spender)
    }

    fn transfer(&mut self, caller: Address, to: Address, value: u64) -> (r: Result<(), ERC20Error>) {
        if caller == ZERO_ADDRESS || to == ZERO_ADDRESS {
            return Err(ERC20Error::ZeroAddress);
        }
        if self.balances.get(caller, DENOMINATION) < value {
            return Err(ERC20Error::InsufficientBalance);
        }
        self.move_balance(caller, to, value);
        Ok(())
    }

    fn transfer_from(&mut self, caller: Address, from: Address, to: Address, value: u64) -> (r:
        Result<(), ERC20Error>) {
        if from == ZERO_ADDRESS || to == ZERO_ADDRESS {
            return Err(ERC20Error::ZeroAddress);
        }
        if self.balances.get(from, DENOMINATION) < value {
            return Err(ERC20Error::InsufficientBalance);
        }
        let granted = self.allowances.get(from, caller);
        if granted < value {
            return Err(ERC20Error::InsufficientAllowance);
        }
        if granted != UNLIMITED_ALLOWANCE {
            self.allowances.set(from, caller, granted - value);
        }
        self.move_balance(from, to, value);
        Ok(())
    }

    fn approve(&mut self, caller: Address, spender: Address, value: u64) -> (r: Result<(), ERC20Error>) {
        if caller == spender {
            return Err(ERC20Error::SelfApproval);
        }
        if caller == ZERO_ADDRESS || spender == ZERO_ADDRESS {
            return Err(ERC20Error::ZeroAddress);
        }
        self.allowances.set(caller, spender, value);
        Ok(())
    }
}

} // verus!
