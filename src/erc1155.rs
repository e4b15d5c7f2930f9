//! The multi-token ledger: per-(account, class) balances, per-class supply,
//! operator approvals and all-or-nothing batch operations.
use vstd::prelude::*;
use crate::metadata::MetadataTable;
use crate::table::{PairTable, lemma_lookup_absent, lemma_lookup_bounded, lemma_pair_le_sum};
use crate::{moved, Address, ZERO_ADDRESS};

verus! {

#[derive(Clone, Copy, Debug, PartialEq, Eq)]
pub enum ERC1155Error {
    /// The caller is neither the holder nor one of its operators.
    Unauthorized,
    /// A transfer or burn asks for more than the holder has.
    InsufficientBalance,
    /// The arrays of a batch call differ in length.
    ArraysLengthMismatch,
    /// A party is the zero account.
    ZeroAddress,
    /// An account tried to make itself its own operator.
    SelfApproval,
    /// A mint would take a class's supply past `u64::MAX`.
    ArithmeticOverflow,
    /// No metadata is stored for the class.
    UnknownToken,
}

/// Observer of committed changes, called after each change and before the
/// call that made it returns.
pub trait ERC1155Events {
    /// One class moved; a mint has `from` zero and a burn has `to` zero.
    fn emit_transfer_single(&self, operator: Address, from: Address, to: Address, id: u64, value: u64);

    /// Several classes moved in one call.
    fn emit_transfer_batch(
        &self,
        operator: Address,
        from: Address,
        to: Address,
        ids: Vec<u64>,
        values: Vec<u64>,
    );

    /// `operator` was given or denied rights over all of `owner`'s classes.
    fn emit_approval_for_all(&self, owner: Address, operator: Address, approved: bool);

    /// The metadata of class `id` became `value`.
    fn emit_uri(&self, value: String, id: u64);
}

/// The sum of `values[j]` over the legs `j < k` of a batch whose class is `id`.
pub open spec fn requested(ids: Seq<u64>, values: Seq<u64>, id: u64, k: int) -> nat
    decreases k,
{
    if k <= 0 {
        0
    } else {
        requested(ids, values, id, k - 1) + if ids[k - 1] == id {
            values[k - 1] as nat
        } else {
            0
        }
    }
}

/// Leg `k` of a batch takes more than the holder, who had `held` of class
/// `ids[k]` before the batch, still has when the leg is reached.
/// Where the holder sends to itself, each leg leaves its balance as it was.
pub open spec fn leg_short(
    held: nat,
    from: Address,
    to: Address,
    ids: Seq<u64>,
    values: Seq<u64>,
    k: int,
) -> bool {
    if from == to {
        values[k] > held
    } else {
        requested(ids, values, ids[k], k + 1) > held
    }
}

/// Leg `k` of a mint batch takes the supply of class `ids[k]`, which was
/// `supply` before the batch, past `u64::MAX`.
pub open spec fn leg_overflows(supply: nat, ids: Seq<u64>, values: Seq<u64>, k: int) -> bool {
    supply + requested(ids, values, ids[k], k + 1) > u64::MAX
}

/// A ledger of many token classes, each call made on behalf of an
/// already-authenticated `caller`.
pub trait ERC1155: Sized {
    /// The ledger's invariant: each class's balances add up to its supply.
    spec fn inv(&self) -> bool;

    spec fn balance_spec(&self, account: Address, id: u64) -> nat;

    spec fn supply_spec(&self, id: u64) -> nat;

    /// Class `id` has been minted at least once.
    spec fn minted_spec(&self, id: u64) -> bool;

    spec fn operator_spec(&self, owner: Address, operator: Address) -> bool;

    spec fn uri_spec(&self, id: u64) -> Option<Seq<char>>;

    fn balance_of(&self, account: Address, id: u64) -> (r: Result<u64, ERC1155Error>)
        requires
            self.inv(),
        ensures
            account == ZERO_ADDRESS ==> r == Err::<u64, ERC1155Error>(ERC1155Error::ZeroAddress),
            account != ZERO_ADDRESS ==> (r matches Ok(b) && b as nat == self.balance_spec(
                account,
                id,
            )),
    ;

    /// The balance of `accounts[i]` in class `ids[i]`, for each `i`.
    fn balance_of_batch(&self, accounts: Vec<Address>, ids: Vec<u64>) -> (r: Result<
        Vec<u64>,
        ERC1155Error,
    >)
        requires
            self.inv(),
        ensures
            accounts@.len() != ids@.len() ==> r == Err::<Vec<u64>, ERC1155Error>(
                ERC1155Error::ArraysLengthMismatch,
            ),
            accounts@.len() == ids@.len() && accounts@.contains(ZERO_ADDRESS) ==> r == Err::<
                Vec<u64>,
                ERC1155Error,
            >(ERC1155Error::ZeroAddress),
            accounts@.len() == ids@.len() && !accounts@.contains(ZERO_ADDRESS) ==> (r matches Ok(
                v,
            ) && v@.len() == ids@.len() && forall|i: int|
                0 <= i < v@.len() ==> #[trigger] v@[i] as nat == self.balance_spec(
                    accounts@[i],
                    ids@[i],
                )),
    ;

    /// Gives or takes away `operator`'s rights over all of `caller`'s classes.
    fn set_approval_for_all<E: ERC1155Events>(
        &mut self,
        events: &E,
        caller: Address,
        operator: Address,
        approved: bool,
    ) -> (r: Result<(), ERC1155Error>)
        requires
            old(self).inv(),
        ensures
            final(self).inv(),
            caller == operator ==> r == Err::<(), ERC1155Error>(ERC1155Error::SelfApproval),
            caller != operator && (caller == ZERO_ADDRESS || operator == ZERO_ADDRESS) ==> r
                == Err::<(), ERC1155Error>(ERC1155Error::ZeroAddress),
            r is Ok <==> caller != operator && caller != ZERO_ADDRESS && operator != ZERO_ADDRESS,
            r is Err ==> *final(self) == *old(self),
            forall|x: Address, t: u64| #[trigger]
                final(self).balance_spec(x, t) == old(self).balance_spec(x, t),
            forall|t: u64| #[trigger] final(self).supply_spec(t) == old(self).supply_spec(t),
            forall|t: u64| #[trigger] final(self).minted_spec(t) == old(self).minted_spec(t),
            forall|t: u64| #[trigger] final(self).uri_spec(t) == old(self).uri_spec(t),
            forall|o: Address, p: Address|
                #[trigger] final(self).operator_spec(o, p) == if r is Ok && o == caller && p
                    == operator {
                    approved
                } else {
                    old(self).operator_spec(o, p)
                },
    ;

    fn is_approved_for_all(&self, owner: Address, operator: Address) -> (r: Result<
        bool,
        ERC1155Error,
    >)
        requires
            self.inv(),
        ensures
            r == Ok::<bool, ERC1155Error>(self.operator_spec(owner, operator)),
    ;

    /// Moves `value` of class `id` from `from` to `to`; `data` is left for the
    /// receiver and not read here.
    fn safe_transfer_from<E: ERC1155Events>(
        &mut self,
        events: &E,
        caller: Address,
        from: Address,
        to: Address,
        id: u64,
        value: u64,
        data: Vec<u8>,
    ) -> (r: Result<(), ERC1155Error>)
        requires
            old(self).inv(),
        ensures
            final(self).inv(),
            from == ZERO_ADDRESS || to == ZERO_ADDRESS ==> r == Err::<(), ERC1155Error>(
                ERC1155Error::ZeroAddress,
            ),
            from != ZERO_ADDRESS && to != ZERO_ADDRESS && caller != from && !old(
                self,
            ).operator_spec(from, caller) ==> r == Err::<(), ERC1155Error>(
                ERC1155Error::Unauthorized,
            ),
            from != ZERO_ADDRESS && to != ZERO_ADDRESS && (caller == from || old(
                self,
            ).operator_spec(from, caller)) && value > old(self).balance_spec(from, id) ==> r
                == Err::<(), ERC1155Error>(ERC1155Error::InsufficientBalance),
            r is Ok <==> from != ZERO_ADDRESS && to != ZERO_ADDRESS && (caller == from || old(
                self,
            ).operator_spec(from, caller)) && value <= old(self).balance_spec(from, id),
            r is Err ==> *final(self) == *old(self),
            forall|x: Address, t: u64|
                #[trigger] final(self).balance_spec(x, t) == if r is Ok && t == id {
                    moved(old(self).balance_spec(x, t), x, from, to, value as nat)
                } else {
                    old(self).balance_spec(x, t) as int
                },
            forall|t: u64| #[trigger] final(self).supply_spec(t) == old(self).supply_spec(t),
            forall|t: u64| #[trigger] final(self).minted_spec(t) == old(self).minted_spec(t),
            forall|t: u64| #[trigger] final(self).uri_spec(t) == old(self).uri_spec(t),
            forall|o: Address, p: Address| #[trigger]
                final(self).operator_spec(o, p) == old(self).operator_spec(o, p),
    ;

    /// Moves `values[k]` of class `ids[k]` from `from` to `to` for every `k`,
    /// or, where any leg fails, nothing at all.
    fn safe_batch_transfer_from<E: ERC1155Events>(
        &mut self,
        events: &E,
        caller: Address,
        from: Address,
        to: Address,
        ids: Vec<u64>,
        values: Vec<u64>,
        data: Vec<u8>,
    ) -> (r: Result<(), ERC1155Error>)
        requires
            old(self).inv(),
        ensures
            final(self).inv(),
            ids@.len() != values@.len() ==> r == Err::<(), ERC1155Error>(
                ERC1155Error::ArraysLengthMismatch,
            ),
            ids@.len() == values@.len() && (from == ZERO_ADDRESS || to == ZERO_ADDRESS) ==> r
                == Err::<(), ERC1155Error>(ERC1155Error::ZeroAddress),
            ids@.len() == values@.len() && from != ZERO_ADDRESS && to != ZERO_ADDRESS && caller
                != from && !old(self).operator_spec(from, caller) ==> r == Err::<(), ERC1155Error>(
                ERC1155Error::Unauthorized,
            ),
            ids@.len() == values@.len() && from != ZERO_ADDRESS && to != ZERO_ADDRESS && (caller
                == from || old(self).operator_spec(from, caller)) ==> (r == Err::<(), ERC1155Error>(
                ERC1155Error::InsufficientBalance,
            ) <==> exists|k: int|
                0 <= k < ids@.len() && #[trigger] leg_short(
                    old(self).balance_spec(from, ids@[k]),
                    from,
                    to,
                    ids@,
                    values@,
                    k,
                )),
            r is Ok <==> ids@.len() == values@.len() && from != ZERO_ADDRESS && to != ZERO_ADDRESS
                && (caller == from || old(self).operator_spec(from, caller)) && forall|k: int|
                0 <= k < ids@.len() ==> !#[trigger] leg_short(
                    old(self).balance_spec(from, ids@[k]),
                    from,
                    to,
                    ids@,
                    values@,
                    k,
                ),
            r is Err ==> *final(self) == *old(self),
            forall|x: Address, t: u64|
                #[trigger] final(self).balance_spec(x, t) == if r is Ok {
                    moved(
                        old(self).balance_spec(x, t),
                        x,
                        from,
                        to,
                        requested(ids@, values@, t, ids@.len() as int),
                    )
                } else {
                    old(self).balance_spec(x, t) as int
                },
            forall|t: u64| #[trigger] final(self).supply_spec(t) == old(self).supply_spec(t),
            forall|t: u64| #[trigger] final(self).minted_spec(t) == old(self).minted_spec(t),
            forall|t: u64| #[trigger] final(self).uri_spec(t) == old(self).uri_spec(t),
            forall|o: Address, p: Address| #[trigger]
                final(self).operator_spec(o, p) == old(self).operator_spec(o, p),
    ;

    /// The metadata stored for class `id`.
    fn uri(&self, id: u64) -> (r: Result<String, ERC1155Error>)
        requires
            self.inv(),
        ensures
            self.uri_spec(id) is None ==> r == Err::<String, ERC1155Error>(
                ERC1155Error::UnknownToken,
            ),
            self.uri_spec(id) is Some ==> (r matches Ok(s) && Some(s@) == self.uri_spec(id)),
    ;

    /// Creates `value` units of class `id` for `to`.
    fn mint<E: ERC1155Events>(
        &mut self,
        events: &E,
        caller: Address,
        to: Address,
        id: u64,
        value: u64,
        data: Vec<u8>,
    ) -> (r: Result<(), ERC1155Error>)
        requires
            old(self).inv(),
        ensures
            final(self).inv(),
            to == ZERO_ADDRESS ==> r == Err::<(), ERC1155Error>(ERC1155Error::ZeroAddress),
            to != ZERO_ADDRESS && old(self).supply_spec(id) + value > u64::MAX ==> r == Err::<
                (),
                ERC1155Error,
            >(ERC1155Error::ArithmeticOverflow),
            r is Ok <==> to != ZERO_ADDRESS && old(self).supply_spec(id) + value <= u64::MAX,
            r is Err ==> *final(self) == *old(self),
            forall|x: Address, t: u64|
                #[trigger] final(self).balance_spec(x, t) == old(self).balance_spec(x, t) + if r is Ok
                    && x == to && t == id {
                    value as nat
                } else {
                    0
                },
            forall|t: u64|
                #[trigger] final(self).supply_spec(t) == old(self).supply_spec(t) + if r is Ok && t
                    == id {
                    value as nat
                } else {
                    0
                },
            forall|t: u64| #[trigger]
                final(self).minted_spec(t) == (old(self).minted_spec(t) || (r is Ok && t == id)),
            forall|t: u64| #[trigger] final(self).uri_spec(t) == old(self).uri_spec(t),
            forall|o: Address, p: Address| #[trigger]
                final(self).operator_spec(o, p) == old(self).operator_spec(o, p),
    ;

    /// Creates `values[k]` units of class `ids[k]` for `to`, for every `k`, or,
    /// where any leg fails, nothing at all.
    fn mint_batch<E: ERC1155Events>(
        &mut self,
        events: &E,
        caller: Address,
        to: Address,
        ids: Vec<u64>,
        values: Vec<u64>,
        data: Vec<u8>,
    ) -> (r: Result<(), ERC1155Error>)
        requires
            old(self).inv(),
        ensures
            final(self).inv(),
            ids@.len() != values@.len() ==> r == Err::<(), ERC1155Error>(
                ERC1155Error::ArraysLengthMismatch,
            ),
            ids@.len() == values@.len() && to == ZERO_ADDRESS ==> r == Err::<(), ERC1155Error>(
                ERC1155Error::ZeroAddress,
            ),
            ids@.len() == values@.len() && to != ZERO_ADDRESS ==> (r == Err::<(), ERC1155Error>(
                ERC1155Error::ArithmeticOverflow,
            ) <==> exists|k: int|
                0 <= k < ids@.len() && #[trigger] leg_overflows(
                    old(self).supply_spec(ids@[k]),
                    ids@,
                    values@,
                    k,
                )),
            r is Ok <==> ids@.len() == values@.len() && to != ZERO_ADDRESS && forall|k: int|
                0 <= k < ids@.len() ==> !#[trigger] leg_overflows(
                    old(self).supply_spec(ids@[k]),
                    ids@,
                    values@,
                    k,
                ),
            r is Err ==> *final(self) == *old(self),
            forall|x: Address, t: u64|
                #[trigger] final(self).balance_spec(x, t) == old(self).balance_spec(x, t) + if r is Ok
                    && x == to {
                    requested(ids@, values@, t, ids@.len() as int)
                } else {
                    0
                },
            forall|t: u64|
                #[trigger] final(self).supply_spec(t) == old(self).supply_spec(t) + if r is Ok {
                    requested(ids@, values@, t, ids@.len() as int)
                } else {
                    0
                },
            forall|t: u64| #[trigger]
                final(self).minted_spec(t) == (old(self).minted_spec(t) || (r is Ok
                    && ids@.contains(t))),
            forall|t: u64| #[trigger] final(self).uri_spec(t) == old(self).uri_spec(t),
            forall|o: Address, p: Address| #[trigger]
                final(self).operator_spec(o, p) == old(self).operator_spec(o, p),
    ;

    /// Destroys `value` units of class `id` held by `from`.
    fn burn<E: ERC1155Events>(
        &mut self,
        events: &E,
        caller: Address,
        from: Address,
        id: u64,
        value: u64,
    ) -> (r: Result<(), ERC1155Error>)
        requires
            old(self).inv(),
        ensures
            final(self).inv(),
            from == ZERO_ADDRESS ==> r == Err::<(), ERC1155Error>(ERC1155Error::ZeroAddress),
            from != ZERO_ADDRESS && caller != from && !old(self).operator_spec(from, caller) ==> r
                == Err::<(), ERC1155Error>(ERC1155Error::Unauthorized),
            from != ZERO_ADDRESS && (caller == from || old(self).operator_spec(from, caller))
                && value > old(self).balance_spec(from, id) ==> r == Err::<(), ERC1155Error>(
                ERC1155Error::InsufficientBalance,
            ),
            r is Ok <==> from != ZERO_ADDRESS && (caller == from || old(self).operator_spec(
                from,
                caller,
            )) && value <= old(self).balance_spec(from, id),
            r is Err ==> *final(self) == *old(self),
            forall|x: Address, t: u64|
                #[trigger] final(self).balance_spec(x, t) == old(self).balance_spec(x, t) - if r is Ok
                    && x == from && t == id {
                    value as nat
                } else {
                    0
                },
            forall|t: u64|
                #[trigger] final(self).supply_spec(t) == old(self).supply_spec(t) - if r is Ok && t
                    == id {
                    value as nat
                } else {
                    0
                },
            forall|t: u64| #[trigger] final(self).minted_spec(t) == old(self).minted_spec(t),
            forall|t: u64| #[trigger] final(self).uri_spec(t) == old(self).uri_spec(t),
            forall|o: Address, p: Address| #[trigger]
                final(self).operator_spec(o, p) == old(self).operator_spec(o, p),
    ;

    /// Destroys `values[k]` units of class `ids[k]` held by `from`, for every
    /// `k`, or, where any leg fails, nothing at all.
    fn burn_batch<E: ERC1155Events>(
        &mut self,
        events: &E,
        caller: Address,
        from: Address,
        ids: Vec<u64>,
        values: Vec<u64>,
    ) -> (r: Result<(), ERC1155Error>)
        requires
            old(self).inv(),
        ensures
            final(self).inv(),
            ids@.len() != values@.len() ==> r == Err::<(), ERC1155Error>(
                ERC1155Error::ArraysLengthMismatch,
            ),
            ids@.len() == values@.len() && from == ZERO_ADDRESS ==> r == Err::<(), ERC1155Error>(
                ERC1155Error::ZeroAddress,
            ),
            ids@.len() == values@.len() && from != ZERO_ADDRESS && caller != from && !old(
                self,
            ).operator_spec(from, caller) ==> r == Err::<(), ERC1155Error>(
                ERC1155Error::Unauthorized,
            ),
            ids@.len() == values@.len() && from != ZERO_ADDRESS && (caller == from || old(
                self,
            ).operator_spec(from, caller)) ==> (r == Err::<(), ERC1155Error>(
                ERC1155Error::InsufficientBalance,
            ) <==> exists|k: int|
                0 <= k < ids@.len() && #[trigger] leg_short(
                    old(self).balance_spec(from, ids@[k]),
                    from,
                    ZERO_ADDRESS,
                    ids@,
                    values@,
                    k,
                )),
            r is Ok <==> ids@.len() == values@.len() && from != ZERO_ADDRESS && (caller == from
                || old(self).operator_spec(from, caller)) && forall|k: int|
                0 <= k < ids@.len() ==> !#[trigger] leg_short(
                    old(self).balance_spec(from, ids@[k]),
                    from,
                    ZERO_ADDRESS,
                    ids@,
                    values@,
                    k,
                ),
            r is Err ==> *final(self) == *old(self),
            forall|x: Address, t: u64|
                #[trigger] final(self).balance_spec(x, t) == old(self).balance_spec(x, t) - if r is Ok
                    && x == from {
                    requested(ids@, values@, t, ids@.len() as int)
                } else {
                    0
                },
            forall|t: u64|
                #[trigger] final(self).supply_spec(t) == old(self).supply_spec(t) - if r is Ok {
                    requested(ids@, values@, t, ids@.len() as int)
                } else {
                    0
                },
            forall|t: u64| #[trigger] final(self).minted_spec(t) == old(self).minted_spec(t),
            forall|t: u64| #[trigger] final(self).uri_spec(t) == old(self).uri_spec(t),
            forall|o: Address, p: Address| #[trigger]
                final(self).operator_spec(o, p) == old(self).operator_spec(o, p),
    ;

    /// The supply of class `id`, or `None` where it was never minted.
    fn total_supply(&self, id: u64) -> (r: Option<u64>)
        requires
            self.inv(),
        ensures
            !self.minted_spec(id) ==> r is None,
            self.minted_spec(id) ==> (r matches Some(s) && s as nat == self.supply_spec(id)),
    ;
}

/// The column of the supply table that holds each class's supply.
const SUPPLY: u64 = 0;

/// A multi-token ledger held in memory.
pub struct MultiTokenLedger {
    /// Row: account, column: class.
    balances: PairTable,
    /// Row: class, column `SUPPLY`; a class is minted once its row is present.
    supplies: PairTable,
    /// Row: owner, column: operator; nonzero where the operator is approved.
    operators: PairTable,
    /// Metadata of each class.
    uris: MetadataTable,
}

impl MultiTokenLedger {
    /// An empty ledger: no classes, balances, operators or metadata.
    pub fn new() -> (l: MultiTokenLedger)
        ensures
            l.inv(),
            forall|x: Address, t: u64| #[trigger] l.balance_spec(x, t) == 0,
            forall|t: u64| #[trigger] l.supply_spec(t) == 0,
            forall|t: u64| !#[trigger] l.minted_spec(t),
            forall|t: u64| #[trigger] l.uri_spec(t) is None,
            forall|o: Address, p: Address| !#[trigger] l.operator_spec(o, p),
    {
        MultiTokenLedger {
            balances: PairTable::new(),
            supplies: PairTable::new(),
            operators: PairTable::new(),
            uris: MetadataTable::new(),
        }
    }

    /// The sum of the balances of all accounts in class `id`, each counted once.
    pub closed spec fn class_sum(&self, id: u64) -> nat {
        self.balances.total(id)
    }

    /// Conservation: in every state that the ledger's operations reach, the
    /// balances of each class add up to that class's supply, and no account
    /// holds more of a class than its supply.
    pub proof fn lemma_conservation(&self, account: Address, id: u64)
        requires
            self.inv(),
        ensures
            self.class_sum(id) == self.supply_spec(id),
            self.balance_spec(account, id) <= self.supply_spec(id),
    {
        lemma_pair_le_sum(self.balances.cells@, account, account, id);
    }

    /// Whether `caller` may move what `from` holds.
    fn is_authorized(&self, caller: Address, from: Address) -> (r: bool)
        requires
            self.inv(),
        ensures
            r == (caller == from || self.operator_spec(from, caller)),
    {
        caller == from || self.operators.get(from, caller) != 0
    }

    /// Stores `uri` as the metadata of class `id`, replacing any earlier one.
    pub fn set_uri<E: ERC1155Events>(&mut self, events: &E, id: u64, uri: String)
        requires
            old(self).inv(),
        ensures
            final(self).inv(),
            forall|t: u64|
                #[trigger] final(self).uri_spec(t) == if t == id {
                    Some(uri@)
                } else {
                    old(self).uri_spec(t)
                },
            forall|x: Address, t: u64| #[trigger]
                final(self).balance_spec(x, t) == old(self).balance_spec(x, t),
            forall|t: u64| #[trigger] final(self).supply_spec(t) == old(self).supply_spec(t),
            forall|t: u64| #[trigger] final(self).minted_spec(t) == old(self).minted_spec(t),
            forall|o: Address, p: Address| #[trigger]
                final(self).operator_spec(o, p) == old(self).operator_spec(o, p),
    {
        let announced = uri.clone();
        self.uris.set(id, uri);
        events.emit_uri(announced, id);
    }
}

impl ERC1155 for MultiTokenLedger {
    closed spec fn inv(&self) -> bool {
        &&& self.balances.wf()
        &&& self.supplies.wf()
        &&& self.operators.wf()
        &&& forall|t: u64| #[trigger] self.balances.total(t) == self.supplies.value(t, SUPPLY)
        &&& self.uris.wf()
    }

    closed spec fn balance_spec(&self, account: Address, id: u64) -> nat {
        self.balances.value(account, id)
    }

    closed spec fn supply_spec(&self, id: u64) -> nat {
        self.supplies.value(id, SUPPLY)
    }

    closed spec fn minted_spec(&self, id: u64) -> bool {
        self.supplies.present(id, SUPPLY)
    }

    closed spec fn operator_spec(&self, owner: Address, operator: Address) -> bool {
        self.operators.value(owner, operator) != 0
    }

    closed spec fn uri_spec(&self, id: u64) -> Option<Seq<char>> {
        self.uris.lookup(id)
    }

    fn balance_of(&self, account: Address, id: u64) -> (r: Result<u64, ERC1155Error>) {
        if account == ZERO_ADDRESS {
            return Err(ERC1155Error::ZeroAddress);
        }
        Ok(self.balances.get(account, id))
    }

    fn balance_of_batch(&self, accounts: Vec<Address>, ids: Vec<u64>) -> (r: Result<
        Vec<u64>,
        ERC1155Error,
    >) {
        if accounts.len() != ids.len() {
            return Err(ERC1155Error::ArraysLengthMismatch);
        }
        let mut out: Vec<u64> = Vec::new();
        let mut k: usize = 0;
        while k < accounts.len()
            invariant
                accounts@.len() == ids@.len(),
                self.inv(),
                k <= accounts@.len(),
                out@.len() == k,
                forall|j: int| 0 <= j < k ==> accounts@[j] != ZERO_ADDRESS,
                forall|j: int|
                    0 <= j < k ==> #[trigger] out@[j] as nat == self.balance_spec(
                        accounts@[j],
                        ids@[j],
                    ),
            decreases accounts@.len() - k,
        {
            if accounts[k] == ZERO_ADDRESS {
                assert(accounts@.contains(ZERO_ADDRESS)) by {
                    assert(accounts@[k as int] == ZERO_ADDRESS);
                }
                return Err(ERC1155Error::ZeroAddress);
            }
            out.push(self.balances.get(accounts[k], ids[k]));
            k = k + 1;
        }
        Ok(out)
    }

    fn set_approval_for_all<E: ERC1155Events>(
        &mut self,
        events: &E,
        caller: Address,
        operator: Address,
        approved: bool,
    ) -> (r: Result<(), ERC1155Error>) {
        if caller == operator {
            return Err(ERC1155Error::SelfApproval);
        }
        if caller == ZERO_ADDRESS || operator == ZERO_ADDRESS {
            return Err(ERC1155Error::ZeroAddress);
        }
        self.operators.set(caller, operator, if approved { 1 } else { 0 });
        events.emit_approval_for_all(caller, operator, approved);
        Ok(())
    }

    fn is_approved_for_all(&self, owner: Address, operator: Address) -> (r: Result<
        bool,
        ERC1155Error,
    >) {
        Ok(self.operators.get(owner, operator) != 0)
    }

    fn safe_transfer_from<E: ERC1155Events>(
        &mut self,
        events: &E,
        caller: Address,
        from: Address,
        to: Address,
        id: u64,
        value: u64,
        data: Vec<u8>,
    ) -> (r: Result<(), ERC1155Error>) {
        if from == ZERO_ADDRESS || to == ZERO_ADDRESS {
            return Err(ERC1155Error::ZeroAddress);
        }
        if !self.is_authorized(caller, from) {
            return Err(ERC1155Error::Unauthorized);
        }
        if self.balances.get(from, id) < value {
            return Err(ERC1155Error::InsufficientBalance);
        }
        proof {
            lemma_lookup_bounded(self.supplies.cells@, id, SUPPLY);
        }
        self.balances.move_amount(from, to, id, value);
        events.emit_transfer_single(caller, from, to, id, value);
        Ok(())
    }

    fn safe_batch_transfer_from<E: ERC1155Events>(
        &mut self,
        events: &E,
        caller: Address,
        from: Address,
        to: Address,
        ids: Vec<u64>,
        values: Vec<u64>,
        data: Vec<u8>,
    ) -> (r: Result<(), ERC1155Error>) {
        if ids.len() != values.len() {
            return Err(ERC1155Error::ArraysLengthMismatch);
        }
        if from == ZERO_ADDRESS || to == ZERO_ADDRESS {
            return Err(ERC1155Error::ZeroAddress);
        }
        if !self.is_authorized(caller, from) {
            return Err(ERC1155Error::Unauthorized);
        }
        // every leg is applied to a copy, which replaces the balances only
        // once the whole batch has gone through
        let mut work = self.balances.snapshot();
        let mut k: usize = 0;
        while k < ids.len()
            invariant
                ids@.len() == values@.len(),
                k <= ids@.len(),
                from != ZERO_ADDRESS && to != ZERO_ADDRESS,
                caller == from || self.operator_spec(from, caller),
                *self == *old(self),
                self.inv(),
                work.wf(),
                forall|x: Address, t: u64|
                    #[trigger] work.value(x, t) == moved(
                        self.balances.value(x, t),
                        x,
                        from,
                        to,
                        requested(ids@, values@, t, k as int),
                    ),
                forall|t: u64| #[trigger] work.total(t) == self.balances.total(t),
                forall|j: int|
                    0 <= j < k ==> !#[trigger] leg_short(
                        self.balance_spec(from, ids@[j]),
                        from,
                        to,
                        ids@,
                        values@,
                        j,
                    ),
            decreases ids@.len() - k,
        {
            let id = ids[k];
            let value = values[k];
            let held = work.get(from, id);
            if held < value {
                assert(leg_short(
                    self.balance_spec(from, ids@[k as int]),
                    from,
                    to,
                    ids@,
                    values@,
                    k as int,
                ));
                return Err(ERC1155Error::InsufficientBalance);
            }
            proof {
                lemma_lookup_bounded(self.supplies.cells@, id, SUPPLY);
            }
            work.move_amount(from, to, id, value);
            k = k + 1;
        }
        self.balances = work;
        events.emit_transfer_batch(caller, from, to, ids, values);
        Ok(())
    }

    fn uri(&self, id: u64) -> (r: Result<String, ERC1155Error>) {
        match self.uris.get(id) {
            Some(text) => Ok(text),
            None => Err(ERC1155Error::UnknownToken),
        }
    }

    fn mint<E: ERC1155Events>(
        &mut self,
        events: &E,
        caller: Address,
        to: Address,
        id: u64,
        value: u64,
        data: Vec<u8>,
    ) -> (r: Result<(), ERC1155Error>) {
        if to == ZERO_ADDRESS {
            return Err(ERC1155Error::ZeroAddress);
        }
        let supply = match self.supplies.get(id, SUPPLY).checked_add(value) {
            Some(s) => s,
            None => return Err(ERC1155Error::ArithmeticOverflow),
        };
        let held = self.balances.get(to, id);
        proof {
            lemma_pair_le_sum(self.balances.cells@, to, to, id);
            assert(self.balances.total(id) == self.supplies.value(id, SUPPLY));
        }
        self.balances.set(to, id, held + value);
        self.supplies.set(id, SUPPLY, supply);
        events.emit_transfer_single(caller, ZERO_ADDRESS, to, id, value);
        Ok(())
    }

    fn mint_batch<E: ERC1155Events>(
        &mut self,
        events: &E,
        caller: Address,
        to: Address,
        ids: Vec<u64>,
        values: Vec<u64>,
        data: Vec<u8>,
    ) -> (r: Result<(), ERC1155Error>) {
        if ids.len() != values.len() {
            return Err(ERC1155Error::ArraysLengthMismatch);
        }
        if to == ZERO_ADDRESS {
            return Err(ERC1155Error::ZeroAddress);
        }
        let mut bal = self.balances.snapshot();
        let mut sup = self.supplies.snapshot();
        assert forall|t: u64| #[trigger] bal.total(t) == sup.value(t, SUPPLY) by {
            assert(self.balances.total(t) == self.supplies.value(t, SUPPLY));
        }
        let mut k: usize = 0;
        while k < ids.len()
            invariant
                ids@.len() == values@.len(),
                k <= ids@.len(),
                to != ZERO_ADDRESS,
                *self == *old(self),
                self.inv(),
                bal.wf(),
                sup.wf(),
                forall|x: Address, t: u64|
                    #[trigger] bal.value(x, t) == self.balances.value(x, t) + if x == to {
                        requested(ids@, values@, t, k as int)
                    } else {
                        0
                    },
                forall|t: u64|
                    #[trigger] sup.value(t, SUPPLY) == self.supplies.value(t, SUPPLY) + requested(
                        ids@,
                        values@,
                        t,
                        k as int,
                    ),
                forall|t: u64| #[trigger] bal.total(t) == sup.value(t, SUPPLY),
                forall|t: u64|
                    #[trigger] sup.present(t, SUPPLY) == (self.supplies.present(t, SUPPLY) || exists|
                        j: int,
                    |
                        0 <= j < k && ids@[j] == t),
                forall|j: int|
                    0 <= j < k ==> !#[trigger] leg_overflows(
                        self.supply_spec(ids@[j]),
                        ids@,
                        values@,
                        j,
                    ),
            decreases ids@.len() - k,
        {
            let id = ids[k];
            let value = values[k];
            let supply = match sup.get(id, SUPPLY).checked_add(value) {
                Some(s) => s,
                None => {
                    assert(leg_overflows(
                        self.supply_spec(ids@[k as int]),
                        ids@,
                        values@,
                        k as int,
                    ));
                    return Err(ERC1155Error::ArithmeticOverflow);
                },
            };
            let held = bal.get(to, id);
            proof {
                lemma_pair_le_sum(bal.cells@, to, to, id);
                assert(bal.total(id) == sup.value(id, SUPPLY));
            }
            bal.set(to, id, held + value);
            sup.set(id, SUPPLY, supply);
            k = k + 1;
        }
        assert forall|t: u64| #[trigger]
            sup.present(t, SUPPLY) == (self.supplies.present(t, SUPPLY) || ids@.contains(t)) by {
            if ids@.contains(t) {
                let j = choose|j: int| 0 <= j < ids@.len() && ids@[j] == t;
            }
        }
        self.balances = bal;
        self.supplies = sup;
        events.emit_transfer_batch(caller, ZERO_ADDRESS, to, ids, values);
        Ok(())
    }

    fn burn<E: ERC1155Events>(
        &mut self,
        events: &E,
        caller: Address,
        from: Address,
        id: u64,
        value: u64,
    ) -> (r: Result<(), ERC1155Error>) {
        if from == ZERO_ADDRESS {
            return Err(ERC1155Error::ZeroAddress);
        }
        if !self.is_authorized(caller, from) {
            return Err(ERC1155Error::Unauthorized);
        }
        let held = self.balances.get(from, id);
        if held < value {
            return Err(ERC1155Error::InsufficientBalance);
        }
        if value > 0 {
            let supply = self.supplies.get(id, SUPPLY);
            proof {
                lemma_pair_le_sum(self.balances.cells@, from, from, id);
                assert(self.balances.total(id) == self.supplies.value(id, SUPPLY));
                if !self.supplies.present(id, SUPPLY) {
                    lemma_lookup_absent(self.supplies.cells@, id, SUPPLY);
                }
            }
            self.balances.set(from, id, held - value);
            self.supplies.set(id, SUPPLY, supply - value);
        }
        events.emit_transfer_single(caller, from, ZERO_ADDRESS, id, value);
        Ok(())
    }

    fn burn_batch<E: ERC1155Events>(
        &mut self,
        events: &E,
        caller: Address,
        from: Address,
        ids: Vec<u64>,
        values: Vec<u64>,
    ) -> (r: Result<(), ERC1155Error>) {
        if ids.len() != values.len() {
            return Err(ERC1155Error::ArraysLengthMismatch);
        }
        if from == ZERO_ADDRESS {
            return Err(ERC1155Error::ZeroAddress);
        }
        if !self.is_authorized(caller, from) {
            return Err(ERC1155Error::Unauthorized);
        }
        let mut bal = self.balances.snapshot();
        let mut sup = self.supplies.snapshot();
        assert forall|t: u64| #[trigger] bal.total(t) == sup.value(t, SUPPLY) by {
            assert(self.balances.total(t) == self.supplies.value(t, SUPPLY));
        }
        let mut k: usize = 0;
        while k < ids.len()
            invariant
                ids@.len() == values@.len(),
                k <= ids@.len(),
                from != ZERO_ADDRESS,
                caller == from || self.operator_spec(from, caller),
                *self == *old(self),
                self.inv(),
                bal.wf(),
                sup.wf(),
                forall|x: Address, t: u64|
                    #[trigger] bal.value(x, t) == self.balances.value(x, t) - if x == from {
                        requested(ids@, values@, t, k as int)
                    } else {
                        0
                    },
                forall|t: u64|
                    #[trigger] sup.value(t, SUPPLY) == self.supplies.value(t, SUPPLY) - requested(
                        ids@,
                        values@,
                        t,
                        k as int,
                    ),
                forall|t: u64| #[trigger] bal.total(t) == sup.value(t, SUPPLY),
                forall|t: u64| #[trigger]
                    sup.present(t, SUPPLY) == self.supplies.present(t, SUPPLY),
                forall|j: int|
                    0 <= j < k ==> !#[trigger] leg_short(
                        self.balance_spec(from, ids@[j]),
                        from,
                        ZERO_ADDRESS,
                        ids@,
                        values@,
                        j,
                    ),
            decreases ids@.len() - k,
        {
            let id = ids[k];
            let value = values[k];
            let held = bal.get(from, id);
            if held < value {
                assert(leg_short(
                    self.balance_spec(from, ids@[k as int]),
                    from,
                    ZERO_ADDRESS,
                    ids@,
                    values@,
                    k as int,
                ));
                return Err(ERC1155Error::InsufficientBalance);
            }
            if value > 0 {
                let supply = sup.get(id, SUPPLY);
                proof {
                    lemma_pair_le_sum(bal.cells@, from, from, id);
                    assert(bal.total(id) == sup.value(id, SUPPLY));
                    if !sup.present(id, SUPPLY) {
                        lemma_lookup_absent(sup.cells@, id, SUPPLY);
                    }
                }
                bal.set(from, id, held - value);
                sup.set(id, SUPPLY, supply - value);
            }
            k = k + 1;
        }
        self.balances = bal;
        self.supplies = sup;
        events.emit_transfer_batch(caller, from, ZERO_ADDRESS, ids, values);
        Ok(())
    }

    fn total_supply(&self, id: u64) -> (r: Option<u64>) {
        if self.supplies.contains(id, SUPPLY) {
            Some(self.supplies.get(id, SUPPLY))
        } else {
            None
        }
    }
}

} // verus!
