//! The unique-item registry: one owner per item, a single approved address
//! per item, and operators approved for all of an owner's items.
use vstd::prelude::*;
use crate::metadata::MetadataTable;
use crate::table::{PairTable, lemma_pair_le_sum};
use crate::{Address, ZERO_ADDRESS};

verus! {

#[derive(Clone, Copy, Debug, PartialEq, Eq)]
pub enum ERC721Error {
    /// Not returned by the registry, whose items are not divisible.
    InsufficientBalance,
    /// Not returned by the registry, which has no allowances.
    InsufficientAllowance,
    /// The number of items would leave the range of `u64`.
    ArithmeticOverflow,
    /// A party is the zero account.
    ZeroAddress,
    /// `from` is not the item's owner.
    InvalidAddress,
    /// The caller is neither the owner, the item's approved address nor an
    /// operator of the owner.
    Unauthorized,
    /// An owner tried to approve itself.
    SelfApproval,
    /// The item was never minted, or was burned.
    NonexistentToken,
    /// The item already has an owner.
    AlreadyMinted,
}

/// Observer of committed changes, called after each change and before the
/// call that made it returns.
pub trait ERC721Events {
    /// An item moved; `from` is `None` for a mint and `to` is `None` for a burn.
    fn emit_transfer(&self, from: Option<Address>, to: Option<Address>, token_id: u64);

    /// The approved address of an item became `approved` (zero: none).
    fn emit_approval(&self, owner: Address, approved: Address, token_id: u64);

    /// `operator` was given or denied rights over all of `owner`'s items.
    fn emit_approval_for_all(&self, owner: Address, operator: Address, approved: bool);
}

/// A registry of unique items, each call made on behalf of an
/// already-authenticated `caller`.
pub trait ERC721: Sized {
    /// The registry's invariant: the owners' item counts match the items.
    spec fn inv(&self) -> bool;

    /// The owner of item `id`; `None` where it does not exist.
    spec fn owner_spec(&self, id: u64) -> Option<Address>;

    /// The approved address of item `id`; zero where there is none.
    spec fn approved_spec(&self, id: u64) -> Address;

    spec fn operator_spec(&self, owner: Address, operator: Address) -> bool;

    /// The number of items `owner` holds.
    spec fn count_spec(&self, owner: Address) -> nat;

    /// The number of items in existence.
    spec fn supply_spec(&self) -> nat;

    /// The collection's name, if it has one.
    spec fn name_spec(&self) -> Option<Seq<char>>;

    /// The collection's symbol, if it has one.
    spec fn symbol_spec(&self) -> Option<Seq<char>>;

    /// The metadata string of item `id`; empty where none is stored.
    spec fn token_uri_spec(&self, id: u64) -> Seq<char>;

    /// The metadata of `after` is that of `self`.
    open spec fn same_metadata(&self, after: Self) -> bool {
        &&& after.name_spec() == self.name_spec()
        &&& after.symbol_spec() == self.symbol_spec()
        &&& forall|t: u64| #[trigger] after.token_uri_spec(t) == self.token_uri_spec(t)
    }

    /// `caller` may move or burn item `id`.
    open spec fn may_move(&self, caller: Address, id: u64) -> bool {
        self.owner_spec(id) matches Some(owner) && (caller == owner || (self.approved_spec(id)
            != ZERO_ADDRESS && caller == self.approved_spec(id)) || self.operator_spec(
            owner,
            caller,
        ))
    }

    /// `after` is `self` with item `id` moved from `from` to `to` and its
    /// approved address cleared.
    open spec fn transferred(&self, after: Self, from: Address, to: Address, id: u64) -> bool {
        &&& forall|t: u64|
            #[trigger] after.owner_spec(t) == if t == id {
                Some(to)
            } else {
                self.owner_spec(t)
            }
        &&& forall|t: u64|
            #[trigger] after.approved_spec(t) == if t == id {
                ZERO_ADDRESS
            } else {
                self.approved_spec(t)
            }
        &&& forall|x: Address|
            #[trigger] after.count_spec(x) == self.count_spec(x) - (if x == from {
                1int
            } else {
                0
            }) + (if x == to {
                1int
            } else {
                0
            })
        &&& after.supply_spec() == self.supply_spec()
        &&& forall|o: Address, p: Address| #[trigger]
            after.operator_spec(o, p) == self.operator_spec(o, p)
        &&& self.same_metadata(after)
    }

    fn balance_of(&self, owner: Address) -> (r: Result<u64, ERC721Error>)
        requires
            self.inv(),
        ensures
            owner == ZERO_ADDRESS ==> r == Err::<u64, ERC721Error>(ERC721Error::ZeroAddress),
            owner != ZERO_ADDRESS ==> (r matches Ok(n) && n as nat == self.count_spec(owner)),
    ;

    fn owner_of(&self, token_id: u64) -> (r: Result<Address, ERC721Error>)
        requires
            self.inv(),
        ensures
            self.owner_spec(token_id) is None ==> r == Err::<Address, ERC721Error>(
                ERC721Error::NonexistentToken,
            ),
            self.owner_spec(token_id) matches Some(o) ==> r == Ok::<Address, ERC721Error>(o),
    ;

    /// As `transfer_from`; `bytes_data` is left for the receiver and not read here.
    fn safe_transfer_from<E: ERC721Events>(
        &mut self,
        events: &E,
        caller: Address,
        from: Address,
        to: Address,
        token_id: u64,
        bytes_data: Option<Vec<u8>>,
    ) -> (r: Result<(), ERC721Error>)
        requires
            old(self).inv(),
        ensures
            final(self).inv(),
            old(self).owner_spec(token_id) is None ==> r == Err::<(), ERC721Error>(
                ERC721Error::NonexistentToken,
            ),
            old(self).owner_spec(token_id) is Some && old(self).owner_spec(token_id) != Some(from)
                ==> r == Err::<(), ERC721Error>(ERC721Error::InvalidAddress),
            old(self).owner_spec(token_id) == Some(from) && to == ZERO_ADDRESS ==> r == Err::<
                (),
                ERC721Error,
            >(ERC721Error::ZeroAddress),
            old(self).owner_spec(token_id) == Some(from) && to != ZERO_ADDRESS && !old(
                self,
            ).may_move(caller, token_id) ==> r == Err::<(), ERC721Error>(
                ERC721Error::Unauthorized,
            ),
            r is Ok <==> old(self).owner_spec(token_id) == Some(from) && to != ZERO_ADDRESS && old(
                self,
            ).may_move(caller, token_id),
            r is Err ==> *final(self) == *old(self),
            r is Ok ==> old(self).transferred(*final(self), from, to, token_id),
    ;

    /// Moves item `token_id` from its owner `from` to `to`, clearing its
    /// approved address.
    fn transfer_from<E: ERC721Events>(
        &mut self,
        events: &E,
        caller: Address,
        from: Address,
        to: Address,
        token_id: u64,
    ) -> (r: Result<(), ERC721Error>)
        requires
            old(self).inv(),
        ensures
            final(self).inv(),
            old(self).owner_spec(token_id) is None ==> r == Err::<(), ERC721Error>(
                ERC721Error::NonexistentToken,
            ),
            old(self).owner_spec(token_id) is Some && old(self).owner_spec(token_id) != Some(from)
                ==> r == Err::<(), ERC721Error>(ERC721Error::InvalidAddress),
            old(self).owner_spec(token_id) == Some(from) && to == ZERO_ADDRESS ==> r == Err::<
                (),
                ERC721Error,
            >(ERC721Error::ZeroAddress),
            old(self).owner_spec(token_id) == Some(from) && to != ZERO_ADDRESS && !old(
                self,
            ).may_move(caller, token_id) ==> r == Err::<(), ERC721Error>(
                ERC721Error::Unauthorized,
            ),
            r is Ok <==> old(self).owner_spec(token_id) == Some(from) && to != ZERO_ADDRESS && old(
                self,
            ).may_move(caller, token_id),
            r is Err ==> *final(self) == *old(self),
            r is Ok ==> old(self).transferred(*final(self), from, to, token_id),
    ;

    /// Makes `approved` (zero: nobody) the approved address of item `token_id`.
    fn approve<E: ERC721Events>(
        &mut self,
        events: &E,
        caller: Address,
        approved: Address,
        token_id: u64,
    ) -> (r: Result<(), ERC721Error>)
        requires
            old(self).inv(),
        ensures
            final(self).inv(),
            old(self).owner_spec(token_id) is None ==> r == Err::<(), ERC721Error>(
                ERC721Error::NonexistentToken,
            ),
            old(self).owner_spec(token_id) == Some(approved) ==> r == Err::<(), ERC721Error>(
                ERC721Error::SelfApproval,
            ),
            (old(self).owner_spec(token_id) matches Some(o) && approved != o && caller != o && !old(
                self,
            ).operator_spec(o, caller)) ==> r == Err::<(), ERC721Error>(ERC721Error::Unauthorized),
            r is Ok <==> (old(self).owner_spec(token_id) matches Some(o) && approved != o && (caller
                == o || old(self).operator_spec(o, caller))),
            r is Err ==> *final(self) == *old(self),
            forall|t: u64| #[trigger] final(self).owner_spec(t) == old(self).owner_spec(t),
            forall|t: u64|
                #[trigger] final(self).approved_spec(t) == if r is Ok && t == token_id {
                    approved
                } else {
                    old(self).approved_spec(t)
                },
            forall|x: Address| #[trigger] final(self).count_spec(x) == old(self).count_spec(x),
            final(self).supply_spec() == old(self).supply_spec(),
            forall|o: Address, p: Address| #[trigger]
                final(self).operator_spec(o, p) == old(self).operator_spec(o, p),
            old(self).same_metadata(*final(self)),
    ;

    /// Gives or takes away `operator`'s rights over all of `caller`'s items.
    fn set_approval_for_all<E: ERC721Events>(
        &mut self,
        events: &E,
        caller: Address,
        operator: Address,
        approved: bool,
    ) -> (r: Result<(), ERC721Error>)
        requires
            old(self).inv(),
        ensures
            final(self).inv(),
            caller == operator ==> r == Err::<(), ERC721Error>(ERC721Error::SelfApproval),
            caller != operator && (caller == ZERO_ADDRESS || operator == ZERO_ADDRESS) ==> r
                == Err::<(), ERC721Error>(ERC721Error::ZeroAddress),
            r is Ok <==> caller != operator && caller != ZERO_ADDRESS && operator != ZERO_ADDRESS,
            r is Err ==> *final(self) == *old(self),
            forall|t: u64| #[trigger] final(self).owner_spec(t) == old(self).owner_spec(t),
            forall|t: u64| #[trigger] final(self).approved_spec(t) == old(self).approved_spec(t),
            forall|x: Address| #[trigger] final(self).count_spec(x) == old(self).count_spec(x),
            final(self).supply_spec() == old(self).supply_spec(),
            forall|o: Address, p: Address|
                #[trigger] final(self).operator_spec(o, p) == if r is Ok && o == caller && p
                    == operator {
                    approved
                } else {
                    old(self).operator_spec(o, p)
                },
            old(self).same_metadata(*final(self)),
    ;

    /// The approved address of item `token_id`, if any.
    fn get_approved(&self, token_id: u64) -> (r: Result<Option<Address>, ERC721Error>)
        requires
            self.inv(),
        ensures
            self.owner_spec(token_id) is None ==> r == Err::<Option<Address>, ERC721Error>(
                ERC721Error::NonexistentToken,
            ),
            self.owner_spec(token_id) is Some && self.approved_spec(token_id) == ZERO_ADDRESS ==> r
                == Ok::<Option<Address>, ERC721Error>(None),
            self.owner_spec(token_id) is Some && self.approved_spec(token_id) != ZERO_ADDRESS ==> r
                == Ok::<Option<Address>, ERC721Error>(Some(self.approved_spec(token_id))),
    ;

    fn is_approved_for_all(&self, owner: Address, operator: Address) -> (r: Result<
        bool,
        ERC721Error,
    >)
        requires
            self.inv(),
        ensures
            r == Ok::<bool, ERC721Error>(self.operator_spec(owner, operator)),
    ;

    /// Creates item `token_id`, owned by `to`.
    fn mint<E: ERC721Events>(&mut self, events: &E, to: Address, token_id: u64) -> (r: Result<
        (),
        ERC721Error,
    >)
        requires
            old(self).inv(),
        ensures
            final(self).inv(),
            to == ZERO_ADDRESS ==> r == Err::<(), ERC721Error>(ERC721Error::ZeroAddress),
            to != ZERO_ADDRESS && old(self).owner_spec(token_id) is Some ==> r == Err::<
                (),
                ERC721Error,
            >(ERC721Error::AlreadyMinted),
            to != ZERO_ADDRESS && old(self).owner_spec(token_id) is None && old(self).supply_spec()
                == u64::MAX ==> r == Err::<(), ERC721Error>(ERC721Error::ArithmeticOverflow),
            r is Ok <==> to != ZERO_ADDRESS && old(self).owner_spec(token_id) is None && old(
                self,
            ).supply_spec() < u64::MAX,
            r is Err ==> *final(self) == *old(self),
            forall|t: u64|
                #[trigger] final(self).owner_spec(t) == if r is Ok && t == token_id {
                    Some(to)
                } else {
                    old(self).owner_spec(t)
                },
            forall|t: u64| #[trigger] final(self).approved_spec(t) == old(self).approved_spec(t),
            forall|x: Address|
                #[trigger] final(self).count_spec(x) == old(self).count_spec(x) + if r is Ok && x
                    == to {
                    1nat
                } else {
                    0
                },
            final(self).supply_spec() == old(self).supply_spec() + if r is Ok {
                1nat
            } else {
                0
            },
            forall|o: Address, p: Address| #[trigger]
                final(self).operator_spec(o, p) == old(self).operator_spec(o, p),
            old(self).same_metadata(*final(self)),
    ;

    /// Destroys item `token_id` together with its approval.
    fn burn<E: ERC721Events>(&mut self, events: &E, caller: Address, token_id: u64) -> (r: Result<
        (),
        ERC721Error,
    >)
        requires
            old(self).inv(),
        ensures
            final(self).inv(),
            old(self).owner_spec(token_id) is None ==> r == Err::<(), ERC721Error>(
                ERC721Error::NonexistentToken,
            ),
            old(self).owner_spec(token_id) is Some && !old(self).may_move(caller, token_id) ==> r
                == Err::<(), ERC721Error>(ERC721Error::Unauthorized),
            r is Ok <==> old(self).may_move(caller, token_id),
            r is Err ==> *final(self) == *old(self),
            forall|t: u64|
                #[trigger] final(self).owner_spec(t) == if r is Ok && t == token_id {
                    None
                } else {
                    old(self).owner_spec(t)
                },
            forall|t: u64|
                #[trigger] final(self).approved_spec(t) == if r is Ok && t == token_id {
                    ZERO_ADDRESS
                } else {
                    old(self).approved_spec(t)
                },
            forall|x: Address|
                #[trigger] final(self).count_spec(x) == old(self).count_spec(x) - if r is Ok && Some(
                    x,
                ) == old(self).owner_spec(token_id) {
                    1nat
                } else {
                    0
                },
            final(self).supply_spec() == old(self).supply_spec() - if r is Ok {
                1nat
            } else {
                0
            },
            forall|o: Address, p: Address| #[trigger]
                final(self).operator_spec(o, p) == old(self).operator_spec(o, p),
            final(self).name_spec() == old(self).name_spec(),
            final(self).symbol_spec() == old(self).symbol_spec(),
            forall|t: u64|
                #[trigger] final(self).token_uri_spec(t) == if r is Ok && t == token_id {
                    Seq::<char>::empty()
                } else {
                    old(self).token_uri_spec(t)
                },
    ;

    fn total_supply(&self) -> (r: u64)
        requires
            self.inv(),
        ensures
            r as nat == self.supply_spec(),
    ;

    fn name(&self) -> (r: Option<String>)
        requires
            self.inv(),
        ensures
            match r {
                Some(s) => self.name_spec() == Some(s@),
                None => self.name_spec() is None,
            },
    ;

    fn symbol(&self) -> (r: Option<String>)
        requires
            self.inv(),
        ensures
            match r {
                Some(s) => self.symbol_spec() == Some(s@),
                None => self.symbol_spec() is None,
            },
    ;

    /// The metadata string of item `token_id`.
    fn token_uri(&self, token_id: u64) -> (r: Result<String, ERC721Error>)
        requires
            self.inv(),
        ensures
            self.owner_spec(token_id) is None ==> r == Err::<String, ERC721Error>(
                ERC721Error::NonexistentToken,
            ),
            self.owner_spec(token_id) is Some ==> (r matches Ok(s) && s@ == self.token_uri_spec(
                token_id,
            )),
    ;
}

/// The single column of the per-item and per-owner tables.
const SLOT: u64 = 0;

/// A registry of unique items held in memory.
pub struct UniqueItemRegistry {
    /// Row: item; the owner, zero where the item does not exist.
    owners: PairTable,
    /// Row: item; the approved address, zero where there is none.
    approvals: PairTable,
    /// Row: item, column: account; one where the account owns the item.
    holdings: PairTable,
    /// Row: account; the number of items it owns.
    counts: PairTable,
    /// Row: owner, column: operator; nonzero where the operator is approved.
    operators: PairTable,
    supply: u64,
    /// Metadata of each item.
    uris: MetadataTable,
    name: Option<String>,
    symbol: Option<String>,
}

impl UniqueItemRegistry {
    /// An empty registry without a name or symbol.
    pub fn new() -> (g: UniqueItemRegistry)
        ensures
            g.inv(),
            g.name_spec() is None,
            g.symbol_spec() is None,
            forall|t: u64| #[trigger] g.token_uri_spec(t) == Seq::<char>::empty(),
            forall|t: u64| #[trigger] g.owner_spec(t) is None,
            forall|t: u64| #[trigger] g.approved_spec(t) == ZERO_ADDRESS,
            forall|x: Address| #[trigger] g.count_spec(x) == 0,
            g.supply_spec() == 0,
            forall|o: Address, p: Address| !#[trigger] g.operator_spec(o, p),
    {
        UniqueItemRegistry {
            owners: PairTable::new(),
            approvals: PairTable::new(),
            holdings: PairTable::new(),
            counts: PairTable::new(),
            operators: PairTable::new(),
            supply: 0,
            uris: MetadataTable::new(),
            name: None,
            symbol: None,
        }
    }

    /// An empty registry with the given name and symbol.
    pub fn with_metadata(name: String, symbol: String) -> (g: UniqueItemRegistry)
        ensures
            g.inv(),
            g.name_spec() == Some(name@),
            g.symbol_spec() == Some(symbol@),
            forall|t: u64| #[trigger] g.owner_spec(t) is None,
            forall|t: u64| #[trigger] g.token_uri_spec(t) == Seq::<char>::empty(),
            forall|x: Address| #[trigger] g.count_spec(x) == 0,
            g.supply_spec() == 0,
            forall|o: Address, p: Address| !#[trigger] g.operator_spec(o, p),
    {
        UniqueItemRegistry {
            owners: PairTable::new(),
            approvals: PairTable::new(),
            holdings: PairTable::new(),
            counts: PairTable::new(),
            operators: PairTable::new(),
            supply: 0,
            uris: MetadataTable::new(),
            name: Some(name),
            symbol: Some(symbol),
        }
    }

    /// Stores `uri` as the metadata string of item `token_id`.
    pub fn set_token_uri(&mut self, token_id: u64, uri: String) -> (r: Result<(), ERC721Error>)
        requires
            old(self).inv(),
        ensures
            final(self).inv(),
            r is Ok <==> old(self).owner_spec(token_id) is Some,
            r is Err ==> r == Err::<(), ERC721Error>(ERC721Error::NonexistentToken) && *final(self)
                == *old(self),
            forall|t: u64|
                #[trigger] final(self).token_uri_spec(t) == if r is Ok && t == token_id {
                    uri@
                } else {
                    old(self).token_uri_spec(t)
                },
            forall|t: u64| #[trigger] final(self).owner_spec(t) == old(self).owner_spec(t),
            forall|t: u64| #[trigger] final(self).approved_spec(t) == old(self).approved_spec(t),
            forall|x: Address| #[trigger] final(self).count_spec(x) == old(self).count_spec(x),
            final(self).supply_spec() == old(self).supply_spec(),
            forall|o: Address, p: Address| #[trigger]
                final(self).operator_spec(o, p) == old(self).operator_spec(o, p),
            final(self).name_spec() == old(self).name_spec(),
            final(self).symbol_spec() == old(self).symbol_spec(),
    {
        if self.owners.get(token_id, SLOT) == ZERO_ADDRESS {
            return Err(ERC721Error::NonexistentToken);
        }
        self.uris.set(token_id, uri);
        Ok(())
    }

    /// `account` is recorded as holding item `id`.
    pub closed spec fn holds(&self, account: Address, id: u64) -> bool {
        self.holdings.value(id, account) == 1
    }

    /// Unique ownership: an item exists exactly when one account holds it,
    /// that account is its owner, and no two accounts hold the same item.
    pub proof fn lemma_unique_owner(&self, id: u64, a: Address, b: Address)
        requires
            self.inv(),
        ensures
            self.owner_spec(id) is Some <==> exists|x: Address| #[trigger] self.holds(x, id),
            self.holds(a, id) ==> self.owner_spec(id) == Some(a),
            self.holds(a, id) && self.holds(b, id) ==> a == b,
    {
        if self.owner_spec(id) is Some {
            let o = self.owners.value(id, SLOT) as u64;
            assert(self.holds(o, id));
        }
    }

    /// Whether `caller` may move item `id`, whose owner is `owner`.
    fn may_move_exec(&self, caller: Address, id: u64, owner: Address) -> (r: bool)
        requires
            self.inv(),
            owner != ZERO_ADDRESS,
            self.owners.value(id, SLOT) == owner,
        ensures
            r == self.may_move(caller, id),
    {
        if caller == owner {
            return true;
        }
        let approved = self.approvals.get(id, SLOT);
        if approved != ZERO_ADDRESS && approved == caller {
            return true;
        }
        self.operators.get(owner, caller) != 0
    }

    /// Moves item `id` from `from`, its owner, to `to` and clears its approval.
    fn move_item(&mut self, from: Address, to: Address, id: u64)
        requires
            old(self).inv(),
            from != ZERO_ADDRESS,
            to != ZERO_ADDRESS,
            old(self).owners.value(id, SLOT) == from,
        ensures
            final(self).inv(),
            old(self).transferred(*final(self), from, to, id),
    {
        if from != to {
            let held_by_from = self.counts.get(from, SLOT);
            let held_by_to = self.counts.get(to, SLOT);
            proof {
                lemma_pair_le_sum(self.holdings.cells@, id, id, from);
                lemma_pair_le_sum(self.counts.cells@, from, to, SLOT);
                assert(self.holdings.value(id, from) == 1);
                assert(self.holdings.value(id, to) == 0);
                assert(self.counts.value(from, SLOT) == self.holdings.total(from));
            }
            self.holdings.set(id, from, 0);
            self.holdings.set(id, to, 1);
            self.counts.set(from, SLOT, held_by_from - 1);
            self.counts.set(to, SLOT, held_by_to + 1);
            self.owners.set(id, SLOT, to);
        }
        self.approvals.set(id, SLOT, 0);
        assert forall|t: u64, o: Address| #[trigger]
            self.holdings.value(t, o) == if o != ZERO_ADDRESS && self.owners.value(t, SLOT) == o {
                1nat
            } else {
                0
            } by {
            assert(old(self).holdings.value(t, o) == if o != ZERO_ADDRESS && old(self).owners.value(t, SLOT) == o {
                1nat
            } else {
                0
            });
        }
        assert forall|o: Address| #[trigger]
            self.counts.value(o, SLOT) == self.holdings.total(o) by {
            assert(old(self).counts.value(o, SLOT) == old(self).holdings.total(o));
        }
    }
}

impl ERC721 for UniqueItemRegistry {
    closed spec fn inv(&self) -> bool {
        &&& self.owners.wf()
        &&& self.approvals.wf()
        &&& self.holdings.wf()
        &&& self.counts.wf()
        &&& self.operators.wf()
        &&& forall|t: u64| #[trigger] self.owners.value(t, SLOT) <= u64::MAX
        &&& forall|t: u64| #[trigger] self.approvals.value(t, SLOT) <= u64::MAX
        &&& forall|t: u64|
            self.owners.value(t, SLOT) == 0 ==> #[trigger] self.approvals.value(t, SLOT) == 0
        &&& forall|t: u64, o: Address|
            #[trigger] self.holdings.value(t, o) == if o != ZERO_ADDRESS && self.owners.value(t, SLOT)
                == o {
                1nat
            } else {
                0
            }
        &&& forall|o: Address| #[trigger] self.counts.value(o, SLOT) == self.holdings.total(o)
        &&& self.counts.total(SLOT) == self.supply as nat
        &&& self.uris.wf()
    }

    closed spec fn owner_spec(&self, id: u64) -> Option<Address> {
        if self.owners.value(id, SLOT) == 0 {
            None
        } else {
            Some(self.owners.value(id, SLOT) as u64)
        }
    }

    closed spec fn approved_spec(&self, id: u64) -> Address {
        self.approvals.value(id, SLOT) as u64
    }

    closed spec fn operator_spec(&self, owner: Address, operator: Address) -> bool {
        self.operators.value(owner, operator) != 0
    }

    closed spec fn count_spec(&self, owner: Address) -> nat {
        self.counts.value(owner, SLOT)
    }

    closed spec fn supply_spec(&self) -> nat {
        self.supply as nat
    }

    closed spec fn name_spec(&self) -> Option<Seq<char>> {
        match self.name {
            Some(s) => Some(s@),
            None => None,
        }
    }

    closed spec fn symbol_spec(&self) -> Option<Seq<char>> {
        match self.symbol {
            Some(s) => Some(s@),
            None => None,
        }
    }

    closed spec fn token_uri_spec(&self, id: u64) -> Seq<char> {
        match self.uris.lookup(id) {
            Some(u) => u,
            None => Seq::empty(),
        }
    }

    fn balance_of(&self, owner: Address) -> (r: Result<u64, ERC721Error>) {
        if owner == ZERO_ADDRESS {
            return Err(ERC721Error::ZeroAddress);
        }
        Ok(self.counts.get(owner, SLOT))
    }

    fn owner_of(&self, token_id: u64) -> (r: Result<Address, ERC721Error>) {
        let owner = self.owners.get(token_id, SLOT);
        if owner == ZERO_ADDRESS {
            Err(ERC721Error::NonexistentToken)
        } else {
            Ok(owner)
        }
    }

    fn safe_transfer_from<E: ERC721Events>(
        &mut self,
        events: &E,
        caller: Address,
        from: Address,
        to: Address,
        token_id: u64,
        bytes_data: Option<Vec<u8>>,
    ) -> (r: Result<(), ERC721Error>) {
        self.transfer_from(events, caller, from, to, token_id)
    }

    fn transfer_from<E: ERC721Events>(
        &mut self,
        events: &E,
        caller: Address,
        from: Address,
        to: Address,
        token_id: u64,
    ) -> (r: Result<(), ERC721Error>) {
        let owner = self.owners.get(token_id, SLOT);
        if owner == ZERO_ADDRESS {
            return Err(ERC721Error::NonexistentToken);
        }
        if owner != from {
            return Err(ERC721Error::InvalidAddress);
        }
        if to == ZERO_ADDRESS {
            return Err(ERC721Error::ZeroAddress);
        }
        if !self.may_move_exec(caller, token_id, owner) {
            return Err(ERC721Error::Unauthorized);
        }
        self.move_item(from, to, token_id);
        events.emit_transfer(Some(from), Some(to), token_id);
        Ok(())
    }

    fn approve<E: ERC721Events>(
        &mut self,
        events: &E,
        caller: Address,
        approved: Address,
        token_id: u64,
    ) -> (r: Result<(), ERC721Error>) {
        let owner = self.owners.get(token_id, SLOT);
        if owner == ZERO_ADDRESS {
            return Err(ERC721Error::NonexistentToken);
        }
        if approved == owner {
            return Err(ERC721Error::SelfApproval);
        }
        if caller != owner && self.operators.get(owner, caller) == 0 {
            return Err(ERC721Error::Unauthorized);
        }
        self.approvals.set(token_id, SLOT, approved);
        events.emit_approval(owner, approved, token_id);
        Ok(())
    }

    fn set_approval_for_all<E: ERC721Events>(
        &mut self,
        events: &E,
        caller: Address,
        operator: Address,
        approved: bool,
    ) -> (r: Result<(), ERC721Error>) {
        if caller == operator {
            return Err(ERC721Error::SelfApproval);
        }
        if caller == ZERO_ADDRESS || operator == ZERO_ADDRESS {
            return Err(ERC721Error::ZeroAddress);
        }
        self.operators.set(caller, operator, if approved { 1 } else { 0 });
        events.emit_approval_for_all(caller, operator, approved);
        Ok(())
    }

    fn get_approved(&self, token_id: u64) -> (r: Result<Option<Address>, ERC721Error>) {
        if self.owners.get(token_id, SLOT) == ZERO_ADDRESS {
            return Err(ERC721Error::NonexistentToken);
        }
        let approved = self.approvals.get(token_id, SLOT);
        if approved == ZERO_ADDRESS {
            Ok(None)
        } else {
            Ok(Some(approved))
        }
    }

    fn is_approved_for_all(&self, owner: Address, operator: Address) -> (r: Result<
        bool,
        ERC721Error,
    >) {
        Ok(self.operators.get(owner, operator) != 0)
    }

    fn mint<E: ERC721Events>(&mut self, events: &E, to: Address, token_id: u64) -> (r: Result<
        (),
        ERC721Error,
    >) {
        if to == ZERO_ADDRESS {
            return Err(ERC721Error::ZeroAddress);
        }
        if self.owners.get(token_id, SLOT) != ZERO_ADDRESS {
            return Err(ERC721Error::AlreadyMinted);
        }
        if self.supply == u64::MAX {
            return Err(ERC721Error::ArithmeticOverflow);
        }
        let held = self.counts.get(to, SLOT);
        proof {
            lemma_pair_le_sum(self.counts.cells@, to, to, SLOT);
            assert(self.holdings.value(token_id, to) == 0);
            assert(self.counts.value(to, SLOT) == self.holdings.total(to));
        }
        let ghost before = *self;
        self.holdings.set(token_id, to, 1);
        self.counts.set(to, SLOT, held + 1);
        self.owners.set(token_id, SLOT, to);
        self.supply = self.supply + 1;
        assert forall|t: u64, o: Address| #[trigger]
            self.holdings.value(t, o) == if o != ZERO_ADDRESS && self.owners.value(t, SLOT) == o {
                1nat
            } else {
                0
            } by {
            assert(before.holdings.value(t, o) == if o != ZERO_ADDRESS && before.owners.value(t, SLOT) == o {
                1nat
            } else {
                0
            });
        }
        assert forall|o: Address| #[trigger]
            self.counts.value(o, SLOT) == self.holdings.total(o) by {
            assert(before.counts.value(o, SLOT) == before.holdings.total(o));
        }
        assert forall|t: u64|
            self.owners.value(t, SLOT) == 0 implies #[trigger] self.approvals.value(t, SLOT) == 0 by {
            assert(before.owners.value(t, SLOT) == 0);
        }
        events.emit_transfer(None, Some(to), token_id);
        Ok(())
    }

    fn burn<E: ERC721Events>(&mut self, events: &E, caller: Address, token_id: u64) -> (r: Result<
        (),
        ERC721Error,
    >) {
        let owner = self.owners.get(token_id, SLOT);
        if owner == ZERO_ADDRESS {
            return Err(ERC721Error::NonexistentToken);
        }
        if !self.may_move_exec(caller, token_id, owner) {
            return Err(ERC721Error::Unauthorized);
        }
        let held = self.counts.get(owner, SLOT);
        proof {
            lemma_pair_le_sum(self.holdings.cells@, token_id, token_id, owner);
            lemma_pair_le_sum(self.counts.cells@, owner, owner, SLOT);
            assert(self.holdings.value(token_id, owner) == 1);
            assert(self.counts.value(owner, SLOT) == self.holdings.total(owner));
        }
        let ghost before = *self;
        self.holdings.set(token_id, owner, 0);
        self.counts.set(owner, SLOT, held - 1);
        self.owners.set(token_id, SLOT, 0);
        self.approvals.set(token_id, SLOT, 0);
        self.uris.set(token_id, String::new());
        self.supply = self.supply - 1;
        assert forall|t: u64, o: Address| #[trigger]
            self.holdings.value(t, o) == if o != ZERO_ADDRESS && self.owners.value(t, SLOT) == o {
                1nat
            } else {
                0
            } by {
            assert(before.holdings.value(t, o) == if o != ZERO_ADDRESS && before.owners.value(t, SLOT) == o {
                1nat
            } else {
                0
            });
        }
        assert forall|o: Address| #[trigger]
            self.counts.value(o, SLOT) == self.holdings.total(o) by {
            assert(before.counts.value(o, SLOT) == before.holdings.total(o));
        }
        events.emit_transfer(Some(owner), None, token_id);
        Ok(())
    }

    fn total_supply(&self) -> (r: u64) {
        self.supply
    }

    fn name(&self) -> (r: Option<String>) {
        match &self.name {
            Some(s) => Some(s.clone()),
            None => None,
        }
    }

    fn symbol(&self) -> (r: Option<String>) {
        match &self.symbol {
            Some(s) => Some(s.clone()),
            None => None,
        }
    }

    fn token_uri(&self, token_id: u64) -> (r: Result<String, ERC721Error>) {
        if self.owners.get(token_id, SLOT) == ZERO_ADDRESS {
            return Err(ERC721Error::NonexistentToken);
        }
        match self.uris.get(token_id) {
            Some(text) => Ok(text),
            None => Ok(String::new()),
        }
    }
}

} // verus!
