//! A finite map from `(row, col)` pairs of `u64` to `u64` amounts, where an
//! absent pair reads as zero, together with the per-column sum of its amounts.
use vstd::prelude::*;

verus! {

/// One stored entry of a [`PairTable`].
#[derive(Clone, Copy, Debug, PartialEq, Eq)]
pub struct Cell {
    pub row: u64,
    pub col: u64,
    pub amount: u64,
}

/// No two cells share the same `(row, col)` key.
pub open spec fn keys_unique(s: Seq<Cell>) -> bool {
    forall|i: int, j: int|
        0 <= i < s.len() && 0 <= j < s.len() && i != j ==> !(#[trigger] s[i].row == #[trigger] s[j].row
            && s[i].col == s[j].col)
}

/// The amount stored under `(row, col)`, zero when absent.
pub open spec fn lookup(s: Seq<Cell>, row: u64, col: u64) -> nat
    decreases s.len(),
{
    if s.len() == 0 {
        0
    } else if s.last().row == row && s.last().col == col {
        s.last().amount as nat
    } else {
        lookup(s.drop_last(), row, col)
    }
}

/// The sum of all amounts stored in column `col`.
pub open spec fn column_sum(s: Seq<Cell>, col: u64) -> nat
    decreases s.len(),
{
    if s.len() == 0 {
        0
    } else {
        column_sum(s.drop_last(), col) + if s.last().col == col {
            s.last().amount as nat
        } else {
            0
        }
    }
}

/// `s` with the amount of cell `i` replaced by `v`.
pub open spec fn with_amount(s: Seq<Cell>, i: int, v: u64) -> Seq<Cell> {
    s.update(i, Cell { amount: v, ..s[i] })
}

pub open spec fn has_key(s: Seq<Cell>, row: u64, col: u64) -> bool {
    exists|i: int| 0 <= i < s.len() && s[i].row == row && s[i].col == col
}

proof fn lemma_unique_prefix(s: Seq<Cell>)
    requires
        keys_unique(s),
        s.len() > 0,
    ensures
        keys_unique(s.drop_last()),
{
    let t = s.drop_last();
    assert forall|i: int, j: int|
        0 <= i < t.len() && 0 <= j < t.len() && i != j implies !(#[trigger] t[i].row == #[trigger] t[j].row
            && t[i].col == t[j].col) by {
        assert(t[i] == s[i] && t[j] == s[j]);
    }
}

pub proof fn lemma_lookup_absent(s: Seq<Cell>, row: u64, col: u64)
    requires
        !has_key(s, row, col),
    ensures
        lookup(s, row, col) == 0,
    decreases s.len(),
{
    if s.len() > 0 {
        assert(s.last() == s[s.len() - 1]);
        let t = s.drop_last();
        assert(!has_key(t, row, col)) by {
            if has_key(t, row, col) {
                let i = choose|i: int| 0 <= i < t.len() && t[i].row == row && t[i].col == col;
                assert(s[i] == t[i]);
            }
        }
        lemma_lookup_absent(t, row, col);
    }
}

proof fn lemma_lookup_at(s: Seq<Cell>, i: int)
    requires
        keys_unique(s),
        0 <= i < s.len(),
    ensures
        lookup(s, s[i].row, s[i].col) == s[i].amount as nat,
    decreases s.len(),
{
    let t = s.drop_last();
    if i < s.len() - 1 {
        assert(t[i] == s[i]);
        assert(!(s[i].row == s[s.len() - 1].row && s[i].col == s[s.len() - 1].col));
        lemma_unique_prefix(s);
        lemma_lookup_at(t, i);
    }
}

/// Replacing the amount of cell `i` changes that key's amount and nothing else,
/// and moves the sum of its column by the difference.
proof fn lemma_update(s: Seq<Cell>, i: int, v: u64)
    requires
        keys_unique(s),
        0 <= i < s.len(),
    ensures
        keys_unique(with_amount(s, i, v)),
        forall|r: u64, c: u64|
            #[trigger] lookup(with_amount(s, i, v), r, c) == if r == s[i].row && c
                == s[i].col {
                v as nat
            } else {
                lookup(s, r, c)
            },
        forall|c: u64|
            #[trigger] column_sum(with_amount(s, i, v), c) == if c == s[i].col {
                column_sum(s, c) - s[i].amount + v
            } else {
                column_sum(s, c) as int
            },
    decreases s.len(),
{
    let cell = Cell { amount: v, ..s[i] };
    let u = with_amount(s, i, v);
    assert(u == s.update(i, cell));
    assert forall|a: int, b: int|
        0 <= a < u.len() && 0 <= b < u.len() && a != b implies !(#[trigger] u[a].row == #[trigger] u[b].row
            && u[a].col == u[b].col) by {
        assert(u[a].row == s[a].row && u[a].col == s[a].col);
        assert(u[b].row == s[b].row && u[b].col == s[b].col);
    }
    let t = s.drop_last();
    if i == s.len() - 1 {
        assert(u.drop_last() =~= t);
        assert forall|r: u64, c: u64| #[trigger]
            lookup(u, r, c) == if r == s[i].row && c == s[i].col {
                v as nat
            } else {
                lookup(s, r, c)
            } by {}
        assert forall|c: u64| #[trigger]
            column_sum(u, c) == if c == s[i].col {
                column_sum(s, c) - s[i].amount + v
            } else {
                column_sum(s, c) as int
            } by {}
    } else {
        lemma_unique_prefix(s);
        assert(t[i] == s[i]);
        assert(u.drop_last() =~= with_amount(t, i, v));
        lemma_update(t, i, v);
        assert(u.last() == s.last());
        assert(!(s[i].row == s.last().row && s[i].col == s.last().col)) by {
            assert(s.last() == s[s.len() - 1]);
        }
        assert forall|r: u64, c: u64| #[trigger]
            lookup(u, r, c) == if r == s[i].row && c == s[i].col {
                v as nat
            } else {
                lookup(s, r, c)
            } by {
            assert(lookup(u.drop_last(), r, c) == lookup(with_amount(t, i, v), r, c));
        }
        assert forall|c: u64| #[trigger]
            column_sum(u, c) == if c == s[i].col {
                column_sum(s, c) - s[i].amount + v
            } else {
                column_sum(s, c) as int
            } by {
            assert(column_sum(u.drop_last(), c) == column_sum(with_amount(t, i, v), c));
        }
    }
}

/// Appending a cell with a fresh key sets that key and adds to its column.
proof fn lemma_push(s: Seq<Cell>, cell: Cell)
    requires
        keys_unique(s),
        !has_key(s, cell.row, cell.col),
    ensures
        keys_unique(s.push(cell)),
        forall|r: u64, c: u64|
            #[trigger] lookup(s.push(cell), r, c) == if r == cell.row && c == cell.col {
                cell.amount as nat
            } else {
                lookup(s, r, c)
            },
        forall|c: u64|
            #[trigger] column_sum(s.push(cell), c) == column_sum(s, c) + if c == cell.col {
                cell.amount as nat
            } else {
                0
            },
{
    let u = s.push(cell);
    assert(u.drop_last() =~= s);
    assert forall|a: int, b: int|
        0 <= a < u.len() && 0 <= b < u.len() && a != b implies !(#[trigger] u[a].row == #[trigger] u[b].row
            && u[a].col == u[b].col) by {
        if a == s.len() {
            assert(u[b] == s[b]);
        } else if b == s.len() {
            assert(u[a] == s[a]);
        } else {
            assert(u[a] == s[a] && u[b] == s[b]);
        }
    }
    lemma_lookup_absent(s, cell.row, cell.col);
}

/// The amount under one key never exceeds its column's sum, and the amounts
/// under two distinct rows of a column together never exceed it either.
pub proof fn lemma_pair_le_sum(s: Seq<Cell>, r1: u64, r2: u64, c: u64)
    requires
        keys_unique(s),
    ensures
        lookup(s, r1, c) <= column_sum(s, c),
        r1 != r2 ==> lookup(s, r1, c) + lookup(s, r2, c) <= column_sum(s, c),
    decreases s.len(),
{
    if s.len() > 0 {
        let t = s.drop_last();
        lemma_unique_prefix(s);
        lemma_pair_le_sum(t, r1, r2, c);
        let last = s.last();
        assert(last == s[s.len() - 1]);
        if last.col == c && (last.row == r1 || last.row == r2) {
            // the last cell's key appears nowhere else
            assert(!has_key(t, last.row, c)) by {
                if has_key(t, last.row, c) {
                    let i = choose|i: int| 0 <= i < t.len() && t[i].row == last.row && t[i].col == c;
                    assert(s[i] == t[i]);
                }
            }
            lemma_lookup_absent(t, last.row, c);
            lemma_pair_le_sum(t, r2, r1, c);
        }
    }
}

/// Every stored amount fits in a `u64`.
pub proof fn lemma_lookup_bounded(s: Seq<Cell>, row: u64, col: u64)
    ensures
        lookup(s, row, col) <= u64::MAX,
    decreases s.len(),
{
    if s.len() > 0 {
        lemma_lookup_bounded(s.drop_last(), row, col);
    }
}

/// A map from `(row, col)` pairs to amounts, absent pairs reading as zero.
pub struct PairTable {
    pub cells: Vec<Cell>,
}

impl PairTable {
    pub open spec fn wf(&self) -> bool {
        keys_unique(self.cells@)
    }

    /// The amount stored under `(row, col)`.
    pub open spec fn value(&self, row: u64, col: u64) -> nat {
        lookup(self.cells@, row, col)
    }

    /// The sum of the amounts of column `col`.
    pub open spec fn total(&self, col: u64) -> nat {
        column_sum(self.cells@, col)
    }

    /// Whether `(row, col)` has ever been stored.
    pub open spec fn present(&self, row: u64, col: u64) -> bool {
        has_key(self.cells@, row, col)
    }

    pub fn new() -> (t: PairTable)
        ensures
            t.wf(),
            forall|r: u64, c: u64| !#[trigger] t.present(r, c),
            forall|r: u64, c: u64| #[trigger] t.value(r, c) == 0,
            forall|c: u64| #[trigger] t.total(c) == 0,
    {
        PairTable { cells: Vec::new() }
    }

    fn find(&self, row: u64, col: u64) -> (r: Option<usize>)
        ensures
            match r {
                Some(i) => i < self.cells@.len() && self.cells@[i as int].row == row
                    && self.cells@[i as int].col == col,
                None => !has_key(self.cells@, row, col),
            },
    {
        let mut i: usize = 0;
        while i < self.cells.len()
            invariant
                i <= self.cells@.len(),
                forall|k: int| 0 <= k < i ==> !(self.cells@[k].row == row && self.cells@[k].col == col),
            decreases self.cells@.len() - i,
        {
            if self.cells[i].row == row && self.cells[i].col == col {
                return Some(i);
            }
            i = i + 1;
        }
        None
    }

    /// A copy of the table, to work on before committing.
    pub fn snapshot(&self) -> (t: PairTable)
        ensures
            t.cells@ == self.cells@,
    {
        let mut cells: Vec<Cell> = Vec::new();
        let mut i: usize = 0;
        while i < self.cells.len()
            invariant
                i <= self.cells@.len(),
                cells@ == self.cells@.subrange(0, i as int),
            decreases self.cells@.len() - i,
        {
            cells.push(self.cells[i]);
            i = i + 1;
            assert(cells@ =~= self.cells@.subrange(0, i as int));
        }
        assert(cells@ =~= self.cells@);
        PairTable { cells }
    }

    /// Whether `(row, col)` has ever been stored.
    pub fn contains(&self, row: u64, col: u64) -> (r: bool)
        ensures
            r == self.present(row, col),
    {
        match self.find(row, col) {
            Some(_) => true,
            None => false,
        }
    }

    /// The amount stored under `(row, col)`.
    pub fn get(&self, row: u64, col: u64) -> (r: u64)
        requires
            self.wf(),
        ensures
            r as nat == self.value(row, col),
    {
        match self.find(row, col) {
            Some(i) => {
                proof {
                    lemma_lookup_at(self.cells@, i as int);
                }
                self.cells[i].amount
            },
            None => {
                proof {
                    lemma_lookup_absent(self.cells@, row, col);
                }
                0
            },
        }
    }

    /// Stores `amount` under `(row, col)`.
    pub fn set(&mut self, row: u64, col: u64, amount: u64)
        requires
            old(self).wf(),
        ensures
            final(self).wf(),
            forall|r: u64, c: u64|
                #[trigger] final(self).value(r, c) == if r == row && c == col {
                    amount as nat
                } else {
                    old(self).value(r, c)
                },
            forall|c: u64|
                #[trigger] final(self).total(c) == if c == col {
                    old(self).total(c) - old(self).value(row, col) + amount
                } else {
                    old(self).total(c) as int
                },
            forall|r: u64, c: u64|
                #[trigger] final(self).present(r, c) == (old(self).present(r, c) || (r == row && c
                    == col)),
    {
        match self.find(row, col) {
            Some(i) => {
                proof {
                    lemma_lookup_at(self.cells@, i as int);
                    lemma_update(self.cells@, i as int, amount);
                }
                let cell = Cell { amount, ..self.cells[i] };
                let ghost before = self.cells@;
                self.cells.set(i, cell);
                assert forall|r: u64, c: u64| #[trigger]
                    self.present(r, c) == (has_key(before, r, c) || (r == row && c == col)) by {
                    if has_key(before, r, c) {
                        let k = choose|k: int| 0 <= k < before.len() && before[k].row == r && before[k].col == c;
                        assert(self.cells@[k].row == r && self.cells@[k].col == c);
                    }
                    if has_key(self.cells@, r, c) {
                        let k = choose|k: int| 0 <= k < self.cells@.len() && self.cells@[k].row == r && self.cells@[k].col == c;
                        assert(before[k].row == r && before[k].col == c);
                    }
                }
            },
            None => {
                let cell = Cell { row, col, amount };
                proof {
                    lemma_lookup_absent(self.cells@, row, col);
                    lemma_push(self.cells@, cell);
                }
                let ghost before = self.cells@;
                self.cells.push(cell);
                assert forall|r: u64, c: u64| #[trigger]
                    self.present(r, c) == (has_key(before, r, c) || (r == row && c == col)) by {
                    if has_key(before, r, c) {
                        let k = choose|k: int| 0 <= k < before.len() && before[k].row == r && before[k].col == c;
                        assert(self.cells@[k] == before[k]);
                    }
                    if r == row && c == col {
                        assert(self.cells@[before.len() as int] == cell);
                    }
                    if has_key(self.cells@, r, c) {
                        let k = choose|k: int| 0 <= k < self.cells@.len() && self.cells@[k].row == r && self.cells@[k].col == c;
                        if k < before.len() {
                            assert(before[k] == self.cells@[k]);
                        }
                    }
                }
            },
        }
    }

    /// Moves `amount` from row `from` to row `to` within column `col`,
    /// leaving the column's sum as it was.
    pub fn move_amount(&mut self, from: u64, to: u64, col: u64, amount: u64)
        requires
            old(self).wf(),
            amount <= old(self).value(from, col),
            old(self).total(col) <= u64::MAX,
        ensures
            final(self).wf(),
            forall|r: u64, c: u64|
                #[trigger] final(self).value(r, c) == if c == col {
                    old(self).value(r, c) - (if r == from { amount as int } else { 0 }) + (if r
                        == to {
                        amount as int
                    } else {
                        0
                    })
                } else {
                    old(self).value(r, c) as int
                },
            forall|c: u64| #[trigger] final(self).total(c) == old(self).total(c),
            forall|r: u64, c: u64| #[trigger]
                final(self).present(r, c) == (old(self).present(r, c) || (c == col && (r == from
                    || r == to))),
    {
        if from == to {
            let held = self.get(from, col);
            self.set(from, col, held);
            return;
        }
        let from_held = self.get(from, col);
        let to_held = self.get(to, col);
        proof {
            lemma_pair_le_sum(self.cells@, from, to, col);
        }
        self.set(from, col, from_held - amount);
        self.set(to, col, to_held + amount);
    }
}

} // verus!
