use vstd::prelude::*;
use crate::field::lemma_residue_unique;
use crate::gate::{gate_residual, gate_value};
use crate::schema::{Column, ConstraintSystem, SchemaView, Selector, SumGate};
use crate::value::Value;

verus! {

/// One position of the evaluation table: a column and a row.
#[derive(Clone, Copy, Debug, PartialEq, Eq)]
pub struct Cell {
    pub column: Column,
    pub row: usize,
}

/// A handle to a committed value: the value and where it stands, so that a
/// later region can copy it under an equality constraint.
#[derive(Clone, Copy, Debug, PartialEq, Eq)]
pub struct AssignedCell {
    pub value: Value,
    pub cell: Cell,
}

/// Why a region could not be placed.
#[derive(Clone, Copy, Debug, PartialEq, Eq)]
pub enum Error {
    /// Every row of the table is already taken by a region.
    NotEnoughRowsAvailable,
    /// An equality copy touches a column that is not open to copies.
    ColumnNotInPermutation,
    /// A column, selector or row lies outside the table, or a handle points
    /// to a row that no region has taken.
    BoundsFailure,
}

/// The evaluation table as the contracts speak of it.
pub ghost struct TableView {
    pub rows: nat,
    pub next_row: nat,
    pub advice: Seq<Seq<Value>>,
    pub selectors: Seq<Seq<bool>>,
    pub equality: Seq<bool>,
    pub gates: Seq<SumGate>,
    pub copies: Seq<(Cell, Cell)>,
}

impl TableView {
    /// The table that `Table::new` builds for a schema: nothing assigned,
    /// every selector off, no copies, no region placed.
    pub open spec fn fresh(s: SchemaView, rows: nat) -> TableView {
        TableView {
            rows,
            next_row: 0,
            advice: Seq::new(s.num_advice, |c: int| Seq::new(rows, |r: int| Value::Unknown)),
            selectors: Seq::new(s.num_selectors, |q: int| Seq::new(rows, |r: int| false)),
            equality: s.equality,
            gates: s.gates,
            copies: seq![],
        }
    }

    pub open spec fn value(self, c: Column, r: int) -> Value {
        self.advice[c.index as int][r]
    }

    pub open spec fn enabled(self, q: Selector, r: int) -> bool {
        self.selectors[q.index as int][r]
    }

    pub open spec fn column_in_range(self, c: Column) -> bool {
        c.index < self.advice.len()
    }

    pub open spec fn selector_in_range(self, q: Selector) -> bool {
        q.index < self.selectors.len()
    }

    pub open spec fn cell_in_range(self, c: Cell) -> bool {
        self.column_in_range(c.column) && c.row < self.rows
    }

    /// The position lies in a row already taken by a region.
    pub open spec fn cell_placed(self, c: Cell) -> bool {
        self.column_in_range(c.column) && c.row < self.next_row
    }

    pub open spec fn open_to_copies(self, c: Column) -> bool {
        self.column_in_range(c) && self.equality[c.index as int]
    }

    pub open spec fn gate_in_range(self, g: SumGate) -> bool {
        &&& self.selector_in_range(g.q)
        &&& self.column_in_range(g.a)
        &&& self.column_in_range(g.b)
        &&& self.column_in_range(g.c)
    }

    /// The handle holds what the table holds at its position.
    pub open spec fn holds(self, a: AssignedCell) -> bool {
        self.cell_in_range(a.cell) && self.value(a.cell.column, a.cell.row as int) == a.value
    }

    pub open spec fn wf(self) -> bool {
        &&& self.next_row <= self.rows
        &&& self.rows <= usize::MAX
        &&& self.advice.len() == self.equality.len()
        &&& forall|c: int| 0 <= c < self.advice.len() ==> (#[trigger] self.advice[c]).len() == self.rows
        &&& forall|c: int, r: int|
            0 <= c < self.advice.len() && 0 <= r < self.rows ==> (#[trigger] self.advice[c][r]).wf()
        &&& forall|q: int| 0 <= q < self.selectors.len() ==> (#[trigger] self.selectors[q]).len() == self.rows
        &&& forall|i: int| 0 <= i < self.gates.len() ==> self.gate_in_range(#[trigger] self.gates[i])
        &&& forall|i: int|
            0 <= i < self.copies.len() ==> self.cell_placed((#[trigger] self.copies[i]).0)
                && self.cell_placed(self.copies[i].1)
        &&& forall|q: int, r: int|
            0 <= q < self.selectors.len() && self.next_row <= r < self.rows ==> !#[trigger] self.selectors[q][r]
    }

    pub open spec fn set_value(self, c: Column, r: int, v: Value) -> TableView {
        TableView {
            advice: self.advice.update(c.index as int, self.advice[c.index as int].update(r, v)),
            ..self
        }
    }

    pub open spec fn set_enabled(self, q: Selector, r: int) -> TableView {
        TableView {
            selectors: self.selectors.update(q.index as int, self.selectors[q.index as int].update(r, true)),
            ..self
        }
    }

    pub open spec fn add_copy(self, a: Cell, b: Cell) -> TableView {
        TableView { copies: self.copies.push((a, b)), ..self }
    }

    pub open spec fn take_row(self) -> TableView {
        TableView { next_row: self.next_row + 1, ..self }
    }

    /// Gate `g` holds on row `r`: its selector is off there, or its three
    /// values are known and it vanishes on them.
    pub open spec fn gate_holds(self, g: SumGate, r: int) -> bool {
        self.enabled(g.q, r) ==> {
            &&& self.value(g.a, r) is Known
            &&& self.value(g.b, r) is Known
            &&& self.value(g.c, r) is Known
            &&& gate_value(
                true,
                self.value(g.a, r)->Known_0.val(),
                self.value(g.b, r)->Known_0.val(),
                self.value(g.c, r)->Known_0.val(),
            ) == 0
        }
    }

    /// Both ends of the copy hold one known value.
    pub open spec fn copy_holds(self, a: Cell, b: Cell) -> bool {
        &&& self.value(a.column, a.row as int) is Known
        &&& self.value(a.column, a.row as int) == self.value(b.column, b.row as int)
    }

    /// Every gate holds on every row, and every equality copy holds.
    pub open spec fn satisfied(self) -> bool {
        &&& forall|i: int, r: int|
            0 <= i < self.gates.len() && 0 <= r < self.rows ==> #[trigger] self.gate_holds(self.gates[i], r)
        &&& forall|i: int| 0 <= i < self.copies.len() ==> self.copy_holds((#[trigger] self.copies[i]).0, self.copies[i].1)
    }
}

/// The evaluation table of one circuit instance: the committed values of
/// every column and row, the selectors, the gates, the equality copies, and
/// the next row free for a region.
pub struct Table {
    rows: usize,
    next_row: usize,
    advice: Vec<Vec<Value>>,
    selectors: Vec<Vec<bool>>,
    equality: Vec<bool>,
    gates: Vec<SumGate>,
    copies: Vec<(Cell, Cell)>,
}

impl View for Table {
    type V = TableView;

    closed spec fn view(&self) -> TableView {
        TableView {
            rows: self.rows as nat,
            next_row: self.next_row as nat,
            advice: self.advice@.map_values(|c: Vec<Value>| c@),
            selectors: self.selectors@.map_values(|q: Vec<bool>| q@),
            equality: self.equality@,
            gates: self.gates@,
            copies: self.copies@,
        }
    }
}

impl Table {
    pub fn rows(&self) -> (r: usize)
        ensures
            r == self@.rows,
    {
        self.rows
    }

    pub fn num_columns(&self) -> (r: usize)
        ensures
            r == self@.advice.len(),
    {
        self.advice.len()
    }

    pub fn num_selectors(&self) -> (r: usize)
        ensures
            r == self@.selectors.len(),
    {
        self.selectors.len()
    }

    /// Whether equality copies may touch the column.
    pub fn open_to_copies(&self, c: Column) -> (r: bool)
        requires
            self@.wf(),
        ensures
            r == self@.open_to_copies(c),
    {
        c.index < self.equality.len() && self.equality[c.index]
    }

    pub fn next_row(&self) -> (r: usize)
        ensures
            r == self@.next_row,
    {
        self.next_row
    }

    /// Writes one value. The caller vouches for the position.
    pub(crate) fn write(&mut self, c: Column, r: usize, v: Value)
        requires
            old(self)@.wf(),
            old(self)@.cell_in_range(Cell { column: c, row: r }),
            v.wf(),
        ensures
            final(self)@ == old(self)@.set_value(c, r as int, v),
            final(self)@.wf(),
    {
        let ghost before = self@;
        assert(before.advice[c.index as int] == self.advice@[c.index as int]@);
        self.advice[c.index].set(r, v);
        assert(self@.advice =~~= before.set_value(c, r as int, v).advice);
    }

    /// Commits a value and hands back its handle. The caller vouches for the
    /// position.
    pub(crate) fn assign_advice(&mut self, c: Column, r: usize, v: Value) -> (res: AssignedCell)
        requires
            old(self)@.wf(),
            old(self)@.cell_in_range(Cell { column: c, row: r }),
            v.wf(),
        ensures
            res == (AssignedCell { value: v, cell: Cell { column: c, row: r } }),
            final(self)@ == old(self)@.set_value(c, r as int, v),
            final(self)@.wf(),
    {
        self.write(c, r, v);
        AssignedCell { value: v, cell: Cell { column: c, row: r } }
    }

    /// Commits the value of `src` at a new position and binds the two
    /// positions by an equality copy. The caller vouches for the positions.
    pub(crate) fn copy_advice(&mut self, src: AssignedCell, c: Column, r: usize) -> (res: AssignedCell)
        requires
            old(self)@.wf(),
            old(self)@.cell_placed(src.cell),
            old(self)@.cell_placed(Cell { column: c, row: r }),
            src.value.wf(),
        ensures
            res == (AssignedCell { value: src.value, cell: Cell { column: c, row: r } }),
            final(self)@ == old(self)@.set_value(c, r as int, src.value).add_copy(src.cell, res.cell),
            final(self)@.wf(),
    {
        let res = self.assign_advice(c, r, src.value);
        self.constrain_equal(src.cell, res.cell);
        res
    }

    /// Switches a selector on for one row. The caller vouches for the position.
    pub(crate) fn enable(&mut self, q: Selector, r: usize)
        requires
            old(self)@.wf(),
            old(self)@.selector_in_range(q),
            r < old(self)@.next_row,
        ensures
            final(self)@ == old(self)@.set_enabled(q, r as int),
            final(self)@.wf(),
    {
        let ghost before = self@;
        assert(before.selectors[q.index as int] == self.selectors@[q.index as int]@);
        self.selectors[q.index].set(r, true);
        assert(self@.selectors =~~= before.set_enabled(q, r as int).selectors);
    }

    /// Records an equality copy between two positions.
    pub(crate) fn constrain_equal(&mut self, a: Cell, b: Cell)
        requires
            old(self)@.wf(),
            old(self)@.cell_placed(a),
            old(self)@.cell_placed(b),
        ensures
            final(self)@ == old(self)@.add_copy(a, b),
            final(self)@.wf(),
    {
        let ghost before = self@;
        self.copies.push((a, b));
        assert(self@ == before.add_copy(a, b));
        assert forall|i: int| 0 <= i < self@.copies.len() implies self@.cell_placed(
            (#[trigger] self@.copies[i]).0,
        ) && self@.cell_placed(self@.copies[i].1) by {
            if i < before.copies.len() {
                assert(self@.copies[i] == before.copies[i]);
            }
        }
    }

    /// Hands the next free row to a region.
    pub(crate) fn take_row(&mut self) -> (r: usize)
        requires
            old(self)@.wf(),
            old(self)@.next_row < old(self)@.rows,
        ensures
            r == old(self)@.next_row,
            final(self)@ == old(self)@.take_row(),
            final(self)@.wf(),
    {
        let ghost before = self@;
        let r = self.next_row;
        self.next_row = self.next_row + 1;
        assert(self@ == before.take_row());
        assert forall|i: int| 0 <= i < self@.copies.len() implies self@.cell_placed(
            (#[trigger] self@.copies[i]).0,
        ) && self@.cell_placed(self@.copies[i].1) by {
            assert(before.cell_placed(before.copies[i].0));
        }
        r
    }

    /// A table for the schema with `rows` rows.
    pub fn new(cs: &ConstraintSystem, rows: usize) -> (r: Table)
        requires
            cs@.wf(),
        ensures
            r@ == TableView::fresh(cs@, rows as nat),
            r@.wf(),
    {
        let ghost s = cs@;
        let ghost fresh = TableView::fresh(s, rows as nat);
        let mut advice: Vec<Vec<Value>> = Vec::new();
        let mut c: usize = 0;
        while c < cs.num_advice()
            invariant
                c <= s.num_advice,
                cs@ == s,
                fresh == TableView::fresh(s, rows as nat),
                advice@.len() == c,
                forall|k: int| 0 <= k < c ==> (#[trigger] advice@[k])@ == fresh.advice[k],
            decreases s.num_advice - c,
        {
            let mut column: Vec<Value> = Vec::new();
            let mut r: usize = 0;
            while r < rows
                invariant
                    r <= rows,
                    c < s.num_advice,
                    fresh == TableView::fresh(s, rows as nat),
                    column@.len() == r,
                    forall|k: int| 0 <= k < r ==> column@[k] == Value::Unknown,
                decreases rows - r,
            {
                column.push(Value::Unknown);
                r = r + 1;
            }
            assert(column@ =~= fresh.advice[c as int]);
            advice.push(column);
            c = c + 1;
        }
        let mut selectors: Vec<Vec<bool>> = Vec::new();
        let mut q: usize = 0;
        while q < cs.num_selectors()
            invariant
                q <= s.num_selectors,
                cs@ == s,
                fresh == TableView::fresh(s, rows as nat),
                selectors@.len() == q,
                forall|k: int| 0 <= k < q ==> (#[trigger] selectors@[k])@ == fresh.selectors[k],
            decreases s.num_selectors - q,
        {
            let mut flags: Vec<bool> = Vec::new();
            let mut r: usize = 0;
            while r < rows
                invariant
                    r <= rows,
                    q < s.num_selectors,
                    fresh == TableView::fresh(s, rows as nat),
                    flags@.len() == r,
                    forall|k: int| 0 <= k < r ==> flags@[k] == false,
                decreases rows - r,
            {
                flags.push(false);
                r = r + 1;
            }
            assert(flags@ =~= fresh.selectors[q as int]);
            selectors.push(flags);
            q = q + 1;
        }
        let mut equality: Vec<bool> = Vec::new();
        let mut e: usize = 0;
        while e < cs.num_advice()
            invariant
                e <= s.num_advice,
                cs@ == s,
                s.wf(),
                equality@ == s.equality.take(e as int),
            decreases s.num_advice - e,
        {
            let enabled = cs.equality_enabled(Column { index: e });
            equality.push(enabled);
            e = e + 1;
            assert(equality@ =~= s.equality.take(e as int));
        }
        assert(equality@ =~= s.equality);
        let gates = cs.gates().clone();
        let r = Table { rows, next_row: 0, advice, selectors, equality, gates, copies: Vec::new() };
        assert(r@.advice =~~= fresh.advice);
        assert(r@.selectors =~~= fresh.selectors);
        assert(r@.copies =~= fresh.copies);
        r
    }

    /// The value committed at a position, if the position lies in the table.
    pub fn value(&self, c: Column, r: usize) -> (res: Result<Value, Error>)
        requires
            self@.wf(),
        ensures
            self@.cell_in_range(Cell { column: c, row: r }) ==> res == Ok::<Value, Error>(self@.value(c, r as int)),
            !self@.cell_in_range(Cell { column: c, row: r }) ==> res == Err::<Value, Error>(Error::BoundsFailure),
    {
        if c.index < self.advice.len() && r < self.rows {
            assert(self@.advice[c.index as int] == self.advice@[c.index as int]@);
            Ok(self.advice[c.index][r])
        } else {
            Err(Error::BoundsFailure)
        }
    }

    /// Whether a selector is on at a row, if both lie in the table.
    pub fn is_enabled(&self, q: Selector, r: usize) -> (res: Result<bool, Error>)
        requires
            self@.wf(),
        ensures
            self@.selector_in_range(q) && r < self@.rows ==> res == Ok::<bool, Error>(self@.enabled(q, r as int)),
            !(self@.selector_in_range(q) && r < self@.rows) ==> res == Err::<bool, Error>(Error::BoundsFailure),
    {
        if q.index < self.selectors.len() && r < self.rows {
            assert(self@.selectors[q.index as int] == self.selectors@[q.index as int]@);
            Ok(self.selectors[q.index][r])
        } else {
            Err(Error::BoundsFailure)
        }
    }

    /// The equality copies recorded so far, in the order they were made.
    pub fn copies(&self) -> (r: &Vec<(Cell, Cell)>)
        ensures
            r@ == self@.copies,
    {
        &self.copies
    }

    /// Overwrites one committed value, as a dishonest prover could.
    pub fn set_value(&mut self, c: Column, r: usize, v: Value) -> (res: Result<(), Error>)
        requires
            old(self)@.wf(),
            v.wf(),
        ensures
            final(self)@.wf(),
            old(self)@.cell_in_range(Cell { column: c, row: r }) ==> res is Ok && final(self)@ == old(self)@.set_value(c, r as int, v),
            !old(self)@.cell_in_range(Cell { column: c, row: r }) ==> res == Err::<(), Error>(Error::BoundsFailure) && final(self)@ == old(self)@,
    {
        if c.index < self.advice.len() && r < self.rows {
            self.write(c, r, v);
            Ok(())
        } else {
            Err(Error::BoundsFailure)
        }
    }

    /// Whether gate `g` holds on row `r`.
    fn gate_holds_at(&self, g: SumGate, r: usize) -> (res: bool)
        requires
            self@.wf(),
            self@.gate_in_range(g),
            r < self@.rows,
        ensures
            res == self@.gate_holds(g, r as int),
    {
        assert(self@.selectors[g.q.index as int] == self.selectors@[g.q.index as int]@);
        assert(self@.advice[g.a.index as int] == self.advice@[g.a.index as int]@);
        assert(self@.advice[g.b.index as int] == self.advice@[g.b.index as int]@);
        assert(self@.advice[g.c.index as int] == self.advice@[g.c.index as int]@);
        if !self.selectors[g.q.index][r] {
            return true;
        }
        match (self.advice[g.a.index][r], self.advice[g.b.index][r], self.advice[g.c.index][r]) {
            (Value::Known(a), Value::Known(b), Value::Known(c)) => gate_residual(true, a, b, c).is_zero(),
            _ => false,
        }
    }

    /// Whether both ends of a copy hold one known value.
    fn copy_holds_at(&self, a: Cell, b: Cell) -> (res: bool)
        requires
            self@.wf(),
            self@.cell_in_range(a),
            self@.cell_in_range(b),
        ensures
            res == self@.copy_holds(a, b),
    {
        assert(self@.advice[a.column.index as int] == self.advice@[a.column.index as int]@);
        assert(self@.advice[b.column.index as int] == self.advice@[b.column.index as int]@);
        match (self.advice[a.column.index][a.row], self.advice[b.column.index][b.row]) {
            (Value::Known(x), Value::Known(y)) => {
                let same = x.equals(&y);
                proof {
                    if same {
                        x.lemma_val_injective(y);
                    }
                }
                same
            },
            _ => false,
        }
    }

    /// Whether the table satisfies every gate on every row and every
    /// equality copy.
    pub fn is_satisfied(&self) -> (res: bool)
        requires
            self@.wf(),
        ensures
            res == self@.satisfied(),
    {
        let mut i: usize = 0;
        while i < self.gates.len()
            invariant
                self@.wf(),
                i <= self@.gates.len(),
                forall|j: int, r: int|
                    0 <= j < i && 0 <= r < self@.rows ==> #[trigger] self@.gate_holds(self@.gates[j], r),
            decreases self@.gates.len() - i,
        {
            let g = self.gates[i];
            assert(self@.gate_in_range(self@.gates[i as int]));
            let mut r: usize = 0;
            while r < self.rows
                invariant
                    self@.wf(),
                    i < self@.gates.len(),
                    g == self@.gates[i as int],
                    self@.gate_in_range(g),
                    r <= self@.rows,
                    forall|j: int, k: int|
                        0 <= j < i && 0 <= k < self@.rows ==> #[trigger] self@.gate_holds(self@.gates[j], k),
                    forall|k: int| 0 <= k < r ==> #[trigger] self@.gate_holds(g, k),
                decreases self@.rows - r,
            {
                if !self.gate_holds_at(g, r) {
                    return false;
                }
                r = r + 1;
            }
            i = i + 1;
        }
        let mut k: usize = 0;
        while k < self.copies.len()
            invariant
                self@.wf(),
                k <= self@.copies.len(),
                forall|j: int, r: int|
                    0 <= j < self@.gates.len() && 0 <= r < self@.rows ==> #[trigger] self@.gate_holds(self@.gates[j], r),
                forall|j: int| 0 <= j < k ==> self@.copy_holds((#[trigger] self@.copies[j]).0, self@.copies[j].1),
            decreases self@.copies.len() - k,
        {
            let (a, b) = self.copies[k];
            assert(self@.cell_placed(self@.copies[k as int].0));
            if !self.copy_holds_at(a, b) {
                return false;
            }
            k = k + 1;
        }
        true
    }
}


/// A fresh table is satisfied: no selector is on and nothing is copied.
pub proof fn lemma_fresh_satisfied(s: SchemaView, rows: nat)
    requires
        s.wf(),
    ensures
        TableView::fresh(s, rows).satisfied(),
{
    let t = TableView::fresh(s, rows);
    assert forall|i: int, r: int| 0 <= i < t.gates.len() && 0 <= r < t.rows implies #[trigger] t.gate_holds(
        t.gates[i],
        r,
    ) by {
        assert(s.gate_in_range(s.gates[i]));
        assert(!t.enabled(t.gates[i].q, r));
    }
}

/// In a satisfied table, changing any one committed value of a row where a
/// gate is on, in one of that gate's three columns, breaks satisfaction.
pub proof fn lemma_tamper_detected(t: TableView, i: int, r: int, c: Column, v: Value)
    requires
        t.wf(),
        t.satisfied(),
        0 <= i < t.gates.len(),
        0 <= r < t.rows,
        t.enabled(t.gates[i].q, r),
        c == t.gates[i].a || c == t.gates[i].b || c == t.gates[i].c,
        t.gates[i].a != t.gates[i].b,
        t.gates[i].a != t.gates[i].c,
        t.gates[i].b != t.gates[i].c,
        v.wf(),
        v != t.value(c, r),
    ensures
        !t.set_value(c, r, v).satisfied(),
{
    let g = t.gates[i];
    let u = t.set_value(c, r, v);
    assert(t.gate_holds(g, r));
    assert(t.gate_in_range(g));
    if u.satisfied() {
        assert(u.gate_holds(u.gates[i], r));
        assert(u.enabled(g.q, r));
        let a0 = t.value(g.a, r)->Known_0;
        let b0 = t.value(g.b, r)->Known_0;
        let c0 = t.value(g.c, r)->Known_0;
        let a1 = u.value(g.a, r)->Known_0;
        let b1 = u.value(g.b, r)->Known_0;
        let c1 = u.value(g.c, r)->Known_0;
        assert(a0.wf() && b0.wf() && c0.wf());
        let w = v->Known_0;
        lemma_residue_unique(a0.val() + b0.val() - c0.val(), a1.val() + b1.val() - c1.val());
        if c == g.a {
            assert(w == a1);
            assert(w.val() == a0.val());
            w.lemma_val_injective(a0);
        } else if c == g.b {
            assert(w == b1);
            assert(w.val() == b0.val());
            w.lemma_val_injective(b0);
        } else {
            assert(w == c1);
            assert(w.val() == c0.val());
            w.lemma_val_injective(c0);
        }
    }
}

} // verus!
