use vstd::prelude::*;
use crate::schema::{Column, ConstraintSystem, SchemaView, Selector, SumGate};
use crate::table::{AssignedCell, Cell, Error, Table, TableView};
use crate::gate::lemma_gate_soundness;
use crate::value::{num_add, Value};

verus! {

/// The three value slots and the selector of the Fibonacci gate.
#[derive(Clone, Copy, Debug, PartialEq, Eq)]
pub struct Config {
    pub elem_1: Column,
    pub elem_2: Column,
    pub elem_3: Column,
    pub q_fib: Selector,
}

/// The configuration that `Config::configure` hands out on a schema of this
/// shape: the next three columns and the next selector.
pub open spec fn config_of(v: SchemaView) -> Config {
    Config {
        elem_1: Column { index: v.num_advice as usize },
        elem_2: Column { index: (v.num_advice + 1) as usize },
        elem_3: Column { index: (v.num_advice + 2) as usize },
        q_fib: Selector { index: v.num_selectors as usize },
    }
}

/// The schema after `Config::configure`: three more columns, each open to
/// equality copies, one more selector, and the Fibonacci gate.
pub open spec fn configured(v: SchemaView) -> SchemaView {
    SchemaView {
        num_advice: v.num_advice + 3,
        num_selectors: v.num_selectors + 1,
        equality: v.equality + seq![true, true, true],
        gates: v.gates.push(config_of(v).gate()),
    }
}

impl Config {
    /// The constraint `q_fib * (elem_1 + elem_2 - elem_3)`.
    pub open spec fn gate(self) -> SumGate {
        SumGate { q: self.q_fib, a: self.elem_1, b: self.elem_2, c: self.elem_3 }
    }

    /// The slots and the selector lie in the table.
    pub open spec fn fits(self, t: TableView) -> bool {
        &&& t.selector_in_range(self.q_fib)
        &&& t.column_in_range(self.elem_1)
        &&& t.column_in_range(self.elem_2)
        &&& t.column_in_range(self.elem_3)
    }

    /// Every gate of the table switched by this selector is this gate.
    pub open spec fn registered(self, t: TableView) -> bool {
        forall|i: int| 0 <= i < t.gates.len() && (#[trigger] t.gates[i]).q == self.q_fib ==> t.gates[i] == self.gate()
    }

    /// The three slots are three different columns.
    pub open spec fn distinct(self) -> bool {
        &&& self.elem_1 != self.elem_2
        &&& self.elem_1 != self.elem_3
        &&& self.elem_2 != self.elem_3
    }

    /// Why the first region cannot be placed, if it cannot.
    pub open spec fn init_error(self, t: TableView) -> Option<Error> {
        if !self.fits(t) {
            Some(Error::BoundsFailure)
        } else if t.next_row >= t.rows {
            Some(Error::NotEnoughRowsAvailable)
        } else {
            None
        }
    }

    /// The table after the first region: the next row taken, the selector
    /// on there, and the three values committed.
    pub open spec fn init_region(self, t: TableView, a: Value, b: Value, c: Value) -> TableView {
        let r = t.next_row as int;
        t.take_row().set_enabled(self.q_fib, r).set_value(self.elem_1, r, a).set_value(
            self.elem_2,
            r,
            b,
        ).set_value(self.elem_3, r, c)
    }

    /// Why a later region cannot be placed after the handles `p2` and `p3`,
    /// if it cannot.
    pub open spec fn assign_error(self, t: TableView, p2: AssignedCell, p3: AssignedCell) -> Option<Error> {
        if !self.fits(t) || !t.cell_placed(p2.cell) || !t.cell_placed(p3.cell) {
            Some(Error::BoundsFailure)
        } else if t.next_row >= t.rows {
            Some(Error::NotEnoughRowsAvailable)
        } else if !t.open_to_copies(p2.cell.column) || !t.open_to_copies(p3.cell.column)
            || !t.open_to_copies(self.elem_1) || !t.open_to_copies(self.elem_2) {
            Some(Error::ColumnNotInPermutation)
        } else {
            None
        }
    }

    /// The table after a later region: the next row taken, the selector on
    /// there, `p2` copied into `elem_1`, `p3` copied into `elem_2`, and `c`
    /// committed in `elem_3`.
    pub open spec fn assign_region(self, t: TableView, p2: AssignedCell, p3: AssignedCell, c: Value) -> TableView {
        let r = t.next_row as int;
        let e1 = Cell { column: self.elem_1, row: r as usize };
        let e2 = Cell { column: self.elem_2, row: r as usize };
        t.take_row().set_enabled(self.q_fib, r).set_value(self.elem_1, r, p2.value).add_copy(
            p2.cell,
            e1,
        ).set_value(self.elem_2, r, p3.value).add_copy(p3.cell, e2).set_value(self.elem_3, r, c)
    }

    /// Places the first region: commits the two seeds and their sum on the
    /// next free row with the selector on, and hands back the handles of
    /// the second seed and of the sum.
    pub fn init(&self, t: &mut Table, elem_1: Value, elem_2: Value) -> (res: Result<
        (AssignedCell, AssignedCell),
        Error,
    >)
        requires
            old(t)@.wf(),
            elem_1.wf(),
            elem_2.wf(),
        ensures
            final(t)@.wf(),
            match res {
                Err(e) => self.init_error(old(t)@) == Some(e) && final(t)@ == old(t)@,
                Ok((c2, c3)) => {
                    &&& self.init_error(old(t)@) is None
                    &&& c2 == (AssignedCell {
                        value: elem_2,
                        cell: Cell { column: self.elem_2, row: old(t)@.next_row as usize },
                    })
                    &&& c3.cell == (Cell { column: self.elem_3, row: old(t)@.next_row as usize })
                    &&& c3.value.wf()
                    &&& c3.value.num() == num_add(elem_1.num(), elem_2.num())
                    &&& final(t)@ == self.init_region(old(t)@, elem_1, elem_2, c3.value)
                },
            },
    {
        if !(self.q_fib.index < t.num_selectors() && self.elem_1.index < t.num_columns()
            && self.elem_2.index < t.num_columns() && self.elem_3.index < t.num_columns()) {
            return Err(Error::BoundsFailure);
        }
        if t.next_row() >= t.rows() {
            return Err(Error::NotEnoughRowsAvailable);
        }
        let offset = t.take_row();
        t.enable(self.q_fib, offset);
        t.assign_advice(self.elem_1, offset, elem_1);
        let elem_2 = t.assign_advice(self.elem_2, offset, elem_2);
        let elem_3 = elem_1.add(elem_2.value);
        let elem_3 = t.assign_advice(self.elem_3, offset, elem_3);
        Ok((elem_2, elem_3))
    }

    /// Places a later region: copies the previous region's `elem_2` and
    /// `elem_3` into this region's `elem_1` and `elem_2` under equality
    /// copies, commits their sum in `elem_3` with the selector on, and hands
    /// back the handles of the new `elem_2` and `elem_3`.
    pub fn assign(&self, t: &mut Table, elem_2: AssignedCell, elem_3: AssignedCell) -> (res: Result<
        (AssignedCell, AssignedCell),
        Error,
    >)
        requires
            old(t)@.wf(),
            elem_2.value.wf(),
            elem_3.value.wf(),
        ensures
            final(t)@.wf(),
            match res {
                Err(e) => self.assign_error(old(t)@, elem_2, elem_3) == Some(e) && final(t)@ == old(t)@,
                Ok((c2, c3)) => {
                    &&& self.assign_error(old(t)@, elem_2, elem_3) is None
                    &&& c2 == (AssignedCell {
                        value: elem_3.value,
                        cell: Cell { column: self.elem_2, row: old(t)@.next_row as usize },
                    })
                    &&& c3.cell == (Cell { column: self.elem_3, row: old(t)@.next_row as usize })
                    &&& c3.value.wf()
                    &&& c3.value.num() == num_add(elem_2.value.num(), elem_3.value.num())
                    &&& final(t)@ == self.assign_region(old(t)@, elem_2, elem_3, c3.value)
                },
            },
    {
        let n = t.num_columns();
        if !(self.q_fib.index < t.num_selectors() && self.elem_1.index < n && self.elem_2.index < n
            && self.elem_3.index < n && elem_2.cell.column.index < n && elem_2.cell.row < t.next_row()
            && elem_3.cell.column.index < n && elem_3.cell.row < t.next_row()) {
            return Err(Error::BoundsFailure);
        }
        if t.next_row() >= t.rows() {
            return Err(Error::NotEnoughRowsAvailable);
        }
        if !(t.open_to_copies(elem_2.cell.column) && t.open_to_copies(elem_3.cell.column)
            && t.open_to_copies(self.elem_1) && t.open_to_copies(self.elem_2)) {
            return Err(Error::ColumnNotInPermutation);
        }
        let offset = t.take_row();
        t.enable(self.q_fib, offset);
        let elem_1 = t.copy_advice(elem_2, self.elem_1, offset);
        let elem_2 = t.copy_advice(elem_3, self.elem_2, offset);
        let elem_3 = elem_1.value.add(elem_2.value);
        let elem_3 = t.assign_advice(self.elem_3, offset, elem_3);
        Ok((elem_2, elem_3))
    }

    /// Declares the three value slots, opens each to equality copies,
    /// declares the selector and registers the sum constraint over them.
    pub fn configure(cs: &mut ConstraintSystem) -> (r: Config)
        requires
            old(cs)@.wf(),
            old(cs)@.num_advice + 3 <= usize::MAX,
            old(cs)@.num_selectors < usize::MAX,
        ensures
            r == config_of(old(cs)@),
            final(cs)@ == configured(old(cs)@),
            final(cs)@.wf(),
    {
        let ghost v = cs@;
        let elem_1 = cs.advice_column();
        cs.enable_equality(elem_1);
        let elem_2 = cs.advice_column();
        cs.enable_equality(elem_2);
        let elem_3 = cs.advice_column();
        cs.enable_equality(elem_3);
        let q_fib = cs.selector();
        let r = Config { elem_1, elem_2, elem_3, q_fib };
        cs.create_gate(SumGate { q: q_fib, a: elem_1, b: elem_2, c: elem_3 });
        assert(cs@.equality =~= v.equality + seq![true, true, true]);
        r
    }
}

/// Configuring two fresh schemas gives the same configuration and the same
/// schema: nothing is shared between instances.
pub proof fn lemma_configure_fresh(v1: SchemaView, v2: SchemaView)
    requires
        v1 == SchemaView::empty(),
        v2 == SchemaView::empty(),
    ensures
        config_of(v1) == config_of(v2),
        configured(v1) == configured(v2),
        config_of(v1) == (Config {
            elem_1: Column { index: 0 },
            elem_2: Column { index: 1 },
            elem_3: Column { index: 2 },
            q_fib: Selector { index: 0 },
        }),
        configured(v1).equality == seq![true, true, true],
        configured(v1).gates == seq![config_of(v1).gate()],
{
    assert(configured(v1).equality =~= seq![true, true, true]);
    assert(configured(v1).gates =~= seq![config_of(v1).gate()]);
}

/// Placing the first region with known seeds and their sum keeps a
/// satisfied table satisfied.
pub proof fn lemma_init_keeps_satisfied(cfg: Config, t: TableView, a: Value, b: Value, c: Value)
    requires
        t.wf(),
        t.satisfied(),
        cfg.init_error(t) is None,
        cfg.registered(t),
        cfg.distinct(),
        a is Known,
        b is Known,
        a.wf(),
        b.wf(),
        c.wf(),
        c.num() == num_add(a.num(), b.num()),
    ensures
        cfg.init_region(t, a, b, c).satisfied(),
{
    let u = cfg.init_region(t, a, b, c);
    let row = t.next_row as int;
    assert forall|i: int, r: int| 0 <= i < u.gates.len() && 0 <= r < u.rows implies #[trigger] u.gate_holds(
        u.gates[i],
        r,
    ) by {
        let g = u.gates[i];
        assert(t.gate_in_range(g));
        if r != row {
            assert(t.gate_holds(t.gates[i], r));
        } else if g.q != cfg.q_fib {
            assert(!t.selectors[g.q.index as int][r]);
        } else {
            assert(g == cfg.gate());
            lemma_gate_soundness(a->Known_0, b->Known_0, c->Known_0);
        }
    }
    assert forall|k: int| 0 <= k < u.copies.len() implies u.copy_holds(
        (#[trigger] u.copies[k]).0,
        u.copies[k].1,
    ) by {
        assert(t.copy_holds(t.copies[k].0, t.copies[k].1));
        assert(t.cell_placed(t.copies[k].0) && t.cell_placed(t.copies[k].1));
    }
}

/// Placing a later region after handles that hold what the table holds,
/// with their sum, keeps a satisfied table satisfied.
pub proof fn lemma_assign_keeps_satisfied(
    cfg: Config,
    t: TableView,
    p2: AssignedCell,
    p3: AssignedCell,
    c: Value,
)
    requires
        t.wf(),
        t.satisfied(),
        cfg.assign_error(t, p2, p3) is None,
        cfg.registered(t),
        cfg.distinct(),
        t.holds(p2),
        t.holds(p3),
        p2.value is Known,
        p3.value is Known,
        c.wf(),
        c.num() == num_add(p2.value.num(), p3.value.num()),
    ensures
        cfg.assign_region(t, p2, p3, c).satisfied(),
{
    let u = cfg.assign_region(t, p2, p3, c);
    let row = t.next_row as int;
    assert(p2.value.wf() && p3.value.wf());
    assert forall|i: int, r: int| 0 <= i < u.gates.len() && 0 <= r < u.rows implies #[trigger] u.gate_holds(
        u.gates[i],
        r,
    ) by {
        let g = u.gates[i];
        assert(t.gate_in_range(g));
        if r != row {
            assert(t.gate_holds(t.gates[i], r));
        } else if g.q != cfg.q_fib {
            assert(!t.selectors[g.q.index as int][r]);
        } else {
            assert(g == cfg.gate());
            lemma_gate_soundness(p2.value->Known_0, p3.value->Known_0, c->Known_0);
        }
    }
    let n = t.copies.len() as int;
    assert forall|k: int| 0 <= k < u.copies.len() implies u.copy_holds(
        (#[trigger] u.copies[k]).0,
        u.copies[k].1,
    ) by {
        if k < n {
            assert(u.copies[k] == t.copies[k]);
            assert(t.copy_holds(t.copies[k].0, t.copies[k].1));
            assert(t.cell_placed(t.copies[k].0) && t.cell_placed(t.copies[k].1));
        }
    }
}

/// A later region that is handed a handle whose value is not what the table
/// holds at the handle's position leaves the table unsatisfied: the
/// equality copy catches the forged value, whatever the sum.
pub proof fn lemma_forged_handle_detected(
    cfg: Config,
    t: TableView,
    p2: AssignedCell,
    p3: AssignedCell,
    c: Value,
)
    requires
        t.wf(),
        cfg.assign_error(t, p2, p3) is None,
        cfg.distinct(),
        t.value(p2.cell.column, p2.cell.row as int) != p2.value || t.value(p3.cell.column, p3.cell.row as int)
            != p3.value,
    ensures
        !cfg.assign_region(t, p2, p3, c).satisfied(),
{
    let u = cfg.assign_region(t, p2, p3, c);
    let n = t.copies.len() as int;
    let row = t.next_row as int;
    assert(t.column_in_range(p2.cell.column) && t.column_in_range(p3.cell.column));
    assert(p2.cell.row != row && p3.cell.row != row);
    assert(u.value(p2.cell.column, p2.cell.row as int) == t.value(p2.cell.column, p2.cell.row as int));
    assert(u.value(p3.cell.column, p3.cell.row as int) == t.value(p3.cell.column, p3.cell.row as int));
    assert(u.value(cfg.elem_1, row) == p2.value);
    assert(u.value(cfg.elem_2, row) == p3.value);
    if t.value(p2.cell.column, p2.cell.row as int) != p2.value {
        assert(u.copies[n] == (p2.cell, Cell { column: cfg.elem_1, row: t.next_row as usize }));
        assert(!u.copy_holds(u.copies[n].0, u.copies[n].1));
    } else {
        assert(u.copies[n + 1] == (p3.cell, Cell { column: cfg.elem_2, row: t.next_row as usize }));
        assert(!u.copy_holds(u.copies[n + 1].0, u.copies[n + 1].1));
    }
}

} // verus!
