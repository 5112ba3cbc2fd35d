use vstd::prelude::*;

verus! {

/// A value slot: one advice column of the evaluation table.
#[derive(Clone, Copy, Debug, PartialEq, Eq)]
pub struct Column {
    pub index: usize,
}

/// A per-row boolean flag that switches a gate on.
#[derive(Clone, Copy, Debug, PartialEq, Eq)]
pub struct Selector {
    pub index: usize,
}

/// The constraint `q * (a + b - c)`: on every row where `q` is on, the value in
/// column `c` is the field sum of those in `a` and `b`.
#[derive(Clone, Copy, Debug, PartialEq, Eq)]
pub struct SumGate {
    pub q: Selector,
    pub a: Column,
    pub b: Column,
    pub c: Column,
}

/// The shape of a schema, as the contracts speak of it.
pub ghost struct SchemaView {
    pub num_advice: nat,
    pub num_selectors: nat,
    pub equality: Seq<bool>,
    pub gates: Seq<SumGate>,
}

impl SchemaView {
    pub open spec fn empty() -> SchemaView {
        SchemaView { num_advice: 0, num_selectors: 0, equality: seq![], gates: seq![] }
    }

    /// Its columns and selector are declared in this schema.
    pub open spec fn gate_in_range(self, g: SumGate) -> bool {
        &&& g.q.index < self.num_selectors
        &&& g.a.index < self.num_advice
        &&& g.b.index < self.num_advice
        &&& g.c.index < self.num_advice
    }

    pub open spec fn wf(self) -> bool {
        &&& self.equality.len() == self.num_advice
        &&& forall|i: int| 0 <= i < self.gates.len() ==> self.gate_in_range(#[trigger] self.gates[i])
    }
}

/// Collects the columns, selectors and gates of a circuit.
pub struct ConstraintSystem {
    num_advice: usize,
    num_selectors: usize,
    equality: Vec<bool>,
    gates: Vec<SumGate>,
}

impl View for ConstraintSystem {
    type V = SchemaView;

    closed spec fn view(&self) -> SchemaView {
        SchemaView {
            num_advice: self.num_advice as nat,
            num_selectors: self.num_selectors as nat,
            equality: self.equality@,
            gates: self.gates@,
        }
    }
}

impl ConstraintSystem {
    /// An empty schema.
    pub fn new() -> (r: ConstraintSystem)
        ensures
            r@ == SchemaView::empty(),
            r@.wf(),
    {
        let r = ConstraintSystem { num_advice: 0, num_selectors: 0, equality: Vec::new(), gates: Vec::new() };
        assert(r@.equality =~= seq![]);
        assert(r@.gates =~= seq![]);
        r
    }

    pub fn num_advice(&self) -> (r: usize)
        ensures
            r == self@.num_advice,
    {
        self.num_advice
    }

    pub fn num_selectors(&self) -> (r: usize)
        ensures
            r == self@.num_selectors,
    {
        self.num_selectors
    }

    /// Whether equality copies may touch the column.
    pub fn equality_enabled(&self, c: Column) -> (r: bool)
        requires
            self@.wf(),
        ensures
            r == (c.index < self@.num_advice && self@.equality[c.index as int]),
    {
        c.index < self.num_advice && self.equality[c.index]
    }

    pub fn gates(&self) -> (r: &Vec<SumGate>)
        ensures
            r@ == self@.gates,
    {
        &self.gates
    }

    /// Declares a new advice column, not yet open to equality copies.
    pub fn advice_column(&mut self) -> (r: Column)
        requires
            old(self)@.wf(),
            old(self)@.num_advice < usize::MAX,
        ensures
            r.index == old(self)@.num_advice,
            final(self)@ == (SchemaView {
                num_advice: old(self)@.num_advice + 1,
                equality: old(self)@.equality.push(false),
                ..old(self)@
            }),
            final(self)@.wf(),
    {
        let r = Column { index: self.num_advice };
        self.num_advice = self.num_advice + 1;
        self.equality.push(false);
        r
    }

    /// Opens a declared column to equality copies.
    pub fn enable_equality(&mut self, c: Column)
        requires
            old(self)@.wf(),
            c.index < old(self)@.num_advice,
        ensures
            final(self)@ == (SchemaView {
                equality: old(self)@.equality.update(c.index as int, true),
                ..old(self)@
            }),
            final(self)@.wf(),
    {
        self.equality.set(c.index, true);
    }

    /// Declares a new selector.
    pub fn selector(&mut self) -> (r: Selector)
        requires
            old(self)@.wf(),
            old(self)@.num_selectors < usize::MAX,
        ensures
            r.index == old(self)@.num_selectors,
            final(self)@ == (SchemaView { num_selectors: old(self)@.num_selectors + 1, ..old(self)@ }),
            final(self)@.wf(),
    {
        let r = Selector { index: self.num_selectors };
        self.num_selectors = self.num_selectors + 1;
        r
    }

    /// Registers a gate over declared columns and selector.
    pub fn create_gate(&mut self, g: SumGate)
        requires
            old(self)@.wf(),
            old(self)@.gate_in_range(g),
        ensures
            final(self)@ == (SchemaView { gates: old(self)@.gates.push(g), ..old(self)@ }),
            final(self)@.wf(),
    {
        self.gates.push(g);
    }
}

} // verus!
