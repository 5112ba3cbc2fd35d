//! A Fibonacci recurrence circuit: a constraint schema with one toggleable
//! gate `q * (a + b - c)`, and a witness assigner that fills one row per
//! region and carries values across regions through equality copies.
mod fibonacci;
mod field;
mod gate;
mod schema;
mod table;
mod value;

pub use fibonacci::{
    config_of, configured, lemma_assign_keeps_satisfied, lemma_configure_fresh,
    lemma_forged_handle_detected, lemma_init_keeps_satisfied, Config,
};
pub use field::{le_nat, lemma_le_nat_injective, modulus, Fe};
pub use gate::{gate_residual, gate_value, lemma_gate_soundness, lemma_gate_vacuity};
pub use schema::{Column, ConstraintSystem, SchemaView, Selector, SumGate};
pub use table::{
    lemma_fresh_satisfied, lemma_tamper_detected, AssignedCell, Cell, Error, Table, TableView,
};
pub use value::{num_add, Value};
