use fib_circuit::{
    gate_residual, AssignedCell, Cell, Column, Config, ConstraintSystem, Error, Fe, Selector, Table, Value,
};

fn fe(n: u64) -> Fe {
    Fe::from_u64(n)
}

fn known(n: u64) -> Value {
    Value::known(fe(n))
}

fn setup(rows: usize) -> (Config, Table) {
    let mut cs = ConstraintSystem::new();
    let config = Config::configure(&mut cs);
    let table = Table::new(&cs, rows);
    (config, table)
}

fn row_values(config: &Config, table: &Table, row: usize) -> (Value, Value, Value) {
    (
        table.value(config.elem_1, row).unwrap(),
        table.value(config.elem_2, row).unwrap(),
        table.value(config.elem_3, row).unwrap(),
    )
}

#[test]
fn test_fib() {
    let (config, mut table) = setup(1 << 3);
    let (elem_2, elem_3) = config.init(&mut table, Value::known(Fe::one()), Value::known(Fe::one())).unwrap();
    config.assign(&mut table, elem_2, elem_3).unwrap();
    assert!(table.is_satisfied());
}

#[test]
fn field_add_and_sub() {
    assert_eq!(fe(2).add(fe(3)), fe(5));
    assert!(fe(2).add(fe(3)).equals(&fe(5)));
    assert!(!fe(2).add(fe(3)).equals(&fe(2)));
    assert_eq!(fe(7).sub(fe(3)), fe(4));
    let minus_one = Fe::zero().sub(Fe::one());
    assert!(!minus_one.is_zero());
    assert!(minus_one.add(Fe::one()).is_zero());
    assert_eq!(Fe::one(), fe(1));
    assert!(Fe::zero().is_zero());
}

#[test]
fn value_add_lifts_unknown() {
    assert_eq!(known(1).add(known(2)), known(3));
    assert_eq!(known(1).add(Value::unknown()), Value::Unknown);
    assert_eq!(Value::unknown().add(known(1)), Value::Unknown);
    assert!(known(1).is_known());
    assert!(!Value::unknown().is_known());
}

#[test]
fn gate_vanishes_exactly_on_sums() {
    assert!(gate_residual(true, fe(1), fe(1), fe(2)).is_zero());
    assert!(gate_residual(true, fe(2), fe(3), fe(5)).is_zero());
    assert!(!gate_residual(true, fe(1), fe(1), fe(3)).is_zero());
    assert_eq!(gate_residual(true, fe(1), fe(1), fe(3)), Fe::zero().sub(Fe::one()));
    let minus_one = Fe::zero().sub(Fe::one());
    assert!(gate_residual(true, minus_one, fe(1), Fe::zero()).is_zero());
    assert!(!gate_residual(true, minus_one, fe(1), fe(1)).is_zero());
}

#[test]
fn gate_off_imposes_nothing() {
    assert!(gate_residual(false, fe(1), fe(1), fe(3)).is_zero());
    assert!(gate_residual(false, fe(0), fe(9), fe(4)).is_zero());
}

#[test]
fn init_commits_seeds_and_sum() {
    let (config, mut table) = setup(8);
    let (c2, c3) = config.init(&mut table, known(1), known(1)).unwrap();
    assert_eq!(row_values(&config, &table, 0), (known(1), known(1), known(2)));
    assert_eq!(table.is_enabled(config.q_fib, 0), Ok(true));
    assert_eq!(table.is_enabled(config.q_fib, 1), Ok(false));
    assert_eq!(c2, AssignedCell { value: known(1), cell: Cell { column: config.elem_2, row: 0 } });
    assert_eq!(c3, AssignedCell { value: known(2), cell: Cell { column: config.elem_3, row: 0 } });
    assert_eq!(table.next_row(), 1);
    assert!(table.is_satisfied());
}

#[test]
fn steady_state_steps_chain() {
    let (config, mut table) = setup(8);
    let (c2, c3) = config.init(&mut table, known(1), known(1)).unwrap();
    let (d2, d3) = config.assign(&mut table, c2, c3).unwrap();
    assert_eq!(row_values(&config, &table, 1), (known(1), known(2), known(3)));
    assert_eq!(d2.value, known(2));
    assert_eq!(d3.value, known(3));
    let (e2, e3) = config.assign(&mut table, d2, d3).unwrap();
    assert_eq!(row_values(&config, &table, 2), (known(2), known(3), known(5)));
    assert_eq!(e2.value, known(3));
    assert_eq!(e3.value, known(5));
    assert_eq!(table.is_enabled(config.q_fib, 2), Ok(true));
    assert!(table.is_satisfied());
}

#[test]
fn steady_state_copies_previous_outputs() {
    let (config, mut table) = setup(8);
    let (c2, c3) = config.init(&mut table, known(1), known(1)).unwrap();
    config.assign(&mut table, c2, c3).unwrap();
    let e1 = Cell { column: config.elem_1, row: 1 };
    let e2 = Cell { column: config.elem_2, row: 1 };
    assert_eq!(table.copies().clone(), vec![(c2.cell, e1), (c3.cell, e2)]);
    assert_eq!(table.value(e1.column, e1.row), Ok(c2.value));
    assert_eq!(table.value(e2.column, e2.row), Ok(c3.value));
}

#[test]
fn forged_handle_fails_copy_check() {
    let (config, mut table) = setup(8);
    let (c2, c3) = config.init(&mut table, known(1), known(1)).unwrap();
    let forged = AssignedCell { value: known(7), cell: c2.cell };
    config.assign(&mut table, forged, c3).unwrap();
    assert_eq!(row_values(&config, &table, 1), (known(7), known(2), known(9)));
    assert!(!table.is_satisfied());
}

#[test]
fn end_to_end_and_tampering() {
    let (config, mut table) = setup(8);
    let (c2, c3) = config.init(&mut table, known(1), known(1)).unwrap();
    config.assign(&mut table, c2, c3).unwrap();
    assert!(table.is_satisfied());
    table.set_value(config.elem_3, 1, known(4)).unwrap();
    assert!(!table.is_satisfied());
    table.set_value(config.elem_3, 1, known(3)).unwrap();
    assert!(table.is_satisfied());
    table.set_value(config.elem_1, 0, known(2)).unwrap();
    assert!(!table.is_satisfied());
}

#[test]
fn unused_rows_need_no_witness() {
    let (config, mut table) = setup(8);
    let (c2, c3) = config.init(&mut table, known(1), known(1)).unwrap();
    config.assign(&mut table, c2, c3).unwrap();
    table.set_value(config.elem_3, 5, known(100)).unwrap();
    assert!(table.is_satisfied());
}

#[test]
fn configure_twice_gives_identical_schemas() {
    let mut cs1 = ConstraintSystem::new();
    let mut cs2 = ConstraintSystem::new();
    let a = Config::configure(&mut cs1);
    let b = Config::configure(&mut cs2);
    assert_eq!(a, b);
    assert_eq!(a.elem_1, Column { index: 0 });
    assert_eq!(a.elem_2, Column { index: 1 });
    assert_eq!(a.elem_3, Column { index: 2 });
    assert_eq!(a.q_fib, Selector { index: 0 });
    assert_eq!(cs1.num_advice(), 3);
    assert_eq!(cs1.num_selectors(), 1);
    assert_eq!(cs1.gates().clone(), cs2.gates().clone());
    assert!(cs1.equality_enabled(a.elem_1) && cs1.equality_enabled(a.elem_3));
    let mut t1 = Table::new(&cs1, 4);
    let t2 = Table::new(&cs2, 4);
    a.init(&mut t1, known(1), known(1)).unwrap();
    assert_eq!(t1.next_row(), 1);
    assert_eq!(t2.next_row(), 0);
}

#[test]
fn unknown_seeds_commit_unknowns() {
    let (config, mut table) = setup(8);
    let (c2, c3) = config.init(&mut table, Value::unknown(), known(1)).unwrap();
    assert_eq!(c2.value, known(1));
    assert_eq!(c3.value, Value::Unknown);
    assert_eq!(row_values(&config, &table, 0), (Value::Unknown, known(1), Value::Unknown));
    assert!(!table.is_satisfied());
}

#[test]
fn full_table_reports_no_rows() {
    let (config, mut table) = setup(1);
    let (c2, c3) = config.init(&mut table, known(1), known(1)).unwrap();
    assert_eq!(config.assign(&mut table, c2, c3), Err(Error::NotEnoughRowsAvailable));
    assert_eq!(config.init(&mut table, known(1), known(1)), Err(Error::NotEnoughRowsAvailable));
    assert_eq!(table.next_row(), 1);
}

#[test]
fn foreign_config_is_out_of_bounds() {
    let (config, _) = setup(4);
    let empty = ConstraintSystem::new();
    let mut table = Table::new(&empty, 4);
    assert_eq!(config.init(&mut table, known(1), known(1)), Err(Error::BoundsFailure));
    assert_eq!(table.value(config.elem_1, 0), Err(Error::BoundsFailure));
    assert_eq!(table.set_value(config.elem_1, 0, known(1)), Err(Error::BoundsFailure));
}

#[test]
fn handle_to_unplaced_row_is_out_of_bounds() {
    let (config, mut table) = setup(4);
    let (c2, c3) = config.init(&mut table, known(1), known(1)).unwrap();
    let ahead = AssignedCell { value: c2.value, cell: Cell { column: config.elem_2, row: 2 } };
    assert_eq!(config.assign(&mut table, ahead, c3), Err(Error::BoundsFailure));
    assert_eq!(table.next_row(), 1);
}

#[test]
fn closed_columns_refuse_copies() {
    let mut cs = ConstraintSystem::new();
    let elem_1 = cs.advice_column();
    let elem_2 = cs.advice_column();
    let elem_3 = cs.advice_column();
    let q_fib = cs.selector();
    let config = Config { elem_1, elem_2, elem_3, q_fib };
    let mut table = Table::new(&cs, 4);
    let (c2, c3) = config.init(&mut table, known(1), known(1)).unwrap();
    assert_eq!(config.assign(&mut table, c2, c3), Err(Error::ColumnNotInPermutation));
    assert_eq!(table.copies().len(), 0);
}

#[test]
fn long_chain_follows_the_sequence() {
    let (config, mut table) = setup(6);
    let (mut c2, mut c3) = config.init(&mut table, known(1), known(1)).unwrap();
    for _ in 0..5 {
        let (n2, n3) = config.assign(&mut table, c2, c3).unwrap();
        c2 = n2;
        c3 = n3;
    }
    let expected = [1u64, 1, 2, 3, 5, 8, 13, 21];
    for row in 0..6 {
        assert_eq!(
            row_values(&config, &table, row),
            (known(expected[row]), known(expected[row + 1]), known(expected[row + 2]))
        );
    }
    assert_eq!(c3.value, known(21));
    assert!(table.is_satisfied());
    assert_eq!(config.assign(&mut table, c2, c3), Err(Error::NotEnoughRowsAvailable));
}

#[test]
fn empty_table_has_no_room() {
    let (config, mut table) = setup(0);
    assert_eq!(config.init(&mut table, known(1), known(1)), Err(Error::NotEnoughRowsAvailable));
    assert!(table.is_satisfied());
}
