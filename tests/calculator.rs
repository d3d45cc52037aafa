use rusty_calculator::calc::{HistoryRow, RustyCalculator};
use rusty_calculator::command::{command_of, Command};
use rusty_calculator::error::CalculationError;
use rusty_calculator::operation::{
    check_domain, checked_value, guard_of, Operation, Sign, ValueFacts,
};

fn sign_of(x: f64) -> Sign {
    if x < 0.0 {
        Sign::Negative
    } else if x == 0.0 {
        Sign::Zero
    } else if x > 0.0 {
        Sign::Positive
    } else {
        Sign::Unordered
    }
}

fn facts_of(x: f64) -> ValueFacts {
    let magnitude = if x.abs() > 0.0 { x.abs().log10().floor() as i32 } else { 0 };
    ValueFacts { finite: x.is_finite(), magnitude, beyond_half_max: x.abs() > f64::MAX / 2.0 }
}

fn unary(c: &mut RustyCalculator<f64>, op: Operation, f: fn(f64) -> f64) -> Result<(), CalculationError> {
    let prev = c.result();
    let candidate = f(prev);
    c.apply_op(op, guard_of(op, Sign::Zero, sign_of(prev)), candidate, facts_of(candidate))
}

fn binary(
    c: &mut RustyCalculator<f64>,
    op: Operation,
    operand: f64,
    f: fn(f64, f64) -> f64,
) -> Result<(), CalculationError> {
    let prev = c.result();
    let candidate = f(prev, operand);
    c.apply_op(op, guard_of(op, sign_of(operand), sign_of(prev)), candidate, facts_of(candidate))
}

fn add(c: &mut RustyCalculator<f64>, v: f64) -> Result<(), CalculationError> {
    binary(c, Operation::Add, v, |a, b| a + b)
}

fn subtract(c: &mut RustyCalculator<f64>, v: f64) -> Result<(), CalculationError> {
    binary(c, Operation::Subtract, v, |a, b| a - b)
}

fn multiply(c: &mut RustyCalculator<f64>, v: f64) -> Result<(), CalculationError> {
    binary(c, Operation::Multiply, v, |a, b| a * b)
}

fn divide(c: &mut RustyCalculator<f64>, v: f64) -> Result<(), CalculationError> {
    binary(c, Operation::Divide, v, |a, b| a / b)
}

fn power(c: &mut RustyCalculator<f64>, v: f64) -> Result<(), CalculationError> {
    binary(c, Operation::Power, v, |a, b| a.powf(b))
}

fn square(c: &mut RustyCalculator<f64>) -> Result<(), CalculationError> {
    unary(c, Operation::Square, |a| a * a)
}

fn square_root(c: &mut RustyCalculator<f64>) -> Result<(), CalculationError> {
    unary(c, Operation::SquareRoot, |a| a.sqrt())
}

fn natural_log(c: &mut RustyCalculator<f64>) -> Result<(), CalculationError> {
    unary(c, Operation::NaturalLog, |a| a.ln())
}

fn node_count(c: &RustyCalculator<f64>) -> usize {
    c.show_history().len()
}

fn current_row(c: &RustyCalculator<f64>) -> usize {
    let rows: Vec<HistoryRow<f64>> = c.show_history();
    rows.iter().position(|r| r.current).unwrap()
}

#[test]
fn session_scenario() {
    let mut c = RustyCalculator::new(0.0, 0.0);
    assert_eq!(c.result(), 0.0);
    assert!(add(&mut c, 5.0).is_ok());
    assert_eq!(c.result(), 5.0);
    assert!(multiply(&mut c, 3.0).is_ok());
    assert_eq!(c.result(), 15.0);
    assert_eq!(divide(&mut c, 0.0), Err(CalculationError::DivisionByZero));
    assert_eq!(c.result(), 15.0);
    assert!(c.go_backwards().is_ok());
    assert_eq!(c.result(), 5.0);
    assert!(square_root(&mut c).is_ok());
    assert!((c.result() - 2.2360679).abs() < 1e-6);
    c.reset();
    assert_eq!(c.result(), 0.0);
    assert!(c.recover_cache().is_ok());
    assert!((c.result() - 2.2360679).abs() < 1e-6);
}

#[test]
fn natural_log_of_one_is_zero() {
    let mut c = RustyCalculator::new(0.0, 0.0);
    c.input(1.0);
    assert!(natural_log(&mut c).is_ok());
    assert_eq!(c.result(), 0.0);
}

#[test]
fn repeated_squaring_loses_precision() {
    let mut c = RustyCalculator::new(0.0, 0.0);
    c.input(1e10);
    let mut failure = None;
    for _ in 0..10 {
        let before = c.result();
        match square(&mut c) {
            Ok(()) => {}
            Err(e) => {
                assert_eq!(c.result(), before);
                failure = Some(e);
                break;
            }
        }
    }
    assert_eq!(failure, Some(CalculationError::PrecisionLoss));
    assert_eq!(c.result(), 1e10);
}

#[test]
fn successful_steps_match_an_accumulator() {
    let mut c = RustyCalculator::new(0.0, 0.0);
    let mut acc: f64 = 0.0;
    assert!(add(&mut c, 7.5).is_ok());
    acc += 7.5;
    assert!(subtract(&mut c, 2.0).is_ok());
    acc -= 2.0;
    assert!(multiply(&mut c, 4.0).is_ok());
    acc *= 4.0;
    assert!(divide(&mut c, 8.0).is_ok());
    acc /= 8.0;
    assert!(power(&mut c, 3.0).is_ok());
    acc = acc.powf(3.0);
    assert!(square(&mut c).is_ok());
    acc = acc * acc;
    assert!(square_root(&mut c).is_ok());
    acc = acc.sqrt();
    assert!(natural_log(&mut c).is_ok());
    acc = acc.ln();
    assert_eq!(c.result(), acc);
}

#[test]
fn division_by_zero_changes_nothing() {
    let mut c = RustyCalculator::new(0.0, 0.0);
    c.input(9.0);
    let count = node_count(&c);
    assert_eq!(divide(&mut c, 0.0), Err(CalculationError::DivisionByZero));
    assert_eq!(divide(&mut c, -0.0), Err(CalculationError::DivisionByZero));
    assert_eq!(c.result(), 9.0);
    assert_eq!(node_count(&c), count);
}

#[test]
fn root_and_log_domains() {
    let mut c = RustyCalculator::new(0.0, 0.0);
    c.input(-4.0);
    let count = node_count(&c);
    assert_eq!(square_root(&mut c), Err(CalculationError::OutOfBounds));
    assert_eq!(natural_log(&mut c), Err(CalculationError::OutOfBounds));
    assert_eq!(c.result(), -4.0);
    c.input(0.0);
    assert_eq!(natural_log(&mut c), Err(CalculationError::OutOfBounds));
    assert!(square_root(&mut c).is_ok());
    assert_eq!(c.result(), 0.0);
    assert_eq!(node_count(&c), count + 2);
}

#[test]
fn failed_operation_keeps_tree_and_current() {
    let mut c = RustyCalculator::new(0.0, 0.0);
    c.input(3.0);
    c.input(1e20);
    let count = node_count(&c);
    let at = current_row(&c);
    assert_eq!(square(&mut c), Err(CalculationError::PrecisionLoss));
    assert_eq!(node_count(&c), count);
    assert_eq!(current_row(&c), at);
    assert!(c.go_backwards().is_ok());
    assert_eq!(c.result(), 3.0);
    assert!(c.go_forwards().is_ok());
    assert_eq!(c.result(), 1e20);
    assert_eq!(c.go_forwards(), Err(CalculationError::CannotGoForwards));
}

#[test]
fn non_finite_result_is_out_of_bounds() {
    let mut c = RustyCalculator::new(0.0, 0.0);
    c.input(f64::MAX);
    assert_eq!(add(&mut c, f64::MAX), Err(CalculationError::OutOfBounds));
    c.input(f64::NAN);
    assert_eq!(square_root(&mut c), Err(CalculationError::OutOfBounds));
    assert!(c.result().is_nan());
}

#[test]
fn undo_then_redo_restores_current() {
    let mut c = RustyCalculator::new(0.0, 0.0);
    assert!(add(&mut c, 2.0).is_ok());
    assert!(add(&mut c, 3.0).is_ok());
    let at = current_row(&c);
    assert!(c.go_backwards().is_ok());
    assert_eq!(c.result(), 2.0);
    assert!(c.go_forwards().is_ok());
    assert_eq!(c.result(), 5.0);
    assert_eq!(current_row(&c), at);
    assert!(c.go_backwards().is_ok());
    assert!(c.go_backwards().is_ok());
    assert_eq!(c.go_backwards(), Err(CalculationError::CannotGoBackwards));
    assert_eq!(c.result(), 0.0);
    assert!(c.go_forwards().is_ok());
    assert!(c.go_backwards().is_ok());
    assert_eq!(c.result(), 0.0);
}

#[test]
fn new_step_after_undo_drops_redo() {
    let mut c = RustyCalculator::new(0.0, 0.0);
    assert!(add(&mut c, 1.0).is_ok());
    assert!(add(&mut c, 1.0).is_ok());
    assert!(c.go_backwards().is_ok());
    assert!(multiply(&mut c, 10.0).is_ok());
    assert_eq!(c.result(), 10.0);
    assert_eq!(c.go_forwards(), Err(CalculationError::CannotGoForwards));
    assert!(c.go_backwards().is_ok());
    assert_eq!(c.result(), 1.0);
    // the abandoned branch stays in the tree
    assert_eq!(node_count(&c), 4);
}

#[test]
fn reset_then_recover_restores_result() {
    let mut c = RustyCalculator::new(0.0, 0.0);
    assert!(add(&mut c, 42.0).is_ok());
    c.reset();
    assert_eq!(c.result(), 0.0);
    assert_eq!(node_count(&c), 1);
    assert!(c.recover_cache().is_ok());
    assert_eq!(c.result(), 42.0);
    assert!(c.go_backwards().is_ok());
    assert_eq!(c.result(), 0.0);
    assert_eq!(c.recover_cache(), Err(CalculationError::NoSnapshotAvailable));
}

#[test]
fn snapshots_are_a_stack() {
    let mut c = RustyCalculator::new(0.0, 0.0);
    c.input(1.0);
    c.reset();
    c.input(2.0);
    c.reset();
    assert!(c.recover_cache().is_ok());
    assert_eq!(c.result(), 2.0);
    assert!(c.recover_cache().is_ok());
    assert_eq!(c.result(), 1.0);
    assert_eq!(c.recover_cache(), Err(CalculationError::NoSnapshotAvailable));
}

#[test]
fn clear_cache_discards_snapshots() {
    let mut c = RustyCalculator::new(0.0, 0.0);
    c.input(6.0);
    c.snapshot();
    c.reset();
    c.clear_cache();
    assert_eq!(c.result(), 0.0);
    assert_eq!(c.recover_cache(), Err(CalculationError::NoSnapshotAvailable));
}

#[test]
fn reset_returns_to_zero() {
    let mut c = RustyCalculator::new(3.0, 0.0);
    assert_eq!(c.result(), 3.0);
    c.input(8.0);
    c.reset();
    assert_eq!(c.result(), 0.0);
    assert!(c.recover_cache().is_ok());
    assert_eq!(c.result(), 8.0);
}

#[test]
fn delete_prunes_current() {
    let mut c = RustyCalculator::new(0.0, 0.0);
    assert_eq!(c.delete(), Err(CalculationError::CannotDeleteRoot));
    assert!(add(&mut c, 4.0).is_ok());
    assert!(add(&mut c, 1.0).is_ok());
    assert_eq!(node_count(&c), 3);
    assert!(c.delete().is_ok());
    assert_eq!(c.result(), 4.0);
    assert_eq!(node_count(&c), 2);
    assert_eq!(c.go_forwards(), Err(CalculationError::CannotGoForwards));
    assert!(c.delete().is_ok());
    assert_eq!(c.result(), 0.0);
    assert_eq!(c.delete(), Err(CalculationError::CannotDeleteRoot));
}

#[test]
fn history_rows_depth_first() {
    let mut c = RustyCalculator::new(0.0, 0.0);
    assert!(add(&mut c, 1.0).is_ok());
    assert!(add(&mut c, 1.0).is_ok());
    assert!(c.go_backwards().is_ok());
    assert!(c.go_backwards().is_ok());
    c.input(7.0);
    let rows = c.show_history();
    let values: Vec<f64> = rows.iter().map(|r| r.value).collect();
    assert_eq!(values, vec![0.0, 1.0, 2.0, 7.0]);
    let ops: Vec<Option<Operation>> = rows.iter().map(|r| r.op).collect();
    assert_eq!(ops, vec![None, Some(Operation::Add), Some(Operation::Add), None]);
    let lasts: Vec<bool> = rows.iter().map(|r| r.last).collect();
    assert_eq!(lasts, vec![true, false, true, true]);
    assert_eq!(rows[0].guides, Vec::<bool>::new());
    assert_eq!(rows[1].guides, vec![true]);
    assert_eq!(rows[2].guides, vec![true, false]);
    assert_eq!(rows[3].guides, vec![true]);
    let current: Vec<bool> = rows.iter().map(|r| r.current).collect();
    assert_eq!(current, vec![false, false, false, true]);
}

#[test]
fn labels_of_operations() {
    assert_eq!(Operation::Add.label(), "+");
    assert_eq!(Operation::Subtract.label(), "-");
    assert_eq!(Operation::Multiply.label(), "*");
    assert_eq!(Operation::Divide.label(), "/");
    assert_eq!(Operation::Power.label(), "^");
    assert_eq!(Operation::Square.label(), "sqr");
    assert_eq!(Operation::SquareRoot.label(), "\u{221a}");
    assert_eq!(Operation::NaturalLog.label(), "ln");
    assert!(Operation::Power.is_binary());
    assert!(!Operation::Square.is_binary());
}

#[test]
fn validator_rules() {
    let ok = ValueFacts { finite: true, magnitude: 15, beyond_half_max: false };
    assert_eq!(checked_value(1.5, ok), Ok(1.5));
    let big = ValueFacts { finite: true, magnitude: 16, beyond_half_max: false };
    assert_eq!(checked_value(1.5, big), Err(CalculationError::PrecisionLoss));
    let half = ValueFacts { finite: true, magnitude: 3, beyond_half_max: true };
    assert_eq!(checked_value(1.5, half), Err(CalculationError::PrecisionLoss));
    let inf = ValueFacts { finite: false, magnitude: 400, beyond_half_max: true };
    assert_eq!(checked_value(1.5, inf), Err(CalculationError::OutOfBounds));
}

#[test]
fn domain_rules() {
    assert_eq!(check_domain(Operation::Divide, Sign::Zero), Err(CalculationError::DivisionByZero));
    assert_eq!(check_domain(Operation::Divide, Sign::Negative), Ok(()));
    assert_eq!(check_domain(Operation::SquareRoot, Sign::Negative), Err(CalculationError::OutOfBounds));
    assert_eq!(check_domain(Operation::SquareRoot, Sign::Zero), Ok(()));
    assert_eq!(check_domain(Operation::NaturalLog, Sign::Zero), Err(CalculationError::OutOfBounds));
    assert_eq!(check_domain(Operation::NaturalLog, Sign::Unordered), Ok(()));
    assert_eq!(check_domain(Operation::Add, Sign::Zero), Ok(()));
}

#[test]
fn menu_commands() {
    assert_eq!(command_of(1), Some(Command::Apply(Operation::Add)));
    assert_eq!(command_of(5), Some(Command::Apply(Operation::Power)));
    assert_eq!(command_of(6), Some(Command::Apply(Operation::SquareRoot)));
    assert_eq!(command_of(9), Some(Command::Redo));
    assert_eq!(command_of(10), Some(Command::Undo));
    assert_eq!(command_of(14), Some(Command::Exit));
    assert_eq!(command_of(0), None);
    assert_eq!(command_of(15), None);
}

#[test]
fn guard_follows_arity() {
    assert_eq!(guard_of(Operation::Divide, Sign::Zero, Sign::Positive), Sign::Zero);
    assert_eq!(guard_of(Operation::NaturalLog, Sign::Positive, Sign::Negative), Sign::Negative);
    assert_eq!(guard_of(Operation::SquareRoot, Sign::Zero, Sign::Positive), Sign::Positive);
}

#[test]
fn error_messages() {
    assert_eq!(CalculationError::DivisionByZero.message(), "Division by zero");
    assert_eq!(CalculationError::ParseError("Empty input".to_string()).message(), "Parse error: Empty input");
    assert_eq!(CalculationError::PrecisionLoss.message(), "Precision loss detected");
    assert_eq!(CalculationError::CannotDeleteRoot.message(), "Cannot delete root node");
    assert_eq!(CalculationError::InvalidChildIndex.message(), "Invalid child index");
    assert_eq!(CalculationError::CannotGoBackwards.message(), "Cannot go backwards");
    assert_eq!(CalculationError::CannotGoForwards.message(), "Cannot go forwards");
    assert_eq!(CalculationError::OutOfBounds.message(), "Value out of bounds");
    assert_eq!(CalculationError::NoSnapshotAvailable.message(), "No cached snapshot available");
}
