use keypad_calc::engine::CalculatorEngine;

fn apply_all(engine: &mut CalculatorEngine, keys: &str) -> String {
    let mut display = engine.display();
    for key in keys.chars() {
        display = engine.apply(key);
    }
    display
}

#[test]
fn fresh_engine_displays_zero() {
    let engine = CalculatorEngine::new();
    assert_eq!(engine.display(), "0");
    assert_eq!(engine.accumulator, None);
    assert_eq!(engine.pending_operator, None);
    assert_eq!(engine.operand, None);
}

#[test]
fn digit_accumulation_builds_123() {
    let mut engine = CalculatorEngine::new();
    let display = apply_all(&mut engine, "123");
    assert_eq!(engine.accumulator, Some(123));
    assert_eq!(engine.pending_operator, None);
    assert_eq!(engine.operand, None);
    assert_eq!(display, "123");
}

#[test]
fn operator_deferral_then_equals() {
    let mut engine = CalculatorEngine::new();
    engine.apply('7');
    let after_op = engine.apply('+');
    assert_eq!(after_op, "7 +");
    let after_digit = engine.apply('3');
    assert_eq!(after_digit, "7 + 3");
    let after_eq = engine.apply('=');
    assert_eq!(engine.accumulator, Some(10));
    assert_eq!(engine.pending_operator, None);
    assert_eq!(engine.operand, None);
    assert_eq!(after_eq, "10");
}

#[test]
fn division_by_zero_is_ignored() {
    let mut engine = CalculatorEngine {
        accumulator: Some(5),
        pending_operator: Some('/'),
        operand: Some(0),
    };
    assert!(engine.would_reject('='));
    let display = engine.apply('=');
    assert_eq!(engine.accumulator, Some(5));
    assert_eq!(engine.pending_operator, Some('/'));
    assert_eq!(engine.operand, Some(0));
    assert_eq!(display, "5 / 0");
}

#[test]
fn clear_resets_fully() {
    let mut engine = CalculatorEngine::new();
    apply_all(&mut engine, "42*7");
    let display = engine.apply('C');
    assert_eq!(display, "0");
    assert_eq!(engine.accumulator, None);
    assert_eq!(engine.pending_operator, None);
    assert_eq!(engine.operand, None);
}

#[test]
fn chained_operations() {
    let mut engine = CalculatorEngine::new();
    apply_all(&mut engine, "9-4");
    assert_eq!(engine.accumulator, Some(9));
    assert_eq!(engine.operand, Some(4));
    assert_eq!(engine.pending_operator, Some('-'));
    engine.apply('+');
    assert_eq!(engine.accumulator, Some(5));
    assert_eq!(engine.operand, None);
    assert_eq!(engine.pending_operator, Some('+'));
    engine.apply('2');
    assert_eq!(engine.operand, Some(2));
    let display = engine.apply('=');
    assert_eq!(engine.accumulator, Some(7));
    assert_eq!(display, "7");
}

#[test]
fn subtraction_below_zero_and_truncating_division() {
    let mut engine = CalculatorEngine::new();
    let display = apply_all(&mut engine, "0-7=");
    assert_eq!(engine.accumulator, Some(-7));
    assert_eq!(display, "-7");
    let display = apply_all(&mut engine, "/2=");
    assert_eq!(engine.accumulator, Some(-3));
    assert_eq!(display, "-3");
}

#[test]
fn multiplication_and_division_exact() {
    let mut engine = CalculatorEngine::new();
    apply_all(&mut engine, "12*12=");
    assert_eq!(engine.accumulator, Some(144));
    apply_all(&mut engine, "/5=");
    assert_eq!(engine.accumulator, Some(28));
}

#[test]
fn operator_before_any_digit() {
    let mut engine = CalculatorEngine::new();
    let display = engine.apply('+');
    assert_eq!(display, "0 +");
    assert_eq!(engine.accumulator, None);
    assert_eq!(engine.pending_operator, Some('+'));
    engine.apply('8');
    assert_eq!(engine.operand, Some(8));
    assert_eq!(engine.accumulator, None);
}

#[test]
fn equals_without_full_state_is_a_no_op() {
    let mut engine = CalculatorEngine::new();
    apply_all(&mut engine, "5+");
    let display = engine.apply('=');
    assert_eq!(display, "5 +");
    assert_eq!(engine.accumulator, Some(5));
    assert_eq!(engine.pending_operator, Some('+'));
    assert_eq!(engine.operand, None);
}

#[test]
fn operator_replaces_pending_operator() {
    let mut engine = CalculatorEngine::new();
    apply_all(&mut engine, "5+");
    let display = engine.apply('*');
    assert_eq!(display, "5 *");
    assert_eq!(engine.pending_operator, Some('*'));
}

#[test]
fn digit_overflowing_shift_in_is_dropped() {
    let mut engine = CalculatorEngine::new();
    apply_all(&mut engine, "2147483647");
    assert_eq!(engine.accumulator, Some(2147483647));
    let display = engine.apply('9');
    assert_eq!(engine.accumulator, Some(2147483647));
    assert_eq!(display, "2147483647");
}

#[test]
fn overflowing_operation_is_rejected() {
    let mut engine = CalculatorEngine {
        accumulator: Some(2000000000),
        pending_operator: Some('+'),
        operand: Some(2000000000),
    };
    assert!(engine.would_reject('='));
    engine.apply('=');
    assert_eq!(engine.accumulator, Some(2000000000));
    assert_eq!(engine.pending_operator, Some('+'));
    assert_eq!(engine.operand, Some(2000000000));
}

#[test]
fn valid_operation_is_not_rejected() {
    let engine = CalculatorEngine {
        accumulator: Some(5),
        pending_operator: Some('/'),
        operand: Some(2),
    };
    assert!(!engine.would_reject('='));
    assert!(!engine.would_reject('7'));
}

#[test]
fn unrecognized_symbol_is_ignored() {
    let mut engine = CalculatorEngine::new();
    apply_all(&mut engine, "51");
    let display = engine.apply('x');
    assert_eq!(display, "51");
    assert_eq!(engine.accumulator, Some(51));
    assert_eq!(engine.pending_operator, None);
    assert_eq!(engine.operand, None);
}
