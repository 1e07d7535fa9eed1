use pe_calculator::calculator::{format_number, op_symbol, Calculator, Evaluation, Number, NumberShape, Op};
use pe_calculator::layout::ButtonId;
use pe_calculator::window::{dispatch_button, evaluation_for};

/// `v` as the calculator holds it, with its text as the display writes it.
fn number(v: f64) -> Number {
    let shape = if v.is_nan() || v.is_infinite() {
        NumberShape::NotFinite
    } else if v.fract() == 0.0 && v.abs() < 1e15 {
        NumberShape::Whole(v as i64)
    } else {
        NumberShape::Fraction(format!("{:.10}", v))
    };
    Number::from_shape(v.to_bits(), shape)
}

fn entry_of(calc: &Calculator) -> Number {
    number(calc.display().parse().unwrap_or(0.0))
}

fn evaluate(e: Evaluation) -> Result<Number, ()> {
    let lhs = f64::from_bits(e.lhs.code);
    let rhs = f64::from_bits(e.rhs.code);
    match e.op {
        Op::Add => Ok(number(lhs + rhs)),
        Op::Sub => Ok(number(lhs - rhs)),
        Op::Mul => Ok(number(lhs * rhs)),
        Op::Div => {
            if rhs == 0.0 {
                Err(())
            } else {
                Ok(number(lhs / rhs))
            }
        }
    }
}

fn press(calc: &mut Calculator, id: ButtonId) {
    let entry = entry_of(calc);
    let outcome = evaluation_for(calc, id, &entry).map(evaluate);
    dispatch_button(calc, id, entry, outcome);
}

fn press_all(calc: &mut Calculator, ids: &[ButtonId]) {
    for id in ids {
        press(calc, *id);
    }
}


#[test]
fn symbols_of_operations() {
    assert_eq!(op_symbol(Op::Add), "+");
    assert_eq!(op_symbol(Op::Sub), "\u{2212}");
    assert_eq!(op_symbol(Op::Mul), "\u{00D7}");
    assert_eq!(op_symbol(Op::Div), "\u{00F7}");
}

#[test]
fn fresh_calculator_shows_zero() {
    let c = Calculator::new();
    assert_eq!(c.display(), "0");
    assert_eq!(c.expression(), "");
    assert!(!c.is_error());
}

#[test]
fn digits_build_the_entry() {
    let mut c = Calculator::new();
    c.digit(0);
    assert_eq!(c.display(), "0");
    c.digit(1);
    c.digit(2);
    c.digit(3);
    assert_eq!(c.display(), "123");
}

#[test]
fn entry_stops_at_fifteen_digits() {
    let mut c = Calculator::new();
    for _ in 0..20 {
        c.digit(9);
    }
    assert_eq!(c.display(), "999999999999999");
}

#[test]
fn decimal_point_once() {
    let mut c = Calculator::new();
    c.decimal();
    assert_eq!(c.display(), "0.");
    c.decimal();
    assert_eq!(c.display(), "0.");
    c.digit(5);
    assert_eq!(c.display(), "0.5");
}

#[test]
fn backspace_removes_last_character() {
    let mut c = Calculator::new();
    c.digit(4);
    c.digit(2);
    c.backspace();
    assert_eq!(c.display(), "4");
    c.backspace();
    assert_eq!(c.display(), "0");
    c.backspace();
    assert_eq!(c.display(), "0");
}

#[test]
fn addition_and_repeated_equals() {
    let mut c = Calculator::new();
    press_all(&mut c, &[ButtonId::Digit(2), ButtonId::Add, ButtonId::Digit(3)]);
    assert_eq!(c.expression(), "2 +");
    assert_eq!(c.display(), "3");
    press(&mut c, ButtonId::Equals);
    assert_eq!(c.display(), "5");
    assert_eq!(c.expression(), "2 + 3 =");
    press(&mut c, ButtonId::Equals);
    assert_eq!(c.display(), "8");
    assert_eq!(c.expression(), "5 + 3 =");
}

#[test]
fn operators_chain_left_to_right() {
    let mut c = Calculator::new();
    press_all(&mut c, &[ButtonId::Digit(2), ButtonId::Add, ButtonId::Digit(3), ButtonId::Mul]);
    assert_eq!(c.display(), "5");
    assert_eq!(c.expression(), "5 \u{00D7}");
    press_all(&mut c, &[ButtonId::Digit(4), ButtonId::Equals]);
    assert_eq!(c.display(), "20");
    assert_eq!(c.expression(), "5 \u{00D7} 4 =");
}

#[test]
fn second_operator_replaces_the_first() {
    let mut c = Calculator::new();
    press_all(&mut c, &[ButtonId::Digit(9), ButtonId::Sub, ButtonId::Mul, ButtonId::Digit(2), ButtonId::Equals]);
    assert_eq!(c.display(), "18");
}

#[test]
fn fractions_are_trimmed() {
    let mut c = Calculator::new();
    press_all(&mut c, &[ButtonId::Digit(1), ButtonId::Div, ButtonId::Digit(4), ButtonId::Equals]);
    assert_eq!(c.display(), "0.25");
    let mut c = Calculator::new();
    press_all(&mut c, &[ButtonId::Digit(2), ButtonId::Div, ButtonId::Digit(3), ButtonId::Equals]);
    assert_eq!(c.display(), "0.6666666667");
}

#[test]
fn division_by_zero_locks_until_cleared() {
    let mut c = Calculator::new();
    press_all(&mut c, &[ButtonId::Digit(5), ButtonId::Div, ButtonId::Digit(0), ButtonId::Equals]);
    assert!(c.is_error());
    assert_eq!(c.display(), "Cannot divide by zero");
    assert_eq!(c.expression(), "");
    press_all(&mut c, &[ButtonId::Digit(7), ButtonId::Decimal, ButtonId::Add, ButtonId::Equals, ButtonId::Backspace]);
    assert_eq!(c.display(), "Cannot divide by zero");
    press(&mut c, ButtonId::ClearEntry);
    assert!(!c.is_error());
    assert_eq!(c.display(), "0");
}

#[test]
fn chained_division_by_zero() {
    let mut c = Calculator::new();
    press_all(&mut c, &[ButtonId::Digit(8), ButtonId::Div, ButtonId::Digit(0), ButtonId::Add]);
    assert!(c.is_error());
    assert_eq!(c.display(), "Cannot divide by zero");
}

#[test]
fn clear_entry_keeps_pending_operation() {
    let mut c = Calculator::new();
    press_all(&mut c, &[ButtonId::Digit(6), ButtonId::Sub, ButtonId::Digit(9), ButtonId::ClearEntry]);
    assert_eq!(c.display(), "0");
    assert_eq!(c.expression(), "6 \u{2212}");
    press_all(&mut c, &[ButtonId::Digit(1), ButtonId::Equals]);
    assert_eq!(c.display(), "5");
}

#[test]
fn digit_after_result_starts_over() {
    let mut c = Calculator::new();
    press_all(&mut c, &[ButtonId::Digit(6), ButtonId::Mul, ButtonId::Digit(7), ButtonId::Equals]);
    assert_eq!(c.display(), "42");
    press(&mut c, ButtonId::Digit(1));
    assert_eq!(c.display(), "1");
    assert_eq!(c.expression(), "");
    press(&mut c, ButtonId::Equals);
    assert_eq!(c.display(), "1");
}

#[test]
fn clear_resets_everything() {
    let mut c = Calculator::new();
    press_all(&mut c, &[ButtonId::Digit(6), ButtonId::Mul, ButtonId::Digit(7), ButtonId::Clear]);
    assert_eq!(c.display(), "0");
    assert_eq!(c.expression(), "");
    press(&mut c, ButtonId::Equals);
    assert_eq!(c.display(), "0");
}

#[test]
fn negative_results() {
    let mut c = Calculator::new();
    press_all(&mut c, &[ButtonId::Digit(3), ButtonId::Sub, ButtonId::Digit(8), ButtonId::Equals]);
    assert_eq!(c.display(), "-5");
    press(&mut c, ButtonId::Backspace);
    assert_eq!(c.display(), "-5");
}

#[test]
fn evaluation_is_named_only_when_due() {
    let mut c = Calculator::new();
    let e = number(0.0);
    assert!(c.operator_evaluation(&e).is_none());
    assert!(c.equals_evaluation(&e).is_none());
    press_all(&mut c, &[ButtonId::Digit(2), ButtonId::Add]);
    assert!(c.operator_evaluation(&entry_of(&c)).is_none());
    press(&mut c, ButtonId::Digit(3));
    let due = c.operator_evaluation(&entry_of(&c)).unwrap();
    assert_eq!(f64::from_bits(due.lhs.code), 2.0);
    assert_eq!(due.op, Op::Add);
    assert_eq!(due.rhs.text, "3");
}

#[test]
fn number_texts() {
    assert_eq!(format_number(NumberShape::NotFinite), "Error");
    assert_eq!(format_number(NumberShape::Whole(42)), "42");
    assert_eq!(format_number(NumberShape::Whole(0)), "0");
    assert_eq!(format_number(NumberShape::Whole(-7)), "-7");
    assert_eq!(format_number(NumberShape::Whole(i64::MIN)), "-9223372036854775808");
    assert_eq!(format_number(NumberShape::Fraction("3.1400000000".to_string())), "3.14");
    assert_eq!(format_number(NumberShape::Fraction("100.0000000000".to_string())), "100");
    assert_eq!(format_number(NumberShape::Fraction("-0.0000000001".to_string())), "-0.0000000001");
}

#[test]
fn duplicate_copies_a_number() {
    let n = Number { code: 7, text: "7".to_string() };
    let m = n.duplicate();
    assert_eq!(m.code, 7);
    assert_eq!(m.text, "7");
}

#[test]
fn large_digit_value_when_entry_is_replaced() {
    let mut c = Calculator::new();
    c.digit(12);
    assert_eq!(c.display(), "12");
}

#[test]
fn backspace_takes_back_a_digit() {
    let mut c = Calculator::new();
    c.digit(7);
    c.digit(3);
    c.digit(1);
    c.backspace();
    assert_eq!(c.display(), "73");
}

#[test]
fn digit_values_above_nine_replace_the_display() {
    let mut c = Calculator::new();
    press_all(&mut c, &[ButtonId::Digit(1), ButtonId::Add]);
    c.digit(200);
    assert_eq!(c.display(), "200");
}

#[test]
fn numbers_from_shapes() {
    let n = Number::from_shape(9, NumberShape::Fraction("-12.5000000000".to_string()));
    assert_eq!(n.code, 9);
    assert_eq!(n.text, "-12.5");
    let w = Number::from_shape(1, NumberShape::Whole(-3));
    assert_eq!(w.text, "-3");
}

#[test]
fn error_state_shows_message_only_in_error() {
    let mut c = Calculator::new();
    press_all(&mut c, &[ButtonId::Digit(1), ButtonId::Div, ButtonId::Digit(0), ButtonId::Div]);
    assert!(c.is_error());
    assert_eq!(c.display(), "Cannot divide by zero");
    press_all(&mut c, &[ButtonId::Digit(3), ButtonId::Equals, ButtonId::Decimal]);
    assert_eq!(c.display(), "Cannot divide by zero");
    press(&mut c, ButtonId::Clear);
    assert!(!c.is_error());
    assert_eq!(c.display(), "0");
}
