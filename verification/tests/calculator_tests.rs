use calculator::arithmetic::{ArithmeticError, Rational, Token};
use calculator::evaluator::evaluate_text;
use calculator::tokenizer::tokenize;

fn eval(text: &str) -> Result<Rational, ArithmeticError> {
    evaluate_text(text.as_bytes())
}

fn eval_ok(text: &str) -> Rational {
    match eval(text) {
        Ok(value) => value,
        Err(error) => panic!("{} failed: {}", text, error.message()),
    }
}

fn eval_err(text: &str) -> String {
    match eval(text) {
        Ok(value) => panic!("{} unexpectedly evaluated to {:?}", text, value),
        Err(error) => error.message().to_string(),
    }
}

fn rat(num: i64, den: i64) -> Rational {
    Rational::new(num, den).unwrap()
}

#[test]
fn single_number_evaluates_to_itself() {
    assert_eq!(eval_ok("42"), rat(42, 1));
}

#[test]
fn usual_precedence_binds_times_tighter() {
    assert_eq!(eval_ok("1 + 2 * 3"), rat(7, 1));
    assert_eq!(eval_ok("2 * 3 + 1"), rat(7, 1));
    assert_eq!(eval_ok("2 - 6 / 3"), rat(0, 3));
    assert!(eval_ok("2 - 6 / 3").equal_value(&rat(0, 1)));
}

#[test]
fn equal_precedence_associates_left() {
    assert_eq!(eval_ok("10 - 3 - 4"), rat(3, 1));
    assert!(eval_ok("8 / 2 / 2").equal_value(&rat(2, 1)));
}

#[test]
fn parentheses_override_precedence() {
    assert_eq!(eval_ok("2 * (3 + 4)"), rat(14, 1));
    assert_eq!(eval_ok("((2))"), rat(2, 1));
    assert_eq!(eval_ok("(1 + 2) * (3 + 4)"), rat(21, 1));
}

#[test]
fn division_by_zero_fails() {
    assert_eq!(eval_err("1 / 0"), "division by zero");
    assert_eq!(eval_err("1 / (2 - 2)"), "division by zero");
}

#[test]
fn unmatched_opening_paren_fails() {
    assert_eq!(eval_err("(1 + 2"), "expected closing paren");
}

#[test]
fn trailing_tokens_fail() {
    assert_eq!(eval_err("2 2"), "not all of expression was parsed");
}

#[test]
fn invalid_character_fails_and_is_named() {
    let message = eval_err("2 & 3");
    assert_eq!(message, "invalid character &");
    assert!(message.contains('&'));
}

#[test]
fn unary_minus_composes_with_primaries() {
    assert_eq!(eval_ok("-3 + 4"), rat(1, 1));
    assert_eq!(eval_ok("-(2+3)"), rat(-5, 1));
    assert_eq!(eval_ok("--3"), rat(3, 1));
    assert_eq!(eval_ok("2 * -3"), rat(-6, 1));
}

#[test]
fn leading_plus_is_not_a_primary() {
    assert_eq!(eval_err("+3"), "unexpected token");
}

#[test]
fn empty_input_fails() {
    assert_eq!(eval_err(""), "unexpected token");
    assert_eq!(eval_err("   "), "unexpected token");
}

#[test]
fn decimal_parsing_round_trips() {
    let sum = eval_ok("1.5 + 2.25");
    assert_eq!(sum, rat(3750, 1000));
    assert!(sum.equal_value(&rat(15, 4)));
    assert_eq!((sum.num as f64) / (sum.den as f64), 3.75);
}

#[test]
fn division_is_exact() {
    assert!(eval_ok("1 / 3 * 3").equal_value(&rat(1, 1)));
    assert!(eval_ok("7 / 2").equal_value(&rat(7, 2)));
    assert!(eval_ok("1 / -4").equal_value(&rat(-1, 4)));
}

#[test]
fn repeated_decimal_points_keep_accumulating() {
    assert!(eval_ok("1.2.3").equal_value(&rat(123, 100)));
    assert_eq!(eval_ok("5."), rat(5, 1));
}

#[test]
fn bare_decimal_point_is_invalid() {
    assert_eq!(eval_err(".5"), "invalid character .");
}

#[test]
fn oversized_literals_are_rejected() {
    assert_eq!(eval_err("99999999999999999999"), "number out of range");
    assert_eq!(eval_err("0.0000000000000000001"), "number out of range");
    assert_eq!(eval_ok("9223372036854775807"), rat(i64::MAX, 1));
}

#[test]
fn overflowing_arithmetic_is_reported() {
    assert_eq!(
        eval_err("9223372036854775807 + 1"),
        "arithmetic overflow"
    );
}

#[test]
fn whitespace_is_skipped() {
    assert_eq!(eval_ok(" 1 \t+\n2 \r"), rat(3, 1));
}

#[test]
fn evaluation_is_deterministic() {
    let first = eval("3 / 7 + 0.25");
    let second = eval("3 / 7 + 0.25");
    assert_eq!(first.unwrap(), second.unwrap());
    let first_err = eval_err("1 / 0");
    let second_err = eval_err("1 / 0");
    assert_eq!(first_err, second_err);
}

#[test]
fn tokenize_pops_in_textual_order() {
    let mut tokens = tokenize("1+2".as_bytes()).unwrap();
    assert_eq!(tokens.pop(), Some(Token::Number(rat(1, 1))));
    assert_eq!(tokens.pop(), Some(Token::Plus));
    assert_eq!(tokens.pop(), Some(Token::Number(rat(2, 1))));
    assert_eq!(tokens.pop(), None);
}

#[test]
fn tokenize_rejects_invalid_bytes_immediately() {
    let error = match tokenize("2 & 3".as_bytes()) {
        Ok(_) => panic!("tokenizing succeeded unexpectedly"),
        Err(error) => error,
    };
    assert_eq!(error.message(), "invalid character &");
}
