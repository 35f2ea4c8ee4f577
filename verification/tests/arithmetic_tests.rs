use calculator::arithmetic::{ArithmeticError, Rational, Token};

#[test]
fn precedence_ranks_operators() {
    assert_eq!(Token::Times.precedence(), 2);
    assert_eq!(Token::Divide.precedence(), 2);
    assert_eq!(Token::Plus.precedence(), 1);
    assert_eq!(Token::Minus.precedence(), 1);
    assert_eq!(Token::Left.precedence(), 0);
    assert_eq!(Token::Right.precedence(), 0);
    assert_eq!(Token::Number(Rational::from_int(1)).precedence(), 0);
}

#[test]
fn binary_and_unary_classify_tokens() {
    assert!(Token::Plus.binary());
    assert!(Token::Minus.binary());
    assert!(Token::Times.binary());
    assert!(Token::Divide.binary());
    assert!(!Token::Left.binary());
    assert!(!Token::Right.binary());
    assert!(!Token::Number(Rational::from_int(0)).binary());
    assert!(Token::Plus.unary());
    assert!(Token::Minus.unary());
    assert!(!Token::Times.unary());
    assert!(!Token::Divide.unary());
}

#[test]
fn binary_apply_computes_exactly() {
    let two = Rational::from_int(2);
    let three = Rational::from_int(3);
    assert_eq!(Token::Plus.binary_apply(two, three).unwrap(), Rational::from_int(5));
    assert_eq!(Token::Minus.binary_apply(two, three).unwrap(), Rational::from_int(-1));
    assert_eq!(Token::Times.binary_apply(two, three).unwrap(), Rational::from_int(6));
    let quotient = Token::Divide.binary_apply(two, three).unwrap();
    assert!(quotient.equal_value(&Rational::new(2, 3).unwrap()));
}

#[test]
fn binary_apply_rejects_zero_divisor() {
    let one = Rational::from_int(1);
    let zero = Rational::from_int(0);
    let error = Token::Divide.binary_apply(one, zero).unwrap_err();
    assert_eq!(error.message(), "division by zero");
}

#[test]
fn binary_apply_rejects_non_operators() {
    let one = Rational::from_int(1);
    let error = Token::Left.binary_apply(one, one).unwrap_err();
    assert_eq!(error.message(), "invalid binary operator");
}

#[test]
fn binary_apply_reports_overflow() {
    let max = Rational::from_int(i64::MAX);
    let one = Rational::from_int(1);
    let error = Token::Plus.binary_apply(max, one).unwrap_err();
    assert_eq!(error.message(), "arithmetic overflow");
}

#[test]
fn unary_apply_keeps_or_negates() {
    let seven = Rational::from_int(7);
    assert_eq!(Token::Plus.unary_apply(seven).unwrap(), seven);
    assert_eq!(Token::Minus.unary_apply(seven).unwrap(), Rational::from_int(-7));
    let error = Token::Times.unary_apply(seven).unwrap_err();
    assert_eq!(error.message(), "invalid unary operator");
}

#[test]
fn unary_apply_reports_overflow_on_minimum() {
    let minimum = Rational::from_int(i64::MIN);
    let error = Token::Minus.unary_apply(minimum).unwrap_err();
    assert_eq!(error.message(), "arithmetic overflow");
}

#[test]
fn rational_new_rejects_non_positive_denominators() {
    assert!(Rational::new(1, 0).is_none());
    assert!(Rational::new(1, -2).is_none());
    let half = Rational::new(1, 2).unwrap();
    assert_eq!(half.num, 1);
    assert_eq!(half.den, 2);
}

#[test]
fn equal_value_compares_cross_products() {
    let half = Rational::new(1, 2).unwrap();
    let two_quarters = Rational::new(2, 4).unwrap();
    let third = Rational::new(1, 3).unwrap();
    assert!(half.equal_value(&two_quarters));
    assert!(!half.equal_value(&third));
}

#[test]
fn rational_division_moves_sign_to_numerator() {
    let one = Rational::from_int(1);
    let minus_two = Rational::from_int(-2);
    let quotient = one.div(&minus_two).unwrap();
    assert_eq!(quotient.num, -1);
    assert_eq!(quotient.den, 2);
}

#[test]
fn negating_the_minimum_overflows() {
    let minimum = Rational::from_int(i64::MIN);
    assert!(minimum.neg().is_none());
    assert_eq!(Rational::from_int(5).neg().unwrap(), Rational::from_int(-5));
}

#[test]
fn error_message_round_trips() {
    let error = ArithmeticError::new("some message");
    assert_eq!(error.message(), "some message");
}
