//! Tokens and exact rational numbers for the expression evaluator.
//!
//! A number is held as an exact fraction `num / den` of 64-bit integers with
//! a positive denominator. All operator applications are exact: a result
//! whose numerator or denominator would not fit in 64 bits is reported as an
//! arithmetic-overflow error instead of being silently rounded.

use vstd::prelude::*;

verus! {

/// An evaluation error, carrying only a descriptive message.
#[derive(Debug)]
pub struct ArithmeticError {
    what: String,
}

impl View for ArithmeticError {
    type V = Seq<char>;

    closed spec fn view(&self) -> Seq<char> {
        self.what@
    }
}

impl ArithmeticError {
    pub fn new(what: &str) -> (r: Self)
        ensures
            r@ == what@,
    {
        Self { what: what.to_owned() }
    }

    pub fn message(&self) -> (r: &str)
        ensures
            r@ == self@,
    {
        self.what.as_str()
    }
}

/// An exact fraction `num / den`; well-formed values keep `den` positive.
#[derive(Clone, Copy, PartialEq, Eq, Structural, Debug)]
pub struct Rational {
    pub num: i64,
    pub den: i64,
}

/// The failure modes of an operator application.
#[derive(Clone, Copy, PartialEq, Eq, Structural, Debug)]
pub enum MathError {
    DivisionByZero,
    Overflow,
    NotBinary,
    NotUnary,
}

/// The message text carried by each operator-application failure.
pub open spec fn math_error_message(e: MathError) -> Seq<char> {
    match e {
        MathError::DivisionByZero => "division by zero"@,
        MathError::Overflow => "arithmetic overflow"@,
        MathError::NotBinary => "invalid binary operator"@,
        MathError::NotUnary => "invalid unary operator"@,
    }
}

/// Builds the fraction `n / d` when both parts fit in 64 bits, with a
/// positive denominator.
pub open spec fn rational_make(n: int, d: int) -> Option<Rational> {
    if i64::MIN <= n <= i64::MAX && 1 <= d <= i64::MAX {
        Some(Rational { num: n as i64, den: d as i64 })
    } else {
        None
    }
}

impl Rational {
    /// A well-formed fraction has a positive denominator.
    pub open spec fn wf(self) -> bool {
        self.den >= 1
    }

    pub open spec fn spec_from_int(n: i64) -> Rational {
        Rational { num: n, den: 1 }
    }

    /// The exact sum `self + other`, or `None` if it does not fit.
    pub open spec fn spec_add(self, other: Rational) -> Option<Rational> {
        rational_make(
            self.num * other.den + other.num * self.den,
            self.den * other.den,
        )
    }

    /// The exact difference `self - other`, or `None` if it does not fit.
    pub open spec fn spec_sub(self, other: Rational) -> Option<Rational> {
        rational_make(
            self.num * other.den - other.num * self.den,
            self.den * other.den,
        )
    }

    /// The exact product `self * other`, or `None` if it does not fit.
    pub open spec fn spec_mul(self, other: Rational) -> Option<Rational> {
        rational_make(self.num * other.num, self.den * other.den)
    }

    /// The exact quotient `self / other` for a nonzero `other`, or `None`
    /// if it does not fit; the sign moves to the numerator.
    pub open spec fn spec_div(self, other: Rational) -> Option<Rational> {
        if other.num < 0 {
            rational_make(-(self.num * other.den), self.den * -other.num)
        } else {
            rational_make(self.num * other.den, self.den * other.num)
        }
    }

    /// The exact negation `-self`, or `None` if it does not fit.
    pub open spec fn spec_neg(self) -> Option<Rational> {
        rational_make(-(self.num as int), self.den as int)
    }

    /// Two fractions denote the same number when they cross-multiply
    /// equally.
    pub open spec fn same_value(self, other: Rational) -> bool {
        self.num * other.den == other.num * self.den
    }

    pub fn from_int(n: i64) -> (r: Rational)
        ensures
            r == Rational::spec_from_int(n),
            r.wf(),
    {
        Rational { num: n, den: 1 }
    }

    /// Builds `n / d`, rejecting a non-positive denominator.
    pub fn new(n: i64, d: i64) -> (r: Option<Rational>)
        ensures
            match r {
                Some(v) => d >= 1 && v == (Rational { num: n, den: d }) && v.wf(),
                None => d < 1,
            },
    {
        if d >= 1 {
            Some(Rational { num: n, den: d })
        } else {
            None
        }
    }

    /// Decides whether two well-formed fractions denote the same number.
    pub fn equal_value(&self, other: &Rational) -> (r: bool)
        ensures
            r == self.same_value(*other),
    {
        proof {
            lemma_i64_product_bounds(self.num as int, other.den as int);
            lemma_i64_product_bounds(other.num as int, self.den as int);
        }
        let left: i128 = self.num as i128 * other.den as i128;
        let right: i128 = other.num as i128 * self.den as i128;
        left == right
    }
}

/// The product of two 64-bit values stays well inside the 128-bit range.
proof fn lemma_i64_product_bounds(x: int, y: int)
    requires
        -0x8000_0000_0000_0000 <= x <= 0x7fff_ffff_ffff_ffff,
        -0x8000_0000_0000_0000 <= y <= 0x7fff_ffff_ffff_ffff,
    ensures
        -0x4000_0000_0000_0000_0000_0000_0000_0000 <= x * y
            <= 0x4000_0000_0000_0000_0000_0000_0000_0000,
{
    assert(-0x4000_0000_0000_0000_0000_0000_0000_0000 <= x * y
        <= 0x4000_0000_0000_0000_0000_0000_0000_0000) by (nonlinear_arith)
        requires
            -0x8000_0000_0000_0000 <= x <= 0x7fff_ffff_ffff_ffff,
            -0x8000_0000_0000_0000 <= y <= 0x7fff_ffff_ffff_ffff,
    ;
}

/// Sharper bounds when one factor is a well-formed (positive) denominator:
/// the magnitude stays below `2^126 - 2^63`, so even the sum of two such
/// products fits in 128 bits.
proof fn lemma_num_den_product_bounds(x: int, y: int)
    requires
        -0x8000_0000_0000_0000 <= x <= 0x7fff_ffff_ffff_ffff,
        1 <= y <= 0x7fff_ffff_ffff_ffff,
    ensures
        -0x3fff_ffff_ffff_ffff_8000_0000_0000_0000 <= x * y
            <= 0x3fff_ffff_ffff_ffff_8000_0000_0000_0000,
{
    assert(-0x3fff_ffff_ffff_ffff_8000_0000_0000_0000 <= x * y
        <= 0x3fff_ffff_ffff_ffff_8000_0000_0000_0000) by (nonlinear_arith)
        requires
            -0x8000_0000_0000_0000 <= x <= 0x7fff_ffff_ffff_ffff,
            1 <= y <= 0x7fff_ffff_ffff_ffff,
    ;
}

/// Packs a 128-bit numerator and denominator back into a `Rational` exactly
/// when `rational_make` allows it.
fn pack_rational(n: i128, d: i128) -> (r: Option<Rational>)
    ensures
        r == rational_make(n as int, d as int),
{
    if i64::MIN as i128 <= n && n <= i64::MAX as i128 && 1 <= d && d <= i64::MAX as i128 {
        Some(Rational { num: n as i64, den: d as i64 })
    } else {
        None
    }
}

impl Rational {
    pub fn add(&self, other: &Rational) -> (r: Option<Rational>)
        requires
            self.wf(),
            other.wf(),
        ensures
            r == self.spec_add(*other),
            match r {
                Some(v) => v.wf(),
                None => true,
            },
    {
        proof {
            lemma_num_den_product_bounds(self.num as int, other.den as int);
            lemma_num_den_product_bounds(other.num as int, self.den as int);
            lemma_num_den_product_bounds(self.den as int, other.den as int);
        }
        let n: i128 = self.num as i128 * other.den as i128 + other.num as i128 * self.den as i128;
        let d: i128 = self.den as i128 * other.den as i128;
        pack_rational(n, d)
    }

    pub fn sub(&self, other: &Rational) -> (r: Option<Rational>)
        requires
            self.wf(),
            other.wf(),
        ensures
            r == self.spec_sub(*other),
            match r {
                Some(v) => v.wf(),
                None => true,
            },
    {
        proof {
            lemma_num_den_product_bounds(self.num as int, other.den as int);
            lemma_num_den_product_bounds(other.num as int, self.den as int);
            lemma_num_den_product_bounds(self.den as int, other.den as int);
        }
        let n: i128 = self.num as i128 * other.den as i128 - other.num as i128 * self.den as i128;
        let d: i128 = self.den as i128 * other.den as i128;
        pack_rational(n, d)
    }

    pub fn mul(&self, other: &Rational) -> (r: Option<Rational>)
        requires
            self.wf(),
            other.wf(),
        ensures
            r == self.spec_mul(*other),
            match r {
                Some(v) => v.wf(),
                None => true,
            },
    {
        proof {
            lemma_i64_product_bounds(self.num as int, other.num as int);
            lemma_num_den_product_bounds(self.den as int, other.den as int);
        }
        let n: i128 = self.num as i128 * other.num as i128;
        let d: i128 = self.den as i128 * other.den as i128;
        pack_rational(n, d)
    }

    pub fn div(&self, other: &Rational) -> (r: Option<Rational>)
        requires
            self.wf(),
            other.wf(),
            other.num != 0,
        ensures
            r == self.spec_div(*other),
            match r {
                Some(v) => v.wf(),
                None => true,
            },
    {
        proof {
            lemma_num_den_product_bounds(self.num as int, other.den as int);
            lemma_i64_product_bounds(self.den as int, other.num as int);
            assert(-0x4000_0000_0000_0000_0000_0000_0000_0000 <= self.den as int * -(
            other.num as int) <= 0x4000_0000_0000_0000_0000_0000_0000_0000) by (nonlinear_arith)
                requires
                    1 <= self.den as int <= 0x7fff_ffff_ffff_ffff,
                    -0x8000_0000_0000_0000 <= other.num as int <= 0x7fff_ffff_ffff_ffff,
            ;
        }
        if other.num < 0 {
            let n: i128 = -(self.num as i128 * other.den as i128);
            let d: i128 = self.den as i128 * -(other.num as i128);
            pack_rational(n, d)
        } else {
            let n: i128 = self.num as i128 * other.den as i128;
            let d: i128 = self.den as i128 * other.num as i128;
            pack_rational(n, d)
        }
    }

    pub fn neg(&self) -> (r: Option<Rational>)
        requires
            self.wf(),
        ensures
            r == self.spec_neg(),
            match r {
                Some(v) => v.wf(),
                None => true,
            },
    {
        if self.num == i64::MIN {
            None
        } else {
            Some(Rational { num: -self.num, den: self.den })
        }
    }
}

/// The precedence of a binary operator token; higher binds tighter.
pub type Precedence = u8;

/// A lexical unit of an expression: a number literal or one of the
/// operator and parenthesis symbols.
#[derive(Clone, Copy, PartialEq, Eq, Structural, Debug)]
pub enum Token {
    Number(Rational),
    Plus,
    Minus,
    Times,
    Divide,
    Left,
    Right,
}

impl Token {
    /// A token is well-formed when any number it carries is.
    pub open spec fn wf(self) -> bool {
        match self {
            Token::Number(r) => r.wf(),
            _ => true,
        }
    }

    pub open spec fn spec_precedence(self) -> Precedence {
        match self {
            Token::Times | Token::Divide => 2,
            Token::Plus | Token::Minus => 1,
            _ => 0,
        }
    }

    pub open spec fn spec_binary(self) -> bool {
        match self {
            Token::Plus | Token::Minus | Token::Times | Token::Divide => true,
            _ => false,
        }
    }

    pub open spec fn spec_unary(self) -> bool {
        match self {
            Token::Plus | Token::Minus => true,
            _ => false,
        }
    }

    /// What applying this token as a binary operator yields: the exact
    /// result, a division-by-zero or overflow failure, or a report that the
    /// token is no binary operator at all.
    pub open spec fn spec_binary_apply(self, left: Rational, right: Rational) -> Result<
        Rational,
        MathError,
    > {
        match self {
            Token::Plus => match left.spec_add(right) {
                Some(v) => Ok(v),
                None => Err(MathError::Overflow),
            },
            Token::Minus => match left.spec_sub(right) {
                Some(v) => Ok(v),
                None => Err(MathError::Overflow),
            },
            Token::Times => match left.spec_mul(right) {
                Some(v) => Ok(v),
                None => Err(MathError::Overflow),
            },
            Token::Divide => if right.num == 0 {
                Err(MathError::DivisionByZero)
            } else {
                match left.spec_div(right) {
                    Some(v) => Ok(v),
                    None => Err(MathError::Overflow),
                }
            },
            _ => Err(MathError::NotBinary),
        }
    }

    /// What applying this token as a unary prefix yields.
    pub open spec fn spec_unary_apply(self, number: Rational) -> Result<Rational, MathError> {
        match self {
            Token::Plus => Ok(number),
            Token::Minus => match number.spec_neg() {
                Some(v) => Ok(v),
                None => Err(MathError::Overflow),
            },
            _ => Err(MathError::NotUnary),
        }
    }

    pub fn precedence(&self) -> (p: Precedence)
        ensures
            p == self.spec_precedence(),
    {
        match *self {
            Token::Times | Token::Divide => 2,
            Token::Plus | Token::Minus => 1,
            _ => 0,
        }
    }

    pub fn binary(&self) -> (r: bool)
        ensures
            r == self.spec_binary(),
    {
        match *self {
            Token::Plus | Token::Minus | Token::Times | Token::Divide => true,
            _ => false,
        }
    }

    pub fn unary(&self) -> (r: bool)
        ensures
            r == self.spec_unary(),
    {
        match *self {
            Token::Plus | Token::Minus => true,
            _ => false,
        }
    }

    pub fn binary_apply(&self, left: Rational, right: Rational) -> (r: Result<
        Rational,
        ArithmeticError,
    >)
        requires
            left.wf(),
            right.wf(),
        ensures
            match r {
                Ok(v) => self.spec_binary_apply(left, right) == Ok::<Rational, MathError>(v)
                    && v.wf(),
                Err(e) => self.spec_binary_apply(left, right) is Err && e@ == math_error_message(
                    self.spec_binary_apply(left, right)->Err_0,
                ),
            },
    {
        match *self {
            Token::Plus => match left.add(&right) {
                Some(v) => Ok(v),
                None => Err(ArithmeticError::new("arithmetic overflow")),
            },
            Token::Minus => match left.sub(&right) {
                Some(v) => Ok(v),
                None => Err(ArithmeticError::new("arithmetic overflow")),
            },
            Token::Times => match left.mul(&right) {
                Some(v) => Ok(v),
                None => Err(ArithmeticError::new("arithmetic overflow")),
            },
            Token::Divide => {
                if right.num != 0 {
                    match left.div(&right) {
                        Some(v) => Ok(v),
                        None => Err(ArithmeticError::new("arithmetic overflow")),
                    }
                } else {
                    Err(ArithmeticError::new("division by zero"))
                }
            },
            _ => Err(ArithmeticError::new("invalid binary operator")),
        }
    }

    pub fn unary_apply(&self, number: Rational) -> (r: Result<Rational, ArithmeticError>)
        requires
            number.wf(),
        ensures
            match r {
                Ok(v) => self.spec_unary_apply(number) == Ok::<Rational, MathError>(v) && v.wf(),
                Err(e) => self.spec_unary_apply(number) is Err && e@ == math_error_message(
                    self.spec_unary_apply(number)->Err_0,
                ),
            },
    {
        match *self {
            Token::Plus => Ok(number),
            Token::Minus => match number.neg() {
                Some(v) => Ok(v),
                None => Err(ArithmeticError::new("arithmetic overflow")),
            },
            _ => Err(ArithmeticError::new("invalid unary operator")),
        }
    }
}

} // verus!
