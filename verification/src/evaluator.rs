//! Consumes a token stack destructively and computes the value of the
//! expression it encodes, by precedence climbing.
//!
//! The meaning of a token sequence is fixed by the spec functions
//! `spec_primary`, `spec_expression`, `spec_climb` and `spec_evaluate`:
//! `*` and `/` bind tighter than `+` and `-`, equal precedence associates to
//! the left, parentheses group, and a leading `-` negates a primary. The
//! executable functions are proved to return exactly the value or exactly
//! the error that those spec functions assign to their input.

use crate::arithmetic::{ArithmeticError, MathError, Precedence, Rational, Token};
use crate::arithmetic::math_error_message;
use crate::stack::Stack;
use crate::tokenizer::{token_error_message, tokenize, tokens_from, tokens_wf};
use vstd::prelude::*;

verus! {

/// The ways evaluation can fail.
#[derive(Clone, Copy, PartialEq, Eq, Structural, Debug)]
pub enum EvalError {
    /// A token that cannot start a primary stood where one was expected.
    UnexpectedToken,
    /// A parenthesized sub-expression was not followed by `)`.
    ExpectedClosingParen,
    /// An operator application failed (division by zero or overflow).
    Math(MathError),
    /// Tokens were left over after a complete expression.
    TrailingTokens,
}

/// The message text carried by each evaluation failure.
pub open spec fn eval_error_message(e: EvalError) -> Seq<char> {
    match e {
        EvalError::UnexpectedToken => "unexpected token"@,
        EvalError::ExpectedClosingParen => "expected closing paren"@,
        EvalError::Math(m) => math_error_message(m),
        EvalError::TrailingTokens => "not all of expression was parsed"@,
    }
}

/// The value and remaining tokens of one primary: a number, a negated
/// primary, or a parenthesized sub-expression that must close with `)`.
pub open spec fn spec_primary(ts: Seq<Token>) -> Result<(Rational, Seq<Token>), EvalError>
    decreases ts.len(), 0int,
{
    if ts.len() == 0 {
        Err(EvalError::UnexpectedToken)
    } else {
        match ts[0] {
            Token::Left => match spec_subexpression(ts.drop_first()) {
                Ok(t) => if t.1.len() > 0 && t.1[0] == Token::Right {
                    Ok((t.0, t.1.drop_first()))
                } else {
                    Err(EvalError::ExpectedClosingParen)
                },
                Err(e) => Err(e),
            },
            Token::Minus => match spec_primary(ts.drop_first()) {
                Ok(t) => match t.0.spec_neg() {
                    Some(n) => Ok((n, t.1)),
                    None => Err(EvalError::Math(MathError::Overflow)),
                },
                Err(e) => Err(e),
            },
            Token::Number(r) => Ok((r, ts.drop_first())),
            _ => Err(EvalError::UnexpectedToken),
        }
    }
}

/// The precedence-climbing step: while the next token is a binary operator
/// at or above `min_prec`, take it, evaluate one primary, fold in any
/// tighter-binding operators that follow, and apply the operator to the
/// running left value. The length tests hold of every evaluation (a primary
/// always consumes a token) and only bound the recursion.
pub open spec fn spec_expression(left: Rational, min_prec: Precedence, ts: Seq<Token>) -> Result<
    (Rational, Seq<Token>),
    EvalError,
>
    decreases ts.len(), 1int,
{
    if ts.len() > 0 && ts[0].spec_binary() && ts[0].spec_precedence() >= min_prec {
        let op = ts[0];
        match spec_primary(ts.drop_first()) {
            Ok(t) => if t.1.len() < ts.len() {
                match spec_climb(t.0, op.spec_precedence(), t.1) {
                    Ok(u) => match op.spec_binary_apply(left, u.0) {
                        Ok(v) => if u.1.len() < ts.len() {
                            spec_expression(v, min_prec, u.1)
                        } else {
                            Err(EvalError::UnexpectedToken)
                        },
                        Err(m) => Err(EvalError::Math(m)),
                    },
                    Err(e) => Err(e),
                }
            } else {
                Err(EvalError::UnexpectedToken)
            },
            Err(e) => Err(e),
        }
    } else {
        Ok((left, ts))
    }
}

/// Folds operators that bind tighter than `op_prec` into the right operand:
/// while the next token is a binary operator of strictly higher precedence,
/// continue climbing from the right value at that precedence.
pub open spec fn spec_climb(right: Rational, op_prec: Precedence, ts: Seq<Token>) -> Result<
    (Rational, Seq<Token>),
    EvalError,
>
    decreases ts.len(), 2int,
{
    if ts.len() > 0 && ts[0].spec_binary() && ts[0].spec_precedence() > op_prec {
        match spec_expression(right, ts[0].spec_precedence(), ts) {
            Ok(t) => if t.1.len() < ts.len() {
                spec_climb(t.0, op_prec, t.1)
            } else {
                Err(EvalError::UnexpectedToken)
            },
            Err(e) => Err(e),
        }
    } else {
        Ok((right, ts))
    }
}

/// One full sub-expression: a primary followed by the climbing loop with
/// the lowest threshold, which admits every binary operator.
pub open spec fn spec_subexpression(ts: Seq<Token>) -> Result<(Rational, Seq<Token>), EvalError>
    decreases ts.len(), 3int,
{
    match spec_primary(ts) {
        Ok(t) => if t.1.len() < ts.len() {
            spec_expression(t.0, 0, t.1)
        } else {
            Err(EvalError::UnexpectedToken)
        },
        Err(e) => Err(e),
    }
}

/// The value of a whole token sequence: one sub-expression, which must
/// consume every token, else the input has trailing tokens.
pub open spec fn spec_evaluate(ts: Seq<Token>) -> Result<Rational, EvalError> {
    match spec_subexpression(ts) {
        Ok(t) => if t.1.len() == 0 {
            Ok(t.0)
        } else {
            Err(EvalError::TrailingTokens)
        },
        Err(e) => Err(e),
    }
}

/// Dropping the front token keeps every remaining token well-formed.
proof fn lemma_tokens_wf_drop_first(ts: Seq<Token>)
    requires
        tokens_wf(ts),
        ts.len() > 0,
    ensures
        tokens_wf(ts.drop_first()),
{
    assert forall|k: int| 0 <= k < ts.drop_first().len() implies (#[trigger] ts.drop_first()[
        k
    ]).wf() by {
        assert(ts.drop_first()[k] == ts[k + 1]);
    }
}

/// Returns the precedence of the next token when it is a binary operator
/// binding strictly tighter than `minimum_precedence`; the stack is left
/// unchanged.
pub fn precedence_if_reducible(tokens: &mut Stack<Token>, minimum_precedence: Precedence) -> (r:
    Option<Precedence>)
    ensures
        *final(tokens) == *old(tokens),
        r == (if old(tokens)@.len() > 0 && old(tokens)@[0].spec_binary() && old(
            tokens,
        )@[0].spec_precedence() > minimum_precedence {
            Some(old(tokens)@[0].spec_precedence())
        } else {
            None::<Precedence>
        }),
{
    match tokens.peek() {
        None => None,
        Some(token) => {
            let precedence = token.precedence();
            if token.binary() && precedence > minimum_precedence {
                Some(precedence)
            } else {
                None
            }
        },
    }
}

/// Pops and returns the next token when it is a binary operator binding at
/// least as tightly as `minimum_precedence`; otherwise consumes nothing.
pub fn pop_if_reducible(tokens: &mut Stack<Token>, minimum_precedence: Precedence) -> (r: Option<
    Token,
>)
    ensures
        if old(tokens)@.len() > 0 && old(tokens)@[0].spec_binary() && old(
            tokens,
        )@[0].spec_precedence() >= minimum_precedence {
            r == Some(old(tokens)@[0]) && final(tokens)@ == old(tokens)@.drop_first()
        } else {
            r == None::<Token> && *final(tokens) == *old(tokens)
        },
{
    let reducible = match tokens.peek() {
        None => false,
        Some(token) => token.binary() && token.precedence() >= minimum_precedence,
    };
    if reducible {
        tokens.pop()
    } else {
        None
    }
}

/// Pops and evaluates one primary, exactly as `spec_primary` describes.
pub fn evaluate_primary(tokens: &mut Stack<Token>) -> (r: Result<Rational, ArithmeticError>)
    requires
        tokens_wf(old(tokens)@),
    ensures
        match r {
            Ok(v) => spec_primary(old(tokens)@) == Ok::<(Rational, Seq<Token>), EvalError>(
                (v, final(tokens)@),
            ) && final(tokens)@.len() < old(tokens)@.len() && v.wf() && tokens_wf(final(tokens)@),
            Err(e) => spec_primary(old(tokens)@) is Err && e@ == eval_error_message(
                spec_primary(old(tokens)@)->Err_0,
            ),
        },
    decreases old(tokens)@.len(), 0int,
{
    let ghost ts0 = tokens@;
    let top_token = tokens.pop();
    proof {
        if ts0.len() > 0 {
            lemma_tokens_wf_drop_first(ts0);
        }
    }
    match top_token {
        Some(Token::Left) => {
            let result = match evaluate_subexpression(tokens) {
                Ok(v) => v,
                Err(e) => {
                    return Err(e);
                },
            };
            proof {
                if tokens@.len() > 0 {
                    lemma_tokens_wf_drop_first(tokens@);
                }
            }
            match tokens.pop() {
                Some(Token::Right) => Ok(result),
                _ => Err(ArithmeticError::new("expected closing paren")),
            }
        },
        Some(Token::Minus) => {
            let value = match evaluate_primary(tokens) {
                Ok(v) => v,
                Err(e) => {
                    return Err(e);
                },
            };
            match value.neg() {
                Some(n) => Ok(n),
                None => Err(ArithmeticError::new("arithmetic overflow")),
            }
        },
        Some(Token::Number(value)) => Ok(value),
        _ => Err(ArithmeticError::new("unexpected token")),
    }
}

/// The climbing loop at threshold `minimum_precedence`, exactly as
/// `spec_expression` describes.
pub fn evaluate_expression(
    tokens: &mut Stack<Token>,
    left: Rational,
    minimum_precedence: Precedence,
) -> (r: Result<Rational, ArithmeticError>)
    requires
        tokens_wf(old(tokens)@),
        left.wf(),
    ensures
        match r {
            Ok(v) => spec_expression(left, minimum_precedence, old(tokens)@) == Ok::<
                (Rational, Seq<Token>),
                EvalError,
            >((v, final(tokens)@)) && final(tokens)@.len() <= old(tokens)@.len() && (old(
                tokens,
            )@.len() > 0 && old(tokens)@[0].spec_binary() && old(tokens)@[0].spec_precedence()
                >= minimum_precedence ==> final(tokens)@.len() < old(tokens)@.len()) && v.wf()
                && tokens_wf(final(tokens)@),
            Err(e) => spec_expression(left, minimum_precedence, old(tokens)@) is Err && e@
                == eval_error_message(spec_expression(left, minimum_precedence, old(tokens)@)->Err_0),
        },
    decreases old(tokens)@.len(), 1int,
{
    let ghost ts0 = tokens@;
    let operator = match pop_if_reducible(tokens, minimum_precedence) {
        Some(op) => op,
        None => {
            return Ok(left);
        },
    };
    proof {
        lemma_tokens_wf_drop_first(ts0);
    }
    let right_start = match evaluate_primary(tokens) {
        Ok(v) => v,
        Err(e) => {
            return Err(e);
        },
    };
    let right = match evaluate_climb(tokens, right_start, operator.precedence()) {
        Ok(v) => v,
        Err(e) => {
            return Err(e);
        },
    };
    let folded = match operator.binary_apply(left, right) {
        Ok(v) => v,
        Err(e) => {
            return Err(e);
        },
    };
    evaluate_expression(tokens, folded, minimum_precedence)
}

/// Folds tighter-binding operators into the right operand, exactly as
/// `spec_climb` describes.
pub fn evaluate_climb(tokens: &mut Stack<Token>, right: Rational, operator_precedence: Precedence)
    -> (r: Result<Rational, ArithmeticError>)
    requires
        tokens_wf(old(tokens)@),
        right.wf(),
    ensures
        match r {
            Ok(v) => spec_climb(right, operator_precedence, old(tokens)@) == Ok::<
                (Rational, Seq<Token>),
                EvalError,
            >((v, final(tokens)@)) && final(tokens)@.len() <= old(tokens)@.len() && v.wf()
                && tokens_wf(final(tokens)@),
            Err(e) => spec_climb(right, operator_precedence, old(tokens)@) is Err && e@
                == eval_error_message(
                spec_climb(right, operator_precedence, old(tokens)@)->Err_0,
            ),
        },
    decreases old(tokens)@.len(), 2int,
{
    let new_minimum = match precedence_if_reducible(tokens, operator_precedence) {
        Some(p) => p,
        None => {
            return Ok(right);
        },
    };
    let value = match evaluate_expression(tokens, right, new_minimum) {
        Ok(v) => v,
        Err(e) => {
            return Err(e);
        },
    };
    evaluate_climb(tokens, value, operator_precedence)
}

/// One full sub-expression: a primary, then climbing with the lowest
/// threshold, exactly as `spec_subexpression` describes.
pub fn evaluate_subexpression(tokens: &mut Stack<Token>) -> (r: Result<Rational, ArithmeticError>)
    requires
        tokens_wf(old(tokens)@),
    ensures
        match r {
            Ok(v) => spec_subexpression(old(tokens)@) == Ok::<(Rational, Seq<Token>), EvalError>(
                (v, final(tokens)@),
            ) && final(tokens)@.len() < old(tokens)@.len() && v.wf() && tokens_wf(final(tokens)@),
            Err(e) => spec_subexpression(old(tokens)@) is Err && e@ == eval_error_message(
                spec_subexpression(old(tokens)@)->Err_0,
            ),
        },
    decreases old(tokens)@.len(), 3int,
{
    let left = match evaluate_primary(tokens) {
        Ok(v) => v,
        Err(e) => {
            return Err(e);
        },
    };
    evaluate_expression(tokens, left, 0)
}

/// Evaluates a whole token stack: the result of `spec_evaluate` on the
/// stack's contents, with every token consumed on success; trailing tokens
/// after a complete expression are an error.
pub fn evaluate(tokens: &mut Stack<Token>) -> (r: Result<Rational, ArithmeticError>)
    requires
        tokens_wf(old(tokens)@),
    ensures
        match r {
            Ok(v) => spec_evaluate(old(tokens)@) == Ok::<Rational, EvalError>(v) && v.wf()
                && final(tokens)@.len() == 0,
            Err(e) => spec_evaluate(old(tokens)@) is Err && e@ == eval_error_message(
                spec_evaluate(old(tokens)@)->Err_0,
            ),
        },
{
    let result = match evaluate_subexpression(tokens) {
        Ok(v) => v,
        Err(e) => {
            return Err(e);
        },
    };
    match tokens.peek() {
        Some(_) => Err(ArithmeticError::new("not all of expression was parsed")),
        None => Ok(result),
    }
}

/// Evaluates a whole expression given as text: tokenizing then evaluating,
/// so that well-formed infix arithmetic (with `*` and `/` binding tighter
/// than `+` and `-`, left associativity at equal precedence, parentheses
/// grouping and unary minus) yields exactly the value the spec functions
/// assign, and every malformed input yields exactly the specified error.
pub fn evaluate_text(input: &[u8]) -> (r: Result<Rational, ArithmeticError>)
    ensures
        match r {
            Ok(v) => tokens_from(input@, 0, Seq::empty()) is Ok && spec_evaluate(
                tokens_from(input@, 0, Seq::empty())->Ok_0,
            ) == Ok::<Rational, EvalError>(v) && v.wf(),
            Err(e) => match tokens_from(input@, 0, Seq::empty()) {
                Err(te) => e@ == token_error_message(te),
                Ok(ts) => spec_evaluate(ts) is Err && e@ == eval_error_message(
                    spec_evaluate(ts)->Err_0,
                ),
            },
        },
{
    let mut tokens = match tokenize(input) {
        Ok(t) => t,
        Err(e) => {
            return Err(e);
        },
    };
    evaluate(&mut tokens)
}

} // verus!
