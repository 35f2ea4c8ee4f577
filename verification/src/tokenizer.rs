//! Turns expression text (as bytes) into a stack of tokens whose pop order
//! matches the text's left-to-right order.
//!
//! The whole scan is specified by `tokens_from`, a recursive description of
//! the token sequence an input denotes, and `tokenize` is proved to return
//! exactly that sequence or exactly the specified error.

use crate::arithmetic::{ArithmeticError, Rational, Token};
use crate::stack::Stack;
use vstd::prelude::*;

verus! {

/// The ways tokenization can fail: a byte that starts no token, or a numeric
/// literal whose exact value does not fit the number representation.
#[derive(Clone, Copy, PartialEq, Eq, Structural, Debug)]
pub enum TokenError {
    InvalidCharacter(u8),
    NumberTooLarge,
}

/// The message text carried by each tokenization failure.
pub open spec fn token_error_message(e: TokenError) -> Seq<char> {
    match e {
        TokenError::InvalidCharacter(c) => invalid_character_message(c),
        TokenError::NumberTooLarge => "number out of range"@,
    }
}

/// The message naming a byte that starts no token.
pub open spec fn invalid_character_message(c: u8) -> Seq<char> {
    "invalid character "@ + seq![c as char]
}

pub open spec fn is_digit(c: u8) -> bool {
    48 <= c <= 57
}

pub open spec fn is_space(c: u8) -> bool {
    c == 32 || c == 9 || c == 10 || c == 13
}

/// The token denoted by a single operator or parenthesis byte.
pub open spec fn symbol_token(c: u8) -> Option<Token> {
    if c == 43 {
        Some(Token::Plus)
    } else if c == 45 {
        Some(Token::Minus)
    } else if c == 42 {
        Some(Token::Times)
    } else if c == 47 {
        Some(Token::Divide)
    } else if c == 40 {
        Some(Token::Left)
    } else if c == 41 {
        Some(Token::Right)
    } else {
        None
    }
}

/// Ten to the power `p` (one for a non-positive `p`).
pub open spec fn pow10(p: int) -> int
    decreases p,
{
    if p <= 0 {
        1
    } else {
        10 * pow10(p - 1)
    }
}

proof fn lemma_pow10_positive(p: int)
    ensures
        pow10(p) >= 1,
    decreases p,
{
    if p > 0 {
        lemma_pow10_positive(p - 1);
    }
}

proof fn lemma_pow10_monotone(a: int, b: int)
    requires
        a <= b,
    ensures
        pow10(a) <= pow10(b),
    decreases b - a,
{
    if a < b {
        lemma_pow10_monotone(a, b - 1);
        lemma_pow10_positive(b - 1);
    }
}

/// Scanning a numeric literal from position `i`: digits accumulate into the
/// integer `acc` by `acc * 10 + digit`; a decimal point switches to
/// fractional mode (`radix`), after which `place` counts the digits
/// consumed. The scan stops at the first byte that is neither a digit nor a
/// point and yields the numerator, the denominator `10^place`, and the stop
/// position — or `None` when either part outgrows 64 bits.
pub open spec fn scan_number(s: Seq<u8>, i: int, acc: int, place: int, radix: bool) -> Option<
    (int, int, int),
>
    decreases s.len() - i,
{
    if 0 <= i < s.len() && (is_digit(s[i]) || s[i] == 46) {
        if is_digit(s[i]) {
            let acc2 = acc * 10 + (s[i] - 48);
            if acc2 > i64::MAX {
                None
            } else {
                scan_number(s, i + 1, acc2, if radix { place + 1 } else { place }, radix)
            }
        } else {
            scan_number(s, i + 1, acc, place, true)
        }
    } else {
        if radix {
            if pow10(place) > i64::MAX {
                None
            } else {
                Some((acc, pow10(place), i))
            }
        } else {
            Some((acc, 1, i))
        }
    }
}

/// A successful number scan stops between its start and the end of the
/// input, and its parts are a fitting non-negative numerator and a fitting
/// positive denominator.
proof fn lemma_scan_number_bounds(s: Seq<u8>, i: int, acc: int, place: int, radix: bool)
    requires
        0 <= i <= s.len(),
        0 <= acc <= i64::MAX,
        0 <= place,
    ensures
        match scan_number(s, i, acc, place, radix) {
            Some(t) => i <= t.2 <= s.len() && 0 <= t.0 <= i64::MAX && 1 <= t.1 <= i64::MAX,
            None => true,
        },
    decreases s.len() - i,
{
    if 0 <= i < s.len() && (is_digit(s[i]) || s[i] == 46) {
        if is_digit(s[i]) {
            let acc2 = acc * 10 + (s[i] - 48);
            if acc2 <= i64::MAX {
                lemma_scan_number_bounds(
                    s,
                    i + 1,
                    acc2,
                    if radix {
                        place + 1
                    } else {
                        place
                    },
                    radix,
                );
            }
        } else {
            lemma_scan_number_bounds(s, i + 1, acc, place, true);
        }
    } else {
        lemma_pow10_positive(place);
    }
}

/// The token sequence that the input `s` denotes from position `i` onward,
/// appended to the tokens `acc` already produced: digits start a number
/// scan, operator and parenthesis bytes each make one token, whitespace is
/// skipped, and any other byte is an invalid character.
pub open spec fn tokens_from(s: Seq<u8>, i: int, acc: Seq<Token>) -> Result<Seq<Token>, TokenError>
    decreases s.len() - i,
        via tokens_from_decreases
{
    if !(0 <= i < s.len()) {
        Ok(acc)
    } else {
        let c = s[i];
        if is_digit(c) {
            match scan_number(s, i + 1, (c - 48) as int, 0, false) {
                None => Err(TokenError::NumberTooLarge),
                Some(t) => tokens_from(
                    s,
                    t.2,
                    acc.push(Token::Number(Rational { num: t.0 as i64, den: t.1 as i64 })),
                ),
            }
        } else if is_space(c) {
            tokens_from(s, i + 1, acc)
        } else {
            match symbol_token(c) {
                Some(t) => tokens_from(s, i + 1, acc.push(t)),
                None => Err(TokenError::InvalidCharacter(c)),
            }
        }
    }
}

#[via_fn]
proof fn tokens_from_decreases(s: Seq<u8>, i: int, acc: Seq<Token>) {
    if 0 <= i < s.len() && is_digit(s[i]) {
        lemma_scan_number_bounds(s, i + 1, (s[i] - 48) as int, 0, false);
    }
}

/// Every token in a sequence is well-formed.
pub open spec fn tokens_wf(ts: Seq<Token>) -> bool {
    forall|k: int| 0 <= k < ts.len() ==> (#[trigger] ts[k]).wf()
}

/// Relies on `format!` over `char`: it renders the byte, cast to the
/// character with the same code point, after the fixed prefix.
#[verifier::external_body]
fn invalid_character_text(c: u8) -> (r: String)
    ensures
        r@ == invalid_character_message(c),
{
    format!("invalid character {}", c as char)
}

/// Converts expression text into a stack of tokens whose pop order is the
/// left-to-right order of the text, exactly as `tokens_from` describes, or
/// fails with the error `tokens_from` assigns to the input.
#[verifier::loop_isolation(false)]
pub fn tokenize(input: &[u8]) -> (r: Result<Stack<Token>, ArithmeticError>)
    ensures
        match r {
            Ok(st) => tokens_from(input@, 0, Seq::empty()) == Ok::<Seq<Token>, TokenError>(st@)
                && tokens_wf(st@),
            Err(e) => tokens_from(input@, 0, Seq::empty()) is Err && e@ == token_error_message(
                tokens_from(input@, 0, Seq::empty())->Err_0,
            ),
        },
{
    let ghost s = input@;
    let mut result: Stack<Token> = Stack::new();
    let mut i: usize = 0;
    while i < input.len()
        invariant
            0 <= i <= input.len(),
            s == input@,
            tokens_from(s, 0, Seq::empty()) == tokens_from(s, i as int, result@.reverse()),
            tokens_wf(result@.reverse()),
        decreases input.len() - i,
    {
        let c = input[i];
        let ghost pre = result@.reverse();
        if 48 <= c && c <= 57 {
            let ghost i0 = i as int;
            let mut acc: i64 = (c - 48) as i64;
            let mut place: usize = 0;
            let mut radix: bool = false;
            i = i + 1;
            while i < input.len() && (
            (48 <= input[i] && input[i] <= 57) || input[i] == 46)
                invariant
                    i0 + 1 <= i <= input.len(),
                    s == input@,
                    0 <= acc,
                    place <= i,
                    scan_number(s, i0 + 1, (s[i0] - 48) as int, 0, false) == scan_number(
                        s,
                        i as int,
                        acc as int,
                        place as int,
                        radix,
                    ),
                decreases input.len() - i,
            {
                let c2 = input[i];
                if 48 <= c2 && c2 <= 57 {
                    let wide: i128 = acc as i128 * 10 + (c2 - 48) as i128;
                    if wide > i64::MAX as i128 {
                        return Err(ArithmeticError::new("number out of range"));
                    }
                    acc = wide as i64;
                    if radix {
                        place = place + 1;
                    }
                } else {
                    radix = true;
                }
                i = i + 1;
            }
            let den: i64;
            if radix {
                if place > 18 {
                    proof {
                        lemma_pow10_monotone(19, place as int);
                        reveal_with_fuel(pow10, 21);
                        assert(pow10(19) == 10_000_000_000_000_000_000);
                    }
                    return Err(ArithmeticError::new("number out of range"));
                }
                let mut d: i64 = 1;
                let mut j: usize = 0;
                proof {
                    reveal_with_fuel(pow10, 20);
                    assert(pow10(18) == 1_000_000_000_000_000_000);
                }
                while j < place
                    invariant
                        j <= place <= 18,
                        d == pow10(j as int),
                        pow10(18) == 1_000_000_000_000_000_000,
                    decreases place - j,
                {
                    proof {
                        lemma_pow10_monotone(j as int + 1, 18);
                        lemma_pow10_positive(j as int);
                    }
                    d = d * 10;
                    j = j + 1;
                }
                den = d;
            } else {
                den = 1;
            }
            proof {
                lemma_pow10_positive(place as int);
            }
            let token = Token::Number(Rational { num: acc, den });
            result.push(token);
            proof {
                assert(scan_number(s, i as int, acc as int, place as int, radix) == Some(
                    (acc as int, den as int, i as int),
                ));
                assert(result@.reverse() =~= pre.push(token));
                assert(tokens_from(s, i0, pre) == tokens_from(s, i as int, pre.push(token)));
            }
        } else if c == 43 || c == 45 || c == 42 || c == 47 || c == 40 || c == 41 {
            let token = match c {
                43 => Token::Plus,
                45 => Token::Minus,
                42 => Token::Times,
                47 => Token::Divide,
                40 => Token::Left,
                _ => Token::Right,
            };
            result.push(token);
            i = i + 1;
            proof {
                assert(result@.reverse() =~= pre.push(token));
            }
        } else if c == 32 || c == 9 || c == 10 || c == 13 {
            i = i + 1;
        } else {
            let text = invalid_character_text(c);
            return Err(ArithmeticError::new(text.as_str()));
        }
    }
    proof {
        assert(tokens_from(s, i as int, result@.reverse()) == Ok::<Seq<Token>, TokenError>(
            result@.reverse(),
        ));
    }
    let reversed = result.reversed();
    proof {
        assert(reversed@ =~= result@.reverse());
    }
    Ok(reversed)
}

} // verus!
