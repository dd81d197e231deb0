use vstd::prelude::*;

use crate::ast::Diagnostic;
use crate::ast::ErrorKind;
use crate::ast::Value;
use crate::token::TokenKind;

verus! {

/// Truncating division, the object language's `/` on integers (round toward
/// zero, as the host machine divides).
pub open spec fn trunc_div(x: int, d: int) -> int
    recommends
        d != 0,
{
    if x == 0 {
        0
    } else if x > 0 && d > 0 {
        x / d
    } else if x < 0 && d < 0 {
        (x * -1) / (d * -1)
    } else if x < 0 {
        ((x * -1) / d) * -1
    } else {
        (x / (d * -1)) * -1
    }
}

/// Truncating remainder, so that `x == trunc_div(x, d) * d + trunc_rem(x, d)`.
pub open spec fn trunc_rem(x: int, d: int) -> int
    recommends
        d != 0,
{
    if x == 0 {
        0
    } else if x > 0 && d > 0 {
        x % d
    } else if x < 0 && d < 0 {
        ((x * -1) % (d * -1)) * -1
    } else if x < 0 {
        ((x * -1) % d) * -1
    } else {
        x % (d * -1)
    }
}

/// Truncating division and remainder reassemble the dividend.
pub proof fn lemma_trunc_div_rem(x: int, d: int)
    requires
        d != 0,
    ensures
        trunc_div(x, d) * d + trunc_rem(x, d) == x,
{
    if x == 0 {
    } else if x > 0 && d > 0 {
        vstd::arithmetic::div_mod::lemma_fundamental_div_mod(x, d);
        assert(trunc_div(x, d) * d + trunc_rem(x, d) == x) by (nonlinear_arith)
            requires
                x == d * (x / d) + (x % d),
                trunc_div(x, d) == x / d,
                trunc_rem(x, d) == x % d,
        {}
    } else if x < 0 && d < 0 {
        let a = x * -1;
        let b = d * -1;
        vstd::arithmetic::div_mod::lemma_fundamental_div_mod(a, b);
        assert(trunc_div(x, d) * d + trunc_rem(x, d) == x) by (nonlinear_arith)
            requires
                a == b * (a / b) + (a % b),
                trunc_div(x, d) == a / b,
                trunc_rem(x, d) == (a % b) * -1,
                a == x * -1,
                b == d * -1,
        {}
    } else if x < 0 {
        let a = x * -1;
        vstd::arithmetic::div_mod::lemma_fundamental_div_mod(a, d);
        assert(trunc_div(x, d) * d + trunc_rem(x, d) == x) by (nonlinear_arith)
            requires
                a == d * (a / d) + (a % d),
                trunc_div(x, d) == (a / d) * -1,
                trunc_rem(x, d) == (a % d) * -1,
                a == x * -1,
        {}
    } else {
        let b = d * -1;
        vstd::arithmetic::div_mod::lemma_fundamental_div_mod(x, b);
        assert(trunc_div(x, d) * d + trunc_rem(x, d) == x) by (nonlinear_arith)
            requires
                x == b * (x / b) + (x % b),
                trunc_div(x, d) == (x / b) * -1,
                trunc_rem(x, d) == x % b,
                b == d * -1,
        {}
    }
}

/// Does this operator take two numbers (arithmetic or ordering)?
pub open spec fn is_numeric_op(kind: TokenKind) -> bool {
    ||| kind == TokenKind::Plus
    ||| kind == TokenKind::Minus
    ||| kind == TokenKind::Star
    ||| kind == TokenKind::Slash
    ||| kind == TokenKind::Percent
    ||| kind == TokenKind::Greater
    ||| kind == TokenKind::GreaterEqual
    ||| kind == TokenKind::Less
    ||| kind == TokenKind::LessEqual
}

pub open spec fn is_ordering_op(kind: TokenKind) -> bool {
    ||| kind == TokenKind::Greater
    ||| kind == TokenKind::GreaterEqual
    ||| kind == TokenKind::Less
    ||| kind == TokenKind::LessEqual
}

/// What a binary operator yields on two integers: exact arithmetic within the
/// 128-bit signed range, an `IntegerOverflow` error outside it, and a
/// `DivisionByZero` error for a zero divisor. `5 / 2` is the integer `2`.
pub open spec fn int_arith(kind: TokenKind, m: i128, n: i128, line: i32) -> Result<
    Value,
    Diagnostic,
> {
    if kind == TokenKind::Plus {
        if i128::MIN <= m + n <= i128::MAX {
            Ok(Value::Int((m + n) as i128))
        } else {
            Err(Diagnostic { kind: ErrorKind::IntegerOverflow, line })
        }
    } else if kind == TokenKind::Minus {
        if i128::MIN <= m - n <= i128::MAX {
            Ok(Value::Int((m - n) as i128))
        } else {
            Err(Diagnostic { kind: ErrorKind::IntegerOverflow, line })
        }
    } else if kind == TokenKind::Star {
        if i128::MIN <= m * n <= i128::MAX {
            Ok(Value::Int((m * n) as i128))
        } else {
            Err(Diagnostic { kind: ErrorKind::IntegerOverflow, line })
        }
    } else if kind == TokenKind::Slash {
        if n == 0 {
            Err(Diagnostic { kind: ErrorKind::DivisionByZero, line })
        } else if i128::MIN <= trunc_div(m as int, n as int) <= i128::MAX {
            Ok(Value::Int(trunc_div(m as int, n as int) as i128))
        } else {
            Err(Diagnostic { kind: ErrorKind::IntegerOverflow, line })
        }
    } else if kind == TokenKind::Percent {
        if n == 0 {
            Err(Diagnostic { kind: ErrorKind::DivisionByZero, line })
        } else if m == i128::MIN && n == -1 {
            Err(Diagnostic { kind: ErrorKind::IntegerOverflow, line })
        } else {
            Ok(Value::Int(trunc_rem(m as int, n as int) as i128))
        }
    } else if kind == TokenKind::Greater {
        Ok(Value::Bool(m > n))
    } else if kind == TokenKind::GreaterEqual {
        Ok(Value::Bool(m >= n))
    } else if kind == TokenKind::Less {
        Ok(Value::Bool(m < n))
    } else if kind == TokenKind::LessEqual {
        Ok(Value::Bool(m <= n))
    } else {
        Ok(Value::Nil)
    }
}

/// Integer arithmetic through the checked operations, exactly `int_arith`.
pub fn int_binary(kind: TokenKind, m: i128, n: i128, line: i32) -> (r: Result<Value, Diagnostic>)
    ensures
        r == int_arith(kind, m, n, line),
{
    match kind {
        TokenKind::Plus => match m.checked_add(n) {
            Some(v) => Ok(Value::Int(v)),
            None => Err(Diagnostic { kind: ErrorKind::IntegerOverflow, line }),
        },
        TokenKind::Minus => match m.checked_sub(n) {
            Some(v) => Ok(Value::Int(v)),
            None => Err(Diagnostic { kind: ErrorKind::IntegerOverflow, line }),
        },
        TokenKind::Star => match m.checked_mul(n) {
            Some(v) => Ok(Value::Int(v)),
            None => Err(Diagnostic { kind: ErrorKind::IntegerOverflow, line }),
        },
        TokenKind::Slash => {
            if n == 0 {
                Err(Diagnostic { kind: ErrorKind::DivisionByZero, line })
            } else {
                match m.checked_div(n) {
                    Some(v) => Ok(Value::Int(v)),
                    None => Err(Diagnostic { kind: ErrorKind::IntegerOverflow, line }),
                }
            }
        },
        TokenKind::Percent => {
            if n == 0 {
                Err(Diagnostic { kind: ErrorKind::DivisionByZero, line })
            } else {
                match m.checked_rem(n) {
                    Some(v) => Ok(Value::Int(v)),
                    None => Err(Diagnostic { kind: ErrorKind::IntegerOverflow, line }),
                }
            }
        },
        TokenKind::Greater => Ok(Value::Bool(m > n)),
        TokenKind::GreaterEqual => Ok(Value::Bool(m >= n)),
        TokenKind::Less => Ok(Value::Bool(m < n)),
        TokenKind::LessEqual => Ok(Value::Bool(m <= n)),
        _ => Ok(Value::Nil),
    }
}

/// The decimal digits of a nonnegative number, most significant first.
pub open spec fn dec_digits(m: nat) -> Seq<u8>
    decreases m,
{
    if m < 10 {
        seq![(48 + m) as u8]
    } else {
        dec_digits(m / 10).push((48 + m % 10) as u8)
    }
}

/// The decimal rendering of an integer: a minus sign for negatives, then the
/// digits.
pub open spec fn dec_rep(n: int) -> Seq<u8> {
    if n < 0 {
        seq![45u8] + dec_digits((-n) as nat)
    } else {
        dec_digits(n as nat)
    }
}

pub open spec fn bool_text(b: bool) -> Seq<u8> {
    if b {
        seq![116u8, 114u8, 117u8, 101u8]  // "true"
    } else {
        seq![102u8, 97u8, 108u8, 115u8, 101u8]  // "false"
    }
}

pub open spec fn nil_text() -> Seq<u8> {
    seq![110u8, 111u8, 110u8, 101u8]  // "none"
}

/// Render an integer in decimal.
pub fn int_to_bytes(n: i128) -> (r: Vec<u8>)
    ensures
        r@ == dec_rep(n as int),
{
    let neg = n < 0;
    let mut mag: u128 = if n >= 0 {
        n as u128
    } else {
        ((-(n + 1)) as u128) + 1
    };
    assert(mag as int == if n as int >= 0 { n as int } else { -(n as int) });
    let ghost orig = mag as nat;
    let mut low: Vec<u8> = Vec::new();
    proof {
        assert(low@.reverse() =~= Seq::<u8>::empty());
        assert(dec_digits(orig) =~= dec_digits(orig) + low@.reverse());
    }
    while mag >= 10
        invariant
            orig == mag as nat || orig > mag as nat,
            dec_digits(orig) =~= dec_digits(mag as nat) + low@.reverse(),
        decreases mag,
    {
        let d: u8 = (mag % 10) as u8;
        let ghost pre = mag as nat;
        low.push(48 + d);
        mag = mag / 10;
        proof {
            assert(mag as nat == pre / 10);
            assert(dec_digits(pre) == dec_digits(pre / 10).push((48 + pre % 10) as u8));
            assert(low@.reverse() =~= seq![(48 + pre % 10) as u8] + low@.drop_last().reverse());
            assert(dec_digits(pre / 10) + low@.reverse() =~= (dec_digits(pre / 10).push(
                (48 + pre % 10) as u8,
            )) + low@.drop_last().reverse());
        }
    }
    let ghost sign: Seq<u8> = if neg { seq![45u8] } else { Seq::<u8>::empty() };
    let ghost digits = dec_digits(orig);
    proof {
        assert(dec_digits(mag as nat) == seq![(48 + mag as nat) as u8]);
        assert(digits.len() == 1 + low@.len());
        assert(digits[0] == (48 + mag as nat) as u8);
    }
    let mut r: Vec<u8> = Vec::new();
    if neg {
        r.push(45);
    }
    r.push(48 + (mag as u8));
    proof {
        assert(digits.take(1) =~= seq![digits[0]]);
        assert(r@ =~= sign + digits.take(digits.len() - low@.len()));
    }
    let mut k = low.len();
    while k > 0
        invariant
            k <= low@.len(),
            digits == dec_digits(orig),
            digits =~= dec_digits(mag as nat) + low@.reverse(),
            digits.len() == 1 + low@.len(),
            sign == if neg { seq![45u8] } else { Seq::<u8>::empty() },
            r@ =~= sign + digits.take(digits.len() - k),
        decreases k,
    {
        k -= 1;
        proof {
            assert(low@.reverse()[low@.len() - 1 - k] == low@[k as int]);
            assert(digits[1 + (low@.len() - 1 - k)] == low@.reverse()[low@.len() - 1 - k]);
            assert(digits[digits.len() - k - 1] == low@[k as int]);
        }
        r.push(low[k]);
        proof {
            assert(digits.take(digits.len() - k) =~= digits.take(digits.len() - k - 1).push(
                digits[digits.len() - k - 1],
            ));
        }
    }
    proof {
        assert(digits.take(digits.len() as int) =~= digits);
        assert(r@ =~= dec_rep(n as int));
    }
    r
}

} // verus!
