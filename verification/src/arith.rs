//! Arithmetic on the integers of the language: signed, of 64 bits, and never
//! wrapping.
use crate::error::{Error, ErrorView};
use crate::op::Op;
use vstd::prelude::*;

verus! {

/// The distance of `x` from zero.
pub open spec fn magnitude(x: int) -> int {
    if x < 0 {
        -x
    } else {
        x
    }
}

/// `base` multiplied by itself `exp` times.
pub open spec fn pow(base: int, exp: nat) -> int
    decreases exp,
{
    if exp == 0 {
        1
    } else {
        base * pow(base, (exp - 1) as nat)
    }
}

/// The quotient of `a` by `b`, which is not zero, rounded towards zero.
pub open spec fn trunc_div(a: int, b: int) -> int {
    let q = magnitude(a) / magnitude(b);
    if (a < 0) == (b < 0) {
        q
    } else {
        -q
    }
}

/// What is left of `a` when `b`, which is not zero, is taken from it as often
/// as [`trunc_div`] says. It has the sign of `a`.
pub open spec fn trunc_rem(a: int, b: int) -> int {
    let m = magnitude(a) % magnitude(b);
    if a < 0 {
        -m
    } else {
        m
    }
}

/// The integer `x` as the outcome of a computation: itself where it fits 64
/// bits, and a failure where it does not.
pub open spec fn int_result(x: int) -> Result<int, ErrorView> {
    if i64::MIN <= x <= i64::MAX {
        Ok(x)
    } else {
        Err(ErrorView::Arithmetic)
    }
}

/// What an arithmetic operator makes of two integers. Division and remainder
/// by zero fail, and so does a negative exponent; so does every result that
/// does not fit 64 bits.
pub open spec fn int_arith(op: Op, a: int, b: int) -> Result<int, ErrorView> {
    match op {
        Op::Add => int_result(a + b),
        Op::Sub => int_result(a - b),
        Op::Mul => int_result(a * b),
        Op::Div => if b == 0 {
            Err(ErrorView::Arithmetic)
        } else {
            int_result(trunc_div(a, b))
        },
        Op::Mod => if b == 0 {
            Err(ErrorView::Arithmetic)
        } else {
            int_result(trunc_rem(a, b))
        },
        Op::Pow => if b < 0 {
            Err(ErrorView::Arithmetic)
        } else {
            int_result(pow(a, b as nat))
        },
        _ => Err(ErrorView::Type),
    }
}

/// Whether the operator is one of arithmetic on two operands.
pub open spec fn is_arith(op: Op) -> bool {
    op == Op::Add || op == Op::Sub || op == Op::Mul || op == Op::Div || op == Op::Mod || op
        == Op::Pow
}

/// What an integer outcome is in specifications.
pub open spec fn int_outcome(r: Result<i64, Error>) -> Result<int, ErrorView> {
    match r {
        Ok(v) => Ok(v as int),
        Err(e) => Err(e@),
    }
}

/// A power of one is one.
proof fn lemma_pow_of_one(e: nat)
    ensures
        pow(1, e) == 1,
    decreases e,
{
    if e > 0 {
        lemma_pow_of_one((e - 1) as nat);
    }
}

/// A power of minus one is one for an even exponent and minus one for an odd
/// one.
proof fn lemma_pow_of_minus_one(e: nat)
    ensures
        pow(-1, e) == if e % 2 == 0 {
            1int
        } else {
            -1int
        },
    decreases e,
{
    if e > 0 {
        lemma_pow_of_minus_one((e - 1) as nat);
    }
}

/// A power of zero is zero, but for the exponent zero.
proof fn lemma_pow_of_zero(e: nat)
    ensures
        pow(0, e) == if e == 0 {
            1int
        } else {
            0int
        },
{
    if e > 0 {
        assert(pow(0, e) == 0 * pow(0, (e - 1) as nat));
    }
}

/// Away from zero and one, a higher power is at least twice as far from zero.
proof fn lemma_pow_doubles(a: int, k: nat, e: nat)
    requires
        magnitude(a) >= 2,
        k < e,
    ensures
        magnitude(pow(a, e)) >= 2 * magnitude(pow(a, k)),
        magnitude(pow(a, k)) >= 1,
    decreases e,
{
    let lower = pow(a, (e - 1) as nat);
    assert(pow(a, e) == a * lower);
    assert(magnitude(a * lower) == magnitude(a) * magnitude(lower)) by (nonlinear_arith);
    if k == e - 1 {
        lemma_pow_nonzero(a, k);
    } else {
        lemma_pow_doubles(a, k, (e - 1) as nat);
    }
    assert(magnitude(a) * magnitude(lower) >= 2 * magnitude(lower)) by (nonlinear_arith)
        requires
            magnitude(a) >= 2,
            magnitude(lower) >= 0,
    ;
}

/// Away from zero, no power is zero.
proof fn lemma_pow_nonzero(a: int, e: nat)
    requires
        magnitude(a) >= 1,
    ensures
        magnitude(pow(a, e)) >= 1,
    decreases e,
{
    if e > 0 {
        let lower = pow(a, (e - 1) as nat);
        lemma_pow_nonzero(a, (e - 1) as nat);
        assert(pow(a, e) == a * lower);
        assert(magnitude(a * lower) == magnitude(a) * magnitude(lower)) by (nonlinear_arith);
        assert(magnitude(a) * magnitude(lower) >= 1) by (nonlinear_arith)
            requires
                magnitude(a) >= 1,
                magnitude(lower) >= 1,
        ;
    }
}

/// `a` to the power `b`.
pub fn int_pow(a: i64, b: i64) -> (r: Result<i64, Error>)
    ensures
        int_outcome(r) == int_arith(Op::Pow, a as int, b as int),
{
    if b < 0 {
        return Err(Error::Arithmetic);
    }
    if a == 0 {
        proof {
            lemma_pow_of_zero(b as nat);
        }
        return Ok(if b == 0 {
            1
        } else {
            0
        });
    }
    if a == 1 {
        proof {
            lemma_pow_of_one(b as nat);
        }
        return Ok(1);
    }
    if a == -1 {
        proof {
            lemma_pow_of_minus_one(b as nat);
        }
        return Ok(if b % 2 == 0 {
            1
        } else {
            -1
        });
    }
    let mut acc: i64 = 1;
    let mut i: i64 = 0;
    while i < b
        invariant
            0 <= i <= b,
            magnitude(a as int) >= 2,
            acc == pow(a as int, i as nat),
        decreases b - i,
    {
        assert(pow(a as int, (i + 1) as nat) == a * pow(a as int, i as nat));
        assert(acc * a == a * acc) by (nonlinear_arith);
        match acc.checked_mul(a) {
            Some(v) => {
                acc = v;
            },
            None => {
                proof {
                    if i + 1 < b {
                        lemma_pow_doubles(a as int, (i + 1) as nat, b as nat);
                    }
                }
                return Err(Error::Arithmetic);
            },
        }
        i += 1;
    }
    Ok(acc)
}

/// The quotient of `a` by `b`, rounded towards zero.
pub fn int_div(a: i64, b: i64) -> (r: Result<i64, Error>)
    ensures
        int_outcome(r) == int_arith(Op::Div, a as int, b as int),
{
    if b == 0 {
        return Err(Error::Arithmetic);
    }
    assert(0int / magnitude(b as int) == 0) by (nonlinear_arith)
        requires
            magnitude(b as int) > 0,
    ;
    match a.checked_div(b) {
        Some(v) => Ok(v),
        None => Err(Error::Arithmetic),
    }
}

/// What is left of `a` divided by `b`; it has the sign of `a`.
pub fn int_rem(a: i64, b: i64) -> (r: Result<i64, Error>)
    ensures
        int_outcome(r) == int_arith(Op::Mod, a as int, b as int),
{
    if b == 0 {
        return Err(Error::Arithmetic);
    }
    if b == -1 {
        assert(magnitude(a as int) % 1 == 0);
        return Ok(0);
    }
    assert(0int % magnitude(b as int) == 0) by (nonlinear_arith)
        requires
            magnitude(b as int) > 0,
    ;
    assert(0 <= magnitude(a as int) % magnitude(b as int) < magnitude(b as int))
        by (nonlinear_arith)
        requires
            magnitude(b as int) > 0,
    ;
    match a.checked_rem(b) {
        Some(v) => Ok(v),
        None => Err(Error::Arithmetic),
    }
}

/// What the arithmetic operator `op` makes of the integers `a` and `b`.
pub fn int_apply(op: Op, a: i64, b: i64) -> (r: Result<i64, Error>)
    ensures
        int_outcome(r) == int_arith(op, a as int, b as int),
{
    match op {
        Op::Add => match a.checked_add(b) {
            Some(v) => Ok(v),
            None => Err(Error::Arithmetic),
        },
        Op::Sub => match a.checked_sub(b) {
            Some(v) => Ok(v),
            None => Err(Error::Arithmetic),
        },
        Op::Mul => match a.checked_mul(b) {
            Some(v) => Ok(v),
            None => Err(Error::Arithmetic),
        },
        Op::Div => int_div(a, b),
        Op::Mod => int_rem(a, b),
        Op::Pow => int_pow(a, b),
        _ => Err(Error::Type),
    }
}

} // verus!
