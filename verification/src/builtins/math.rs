//! Arithmetic procedures over numbers; every operation is checked and an
//! out-of-range result is an error, never a wrapped value.

use vstd::prelude::*;

use crate::call_stack::{CalcitStack, FrameV};
use crate::primes::{cv_seq, Calcit, CalcitErr, CalcitItems, ErrKind, ErrV, Val};

verus! {

broadcast use crate::primes::lemma_cv_seq_index, crate::primes::lemma_cv_seq_len,
    crate::primes::lemma_cv_pairs_index, crate::primes::lemma_cv_pairs_len,
    crate::primes::lemma_cv_scope_index, crate::primes::lemma_cv_scope_len,
    crate::primes::lemma_strs_view_index, crate::primes::lemma_strs_view_len;


/// An error result carrying the given stack snapshot.
pub open spec fn merr(kind: ErrKind, msg: Seq<char>, stack: Seq<FrameV>) -> Result<Val, ErrV> {
    Err(ErrV { kind, msg, stack })
}

/// The magnitude of a number.
pub open spec fn abs_of(a: int) -> int {
    if a < 0 {
        -a
    } else {
        a
    }
}

/// Division truncating toward zero, as the evaluator divides.
pub open spec fn tdiv(a: int, b: int) -> int {
    if (a < 0) != (b < 0) {
        -(abs_of(a) / abs_of(b))
    } else {
        abs_of(a) / abs_of(b)
    }
}

/// What `&+` gives: the exact sum of two numbers when it fits.
pub open spec fn binary_add_spec(args: Seq<Val>, stack: Seq<FrameV>) -> Result<Val, ErrV> {
    if args.len() != 2 {
        merr(ErrKind::Arity, "&+ expected 2 arguments"@, stack)
    } else {
        match (args[0], args[1]) {
            (Val::Number(a), Val::Number(b)) => if i64::MIN <= a + b <= i64::MAX {
                Ok(Val::Number(a + b))
            } else {
                merr(ErrKind::NumericOverflow, "&+ overflowed"@, stack)
            },
            _ => merr(ErrKind::TypeMismatch, "&+ expected 2 numbers"@, stack),
        }
    }
}

/// Adds two numbers exactly.
pub fn binary_add(xs: &CalcitItems, stack: &Vec<CalcitStack>) -> (res: Result<Calcit, CalcitErr>)
    ensures
        crate::primes::res_view(res) == binary_add_spec(
            cv_seq(xs@),
            crate::call_stack::stack_view(stack@),
        ),
{
    if xs.len() != 2 {
        return Err(CalcitErr::new(ErrKind::Arity, "&+ expected 2 arguments", stack));
    }
    match (&xs[0], &xs[1]) {
        (Calcit::Number(a), Calcit::Number(b)) => match a.checked_add(*b) {
            Some(c) => Ok(Calcit::Number(c)),
            None => Err(CalcitErr::new(ErrKind::NumericOverflow, "&+ overflowed", stack)),
        },
        _ => Err(CalcitErr::new(ErrKind::TypeMismatch, "&+ expected 2 numbers", stack)),
    }
}

/// What `&-` gives: the exact difference of two numbers when it fits.
pub open spec fn binary_minus_spec(args: Seq<Val>, stack: Seq<FrameV>) -> Result<Val, ErrV> {
    if args.len() != 2 {
        merr(ErrKind::Arity, "&- expected 2 arguments"@, stack)
    } else {
        match (args[0], args[1]) {
            (Val::Number(a), Val::Number(b)) => if i64::MIN <= a - b <= i64::MAX {
                Ok(Val::Number(a - b))
            } else {
                merr(ErrKind::NumericOverflow, "&- overflowed"@, stack)
            },
            _ => merr(ErrKind::TypeMismatch, "&- expected 2 numbers"@, stack),
        }
    }
}

/// Subtracts two numbers exactly.
pub fn binary_minus(xs: &CalcitItems, stack: &Vec<CalcitStack>) -> (res: Result<Calcit, CalcitErr>)
    ensures
        crate::primes::res_view(res) == binary_minus_spec(
            cv_seq(xs@),
            crate::call_stack::stack_view(stack@),
        ),
{
    if xs.len() != 2 {
        return Err(CalcitErr::new(ErrKind::Arity, "&- expected 2 arguments", stack));
    }
    match (&xs[0], &xs[1]) {
        (Calcit::Number(a), Calcit::Number(b)) => match a.checked_sub(*b) {
            Some(c) => Ok(Calcit::Number(c)),
            None => Err(CalcitErr::new(ErrKind::NumericOverflow, "&- overflowed", stack)),
        },
        _ => Err(CalcitErr::new(ErrKind::TypeMismatch, "&- expected 2 numbers", stack)),
    }
}

/// What `&*` gives: the exact product of two numbers when it fits.
pub open spec fn binary_multiply_spec(args: Seq<Val>, stack: Seq<FrameV>) -> Result<Val, ErrV> {
    if args.len() != 2 {
        merr(ErrKind::Arity, "&* expected 2 arguments"@, stack)
    } else {
        match (args[0], args[1]) {
            (Val::Number(a), Val::Number(b)) => if i64::MIN <= a * b <= i64::MAX {
                Ok(Val::Number(a * b))
            } else {
                merr(ErrKind::NumericOverflow, "&* overflowed"@, stack)
            },
            _ => merr(ErrKind::TypeMismatch, "&* expected 2 numbers"@, stack),
        }
    }
}

/// Multiplies two numbers exactly.
pub fn binary_multiply(xs: &CalcitItems, stack: &Vec<CalcitStack>) -> (res: Result<
    Calcit,
    CalcitErr,
>)
    ensures
        crate::primes::res_view(res) == binary_multiply_spec(
            cv_seq(xs@),
            crate::call_stack::stack_view(stack@),
        ),
{
    if xs.len() != 2 {
        return Err(CalcitErr::new(ErrKind::Arity, "&* expected 2 arguments", stack));
    }
    match (&xs[0], &xs[1]) {
        (Calcit::Number(a), Calcit::Number(b)) => match a.checked_mul(*b) {
            Some(c) => Ok(Calcit::Number(c)),
            None => Err(CalcitErr::new(ErrKind::NumericOverflow, "&* overflowed", stack)),
        },
        _ => Err(CalcitErr::new(ErrKind::TypeMismatch, "&* expected 2 numbers", stack)),
    }
}

/// What `&/` gives: the quotient truncated toward zero; dividing by zero
/// and the one quotient out of range are errors.
pub open spec fn binary_divide_spec(args: Seq<Val>, stack: Seq<FrameV>) -> Result<Val, ErrV> {
    if args.len() != 2 {
        merr(ErrKind::Arity, "&/ expected 2 arguments"@, stack)
    } else {
        match (args[0], args[1]) {
            (Val::Number(a), Val::Number(b)) => if b == 0 {
                merr(ErrKind::NumericOverflow, "&/ divides by zero"@, stack)
            } else if i64::MIN <= tdiv(a, b) <= i64::MAX {
                Ok(Val::Number(tdiv(a, b)))
            } else {
                merr(ErrKind::NumericOverflow, "&/ overflowed"@, stack)
            },
            _ => merr(ErrKind::TypeMismatch, "&/ expected 2 numbers"@, stack),
        }
    }
}

/// The magnitude of a number, in the unsigned type.
fn magnitude(a: i64) -> (res: u64)
    ensures
        res as int == abs_of(a as int),
{
    if a >= 0 {
        a as u64
    } else {
        ((-(a + 1)) as u64) + 1
    }
}

/// Divides two numbers, truncating toward zero.
pub fn binary_divide(xs: &CalcitItems, stack: &Vec<CalcitStack>) -> (res: Result<Calcit, CalcitErr>)
    ensures
        crate::primes::res_view(res) == binary_divide_spec(
            cv_seq(xs@),
            crate::call_stack::stack_view(stack@),
        ),
{
    if xs.len() != 2 {
        return Err(CalcitErr::new(ErrKind::Arity, "&/ expected 2 arguments", stack));
    }
    match (&xs[0], &xs[1]) {
        (Calcit::Number(a), Calcit::Number(b)) => {
            if *b == 0 {
                return Err(CalcitErr::new(ErrKind::NumericOverflow, "&/ divides by zero", stack));
            }
            let ma = magnitude(*a);
            let mb = magnitude(*b);
            let q = ma / mb;
            proof {
                assert(q as int == abs_of(*a as int) / abs_of(*b as int));
            }
            if (*a < 0) != (*b < 0) {
                if q <= i64::MAX as u64 {
                    Ok(Calcit::Number(-(q as i64)))
                } else {
                    proof {
                        assert(ma as int <= 0x8000_0000_0000_0000int);
                        assert(q as int <= ma as int) by (nonlinear_arith)
                            requires
                                mb >= 1,
                                q as int == ma as int / mb as int,
                                ma >= 0,
                        ;
                    }
                    Ok(Calcit::Number(i64::MIN))
                }
            } else {
                if q <= i64::MAX as u64 {
                    Ok(Calcit::Number(q as i64))
                } else {
                    Err(CalcitErr::new(ErrKind::NumericOverflow, "&/ overflowed", stack))
                }
            }
        },
        _ => Err(CalcitErr::new(ErrKind::TypeMismatch, "&/ expected 2 numbers", stack)),
    }
}

/// What `round` gives: numbers are integral here, so the number itself.
pub open spec fn round_spec(args: Seq<Val>, stack: Seq<FrameV>) -> Result<Val, ErrV> {
    if args.len() != 1 {
        merr(ErrKind::Arity, "round expected 1 argument"@, stack)
    } else {
        match args[0] {
            Val::Number(a) => Ok(Val::Number(a)),
            _ => merr(ErrKind::TypeMismatch, "round expected a number"@, stack),
        }
    }
}

/// Rounds a number; with integral numbers this is the number itself.
pub fn round(xs: &CalcitItems, stack: &Vec<CalcitStack>) -> (res: Result<Calcit, CalcitErr>)
    ensures
        crate::primes::res_view(res) == round_spec(
            cv_seq(xs@),
            crate::call_stack::stack_view(stack@),
        ),
{
    if xs.len() != 1 {
        return Err(CalcitErr::new(ErrKind::Arity, "round expected 1 argument", stack));
    }
    match &xs[0] {
        Calcit::Number(a) => Ok(Calcit::Number(*a)),
        _ => Err(CalcitErr::new(ErrKind::TypeMismatch, "round expected a number", stack)),
    }
}

/// What `fractional` gives: numbers are integral here, so zero.
pub open spec fn fractional_spec(args: Seq<Val>, stack: Seq<FrameV>) -> Result<Val, ErrV> {
    if args.len() != 1 {
        merr(ErrKind::Arity, "fractional expected 1 argument"@, stack)
    } else {
        match args[0] {
            Val::Number(_) => Ok(Val::Number(0)),
            _ => merr(ErrKind::TypeMismatch, "fractional expected a number"@, stack),
        }
    }
}

/// The part of a number past the integers; zero for integral numbers.
pub fn fractional(xs: &CalcitItems, stack: &Vec<CalcitStack>) -> (res: Result<Calcit, CalcitErr>)
    ensures
        crate::primes::res_view(res) == fractional_spec(
            cv_seq(xs@),
            crate::call_stack::stack_view(stack@),
        ),
{
    if xs.len() != 1 {
        return Err(CalcitErr::new(ErrKind::Arity, "fractional expected 1 argument", stack));
    }
    match &xs[0] {
        Calcit::Number(_) => Ok(Calcit::Number(0)),
        _ => Err(CalcitErr::new(ErrKind::TypeMismatch, "fractional expected a number", stack)),
    }
}

} // verus!
