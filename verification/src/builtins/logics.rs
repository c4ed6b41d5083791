//! Comparison and boolean procedures.

use vstd::prelude::*;

use crate::call_stack::{CalcitStack, FrameV};
use crate::primes::{calcit_eq, cv_seq, val_eq, Calcit, CalcitErr, CalcitItems, ErrKind, ErrV, Val};
use crate::util::{lex_lt, str_lt};

verus! {

broadcast use crate::primes::lemma_cv_seq_index, crate::primes::lemma_cv_seq_len,
    crate::primes::lemma_cv_pairs_index, crate::primes::lemma_cv_pairs_len,
    crate::primes::lemma_cv_scope_index, crate::primes::lemma_cv_scope_len,
    crate::primes::lemma_strs_view_index, crate::primes::lemma_strs_view_len;


/// An error result carrying the given stack snapshot.
pub open spec fn lerr(kind: ErrKind, msg: Seq<char>, stack: Seq<FrameV>) -> Result<Val, ErrV> {
    Err(ErrV { kind, msg, stack })
}

/// What `&=` gives: structural equality of two values.
pub open spec fn binary_equal_spec(args: Seq<Val>, stack: Seq<FrameV>) -> Result<Val, ErrV> {
    if args.len() != 2 {
        lerr(ErrKind::Arity, "&= expected 2 arguments"@, stack)
    } else {
        Ok(Val::Bool(val_eq(args[0], args[1])))
    }
}

/// Whether two values are structurally equal.
pub fn binary_equal(xs: &CalcitItems, stack: &Vec<CalcitStack>) -> (res: Result<Calcit, CalcitErr>)
    ensures
        crate::primes::res_view(res) == binary_equal_spec(
            cv_seq(xs@),
            crate::call_stack::stack_view(stack@),
        ),
{
    if xs.len() != 2 {
        return Err(CalcitErr::new(ErrKind::Arity, "&= expected 2 arguments", stack));
    }
    Ok(Calcit::Bool(calcit_eq(&xs[0], &xs[1])))
}

/// What `&<` gives: order on two numbers or two strings.
pub open spec fn binary_less_spec(args: Seq<Val>, stack: Seq<FrameV>) -> Result<Val, ErrV> {
    if args.len() != 2 {
        lerr(ErrKind::Arity, "&< expected 2 arguments"@, stack)
    } else {
        match (args[0], args[1]) {
            (Val::Number(a), Val::Number(b)) => Ok(Val::Bool(a < b)),
            (Val::Str(a), Val::Str(b)) => Ok(Val::Bool(lex_lt(a, b))),
            _ => lerr(ErrKind::TypeMismatch, "&< expected 2 numbers or 2 strings"@, stack),
        }
    }
}

/// Whether the first of two numbers or strings comes first.
pub fn binary_less(xs: &CalcitItems, stack: &Vec<CalcitStack>) -> (res: Result<Calcit, CalcitErr>)
    ensures
        crate::primes::res_view(res) == binary_less_spec(
            cv_seq(xs@),
            crate::call_stack::stack_view(stack@),
        ),
{
    if xs.len() != 2 {
        return Err(CalcitErr::new(ErrKind::Arity, "&< expected 2 arguments", stack));
    }
    match (&xs[0], &xs[1]) {
        (Calcit::Number(a), Calcit::Number(b)) => Ok(Calcit::Bool(*a < *b)),
        (Calcit::Str(a), Calcit::Str(b)) => Ok(Calcit::Bool(str_lt(a.as_str(), b.as_str()))),
        _ => Err(
            CalcitErr::new(ErrKind::TypeMismatch, "&< expected 2 numbers or 2 strings", stack),
        ),
    }
}

/// What `&>` gives: the reverse order on two numbers or two strings.
pub open spec fn binary_greater_spec(args: Seq<Val>, stack: Seq<FrameV>) -> Result<Val, ErrV> {
    if args.len() != 2 {
        lerr(ErrKind::Arity, "&> expected 2 arguments"@, stack)
    } else {
        match (args[0], args[1]) {
            (Val::Number(a), Val::Number(b)) => Ok(Val::Bool(a > b)),
            (Val::Str(a), Val::Str(b)) => Ok(Val::Bool(lex_lt(b, a))),
            _ => lerr(ErrKind::TypeMismatch, "&> expected 2 numbers or 2 strings"@, stack),
        }
    }
}

/// Whether the first of two numbers or strings comes later.
pub fn binary_greater(xs: &CalcitItems, stack: &Vec<CalcitStack>) -> (res: Result<
    Calcit,
    CalcitErr,
>)
    ensures
        crate::primes::res_view(res) == binary_greater_spec(
            cv_seq(xs@),
            crate::call_stack::stack_view(stack@),
        ),
{
    if xs.len() != 2 {
        return Err(CalcitErr::new(ErrKind::Arity, "&> expected 2 arguments", stack));
    }
    match (&xs[0], &xs[1]) {
        (Calcit::Number(a), Calcit::Number(b)) => Ok(Calcit::Bool(*a > *b)),
        (Calcit::Str(a), Calcit::Str(b)) => Ok(Calcit::Bool(str_lt(b.as_str(), a.as_str()))),
        _ => Err(
            CalcitErr::new(ErrKind::TypeMismatch, "&> expected 2 numbers or 2 strings", stack),
        ),
    }
}

/// What `not` gives: the opposite boolean.
pub open spec fn not_spec(args: Seq<Val>, stack: Seq<FrameV>) -> Result<Val, ErrV> {
    if args.len() != 1 {
        lerr(ErrKind::Arity, "not expected 1 argument"@, stack)
    } else {
        match args[0] {
            Val::Bool(b) => Ok(Val::Bool(!b)),
            Val::Nil => Ok(Val::Bool(true)),
            _ => lerr(ErrKind::TypeMismatch, "not expected a bool or nil"@, stack),
        }
    }
}

/// The opposite boolean; `nil` counts as false.
pub fn not(xs: &CalcitItems, stack: &Vec<CalcitStack>) -> (res: Result<Calcit, CalcitErr>)
    ensures
        crate::primes::res_view(res) == not_spec(cv_seq(xs@), crate::call_stack::stack_view(stack@)),
{
    if xs.len() != 1 {
        return Err(CalcitErr::new(ErrKind::Arity, "not expected 1 argument", stack));
    }
    match &xs[0] {
        Calcit::Bool(b) => Ok(Calcit::Bool(!*b)),
        Calcit::Nil => Ok(Calcit::Bool(true)),
        _ => Err(CalcitErr::new(ErrKind::TypeMismatch, "not expected a bool or nil", stack)),
    }
}

} // verus!
