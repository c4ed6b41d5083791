//! Reflection procedures: type names, the `recur` sentinel, printing in
//! program form, and the method-lookup hook.

use vstd::prelude::*;

use crate::call_stack::{CalcitStack, FrameV};
use crate::primes::{cv_seq, lisp_repr, Calcit, CalcitErr, CalcitItems, ErrKind, ErrV, Val};

verus! {

broadcast use crate::primes::lemma_cv_seq_index, crate::primes::lemma_cv_seq_len;

/// The keyword naming a value's variant.
pub open spec fn kind_keyword(v: Val) -> Seq<char> {
    match v {
        Val::Nil => "nil"@,
        Val::Bool(_) => "bool"@,
        Val::Number(_) => "number"@,
        Val::Str(_) => "string"@,
        Val::Keyword(_) => "keyword"@,
        Val::Symbol(_, _, _, _) => "symbol"@,
        Val::List(_) => "list"@,
        Val::Dict(_) => "map"@,
        Val::SetOf(_) => "set"@,
        Val::Record(_, _, _, _) => "record"@,
        Val::Proc(_) => "fn"@,
        Val::Syntax(_, _) => "synatx"@,
        Val::Fn(_, _, _, _, _, _) => "fn"@,
        Val::Macro(_, _, _, _, _) => "macro"@,
        Val::Thunk(_, _) => "thunk"@,
        Val::Ref(_) => "ref"@,
        Val::Tuple(_, _) => "tuple"@,
        Val::Recur(_) => "recur"@,
    }
}

/// What `type-of` gives: the variant name as a keyword.
pub open spec fn type_of_spec(args: Seq<Val>, stack: Seq<FrameV>) -> Result<Val, ErrV> {
    if args.len() != 1 {
        Err(ErrV { kind: ErrKind::Arity, msg: "type-of expected 1 argument"@, stack })
    } else {
        Ok(Val::Keyword(kind_keyword(args[0])))
    }
}

/// The kind of a value, as a keyword.
pub fn type_of(xs: &CalcitItems, stack: &Vec<CalcitStack>) -> (res: Result<Calcit, CalcitErr>)
    ensures
        crate::primes::res_view(res) == type_of_spec(
            cv_seq(xs@),
            crate::call_stack::stack_view(stack@),
        ),
{
    if xs.len() != 1 {
        return Err(CalcitErr::new(ErrKind::Arity, "type-of expected 1 argument", stack));
    }
    proof {
        assert(cv_seq(xs@)[0] == crate::primes::cv(xs@[0]));
    }
    let name = match &xs[0] {
        Calcit::Nil => "nil",
        Calcit::Bool(_) => "bool",
        Calcit::Number(_) => "number",
        Calcit::Str(_) => "string",
        Calcit::Keyword(_) => "keyword",
        Calcit::Symbol(_, _, _, _) => "symbol",
        Calcit::List(_) => "list",
        Calcit::Dict(_) => "map",
        Calcit::SetOf(_) => "set",
        Calcit::Record(_) => "record",
        Calcit::Proc(_) => "fn",
        Calcit::Syntax(_, _) => "synatx",
        Calcit::Fn(_, _, _, _, _, _) => "fn",
        Calcit::Macro(_, _, _, _, _) => "macro",
        Calcit::Thunk(_, _) => "thunk",
        Calcit::Ref(_) => "ref",
        Calcit::Tuple(_, _) => "tuple",
        Calcit::Recur(_) => "recur",
    };
    Ok(Calcit::Keyword(name.to_owned()))
}

/// What `recur` gives: the sentinel carrying the next round's arguments.
pub open spec fn recur_spec(args: Seq<Val>, stack: Seq<FrameV>) -> Result<Val, ErrV> {
    Ok(Val::Recur(args))
}

/// Wraps the arguments into the `recur` sentinel for the enclosing call.
pub fn recur(xs: &CalcitItems, stack: &Vec<CalcitStack>) -> (res: Result<Calcit, CalcitErr>)
    ensures
        crate::primes::res_view(res) == recur_spec(
            cv_seq(xs@),
            crate::call_stack::stack_view(stack@),
        ),
{
    Ok(Calcit::Recur(crate::primes::clone_items(xs)))
}

/// What `format-to-lisp` gives: the argument in program form.
pub open spec fn format_to_lisp_spec(args: Seq<Val>, stack: Seq<FrameV>) -> Result<Val, ErrV> {
    if args.len() != 1 {
        Err(ErrV { kind: ErrKind::Arity, msg: "format-to-lisp expected 1 argument"@, stack })
    } else {
        Ok(Val::Str(lisp_repr(args[0])))
    }
}

/// Prints a value in program form.
pub fn format_to_lisp(xs: &CalcitItems, stack: &Vec<CalcitStack>) -> (res: Result<
    Calcit,
    CalcitErr,
>)
    ensures
        crate::primes::res_view(res) == format_to_lisp_spec(
            cv_seq(xs@),
            crate::call_stack::stack_view(stack@),
        ),
{
    if xs.len() != 1 {
        return Err(CalcitErr::new(ErrKind::Arity, "format-to-lisp expected 1 argument", stack));
    }
    Ok(Calcit::Str(crate::primes::format_to_lisp(&xs[0])))
}

/// What a method invocation gives: the method table starts empty, so every
/// lookup fails.
pub open spec fn invoke_method_spec(
    name: Seq<char>,
    args: Seq<Val>,
    stack: Seq<FrameV>,
) -> Result<Val, ErrV> {
    Err(ErrV { kind: ErrKind::UnknownSymbol, msg: "method lookup found no method"@, stack })
}

/// Invokes a named method on the first argument; the method table starts
/// empty, so every lookup fails.
pub fn invoke_method(name: &str, xs: &CalcitItems, stack: &Vec<CalcitStack>) -> (res: Result<
    Calcit,
    CalcitErr,
>)
    ensures
        crate::primes::res_view(res) == invoke_method_spec(
            name@,
            cv_seq(xs@),
            crate::call_stack::stack_view(stack@),
        ),
{
    Err(CalcitErr::new(ErrKind::UnknownSymbol, "method lookup found no method", stack))
}

} // verus!
