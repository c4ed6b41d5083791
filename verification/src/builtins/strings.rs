//! String procedures.

use vstd::prelude::*;

use crate::call_stack::{CalcitStack, FrameV};
use crate::primes::{cv_seq, turn_string, friendly_repr, Calcit, CalcitErr, CalcitItems, ErrKind, ErrV, Val};

verus! {

broadcast use crate::primes::lemma_cv_seq_index, crate::primes::lemma_cv_seq_len,
    crate::primes::lemma_cv_pairs_index, crate::primes::lemma_cv_pairs_len,
    crate::primes::lemma_cv_scope_index, crate::primes::lemma_cv_scope_len,
    crate::primes::lemma_strs_view_index, crate::primes::lemma_strs_view_len;


/// What `&str-concat` gives: both arguments in friendly form, joined.
pub open spec fn binary_str_concat_spec(args: Seq<Val>, stack: Seq<FrameV>) -> Result<Val, ErrV> {
    if args.len() != 2 {
        Err(ErrV { kind: ErrKind::Arity, msg: "&str-concat expected 2 arguments"@, stack })
    } else {
        Ok(Val::Str(friendly_repr(args[0]) + friendly_repr(args[1])))
    }
}

/// Joins the friendly forms of two values into one string.
pub fn binary_str_concat(xs: &CalcitItems, stack: &Vec<CalcitStack>) -> (res: Result<
    Calcit,
    CalcitErr,
>)
    ensures
        crate::primes::res_view(res) == binary_str_concat_spec(
            cv_seq(xs@),
            crate::call_stack::stack_view(stack@),
        ),
{
    if xs.len() != 2 {
        return Err(CalcitErr::new(ErrKind::Arity, "&str-concat expected 2 arguments", stack));
    }
    let mut out = turn_string(&xs[0]);
    let b = turn_string(&xs[1]);
    out.append(b.as_str());
    Ok(Calcit::Str(out))
}

} // verus!
