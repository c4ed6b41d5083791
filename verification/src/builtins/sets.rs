//! Set procedures; a set holds each member once.

use vstd::prelude::*;

use crate::call_stack::{CalcitStack, FrameV};
use crate::primes::{
    cv, cv_seq, set_has, set_has_member, Calcit, CalcitErr, CalcitItems, ErrV, Val,
};

verus! {

broadcast use crate::primes::lemma_cv_seq_index, crate::primes::lemma_cv_seq_len,
    crate::primes::lemma_cv_pairs_index, crate::primes::lemma_cv_pairs_len,
    crate::primes::lemma_cv_scope_index, crate::primes::lemma_cv_scope_len,
    crate::primes::lemma_strs_view_index, crate::primes::lemma_strs_view_len;


/// Members folded into a set left to right, keeping the first of equals.
pub open spec fn dedup_members(args: Seq<Val>) -> Seq<Val>
    decreases args.len(),
{
    if args.len() == 0 {
        Seq::empty()
    } else {
        let prefix = dedup_members(args.drop_last());
        if set_has(args.last(), prefix) {
            prefix
        } else {
            prefix.push(args.last())
        }
    }
}

/// What `#{}` gives: its arguments as a set, duplicates dropped.
pub open spec fn new_set_spec(args: Seq<Val>, stack: Seq<FrameV>) -> Result<Val, ErrV> {
    Ok(Val::SetOf(dedup_members(args)))
}

/// Builds a set from the arguments, keeping each member once.
pub fn new_set(xs: &CalcitItems, stack: &Vec<CalcitStack>) -> (res: Result<Calcit, CalcitErr>)
    ensures
        crate::primes::res_view(res) == new_set_spec(
            cv_seq(xs@),
            crate::call_stack::stack_view(stack@),
        ),
{
    let ghost args = cv_seq(xs@);
    let mut members: Vec<Calcit> = Vec::new();
    let mut i: usize = 0;
    proof {
        assert(args.take(0) =~= Seq::<Val>::empty());
        assert(cv_seq(members@) =~= Seq::<Val>::empty());
    }
    #[verifier::loop_isolation(false)]
    while i < xs.len()
        invariant
            i <= xs@.len(),
            dedup_members(args.take(i as int)) == cv_seq(members@),
        decreases xs@.len() - i,
    {
        proof {
            assert(args.take(i + 1).drop_last() =~= args.take(i as int));
            assert(args.take(i + 1).last() == args[i as int]);
            assert(args[i as int] == cv(xs@[i as int]));
        }
        let ghost prev = cv_seq(members@);
        if !set_has_member(&xs[i], &members) {
            members.push(xs[i].clone());
            proof {
                assert(cv_seq(members@) =~= prev.push(cv(xs@[i as int])));
            }
        }
        i = i + 1;
    }
    proof {
        assert(args.take(xs@.len() as int) =~= args);
    }
    Ok(Calcit::SetOf(members))
}

} // verus!
