//! Effectful procedures: writing output lines and raising failures.  The
//! output goes to a log in the program state; the host prints it.

use vstd::prelude::*;

use crate::call_stack::FrameV;
use crate::primes::{
    cv, cv_seq, friendly_repr, turn_string, Calcit, CalcitErr, CalcitItems, ErrKind, ErrV, Val,
};
use crate::program::{push_log, ProgV, Program};

verus! {

broadcast use crate::primes::lemma_cv_seq_index, crate::primes::lemma_cv_seq_len;

/// Arguments in friendly form, joined by single spaces.
pub open spec fn echo_line(args: Seq<Val>) -> Seq<char>
    decreases args.len(),
{
    if args.len() == 0 {
        Seq::empty()
    } else if args.len() == 1 {
        friendly_repr(args[0])
    } else {
        echo_line(args.drop_last()) + " "@ + friendly_repr(args.last())
    }
}

/// What `echo` gives and does: appends one line, in friendly form, and
/// answers `Nil`.
pub open spec fn echo_spec(args: Seq<Val>, prog: ProgV) -> (ProgV, Result<Val, ErrV>) {
    (ProgV { logs: prog.logs.push(echo_line(args)), ..prog }, Ok(Val::Nil))
}

/// Writes its arguments as one output line in friendly form.
pub fn echo(xs: &CalcitItems, prog: &mut Program) -> (res: Result<Calcit, CalcitErr>)
    ensures
        ({
            let out = echo_spec(cv_seq(xs@), old(prog)@);
            final(prog)@ == out.0 && crate::primes::res_view(res) == out.1
        }),
{
    let mut line = String::new();
    let mut i: usize = 0;
    proof {
        assert(cv_seq(xs@).take(0) =~= Seq::<Val>::empty());
        assert(echo_line(Seq::<Val>::empty()) =~= Seq::<char>::empty());
    }
    #[verifier::loop_isolation(false)]
    while i < xs.len()
        invariant
            i <= xs@.len(),
            line@ == echo_line(cv_seq(xs@).take(i as int)),
        decreases xs@.len() - i,
    {
        proof {
            assert(cv_seq(xs@).take(i + 1).drop_last() =~= cv_seq(xs@).take(i as int));
            assert(cv_seq(xs@).take(i + 1).last() == cv_seq(xs@)[i as int]);
            assert(cv_seq(xs@)[i as int] == cv(xs@[i as int]));
        }
        if i > 0 {
            line.append(" ");
        }
        let piece = turn_string(&xs[i]);
        line.append(piece.as_str());
        i = i + 1;
    }
    proof {
        assert(cv_seq(xs@).take(xs@.len() as int) =~= cv_seq(xs@));
    }
    push_log(prog, line);
    Ok(Calcit::Nil)
}

/// Arguments in program form, joined by single spaces.
pub open spec fn echo_values_line(args: Seq<Val>) -> Seq<char>
    decreases args.len(),
{
    if args.len() == 0 {
        Seq::empty()
    } else if args.len() == 1 {
        crate::primes::lisp_repr(args[0])
    } else {
        echo_values_line(args.drop_last()) + " "@ + crate::primes::lisp_repr(args.last())
    }
}

/// What `echo-values` gives and does: appends one line, in program form,
/// and answers `Nil`.
pub open spec fn echo_values_spec(args: Seq<Val>, prog: ProgV) -> (ProgV, Result<Val, ErrV>) {
    (ProgV { logs: prog.logs.push(echo_values_line(args)), ..prog }, Ok(Val::Nil))
}

/// Writes its arguments as one output line in program form.
pub fn echo_values(xs: &CalcitItems, prog: &mut Program) -> (res: Result<Calcit, CalcitErr>)
    ensures
        ({
            let out = echo_values_spec(cv_seq(xs@), old(prog)@);
            final(prog)@ == out.0 && crate::primes::res_view(res) == out.1
        }),
{
    let mut line = String::new();
    let mut i: usize = 0;
    proof {
        assert(cv_seq(xs@).take(0) =~= Seq::<Val>::empty());
        assert(echo_values_line(Seq::<Val>::empty()) =~= Seq::<char>::empty());
    }
    #[verifier::loop_isolation(false)]
    while i < xs.len()
        invariant
            i <= xs@.len(),
            line@ == echo_values_line(cv_seq(xs@).take(i as int)),
        decreases xs@.len() - i,
    {
        proof {
            assert(cv_seq(xs@).take(i + 1).drop_last() =~= cv_seq(xs@).take(i as int));
            assert(cv_seq(xs@).take(i + 1).last() == cv_seq(xs@)[i as int]);
            assert(cv_seq(xs@)[i as int] == cv(xs@[i as int]));
        }
        if i > 0 {
            line.append(" ");
        }
        let piece = crate::primes::format_to_lisp(&xs[i]);
        line.append(piece.as_str());
        i = i + 1;
    }
    proof {
        assert(cv_seq(xs@).take(xs@.len() as int) =~= cv_seq(xs@));
    }
    push_log(prog, line);
    Ok(Calcit::Nil)
}

/// What `raise` gives: a user-raised failure carrying the given text.
pub open spec fn raise_spec(args: Seq<Val>, stack: Seq<FrameV>) -> Result<Val, ErrV> {
    if args.len() != 1 {
        Err(ErrV { kind: ErrKind::Arity, msg: "raise expected 1 argument"@, stack })
    } else {
        match args[0] {
            Val::Str(s) => Err(ErrV { kind: ErrKind::UserRaised, msg: s, stack }),
            _ => Err(ErrV { kind: ErrKind::TypeMismatch, msg: "raise expected a string"@, stack }),
        }
    }
}

/// Raises a failure carrying the given text; `try` can recover it.
pub fn raise(xs: &CalcitItems, stack: &Vec<crate::call_stack::CalcitStack>) -> (res: Result<
    Calcit,
    CalcitErr,
>)
    ensures
        crate::primes::res_view(res) == raise_spec(
            cv_seq(xs@),
            crate::call_stack::stack_view(stack@),
        ),
{
    if xs.len() != 1 {
        return Err(CalcitErr::new(ErrKind::Arity, "raise expected 1 argument", stack));
    }
    match &xs[0] {
        Calcit::Str(s) => {
            proof {
                assert(cv(xs@[0]) == Val::Str(s@));
            }
            Err(CalcitErr::from_msg(ErrKind::UserRaised, s.clone(), stack))
        },
        _ => Err(CalcitErr::new(ErrKind::TypeMismatch, "raise expected a string", stack)),
    }
}

} // verus!
