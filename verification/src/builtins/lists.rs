//! List procedures: construction, length, indexing, slicing, growing and
//! shrinking at either end.

use vstd::prelude::*;

use crate::call_stack::{CalcitStack, FrameV};
use crate::primes::{cv, cv_seq, Calcit, CalcitErr, CalcitItems, ErrKind, ErrV, Val};

verus! {

broadcast use crate::primes::lemma_cv_seq_index, crate::primes::lemma_cv_seq_len,
    crate::primes::lemma_cv_pairs_index, crate::primes::lemma_cv_pairs_len,
    crate::primes::lemma_cv_scope_index, crate::primes::lemma_cv_scope_len,
    crate::primes::lemma_strs_view_index, crate::primes::lemma_strs_view_len;


/// An error result carrying the given stack snapshot.
pub open spec fn xerr(kind: ErrKind, msg: Seq<char>, stack: Seq<FrameV>) -> Result<Val, ErrV> {
    Err(ErrV { kind, msg, stack })
}

/// What `[]` gives: its arguments as a list.
pub open spec fn new_list_spec(args: Seq<Val>, stack: Seq<FrameV>) -> Result<Val, ErrV> {
    Ok(Val::List(args))
}

/// Builds a list from the arguments.
pub fn new_list(xs: &CalcitItems, stack: &Vec<CalcitStack>) -> (res: Result<Calcit, CalcitErr>)
    ensures
        crate::primes::res_view(res) == new_list_spec(
            cv_seq(xs@),
            crate::call_stack::stack_view(stack@),
        ),
{
    Ok(Calcit::List(crate::primes::clone_items(xs)))
}

/// How many items a collection holds.
pub open spec fn count_of(v: Val) -> Option<int> {
    match v {
        Val::Nil => Some(0),
        Val::List(ys) => Some(ys.len() as int),
        Val::Str(s) => Some(s.len() as int),
        Val::Dict(entries) => Some(entries.len() as int),
        Val::SetOf(ys) => Some(ys.len() as int),
        Val::Record(_, fields, _, _) => Some(fields.len() as int),
        _ => None,
    }
}

/// What `count` gives: how many items the collection holds.
pub open spec fn count_spec(args: Seq<Val>, stack: Seq<FrameV>) -> Result<Val, ErrV> {
    if args.len() != 1 {
        xerr(ErrKind::Arity, "count expected 1 argument"@, stack)
    } else {
        match count_of(args[0]) {
            Some(n) => if n <= i64::MAX {
                Ok(Val::Number(n))
            } else {
                xerr(ErrKind::NumericOverflow, "collection is too large to count"@, stack)
            },
            None => xerr(ErrKind::TypeMismatch, "count expected a collection"@, stack),
        }
    }
}

/// Guards a length against the number range.
fn counted(n: usize, stack: &Vec<CalcitStack>) -> (res: Result<Calcit, CalcitErr>)
    ensures
        crate::primes::res_view(res) == (if n <= i64::MAX {
            Ok::<Val, ErrV>(Val::Number(n as int))
        } else {
            Err(
                ErrV {
                    kind: ErrKind::NumericOverflow,
                    msg: "collection is too large to count"@,
                    stack: crate::call_stack::stack_view(stack@),
                },
            )
        }),
{
    if n as u64 <= i64::MAX as u64 {
        Ok(Calcit::Number(n as i64))
    } else {
        Err(CalcitErr::new(ErrKind::NumericOverflow, "collection is too large to count", stack))
    }
}

/// How many items a list, string, dictionary, set or record holds; `nil`
/// holds none.
pub fn count(xs: &CalcitItems, stack: &Vec<CalcitStack>) -> (res: Result<Calcit, CalcitErr>)
    ensures
        crate::primes::res_view(res) == count_spec(
            cv_seq(xs@),
            crate::call_stack::stack_view(stack@),
        ),
{
    if xs.len() != 1 {
        return Err(CalcitErr::new(ErrKind::Arity, "count expected 1 argument", stack));
    }
    proof {
        assert(cv_seq(xs@)[0] == cv(xs@[0]));
    }
    match &xs[0] {
        Calcit::Nil => {
            proof {
                assert(cv_seq(xs@)[0] == cv(xs@[0]));
                assert(cv(xs@[0]) == Val::Nil);
                assert(count_of(cv_seq(xs@)[0]) == Some(0int));
                assert(count_spec(cv_seq(xs@), crate::call_stack::stack_view(stack@)) == Ok::<
                    Val,
                    ErrV,
                >(Val::Number(0)));
            }
            Ok(Calcit::Number(0))
        },
        Calcit::List(ys) => {
            proof {
                assert(cv_seq(xs@)[0] == cv(xs@[0]));
                assert(cv(xs@[0]) == Val::List(cv_seq(ys@)));
                assert(count_of(cv_seq(xs@)[0]) == Some(ys@.len() as int));
            }
            counted(ys.len(), stack)
        },
        Calcit::Str(s) => {
            let n = s.as_str().unicode_len();
            proof {
                assert(count_of(cv(xs@[0])) == Some(n as int));
            }
            counted(n, stack)
        },
        Calcit::Dict(entries) => {
            proof {
                assert(cv(xs@[0]) == Val::Dict(crate::primes::cv_pairs(entries@)));
                assert(count_of(cv(xs@[0])) == Some(entries@.len() as int));
            }
            counted(entries.len(), stack)
        },
        Calcit::SetOf(ys) => {
            proof {
                assert(cv(xs@[0]) == Val::SetOf(cv_seq(ys@)));
                assert(count_of(cv(xs@[0])) == Some(ys@.len() as int));
            }
            counted(ys.len(), stack)
        },
        Calcit::Record(r) => {
            proof {
                assert(count_of(cv(xs@[0])) == Some(r.fields@.len() as int));
            }
            counted(r.fields.len(), stack)
        },
        _ => {
            proof {
                assert(count_of(cv(xs@[0])) is None);
            }
            Err(CalcitErr::new(ErrKind::TypeMismatch, "count expected a collection", stack))
        },
    }
}

/// What `empty?` gives: whether the collection holds nothing.
pub open spec fn empty_ques_spec(args: Seq<Val>, stack: Seq<FrameV>) -> Result<Val, ErrV> {
    if args.len() != 1 {
        xerr(ErrKind::Arity, "empty? expected 1 argument"@, stack)
    } else {
        match count_of(args[0]) {
            Some(n) => Ok(Val::Bool(n == 0)),
            None => xerr(ErrKind::TypeMismatch, "empty? expected a collection"@, stack),
        }
    }
}

/// Whether a collection holds nothing; `nil` does.
pub fn empty_ques(xs: &CalcitItems, stack: &Vec<CalcitStack>) -> (res: Result<Calcit, CalcitErr>)
    ensures
        crate::primes::res_view(res) == empty_ques_spec(
            cv_seq(xs@),
            crate::call_stack::stack_view(stack@),
        ),
{
    if xs.len() != 1 {
        return Err(CalcitErr::new(ErrKind::Arity, "empty? expected 1 argument", stack));
    }
    proof {
        assert(cv_seq(xs@)[0] == cv(xs@[0]));
    }
    match &xs[0] {
        Calcit::Nil => {
            proof {
                assert(cv(xs@[0]) == Val::Nil);
            }
            Ok(Calcit::Bool(true))
        },
        Calcit::List(ys) => {
            proof {
                assert(cv(xs@[0]) == Val::List(cv_seq(ys@)));
            }
            Ok(Calcit::Bool(ys.len() == 0))
        },
        Calcit::Str(s) => {
            proof {
                assert(cv(xs@[0]) == Val::Str(s@));
            }
            Ok(Calcit::Bool(s.as_str().unicode_len() == 0))
        },
        Calcit::Dict(entries) => {
            proof {
                assert(cv(xs@[0]) == Val::Dict(crate::primes::cv_pairs(entries@)));
            }
            Ok(Calcit::Bool(entries.len() == 0))
        },
        Calcit::SetOf(ys) => {
            proof {
                assert(cv(xs@[0]) == Val::SetOf(cv_seq(ys@)));
            }
            Ok(Calcit::Bool(ys.len() == 0))
        },
        Calcit::Record(r) => {
            proof {
                assert(count_of(cv(xs@[0])) == Some(r.fields@.len() as int));
            }
            Ok(Calcit::Bool(r.fields.len() == 0))
        },
        _ => Err(CalcitErr::new(ErrKind::TypeMismatch, "empty? expected a collection", stack)),
    }
}

/// What `nth` gives: the item at the index, `Nil` past either end.
pub open spec fn nth_spec(args: Seq<Val>, stack: Seq<FrameV>) -> Result<Val, ErrV> {
    if args.len() != 2 {
        xerr(ErrKind::Arity, "nth expected 2 arguments"@, stack)
    } else {
        match (args[0], args[1]) {
            (Val::List(ys), Val::Number(n)) => if 0 <= n < ys.len() {
                Ok(ys[n])
            } else {
                Ok(Val::Nil)
            },
            _ => xerr(ErrKind::TypeMismatch, "nth expected a list and an index"@, stack),
        }
    }
}

/// The item of a list at an index; `Nil` past either end.
pub fn nth(xs: &CalcitItems, stack: &Vec<CalcitStack>) -> (res: Result<Calcit, CalcitErr>)
    ensures
        crate::primes::res_view(res) == nth_spec(cv_seq(xs@), crate::call_stack::stack_view(stack@)),
{
    if xs.len() != 2 {
        return Err(CalcitErr::new(ErrKind::Arity, "nth expected 2 arguments", stack));
    }
    proof {
        assert(cv_seq(xs@)[0] == cv(xs@[0]));
        assert(cv_seq(xs@)[1] == cv(xs@[1]));
    }
    match (&xs[0], &xs[1]) {
        (Calcit::List(ys), Calcit::Number(n)) => {
            proof {
                assert(cv(xs@[0]) == Val::List(cv_seq(ys@)));
                assert(cv(xs@[1]) == Val::Number(*n as int));
            }
            if *n >= 0 && (*n as u64) < (ys.len() as u64) {
                proof {
                    assert(cv_seq(ys@)[*n as int] == cv(ys@[*n as int]));
                }
                Ok(ys[*n as usize].clone())
            } else {
                Ok(Calcit::Nil)
            }
        },
        _ => Err(CalcitErr::new(ErrKind::TypeMismatch, "nth expected a list and an index", stack)),
    }
}

/// An index clamped into a list of length `len`.
pub open spec fn clamp_idx(n: int, len: int) -> int {
    if n < 0 {
        0
    } else if n > len {
        len
    } else {
        n
    }
}

/// What `slice` gives: the items from the first index to the second, both
/// clamped into the list; an empty list when they cross.
pub open spec fn slice_spec(args: Seq<Val>, stack: Seq<FrameV>) -> Result<Val, ErrV> {
    if args.len() != 3 {
        xerr(ErrKind::Arity, "slice expected 3 arguments"@, stack)
    } else {
        match (args[0], args[1], args[2]) {
            (Val::List(ys), Val::Number(a), Val::Number(b)) => {
                let from = clamp_idx(a, ys.len() as int);
                let to = clamp_idx(b, ys.len() as int);
                if from <= to {
                    Ok(Val::List(ys.subrange(from, to)))
                } else {
                    Ok(Val::List(Seq::empty()))
                }
            },
            _ => xerr(ErrKind::TypeMismatch, "slice expected a list and 2 indexes"@, stack),
        }
    }
}

/// An index clamped into a list.
fn clamp(n: i64, len: usize) -> (res: usize)
    ensures
        res as int == clamp_idx(n as int, len as int),
{
    if n < 0 {
        0
    } else if (n as u64) >= (len as u64) {
        len
    } else {
        n as usize
    }
}

/// The items of a list between two indexes, clamped into the list.
pub fn slice(xs: &CalcitItems, stack: &Vec<CalcitStack>) -> (res: Result<Calcit, CalcitErr>)
    ensures
        crate::primes::res_view(res) == slice_spec(
            cv_seq(xs@),
            crate::call_stack::stack_view(stack@),
        ),
{
    if xs.len() != 3 {
        return Err(CalcitErr::new(ErrKind::Arity, "slice expected 3 arguments", stack));
    }
    proof {
        assert(cv_seq(xs@)[0] == cv(xs@[0]));
        assert(cv_seq(xs@)[1] == cv(xs@[1]));
        assert(cv_seq(xs@)[2] == cv(xs@[2]));
    }
    match (&xs[0], &xs[1], &xs[2]) {
        (Calcit::List(ys), Calcit::Number(a), Calcit::Number(b)) => {
            proof {
                assert(cv(xs@[0]) == Val::List(cv_seq(ys@)));
            }
            let from = clamp(*a, ys.len());
            let to = clamp(*b, ys.len());
            if from <= to {
                Ok(Calcit::List(crate::util::slice(ys, from, to)))
            } else {
                let empty: CalcitItems = Vec::new();
                proof {
                    assert(cv_seq(empty@) =~= Seq::<Val>::empty());
                }
                Ok(Calcit::List(empty))
            }
        },
        _ => Err(
            CalcitErr::new(ErrKind::TypeMismatch, "slice expected a list and 2 indexes", stack),
        ),
    }
}

/// What `append` gives: the list with one item added at the end.
pub open spec fn append_spec(args: Seq<Val>, stack: Seq<FrameV>) -> Result<Val, ErrV> {
    if args.len() != 2 {
        xerr(ErrKind::Arity, "append expected 2 arguments"@, stack)
    } else {
        match args[0] {
            Val::List(ys) => Ok(Val::List(ys.push(args[1]))),
            _ => xerr(ErrKind::TypeMismatch, "append expected a list"@, stack),
        }
    }
}

/// Adds one item at the end of a list.
pub fn append(xs: &CalcitItems, stack: &Vec<CalcitStack>) -> (res: Result<Calcit, CalcitErr>)
    ensures
        crate::primes::res_view(res) == append_spec(
            cv_seq(xs@),
            crate::call_stack::stack_view(stack@),
        ),
{
    if xs.len() != 2 {
        return Err(CalcitErr::new(ErrKind::Arity, "append expected 2 arguments", stack));
    }
    proof {
        assert(cv_seq(xs@)[0] == cv(xs@[0]));
        assert(cv_seq(xs@)[1] == cv(xs@[1]));
    }
    match &xs[0] {
        Calcit::List(ys) => {
            proof {
                assert(cv(xs@[0]) == Val::List(cv_seq(ys@)));
            }
            let mut out = crate::primes::clone_items(ys);
            out.push(xs[1].clone());
            proof {
                assert(cv_seq(out@) =~= cv_seq(ys@).push(cv(xs@[1])));
            }
            Ok(Calcit::List(out))
        },
        _ => Err(CalcitErr::new(ErrKind::TypeMismatch, "append expected a list", stack)),
    }
}

/// What `prepend` gives: the list with one item added at the front.
pub open spec fn prepend_spec(args: Seq<Val>, stack: Seq<FrameV>) -> Result<Val, ErrV> {
    if args.len() != 2 {
        xerr(ErrKind::Arity, "prepend expected 2 arguments"@, stack)
    } else {
        match args[0] {
            Val::List(ys) => Ok(Val::List(seq![args[1]] + ys)),
            _ => xerr(ErrKind::TypeMismatch, "prepend expected a list"@, stack),
        }
    }
}

/// Adds one item at the front of a list.
pub fn prepend(xs: &CalcitItems, stack: &Vec<CalcitStack>) -> (res: Result<Calcit, CalcitErr>)
    ensures
        crate::primes::res_view(res) == prepend_spec(
            cv_seq(xs@),
            crate::call_stack::stack_view(stack@),
        ),
{
    if xs.len() != 2 {
        return Err(CalcitErr::new(ErrKind::Arity, "prepend expected 2 arguments", stack));
    }
    proof {
        assert(cv_seq(xs@)[0] == cv(xs@[0]));
        assert(cv_seq(xs@)[1] == cv(xs@[1]));
    }
    match &xs[0] {
        Calcit::List(ys) => {
            proof {
                assert(cv(xs@[0]) == Val::List(cv_seq(ys@)));
            }
            let mut out = crate::primes::clone_items(ys);
            out.insert(0, xs[1].clone());
            proof {
                assert(cv_seq(out@) =~= seq![cv(xs@[1])] + cv_seq(ys@));
            }
            Ok(Calcit::List(out))
        },
        _ => Err(CalcitErr::new(ErrKind::TypeMismatch, "prepend expected a list", stack)),
    }
}

/// What `rest` gives: the list without its first item; `Nil` from an empty
/// list or `nil`.
pub open spec fn rest_spec(args: Seq<Val>, stack: Seq<FrameV>) -> Result<Val, ErrV> {
    if args.len() != 1 {
        xerr(ErrKind::Arity, "rest expected 1 argument"@, stack)
    } else {
        match args[0] {
            Val::Nil => Ok(Val::Nil),
            Val::List(ys) => if ys.len() == 0 {
                Ok(Val::Nil)
            } else {
                Ok(Val::List(ys.skip(1)))
            },
            _ => xerr(ErrKind::TypeMismatch, "rest expected a list"@, stack),
        }
    }
}

/// A list without its first item.
pub fn rest(xs: &CalcitItems, stack: &Vec<CalcitStack>) -> (res: Result<Calcit, CalcitErr>)
    ensures
        crate::primes::res_view(res) == rest_spec(cv_seq(xs@), crate::call_stack::stack_view(stack@)),
{
    if xs.len() != 1 {
        return Err(CalcitErr::new(ErrKind::Arity, "rest expected 1 argument", stack));
    }
    proof {
        assert(cv_seq(xs@)[0] == cv(xs@[0]));
    }
    match &xs[0] {
        Calcit::Nil => Ok(Calcit::Nil),
        Calcit::List(ys) => {
            proof {
                assert(cv(xs@[0]) == Val::List(cv_seq(ys@)));
            }
            if ys.len() == 0 {
                Ok(Calcit::Nil)
            } else {
                Ok(Calcit::List(crate::util::skip(ys, 1)))
            }
        },
        _ => Err(CalcitErr::new(ErrKind::TypeMismatch, "rest expected a list", stack)),
    }
}

/// What `butlast` gives: the list without its last item; `Nil` from an
/// empty list or `nil`.
pub open spec fn butlast_spec(args: Seq<Val>, stack: Seq<FrameV>) -> Result<Val, ErrV> {
    if args.len() != 1 {
        xerr(ErrKind::Arity, "butlast expected 1 argument"@, stack)
    } else {
        match args[0] {
            Val::Nil => Ok(Val::Nil),
            Val::List(ys) => if ys.len() == 0 {
                Ok(Val::Nil)
            } else {
                Ok(Val::List(ys.drop_last()))
            },
            _ => xerr(ErrKind::TypeMismatch, "butlast expected a list"@, stack),
        }
    }
}

/// A list without its last item.
pub fn butlast(xs: &CalcitItems, stack: &Vec<CalcitStack>) -> (res: Result<Calcit, CalcitErr>)
    ensures
        crate::primes::res_view(res) == butlast_spec(
            cv_seq(xs@),
            crate::call_stack::stack_view(stack@),
        ),
{
    if xs.len() != 1 {
        return Err(CalcitErr::new(ErrKind::Arity, "butlast expected 1 argument", stack));
    }
    proof {
        assert(cv_seq(xs@)[0] == cv(xs@[0]));
    }
    match &xs[0] {
        Calcit::Nil => Ok(Calcit::Nil),
        Calcit::List(ys) => {
            proof {
                assert(cv(xs@[0]) == Val::List(cv_seq(ys@)));
            }
            if ys.len() == 0 {
                Ok(Calcit::Nil)
            } else {
                let out = crate::util::slice(ys, 0, ys.len() - 1);
                proof {
                    assert(cv_seq(ys@).subrange(0, ys@.len() - 1) =~= cv_seq(ys@).drop_last());
                }
                Ok(Calcit::List(out))
            }
        },
        _ => Err(CalcitErr::new(ErrKind::TypeMismatch, "butlast expected a list", stack)),
    }
}

} // verus!
