//! Dictionary procedures.  A dictionary holds key-value entries with keys
//! unique under structural equality; writing an existing key replaces its
//! entry.

use vstd::prelude::*;

use crate::call_stack::{CalcitStack, FrameV};
use crate::primes::{
    cv, cv_pairs, cv_seq, dict_get, dict_get_idx, val_eq, Calcit, CalcitErr, CalcitItems, ErrKind,
    ErrV, Val,
};
use vstd::pervasive::VecAdditionalExecFns;

verus! {

broadcast use crate::primes::lemma_cv_seq_index, crate::primes::lemma_cv_seq_len,
    crate::primes::lemma_cv_pairs_index, crate::primes::lemma_cv_pairs_len,
    crate::primes::lemma_cv_scope_index, crate::primes::lemma_cv_scope_len,
    crate::primes::lemma_strs_view_index, crate::primes::lemma_strs_view_len;

/// Entries after writing `v` under `k`: the first entry with an equal key
/// is replaced, or a new entry appended.
pub open spec fn dict_put(entries: Seq<(Val, Val)>, k: Val, v: Val) -> Seq<(Val, Val)>
    decreases entries.len(),
{
    if entries.len() == 0 {
        seq![(k, v)]
    } else if val_eq(k, entries[0].0) {
        seq![(k, v)] + entries.skip(1)
    } else {
        seq![entries[0]] + dict_put(entries.skip(1), k, v)
    }
}

/// Scanning past a prefix of unequal keys leaves the write untouched.
pub proof fn lemma_dict_put_skip(entries: Seq<(Val, Val)>, k: Val, v: Val, j: int)
    requires
        0 <= j <= entries.len(),
        forall|m: int| 0 <= m < j ==> !val_eq(k, #[trigger] entries[m].0),
    ensures
        dict_put(entries, k, v) == entries.take(j) + dict_put(entries.skip(j), k, v),
    decreases j,
{
    if j == 0 {
        assert(entries.skip(0) =~= entries);
        assert(entries.take(0) + dict_put(entries, k, v) =~= dict_put(entries, k, v));
    } else {
        lemma_dict_put_skip(entries, k, v, j - 1);
        assert(entries.skip(j - 1)[0] == entries[j - 1]);
        assert(entries.skip(j - 1).skip(1) =~= entries.skip(j));
        assert(entries.take(j - 1) + (seq![entries[j - 1]] + dict_put(entries.skip(j), k, v))
            =~= entries.take(j) + dict_put(entries.skip(j), k, v));
    }
}

/// Writes one entry, replacing the first equal key or appending.
pub fn dict_put_entry(entries: &mut Vec<(Calcit, Calcit)>, k: Calcit, v: Calcit)
    ensures
        cv_pairs(final(entries)@) == dict_put(cv_pairs(old(entries)@), cv(k), cv(v)),
{
    let ghost full = cv_pairs(entries@);
    match dict_get_idx(&k, entries) {
        Some(j) => {
            proof {
                lemma_dict_put_skip(full, cv(k), cv(v), j as int);
                assert(full.skip(j as int)[0] == full[j as int]);
                assert(dict_put(full.skip(j as int), cv(k), cv(v)) =~= seq![(cv(k), cv(v))]
                    + full.skip(j + 1));
            }
            entries.set(j, (k, v));
            proof {
                assert(cv_pairs(entries@) =~= full.take(j as int) + (seq![(cv(k), cv(v))]
                    + full.skip(j + 1)));
            }
        },
        None => {
            proof {
                assert forall|m: int| 0 <= m < full.len() implies !val_eq(
                    cv(k),
                    #[trigger] full[m].0,
                ) by {
                    crate::primes::lemma_dict_get_none(cv(k), full, m);
                }
                lemma_dict_put_skip(full, cv(k), cv(v), full.len() as int);
                assert(full.skip(full.len() as int).len() == 0);
            }
            entries.push((k, v));
            proof {
                assert(cv_pairs(entries@) =~= full.take(full.len() as int) + seq![(cv(k), cv(v))]);
            }
        },
    }
}

/// Pairs folded into a dictionary left to right.
pub open spec fn dict_from_pairs(args: Seq<Val>) -> Seq<(Val, Val)>
    decreases args.len(),
{
    if args.len() < 2 {
        Seq::empty()
    } else {
        dict_put(dict_from_pairs(args.take(args.len() - 2)), args[args.len() - 2], args.last())
    }
}

/// What `&{}` gives: its arguments, taken as key-value pairs, as a
/// dictionary; a later pair with an equal key replaces the earlier one.
pub open spec fn call_new_map_spec(args: Seq<Val>, stack: Seq<FrameV>) -> Result<Val, ErrV> {
    if args.len() % 2 != 0 {
        Err(ErrV { kind: ErrKind::Arity, msg: "&{} expected pairs"@, stack })
    } else {
        Ok(Val::Dict(dict_from_pairs(args)))
    }
}

/// Builds a dictionary from key-value pairs.
pub fn call_new_map(xs: &CalcitItems, stack: &Vec<CalcitStack>) -> (res: Result<Calcit, CalcitErr>)
    ensures
        crate::primes::res_view(res) == call_new_map_spec(
            cv_seq(xs@),
            crate::call_stack::stack_view(stack@),
        ),
{
    if xs.len() % 2 != 0 {
        return Err(CalcitErr::new(ErrKind::Arity, "&{} expected pairs", stack));
    }
    let ghost args = cv_seq(xs@);
    let mut entries: Vec<(Calcit, Calcit)> = Vec::new();
    let mut i: usize = 0;
    proof {
        assert(args.take(0) =~= Seq::<Val>::empty());
        assert(cv_pairs(entries@) =~= Seq::<(Val, Val)>::empty());
        assert(dict_from_pairs(args.take(0)) =~= Seq::<(Val, Val)>::empty());
    }
    #[verifier::loop_isolation(false)]
    while i < xs.len()
        invariant
            i <= xs@.len(),
            i % 2 == 0,
            dict_from_pairs(args.take(i as int)) == cv_pairs(entries@),
        decreases xs@.len() - i,
    {
        proof {
            assert(args.take(i + 2).take(i as int) =~= args.take(i as int));
            assert(args.take(i + 2)[i as int] == args[i as int]);
            assert(args.take(i + 2).last() == args[i + 1]);
            assert(args[i as int] == cv(xs@[i as int]));
            assert(args[i + 1] == cv(xs@[i + 1]));
        }
        let k = xs[i].clone();
        let v = xs[i + 1].clone();
        dict_put_entry(&mut entries, k, v);
        i = i + 2;
    }
    proof {
        assert(args.take(xs@.len() as int) =~= args);
    }
    Ok(Calcit::Dict(entries))
}

/// What a value holds under a key: dictionaries by structural key equality,
/// lists by position, records by field tag; `nil` holds nothing.
pub open spec fn get_in(target: Val, key: Val) -> Option<Result<Val, Seq<char>>> {
    match target {
        Val::Nil => Some(Ok(Val::Nil)),
        Val::Dict(entries) => Some(
            Ok(
                match dict_get(key, entries) {
                    Some(v) => v,
                    None => Val::Nil,
                },
            ),
        ),
        Val::List(ys) => match key {
            Val::Number(n) => Some(
                Ok(
                    if 0 <= n < ys.len() {
                        ys[n]
                    } else {
                        Val::Nil
                    },
                ),
            ),
            _ => Some(Err("get expected a number to index a list"@)),
        },
        Val::Record(_, fields, values, _) => match crate::builtins::records::tag_of(key) {
            Some(t) => {
                let at = crate::builtins::records::field_at(fields, t);
                Some(
                    Ok(
                        if at < fields.len() && at < values.len() {
                            values[at]
                        } else {
                            Val::Nil
                        },
                    ),
                )
            },
            None => Some(Err("record field expected as string, tag or symbol"@)),
        },
        _ => None,
    }
}

/// What `get` gives: the value under a key, `Nil` when the key is absent.
pub open spec fn get_spec(args: Seq<Val>, stack: Seq<FrameV>) -> Result<Val, ErrV> {
    if args.len() != 2 {
        Err(ErrV { kind: ErrKind::Arity, msg: "get expected 2 arguments"@, stack })
    } else {
        match get_in(args[0], args[1]) {
            Some(Ok(v)) => Ok(v),
            Some(Err(m)) => Err(ErrV { kind: ErrKind::TypeMismatch, msg: m, stack }),
            None => Err(
                ErrV {
                    kind: ErrKind::TypeMismatch,
                    msg: "get expected a dictionary, list or record"@,
                    stack,
                },
            ),
        }
    }
}

/// Reads a dictionary, list or record under a key; `Nil` when absent.
pub fn get(xs: &CalcitItems, stack: &Vec<CalcitStack>) -> (res: Result<Calcit, CalcitErr>)
    ensures
        crate::primes::res_view(res) == get_spec(cv_seq(xs@), crate::call_stack::stack_view(stack@)),
{
    if xs.len() != 2 {
        return Err(CalcitErr::new(ErrKind::Arity, "get expected 2 arguments", stack));
    }
    match &xs[0] {
        Calcit::Nil => {
            proof {
                assert(cv(xs@[0]) == Val::Nil);
            }
            Ok(Calcit::Nil)
        },
        Calcit::Dict(entries) => {
            proof {
                assert(cv(xs@[0]) == Val::Dict(cv_pairs(entries@)));
            }
            match dict_get_idx(&xs[1], entries) {
                Some(j) => Ok(entries[j].1.clone()),
                None => Ok(Calcit::Nil),
            }
        },
        Calcit::List(ys) => {
            proof {
                assert(cv(xs@[0]) == Val::List(cv_seq(ys@)));
            }
            match &xs[1] {
                Calcit::Number(n) => {
                    proof {
                        assert(cv(xs@[1]) == Val::Number(*n as int));
                    }
                    if *n >= 0 && (*n as u64) < (ys.len() as u64) {
                        Ok(ys[*n as usize].clone())
                    } else {
                        Ok(Calcit::Nil)
                    }
                },
                _ => Err(
                    CalcitErr::new(
                        ErrKind::TypeMismatch,
                        "get expected a number to index a list",
                        stack,
                    ),
                ),
            }
        },
        Calcit::Record(r) => {
            proof {
                assert(crate::primes::strs_view(r.fields@) =~= Seq::new(
                    r.fields@.len(),
                    |k: int| r.fields@[k]@,
                ));
            }
            let mut sub: CalcitItems = Vec::new();
            sub.push(xs[0].clone());
            sub.push(xs[1].clone());
            proof {
                assert(cv_seq(sub@) =~= seq![cv(xs@[0]), cv(xs@[1])]);
            }
            crate::builtins::records::get(&sub, stack)
        },
        _ => Err(
            CalcitErr::new(ErrKind::TypeMismatch, "get expected a dictionary, list or record", stack),
        ),
    }
}

} // verus!
