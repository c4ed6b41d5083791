//! The laws the interpreter keeps, stated over the functional model and
//! proved once for all inputs: record well-formedness, memoization writing
//! back exactly what evaluation gave, resolution never leaving a symbol
//! silently unresolved, bindings reading back, and quasiquote standing
//! still without unquotes.

use vstd::prelude::*;

use crate::builtins::records::{
    extend_as_spec, lemma_build_columns_wf, lemma_insert_entry_props, new_record_spec, record_wf,
};
use crate::builtins::syntax::{
    has_unquote_v, quasiquote_spec, replace_code_spec, SpanV,
};
use crate::call_stack::FrameV;
use crate::primes::{ErrV, ResolvedV, Val};
use crate::program::{lookup_def, ProgV, WarnKind};
use crate::runner::preprocess::preprocess_expr_spec;
use crate::runner::{
    bind_args_spec, bind_rec, eval_symbol_from_program_spec, evaluate_expr_spec,
    evaluate_symbol_spec, is_method_name, parse_ns_def_of, scope_lookup, ScopeV,
};

verus! {

/// Every record `new-record` builds is well-formed: its fields are sorted
/// strictly increasing and there is one value per field.
pub proof fn lemma_new_record_wf(args: Seq<Val>, stack: Seq<FrameV>)
    ensures
        match new_record_spec(args, stack) {
            Ok(v) => v matches Val::Record(_, fields, values, _) && record_wf(fields, values),
            Err(_) => true,
        },
{
    if args.len() > 0 {
        match crate::builtins::records::tag_of(args[0]) {
            None => {},
            Some(_) => {
                lemma_build_columns_wf(args.skip(1));
            },
        }
    }
}

/// Extending a well-formed record keeps it well-formed: the new field sits
/// at its sorted place and brings one value.
pub proof fn lemma_extend_as_wf(args: Seq<Val>, stack: Seq<FrameV>)
    requires
        args.len() == 4,
        args[0] matches Val::Record(_, fields, values, _) && record_wf(fields, values),
    ensures
        match extend_as_spec(args, stack) {
            Ok(v) => v matches Val::Record(_, fields, values, _) && record_wf(fields, values),
            Err(_) => true,
        },
{
    match args[0] {
        Val::Record(_, fields, values, _) => {
            match (crate::builtins::records::tag_of(args[1]), crate::builtins::records::tag_of(
                args[2],
            )) {
                (Some(_), Some(t)) => {
                    lemma_insert_entry_props(fields, values, t, args[3]);
                },
                _ => {},
            }
        },
        _ => {},
    }
}

/// A definition fetched for the first time is memoized with exactly the
/// value evaluation gave: right after the fetch, the store holds that
/// value under the definition's name.
pub proof fn lemma_memo_holds_result(sym: Seq<char>, ns: Seq<char>, prog: ProgV, fuel: nat)
    requires
        fuel > 0,
        lookup_def(prog.evaled, ns, sym) is None,
        lookup_def(prog.code, ns, sym) is Some,
    ensures
        ({
            let (p, r) = eval_symbol_from_program_spec(sym, ns, prog, fuel);
            r matches Ok(v) ==> lookup_def(p.evaled, ns, sym) == Some(v)
        }),
{
    let code = lookup_def(prog.code, ns, sym).unwrap();
    let (p1, r) = evaluate_expr_spec(code, Seq::empty(), ns, prog, (fuel - 1) as nat);
    match r {
        Err(_) => {},
        Ok(v) => {
            crate::program::lemma_def_written_lookup(p1.evaled, ns, sym, v);
        },
    }
}

/// A pending thunk under a resolved symbol memoizes exactly the value its
/// code evaluated to: the read answers that value, and right after it the
/// store holds the filled thunk under the definition's name.
pub proof fn lemma_thunk_memo_exact(
    s: Seq<char>,
    ns0: Seq<char>,
    at_def: Seq<char>,
    r_ns: Seq<char>,
    r_def: Seq<char>,
    rule: Option<crate::primes::RuleV>,
    scope: ScopeV,
    file_ns: Seq<char>,
    prog: ProgV,
    fuel: nat,
)
    requires
        fuel > 0,
        s != "&"@,
    ensures
        ({
            let sym = Val::Symbol(s, ns0, at_def, Some(ResolvedV::Def(r_ns, r_def, rule)));
            let (p, r) = evaluate_expr_spec(sym, scope, file_ns, prog, fuel);
            let (p1, r1) = evaluate_symbol_spec(r_def, scope, r_ns, prog, (fuel - 1) as nat);
            match r1 {
                Ok(Val::Thunk(code, None)) => {
                    let (p2, r2) = evaluate_expr_spec(*code, scope, file_ns, p1, (fuel - 1) as nat);
                    match r2 {
                        Ok(v2) => r == Ok::<Val, ErrV>(v2) && lookup_def(p.evaled, r_ns, r_def)
                            == Some(Val::Thunk(code, Some(Box::new(v2)))),
                        Err(_) => true,
                    }
                },
                _ => true,
            }
        }),
{
    let sym = Val::Symbol(s, ns0, at_def, Some(ResolvedV::Def(r_ns, r_def, rule)));
    let (p1, r1) = evaluate_symbol_spec(r_def, scope, r_ns, prog, (fuel - 1) as nat);
    match r1 {
        Ok(Val::Thunk(code, None)) => {
            let (p2, r2) = evaluate_expr_spec(*code, scope, file_ns, p1, (fuel - 1) as nat);
            match r2 {
                Ok(v2) => {
                    crate::program::lemma_def_written_lookup(
                        p2.evaled,
                        r_ns,
                        r_def,
                        Val::Thunk(code, Some(Box::new(v2))),
                    );
                },
                Err(_) => {},
            }
        },
        _ => {},
    }
}

/// A symbol the resolver hands back unresolved always gets a warning: when
/// the input is an unannotated symbol that names no method, and the output
/// keeps it unresolved, the warning collector has grown by an
/// unknown-symbol warning naming it.
pub proof fn lemma_unresolved_symbol_warns(
    s: Seq<char>,
    ns: Seq<char>,
    at_def: Seq<char>,
    scope_defs: Seq<Seq<char>>,
    file_ns: Seq<char>,
    prog: ProgV,
    fuel: nat,
)
    requires
        fuel > 0,
        !is_method_name(s),
    ensures
        ({
            let (p, r) = preprocess_expr_spec(
                Val::Symbol(s, ns, at_def, None),
                scope_defs,
                file_ns,
                prog,
                fuel,
            );
            match r {
                Ok((form, _)) => ((form matches Val::Symbol(_, _, _, res) && res is None)
                    ==> (p.warnings.len() == prog.warnings.len() + 1 && p.warnings.last().kind
                    == WarnKind::UnknownSymbol && p.warnings.last().sym == s)),
                Err(_) => true,
            }
        }),
{
    let expr = Val::Symbol(s, ns, at_def, None);
    let less: nat = (fuel - 1) as nat;
    match parse_ns_def_of(s) {
        Some((ns_alias, def_part)) => {
            match crate::program::ns_target_in_import(prog.imports, ns, ns_alias) {
                Some(target_ns) => {
                    lemma_ns_def_resolves(target_ns, def_part, s, prog, less);
                },
                None => {
                    if crate::program::has_def(prog.code, ns_alias, def_part) {
                        lemma_ns_def_resolves(ns_alias, def_part, s, prog, less);
                    }
                },
            }
        },
        None => {
            if crate::runner::preprocess::is_marker(s) {
            } else if crate::runner::preprocess::defs_has(scope_defs, s) {
            } else if crate::builtins::syntax_kind_of(s) is Some {
            } else if crate::builtins::is_proc(s) {
            } else if crate::program::has_def(prog.code, crate::runner::core_ns(), s) {
                lemma_ns_def_resolves(crate::runner::core_ns(), s, s, prog, less);
            } else if crate::program::has_def(prog.code, ns, s) {
                lemma_ns_def_resolves(ns, s, s, prog, less);
            } else {
                match crate::program::def_target_in_import(prog.imports, ns, s) {
                    Some(target_ns) => {
                        lemma_ns_def_resolves(target_ns, s, s, prog, less);
                    },
                    None => {},
                }
            }
        },
    }
}

/// Whatever form the definition resolver hands back, its symbol is
/// annotated.
pub proof fn lemma_ns_def_resolves(ns: Seq<char>, def: Seq<char>, raw_sym: Seq<char>, prog: ProgV, fuel: nat)
    ensures
        ({
            let (p, r) = crate::runner::preprocess::preprocess_ns_def_spec(ns, def, raw_sym, prog, fuel);
            match r {
                Ok((form, _)) => (form matches Val::Symbol(_, _, _, res) ==> res is Some),
                Err(_) => true,
            }
        }),
{
}

/// A binding introduced by `let` reads back as exactly the bound value;
/// a binding in scope shadows even a special-form name.  Only a name
/// written as an `ns/def` path escapes the scope.
pub proof fn lemma_let_binding_reads_back(
    s: Seq<char>,
    v: Val,
    scope: ScopeV,
    file_ns: Seq<char>,
    prog: ProgV,
    fuel: nat,
)
    requires
        fuel > 0,
        parse_ns_def_of(s) is None,
    ensures
        evaluate_symbol_spec(s, scope.push((s, v)), file_ns, prog, fuel) == (
            prog,
            Ok::<Val, ErrV>(v),
        ),
{
    assert(scope_lookup(scope.push((s, v)), s) == Some(v));
}

/// The name a plain parameter binds.
pub open spec fn param_name(p: Val) -> Seq<char> {
    match p {
        Val::Symbol(s, _, _, _) => s,
        _ => Seq::empty(),
    }
}

/// A parameter list without markers.
pub open spec fn plain_params(params: Seq<Val>) -> bool {
    forall|i: int|
        0 <= i < params.len() ==> ((#[trigger] params[i]) matches Val::Symbol(s, _, _, _) && s
            != "&"@ && s != "?"@)
}

/// Binding a marker-free parameter list to as many arguments succeeds and
/// appends exactly the pairs, in order, onto the base scope.
pub proof fn lemma_bind_args_plain(params: Seq<Val>, values: Seq<Val>, scope: ScopeV, optional: bool)
    requires
        params.len() == values.len(),
        plain_params(params),
    ensures
        ({
            let r = bind_rec(params, values, scope, optional);
            r matches Ok(s2) && s2.len() == scope.len() + params.len() && (forall|i: int|
                0 <= i < scope.len() ==> s2[i] == scope[i]) && (forall|i: int|
                0 <= i < params.len() ==> s2[scope.len() + i] == (param_name(params[i]), values[i]))
        }),
    decreases params.len(),
{
    if params.len() == 0 {
    } else {
        assert((params[0] matches Val::Symbol(s, _, _, _) && s != "&"@ && s != "?"@));
        match params[0] {
            Val::Symbol(s, _, _, _) => {
                assert forall|i: int| 0 <= i < params.skip(1).len() implies ((
                #[trigger] params.skip(1)[i]) matches Val::Symbol(s2, _, _, _) && s2 != "&"@ && s2
                    != "?"@) by {
                    assert(params.skip(1)[i] == params[i + 1]);
                }
                lemma_bind_args_plain(
                    params.skip(1),
                    values.skip(1),
                    scope.push((s, values[0])),
                    optional,
                );
                let r = bind_rec(params, values, scope, optional);
                match r {
                    Ok(s2) => {
                        assert forall|i: int| 0 <= i < params.len() implies s2[scope.len() + i] == (
                        param_name(params[i]),
                        values[i],
                        ) by {
                            if i == 0 {
                                assert(s2[scope.len() as int] == scope.push((s, values[0]))[scope.len() as int]);
                            } else {
                                assert(s2[scope.len() + i] == (
                                    param_name(params.skip(1)[i - 1]),
                                    values.skip(1)[i - 1],
                                ));
                                assert(params.skip(1)[i - 1] == params[i]);
                                assert(values.skip(1)[i - 1] == values[i]);
                            }
                        }
                    },
                    Err(_) => {
                        assert(false);
                    },
                }
            },
            _ => {
                assert(false);
            },
        }
    }
}

/// Looking a name up in joined scopes reads the later part first.
pub proof fn lemma_scope_lookup_append(a: ScopeV, b: ScopeV, name: Seq<char>)
    ensures
        scope_lookup(a + b, name) == if scope_lookup(b, name) is Some {
            scope_lookup(b, name)
        } else {
            scope_lookup(a, name)
        },
    decreases b.len(),
{
    if b.len() == 0 {
        assert(a + b =~= a);
    } else {
        assert((a + b).last() == b.last());
        assert((a + b).drop_last() =~= a + b.drop_last());
        lemma_scope_lookup_append(a, b.drop_last(), name);
    }
}

/// Binding a marker-free parameter list and looking one parameter up gives
/// exactly its argument, when parameter names are distinct.
pub proof fn lemma_bind_then_lookup(
    params: Seq<Val>,
    values: Seq<Val>,
    scope: ScopeV,
    k: int,
)
    requires
        params.len() == values.len(),
        plain_params(params),
        0 <= k < params.len(),
        forall|i: int, j: int|
            0 <= i < j < params.len() ==> param_name(#[trigger] params[i]) != param_name(
                #[trigger] params[j],
            ),
    ensures
        ({
            let r = bind_args_spec(params, values, scope);
            r matches Ok(s2) && scope_lookup(s2, param_name(params[k])) == Some(values[k])
        }),
{
    lemma_bind_args_plain(params, values, scope, false);
    let r = bind_args_spec(params, values, scope);
    match r {
        Ok(s2) => {
            let zip = s2.skip(scope.len() as int);
            assert(s2 =~= scope + zip);
            lemma_scope_lookup_append(scope, zip, param_name(params[k]));
            lemma_zip_lookup(params, values, zip, k);
        },
        Err(_) => {},
    }
}

/// Looking a distinct parameter's name up among the bound pairs gives its
/// argument.
proof fn lemma_zip_lookup(params: Seq<Val>, values: Seq<Val>, zip: ScopeV, k: int)
    requires
        params.len() == values.len(),
        zip.len() == params.len(),
        forall|i: int|
            0 <= i < params.len() ==> #[trigger] zip[i] == (param_name(params[i]), values[i]),
        0 <= k < params.len(),
        forall|i: int, j: int|
            0 <= i < j < params.len() ==> param_name(#[trigger] params[i]) != param_name(
                #[trigger] params[j],
            ),
    ensures
        scope_lookup(zip, param_name(params[k])) == Some(values[k]),
    decreases zip.len(),
{
    if k == params.len() - 1 {
        assert(zip.last() == (param_name(params[k]), values[k]));
    } else {
        assert(zip.last() == (param_name(params[params.len() - 1]), values[params.len() - 1]));
        assert(param_name(params[params.len() - 1]) != param_name(params[k]));
        assert forall|i: int| 0 <= i < params.drop_last().len() implies #[trigger] zip.drop_last()[i]
            == (param_name(params.drop_last()[i]), values.drop_last()[i]) by {
            assert(zip.drop_last()[i] == zip[i]);
            assert(params.drop_last()[i] == params[i]);
            assert(values.drop_last()[i] == values[i]);
        }
        assert forall|i: int, j: int|
            0 <= i < j < params.drop_last().len() implies param_name(
            #[trigger] params.drop_last()[i],
        ) != param_name(#[trigger] params.drop_last()[j]) by {
            assert(params.drop_last()[i] == params[i]);
            assert(params.drop_last()[j] == params[j]);
        }
        lemma_zip_lookup(params.drop_last(), values.drop_last(), zip.drop_last(), k);
        assert(params.drop_last()[k] == params[k]);
        assert(values.drop_last()[k] == values[k]);
    }
}

/// A tree without unquotes comes out of quasiquote replacement unchanged.
pub proof fn lemma_quasiquote_no_unquote(
    t: Val,
    scope: ScopeV,
    file_ns: Seq<char>,
    prog: ProgV,
    fuel: nat,
)
    requires
        fuel > 0,
        !has_unquote_v(t),
    ensures
        replace_code_spec(t, scope, file_ns, prog, fuel) == (
            prog,
            Ok::<SpanV, ErrV>(SpanV::Single(t)),
        ),
{
}

/// Quasiquote on a tree without unquotes gives the tree back.
pub proof fn lemma_quasiquote_identity(
    t: Val,
    scope: ScopeV,
    file_ns: Seq<char>,
    prog: ProgV,
    fuel: nat,
)
    requires
        fuel > 1,
        !has_unquote_v(t),
    ensures
        quasiquote_spec(seq![t], scope, file_ns, prog, fuel) == (prog, Ok::<Val, ErrV>(t)),
{
    lemma_quasiquote_no_unquote(t, scope, file_ns, prog, (fuel - 1) as nat);
}

/// Whether a value evaluates to itself.
pub open spec fn self_evaluating(v: Val) -> bool {
    match v {
        Val::Nil => true,
        Val::Bool(_) => true,
        Val::Number(_) => true,
        Val::Str(_) => true,
        Val::Keyword(_) => true,
        Val::Proc(_) => true,
        Val::Syntax(_, _) => true,
        Val::Macro(_, _, _, _, _) => true,
        Val::Fn(_, _, _, _, _, _) => true,
        Val::Tuple(_, _) => true,
        Val::Ref(_) => true,
        _ => false,
    }
}

/// Evaluating `(quote e)` under `eval` equals evaluating `e` under `eval`,
/// when `e` evaluates to itself: both give exactly `e` and leave the state
/// alone.
pub proof fn lemma_eval_quote_round_trip(
    e: Val,
    q_ns: Seq<char>,
    scope: ScopeV,
    file_ns: Seq<char>,
    prog: ProgV,
    fuel: nat,
)
    requires
        fuel >= 4,
        self_evaluating(e),
    ensures
        crate::builtins::syntax::eval_syntax_spec(
            seq![Val::List(seq![Val::Syntax(crate::primes::CalcitSyntax::Quote, q_ns), e])],
            scope,
            file_ns,
            prog,
            fuel,
        ) == (prog, Ok::<Val, ErrV>(e)),
        crate::builtins::syntax::eval_syntax_spec(seq![e], scope, file_ns, prog, fuel) == (
            prog,
            Ok::<Val, ErrV>(e),
        ),
{
    let quote_form = Val::List(seq![Val::Syntax(crate::primes::CalcitSyntax::Quote, q_ns), e]);
    let nodes = seq![quote_form];
    assert(nodes[0] == quote_form);
    let less: nat = (fuel - 1) as nat;
    let less2: nat = (less - 1) as nat;
    let less3: nat = (less2 - 1) as nat;
    let xs = seq![Val::Syntax(crate::primes::CalcitSyntax::Quote, q_ns), e];
    assert(xs[0] == Val::Syntax(crate::primes::CalcitSyntax::Quote, q_ns));
    assert(evaluate_expr_spec(xs[0], scope, file_ns, prog, less2) == (
        prog,
        Ok::<Val, ErrV>(xs[0]),
    ));
    let rest = xs.skip(1);
    assert(rest =~= seq![e]);
    let f = crate::runner::frame_v(
        file_ns,
        crate::primes::syntax_repr(crate::primes::CalcitSyntax::Quote),
        crate::call_stack::StackKind::Syntax,
        quote_form,
        rest,
    );
    let p2 = crate::runner::pushed(prog, f);
    assert(rest[0] == e);
    assert(crate::builtins::syntax::quote_spec(rest, p2) == (p2, Ok::<Val, ErrV>(e)));
    assert(crate::builtins::syntax::handle_syntax_kind_spec(
        crate::primes::CalcitSyntax::Quote,
        rest,
        scope,
        q_ns,
        p2,
        less3,
    ) == (p2, Ok::<Val, ErrV>(e)));
    assert(crate::runner::popped(p2) == prog) by {
        assert(prog.stack.push(f).drop_last() =~= prog.stack);
    }
    assert(crate::runner::evaluate_call_spec(
        quote_form,
        xs[0],
        rest,
        scope,
        file_ns,
        prog,
        less2,
    ) == (prog, Ok::<Val, ErrV>(e)));
    assert(evaluate_expr_spec(quote_form, scope, file_ns, prog, less) == (
        prog,
        Ok::<Val, ErrV>(e),
    ));
    assert(evaluate_expr_spec(e, scope, file_ns, prog, less) == (prog, Ok::<Val, ErrV>(e)));
}

/// Expanding once and expanding fully agree when the quoted form is no
/// macro call: a form that is not a list, or whose head evaluates to no
/// macro, comes back unchanged from both.
pub proof fn lemma_macroexpand_agree_when_expanded(
    nodes: Seq<Val>,
    scope: ScopeV,
    file_ns: Seq<char>,
    prog: ProgV,
    fuel: nat,
)
    requires
        fuel > 0,
        nodes.len() == 1,
    ensures
        ({
            let (p1, r1) = evaluate_expr_spec(nodes[0], scope, file_ns, prog, (fuel - 1) as nat);
            match r1 {
                Ok(q) => {
                    let plain = match q {
                        Val::List(xs) => xs.len() > 0 && (match evaluate_expr_spec(
                            xs[0],
                            scope,
                            file_ns,
                            p1,
                            (fuel - 1) as nat,
                        ).1 {
                            Ok(h) => !(h is Macro),
                            Err(_) => false,
                        }),
                        _ => true,
                    };
                    plain ==> crate::builtins::syntax::macroexpand_spec(
                        nodes,
                        scope,
                        file_ns,
                        prog,
                        fuel,
                    ) == crate::builtins::syntax::macroexpand_1_spec(
                        nodes,
                        scope,
                        file_ns,
                        prog,
                        fuel,
                    )
                },
                Err(_) => true,
            }
        }),
{
}

/// A memoized definition reads back without re-evaluating: when the store
/// already holds a value under the name, fetching answers that value and
/// leaves the state alone.
pub proof fn lemma_memo_read_is_stable(
    sym: Seq<char>,
    ns: Seq<char>,
    v: Val,
    prog: ProgV,
    fuel: nat,
)
    requires
        fuel > 0,
        lookup_def(prog.evaled, ns, sym) == Some(v),
    ensures
        eval_symbol_from_program_spec(sym, ns, prog, fuel) == (prog, Ok::<Val, ErrV>(v)),
{
}

/// A filled thunk under a resolved symbol reads back as its stored value,
/// with the state untouched: the transition from pending to filled is never
/// walked back and the code is not run again.
pub proof fn lemma_filled_thunk_reads_back(
    s: Seq<char>,
    ns0: Seq<char>,
    at_def: Seq<char>,
    r_ns: Seq<char>,
    r_def: Seq<char>,
    rule: Option<crate::primes::RuleV>,
    scope: ScopeV,
    file_ns: Seq<char>,
    prog: ProgV,
    fuel: nat,
)
    requires
        fuel > 0,
        s != "&"@,
    ensures
        ({
            let sym = Val::Symbol(s, ns0, at_def, Some(ResolvedV::Def(r_ns, r_def, rule)));
            let (p1, r1) = evaluate_symbol_spec(r_def, scope, r_ns, prog, (fuel - 1) as nat);
            match r1 {
                Ok(Val::Thunk(code, Some(data))) => evaluate_expr_spec(
                    sym,
                    scope,
                    file_ns,
                    prog,
                    fuel,
                ) == (p1, Ok::<Val, ErrV>(*data)),
                _ => true,
            }
        }),
{
}

} // verus!
