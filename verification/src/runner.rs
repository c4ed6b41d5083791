//! The evaluator: a recursive tree walker dispatching on the head of each
//! list form, with tail-call recycling through the `Recur` sentinel.  Every
//! function is stated against a functional model of the interpreter over
//! views; a fuel budget bounds the recursion depth, and running out of it
//! is an error, never nontermination.

pub mod preprocess;

use vstd::prelude::*;

use crate::call_stack::{kind_name, push_call_stack, pop_call_stack, stack_view, FrameV, StackKind};
use crate::primes::{
    cv, cv_scope, cv_seq, res_view, Calcit, CalcitErr, CalcitItems, CalcitScope, CalcitSyntax,
    ErrKind, ErrV, Val,
};
use crate::program::{
    def_written, has_def, lookup_def, write_evaled_def, ProgV, Program,
};
use crate::util::str_eq;

verus! {

broadcast use crate::primes::lemma_cv_seq_index, crate::primes::lemma_cv_seq_len,
    crate::primes::lemma_cv_pairs_index, crate::primes::lemma_cv_pairs_len,
    crate::primes::lemma_cv_scope_index, crate::primes::lemma_cv_scope_len,
    crate::primes::lemma_strs_view_index, crate::primes::lemma_strs_view_len;

/// A local scope over views.
pub type ScopeV = Seq<(Seq<char>, Val)>;

/// A state and a result together: what one evaluation step leaves behind.
pub type StepV = (ProgV, Result<Val, ErrV>);

/// The core namespace searched before the file's own.
pub open spec fn core_ns() -> Seq<char> {
    "calcit.core"@
}

/// The value bound to a name; later bindings shadow earlier ones.
pub open spec fn scope_lookup(scope: ScopeV, name: Seq<char>) -> Option<Val>
    decreases scope.len(),
{
    if scope.len() == 0 {
        None
    } else if scope.last().0 == name {
        Some(scope.last().1)
    } else {
        scope_lookup(scope.drop_last(), name)
    }
}

/// An error step with the state's stack frozen into it.
pub open spec fn err_step(prog: ProgV, kind: ErrKind, msg: Seq<char>) -> StepV {
    (prog, Err(ErrV { kind, msg, stack: prog.stack }))
}

/// The step when the fuel budget is gone.
pub open spec fn depth_step(prog: ProgV) -> StepV {
    err_step(prog, ErrKind::StackDepth, "evaluation depth budget ran out"@)
}

/// Index of the first `/` in a name; the length when there is none.
pub open spec fn slash_at(s: Seq<char>) -> int
    decreases s.len(),
{
    if s.len() == 0 {
        0
    } else if s[0] == '/' {
        0
    } else {
        1 + slash_at(s.skip(1))
    }
}

/// What the first-slash index means.
pub proof fn lemma_slash_at(s: Seq<char>)
    ensures
        0 <= slash_at(s) <= s.len(),
        forall|k: int| 0 <= k < slash_at(s) ==> s[k] != '/',
        slash_at(s) < s.len() ==> s[slash_at(s)] == '/',
    decreases s.len(),
{
    if s.len() == 0 {
    } else if s[0] == '/' {
    } else {
        lemma_slash_at(s.skip(1));
        assert forall|k: int| 0 <= k < slash_at(s) implies s[k] != '/' by {
            if k > 0 {
                assert(s.skip(1)[k - 1] == s[k]);
            }
        }
        if slash_at(s) < s.len() {
            assert(s.skip(1)[slash_at(s.skip(1))] == s[slash_at(s)]);
        }
    }
}

/// A name split as `ns/def`: one slash, neither side empty.
pub open spec fn parse_ns_def_of(s: Seq<char>) -> Option<(Seq<char>, Seq<char>)> {
    let i = slash_at(s);
    if 0 < i < s.len() && i + 1 < s.len() && slash_at(s.skip(i + 1)) == s.len() - i - 1 {
        Some((s.take(i), s.skip(i + 1)))
    } else {
        None
    }
}

/// Whether a name invokes a method: it starts with a dot.
pub open spec fn is_method_name(s: Seq<char>) -> bool {
    s.len() > 0 && s[0] == '.'
}

/// One diagnostic frame over views.
pub open spec fn frame_v(
    ns: Seq<char>,
    def: Seq<char>,
    kind: StackKind,
    code: Val,
    args: Seq<Val>,
) -> FrameV {
    FrameV { ns, def, code, args, kind }
}

/// The state with one frame pushed.
pub open spec fn pushed(prog: ProgV, f: FrameV) -> ProgV {
    ProgV { stack: prog.stack.push(f), ..prog }
}

/// The state with the newest frame removed.
pub open spec fn popped(prog: ProgV) -> ProgV {
    if prog.stack.len() > 0 {
        ProgV { stack: prog.stack.drop_last(), ..prog }
    } else {
        prog
    }
}

/// Binding a parameter list to an argument list onto a base scope.  A bare
/// symbol takes one argument; after `?` missing arguments bind `Nil`; `&`
/// makes its one following symbol take all remaining arguments as a list.
pub open spec fn bind_rec(
    params: Seq<Val>,
    values: Seq<Val>,
    scope: ScopeV,
    optional: bool,
) -> Result<ScopeV, (ErrKind, Seq<char>)>
    decreases params.len(),
{
    if params.len() == 0 {
        if values.len() == 0 {
            Ok(scope)
        } else {
            Err((ErrKind::Arity, "too many arguments were passed"@))
        }
    } else {
        match params[0] {
            Val::Symbol(s, _, _, _) => if s == "&"@ {
                if params.len() != 2 {
                    Err((ErrKind::Arity, "expected one parameter after &"@))
                } else {
                    match params[1] {
                        Val::Symbol(s2, _, _, _) => if s2 == "&"@ || s2 == "?"@ {
                            Err((ErrKind::TypeMismatch, "invalid parameter after &"@))
                        } else {
                            Ok(scope.push((s2, Val::List(values))))
                        },
                        _ => Err((ErrKind::TypeMismatch, "invalid parameter name"@)),
                    }
                }
            } else if s == "?"@ {
                bind_rec(params.skip(1), values, scope, true)
            } else if values.len() > 0 {
                bind_rec(params.skip(1), values.skip(1), scope.push((s, values[0])), optional)
            } else if optional {
                bind_rec(params.skip(1), values, scope.push((s, Val::Nil)), optional)
            } else {
                Err((ErrKind::Arity, "too few arguments were passed"@))
            },
            _ => Err((ErrKind::TypeMismatch, "invalid parameter name"@)),
        }
    }
}

/// What binding a parameter list gives; see [`bind_rec`].
pub open spec fn bind_args_spec(params: Seq<Val>, values: Seq<Val>, scope: ScopeV) -> Result<
    ScopeV,
    (ErrKind, Seq<char>),
> {
    bind_rec(params, values, scope, false)
}

/// Evaluating one expression: literals stand for themselves, symbols are
/// looked up by their resolution, thunks force and memoize, and list forms
/// dispatch on their evaluated head.
pub open spec fn evaluate_expr_spec(
    expr: Val,
    scope: ScopeV,
    file_ns: Seq<char>,
    prog: ProgV,
    fuel: nat,
) -> StepV
    decreases fuel, 3int,
{
    if fuel == 0 {
        depth_step(prog)
    } else {
        let less: nat = (fuel - 1) as nat;
        match expr {
            Val::Nil => (prog, Ok(expr)),
            Val::Bool(_) => (prog, Ok(expr)),
            Val::Number(_) => (prog, Ok(expr)),
            Val::Str(_) => (prog, Ok(expr)),
            Val::Keyword(_) => (prog, Ok(expr)),
            Val::Proc(_) => (prog, Ok(expr)),
            Val::Syntax(_, _) => (prog, Ok(expr)),
            Val::Macro(_, _, _, _, _) => (prog, Ok(expr)),
            Val::Fn(_, _, _, _, _, _) => (prog, Ok(expr)),
            Val::Tuple(_, _) => (prog, Ok(expr)),
            Val::Ref(_) => (prog, Ok(expr)),
            Val::Symbol(s, ns, _at_def, resolved) => if s == "&"@ {
                (prog, Ok(expr))
            } else {
                match resolved {
                    Some(crate::primes::ResolvedV::Def(r_ns, r_def, _)) => {
                        let (p1, r) = evaluate_symbol_spec(r_def, scope, r_ns, prog, less);
                        match r {
                            Err(e) => (p1, Err(e)),
                            Ok(v) => match v {
                                Val::Thunk(code, Some(data)) => (p1, Ok(*data)),
                                Val::Thunk(code, None) => {
                                    let (p2, r2) = evaluate_expr_spec(
                                        *code,
                                        scope,
                                        file_ns,
                                        p1,
                                        less,
                                    );
                                    match r2 {
                                        Err(e) => (p2, Err(e)),
                                        Ok(v2) => (
                                            ProgV {
                                                evaled: def_written(
                                                    p2.evaled,
                                                    r_ns,
                                                    r_def,
                                                    Val::Thunk(code, Some(Box::new(v2))),
                                                ),
                                                ..p2
                                            },
                                            Ok(v2),
                                        ),
                                    }
                                },
                                _ => (p1, Ok(v)),
                            },
                        }
                    },
                    _ => evaluate_symbol_spec(s, scope, ns, prog, less),
                }
            },
            Val::Thunk(code, value) => match value {
                Some(data) => (prog, Ok(*data)),
                None => evaluate_expr_spec(*code, scope, file_ns, prog, less),
            },
            Val::Recur(_) => err_step(
                prog,
                ErrKind::TypeMismatch,
                "recur appeared outside a function call"@,
            ),
            Val::Dict(_) => err_step(prog, ErrKind::TypeMismatch, "unexpected map for expr"@),
            Val::SetOf(_) => err_step(prog, ErrKind::TypeMismatch, "unexpected set for expr"@),
            Val::Record(_, _, _, _) => err_step(
                prog,
                ErrKind::TypeMismatch,
                "unexpected record for expr"@,
            ),
            Val::List(xs) => if xs.len() == 0 {
                err_step(prog, ErrKind::NotCallable, "cannot evaluate empty expr"@)
            } else {
                let (p1, r) = evaluate_expr_spec(xs[0], scope, file_ns, prog, less);
                match r {
                    Err(e) => (p1, Err(e)),
                    Ok(head) => evaluate_call_spec(expr, head, xs.skip(1), scope, file_ns, p1, less),
                }
            },
        }
    }
}

/// Dispatching a list form on its evaluated head.
pub open spec fn evaluate_call_spec(
    expr: Val,
    head: Val,
    rest: Seq<Val>,
    scope: ScopeV,
    file_ns: Seq<char>,
    prog: ProgV,
    fuel: nat,
) -> StepV
    decreases fuel, 3int,
{
    if fuel == 0 {
        depth_step(prog)
    } else {
        let less: nat = (fuel - 1) as nat;
        match head {
            Val::Proc(p) => {
                let (p1, r) = evaluate_args_spec(rest, scope, file_ns, prog, less);
                match r {
                    Err(e) => (p1, Err(e)),
                    Ok(values) => {
                        let p2 = pushed(p1, frame_v(file_ns, p, StackKind::Proc, Val::Nil, values));
                        let (p3, r3) = if is_method_name(p) {
                            (
                                p2,
                                crate::builtins::meta::invoke_method_spec(
                                    p.skip(1),
                                    values,
                                    p2.stack,
                                ),
                            )
                        } else {
                            crate::builtins::handle_proc_spec(p, values, p2)
                        };
                        match r3 {
                            Ok(v) => (popped(p3), Ok(v)),
                            Err(e) => (p3, Err(e)),
                        }
                    },
                }
            },
            Val::Syntax(kind, def_ns) => {
                let p2 = pushed(
                    prog,
                    frame_v(
                        file_ns,
                        crate::primes::syntax_repr(kind),
                        StackKind::Syntax,
                        expr,
                        rest,
                    ),
                );
                let (p3, r3) = crate::builtins::syntax::handle_syntax_kind_spec(
                    kind,
                    rest,
                    scope,
                    def_ns,
                    p2,
                    less,
                );
                match r3 {
                    Ok(v) => (popped(p3), Ok(v)),
                    Err(e) => (p3, Err(e)),
                }
            },
            Val::Fn(name, def_ns, _id, def_scope, params, body) => {
                let (p1, r) = evaluate_args_spec(rest, scope, file_ns, prog, less);
                match r {
                    Err(e) => (p1, Err(e)),
                    Ok(values) => {
                        let p2 = pushed(p1, frame_v(file_ns, name, StackKind::Fn, expr, values));
                        let (p3, r3) = run_fn_spec(values, def_scope, params, body, def_ns, p2, less);
                        match r3 {
                            Ok(v) => (popped(p3), Ok(v)),
                            Err(e) => (p3, Err(e)),
                        }
                    },
                }
            },
            Val::Macro(name, def_ns, _id, params, body) => {
                let p1 = ProgV {
                    warnings: prog.warnings.push(
                        crate::program::WarnV {
                            kind: crate::program::WarnKind::MacroAtCall,
                            sym: name,
                            ns: file_ns,
                            def: name,
                        },
                    ),
                    ..prog
                };
                let p2 = pushed(p1, frame_v(file_ns, name, StackKind::Macro, expr, rest));
                let (p3, r3) = expand_macro_spec(rest, params, body, def_ns, p2, less);
                match r3 {
                    Err(e) => (p3, Err(e)),
                    Ok(code) => {
                        let (p4, r4) = evaluate_expr_spec(code, scope, file_ns, p3, less);
                        match r4 {
                            Ok(v) => (popped(p4), Ok(v)),
                            Err(e) => (p4, Err(e)),
                        }
                    },
                }
            },
            Val::Keyword(k) => if rest.len() == 1 {
                let (p1, r) = evaluate_expr_spec(rest[0], scope, file_ns, prog, less);
                match r {
                    Err(e) => (p1, Err(e)),
                    Ok(v) => match v {
                        Val::Dict(entries) => (
                            p1,
                            Ok(
                                match crate::primes::dict_get(Val::Keyword(k), entries) {
                                    Some(value) => value,
                                    None => Val::Nil,
                                },
                            ),
                        ),
                        _ => err_step(p1, ErrKind::TypeMismatch, "keyword call expected a map"@),
                    },
                }
            } else {
                err_step(prog, ErrKind::Arity, "keyword call expected 1 argument"@)
            },
            Val::Symbol(_, _, _, _) => err_step(
                prog,
                ErrKind::NotCallable,
                "cannot evaluate symbol directly"@,
            ),
            _ => err_step(prog, ErrKind::NotCallable, "cannot be used as operator"@),
        }
    }
}

/// Expanding a macro body until it stops asking for another round.
pub open spec fn expand_macro_spec(
    values: Seq<Val>,
    params: Seq<Val>,
    body: Seq<Val>,
    def_ns: Seq<char>,
    prog: ProgV,
    fuel: nat,
) -> StepV
    decreases fuel, 3int,
{
    if fuel == 0 {
        depth_step(prog)
    } else {
        let less: nat = (fuel - 1) as nat;
        match bind_args_spec(params, values, Seq::empty()) {
            Err((kind, msg)) => err_step(prog, kind, msg),
            Ok(body_scope) => {
                let (p1, r) = evaluate_lines_spec(body, body_scope, def_ns, prog, less);
                match r {
                    Err(e) => (p1, Err(e)),
                    Ok(v) => match v {
                        Val::Recur(ys) => expand_macro_spec(ys, params, body, def_ns, p1, less),
                        _ => (p1, Ok(v)),
                    },
                }
            },
        }
    }
}

/// Resolving a symbol by name: splitting `ns/def` through the imports, then
/// the local scope, special forms, procedures, the core namespace, the
/// file's namespace, and the imports, in that order; a binding in scope
/// shadows everything, special forms included.
pub open spec fn evaluate_symbol_spec(
    sym: Seq<char>,
    scope: ScopeV,
    file_ns: Seq<char>,
    prog: ProgV,
    fuel: nat,
) -> StepV
    decreases fuel, 3int,
{
    if fuel == 0 {
        depth_step(prog)
    } else {
        let less: nat = (fuel - 1) as nat;
        match parse_ns_def_of(sym) {
            Some((ns_part, def_part)) => {
                match crate::program::ns_target_in_import(prog.imports, file_ns, ns_part) {
                    Some(target_ns) => eval_symbol_from_program_spec(def_part, target_ns, prog, less),
                    None => err_step(prog, ErrKind::UnknownSymbol, "unknown ns target"@),
                }
            },
            None => {
                if scope_lookup(scope, sym) is Some {
                    (prog, Ok(scope_lookup(scope, sym).unwrap()))
                } else if crate::builtins::syntax_kind_of(sym) is Some {
                    (
                        prog,
                        Ok(
                            Val::Syntax(
                                crate::builtins::syntax_kind_of(sym).unwrap(),
                                file_ns,
                            ),
                        ),
                    )
                } else if crate::builtins::is_proc(sym) {
                    (prog, Ok(Val::Proc(sym)))
                } else if has_def(prog.code, core_ns(), sym) {
                    eval_symbol_from_program_spec(sym, core_ns(), prog, less)
                } else if has_def(prog.code, file_ns, sym) {
                    eval_symbol_from_program_spec(sym, file_ns, prog, less)
                } else {
                    match crate::program::def_target_in_import(prog.imports, file_ns, sym) {
                        Some(target_ns) => eval_symbol_from_program_spec(sym, target_ns, prog, less),
                        None => err_step(prog, ErrKind::UnknownSymbol, "unknown symbol"@),
                    }
                }
            },
        }
    }
}

/// Fetching a definition's value: the memo first, else its code is
/// evaluated in an empty scope and memoized.
pub open spec fn eval_symbol_from_program_spec(
    sym: Seq<char>,
    ns: Seq<char>,
    prog: ProgV,
    fuel: nat,
) -> StepV
    decreases fuel, 3int,
{
    if fuel == 0 {
        depth_step(prog)
    } else {
        let less: nat = (fuel - 1) as nat;
        match lookup_def(prog.evaled, ns, sym) {
            Some(v) => (prog, Ok(v)),
            None => match lookup_def(prog.code, ns, sym) {
                Some(code) => {
                    let (p1, r) = evaluate_expr_spec(code, Seq::empty(), ns, prog, less);
                    match r {
                        Err(e) => (p1, Err(e)),
                        Ok(v) => (
                            ProgV { evaled: def_written(p1.evaled, ns, sym, v), ..p1 },
                            Ok(v),
                        ),
                    }
                },
                None => err_step(prog, ErrKind::UnknownSymbol, "cannot find code for def"@),
            },
        }
    }
}

/// Applying a function: bind the arguments onto the captured scope, run the
/// body, and loop while the body asks to `recur`.
pub open spec fn run_fn_spec(
    values: Seq<Val>,
    scope: ScopeV,
    params: Seq<Val>,
    body: Seq<Val>,
    file_ns: Seq<char>,
    prog: ProgV,
    fuel: nat,
) -> StepV
    decreases fuel, 3int,
{
    if fuel == 0 {
        depth_step(prog)
    } else {
        let less: nat = (fuel - 1) as nat;
        match bind_args_spec(params, values, scope) {
            Err((kind, msg)) => err_step(prog, kind, msg),
            Ok(body_scope) => {
                let (p1, r) = evaluate_lines_spec(body, body_scope, file_ns, prog, less);
                match r {
                    Err(e) => (p1, Err(e)),
                    Ok(v) => match v {
                        Val::Recur(xs) => run_fn_spec(xs, scope, params, body, file_ns, p1, less),
                        _ => (p1, Ok(v)),
                    },
                }
            },
        }
    }
}

/// Evaluating body lines in order; the last line's value is the result, and
/// an empty body gives `Nil`.
pub open spec fn evaluate_lines_spec(
    lines: Seq<Val>,
    scope: ScopeV,
    file_ns: Seq<char>,
    prog: ProgV,
    fuel: nat,
) -> StepV
    decreases fuel, 2int, lines.len(),
{
    if fuel == 0 {
        depth_step(prog)
    } else {
        let less: nat = (fuel - 1) as nat;
        if lines.len() == 0 {
            (prog, Ok(Val::Nil))
        } else {
            let (p1, r) = evaluate_expr_spec(lines[0], scope, file_ns, prog, less);
            match r {
                Err(e) => (p1, Err(e)),
                Ok(v) => if lines.len() == 1 {
                    (p1, Ok(v))
                } else {
                    evaluate_lines_spec(lines.skip(1), scope, file_ns, p1, fuel)
                },
            }
        }
    }
}

/// Forcing one value: a pending thunk evaluates, everything else stands.
pub open spec fn force_value_spec(
    v: Val,
    scope: ScopeV,
    file_ns: Seq<char>,
    prog: ProgV,
    fuel: nat,
) -> StepV
    decreases fuel, 3int,
{
    if fuel == 0 {
        depth_step(prog)
    } else {
        let less: nat = (fuel - 1) as nat;
        match v {
            Val::Thunk(code, value) => match value {
                None => evaluate_expr_spec(*code, scope, file_ns, prog, less),
                Some(data) => (prog, Ok(*data)),
            },
            _ => (prog, Ok(v)),
        }
    }
}

/// Forcing each item of a spread list in order.
pub open spec fn force_items_spec(
    items: Seq<Val>,
    scope: ScopeV,
    file_ns: Seq<char>,
    prog: ProgV,
    fuel: nat,
) -> (ProgV, Result<Seq<Val>, ErrV>)
    decreases fuel, 2int, items.len(),
{
    if fuel == 0 {
        (prog, Err(ErrV { kind: ErrKind::StackDepth, msg: "evaluation depth budget ran out"@, stack: prog.stack }))
    } else {
        if items.len() == 0 {
            (prog, Ok(Seq::empty()))
        } else {
            let (p1, r) = force_value_spec(items[0], scope, file_ns, prog, (fuel - 1) as nat);
            match r {
                Err(e) => (p1, Err(e)),
                Ok(y) => {
                    let (p2, r2) = force_items_spec(items.skip(1), scope, file_ns, p1, fuel);
                    match r2 {
                        Err(e) => (p2, Err(e)),
                        Ok(rest) => (p2, Ok(seq![y] + rest)),
                    }
                },
            }
        }
    }
}

/// Evaluating the arguments of a call in order; a `&` marker directs the
/// next argument, a list, to spread its items into the positional
/// arguments, and pending thunks are forced.
pub open spec fn eval_args_rec(
    items: Seq<Val>,
    scope: ScopeV,
    file_ns: Seq<char>,
    prog: ProgV,
    fuel: nat,
    spreading: bool,
) -> (ProgV, Result<Seq<Val>, ErrV>)
    decreases fuel, 2int, items.len(),
{
    if fuel == 0 {
        (prog, Err(ErrV { kind: ErrKind::StackDepth, msg: "evaluation depth budget ran out"@, stack: prog.stack }))
    } else {
        let less: nat = (fuel - 1) as nat;
        if items.len() == 0 {
            (prog, Ok(Seq::empty()))
        } else if (items[0] matches Val::Symbol(s, _, _, _) && s == "&"@) {
            eval_args_rec(items.skip(1), scope, file_ns, prog, fuel, true)
        } else {
            let (p1, r) = evaluate_expr_spec(items[0], scope, file_ns, prog, less);
            match r {
                Err(e) => (p1, Err(e)),
                Ok(v) => if spreading {
                    match v {
                        Val::List(zs) => {
                            let (p2, r2) = force_items_spec(zs, scope, file_ns, p1, less);
                            match r2 {
                                Err(e) => (p2, Err(e)),
                                Ok(forced) => {
                                    let (p3, r3) = eval_args_rec(
                                        items.skip(1),
                                        scope,
                                        file_ns,
                                        p2,
                                        fuel,
                                        false,
                                    );
                                    match r3 {
                                        Err(e) => (p3, Err(e)),
                                        Ok(rest) => (p3, Ok(forced + rest)),
                                    }
                                },
                            }
                        },
                        _ => (
                            p1,
                            Err(
                                ErrV {
                                    kind: ErrKind::TypeMismatch,
                                    msg: "expected a list for spreading"@,
                                    stack: p1.stack,
                                },
                            ),
                        ),
                    }
                } else {
                    let (p2, r2) = force_value_spec(v, scope, file_ns, p1, less);
                    match r2 {
                        Err(e) => (p2, Err(e)),
                        Ok(y) => {
                            let (p3, r3) = eval_args_rec(
                                items.skip(1),
                                scope,
                                file_ns,
                                p2,
                                fuel,
                                false,
                            );
                            match r3 {
                                Err(e) => (p3, Err(e)),
                                Ok(rest) => (p3, Ok(seq![y] + rest)),
                            }
                        },
                    }
                },
            }
        }
    }
}

/// What evaluating a call's arguments gives; see [`eval_args_rec`].
pub open spec fn evaluate_args_spec(
    items: Seq<Val>,
    scope: ScopeV,
    file_ns: Seq<char>,
    prog: ProgV,
    fuel: nat,
) -> (ProgV, Result<Seq<Val>, ErrV>)
    decreases fuel, 3int,
{
    eval_args_rec(items, scope, file_ns, prog, fuel, false)
}

/// Position of the first `/` in a name.
fn find_slash(s: &str) -> (res: usize)
    ensures
        res as int == slash_at(s@),
{
    proof {
        lemma_slash_at(s@);
    }
    let n = s.unicode_len();
    let mut i: usize = 0;
    #[verifier::loop_isolation(false)]
    while i < n
        invariant
            i <= n,
            forall|k: int| 0 <= k < i ==> s@[k] != '/',
        decreases n - i,
    {
        if s.get_char(i) == '/' {
            proof {
                let at = slash_at(s@);
                if at < i {
                    assert(s@[at] != '/');
                }
                if at > i {
                    assert(s@[i as int] != '/');
                }
            }
            return i;
        }
        i = i + 1;
    }
    proof {
        let at = slash_at(s@);
        if at < s@.len() {
            assert(s@[at] != '/');
        }
    }
    n
}

/// Splits a name as `ns/def`: one slash, neither side empty.
pub fn parse_ns_def(s: &str) -> (res: Option<(String, String)>)
    ensures
        match res {
            Some(p) => parse_ns_def_of(s@) == Some((p.0@, p.1@)),
            None => parse_ns_def_of(s@) is None,
        },
{
    let n = s.unicode_len();
    let i = find_slash(s);
    if i == 0 || i >= n || i + 1 >= n {
        return None;
    }
    let tail = s.substring_char(i + 1, n);
    proof {
        assert(tail@ =~= s@.skip(i + 1));
        lemma_slash_at(tail@);
    }
    let tail_slash = find_slash(tail);
    if tail_slash < n - i - 1 {
        proof {
            assert(slash_at(s@.skip(i + 1)) != s@.len() - i - 1);
        }
        return None;
    }
    let head = s.substring_char(0, i);
    proof {
        assert(head@ =~= s@.take(i as int));
        assert(tail_slash as int == s@.len() - i - 1);
    }
    Some((head.to_owned(), tail.to_owned()))
}

/// Looks a name up in a scope; later bindings shadow earlier ones.
pub fn lookup_in_scope(scope: &CalcitScope, name: &str) -> (res: Option<Calcit>)
    ensures
        match res {
            Some(v) => scope_lookup(cv_scope(scope@), name@) == Some(cv(v)),
            None => scope_lookup(cv_scope(scope@), name@) is None,
        },
{
    let ghost full = cv_scope(scope@);
    let mut i: usize = scope.len();
    proof {
        assert(full.take(scope@.len() as int) =~= full);
    }
    #[verifier::loop_isolation(false)]
    while i > 0
        invariant
            i <= scope@.len(),
            scope_lookup(full, name@) == scope_lookup(full.take(i as int), name@),
        decreases i,
    {
        proof {
            assert(full.take(i as int).last() == full[i - 1]);
            assert(full.take(i as int).drop_last() =~= full.take(i - 1));
        }
        if str_eq(scope[i - 1].0.as_str(), name) {
            return Some(scope[i - 1].1.clone());
        }
        i = i - 1;
    }
    proof {
        assert(full.take(0).len() == 0);
    }
    None
}

/// Binds a parameter list to an argument list onto a base scope; see
/// [`bind_rec`] for the marker rules.
fn bind_rec_exec(
    params: &CalcitItems,
    values: &CalcitItems,
    scope: CalcitScope,
    optional: bool,
    stack: &Vec<crate::call_stack::CalcitStack>,
) -> (res: Result<CalcitScope, CalcitErr>)
    ensures
        ({
            let r = bind_rec(cv_seq(params@), cv_seq(values@), cv_scope(scope@), optional);
            match res {
                Ok(s2) => r == Ok::<ScopeV, (ErrKind, Seq<char>)>(cv_scope(s2@)),
                Err(e) => (r matches Err(em) && e@.kind == em.0 && e@.msg == em.1 && e@.stack
                    == stack_view(stack@)),
            }
        }),
    decreases params@.len(),
{
    let ghost pv = cv_seq(params@);
    let ghost vv = cv_seq(values@);
    let ghost sv = cv_scope(scope@);
    if params.len() == 0 {
        if values.len() == 0 {
            return Ok(scope);
        } else {
            return Err(CalcitErr::new(ErrKind::Arity, "too many arguments were passed", stack));
        }
    }
    proof {
        assert(pv[0] == cv(params@[0]));
    }
    match &params[0] {
        Calcit::Symbol(s, _, _, _) => {
            if str_eq(s.as_str(), "&") {
                if params.len() != 2 {
                    return Err(
                        CalcitErr::new(ErrKind::Arity, "expected one parameter after &", stack),
                    );
                }
                proof {
                    assert(pv[1] == cv(params@[1]));
                }
                match &params[1] {
                    Calcit::Symbol(s2, _, _, _) => {
                        if str_eq(s2.as_str(), "&") || str_eq(s2.as_str(), "?") {
                            return Err(
                                CalcitErr::new(
                                    ErrKind::TypeMismatch,
                                    "invalid parameter after &",
                                    stack,
                                ),
                            );
                        }
                        let mut out = scope;
                        let rest = Calcit::List(crate::primes::clone_items(values));
                        out.push((s2.clone(), rest));
                        proof {
                            assert(cv_scope(out@) =~= sv.push((s2@, Val::List(vv))));
                        }
                        return Ok(out);
                    },
                    _ => {
                        return Err(
                            CalcitErr::new(ErrKind::TypeMismatch, "invalid parameter name", stack),
                        );
                    },
                }
            }
            if str_eq(s.as_str(), "?") {
                let tail = crate::util::skip(params, 1);
                proof {
                    assert(cv_seq(tail@) =~= pv.skip(1));
                }
                return bind_rec_exec(&tail, values, scope, true, stack);
            }
            if values.len() > 0 {
                proof {
                    assert(vv[0] == cv(values@[0]));
                }
                let p_tail = crate::util::skip(params, 1);
                let v_tail = crate::util::skip(values, 1);
                let mut out = scope;
                out.push((s.clone(), values[0].clone()));
                proof {
                    assert(cv_seq(p_tail@) =~= pv.skip(1));
                    assert(cv_seq(v_tail@) =~= vv.skip(1));
                    assert(cv_scope(out@) =~= sv.push((s@, vv[0])));
                }
                return bind_rec_exec(&p_tail, &v_tail, out, optional, stack);
            }
            if optional {
                let p_tail = crate::util::skip(params, 1);
                let mut out = scope;
                out.push((s.clone(), Calcit::Nil));
                proof {
                    assert(cv_seq(p_tail@) =~= pv.skip(1));
                    assert(cv_scope(out@) =~= sv.push((s@, Val::Nil)));
                }
                return bind_rec_exec(&p_tail, values, out, optional, stack);
            }
            Err(CalcitErr::new(ErrKind::Arity, "too few arguments were passed", stack))
        },
        _ => Err(CalcitErr::new(ErrKind::TypeMismatch, "invalid parameter name", stack)),
    }
}

/// Creates the scope of one application by binding the parameter list to
/// the argument list; `&` and `?` are in-band markers.
pub fn bind_args(
    args: &CalcitItems,
    values: &CalcitItems,
    base_scope: &CalcitScope,
    stack: &Vec<crate::call_stack::CalcitStack>,
) -> (res: Result<CalcitScope, CalcitErr>)
    ensures
        ({
            let r = bind_args_spec(cv_seq(args@), cv_seq(values@), cv_scope(base_scope@));
            match res {
                Ok(s2) => r == Ok::<ScopeV, (ErrKind, Seq<char>)>(cv_scope(s2@)),
                Err(e) => (r matches Err(em) && e@.kind == em.0 && e@.msg == em.1 && e@.stack
                    == stack_view(stack@)),
            }
        }),
{
    bind_rec_exec(args, values, crate::primes::clone_scope(base_scope), false, stack)
}

/// The failure that stands for an exhausted depth budget.
fn depth_err(stack: &Vec<crate::call_stack::CalcitStack>) -> (res: CalcitErr)
    ensures
        res@ == (ErrV {
            kind: ErrKind::StackDepth,
            msg: "evaluation depth budget ran out"@,
            stack: stack_view(stack@),
        }),
{
    CalcitErr::new(ErrKind::StackDepth, "evaluation depth budget ran out", stack)
}

/// Applies a function: binds the arguments onto the captured scope, runs
/// the body, and loops while the body asks to `recur`.
pub fn run_fn(
    values: &CalcitItems,
    scope: &CalcitScope,
    args: &CalcitItems,
    body: &CalcitItems,
    file_ns: &str,
    prog: &mut Program,
    fuel: u64,
) -> (res: Result<Calcit, CalcitErr>)
    ensures
        ({
            let (p, r) = run_fn_spec(
                cv_seq(values@),
                cv_scope(scope@),
                cv_seq(args@),
                cv_seq(body@),
                file_ns@,
                old(prog)@,
                fuel as nat,
            );
            final(prog)@ == p && res_view(res) == r
        }),
    decreases fuel, 3int,
{
    if fuel == 0 {
        return Err(depth_err(&prog.stack));
    }
    match bind_rec_exec(args, values, crate::primes::clone_scope(scope), false, &prog.stack) {
        Err(e) => Err(e),
        Ok(body_scope) => {
            let r = evaluate_lines(body, &body_scope, file_ns, prog, fuel - 1);
            match r {
                Err(e) => Err(e),
                Ok(v) => match v {
                    Calcit::Recur(xs) => run_fn(&xs, scope, args, body, file_ns, prog, fuel - 1),
                    other => Ok(other),
                },
            }
        },
    }
}

/// Evaluates body lines in order; the last line's value is the result, and
/// an empty body gives `Nil`.
pub fn evaluate_lines(
    lines: &CalcitItems,
    scope: &CalcitScope,
    file_ns: &str,
    prog: &mut Program,
    fuel: u64,
) -> (res: Result<Calcit, CalcitErr>)
    ensures
        ({
            let (p, r) = evaluate_lines_spec(
                cv_seq(lines@),
                cv_scope(scope@),
                file_ns@,
                old(prog)@,
                fuel as nat,
            );
            final(prog)@ == p && res_view(res) == r
        }),
    decreases fuel, 2int, lines@.len(),
{
    if fuel == 0 {
        return Err(depth_err(&prog.stack));
    }
    if lines.len() == 0 {
        return Ok(Calcit::Nil);
    }
    let r = evaluate_expr(&lines[0], scope, file_ns, prog, fuel - 1);
    match r {
        Err(e) => Err(e),
        Ok(v) => {
            if lines.len() == 1 {
                Ok(v)
            } else {
                let tail = crate::util::skip(lines, 1);
                proof {
                    assert(cv_seq(tail@) == cv_seq(lines@).skip(1));
                }
                evaluate_lines(&tail, scope, file_ns, prog, fuel)
            }
        },
    }
}

/// Forces one value: a pending thunk evaluates, everything else stands.
fn force_value(
    v: Calcit,
    scope: &CalcitScope,
    file_ns: &str,
    prog: &mut Program,
    fuel: u64,
) -> (res: Result<Calcit, CalcitErr>)
    ensures
        ({
            let (p, r) = force_value_spec(
                cv(v),
                cv_scope(scope@),
                file_ns@,
                old(prog)@,
                fuel as nat,
            );
            final(prog)@ == p && res_view(res) == r
        }),
    decreases fuel, 3int,
{
    if fuel == 0 {
        return Err(depth_err(&prog.stack));
    }
    match v {
        Calcit::Thunk(code, value) => match value {
            None => evaluate_expr(&code, scope, file_ns, prog, fuel - 1),
            Some(data) => Ok(*data),
        },
        other => Ok(other),
    }
}

/// Forces each item of a spread list in order.
fn force_items(
    items: &CalcitItems,
    scope: &CalcitScope,
    file_ns: &str,
    prog: &mut Program,
    fuel: u64,
) -> (res: Result<CalcitItems, CalcitErr>)
    ensures
        ({
            let (p, r) = force_items_spec(
                cv_seq(items@),
                cv_scope(scope@),
                file_ns@,
                old(prog)@,
                fuel as nat,
            );
            final(prog)@ == p && match res {
                Ok(ys) => r == Ok::<Seq<Val>, ErrV>(cv_seq(ys@)),
                Err(e) => r == Err::<Seq<Val>, ErrV>(e@),
            }
        }),
    decreases fuel, 2int, items@.len(),
{
    if fuel == 0 {
        return Err(depth_err(&prog.stack));
    }
    if items.len() == 0 {
        let out: CalcitItems = Vec::new();
        proof {
            assert(cv_seq(out@) =~= Seq::<Val>::empty());
        }
        return Ok(out);
    }
    let r = force_value(items[0].clone(), scope, file_ns, prog, fuel - 1);
    match r {
        Err(e) => Err(e),
        Ok(y) => {
            let tail = crate::util::skip(items, 1);
            proof {
                assert(cv_seq(tail@) == cv_seq(items@).skip(1));
            }
            let r2 = force_items(&tail, scope, file_ns, prog, fuel);
            match r2 {
                Err(e) => Err(e),
                Ok(rest) => {
                    let mut out: CalcitItems = Vec::new();
                    out.push(y);
                    let mut rest_own = rest;
                    let mut k: usize = 0;
                    proof {
                        assert(cv_seq(out@) =~= seq![cv(y)]);
                    }
                    let joined = join_items(out, rest_own);
                    Ok(joined)
                },
            }
        },
    }
}

/// Joins two runs of items into one.
pub fn join_items(mut front: CalcitItems, back: CalcitItems) -> (res: CalcitItems)
    ensures
        cv_seq(res@) == cv_seq(front@) + cv_seq(back@),
{
    let ghost fv = cv_seq(front@);
    let mut i: usize = 0;
    #[verifier::loop_isolation(false)]
    while i < back.len()
        invariant
            i <= back@.len(),
            cv_seq(front@) =~= fv + cv_seq(back@).take(i as int),
        decreases back@.len() - i,
    {
        let ghost prev = cv_seq(front@);
        front.push(back[i].clone());
        proof {
            assert(cv_seq(front@) =~= prev.push(cv(back@[i as int])));
            assert(prev.push(cv_seq(back@)[i as int]) =~= fv + cv_seq(back@).take(i + 1));
        }
        i = i + 1;
    }
    proof {
        assert(cv_seq(back@).take(back@.len() as int) =~= cv_seq(back@));
    }
    front
}

/// Evaluates the arguments of a call in order, spreading after `&` and
/// forcing pending thunks.
fn eval_args_go(
    items: &CalcitItems,
    scope: &CalcitScope,
    file_ns: &str,
    prog: &mut Program,
    fuel: u64,
    spreading: bool,
) -> (res: Result<CalcitItems, CalcitErr>)
    ensures
        ({
            let (p, r) = eval_args_rec(
                cv_seq(items@),
                cv_scope(scope@),
                file_ns@,
                old(prog)@,
                fuel as nat,
                spreading,
            );
            final(prog)@ == p && match res {
                Ok(ys) => r == Ok::<Seq<Val>, ErrV>(cv_seq(ys@)),
                Err(e) => r == Err::<Seq<Val>, ErrV>(e@),
            }
        }),
    decreases fuel, 2int, items@.len(),
{
    if fuel == 0 {
        return Err(depth_err(&prog.stack));
    }
    if items.len() == 0 {
        let out: CalcitItems = Vec::new();
        proof {
            assert(cv_seq(out@) =~= Seq::<Val>::empty());
        }
        return Ok(out);
    }
    proof {
        assert(cv_seq(items@)[0] == cv(items@[0]));
    }
    let head_is_amp = match &items[0] {
        Calcit::Symbol(s, _, _, _) => str_eq(s.as_str(), "&"),
        _ => false,
    };
    if head_is_amp {
        let tail = crate::util::skip(items, 1);
        proof {
            assert(cv_seq(tail@) == cv_seq(items@).skip(1));
        }
        return eval_args_go(&tail, scope, file_ns, prog, fuel, true);
    }
    let r = evaluate_expr(&items[0], scope, file_ns, prog, fuel - 1);
    match r {
        Err(e) => Err(e),
        Ok(v) => {
            if spreading {
                match v {
                    Calcit::List(zs) => {
                        let r2 = force_items(&zs, scope, file_ns, prog, fuel - 1);
                        match r2 {
                            Err(e) => Err(e),
                            Ok(forced) => {
                                let tail = crate::util::skip(items, 1);
                                proof {
                                    assert(cv_seq(tail@) == cv_seq(items@).skip(1));
                                }
                                let r3 = eval_args_go(&tail, scope, file_ns, prog, fuel, false);
                                match r3 {
                                    Err(e) => Err(e),
                                    Ok(rest) => Ok(join_items(forced, rest)),
                                }
                            },
                        }
                    },
                    _ => Err(
                        CalcitErr::new(
                            ErrKind::TypeMismatch,
                            "expected a list for spreading",
                            &prog.stack,
                        ),
                    ),
                }
            } else {
                let r2 = force_value(v, scope, file_ns, prog, fuel - 1);
                match r2 {
                    Err(e) => Err(e),
                    Ok(y) => {
                        let tail = crate::util::skip(items, 1);
                        proof {
                            assert(cv_seq(tail@) == cv_seq(items@).skip(1));
                        }
                        let r3 = eval_args_go(&tail, scope, file_ns, prog, fuel, false);
                        match r3 {
                            Err(e) => Err(e),
                            Ok(rest) => {
                                let mut front: CalcitItems = Vec::new();
                                front.push(y);
                                proof {
                                    assert(cv_seq(front@)
                                        =~= seq![cv(front@[0])]);
                                }
                                Ok(join_items(front, rest))
                            },
                        }
                    },
                }
            }
        },
    }
}

/// Evaluates the arguments of a call; see [`evaluate_args_spec`].
pub fn evaluate_args(
    items: &CalcitItems,
    scope: &CalcitScope,
    file_ns: &str,
    prog: &mut Program,
    fuel: u64,
) -> (res: Result<CalcitItems, CalcitErr>)
    ensures
        ({
            let (p, r) = evaluate_args_spec(
                cv_seq(items@),
                cv_scope(scope@),
                file_ns@,
                old(prog)@,
                fuel as nat,
            );
            final(prog)@ == p && match res {
                Ok(ys) => r == Ok::<Seq<Val>, ErrV>(cv_seq(ys@)),
                Err(e) => r == Err::<Seq<Val>, ErrV>(e@),
            }
        }),
    decreases fuel, 3int,
{
    eval_args_go(items, scope, file_ns, prog, fuel, false)
}

/// Expands a macro body until it stops asking for another round.
pub fn expand_macro(
    values: &CalcitItems,
    params: &CalcitItems,
    body: &CalcitItems,
    def_ns: &str,
    prog: &mut Program,
    fuel: u64,
) -> (res: Result<Calcit, CalcitErr>)
    ensures
        ({
            let (p, r) = expand_macro_spec(
                cv_seq(values@),
                cv_seq(params@),
                cv_seq(body@),
                def_ns@,
                old(prog)@,
                fuel as nat,
            );
            final(prog)@ == p && res_view(res) == r
        }),
    decreases fuel, 3int,
{
    if fuel == 0 {
        return Err(depth_err(&prog.stack));
    }
    let empty_scope: CalcitScope = Vec::new();
    proof {
        assert(cv_scope(empty_scope@) =~= Seq::<(Seq<char>, Val)>::empty());
    }
    match bind_rec_exec(params, values, empty_scope, false, &prog.stack) {
        Err(e) => Err(e),
        Ok(body_scope) => {
            let r = evaluate_lines(body, &body_scope, def_ns, prog, fuel - 1);
            match r {
                Err(e) => Err(e),
                Ok(v) => match v {
                    Calcit::Recur(ys) => expand_macro(&ys, params, body, def_ns, prog, fuel - 1),
                    other => Ok(other),
                },
            }
        },
    }
}

/// Fetches a definition's value: the memo first, else its code evaluated
/// in an empty scope and memoized.
pub fn eval_symbol_from_program(
    sym: &str,
    ns: &str,
    prog: &mut Program,
    fuel: u64,
) -> (res: Result<Calcit, CalcitErr>)
    ensures
        ({
            let (p, r) = eval_symbol_from_program_spec(sym@, ns@, old(prog)@, fuel as nat);
            final(prog)@ == p && res_view(res) == r
        }),
    decreases fuel, 3int,
{
    if fuel == 0 {
        return Err(depth_err(&prog.stack));
    }
    match crate::program::lookup_evaled_def(prog, ns, sym) {
        Some(v) => Ok(v),
        None => match crate::program::lookup_def_code(prog, ns, sym) {
            Some(code) => {
                let empty_scope: CalcitScope = Vec::new();
                proof {
                    assert(cv_scope(empty_scope@) =~= Seq::<(Seq<char>, Val)>::empty());
                }
                let r = evaluate_expr(&code, &empty_scope, ns, prog, fuel - 1);
                match r {
                    Err(e) => Err(e),
                    Ok(v) => {
                        write_evaled_def(prog, ns, sym, v.clone());
                        Ok(v)
                    },
                }
            },
            None => Err(
                CalcitErr::new(ErrKind::UnknownSymbol, "cannot find code for def", &prog.stack),
            ),
        },
    }
}

/// Resolves a symbol by name; see [`evaluate_symbol_spec`] for the order
/// of the lookups.
pub fn evaluate_symbol(
    sym: &str,
    scope: &CalcitScope,
    file_ns: &str,
    prog: &mut Program,
    fuel: u64,
) -> (res: Result<Calcit, CalcitErr>)
    ensures
        ({
            let (p, r) = evaluate_symbol_spec(
                sym@,
                cv_scope(scope@),
                file_ns@,
                old(prog)@,
                fuel as nat,
            );
            final(prog)@ == p && res_view(res) == r
        }),
    decreases fuel, 3int,
{
    if fuel == 0 {
        return Err(depth_err(&prog.stack));
    }
    match parse_ns_def(sym) {
        Some((ns_part, def_part)) => {
            match crate::program::lookup_ns_target_in_import(prog, file_ns, ns_part.as_str()) {
                Some(target_ns) => eval_symbol_from_program(
                    def_part.as_str(),
                    target_ns.as_str(),
                    prog,
                    fuel - 1,
                ),
                None => Err(
                    CalcitErr::new(ErrKind::UnknownSymbol, "unknown ns target", &prog.stack),
                ),
            }
        },
        None => {
            match lookup_in_scope(scope, sym) {
                Some(v) => {
                    return Ok(v);
                },
                None => {},
            }
            match crate::builtins::syntax_kind(sym) {
                Some(kind) => {
                    return Ok(Calcit::Syntax(kind, file_ns.to_owned()));
                },
                None => {},
            }
            if crate::builtins::is_proc_name(sym) {
                return Ok(Calcit::Proc(sym.to_owned()));
            }
            if crate::program::has_def_code(prog, "calcit.core", sym) {
                return eval_symbol_from_program(sym, "calcit.core", prog, fuel - 1);
            }
            if crate::program::has_def_code(prog, file_ns, sym) {
                return eval_symbol_from_program(sym, file_ns, prog, fuel - 1);
            }
            match crate::program::lookup_def_target_in_import(prog, file_ns, sym) {
                Some(target_ns) => eval_symbol_from_program(sym, target_ns.as_str(), prog, fuel - 1),
                None => Err(CalcitErr::new(ErrKind::UnknownSymbol, "unknown symbol", &prog.stack)),
            }
        },
    }
}

/// Evaluates one expression; see [`evaluate_expr_spec`].
pub fn evaluate_expr(
    expr: &Calcit,
    scope: &CalcitScope,
    file_ns: &str,
    prog: &mut Program,
    fuel: u64,
) -> (res: Result<Calcit, CalcitErr>)
    ensures
        ({
            let (p, r) = evaluate_expr_spec(
                cv(*expr),
                cv_scope(scope@),
                file_ns@,
                old(prog)@,
                fuel as nat,
            );
            final(prog)@ == p && res_view(res) == r
        }),
    decreases fuel, 3int,
{
    if fuel == 0 {
        return Err(depth_err(&prog.stack));
    }
    match expr {
        Calcit::Nil => Ok(Calcit::Nil),
        Calcit::Bool(b) => Ok(Calcit::Bool(*b)),
        Calcit::Number(n) => Ok(Calcit::Number(*n)),
        Calcit::Str(_) => Ok(expr.clone()),
        Calcit::Keyword(_) => Ok(expr.clone()),
        Calcit::Proc(_) => Ok(expr.clone()),
        Calcit::Syntax(_, _) => Ok(expr.clone()),
        Calcit::Macro(_, _, _, _, _) => Ok(expr.clone()),
        Calcit::Fn(_, _, _, _, _, _) => Ok(expr.clone()),
        Calcit::Tuple(_, _) => Ok(expr.clone()),
        Calcit::Ref(_) => Ok(expr.clone()),
        Calcit::Symbol(s, ns, _at_def, resolved) => {
            if str_eq(s.as_str(), "&") {
                return Ok(expr.clone());
            }
            match resolved {
                Some(crate::primes::SymbolResolved::ResolvedDef { ns: r_ns, def: r_def, rule: _ }) => {
                    let r = evaluate_symbol(r_def.as_str(), scope, r_ns.as_str(), prog, fuel - 1);
                    match r {
                        Err(e) => Err(e),
                        Ok(v) => match v {
                            Calcit::Thunk(code, value) => match value {
                                Some(data) => Ok(*data),
                                None => {
                                    let r2 = evaluate_expr(&code, scope, file_ns, prog, fuel - 1);
                                    match r2 {
                                        Err(e) => Err(e),
                                        Ok(v2) => {
                                            let memo = Calcit::Thunk(
                                                code,
                                                Some(Box::new(v2.clone())),
                                            );
                                            write_evaled_def(
                                                prog,
                                                r_ns.as_str(),
                                                r_def.as_str(),
                                                memo,
                                            );
                                            Ok(v2)
                                        },
                                    }
                                },
                            },
                            other => Ok(other),
                        },
                    }
                },
                _ => evaluate_symbol(s.as_str(), scope, ns.as_str(), prog, fuel - 1),
            }
        },
        Calcit::Thunk(code, value) => match value {
            Some(data) => Ok((**data).clone()),
            None => evaluate_expr(code, scope, file_ns, prog, fuel - 1),
        },
        Calcit::Recur(_) => Err(
            CalcitErr::new(
                ErrKind::TypeMismatch,
                "recur appeared outside a function call",
                &prog.stack,
            ),
        ),
        Calcit::Dict(_) => Err(
            CalcitErr::new(ErrKind::TypeMismatch, "unexpected map for expr", &prog.stack),
        ),
        Calcit::SetOf(_) => Err(
            CalcitErr::new(ErrKind::TypeMismatch, "unexpected set for expr", &prog.stack),
        ),
        Calcit::Record(_) => Err(
            CalcitErr::new(ErrKind::TypeMismatch, "unexpected record for expr", &prog.stack),
        ),
        Calcit::List(xs) => {
            proof {
                assert(cv(*expr) == Val::List(cv_seq(xs@)));
            }
            if xs.len() == 0 {
                return Err(
                    CalcitErr::new(ErrKind::NotCallable, "cannot evaluate empty expr", &prog.stack),
                );
            }
            let r = evaluate_expr(&xs[0], scope, file_ns, prog, fuel - 1);
            match r {
                Err(e) => Err(e),
                Ok(head) => {
                    let rest = crate::util::skip(xs, 1);
                    proof {
                        assert(cv_seq(rest@) == cv_seq(xs@).skip(1));
                    }
                    evaluate_call(expr, &head, &rest, scope, file_ns, prog, fuel - 1)
                },
            }
        },
    }
}

/// Dispatches a list form on its evaluated head; see
/// [`evaluate_call_spec`].
fn evaluate_call(
    expr: &Calcit,
    head: &Calcit,
    rest: &CalcitItems,
    scope: &CalcitScope,
    file_ns: &str,
    prog: &mut Program,
    fuel: u64,
) -> (res: Result<Calcit, CalcitErr>)
    ensures
        ({
            let (p, r) = evaluate_call_spec(
                cv(*expr),
                cv(*head),
                cv_seq(rest@),
                cv_scope(scope@),
                file_ns@,
                old(prog)@,
                fuel as nat,
            );
            final(prog)@ == p && res_view(res) == r
        }),
    decreases fuel, 3int,
{
    if fuel == 0 {
        return Err(depth_err(&prog.stack));
    }
    match head {
        Calcit::Proc(p) => {
            let r = evaluate_args(rest, scope, file_ns, prog, fuel - 1);
            match r {
                Err(e) => Err(e),
                Ok(values) => {
                    push_call_stack(
                        &mut prog.stack,
                        file_ns,
                        p.as_str(),
                        StackKind::Proc,
                        Calcit::Nil,
                        &values,
                    );
                    let n = p.as_str().unicode_len();
                    let is_method = n > 0 && p.as_str().get_char(0) == '.';
                    let r3 = if is_method {
                        let bare = p.as_str().substring_char(1, n);
                        proof {
                            assert(bare@ =~= p@.skip(1));
                        }
                        crate::builtins::meta::invoke_method(bare, &values, &prog.stack)
                    } else {
                        proof {
                            assert(!is_method_name(p@));
                        }
                        crate::builtins::handle_proc(p.as_str(), &values, prog)
                    };
                    match r3 {
                        Ok(v) => {
                            pop_call_stack(&mut prog.stack);
                            Ok(v)
                        },
                        Err(e) => Err(e),
                    }
                },
            }
        },
        Calcit::Syntax(kind, def_ns) => {
            let name = crate::primes::syntax_name(kind);
            push_call_stack(
                &mut prog.stack,
                file_ns,
                name.as_str(),
                StackKind::Syntax,
                expr.clone(),
                rest,
            );
            let r3 = crate::builtins::syntax::handle_syntax_kind(
                kind,
                rest,
                scope,
                def_ns.as_str(),
                prog,
                fuel - 1,
            );
            match r3 {
                Ok(v) => {
                    pop_call_stack(&mut prog.stack);
                    Ok(v)
                },
                Err(e) => Err(e),
            }
        },
        Calcit::Fn(name, def_ns, _id, def_scope, params, body) => {
            let r = evaluate_args(rest, scope, file_ns, prog, fuel - 1);
            match r {
                Err(e) => Err(e),
                Ok(values) => {
                    push_call_stack(
                        &mut prog.stack,
                        file_ns,
                        name.as_str(),
                        StackKind::Fn,
                        expr.clone(),
                        &values,
                    );
                    let r3 = run_fn(&values, def_scope, params, body, def_ns.as_str(), prog, fuel - 1);
                    match r3 {
                        Ok(v) => {
                            pop_call_stack(&mut prog.stack);
                            Ok(v)
                        },
                        Err(e) => Err(e),
                    }
                },
            }
        },
        Calcit::Macro(name, def_ns, _id, params, body) => {
            crate::program::push_warning(
                prog,
                crate::program::WarnKind::MacroAtCall,
                name.as_str(),
                file_ns,
                name.as_str(),
            );
            push_call_stack(
                &mut prog.stack,
                file_ns,
                name.as_str(),
                StackKind::Macro,
                expr.clone(),
                rest,
            );
            let r3 = expand_macro(rest, params, body, def_ns.as_str(), prog, fuel - 1);
            match r3 {
                Err(e) => Err(e),
                Ok(code) => {
                    let r4 = evaluate_expr(&code, scope, file_ns, prog, fuel - 1);
                    match r4 {
                        Ok(v) => {
                            pop_call_stack(&mut prog.stack);
                            Ok(v)
                        },
                        Err(e) => Err(e),
                    }
                },
            }
        },
        Calcit::Keyword(k) => {
            if rest.len() == 1 {
                let r = evaluate_expr(&rest[0], scope, file_ns, prog, fuel - 1);
                match r {
                    Err(e) => Err(e),
                    Ok(v) => match v {
                        Calcit::Dict(entries) => {
                            let key = Calcit::Keyword(k.clone());
                            match crate::primes::dict_get_idx(&key, &entries) {
                                Some(j) => Ok(entries[j].1.clone()),
                                None => Ok(Calcit::Nil),
                            }
                        },
                        _ => Err(
                            CalcitErr::new(
                                ErrKind::TypeMismatch,
                                "keyword call expected a map",
                                &prog.stack,
                            ),
                        ),
                    },
                }
            } else {
                Err(
                    CalcitErr::new(
                        ErrKind::Arity,
                        "keyword call expected 1 argument",
                        &prog.stack,
                    ),
                )
            }
        },
        Calcit::Symbol(_, _, _, _) => Err(
            CalcitErr::new(ErrKind::NotCallable, "cannot evaluate symbol directly", &prog.stack),
        ),
        _ => Err(CalcitErr::new(ErrKind::NotCallable, "cannot be used as operator", &prog.stack)),
    }
}

/// Splits an entry symbol `ns/def` into its two parts; anything else is
/// refused.
pub fn extract_ns_def(s: &str, stack: &Vec<crate::call_stack::CalcitStack>) -> (res: Result<
    (String, String),
    CalcitErr,
>)
    ensures
        match res {
            Ok(p) => parse_ns_def_of(s@) == Some((p.0@, p.1@)),
            Err(e) => parse_ns_def_of(s@) is None && e@.kind == ErrKind::TypeMismatch && e@.msg
                == "invalid ns format"@ && e@.stack == stack_view(stack@),
        },
{
    match parse_ns_def(s) {
        Some(p) => Ok(p),
        None => Err(CalcitErr::new(ErrKind::TypeMismatch, "invalid ns format", stack)),
    }
}

} // verus!
