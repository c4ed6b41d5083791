//! The special forms: function and macro definition, branching, binding,
//! quoting and quasiquote splicing, explicit evaluation, macro expansion,
//! failure recovery, folding, and the reference cells.

use vstd::prelude::*;

use crate::call_stack::{CalcitStack, FrameV, StackKind};
use crate::primes::{
    cv, cv_scope, cv_seq, res_view, Calcit, CalcitErr, CalcitItems, CalcitScope, CalcitSyntax,
    ErrKind, ErrV, Val,
};
use crate::program::{id_drawn, ProgV, Program};
use crate::runner::{
    depth_step, err_step, evaluate_expr_spec, evaluate_lines_spec, run_fn_spec, ScopeV, StepV,
};

verus! {

broadcast use crate::primes::lemma_cv_seq_index, crate::primes::lemma_cv_seq_len,
    crate::primes::lemma_cv_pairs_index, crate::primes::lemma_cv_pairs_len,
    crate::primes::lemma_cv_scope_index, crate::primes::lemma_cv_scope_len;

/// What `defn` gives: a function named by the first node, taking the second
/// node as parameters and the rest as body, capturing the current scope and
/// drawing a fresh id.
pub open spec fn defn_spec(nodes: Seq<Val>, scope: ScopeV, file_ns: Seq<char>, prog: ProgV) -> StepV {
    if nodes.len() >= 2 && (nodes[0] matches Val::Symbol(_, _, _, _)) && (nodes[1] matches Val::List(
        _,
    )) {
        match (nodes[0], nodes[1]) {
            (Val::Symbol(s, _, _, _), Val::List(params)) => (
                ProgV { id_gen: id_drawn(prog.id_gen), ..prog },
                Ok(Val::Fn(s, file_ns, prog.id_gen, scope, params, nodes.skip(2))),
            ),
            _ => err_step(prog, ErrKind::TypeMismatch, "invalid structure for defn"@),
        }
    } else {
        err_step(prog, ErrKind::TypeMismatch, "invalid structure for defn"@)
    }
}

/// What `defmacro` gives: a macro named by the first node, with parameters
/// and body, drawing a fresh id; macros capture no scope.
pub open spec fn defmacro_spec(nodes: Seq<Val>, file_ns: Seq<char>, prog: ProgV) -> StepV {
    if nodes.len() >= 2 && (nodes[0] matches Val::Symbol(_, _, _, _)) && (nodes[1] matches Val::List(
        _,
    )) {
        match (nodes[0], nodes[1]) {
            (Val::Symbol(s, _, _, _), Val::List(params)) => (
                ProgV { id_gen: id_drawn(prog.id_gen), ..prog },
                Ok(Val::Macro(s, file_ns, prog.id_gen, params, nodes.skip(2))),
            ),
            _ => err_step(prog, ErrKind::TypeMismatch, "invalid structure for defmacro"@),
        }
    } else {
        err_step(prog, ErrKind::TypeMismatch, "invalid structure for defmacro"@)
    }
}

/// What `quote` gives: its one node, unevaluated.
pub open spec fn quote_spec(nodes: Seq<Val>, prog: ProgV) -> StepV {
    if nodes.len() == 1 {
        (prog, Ok(nodes[0]))
    } else {
        err_step(prog, ErrKind::Arity, "quote expected 1 node"@)
    }
}

/// What `if` gives: the second node's value unless the first evaluates to
/// `Nil` or false, then the third's, or `Nil` without one.
pub open spec fn syntax_if_spec(
    nodes: Seq<Val>,
    scope: ScopeV,
    file_ns: Seq<char>,
    prog: ProgV,
    fuel: nat,
) -> StepV
    decreases fuel, 2int,
{
    if fuel == 0 {
        depth_step(prog)
    } else {
        let less: nat = (fuel - 1) as nat;
        if nodes.len() > 3 {
            err_step(prog, ErrKind::Arity, "too many nodes for if"@)
        } else if nodes.len() < 2 {
            err_step(prog, ErrKind::Arity, "insufficient nodes for if"@)
        } else {
            let (p1, r) = evaluate_expr_spec(nodes[0], scope, file_ns, prog, less);
            match r {
                Err(e) => (p1, Err(e)),
                Ok(cond) => if cond == Val::Nil || cond == Val::Bool(false) {
                    if nodes.len() == 3 {
                        evaluate_expr_spec(nodes[2], scope, file_ns, p1, less)
                    } else {
                        (p1, Ok(Val::Nil))
                    }
                } else {
                    evaluate_expr_spec(nodes[1], scope, file_ns, p1, less)
                },
            }
        }
    }
}

/// What `eval` gives: its node evaluated once, and the value evaluated
/// again.
pub open spec fn eval_syntax_spec(
    nodes: Seq<Val>,
    scope: ScopeV,
    file_ns: Seq<char>,
    prog: ProgV,
    fuel: nat,
) -> StepV
    decreases fuel, 2int,
{
    if fuel == 0 {
        depth_step(prog)
    } else {
        let less: nat = (fuel - 1) as nat;
        if nodes.len() == 1 {
            let (p1, r) = evaluate_expr_spec(nodes[0], scope, file_ns, prog, less);
            match r {
                Err(e) => (p1, Err(e)),
                Ok(v) => evaluate_expr_spec(v, scope, file_ns, p1, less),
            }
        } else {
            err_step(prog, ErrKind::Arity, "eval expected 1 node"@)
        }
    }
}

/// What `&let` gives: with a `Nil` binding the body in the current scope;
/// with one symbol-expression pair the body under that binding; any other
/// shape is refused.
pub open spec fn syntax_let_spec(
    nodes: Seq<Val>,
    scope: ScopeV,
    file_ns: Seq<char>,
    prog: ProgV,
    fuel: nat,
) -> StepV
    decreases fuel, 2int,
{
    if fuel == 0 {
        depth_step(prog)
    } else {
        let less: nat = (fuel - 1) as nat;
        if nodes.len() == 0 {
            err_step(prog, ErrKind::Arity, "&let expected a pair or a nil"@)
        } else {
            match nodes[0] {
                Val::Nil => evaluate_lines_spec(nodes.skip(1), scope, file_ns, prog, less),
                Val::List(ys) => if ys.len() == 2 {
                    match ys[0] {
                        Val::Symbol(s, _, _, _) => {
                            let (p1, r) = evaluate_expr_spec(ys[1], scope, file_ns, prog, less);
                            match r {
                                Err(e) => (p1, Err(e)),
                                Ok(v) => evaluate_lines_spec(
                                    nodes.skip(1),
                                    scope.push((s, v)),
                                    file_ns,
                                    p1,
                                    less,
                                ),
                            }
                        },
                        _ => err_step(prog, ErrKind::TypeMismatch, "invalid binding name"@),
                    }
                } else {
                    err_step(prog, ErrKind::Arity, "invalid binding length"@)
                },
                _ => err_step(prog, ErrKind::TypeMismatch, "invalid node for &let"@),
            }
        }
    }
}

/// What replacing gives: one value in place, or a run of values to splice.
pub enum SpanV {
    Single(Val),
    Range(Seq<Val>),
}

/// Whether a tree holds an unquote marker anywhere.
pub open spec fn has_unquote_v(v: Val) -> bool
    decreases v, 1int,
{
    match v {
        Val::List(ys) => any_unquote(ys),
        Val::Symbol(s, _, _, _) => s == "~"@ || s == "~@"@,
        _ => false,
    }
}

/// Whether any item of a run holds an unquote marker.
pub open spec fn any_unquote(ys: Seq<Val>) -> bool
    decreases ys, 2int,
{
    if ys.len() == 0 {
        false
    } else {
        has_unquote_v(ys[0]) || any_unquote(ys.skip(1))
    }
}

/// Replacing `~` and `~@` forms inside a quoted tree: `~` evaluates its
/// expression in place, `~@` evaluates and splices a list; a tree without
/// unquotes stands as it is.
pub open spec fn replace_code_spec(
    c: Val,
    scope: ScopeV,
    file_ns: Seq<char>,
    prog: ProgV,
    fuel: nat,
) -> (ProgV, Result<SpanV, ErrV>)
    decreases fuel, 2int, 0int,
{
    if fuel == 0 {
        (prog, Err(ErrV { kind: ErrKind::StackDepth, msg: "evaluation depth budget ran out"@, stack: prog.stack }))
    } else {
        let less: nat = (fuel - 1) as nat;
        if !has_unquote_v(c) {
            (prog, Ok(SpanV::Single(c)))
        } else {
            match c {
                Val::List(ys) => if ys.len() >= 2 && (ys[0] matches Val::Symbol(s, _, _, _) && s
                    == "~"@) {
                    let (p1, r) = evaluate_expr_spec(ys[1], scope, file_ns, prog, less);
                    match r {
                        Err(e) => (p1, Err(e)),
                        Ok(v) => (p1, Ok(SpanV::Single(v))),
                    }
                } else if ys.len() >= 2 && (ys[0] matches Val::Symbol(s, _, _, _) && s == "~@"@) {
                    let (p1, r) = evaluate_expr_spec(ys[1], scope, file_ns, prog, less);
                    match r {
                        Err(e) => (p1, Err(e)),
                        Ok(v) => match v {
                            Val::List(zs) => (p1, Ok(SpanV::Range(zs))),
                            _ => (
                                p1,
                                Err(
                                    ErrV {
                                        kind: ErrKind::TypeMismatch,
                                        msg: "unknown result from unquote-slice"@,
                                        stack: p1.stack,
                                    },
                                ),
                            ),
                        },
                    }
                } else {
                    let (p1, r) = replace_children_spec(ys, scope, file_ns, prog, fuel);
                    match r {
                        Err(e) => (p1, Err(e)),
                        Ok(items) => (p1, Ok(SpanV::Single(Val::List(items)))),
                    }
                },
                _ => (prog, Ok(SpanV::Single(c))),
            }
        }
    }
}

/// Replacing each child of a list, splicing ranges flat.
pub open spec fn replace_children_spec(
    ys: Seq<Val>,
    scope: ScopeV,
    file_ns: Seq<char>,
    prog: ProgV,
    fuel: nat,
) -> (ProgV, Result<Seq<Val>, ErrV>)
    decreases fuel, 1int, ys.len(),
{
    if fuel == 0 {
        (prog, Err(ErrV { kind: ErrKind::StackDepth, msg: "evaluation depth budget ran out"@, stack: prog.stack }))
    } else {
        if ys.len() == 0 {
            (prog, Ok(Seq::empty()))
        } else {
            let (p1, r) = replace_code_spec(ys[0], scope, file_ns, prog, (fuel - 1) as nat);
            match r {
                Err(e) => (p1, Err(e)),
                Ok(span) => {
                    let (p2, r2) = replace_children_spec(ys.skip(1), scope, file_ns, p1, fuel);
                    match r2 {
                        Err(e) => (p2, Err(e)),
                        Ok(rest) => match span {
                            SpanV::Single(z) => (p2, Ok(seq![z] + rest)),
                            SpanV::Range(pieces) => (p2, Ok(pieces + rest)),
                        },
                    }
                },
            }
        }
    }
}

/// What `quasiquote` gives: its one node with unquotes replaced; a splice
/// at the top level is refused.
pub open spec fn quasiquote_spec(
    nodes: Seq<Val>,
    scope: ScopeV,
    file_ns: Seq<char>,
    prog: ProgV,
    fuel: nat,
) -> StepV
    decreases fuel, 2int,
{
    if fuel == 0 {
        depth_step(prog)
    } else {
        let less: nat = (fuel - 1) as nat;
        if nodes.len() == 0 {
            err_step(prog, ErrKind::Arity, "quasiquote expected a node"@)
        } else {
            let (p1, r) = replace_code_spec(nodes[0], scope, file_ns, prog, less);
            match r {
                Err(e) => (p1, Err(e)),
                Ok(span) => match span {
                    SpanV::Single(v) => (p1, Ok(v)),
                    SpanV::Range(_) => err_step(
                        p1,
                        ErrKind::TypeMismatch,
                        "expected single result from quasiquote"@,
                    ),
                },
            }
        }
    }
}

/// What `macroexpand` gives: the quoted form's macro call expanded through
/// its `recur` rounds; a form whose head is no macro stands as it is.
pub open spec fn macroexpand_spec(
    nodes: Seq<Val>,
    scope: ScopeV,
    file_ns: Seq<char>,
    prog: ProgV,
    fuel: nat,
) -> StepV
    decreases fuel, 2int,
{
    if fuel == 0 {
        depth_step(prog)
    } else {
        let less: nat = (fuel - 1) as nat;
        if nodes.len() == 1 {
            let (p1, r) = evaluate_expr_spec(nodes[0], scope, file_ns, prog, less);
            match r {
                Err(e) => (p1, Err(e)),
                Ok(quoted) => match quoted {
                    Val::List(xs) => if xs.len() == 0 {
                        (p1, Ok(quoted))
                    } else {
                        let (p2, r2) = evaluate_expr_spec(xs[0], scope, file_ns, p1, less);
                        match r2 {
                            Err(e) => (p2, Err(e)),
                            Ok(head) => match head {
                                Val::Macro(_, def_ns, _, params, body) => {
                                    crate::runner::expand_macro_spec(
                                        xs.skip(1),
                                        params,
                                        body,
                                        def_ns,
                                        p2,
                                        less,
                                    )
                                },
                                _ => (p2, Ok(quoted)),
                            },
                        }
                    },
                    _ => (p1, Ok(quoted)),
                },
            }
        } else {
            err_step(prog, ErrKind::Arity, "macroexpand expected exactly 1 argument"@)
        }
    }
}

/// What `macroexpand-1` gives: one expansion step, without chasing `recur`.
pub open spec fn macroexpand_1_spec(
    nodes: Seq<Val>,
    scope: ScopeV,
    file_ns: Seq<char>,
    prog: ProgV,
    fuel: nat,
) -> StepV
    decreases fuel, 2int,
{
    if fuel == 0 {
        depth_step(prog)
    } else {
        let less: nat = (fuel - 1) as nat;
        if nodes.len() == 1 {
            let (p1, r) = evaluate_expr_spec(nodes[0], scope, file_ns, prog, less);
            match r {
                Err(e) => (p1, Err(e)),
                Ok(quoted) => match quoted {
                    Val::List(xs) => if xs.len() == 0 {
                        (p1, Ok(quoted))
                    } else {
                        let (p2, r2) = evaluate_expr_spec(xs[0], scope, file_ns, p1, less);
                        match r2 {
                            Err(e) => (p2, Err(e)),
                            Ok(head) => match head {
                                Val::Macro(_, def_ns, _, params, body) => {
                                    match crate::runner::bind_args_spec(
                                        params,
                                        xs.skip(1),
                                        Seq::empty(),
                                    ) {
                                        Err((kind, msg)) => err_step(p2, kind, msg),
                                        Ok(body_scope) => evaluate_lines_spec(
                                            body,
                                            body_scope,
                                            def_ns,
                                            p2,
                                            less,
                                        ),
                                    }
                                },
                                _ => (p2, Ok(quoted)),
                            },
                        }
                    },
                    _ => (p1, Ok(quoted)),
                },
            }
        } else {
            err_step(prog, ErrKind::Arity, "macroexpand-1 expected exactly 1 argument"@)
        }
    }
}

/// What `macroexpand-all` gives: the expansion resolved once more by the
/// preprocessor.
pub open spec fn macroexpand_all_spec(
    nodes: Seq<Val>,
    scope: ScopeV,
    file_ns: Seq<char>,
    prog: ProgV,
    fuel: nat,
) -> StepV
    decreases fuel, 2int,
{
    if fuel == 0 {
        depth_step(prog)
    } else {
        let less: nat = (fuel - 1) as nat;
        let (p1, r) = macroexpand_spec(nodes, scope, file_ns, prog, less);
        match r {
            Err(e) => (p1, Err(e)),
            Ok(v) => {
                let (p2, r2) = crate::runner::preprocess::preprocess_expr_spec(
                    v,
                    Seq::empty(),
                    file_ns,
                    p1,
                    less,
                );
                match r2 {
                    Err(e) => (p2, Err(e)),
                    Ok((form, _)) => (p2, Ok(form)),
                }
            },
        }
    }
}

/// What `try` gives: its first node's value, or on failure the second node
/// evaluated to a handler and called with the failure message as a string.
pub open spec fn call_try_spec(
    nodes: Seq<Val>,
    scope: ScopeV,
    file_ns: Seq<char>,
    prog: ProgV,
    fuel: nat,
) -> StepV
    decreases fuel, 2int,
{
    if fuel == 0 {
        depth_step(prog)
    } else {
        let less: nat = (fuel - 1) as nat;
        if nodes.len() == 2 {
            let (p1, r) = evaluate_expr_spec(nodes[0], scope, file_ns, prog, less);
            match r {
                Ok(v) => (p1, Ok(v)),
                Err(failure) => {
                    let (p2, r2) = evaluate_expr_spec(nodes[1], scope, file_ns, p1, less);
                    match r2 {
                        Err(e) => (p2, Err(e)),
                        Ok(handler) => match handler {
                            Val::Fn(_, def_ns, _, def_scope, params, body) => run_fn_spec(
                                seq![Val::Str(failure.msg)],
                                def_scope,
                                params,
                                body,
                                def_ns,
                                p2,
                                less,
                            ),
                            Val::Proc(p) => {
                                let (p3, r3) = crate::builtins::handle_proc_spec(
                                    p,
                                    seq![Val::Str(failure.msg)],
                                    p2,
                                );
                                (p3, r3)
                            },
                            _ => err_step(
                                p2,
                                ErrKind::TypeMismatch,
                                "try expected a function handler"@,
                            ),
                        },
                    }
                },
            }
        } else {
            err_step(prog, ErrKind::Arity, "try expected 2 arguments"@)
        }
    }
}

/// Folding a list left to right with a two-argument function.
pub open spec fn foldl_items_spec(
    items: Seq<Val>,
    acc: Val,
    f: Val,
    file_ns: Seq<char>,
    prog: ProgV,
    fuel: nat,
) -> StepV
    decreases fuel, 1int, items.len(),
{
    if fuel == 0 {
        depth_step(prog)
    } else {
        let less: nat = (fuel - 1) as nat;
        if items.len() == 0 {
            (prog, Ok(acc))
        } else {
            let (p1, r) = match f {
                Val::Fn(_, def_ns, _, def_scope, params, body) => run_fn_spec(
                    seq![acc, items[0]],
                    def_scope,
                    params,
                    body,
                    def_ns,
                    prog,
                    less,
                ),
                Val::Proc(p) => crate::builtins::handle_proc_spec(p, seq![acc, items[0]], prog),
                _ => err_step(prog, ErrKind::TypeMismatch, "foldl expected a function"@),
            };
            match r {
                Err(e) => (p1, Err(e)),
                Ok(acc2) => foldl_items_spec(items.skip(1), acc2, f, file_ns, p1, fuel),
            }
        }
    }
}

/// What `foldl` gives: its list folded from an explicit seed, left to
/// right.
pub open spec fn foldl_spec(
    nodes: Seq<Val>,
    scope: ScopeV,
    file_ns: Seq<char>,
    prog: ProgV,
    fuel: nat,
) -> StepV
    decreases fuel, 2int,
{
    if fuel == 0 {
        depth_step(prog)
    } else {
        let less: nat = (fuel - 1) as nat;
        if nodes.len() == 3 {
            let (p1, r1) = evaluate_expr_spec(nodes[0], scope, file_ns, prog, less);
            match r1 {
                Err(e) => (p1, Err(e)),
                Ok(xs_v) => {
                    let (p2, r2) = evaluate_expr_spec(nodes[1], scope, file_ns, p1, less);
                    match r2 {
                        Err(e) => (p2, Err(e)),
                        Ok(seed) => {
                            let (p3, r3) = evaluate_expr_spec(nodes[2], scope, file_ns, p2, less);
                            match r3 {
                                Err(e) => (p3, Err(e)),
                                Ok(f) => match xs_v {
                                    Val::List(items) => foldl_items_spec(
                                        items,
                                        seed,
                                        f,
                                        file_ns,
                                        p3,
                                        less,
                                    ),
                                    _ => err_step(p3, ErrKind::TypeMismatch, "foldl expected a list"@),
                                },
                            }
                        },
                    }
                },
            }
        } else {
            err_step(prog, ErrKind::Arity, "foldl expected 3 arguments"@)
        }
    }
}

/// What `defatom` gives: a reference cell named `ns/name`, created with the
/// evaluated initial value on first sight.
pub open spec fn defatom_spec(
    nodes: Seq<Val>,
    scope: ScopeV,
    file_ns: Seq<char>,
    prog: ProgV,
    fuel: nat,
) -> StepV
    decreases fuel, 2int,
{
    if fuel == 0 {
        depth_step(prog)
    } else {
        let less: nat = (fuel - 1) as nat;
        if nodes.len() == 2 {
            match nodes[0] {
                Val::Symbol(s, _, _, _) => {
                    let name = file_ns + "/"@ + s;
                    if crate::program::ref_read(prog.refs, name) is Some {
                        (prog, Ok(Val::Ref(name)))
                    } else {
                        let (p1, r) = evaluate_expr_spec(nodes[1], scope, file_ns, prog, less);
                        match r {
                            Err(e) => (p1, Err(e)),
                            Ok(v) => (
                                ProgV {
                                    refs: crate::program::ref_written(p1.refs, name, v),
                                    ..p1
                                },
                                Ok(Val::Ref(name)),
                            ),
                        }
                    }
                },
                _ => err_step(prog, ErrKind::TypeMismatch, "defatom expected a symbol"@),
            }
        } else {
            err_step(prog, ErrKind::Arity, "defatom expected 2 nodes"@)
        }
    }
}

/// What `reset!` gives: writes an existing reference cell and answers
/// `Nil`.
pub open spec fn reset_spec(
    nodes: Seq<Val>,
    scope: ScopeV,
    file_ns: Seq<char>,
    prog: ProgV,
    fuel: nat,
) -> StepV
    decreases fuel, 2int,
{
    if fuel == 0 {
        depth_step(prog)
    } else {
        let less: nat = (fuel - 1) as nat;
        if nodes.len() == 2 {
            let (p1, r) = evaluate_expr_spec(nodes[0], scope, file_ns, prog, less);
            match r {
                Err(e) => (p1, Err(e)),
                Ok(target) => match target {
                    Val::Ref(name) => if crate::program::ref_read(p1.refs, name) is Some {
                        let (p2, r2) = evaluate_expr_spec(nodes[1], scope, file_ns, p1, less);
                        match r2 {
                            Err(e) => (p2, Err(e)),
                            Ok(v) => (
                                ProgV {
                                    refs: crate::program::ref_written(p2.refs, name, v),
                                    ..p2
                                },
                                Ok(Val::Nil),
                            ),
                        }
                    } else {
                        err_step(p1, ErrKind::UnknownSymbol, "no such reference"@)
                    },
                    _ => err_step(p1, ErrKind::TypeMismatch, "reset! expected a reference"@),
                },
            }
        } else {
            err_step(prog, ErrKind::Arity, "reset! expected 2 nodes"@)
        }
    }
}

/// What a special form gives, by kind; `hint-fn` is a resolver hint and
/// stands for `Nil` at run time.
pub open spec fn handle_syntax_kind_spec(
    kind: CalcitSyntax,
    nodes: Seq<Val>,
    scope: ScopeV,
    file_ns: Seq<char>,
    prog: ProgV,
    fuel: nat,
) -> StepV
    decreases fuel, 3int,
{
    if fuel == 0 {
        depth_step(prog)
    } else {
        let less: nat = (fuel - 1) as nat;
        match kind {
            CalcitSyntax::Defn => defn_spec(nodes, scope, file_ns, prog),
            CalcitSyntax::Defmacro => defmacro_spec(nodes, file_ns, prog),
            CalcitSyntax::Quote => quote_spec(nodes, prog),
            CalcitSyntax::If => syntax_if_spec(nodes, scope, file_ns, prog, less),
            CalcitSyntax::Eval => eval_syntax_spec(nodes, scope, file_ns, prog, less),
            CalcitSyntax::CoreLet => syntax_let_spec(nodes, scope, file_ns, prog, less),
            CalcitSyntax::Quasiquote => quasiquote_spec(nodes, scope, file_ns, prog, less),
            CalcitSyntax::Macroexpand => macroexpand_spec(nodes, scope, file_ns, prog, less),
            CalcitSyntax::Macroexpand1 => macroexpand_1_spec(nodes, scope, file_ns, prog, less),
            CalcitSyntax::MacroexpandAll => macroexpand_all_spec(nodes, scope, file_ns, prog, less),
            CalcitSyntax::Try => call_try_spec(nodes, scope, file_ns, prog, less),
            CalcitSyntax::Foldl => foldl_spec(nodes, scope, file_ns, prog, less),
            CalcitSyntax::Defatom => defatom_spec(nodes, scope, file_ns, prog, less),
            CalcitSyntax::Reset => reset_spec(nodes, scope, file_ns, prog, less),
            CalcitSyntax::HintFn => (prog, Ok(Val::Nil)),
        }
    }
}

/// The failure that stands for an exhausted depth budget.
fn depth_err2(stack: &Vec<CalcitStack>) -> (res: CalcitErr)
    ensures
        res@ == (ErrV {
            kind: ErrKind::StackDepth,
            msg: "evaluation depth budget ran out"@,
            stack: crate::call_stack::stack_view(stack@),
        }),
{
    CalcitErr::new(ErrKind::StackDepth, "evaluation depth budget ran out", stack)
}

/// Defines a function capturing the current scope.
pub fn defn(nodes: &CalcitItems, scope: &CalcitScope, file_ns: &str, prog: &mut Program) -> (res:
    Result<Calcit, CalcitErr>)
    ensures
        ({
            let (p, r) = defn_spec(cv_seq(nodes@), cv_scope(scope@), file_ns@, old(prog)@);
            final(prog)@ == p && res_view(res) == r
        }),
{
    if nodes.len() >= 2 {
        proof {
            assert(cv_seq(nodes@)[0] == cv(nodes@[0]));
            assert(cv_seq(nodes@)[1] == cv(nodes@[1]));
        }
        match (&nodes[0], &nodes[1]) {
            (Calcit::Symbol(s, _, _, _), Calcit::List(params)) => {
                let id = crate::program::next_id(prog);
                let body = crate::util::skip(nodes, 2);
                proof {
                    assert(cv_seq(body@) == cv_seq(nodes@).skip(2));
                }
                return Ok(
                    Calcit::Fn(
                        s.clone(),
                        file_ns.to_owned(),
                        id,
                        crate::primes::clone_scope(scope),
                        crate::primes::clone_items(params),
                        body,
                    ),
                );
            },
            _ => {
                return Err(
                    CalcitErr::new(ErrKind::TypeMismatch, "invalid structure for defn", &prog.stack),
                );
            },
        }
    }
    Err(CalcitErr::new(ErrKind::TypeMismatch, "invalid structure for defn", &prog.stack))
}

/// Defines a macro; macros capture no scope.
pub fn defmacro(nodes: &CalcitItems, _scope: &CalcitScope, def_ns: &str, prog: &mut Program) -> (
    res: Result<Calcit, CalcitErr>)
    ensures
        ({
            let (p, r) = defmacro_spec(cv_seq(nodes@), def_ns@, old(prog)@);
            final(prog)@ == p && res_view(res) == r
        }),
{
    if nodes.len() >= 2 {
        proof {
            assert(cv_seq(nodes@)[0] == cv(nodes@[0]));
            assert(cv_seq(nodes@)[1] == cv(nodes@[1]));
        }
        match (&nodes[0], &nodes[1]) {
            (Calcit::Symbol(s, _, _, _), Calcit::List(params)) => {
                let id = crate::program::next_id(prog);
                let body = crate::util::skip(nodes, 2);
                proof {
                    assert(cv_seq(body@) == cv_seq(nodes@).skip(2));
                }
                return Ok(
                    Calcit::Macro(
                        s.clone(),
                        def_ns.to_owned(),
                        id,
                        crate::primes::clone_items(params),
                        body,
                    ),
                );
            },
            _ => {
                return Err(
                    CalcitErr::new(
                        ErrKind::TypeMismatch,
                        "invalid structure for defmacro",
                        &prog.stack,
                    ),
                );
            },
        }
    }
    Err(CalcitErr::new(ErrKind::TypeMismatch, "invalid structure for defmacro", &prog.stack))
}

/// Hands back the one node unevaluated.
pub fn quote(nodes: &CalcitItems, _scope: &CalcitScope, _file_ns: &str, prog: &mut Program) -> (
    res: Result<Calcit, CalcitErr>)
    ensures
        ({
            let (p, r) = quote_spec(cv_seq(nodes@), old(prog)@);
            final(prog)@ == p && res_view(res) == r
        }),
{
    if nodes.len() == 1 {
        Ok(nodes[0].clone())
    } else {
        Err(CalcitErr::new(ErrKind::Arity, "quote expected 1 node", &prog.stack))
    }
}

/// Branches on the first node's value.
pub fn syntax_if(
    nodes: &CalcitItems,
    scope: &CalcitScope,
    file_ns: &str,
    prog: &mut Program,
    fuel: u64,
) -> (res: Result<Calcit, CalcitErr>)
    ensures
        ({
            let (p, r) = syntax_if_spec(
                cv_seq(nodes@),
                cv_scope(scope@),
                file_ns@,
                old(prog)@,
                fuel as nat,
            );
            final(prog)@ == p && res_view(res) == r
        }),
    decreases fuel, 2int,
{
    if fuel == 0 {
        return Err(depth_err2(&prog.stack));
    }
    if nodes.len() > 3 {
        return Err(CalcitErr::new(ErrKind::Arity, "too many nodes for if", &prog.stack));
    }
    if nodes.len() < 2 {
        return Err(CalcitErr::new(ErrKind::Arity, "insufficient nodes for if", &prog.stack));
    }
    let r = crate::runner::evaluate_expr(&nodes[0], scope, file_ns, prog, fuel - 1);
    match r {
        Err(e) => Err(e),
        Ok(cond) => {
            let falsy = match &cond {
                Calcit::Nil => true,
                Calcit::Bool(b) => !*b,
                _ => false,
            };
            proof {
                assert(falsy == (cv(cond) == Val::Nil || cv(cond) == Val::Bool(false)));
            }
            if falsy {
                if nodes.len() == 3 {
                    crate::runner::evaluate_expr(&nodes[2], scope, file_ns, prog, fuel - 1)
                } else {
                    Ok(Calcit::Nil)
                }
            } else {
                crate::runner::evaluate_expr(&nodes[1], scope, file_ns, prog, fuel - 1)
            }
        },
    }
}

/// Evaluates the node, then evaluates the value it gave.
pub fn eval(
    nodes: &CalcitItems,
    scope: &CalcitScope,
    file_ns: &str,
    prog: &mut Program,
    fuel: u64,
) -> (res: Result<Calcit, CalcitErr>)
    ensures
        ({
            let (p, r) = eval_syntax_spec(
                cv_seq(nodes@),
                cv_scope(scope@),
                file_ns@,
                old(prog)@,
                fuel as nat,
            );
            final(prog)@ == p && res_view(res) == r
        }),
    decreases fuel, 2int,
{
    if fuel == 0 {
        return Err(depth_err2(&prog.stack));
    }
    if nodes.len() == 1 {
        let r = crate::runner::evaluate_expr(&nodes[0], scope, file_ns, prog, fuel - 1);
        match r {
            Err(e) => Err(e),
            Ok(v) => crate::runner::evaluate_expr(&v, scope, file_ns, prog, fuel - 1),
        }
    } else {
        Err(CalcitErr::new(ErrKind::Arity, "eval expected 1 node", &prog.stack))
    }
}

/// Evaluates the body under one binding, or none for a `Nil` binding.
pub fn syntax_let(
    nodes: &CalcitItems,
    scope: &CalcitScope,
    file_ns: &str,
    prog: &mut Program,
    fuel: u64,
) -> (res: Result<Calcit, CalcitErr>)
    ensures
        ({
            let (p, r) = syntax_let_spec(
                cv_seq(nodes@),
                cv_scope(scope@),
                file_ns@,
                old(prog)@,
                fuel as nat,
            );
            final(prog)@ == p && res_view(res) == r
        }),
    decreases fuel, 2int,
{
    if fuel == 0 {
        return Err(depth_err2(&prog.stack));
    }
    if nodes.len() == 0 {
        return Err(CalcitErr::new(ErrKind::Arity, "&let expected a pair or a nil", &prog.stack));
    }
    proof {
        assert(cv_seq(nodes@)[0] == cv(nodes@[0]));
    }
    match &nodes[0] {
        Calcit::Nil => {
            let body = crate::util::skip(nodes, 1);
            proof {
                assert(cv_seq(body@) == cv_seq(nodes@).skip(1));
            }
            crate::runner::evaluate_lines(&body, scope, file_ns, prog, fuel - 1)
        },
        Calcit::List(ys) => {
            proof {
                assert(cv(nodes@[0]) == Val::List(cv_seq(ys@)));
            }
            if ys.len() == 2 {
                proof {
                    assert(cv_seq(ys@)[0] == cv(ys@[0]));
                    assert(cv_seq(ys@)[1] == cv(ys@[1]));
                }
                match &ys[0] {
                    Calcit::Symbol(s, _, _, _) => {
                        let r = crate::runner::evaluate_expr(&ys[1], scope, file_ns, prog, fuel - 1);
                        match r {
                            Err(e) => Err(e),
                            Ok(v) => {
                                let mut body_scope = crate::primes::clone_scope(scope);
                                body_scope.push((s.clone(), v));
                                let body = crate::util::skip(nodes, 1);
                                proof {
                                    assert(cv_seq(body@) == cv_seq(nodes@).skip(1));
                                    assert(cv_scope(body_scope@) =~= cv_scope(scope@).push(
                                        (s@, cv(body_scope@.last().1)),
                                    ));
                                }
                                crate::runner::evaluate_lines(&body, &body_scope, file_ns, prog, fuel - 1)
                            },
                        }
                    },
                    _ => Err(
                        CalcitErr::new(ErrKind::TypeMismatch, "invalid binding name", &prog.stack),
                    ),
                }
            } else {
                Err(CalcitErr::new(ErrKind::Arity, "invalid binding length", &prog.stack))
            }
        },
        _ => Err(CalcitErr::new(ErrKind::TypeMismatch, "invalid node for &let", &prog.stack)),
    }
}

/// Whether a tree holds an unquote marker anywhere.
pub fn has_unquote(xs: &Calcit) -> (res: bool)
    ensures
        res == has_unquote_v(cv(*xs)),
    decreases *xs, 1int,
{
    match xs {
        Calcit::List(ys) => {
            proof {
                assert(cv(*xs) == Val::List(cv_seq(ys@)));
            }
            let ghost full = cv_seq(ys@);
            let mut i: usize = 0;
            proof {
                assert(full.skip(0) =~= full);
            }
            #[verifier::loop_isolation(false)]
            while i < ys.len()
                invariant
                    i <= ys@.len(),
                    any_unquote(full) == any_unquote(full.skip(i as int)),
                decreases ys@.len() - i,
            {
                proof {
                    assert(full.skip(i as int)[0] == full[i as int]);
                    assert(full.skip(i as int).skip(1) =~= full.skip(i + 1));
                }
                if has_unquote(&ys[i]) {
                    return true;
                }
                i = i + 1;
            }
            proof {
                assert(full.skip(ys@.len() as int).len() == 0);
            }
            false
        },
        Calcit::Symbol(s, _, _, _) => crate::util::str_eq(s.as_str(), "~") || crate::util::str_eq(
            s.as_str(),
            "~@",
        ),
        _ => false,
    }
}

/// What replacing gave: one value in place, or a run of values to splice.
pub enum Span {
    Single(Calcit),
    Range(CalcitItems),
}

/// View of a replacement.
pub open spec fn span_view(s: Span) -> SpanV {
    match s {
        Span::Single(v) => SpanV::Single(cv(v)),
        Span::Range(vs) => SpanV::Range(cv_seq(vs@)),
    }
}

/// Replaces `~` and `~@` forms inside a quoted tree.
fn replace_code(
    c: &Calcit,
    scope: &CalcitScope,
    file_ns: &str,
    prog: &mut Program,
    fuel: u64,
) -> (res: Result<Span, CalcitErr>)
    ensures
        ({
            let (p, r) = replace_code_spec(
                cv(*c),
                cv_scope(scope@),
                file_ns@,
                old(prog)@,
                fuel as nat,
            );
            final(prog)@ == p && match res {
                Ok(s2) => r == Ok::<SpanV, ErrV>(span_view(s2)),
                Err(e) => r == Err::<SpanV, ErrV>(e@),
            }
        }),
    decreases fuel, 2int, 0int,
{
    if fuel == 0 {
        return Err(depth_err2(&prog.stack));
    }
    if !has_unquote(c) {
        return Ok(Span::Single(c.clone()));
    }
    match c {
        Calcit::List(ys) => {
            proof {
                assert(cv(*c) == Val::List(cv_seq(ys@)));
            }
            let mut unquote_kind: u8 = 0;
            if ys.len() >= 2 {
                proof {
                    assert(cv_seq(ys@)[0] == cv(ys@[0]));
                    assert(cv_seq(ys@)[1] == cv(ys@[1]));
                }
                match &ys[0] {
                    Calcit::Symbol(s, _, _, _) => {
                        if crate::util::str_eq(s.as_str(), "~") {
                            unquote_kind = 1;
                        } else if crate::util::str_eq(s.as_str(), "~@") {
                            unquote_kind = 2;
                        }
                    },
                    _ => {},
                }
            }
            if unquote_kind == 1 {
                let r = crate::runner::evaluate_expr(&ys[1], scope, file_ns, prog, fuel - 1);
                match r {
                    Err(e) => Err(e),
                    Ok(v) => Ok(Span::Single(v)),
                }
            } else if unquote_kind == 2 {
                let r = crate::runner::evaluate_expr(&ys[1], scope, file_ns, prog, fuel - 1);
                match r {
                    Err(e) => Err(e),
                    Ok(v) => match v {
                        Calcit::List(zs) => Ok(Span::Range(zs)),
                        _ => Err(
                            CalcitErr::new(
                                ErrKind::TypeMismatch,
                                "unknown result from unquote-slice",
                                &prog.stack,
                            ),
                        ),
                    },
                }
            } else {
                let r = replace_children(ys, scope, file_ns, prog, fuel);
                match r {
                    Err(e) => Err(e),
                    Ok(items) => Ok(Span::Single(Calcit::List(items))),
                }
            }
        },
        _ => Ok(Span::Single(c.clone())),
    }
}

/// Replaces each child of a list, splicing ranges flat.
fn replace_children(
    ys: &CalcitItems,
    scope: &CalcitScope,
    file_ns: &str,
    prog: &mut Program,
    fuel: u64,
) -> (res: Result<CalcitItems, CalcitErr>)
    ensures
        ({
            let (p, r) = replace_children_spec(
                cv_seq(ys@),
                cv_scope(scope@),
                file_ns@,
                old(prog)@,
                fuel as nat,
            );
            final(prog)@ == p && match res {
                Ok(items) => r == Ok::<Seq<Val>, ErrV>(cv_seq(items@)),
                Err(e) => r == Err::<Seq<Val>, ErrV>(e@),
            }
        }),
    decreases fuel, 1int, ys@.len(),
{
    if fuel == 0 {
        return Err(depth_err2(&prog.stack));
    }
    if ys.len() == 0 {
        let out: CalcitItems = Vec::new();
        proof {
            assert(cv_seq(out@) =~= Seq::<Val>::empty());
        }
        return Ok(out);
    }
    let r = replace_code(&ys[0], scope, file_ns, prog, fuel - 1);
    match r {
        Err(e) => Err(e),
        Ok(span) => {
            let tail = crate::util::skip(ys, 1);
            proof {
                assert(cv_seq(tail@) == cv_seq(ys@).skip(1));
            }
            let r2 = replace_children(&tail, scope, file_ns, prog, fuel);
            match r2 {
                Err(e) => Err(e),
                Ok(rest) => match span {
                    Span::Single(z) => {
                        let mut front: CalcitItems = Vec::new();
                        front.push(z);
                        proof {
                            assert(cv_seq(front@) =~= seq![cv(front@[0])]);
                        }
                        Ok(crate::runner::join_items(front, rest))
                    },
                    Span::Range(pieces) => Ok(crate::runner::join_items(pieces, rest)),
                },
            }
        },
    }
}

/// Replaces unquotes inside the one node of a quasiquote form.
pub fn quasiquote(
    nodes: &CalcitItems,
    scope: &CalcitScope,
    file_ns: &str,
    prog: &mut Program,
    fuel: u64,
) -> (res: Result<Calcit, CalcitErr>)
    ensures
        ({
            let (p, r) = quasiquote_spec(
                cv_seq(nodes@),
                cv_scope(scope@),
                file_ns@,
                old(prog)@,
                fuel as nat,
            );
            final(prog)@ == p && res_view(res) == r
        }),
    decreases fuel, 2int,
{
    if fuel == 0 {
        return Err(depth_err2(&prog.stack));
    }
    if nodes.len() == 0 {
        return Err(CalcitErr::new(ErrKind::Arity, "quasiquote expected a node", &prog.stack));
    }
    let r = replace_code(&nodes[0], scope, file_ns, prog, fuel - 1);
    match r {
        Err(e) => Err(e),
        Ok(span) => match span {
            Span::Single(v) => Ok(v),
            Span::Range(_) => Err(
                CalcitErr::new(
                    ErrKind::TypeMismatch,
                    "expected single result from quasiquote",
                    &prog.stack,
                ),
            ),
        },
    }
}

/// Expands the quoted form's macro call through its `recur` rounds.
pub fn macroexpand(
    nodes: &CalcitItems,
    scope: &CalcitScope,
    file_ns: &str,
    prog: &mut Program,
    fuel: u64,
) -> (res: Result<Calcit, CalcitErr>)
    ensures
        ({
            let (p, r) = macroexpand_spec(
                cv_seq(nodes@),
                cv_scope(scope@),
                file_ns@,
                old(prog)@,
                fuel as nat,
            );
            final(prog)@ == p && res_view(res) == r
        }),
    decreases fuel, 2int,
{
    if fuel == 0 {
        return Err(depth_err2(&prog.stack));
    }
    if nodes.len() != 1 {
        return Err(
            CalcitErr::new(ErrKind::Arity, "macroexpand expected exactly 1 argument", &prog.stack),
        );
    }
    let r = crate::runner::evaluate_expr(&nodes[0], scope, file_ns, prog, fuel - 1);
    match r {
        Err(e) => Err(e),
        Ok(quoted) => match &quoted {
            Calcit::List(xs) => {
                proof {
                    assert(cv(quoted) == Val::List(cv_seq(xs@)));
                }
                if xs.len() == 0 {
                    return Ok(quoted.clone());
                }
                let r2 = crate::runner::evaluate_expr(&xs[0], scope, file_ns, prog, fuel - 1);
                match r2 {
                    Err(e) => Err(e),
                    Ok(head) => match &head {
                        Calcit::Macro(_, def_ns, _, params, body) => {
                            let rest = crate::util::skip(xs, 1);
                            proof {
                                assert(cv_seq(rest@) == cv_seq(xs@).skip(1));
                            }
                            crate::runner::expand_macro(
                                &rest,
                                params,
                                body,
                                def_ns.as_str(),
                                prog,
                                fuel - 1,
                            )
                        },
                        _ => Ok(quoted.clone()),
                    },
                }
            },
            _ => Ok(quoted.clone()),
        },
    }
}

/// Expands one step of the quoted form's macro call.
pub fn macroexpand_1(
    nodes: &CalcitItems,
    scope: &CalcitScope,
    file_ns: &str,
    prog: &mut Program,
    fuel: u64,
) -> (res: Result<Calcit, CalcitErr>)
    ensures
        ({
            let (p, r) = macroexpand_1_spec(
                cv_seq(nodes@),
                cv_scope(scope@),
                file_ns@,
                old(prog)@,
                fuel as nat,
            );
            final(prog)@ == p && res_view(res) == r
        }),
    decreases fuel, 2int,
{
    if fuel == 0 {
        return Err(depth_err2(&prog.stack));
    }
    if nodes.len() != 1 {
        return Err(
            CalcitErr::new(ErrKind::Arity, "macroexpand-1 expected exactly 1 argument", &prog.stack),
        );
    }
    let r = crate::runner::evaluate_expr(&nodes[0], scope, file_ns, prog, fuel - 1);
    match r {
        Err(e) => Err(e),
        Ok(quoted) => match &quoted {
            Calcit::List(xs) => {
                proof {
                    assert(cv(quoted) == Val::List(cv_seq(xs@)));
                }
                if xs.len() == 0 {
                    return Ok(quoted.clone());
                }
                let r2 = crate::runner::evaluate_expr(&xs[0], scope, file_ns, prog, fuel - 1);
                match r2 {
                    Err(e) => Err(e),
                    Ok(head) => match &head {
                        Calcit::Macro(_, def_ns, _, params, body) => {
                            let rest = crate::util::skip(xs, 1);
                            proof {
                                assert(cv_seq(rest@) == cv_seq(xs@).skip(1));
                            }
                            let empty_scope: CalcitScope = Vec::new();
                            proof {
                                assert(cv_scope(empty_scope@) =~= Seq::<(Seq<char>, Val)>::empty());
                            }
                            match crate::runner::bind_args(
                                params,
                                &rest,
                                &empty_scope,
                                &prog.stack,
                            ) {
                                Err(e) => Err(e),
                                Ok(body_scope) => crate::runner::evaluate_lines(
                                    body,
                                    &body_scope,
                                    def_ns.as_str(),
                                    prog,
                                    fuel - 1,
                                ),
                            }
                        },
                        _ => Ok(quoted.clone()),
                    },
                }
            },
            _ => Ok(quoted.clone()),
        },
    }
}

/// Expands fully and resolves the expansion once more.
pub fn macroexpand_all(
    nodes: &CalcitItems,
    scope: &CalcitScope,
    file_ns: &str,
    prog: &mut Program,
    fuel: u64,
) -> (res: Result<Calcit, CalcitErr>)
    ensures
        ({
            let (p, r) = macroexpand_all_spec(
                cv_seq(nodes@),
                cv_scope(scope@),
                file_ns@,
                old(prog)@,
                fuel as nat,
            );
            final(prog)@ == p && res_view(res) == r
        }),
    decreases fuel, 2int,
{
    if fuel == 0 {
        return Err(depth_err2(&prog.stack));
    }
    let r = macroexpand(nodes, scope, file_ns, prog, fuel - 1);
    match r {
        Err(e) => Err(e),
        Ok(v) => {
            let empty_defs: Vec<String> = Vec::new();
            proof {
                assert(crate::primes::strs_view(empty_defs@) =~= Seq::<Seq<char>>::empty());
            }
            let r2 = crate::runner::preprocess::preprocess_expr(
                &v,
                &empty_defs,
                file_ns,
                prog,
                fuel - 1,
            );
            match r2 {
                Err(e) => Err(e),
                Ok((form, _)) => Ok(form),
            }
        },
    }
}

/// Evaluates the first node; on failure, evaluates the second node to a
/// handler and calls it with the failure message.
pub fn call_try(
    nodes: &CalcitItems,
    scope: &CalcitScope,
    file_ns: &str,
    prog: &mut Program,
    fuel: u64,
) -> (res: Result<Calcit, CalcitErr>)
    ensures
        ({
            let (p, r) = call_try_spec(
                cv_seq(nodes@),
                cv_scope(scope@),
                file_ns@,
                old(prog)@,
                fuel as nat,
            );
            final(prog)@ == p && res_view(res) == r
        }),
    decreases fuel, 2int,
{
    if fuel == 0 {
        return Err(depth_err2(&prog.stack));
    }
    if nodes.len() != 2 {
        return Err(CalcitErr::new(ErrKind::Arity, "try expected 2 arguments", &prog.stack));
    }
    let r = crate::runner::evaluate_expr(&nodes[0], scope, file_ns, prog, fuel - 1);
    match r {
        Ok(v) => Ok(v),
        Err(failure) => {
            let r2 = crate::runner::evaluate_expr(&nodes[1], scope, file_ns, prog, fuel - 1);
            match r2 {
                Err(e) => Err(e),
                Ok(handler) => match &handler {
                    Calcit::Fn(_, def_ns, _, def_scope, params, body) => {
                        let mut values: CalcitItems = Vec::new();
                        values.push(Calcit::Str(failure.msg));
                        proof {
                            assert(cv_seq(values@) =~= seq![cv(values@[0])]);
                        }
                        crate::runner::run_fn(
                            &values,
                            def_scope,
                            params,
                            body,
                            def_ns.as_str(),
                            prog,
                            fuel - 1,
                        )
                    },
                    Calcit::Proc(p) => {
                        let mut values: CalcitItems = Vec::new();
                        values.push(Calcit::Str(failure.msg));
                        proof {
                            assert(cv_seq(values@) =~= seq![cv(values@[0])]);
                        }
                        crate::builtins::handle_proc(p.as_str(), &values, prog)
                    },
                    _ => Err(
                        CalcitErr::new(
                            ErrKind::TypeMismatch,
                            "try expected a function handler",
                            &prog.stack,
                        ),
                    ),
                },
            }
        },
    }
}

/// Folds a list left to right with a two-argument function.
fn foldl_items(
    items: &CalcitItems,
    acc: Calcit,
    f: &Calcit,
    file_ns: &str,
    prog: &mut Program,
    fuel: u64,
) -> (res: Result<Calcit, CalcitErr>)
    ensures
        ({
            let (p, r) = foldl_items_spec(
                cv_seq(items@),
                cv(acc),
                cv(*f),
                file_ns@,
                old(prog)@,
                fuel as nat,
            );
            final(prog)@ == p && res_view(res) == r
        }),
    decreases fuel, 1int, items@.len(),
{
    if fuel == 0 {
        return Err(depth_err2(&prog.stack));
    }
    if items.len() == 0 {
        return Ok(acc);
    }
    let mut pair: CalcitItems = Vec::new();
    pair.push(acc);
    pair.push(items[0].clone());
    proof {
        assert(cv_seq(pair@) =~= seq![cv(pair@[0]), cv(pair@[1])]);
    }
    let r = match f {
        Calcit::Fn(_, def_ns, _, def_scope, params, body) => crate::runner::run_fn(
            &pair,
            def_scope,
            params,
            body,
            def_ns.as_str(),
            prog,
            fuel - 1,
        ),
        Calcit::Proc(p) => crate::builtins::handle_proc(p.as_str(), &pair, prog),
        _ => Err(CalcitErr::new(ErrKind::TypeMismatch, "foldl expected a function", &prog.stack)),
    };
    match r {
        Err(e) => Err(e),
        Ok(acc2) => {
            let tail = crate::util::skip(items, 1);
            proof {
                assert(cv_seq(tail@) == cv_seq(items@).skip(1));
            }
            foldl_items(&tail, acc2, f, file_ns, prog, fuel)
        },
    }
}

/// Folds an evaluated list from an explicit seed, left to right.
pub fn foldl(
    nodes: &CalcitItems,
    scope: &CalcitScope,
    file_ns: &str,
    prog: &mut Program,
    fuel: u64,
) -> (res: Result<Calcit, CalcitErr>)
    ensures
        ({
            let (p, r) = foldl_spec(
                cv_seq(nodes@),
                cv_scope(scope@),
                file_ns@,
                old(prog)@,
                fuel as nat,
            );
            final(prog)@ == p && res_view(res) == r
        }),
    decreases fuel, 2int,
{
    if fuel == 0 {
        return Err(depth_err2(&prog.stack));
    }
    if nodes.len() != 3 {
        return Err(CalcitErr::new(ErrKind::Arity, "foldl expected 3 arguments", &prog.stack));
    }
    let r1 = crate::runner::evaluate_expr(&nodes[0], scope, file_ns, prog, fuel - 1);
    match r1 {
        Err(e) => Err(e),
        Ok(xs_v) => {
            let r2 = crate::runner::evaluate_expr(&nodes[1], scope, file_ns, prog, fuel - 1);
            match r2 {
                Err(e) => Err(e),
                Ok(seed) => {
                    let r3 = crate::runner::evaluate_expr(&nodes[2], scope, file_ns, prog, fuel - 1);
                    match r3 {
                        Err(e) => Err(e),
                        Ok(f) => match &xs_v {
                            Calcit::List(items) => {
                                proof {
                                    assert(cv(xs_v) == Val::List(cv_seq(items@)));
                                }
                                foldl_items(items, seed, &f, file_ns, prog, fuel - 1)
                            },
                            _ => Err(
                                CalcitErr::new(ErrKind::TypeMismatch, "foldl expected a list", &prog.stack),
                            ),
                        },
                    }
                },
            }
        },
    }
}

/// Builds the name of a namespace-scoped reference cell.
fn atom_name(file_ns: &str, sym: &str) -> (res: String)
    ensures
        res@ == file_ns@ + "/"@ + sym@,
{
    let mut out = file_ns.to_owned();
    out.append("/");
    out.append(sym);
    out
}

/// Makes a reference cell on first sight and hands back its handle.
pub fn defatom(
    nodes: &CalcitItems,
    scope: &CalcitScope,
    file_ns: &str,
    prog: &mut Program,
    fuel: u64,
) -> (res: Result<Calcit, CalcitErr>)
    ensures
        ({
            let (p, r) = defatom_spec(
                cv_seq(nodes@),
                cv_scope(scope@),
                file_ns@,
                old(prog)@,
                fuel as nat,
            );
            final(prog)@ == p && res_view(res) == r
        }),
    decreases fuel, 2int,
{
    if fuel == 0 {
        return Err(depth_err2(&prog.stack));
    }
    if nodes.len() != 2 {
        return Err(CalcitErr::new(ErrKind::Arity, "defatom expected 2 nodes", &prog.stack));
    }
    proof {
        assert(cv_seq(nodes@)[0] == cv(nodes@[0]));
    }
    match &nodes[0] {
        Calcit::Symbol(s, _, _, _) => {
            let name = atom_name(file_ns, s.as_str());
            match crate::program::read_ref(prog, name.as_str()) {
                Some(_) => Ok(Calcit::Ref(name)),
                None => {
                    let r = crate::runner::evaluate_expr(&nodes[1], scope, file_ns, prog, fuel - 1);
                    match r {
                        Err(e) => Err(e),
                        Ok(v) => {
                            crate::program::write_ref(prog, name.as_str(), v);
                            Ok(Calcit::Ref(name))
                        },
                    }
                },
            }
        },
        _ => Err(CalcitErr::new(ErrKind::TypeMismatch, "defatom expected a symbol", &prog.stack)),
    }
}

/// Writes an existing reference cell and answers `Nil`.
pub fn reset(
    nodes: &CalcitItems,
    scope: &CalcitScope,
    file_ns: &str,
    prog: &mut Program,
    fuel: u64,
) -> (res: Result<Calcit, CalcitErr>)
    ensures
        ({
            let (p, r) = reset_spec(
                cv_seq(nodes@),
                cv_scope(scope@),
                file_ns@,
                old(prog)@,
                fuel as nat,
            );
            final(prog)@ == p && res_view(res) == r
        }),
    decreases fuel, 2int,
{
    if fuel == 0 {
        return Err(depth_err2(&prog.stack));
    }
    if nodes.len() != 2 {
        return Err(CalcitErr::new(ErrKind::Arity, "reset! expected 2 nodes", &prog.stack));
    }
    let r = crate::runner::evaluate_expr(&nodes[0], scope, file_ns, prog, fuel - 1);
    match r {
        Err(e) => Err(e),
        Ok(target) => match &target {
            Calcit::Ref(name) => match crate::program::read_ref(prog, name.as_str()) {
                Some(_) => {
                    let r2 = crate::runner::evaluate_expr(&nodes[1], scope, file_ns, prog, fuel - 1);
                    match r2 {
                        Err(e) => Err(e),
                        Ok(v) => {
                            crate::program::write_ref(prog, name.as_str(), v);
                            Ok(Calcit::Nil)
                        },
                    }
                },
                None => Err(
                    CalcitErr::new(ErrKind::UnknownSymbol, "no such reference", &prog.stack),
                ),
            },
            _ => Err(
                CalcitErr::new(ErrKind::TypeMismatch, "reset! expected a reference", &prog.stack),
            ),
        },
    }
}

/// Runs a special form by kind.
pub fn handle_syntax_kind(
    kind: &CalcitSyntax,
    nodes: &CalcitItems,
    scope: &CalcitScope,
    file_ns: &str,
    prog: &mut Program,
    fuel: u64,
) -> (res: Result<Calcit, CalcitErr>)
    ensures
        ({
            let (p, r) = handle_syntax_kind_spec(
                *kind,
                cv_seq(nodes@),
                cv_scope(scope@),
                file_ns@,
                old(prog)@,
                fuel as nat,
            );
            final(prog)@ == p && res_view(res) == r
        }),
    decreases fuel, 3int,
{
    if fuel == 0 {
        return Err(depth_err2(&prog.stack));
    }
    match kind {
        CalcitSyntax::Defn => defn(nodes, scope, file_ns, prog),
        CalcitSyntax::Defmacro => defmacro(nodes, scope, file_ns, prog),
        CalcitSyntax::Quote => quote(nodes, scope, file_ns, prog),
        CalcitSyntax::If => syntax_if(nodes, scope, file_ns, prog, fuel - 1),
        CalcitSyntax::Eval => eval(nodes, scope, file_ns, prog, fuel - 1),
        CalcitSyntax::CoreLet => syntax_let(nodes, scope, file_ns, prog, fuel - 1),
        CalcitSyntax::Quasiquote => quasiquote(nodes, scope, file_ns, prog, fuel - 1),
        CalcitSyntax::Macroexpand => macroexpand(nodes, scope, file_ns, prog, fuel - 1),
        CalcitSyntax::Macroexpand1 => macroexpand_1(nodes, scope, file_ns, prog, fuel - 1),
        CalcitSyntax::MacroexpandAll => macroexpand_all(nodes, scope, file_ns, prog, fuel - 1),
        CalcitSyntax::Try => call_try(nodes, scope, file_ns, prog, fuel - 1),
        CalcitSyntax::Foldl => foldl(nodes, scope, file_ns, prog, fuel - 1),
        CalcitSyntax::Defatom => defatom(nodes, scope, file_ns, prog, fuel - 1),
        CalcitSyntax::Reset => reset(nodes, scope, file_ns, prog, fuel - 1),
        CalcitSyntax::HintFn => Ok(Calcit::Nil),
    }
}

/// Runs a special form by its written name.
pub fn handle_syntax(
    name: &str,
    nodes: &CalcitItems,
    scope: &CalcitScope,
    file_ns: &str,
    prog: &mut Program,
    fuel: u64,
) -> (res: Result<Calcit, CalcitErr>)
    ensures
        ({
            match crate::builtins::syntax_kind_of(name@) {
                Some(kind) => {
                    let (p, r) = handle_syntax_kind_spec(
                        kind,
                        cv_seq(nodes@),
                        cv_scope(scope@),
                        file_ns@,
                        old(prog)@,
                        fuel as nat,
                    );
                    final(prog)@ == p && res_view(res) == r
                },
                None => final(prog)@ == old(prog)@ && (res matches Err(e) && e@.kind
                    == ErrKind::UnknownSymbol && e@.msg == "no such syntax"@ && e@.stack == old(
                    prog,
                )@.stack),
            }
        }),
{
    match crate::builtins::syntax_kind(name) {
        Some(kind) => handle_syntax_kind(&kind, nodes, scope, file_ns, prog, fuel),
        None => Err(CalcitErr::new(ErrKind::UnknownSymbol, "no such syntax", &prog.stack)),
    }
}

} // verus!
