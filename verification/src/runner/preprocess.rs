//! The resolver: walks each definition once, annotates every symbol with
//! what it refers to, expands macros at resolution time, rewrites keyword
//! calls, and checks call arities against parameter lists, warning on
//! mismatch.

use vstd::prelude::*;

use crate::call_stack::{CalcitStack, FrameV, StackKind};
use crate::primes::{
    cv, cv_seq, res_view, Calcit, CalcitErr, CalcitItems, CalcitSyntax, ErrKind, ErrV, ResolvedV,
    RuleV, Val,
};
use crate::program::{def_written, has_def, lookup_def, ProgV, Program, WarnKind, WarnV};
use crate::runner::{
    core_ns, depth_step, err_step, evaluate_expr_spec, frame_v, parse_ns_def_of, popped, pushed,
    ScopeV, StepV,
};

verus! {

broadcast use crate::primes::lemma_cv_seq_index, crate::primes::lemma_cv_seq_len,
    crate::primes::lemma_cv_pairs_index, crate::primes::lemma_cv_pairs_len,
    crate::primes::lemma_cv_scope_index, crate::primes::lemma_cv_scope_len,
    crate::primes::lemma_strs_view_index, crate::primes::lemma_strs_view_len;

/// A resolution step: the rewritten form and, when resolving evaluated it,
/// its value.
pub type FormStep = (ProgV, Result<(Val, Option<Val>), ErrV>);

/// Whether a name stands among the locals in scope.
pub open spec fn defs_has(scope_defs: Seq<Seq<char>>, name: Seq<char>) -> bool {
    exists|i: int| 0 <= i < scope_defs.len() && scope_defs[i] == name
}

/// Whether a name is one of the in-band markers `~`, `~@`, `&`, `?`.
pub open spec fn is_marker(s: Seq<char>) -> bool {
    s == "~"@ || s == "~@"@ || s == "&"@ || s == "?"@
}

/// Whether a form defines a function or a macro.
pub open spec fn is_fn_or_macro_v(code: Val) -> bool {
    match code {
        Val::List(xs) => xs.len() > 0 && match xs[0] {
            Val::Symbol(s, _, _, _) => s == "defn"@ || s == "defmacro"@,
            Val::Syntax(k, _) => k == CalcitSyntax::Defn || k == CalcitSyntax::Defmacro,
            _ => false,
        },
        _ => false,
    }
}

/// The definition a call's head was written in, for warnings.
pub open spec fn grab_def_name_v(x: Val) -> Seq<char> {
    match x {
        Val::Symbol(_, _, at_def, _) => at_def,
        _ => "??"@,
    }
}

/// A warning that a local binding shadows a builtin or core definition.
pub open spec fn check_symbol_spec(
    sym: Seq<char>,
    at_def: Seq<char>,
    file_ns: Seq<char>,
    prog: ProgV,
) -> ProgV {
    if crate::builtins::is_proc(sym) || crate::builtins::is_syntax(sym) || has_def(
        prog.code,
        core_ns(),
        sym,
    ) {
        ProgV {
            warnings: prog.warnings.push(
                WarnV { kind: WarnKind::ShadowedCoreName, sym, ns: file_ns, def: at_def },
            ),
            ..prog
        }
    } else {
        prog
    }
}

/// Comparing a direct call's arguments against the parameter list; a
/// mismatch is a warning, never an error, and dynamic markers end the
/// check.
pub open spec fn check_fn_args_spec(
    defined: Seq<Val>,
    given: Seq<Val>,
    file_ns: Seq<char>,
    f_name: Seq<char>,
    def_name: Seq<char>,
    prog: ProgV,
    optional: bool,
) -> ProgV
    decreases defined.len(),
{
    if defined.len() == 0 && given.len() == 0 {
        prog
    } else if given.len() > 0 && (given[0] matches Val::Symbol(s, _, _, _) && s == "&"@) {
        prog
    } else if defined.len() > 0 && (defined[0] matches Val::Symbol(s, _, _, _) && s == "&"@) {
        prog
    } else if defined.len() > 0 && (defined[0] matches Val::Symbol(s, _, _, _) && s == "?"@) {
        check_fn_args_spec(defined.skip(1), given, file_ns, f_name, def_name, prog, true)
    } else if defined.len() > 0 && given.len() == 0 {
        if optional {
            check_fn_args_spec(defined.skip(1), given, file_ns, f_name, def_name, prog, optional)
        } else {
            ProgV {
                warnings: prog.warnings.push(
                    WarnV {
                        kind: WarnKind::TooFewArgs,
                        sym: f_name,
                        ns: file_ns,
                        def: def_name,
                    },
                ),
                ..prog
            }
        }
    } else if defined.len() == 0 {
        ProgV {
            warnings: prog.warnings.push(
                WarnV { kind: WarnKind::TooManyArgs, sym: f_name, ns: file_ns, def: def_name },
            ),
            ..prog
        }
    } else {
        check_fn_args_spec(
            defined.skip(1),
            given.skip(1),
            file_ns,
            f_name,
            def_name,
            prog,
            optional,
        )
    }
}

/// Resolving one symbol that names a definition: an already evaluated
/// definition annotates at once; otherwise a provisional `Nil` is written
/// to break cycles, the code is resolved, functions and macros are
/// evaluated eagerly, and everything else is stored as a pending thunk.
pub open spec fn preprocess_ns_def_spec(
    ns: Seq<char>,
    def: Seq<char>,
    raw_sym: Seq<char>,
    prog: ProgV,
    fuel: nat,
) -> FormStep
    decreases fuel, 4int,
{
    if fuel == 0 {
        (prog, Err(ErrV { kind: ErrKind::StackDepth, msg: "evaluation depth budget ran out"@, stack: prog.stack }))
    } else {
        let less: nat = (fuel - 1) as nat;
        match lookup_def(prog.evaled, ns, def) {
            Some(v) => (
                prog,
                Ok(
                    (
                        Val::Symbol(raw_sym, ns, def, Some(ResolvedV::Def(ns, def, None))),
                        Some(v),
                    ),
                ),
            ),
            None => match lookup_def(prog.code, ns, def) {
                Some(code) => {
                    let p1 = ProgV { evaled: def_written(prog.evaled, ns, def, Val::Nil), ..prog };
                    let p2 = pushed(p1, frame_v(ns, def, StackKind::Fn, code, Seq::empty()));
                    let (p3, r) = preprocess_expr_spec(code, Seq::empty(), ns, p2, less);
                    match r {
                        Err(e) => (p3, Err(e)),
                        Ok((resolved_code, _)) => {
                            let (p4, rv) = if is_fn_or_macro_v(resolved_code) {
                                evaluate_expr_spec(resolved_code, Seq::empty(), ns, p3, less)
                            } else {
                                (p3, Ok(Val::Thunk(Box::new(resolved_code), None)))
                            };
                            match rv {
                                Err(e) => (p4, Err(e)),
                                Ok(v) => (
                                    popped(
                                        ProgV {
                                            evaled: def_written(p4.evaled, ns, def, v),
                                            ..p4
                                        },
                                    ),
                                    Ok(
                                        (
                                            Val::Symbol(
                                                raw_sym,
                                                ns,
                                                def,
                                                Some(
                                                    ResolvedV::Def(
                                                        ns,
                                                        def,
                                                        Some(RuleV::NsReferDef(ns, def)),
                                                    ),
                                                ),
                                            ),
                                            Some(v),
                                        ),
                                    ),
                                ),
                            }
                        },
                    }
                },
                None => if ns.len() > 0 && (ns[0] == '|' || ns[0] == '"') {
                    (
                        prog,
                        Ok(
                            (
                                Val::Symbol(raw_sym, ns, def, Some(ResolvedV::Def(ns, def, None))),
                                None,
                            ),
                        ),
                    )
                } else {
                    (
                        prog,
                        Err(
                            ErrV {
                                kind: ErrKind::UnknownSymbol,
                                msg: "unknown ns/def in program"@,
                                stack: prog.stack,
                            },
                        ),
                    )
                },
            },
        }
    }
}

/// Resolving one form: every symbol is annotated or rewritten, list forms
/// go through the call resolver, and literals stand for themselves.
pub open spec fn preprocess_expr_spec(
    expr: Val,
    scope_defs: Seq<Seq<char>>,
    file_ns: Seq<char>,
    prog: ProgV,
    fuel: nat,
) -> FormStep
    decreases fuel, 4int,
{
    if fuel == 0 {
        (prog, Err(ErrV { kind: ErrKind::StackDepth, msg: "evaluation depth budget ran out"@, stack: prog.stack }))
    } else {
        let less: nat = (fuel - 1) as nat;
        match expr {
            Val::Symbol(def, def_ns, at_def, _) => match parse_ns_def_of(def) {
                Some((ns_alias, def_part)) => {
                    match crate::program::ns_target_in_import(prog.imports, def_ns, ns_alias) {
                        Some(target_ns) => preprocess_ns_def_spec(target_ns, def_part, def, prog, less),
                        None => if has_def(prog.code, ns_alias, def_part) {
                            preprocess_ns_def_spec(ns_alias, def_part, def, prog, less)
                        } else {
                            (
                                prog,
                                Err(
                                    ErrV {
                                        kind: ErrKind::UnknownSymbol,
                                        msg: "unknown ns target"@,
                                        stack: prog.stack,
                                    },
                                ),
                            )
                        },
                    }
                },
                None => if is_marker(def) {
                    (
                        prog,
                        Ok((Val::Symbol(def, def_ns, at_def, Some(ResolvedV::Raw)), None)),
                    )
                } else if defs_has(scope_defs, def) {
                    (
                        prog,
                        Ok((Val::Symbol(def, def_ns, at_def, Some(ResolvedV::Local)), None)),
                    )
                } else if crate::builtins::syntax_kind_of(def) is Some {
                    (
                        prog,
                        Ok(
                            (
                                Val::Syntax(crate::builtins::syntax_kind_of(def).unwrap(), def_ns),
                                None,
                            ),
                        ),
                    )
                } else if crate::builtins::is_proc(def) {
                    (prog, Ok((Val::Proc(def), None)))
                } else if has_def(prog.code, core_ns(), def) {
                    preprocess_ns_def_spec(core_ns(), def, def, prog, less)
                } else if has_def(prog.code, def_ns, def) {
                    preprocess_ns_def_spec(def_ns, def, def, prog, less)
                } else {
                    match crate::program::def_target_in_import(prog.imports, def_ns, def) {
                        Some(target_ns) => preprocess_ns_def_spec(target_ns, def, def, prog, less),
                        None => if crate::runner::is_method_name(def) {
                            (prog, Ok((expr, None)))
                        } else {
                            match crate::program::default_target_in_import(
                                prog.imports,
                                prog.code,
                                def_ns,
                                def,
                            ) {
                                Some(target_ns) => (
                                    prog,
                                    Ok(
                                        (
                                            Val::Symbol(
                                                def,
                                                def_ns,
                                                at_def,
                                                Some(
                                                    ResolvedV::Def(
                                                        target_ns,
                                                        def,
                                                        Some(RuleV::NsDefault(target_ns)),
                                                    ),
                                                ),
                                            ),
                                            None,
                                        ),
                                    ),
                                ),
                                None => (
                                    ProgV {
                                        warnings: prog.warnings.push(
                                            WarnV {
                                                kind: WarnKind::UnknownSymbol,
                                                sym: def,
                                                ns: def_ns,
                                                def: at_def,
                                            },
                                        ),
                                        ..prog
                                    },
                                    Ok((expr, None)),
                                ),
                            }
                        },
                    }
                },
            },
            Val::List(xs) => if xs.len() == 0 {
                (prog, Ok((expr, None)))
            } else {
                process_list_call_spec(expr, xs, scope_defs, file_ns, prog, less)
            },
            Val::Number(_) => (prog, Ok((expr, Some(expr)))),
            Val::Str(_) => (prog, Ok((expr, Some(expr)))),
            Val::Nil => (prog, Ok((expr, Some(expr)))),
            Val::Bool(_) => (prog, Ok((expr, Some(expr)))),
            Val::Keyword(_) => (prog, Ok((expr, Some(expr)))),
            Val::Proc(_) => (prog, Ok((expr, Some(expr)))),
            _ => (
                ProgV {
                    warnings: prog.warnings.push(
                        WarnV {
                            kind: WarnKind::UnexpectedData,
                            sym: Seq::empty(),
                            ns: file_ns,
                            def: Seq::empty(),
                        },
                    ),
                    ..prog
                },
                Ok((expr, None)),
            ),
        }
    }
}

/// Resolving the items of a run one by one.
pub open spec fn preprocess_items_spec(
    items: Seq<Val>,
    scope_defs: Seq<Seq<char>>,
    file_ns: Seq<char>,
    prog: ProgV,
    fuel: nat,
) -> (ProgV, Result<Seq<Val>, ErrV>)
    decreases fuel, 3int, items.len(),
{
    if fuel == 0 {
        (prog, Err(ErrV { kind: ErrKind::StackDepth, msg: "evaluation depth budget ran out"@, stack: prog.stack }))
    } else {
        if items.len() == 0 {
            (prog, Ok(Seq::empty()))
        } else {
            let (p1, r) = preprocess_expr_spec(
                items[0],
                scope_defs,
                file_ns,
                prog,
                (fuel - 1) as nat,
            );
            match r {
                Err(e) => (p1, Err(e)),
                Ok((form, _)) => {
                    let (p2, r2) = preprocess_items_spec(
                        items.skip(1),
                        scope_defs,
                        file_ns,
                        p1,
                        fuel,
                    );
                    match r2 {
                        Err(e) => (p2, Err(e)),
                        Ok(rest) => (p2, Ok(seq![form] + rest)),
                    }
                },
            }
        }
    }
}

/// Resolving a list form by its resolved head: keyword calls are rewritten
/// to `get`, macros expand now and their output is resolved again, special
/// forms take their dedicated walks, and plain calls have each argument
/// resolved, with a call-arity check when the head names a function.
pub open spec fn process_list_call_spec(
    expr: Val,
    xs: Seq<Val>,
    scope_defs: Seq<Seq<char>>,
    file_ns: Seq<char>,
    prog: ProgV,
    fuel: nat,
) -> FormStep
    decreases fuel, 4int,
{
    if fuel == 0 {
        (prog, Err(ErrV { kind: ErrKind::StackDepth, msg: "evaluation depth budget ran out"@, stack: prog.stack }))
    } else {
        let less: nat = (fuel - 1) as nat;
        let (p1, r) = preprocess_expr_spec(xs[0], scope_defs, file_ns, prog, less);
        match r {
            Err(e) => (p1, Err(e)),
            Ok((head_form, head_evaled)) => {
                let args = xs.skip(1);
                let def_name = grab_def_name_v(xs[0]);
                if head_form is Keyword {
                    if args.len() == 1 {
                        let code = Val::List(
                            seq![
                                Val::Symbol("get"@, core_ns(), "generated-def"@, None),
                                args[0],
                                xs[0],
                            ],
                        );
                        preprocess_expr_spec(code, scope_defs, file_ns, p1, less)
                    } else {
                        (
                            p1,
                            Err(
                                ErrV {
                                    kind: ErrKind::Arity,
                                    msg: "keyword call expected 1 argument"@,
                                    stack: p1.stack,
                                },
                            ),
                        )
                    }
                } else if (head_form matches Val::Macro(_, _, _, _, _)) || (head_form is Symbol
                    && head_evaled matches Some(Val::Macro(_, _, _, _, _))) {
                    let m = if head_form is Macro {
                        head_form
                    } else {
                        head_evaled.unwrap()
                    };
                    match m {
                        Val::Macro(name, def_ns, _, params, body) => {
                            let p2 = pushed(
                                p1,
                                frame_v(def_ns, name, StackKind::Macro, expr, args),
                            );
                            let (p3, r3) = crate::runner::expand_macro_spec(
                                args,
                                params,
                                body,
                                def_ns,
                                p2,
                                less,
                            );
                            match r3 {
                                Err(e) => (p3, Err(e)),
                                Ok(code) => {
                                    let (p4, r4) = preprocess_expr_spec(
                                        code,
                                        scope_defs,
                                        file_ns,
                                        p3,
                                        less,
                                    );
                                    match r4 {
                                        Err(e) => (p4, Err(e)),
                                        Ok(out) => (popped(p4), Ok(out)),
                                    }
                                },
                            }
                        },
                        _ => (p1, Ok((head_form, None))),
                    }
                } else {
                    match head_form {
                        Val::Syntax(kind, name_ns) => {
                            if kind == CalcitSyntax::Quasiquote {
                                let (p2, r2) = preprocess_quasiquote_spec(
                                    kind,
                                    name_ns,
                                    args,
                                    scope_defs,
                                    file_ns,
                                    p1,
                                    less,
                                );
                                (p2, match r2 {
                                    Err(e) => Err(e),
                                    Ok(form) => Ok((form, None)),
                                })
                            } else if kind == CalcitSyntax::Defn || kind == CalcitSyntax::Defmacro {
                                let (p2, r2) = preprocess_defn_spec(
                                    kind,
                                    name_ns,
                                    args,
                                    scope_defs,
                                    file_ns,
                                    p1,
                                    less,
                                );
                                (p2, match r2 {
                                    Err(e) => Err(e),
                                    Ok(form) => Ok((form, None)),
                                })
                            } else if kind == CalcitSyntax::CoreLet {
                                let (p2, r2) = preprocess_call_let_spec(
                                    kind,
                                    name_ns,
                                    args,
                                    scope_defs,
                                    file_ns,
                                    p1,
                                    less,
                                );
                                (p2, match r2 {
                                    Err(e) => Err(e),
                                    Ok(form) => Ok((form, None)),
                                })
                            } else if kind == CalcitSyntax::Quote || kind == CalcitSyntax::Eval
                                || kind == CalcitSyntax::HintFn {
                                (
                                    p1,
                                    Ok(
                                        (
                                            Val::List(seq![Val::Syntax(kind, name_ns)] + args),
                                            None,
                                        ),
                                    ),
                                )
                            } else {
                                let (p2, r2) = preprocess_items_spec(
                                    args,
                                    scope_defs,
                                    file_ns,
                                    p1,
                                    less,
                                );
                                (p2, match r2 {
                                    Err(e) => Err(e),
                                    Ok(forms) => Ok(
                                        (
                                            Val::List(seq![Val::Syntax(kind, name_ns)] + forms),
                                            None,
                                        ),
                                    ),
                                })
                            }
                        },
                        Val::Thunk(_, _) => (
                            p1,
                            Err(
                                ErrV {
                                    kind: ErrKind::TypeMismatch,
                                    msg: "cannot preprocess a thunk"@,
                                    stack: p1.stack,
                                },
                            ),
                        ),
                        _ => {
                            let p2 = match head_evaled {
                                Some(Val::Fn(f_name, _, _, _, f_params, _)) => check_fn_args_spec(
                                    f_params,
                                    args,
                                    file_ns,
                                    f_name,
                                    def_name,
                                    p1,
                                    false,
                                ),
                                _ => p1,
                            };
                            let (p3, r3) = preprocess_items_spec(
                                args,
                                scope_defs,
                                file_ns,
                                p2,
                                less,
                            );
                            (p3, match r3 {
                                Err(e) => Err(e),
                                Ok(forms) => Ok((Val::List(seq![head_form] + forms), None)),
                            })
                        },
                    }
                }
            },
        }
    }
}

/// Rebuilding a parameter list with every name marked raw, collecting the
/// names that enter the body's scope; the markers `&` and `?` do not.
pub open spec fn defn_params_of(ys: Seq<Val>) -> Result<(Seq<Val>, Seq<Seq<char>>), ()>
    decreases ys.len(),
{
    if ys.len() == 0 {
        Ok((Seq::empty(), Seq::empty()))
    } else {
        match defn_params_of(ys.drop_last()) {
            Err(e) => Err(e),
            Ok((rebuilt, names)) => match ys.last() {
                Val::Symbol(sym, sns, sat, _) => Ok(
                    (
                        rebuilt.push(Val::Symbol(sym, sns, sat, Some(ResolvedV::Raw))),
                        if sym == "&"@ || sym == "?"@ {
                            names
                        } else {
                            names.push(sym)
                        },
                    ),
                ),
                _ => Err(()),
            },
        }
    }
}

/// Warnings for every parameter that shadows a core name.
pub open spec fn check_params_spec(
    ys: Seq<Val>,
    at_def: Seq<char>,
    file_ns: Seq<char>,
    prog: ProgV,
) -> ProgV
    decreases ys.len(),
{
    if ys.len() == 0 {
        prog
    } else {
        let p1 = check_params_spec(ys.drop_last(), at_def, file_ns, prog);
        match ys.last() {
            Val::Symbol(sym, _, _, _) => check_symbol_spec(sym, at_def, file_ns, p1),
            _ => p1,
        }
    }
}

/// Resolving `defn` and `defmacro`: the defined name and the parameters
/// are marked raw, the parameters join the scope seen by the body, and the
/// body is resolved under it.
pub open spec fn preprocess_defn_spec(
    kind: CalcitSyntax,
    head_ns: Seq<char>,
    args: Seq<Val>,
    scope_defs: Seq<Seq<char>>,
    file_ns: Seq<char>,
    prog: ProgV,
    fuel: nat,
) -> (ProgV, Result<Val, ErrV>)
    decreases fuel, 3int,
{
    if fuel == 0 {
        (prog, Err(ErrV { kind: ErrKind::StackDepth, msg: "evaluation depth budget ran out"@, stack: prog.stack }))
    } else {
        let less: nat = (fuel - 1) as nat;
        if args.len() >= 2 && (args[0] matches Val::Symbol(_, _, _, _)) && (args[1] matches Val::List(
            _,
        )) {
            match (args[0], args[1]) {
                (Val::Symbol(def_name, dns, dat, _), Val::List(ys)) => {
                    match defn_params_of(ys) {
                        Err(_) => (
                            prog,
                            Err(
                                ErrV {
                                    kind: ErrKind::TypeMismatch,
                                    msg: "expected defn params to be symbols"@,
                                    stack: prog.stack,
                                },
                            ),
                        ),
                        Ok((rebuilt, names)) => {
                            let p1 = check_params_spec(ys, dat, file_ns, prog);
                            let body_defs = scope_defs + names;
                            let (p2, r2) = preprocess_items_spec(
                                args.skip(2),
                                body_defs,
                                file_ns,
                                p1,
                                less,
                            );
                            match r2 {
                                Err(e) => (p2, Err(e)),
                                Ok(body) => (
                                    p2,
                                    Ok(
                                        Val::List(
                                            seq![
                                                Val::Syntax(kind, head_ns),
                                                Val::Symbol(
                                                    def_name,
                                                    dns,
                                                    dat,
                                                    Some(ResolvedV::Raw),
                                                ),
                                                Val::List(rebuilt),
                                            ] + body,
                                        ),
                                    ),
                                ),
                            }
                        },
                    }
                },
                _ => (
                    prog,
                    Err(
                        ErrV {
                            kind: ErrKind::TypeMismatch,
                            msg: "defn expected a name and params"@,
                            stack: prog.stack,
                        },
                    ),
                ),
            }
        } else {
            (
                prog,
                Err(
                    ErrV {
                        kind: ErrKind::TypeMismatch,
                        msg: "defn expected a name and params"@,
                        stack: prog.stack,
                    },
                ),
            )
        }
    }
}

/// Resolving `&let`: the one binding extends the scope seen by the bound
/// expression and by the body.
pub open spec fn preprocess_call_let_spec(
    kind: CalcitSyntax,
    head_ns: Seq<char>,
    args: Seq<Val>,
    scope_defs: Seq<Seq<char>>,
    file_ns: Seq<char>,
    prog: ProgV,
    fuel: nat,
) -> (ProgV, Result<Val, ErrV>)
    decreases fuel, 3int,
{
    if fuel == 0 {
        (prog, Err(ErrV { kind: ErrKind::StackDepth, msg: "evaluation depth budget ran out"@, stack: prog.stack }))
    } else {
        let less: nat = (fuel - 1) as nat;
        if args.len() == 0 {
            (
                prog,
                Err(
                    ErrV {
                        kind: ErrKind::Arity,
                        msg: "&let expected a binding pair"@,
                        stack: prog.stack,
                    },
                ),
            )
        } else {
            match args[0] {
                Val::Nil => {
                    let (p1, r1) = preprocess_items_spec(
                        args.skip(1),
                        scope_defs,
                        file_ns,
                        prog,
                        less,
                    );
                    match r1 {
                        Err(e) => (p1, Err(e)),
                        Ok(body) => (
                            p1,
                            Ok(
                                Val::List(
                                    seq![Val::Syntax(kind, head_ns), Val::Nil] + body,
                                ),
                            ),
                        ),
                    }
                },
                Val::List(ys) => if ys.len() == 2 {
                    match ys[0] {
                        Val::Symbol(sym, _, sat, _) => {
                            let p1 = check_symbol_spec(sym, sat, file_ns, prog);
                            let body_defs = scope_defs.push(sym);
                            let (p2, r2) = preprocess_expr_spec(
                                ys[1],
                                body_defs,
                                file_ns,
                                p1,
                                less,
                            );
                            match r2 {
                                Err(e) => (p2, Err(e)),
                                Ok((form, _)) => {
                                    let binding = Val::List(seq![ys[0], form]);
                                    let (p3, r3) = preprocess_items_spec(
                                        args.skip(1),
                                        body_defs,
                                        file_ns,
                                        p2,
                                        less,
                                    );
                                    match r3 {
                                        Err(e) => (p3, Err(e)),
                                        Ok(body) => (
                                            p3,
                                            Ok(
                                                Val::List(
                                                    seq![Val::Syntax(kind, head_ns), binding]
                                                        + body,
                                                ),
                                            ),
                                        ),
                                    }
                                },
                            }
                        },
                        _ => (
                            prog,
                            Err(
                                ErrV {
                                    kind: ErrKind::TypeMismatch,
                                    msg: "invalid pair for &let binding"@,
                                    stack: prog.stack,
                                },
                            ),
                        ),
                    }
                } else {
                    (
                        prog,
                        Err(
                            ErrV {
                                kind: ErrKind::Arity,
                                msg: "expected binding of a pair"@,
                                stack: prog.stack,
                            },
                        ),
                    )
                },
                _ => (
                    prog,
                    Err(
                        ErrV {
                            kind: ErrKind::TypeMismatch,
                            msg: "expected binding of a pair"@,
                            stack: prog.stack,
                        },
                    ),
                ),
            }
        }
    }
}

/// Resolving inside a quasiquote: only the bodies of `~` and `~@` forms
/// are resolved; everything else stands as written.
pub open spec fn preprocess_quasiquote_internal_spec(
    x: Val,
    scope_defs: Seq<Seq<char>>,
    file_ns: Seq<char>,
    prog: ProgV,
    fuel: nat,
) -> (ProgV, Result<Val, ErrV>)
    decreases fuel, 3int, 0int,
{
    if fuel == 0 {
        (prog, Err(ErrV { kind: ErrKind::StackDepth, msg: "evaluation depth budget ran out"@, stack: prog.stack }))
    } else {
        let less: nat = (fuel - 1) as nat;
        match x {
            Val::List(ys) => if ys.len() == 0 {
                (prog, Ok(x))
            } else if ys[0] matches Val::Symbol(s, _, _, _) && (s == "~"@ || s == "~@"@) {
                let (p1, r1) = preprocess_items_spec(ys, scope_defs, file_ns, prog, less);
                match r1 {
                    Err(e) => (p1, Err(e)),
                    Ok(forms) => (p1, Ok(Val::List(forms))),
                }
            } else {
                let (p1, r1) = quasiquote_items_spec(ys, scope_defs, file_ns, prog, fuel);
                match r1 {
                    Err(e) => (p1, Err(e)),
                    Ok(forms) => (p1, Ok(Val::List(forms))),
                }
            },
            _ => (prog, Ok(x)),
        }
    }
}

/// Resolving each child of a quasiquoted list.
pub open spec fn quasiquote_items_spec(
    ys: Seq<Val>,
    scope_defs: Seq<Seq<char>>,
    file_ns: Seq<char>,
    prog: ProgV,
    fuel: nat,
) -> (ProgV, Result<Seq<Val>, ErrV>)
    decreases fuel, 2int, ys.len(),
{
    if fuel == 0 {
        (prog, Err(ErrV { kind: ErrKind::StackDepth, msg: "evaluation depth budget ran out"@, stack: prog.stack }))
    } else {
        if ys.len() == 0 {
            (prog, Ok(Seq::empty()))
        } else {
            let (p1, r1) = preprocess_quasiquote_internal_spec(
                ys[0],
                scope_defs,
                file_ns,
                prog,
                (fuel - 1) as nat,
            );
            match r1 {
                Err(e) => (p1, Err(e)),
                Ok(form) => {
                    let (p2, r2) = quasiquote_items_spec(ys.skip(1), scope_defs, file_ns, p1, fuel);
                    match r2 {
                        Err(e) => (p2, Err(e)),
                        Ok(rest) => (p2, Ok(seq![form] + rest)),
                    }
                },
            }
        }
    }
}

/// Resolving `quasiquote`: each argument through the quasiquote walk.
pub open spec fn preprocess_quasiquote_spec(
    kind: CalcitSyntax,
    head_ns: Seq<char>,
    args: Seq<Val>,
    scope_defs: Seq<Seq<char>>,
    file_ns: Seq<char>,
    prog: ProgV,
    fuel: nat,
) -> (ProgV, Result<Val, ErrV>)
    decreases fuel, 3int, 1int,
{
    if fuel == 0 {
        (prog, Err(ErrV { kind: ErrKind::StackDepth, msg: "evaluation depth budget ran out"@, stack: prog.stack }))
    } else {
        let (p1, r1) = quasiquote_items_spec(args, scope_defs, file_ns, prog, (fuel - 1) as nat);
        match r1 {
            Err(e) => (p1, Err(e)),
            Ok(forms) => (p1, Ok(Val::List(seq![Val::Syntax(kind, head_ns)] + forms))),
        }
    }
}

/// The failure that stands for an exhausted depth budget.
fn depth_err3(stack: &Vec<CalcitStack>) -> (res: CalcitErr)
    ensures
        res@ == (ErrV {
            kind: ErrKind::StackDepth,
            msg: "evaluation depth budget ran out"@,
            stack: crate::call_stack::stack_view(stack@),
        }),
{
    CalcitErr::new(ErrKind::StackDepth, "evaluation depth budget ran out", stack)
}

/// Whether a name stands among the locals in scope.
fn defs_contains(scope_defs: &Vec<String>, name: &str) -> (res: bool)
    ensures
        res == defs_has(crate::primes::strs_view(scope_defs@), name@),
{
    let ghost dv = crate::primes::strs_view(scope_defs@);
    let mut i: usize = 0;
    #[verifier::loop_isolation(false)]
    while i < scope_defs.len()
        invariant
            i <= scope_defs@.len(),
            forall|k: int| 0 <= k < i ==> #[trigger] dv[k] != name@,
        decreases scope_defs@.len() - i,
    {
        if crate::util::str_eq(scope_defs[i].as_str(), name) {
            proof {
                assert(dv[i as int] == name@);
            }
            return true;
        }
        i = i + 1;
    }
    proof {
        if defs_has(dv, name@) {
            let w = choose|k: int| 0 <= k < dv.len() && dv[k] == name@;
            assert(dv[w] != name@);
        }
    }
    false
}

/// Whether a form defines a function or a macro.
pub fn is_fn_or_macro(code: &Calcit) -> (res: bool)
    ensures
        res == is_fn_or_macro_v(cv(*code)),
{
    match code {
        Calcit::List(xs) => {
            proof {
                assert(cv(*code) == Val::List(cv_seq(xs@)));
            }
            if xs.len() == 0 {
                return false;
            }
            proof {
                assert(cv_seq(xs@)[0] == cv(xs@[0]));
            }
            match &xs[0] {
                Calcit::Symbol(s, _, _, _) => crate::util::str_eq(s.as_str(), "defn")
                    || crate::util::str_eq(s.as_str(), "defmacro"),
                Calcit::Syntax(k, _) => *k == CalcitSyntax::Defn || *k == CalcitSyntax::Defmacro,
                _ => false,
            }
        },
        _ => false,
    }
}

/// The definition a call's head was written in, for warnings.
pub fn grab_def_name(x: &Calcit) -> (res: String)
    ensures
        res@ == grab_def_name_v(cv(*x)),
{
    match x {
        Calcit::Symbol(_, _, at_def, _) => at_def.clone(),
        _ => {
            let out = String::from_str("??");
            out
        },
    }
}

/// Warns when a local binding shadows a builtin or core definition.
pub fn check_symbol(sym: &str, at_def: &str, file_ns: &str, prog: &mut Program)
    ensures
        final(prog)@ == check_symbol_spec(sym@, at_def@, file_ns@, old(prog)@),
{
    if crate::builtins::is_proc_name(sym) || crate::builtins::is_syntax_name(sym)
        || crate::program::has_def_code(prog, "calcit.core", sym) {
        crate::program::push_warning(prog, WarnKind::ShadowedCoreName, sym, file_ns, at_def);
    }
}

/// Compares a direct call's arguments against the parameter list, warning
/// on mismatch; dynamic markers end the check.
pub fn check_fn_args(
    defined: &CalcitItems,
    given: &CalcitItems,
    file_ns: &str,
    f_name: &str,
    def_name: &str,
    prog: &mut Program,
    optional: bool,
)
    ensures
        final(prog)@ == check_fn_args_spec(
            cv_seq(defined@),
            cv_seq(given@),
            file_ns@,
            f_name@,
            def_name@,
            old(prog)@,
            optional,
        ),
    decreases defined@.len(),
{
    if defined.len() == 0 && given.len() == 0 {
        return ;
    }
    if given.len() > 0 {
        proof {
            assert(cv_seq(given@)[0] == cv(given@[0]));
        }
        let amp = match &given[0] {
            Calcit::Symbol(s, _, _, _) => crate::util::str_eq(s.as_str(), "&"),
            _ => false,
        };
        if amp {
            return ;
        }
    }
    if defined.len() > 0 {
        proof {
            assert(cv_seq(defined@)[0] == cv(defined@[0]));
        }
        let marker: u8 = match &defined[0] {
            Calcit::Symbol(s, _, _, _) => {
                if crate::util::str_eq(s.as_str(), "&") {
                    1
                } else if crate::util::str_eq(s.as_str(), "?") {
                    2
                } else {
                    0
                }
            },
            _ => 0,
        };
        if marker == 1 {
            return ;
        }
        if marker == 2 {
            let d_tail = crate::util::skip(defined, 1);
            proof {
                assert(cv_seq(d_tail@) == cv_seq(defined@).skip(1));
            }
            check_fn_args(&d_tail, given, file_ns, f_name, def_name, prog, true);
            return ;
        }
        if given.len() == 0 {
            if optional {
                let d_tail = crate::util::skip(defined, 1);
                proof {
                    assert(cv_seq(d_tail@) == cv_seq(defined@).skip(1));
                }
                check_fn_args(&d_tail, given, file_ns, f_name, def_name, prog, optional);
                return ;
            } else {
                crate::program::push_warning(prog, WarnKind::TooFewArgs, f_name, file_ns, def_name);
                return ;
            }
        }
        let d_tail = crate::util::skip(defined, 1);
        let g_tail = crate::util::skip(given, 1);
        proof {
            assert(cv_seq(d_tail@) == cv_seq(defined@).skip(1));
            assert(cv_seq(g_tail@) == cv_seq(given@).skip(1));
        }
        check_fn_args(&d_tail, &g_tail, file_ns, f_name, def_name, prog, optional);
        return ;
    }
    crate::program::push_warning(prog, WarnKind::TooManyArgs, f_name, file_ns, def_name);
}

/// Resolves one symbol that names a definition; see
/// [`preprocess_ns_def_spec`].
pub fn preprocess_ns_def(
    ns: &str,
    def: &str,
    raw_sym: &str,
    prog: &mut Program,
    fuel: u64,
) -> (res: Result<(Calcit, Option<Calcit>), CalcitErr>)
    ensures
        ({
            let (p, r) = preprocess_ns_def_spec(ns@, def@, raw_sym@, old(prog)@, fuel as nat);
            final(prog)@ == p && match res {
                Ok(out) => r == Ok::<(Val, Option<Val>), ErrV>(
                    (
                        cv(out.0),
                        match out.1 {
                            Some(v) => Some(cv(v)),
                            None => None,
                        },
                    ),
                ),
                Err(e) => r == Err::<(Val, Option<Val>), ErrV>(e@),
            }
        }),
    decreases fuel, 4int,
{
    if fuel == 0 {
        return Err(depth_err3(&prog.stack));
    }
    match crate::program::lookup_evaled_def(prog, ns, def) {
        Some(v) => {
            let sym = Calcit::Symbol(
                raw_sym.to_owned(),
                ns.to_owned(),
                def.to_owned(),
                Some(
                    crate::primes::SymbolResolved::ResolvedDef {
                        ns: ns.to_owned(),
                        def: def.to_owned(),
                        rule: None,
                    },
                ),
            );
            Ok((sym, Some(v)))
        },
        None => match crate::program::lookup_def_code(prog, ns, def) {
            Some(code) => {
                crate::program::write_evaled_def(prog, ns, def, Calcit::Nil);
                crate::call_stack::push_call_stack(
                    &mut prog.stack,
                    ns,
                    def,
                    StackKind::Fn,
                    code.clone(),
                    &Vec::new(),
                );
                proof {
                    assert(cv_seq(Seq::<Calcit>::empty()) =~= Seq::<Val>::empty());
                }
                let empty_defs: Vec<String> = Vec::new();
                proof {
                    assert(crate::primes::strs_view(empty_defs@) =~= Seq::<Seq<char>>::empty());
                }
                let r = preprocess_expr(&code, &empty_defs, ns, prog, fuel - 1);
                match r {
                    Err(e) => Err(e),
                    Ok((resolved_code, _)) => {
                        let rv = if is_fn_or_macro(&resolved_code) {
                            let empty_scope: crate::primes::CalcitScope = Vec::new();
                            proof {
                                assert(crate::primes::cv_scope(empty_scope@) =~= Seq::<
                                    (Seq<char>, Val),
                                >::empty());
                            }
                            crate::runner::evaluate_expr(
                                &resolved_code,
                                &empty_scope,
                                ns,
                                prog,
                                fuel - 1,
                            )
                        } else {
                            Ok(Calcit::Thunk(Box::new(resolved_code), None))
                        };
                        match rv {
                            Err(e) => Err(e),
                            Ok(v) => {
                                crate::program::write_evaled_def(prog, ns, def, v.clone());
                                crate::call_stack::pop_call_stack(&mut prog.stack);
                                let sym = Calcit::Symbol(
                                    raw_sym.to_owned(),
                                    ns.to_owned(),
                                    def.to_owned(),
                                    Some(
                                        crate::primes::SymbolResolved::ResolvedDef {
                                            ns: ns.to_owned(),
                                            def: def.to_owned(),
                                            rule: Some(
                                                crate::primes::ImportRule::NsReferDef(
                                                    ns.to_owned(),
                                                    def.to_owned(),
                                                ),
                                            ),
                                        },
                                    ),
                                );
                                Ok((sym, Some(v)))
                            },
                        }
                    },
                }
            },
            None => {
                let stringish = if ns.unicode_len() > 0 {
                    let c = ns.get_char(0);
                    c == '|' || c == '"'
                } else {
                    false
                };
                if stringish {
                    let sym = Calcit::Symbol(
                        raw_sym.to_owned(),
                        ns.to_owned(),
                        def.to_owned(),
                        Some(
                            crate::primes::SymbolResolved::ResolvedDef {
                                ns: ns.to_owned(),
                                def: def.to_owned(),
                                rule: None,
                            },
                        ),
                    );
                    Ok((sym, None))
                } else {
                    Err(
                        CalcitErr::new(
                            ErrKind::UnknownSymbol,
                            "unknown ns/def in program",
                            &prog.stack,
                        ),
                    )
                }
            },
        },
    }
}

/// Resolves one form; see [`preprocess_expr_spec`].
pub fn preprocess_expr(
    expr: &Calcit,
    scope_defs: &Vec<String>,
    file_ns: &str,
    prog: &mut Program,
    fuel: u64,
) -> (res: Result<(Calcit, Option<Calcit>), CalcitErr>)
    ensures
        ({
            let (p, r) = preprocess_expr_spec(
                cv(*expr),
                crate::primes::strs_view(scope_defs@),
                file_ns@,
                old(prog)@,
                fuel as nat,
            );
            final(prog)@ == p && match res {
                Ok(out) => r == Ok::<(Val, Option<Val>), ErrV>(
                    (
                        cv(out.0),
                        match out.1 {
                            Some(v) => Some(cv(v)),
                            None => None,
                        },
                    ),
                ),
                Err(e) => r == Err::<(Val, Option<Val>), ErrV>(e@),
            }
        }),
    decreases fuel, 4int,
{
    if fuel == 0 {
        return Err(depth_err3(&prog.stack));
    }
    match expr {
        Calcit::Symbol(def, def_ns, at_def, _) => {
            match crate::runner::parse_ns_def(def.as_str()) {
                Some((ns_alias, def_part)) => {
                    match crate::program::lookup_ns_target_in_import(
                        prog,
                        def_ns.as_str(),
                        ns_alias.as_str(),
                    ) {
                        Some(target_ns) => preprocess_ns_def(
                            target_ns.as_str(),
                            def_part.as_str(),
                            def.as_str(),
                            prog,
                            fuel - 1,
                        ),
                        None => {
                            if crate::program::has_def_code(
                                prog,
                                ns_alias.as_str(),
                                def_part.as_str(),
                            ) {
                                preprocess_ns_def(
                                    ns_alias.as_str(),
                                    def_part.as_str(),
                                    def.as_str(),
                                    prog,
                                    fuel - 1,
                                )
                            } else {
                                Err(
                                    CalcitErr::new(
                                        ErrKind::UnknownSymbol,
                                        "unknown ns target",
                                        &prog.stack,
                                    ),
                                )
                            }
                        },
                    }
                },
                None => {
                    let marker = crate::util::str_eq(def.as_str(), "~") || crate::util::str_eq(
                        def.as_str(),
                        "~@",
                    ) || crate::util::str_eq(def.as_str(), "&") || crate::util::str_eq(
                        def.as_str(),
                        "?",
                    );
                    if marker {
                        return Ok(
                            (
                                Calcit::Symbol(
                                    def.clone(),
                                    def_ns.clone(),
                                    at_def.clone(),
                                    Some(crate::primes::SymbolResolved::ResolvedRaw),
                                ),
                                None,
                            ),
                        );
                    }
                    if defs_contains(scope_defs, def.as_str()) {
                        return Ok(
                            (
                                Calcit::Symbol(
                                    def.clone(),
                                    def_ns.clone(),
                                    at_def.clone(),
                                    Some(crate::primes::SymbolResolved::ResolvedLocal),
                                ),
                                None,
                            ),
                        );
                    }
                    match crate::builtins::syntax_kind(def.as_str()) {
                        Some(kind) => {
                            return Ok((Calcit::Syntax(kind, def_ns.clone()), None));
                        },
                        None => {},
                    }
                    if crate::builtins::is_proc_name(def.as_str()) {
                        return Ok((Calcit::Proc(def.clone()), None));
                    }
                    if crate::program::has_def_code(prog, "calcit.core", def.as_str()) {
                        return preprocess_ns_def(
                            "calcit.core",
                            def.as_str(),
                            def.as_str(),
                            prog,
                            fuel - 1,
                        );
                    }
                    if crate::program::has_def_code(prog, def_ns.as_str(), def.as_str()) {
                        return preprocess_ns_def(
                            def_ns.as_str(),
                            def.as_str(),
                            def.as_str(),
                            prog,
                            fuel - 1,
                        );
                    }
                    match crate::program::lookup_def_target_in_import(
                        prog,
                        def_ns.as_str(),
                        def.as_str(),
                    ) {
                        Some(target_ns) => {
                            return preprocess_ns_def(
                                target_ns.as_str(),
                                def.as_str(),
                                def.as_str(),
                                prog,
                                fuel - 1,
                            );
                        },
                        None => {},
                    }
                    let method = def.as_str().unicode_len() > 0 && def.as_str().get_char(0) == '.';
                    if method {
                        return Ok((expr.clone(), None));
                    }
                    match crate::program::lookup_default_target_in_import(
                        prog,
                        def_ns.as_str(),
                        def.as_str(),
                    ) {
                        Some(target_ns) => {
                            let sym = Calcit::Symbol(
                                def.clone(),
                                def_ns.clone(),
                                at_def.clone(),
                                Some(
                                    crate::primes::SymbolResolved::ResolvedDef {
                                        ns: target_ns.clone(),
                                        def: def.clone(),
                                        rule: Some(crate::primes::ImportRule::NsDefault(target_ns)),
                                    },
                                ),
                            );
                            Ok((sym, None))
                        },
                        None => {
                            crate::program::push_warning(
                                prog,
                                WarnKind::UnknownSymbol,
                                def.as_str(),
                                def_ns.as_str(),
                                at_def.as_str(),
                            );
                            Ok((expr.clone(), None))
                        },
                    }
                },
            }
        },
        Calcit::List(xs) => {
            proof {
                assert(cv(*expr) == Val::List(cv_seq(xs@)));
            }
            if xs.len() == 0 {
                Ok((expr.clone(), None))
            } else {
                process_list_call(expr, xs, scope_defs, file_ns, prog, fuel - 1)
            }
        },
        Calcit::Number(_) => Ok((expr.clone(), Some(expr.clone()))),
        Calcit::Str(_) => Ok((expr.clone(), Some(expr.clone()))),
        Calcit::Nil => Ok((expr.clone(), Some(expr.clone()))),
        Calcit::Bool(_) => Ok((expr.clone(), Some(expr.clone()))),
        Calcit::Keyword(_) => Ok((expr.clone(), Some(expr.clone()))),
        Calcit::Proc(_) => Ok((expr.clone(), Some(expr.clone()))),
        _ => {
            let empty = String::new();
            crate::program::push_warning(
                prog,
                WarnKind::UnexpectedData,
                empty.as_str(),
                file_ns,
                empty.as_str(),
            );
            Ok((expr.clone(), None))
        },
    }
}

/// Resolves the items of a run one by one.
pub fn preprocess_each_items(
    items: &CalcitItems,
    scope_defs: &Vec<String>,
    file_ns: &str,
    prog: &mut Program,
    fuel: u64,
) -> (res: Result<CalcitItems, CalcitErr>)
    ensures
        ({
            let (p, r) = preprocess_items_spec(
                cv_seq(items@),
                crate::primes::strs_view(scope_defs@),
                file_ns@,
                old(prog)@,
                fuel as nat,
            );
            final(prog)@ == p && match res {
                Ok(forms) => r == Ok::<Seq<Val>, ErrV>(cv_seq(forms@)),
                Err(e) => r == Err::<Seq<Val>, ErrV>(e@),
            }
        }),
    decreases fuel, 3int, items@.len(),
{
    if fuel == 0 {
        return Err(depth_err3(&prog.stack));
    }
    if items.len() == 0 {
        let out: CalcitItems = Vec::new();
        proof {
            assert(cv_seq(out@) =~= Seq::<Val>::empty());
        }
        return Ok(out);
    }
    let r = preprocess_expr(&items[0], scope_defs, file_ns, prog, fuel - 1);
    match r {
        Err(e) => Err(e),
        Ok((form, _)) => {
            let tail = crate::util::skip(items, 1);
            proof {
                assert(cv_seq(tail@) == cv_seq(items@).skip(1));
            }
            let r2 = preprocess_each_items(&tail, scope_defs, file_ns, prog, fuel);
            match r2 {
                Err(e) => Err(e),
                Ok(rest) => {
                    let mut front: CalcitItems = Vec::new();
                    front.push(form);
                    proof {
                        assert(cv_seq(front@) =~= seq![cv(front@[0])]);
                    }
                    Ok(crate::runner::join_items(front, rest))
                },
            }
        },
    }
}

/// Resolves a list form by its resolved head; see
/// [`process_list_call_spec`].
#[verifier::rlimit(100)]
fn process_list_call(
    expr: &Calcit,
    xs: &CalcitItems,
    scope_defs: &Vec<String>,
    file_ns: &str,
    prog: &mut Program,
    fuel: u64,
) -> (res: Result<(Calcit, Option<Calcit>), CalcitErr>)
    requires
        xs@.len() > 0,
    ensures
        ({
            let (p, r) = process_list_call_spec(
                cv(*expr),
                cv_seq(xs@),
                crate::primes::strs_view(scope_defs@),
                file_ns@,
                old(prog)@,
                fuel as nat,
            );
            final(prog)@ == p && match res {
                Ok(out) => r == Ok::<(Val, Option<Val>), ErrV>(
                    (
                        cv(out.0),
                        match out.1 {
                            Some(v) => Some(cv(v)),
                            None => None,
                        },
                    ),
                ),
                Err(e) => r == Err::<(Val, Option<Val>), ErrV>(e@),
            }
        }),
    decreases fuel, 4int,
{
    if fuel == 0 {
        return Err(depth_err3(&prog.stack));
    }
    let r = preprocess_expr(&xs[0], scope_defs, file_ns, prog, fuel - 1);
    match r {
        Err(e) => Err(e),
        Ok((head_form, head_evaled)) => {
            let args = crate::util::skip(xs, 1);
            proof {
                assert(cv_seq(args@) == cv_seq(xs@).skip(1));
            }
            let def_name = grab_def_name(&xs[0]);
            if matches!(&head_form, Calcit::Keyword(_)) {
                if args.len() == 1 {
                    let mut code_items: CalcitItems = Vec::new();
                    code_items.push(
                        Calcit::Symbol(
                            String::from_str("get"),
                            String::from_str("calcit.core"),
                            String::from_str("generated-def"),
                            None,
                        ),
                    );
                    code_items.push(args[0].clone());
                    code_items.push(xs[0].clone());
                    let code = Calcit::List(code_items);
                    proof {
                        assert(cv(code_items@[0]) == Val::Symbol(
                            "get"@,
                            crate::runner::core_ns(),
                            "generated-def"@,
                            None,
                        ));
                        assert(cv(code_items@[1]) == cv_seq(xs@).skip(1)[0]);
                        assert(cv(code_items@[2]) == cv_seq(xs@)[0]);
                        let target = seq![
                            Val::Symbol("get"@, crate::runner::core_ns(), "generated-def"@, None),
                            cv_seq(xs@).skip(1)[0],
                            cv_seq(xs@)[0],
                        ];
                        assert(cv_seq(code_items@) =~= target);
                        assert(cv(code) == Val::List(target));
                    }
                    preprocess_expr(&code, scope_defs, file_ns, prog, fuel - 1)
                } else {
                    Err(
                        CalcitErr::new(
                            ErrKind::Arity,
                            "keyword call expected 1 argument",
                            &prog.stack,
                        ),
                    )
                }
            } else {
                let mut the_macro: Option<&Calcit> = None;
                if matches!(&head_form, Calcit::Macro(_, _, _, _, _)) {
                    the_macro = Some(&head_form);
                } else if matches!(&head_form, Calcit::Symbol(_, _, _, _)) {
                    match &head_evaled {
                        Some(hv) => {
                            if matches!(hv, Calcit::Macro(_, _, _, _, _)) {
                                the_macro = Some(hv);
                            }
                        },
                        None => {},
                    }
                }
                match the_macro {
                    Some(Calcit::Macro(name, def_ns, _, params, body)) => {
                        crate::call_stack::push_call_stack(
                            &mut prog.stack,
                            def_ns.as_str(),
                            name.as_str(),
                            StackKind::Macro,
                            expr.clone(),
                            &args,
                        );
                        let r3 = crate::runner::expand_macro(
                            &args,
                            params,
                            body,
                            def_ns.as_str(),
                            prog,
                            fuel - 1,
                        );
                        match r3 {
                            Err(e) => Err(e),
                            Ok(code) => {
                                let r4 = preprocess_expr(&code, scope_defs, file_ns, prog, fuel - 1);
                                match r4 {
                                    Err(e) => Err(e),
                                    Ok(out) => {
                                        crate::call_stack::pop_call_stack(&mut prog.stack);
                                        Ok(out)
                                    },
                                }
                            },
                        }
                    },
                    _ => {
                        match &head_form {
                            Calcit::Syntax(kind, name_ns) => {
                                if *kind == CalcitSyntax::Quasiquote {
                                    let r2 = preprocess_quasiquote(
                                        kind,
                                        name_ns.as_str(),
                                        &args,
                                        scope_defs,
                                        file_ns,
                                        prog,
                                        fuel - 1,
                                    );
                                    match r2 {
                                        Err(e) => Err(e),
                                        Ok(form) => Ok((form, None)),
                                    }
                                } else if *kind == CalcitSyntax::Defn || *kind
                                    == CalcitSyntax::Defmacro {
                                    let r2 = preprocess_defn(
                                        kind,
                                        name_ns.as_str(),
                                        &args,
                                        scope_defs,
                                        file_ns,
                                        prog,
                                        fuel - 1,
                                    );
                                    match r2 {
                                        Err(e) => Err(e),
                                        Ok(form) => Ok((form, None)),
                                    }
                                } else if *kind == CalcitSyntax::CoreLet {
                                    let r2 = preprocess_call_let(
                                        kind,
                                        name_ns.as_str(),
                                        &args,
                                        scope_defs,
                                        file_ns,
                                        prog,
                                        fuel - 1,
                                    );
                                    match r2 {
                                        Err(e) => Err(e),
                                        Ok(form) => Ok((form, None)),
                                    }
                                } else if *kind == CalcitSyntax::Quote || *kind == CalcitSyntax::Eval
                                    || *kind == CalcitSyntax::HintFn {
                                    let form = preprocess_quote(kind, name_ns.as_str(), &args);
                                    Ok((form, None))
                                } else {
                                    let r2 = preprocess_each_items(
                                        &args,
                                        scope_defs,
                                        file_ns,
                                        prog,
                                        fuel - 1,
                                    );
                                    match r2 {
                                        Err(e) => Err(e),
                                        Ok(forms) => {
                                            let mut front: CalcitItems = Vec::new();
                                            front.push(Calcit::Syntax(*kind, name_ns.clone()));
                                            proof {
                                                assert(cv_seq(front@) =~= seq![cv(front@[0])]);
                                            }
                                            Ok(
                                                (
                                                    Calcit::List(
                                                        crate::runner::join_items(front, forms),
                                                    ),
                                                    None,
                                                ),
                                            )
                                        },
                                    }
                                }
                            },
                            Calcit::Thunk(_, _) => Err(
                                CalcitErr::new(
                                    ErrKind::TypeMismatch,
                                    "cannot preprocess a thunk",
                                    &prog.stack,
                                ),
                            ),
                            _ => {
                                match &head_evaled {
                                    Some(Calcit::Fn(f_name, _, _, _, f_params, _)) => {
                                        check_fn_args(
                                            f_params,
                                            &args,
                                            file_ns,
                                            f_name.as_str(),
                                            def_name.as_str(),
                                            prog,
                                            false,
                                        );
                                    },
                                    _ => {},
                                }
                                let r3 = preprocess_each_items(
                                    &args,
                                    scope_defs,
                                    file_ns,
                                    prog,
                                    fuel - 1,
                                );
                                match r3 {
                                    Err(e) => Err(e),
                                    Ok(forms) => {
                                        let mut front: CalcitItems = Vec::new();
                                        front.push(head_form);
                                        proof {
                                            assert(cv_seq(front@) =~= seq![cv(front@[0])]);
                                        }
                                        Ok(
                                            (
                                                Calcit::List(crate::runner::join_items(front, forms)),
                                                None,
                                            ),
                                        )
                                    },
                                }
                            },
                        }
                    },
                }
            }
        },
    }
}

/// A failed prefix fails the whole parameter walk.
proof fn lemma_defn_params_err(ys: Seq<Val>, k: int)
    requires
        0 <= k <= ys.len(),
        defn_params_of(ys.take(k)) is Err,
    ensures
        defn_params_of(ys) is Err,
    decreases ys.len() - k,
{
    if k == ys.len() {
        assert(ys.take(k) =~= ys);
    } else {
        assert(ys.take(k + 1).drop_last() =~= ys.take(k));
        lemma_defn_params_err(ys, k + 1);
    }
}

/// Rebuilds a parameter list with every name marked raw, collecting the
/// names that enter the body's scope.
fn defn_params(ys: &CalcitItems) -> (res: Option<(CalcitItems, Vec<String>)>)
    ensures
        match res {
            Some(out) => defn_params_of(cv_seq(ys@)) == Ok::<_, ()>(
                (cv_seq(out.0@), crate::primes::strs_view(out.1@)),
            ),
            None => defn_params_of(cv_seq(ys@)) is Err,
        },
{
    let mut rebuilt: CalcitItems = Vec::new();
    let mut names: Vec<String> = Vec::new();
    let mut i: usize = 0;
    proof {
        assert(cv_seq(ys@).take(0) =~= Seq::<Val>::empty());
        assert(cv_seq(rebuilt@) =~= Seq::<Val>::empty());
        assert(crate::primes::strs_view(names@) =~= Seq::<Seq<char>>::empty());
    }
    #[verifier::loop_isolation(false)]
    while i < ys.len()
        invariant
            i <= ys@.len(),
            defn_params_of(cv_seq(ys@).take(i as int)) == Ok::<_, ()>(
                (cv_seq(rebuilt@), crate::primes::strs_view(names@)),
            ),
        decreases ys@.len() - i,
    {
        proof {
            assert(cv_seq(ys@).take(i + 1).drop_last() =~= cv_seq(ys@).take(i as int));
            assert(cv_seq(ys@).take(i + 1).last() == cv_seq(ys@)[i as int]);
            assert(cv_seq(ys@)[i as int] == cv(ys@[i as int]));
        }
        match &ys[i] {
            Calcit::Symbol(sym, sns, sat, _) => {
                let ghost prev_r = cv_seq(rebuilt@);
                let ghost prev_n = crate::primes::strs_view(names@);
                rebuilt.push(
                    Calcit::Symbol(
                        sym.clone(),
                        sns.clone(),
                        sat.clone(),
                        Some(crate::primes::SymbolResolved::ResolvedRaw),
                    ),
                );
                proof {
                    assert(cv_seq(rebuilt@) =~= prev_r.push(cv(rebuilt@.last())));
                }
                if !(crate::util::str_eq(sym.as_str(), "&") || crate::util::str_eq(
                    sym.as_str(),
                    "?",
                )) {
                    names.push(sym.clone());
                    proof {
                        assert(crate::primes::strs_view(names@) =~= prev_n.push(sym@));
                    }
                }
            },
            _ => {
                proof {
                    lemma_defn_params_err(cv_seq(ys@), i + 1);
                }
                return None;
            },
        }
        i = i + 1;
    }
    proof {
        assert(cv_seq(ys@).take(ys@.len() as int) =~= cv_seq(ys@));
    }
    Some((rebuilt, names))
}

/// Warns for every parameter that shadows a core name.
fn check_params(ys: &CalcitItems, at_def: &str, file_ns: &str, prog: &mut Program)
    ensures
        final(prog)@ == check_params_spec(cv_seq(ys@), at_def@, file_ns@, old(prog)@),
{
    let mut i: usize = 0;
    proof {
        assert(cv_seq(ys@).take(0) =~= Seq::<Val>::empty());
    }
    #[verifier::loop_isolation(false)]
    while i < ys.len()
        invariant
            i <= ys@.len(),
            prog@ == check_params_spec(cv_seq(ys@).take(i as int), at_def@, file_ns@, old(prog)@),
        decreases ys@.len() - i,
    {
        proof {
            assert(cv_seq(ys@).take(i + 1).drop_last() =~= cv_seq(ys@).take(i as int));
            assert(cv_seq(ys@).take(i + 1).last() == cv_seq(ys@)[i as int]);
            assert(cv_seq(ys@)[i as int] == cv(ys@[i as int]));
        }
        match &ys[i] {
            Calcit::Symbol(sym, _, _, _) => {
                check_symbol(sym.as_str(), at_def, file_ns, prog);
            },
            _ => {},
        }
        i = i + 1;
    }
    proof {
        assert(cv_seq(ys@).take(ys@.len() as int) =~= cv_seq(ys@));
    }
}

/// Resolves `defn` and `defmacro`; see [`preprocess_defn_spec`].
pub fn preprocess_defn(
    kind: &CalcitSyntax,
    head_ns: &str,
    args: &CalcitItems,
    scope_defs: &Vec<String>,
    file_ns: &str,
    prog: &mut Program,
    fuel: u64,
) -> (res: Result<Calcit, CalcitErr>)
    ensures
        ({
            let (p, r) = preprocess_defn_spec(
                *kind,
                head_ns@,
                cv_seq(args@),
                crate::primes::strs_view(scope_defs@),
                file_ns@,
                old(prog)@,
                fuel as nat,
            );
            final(prog)@ == p && res_view(res) == r
        }),
    decreases fuel, 3int,
{
    if fuel == 0 {
        return Err(depth_err3(&prog.stack));
    }
    if args.len() >= 2 {
        proof {
            assert(cv_seq(args@)[0] == cv(args@[0]));
            assert(cv_seq(args@)[1] == cv(args@[1]));
        }
        match (&args[0], &args[1]) {
            (Calcit::Symbol(def_name, dns, dat, _), Calcit::List(ys)) => {
                match defn_params(ys) {
                    None => Err(
                        CalcitErr::new(
                            ErrKind::TypeMismatch,
                            "expected defn params to be symbols",
                            &prog.stack,
                        ),
                    ),
                    Some((rebuilt, names)) => {
                        check_params(ys, dat.as_str(), file_ns, prog);
                        let body_defs = join_strings(scope_defs, &names);
                        let body_src = crate::util::skip(args, 2);
                        proof {
                            assert(cv_seq(body_src@) == cv_seq(args@).skip(2));
                        }
                        let r2 = preprocess_each_items(&body_src, &body_defs, file_ns, prog, fuel - 1);
                        match r2 {
                            Err(e) => Err(e),
                            Ok(body) => {
                                let mut front: CalcitItems = Vec::new();
                                front.push(Calcit::Syntax(*kind, head_ns.to_owned()));
                                front.push(
                                    Calcit::Symbol(
                                        def_name.clone(),
                                        dns.clone(),
                                        dat.clone(),
                                        Some(crate::primes::SymbolResolved::ResolvedRaw),
                                    ),
                                );
                                front.push(Calcit::List(rebuilt));
                                proof {
                                    assert(cv_seq(front@) =~= seq![
                                        cv(front@[0]),
                                        cv(front@[1]),
                                        cv(front@[2]),
                                    ]);
                                }
                                Ok(Calcit::List(crate::runner::join_items(front, body)))
                            },
                        }
                    },
                }
            },
            _ => Err(
                CalcitErr::new(ErrKind::TypeMismatch, "defn expected a name and params", &prog.stack),
            ),
        }
    } else {
        Err(CalcitErr::new(ErrKind::TypeMismatch, "defn expected a name and params", &prog.stack))
    }
}

/// Joins two name lists into one.
fn join_strings(front: &Vec<String>, back: &Vec<String>) -> (res: Vec<String>)
    ensures
        crate::primes::strs_view(res@) == crate::primes::strs_view(front@)
            + crate::primes::strs_view(back@),
{
    let mut out = crate::primes::clone_strings(front);
    let mut i: usize = 0;
    #[verifier::loop_isolation(false)]
    while i < back.len()
        invariant
            i <= back@.len(),
            crate::primes::strs_view(out@) =~= crate::primes::strs_view(front@)
                + crate::primes::strs_view(back@).take(i as int),
        decreases back@.len() - i,
    {
        let ghost prev = crate::primes::strs_view(out@);
        out.push(back[i].clone());
        proof {
            assert(crate::primes::strs_view(out@) =~= prev.push(back@[i as int]@));
        }
        i = i + 1;
    }
    proof {
        assert(crate::primes::strs_view(back@).take(back@.len() as int)
            =~= crate::primes::strs_view(back@));
        assert(crate::primes::strs_view(out@) =~= crate::primes::strs_view(front@)
            + crate::primes::strs_view(back@));
    }
    out
}

/// Resolves `&let`; see [`preprocess_call_let_spec`].
pub fn preprocess_call_let(
    kind: &CalcitSyntax,
    head_ns: &str,
    args: &CalcitItems,
    scope_defs: &Vec<String>,
    file_ns: &str,
    prog: &mut Program,
    fuel: u64,
) -> (res: Result<Calcit, CalcitErr>)
    ensures
        ({
            let (p, r) = preprocess_call_let_spec(
                *kind,
                head_ns@,
                cv_seq(args@),
                crate::primes::strs_view(scope_defs@),
                file_ns@,
                old(prog)@,
                fuel as nat,
            );
            final(prog)@ == p && res_view(res) == r
        }),
    decreases fuel, 3int,
{
    if fuel == 0 {
        return Err(depth_err3(&prog.stack));
    }
    if args.len() == 0 {
        return Err(CalcitErr::new(ErrKind::Arity, "&let expected a binding pair", &prog.stack));
    }
    proof {
        assert(cv_seq(args@)[0] == cv(args@[0]));
    }
    match &args[0] {
        Calcit::Nil => {
            let body_src = crate::util::skip(args, 1);
            proof {
                assert(cv_seq(body_src@) == cv_seq(args@).skip(1));
            }
            let r1 = preprocess_each_items(&body_src, scope_defs, file_ns, prog, fuel - 1);
            match r1 {
                Err(e) => Err(e),
                Ok(body) => {
                    let mut front: CalcitItems = Vec::new();
                    front.push(Calcit::Syntax(*kind, head_ns.to_owned()));
                    front.push(Calcit::Nil);
                    proof {
                        assert(cv_seq(front@) =~= seq![cv(front@[0]), cv(front@[1])]);
                    }
                    Ok(Calcit::List(crate::runner::join_items(front, body)))
                },
            }
        },
        Calcit::List(ys) => {
            proof {
                assert(cv(args@[0]) == Val::List(cv_seq(ys@)));
            }
            if ys.len() == 2 {
                proof {
                    assert(cv_seq(ys@)[0] == cv(ys@[0]));
                    assert(cv_seq(ys@)[1] == cv(ys@[1]));
                }
                match &ys[0] {
                    Calcit::Symbol(sym, _, sat, _) => {
                        check_symbol(sym.as_str(), sat.as_str(), file_ns, prog);
                        let mut body_defs = crate::primes::clone_strings(scope_defs);
                        body_defs.push(sym.clone());
                        proof {
                            assert(crate::primes::strs_view(body_defs@)
                                =~= crate::primes::strs_view(scope_defs@).push(sym@));
                        }
                        let r2 = preprocess_expr(&ys[1], &body_defs, file_ns, prog, fuel - 1);
                        match r2 {
                            Err(e) => Err(e),
                            Ok((form, _)) => {
                                let mut pair: CalcitItems = Vec::new();
                                pair.push(ys[0].clone());
                                pair.push(form);
                                proof {
                                    assert(cv_seq(pair@) =~= seq![cv(pair@[0]), cv(pair@[1])]);
                                }
                                let binding = Calcit::List(pair);
                                let body_src = crate::util::skip(args, 1);
                                proof {
                                    assert(cv_seq(body_src@) == cv_seq(args@).skip(1));
                                }
                                let r3 = preprocess_each_items(
                                    &body_src,
                                    &body_defs,
                                    file_ns,
                                    prog,
                                    fuel - 1,
                                );
                                match r3 {
                                    Err(e) => Err(e),
                                    Ok(body) => {
                                        let mut front: CalcitItems = Vec::new();
                                        front.push(Calcit::Syntax(*kind, head_ns.to_owned()));
                                        front.push(binding);
                                        proof {
                                            assert(cv_seq(front@) =~= seq![
                                                cv(front@[0]),
                                                cv(front@[1]),
                                            ]);
                                        }
                                        Ok(Calcit::List(crate::runner::join_items(front, body)))
                                    },
                                }
                            },
                        }
                    },
                    _ => Err(
                        CalcitErr::new(
                            ErrKind::TypeMismatch,
                            "invalid pair for &let binding",
                            &prog.stack,
                        ),
                    ),
                }
            } else {
                Err(CalcitErr::new(ErrKind::Arity, "expected binding of a pair", &prog.stack))
            }
        },
        _ => Err(CalcitErr::new(ErrKind::TypeMismatch, "expected binding of a pair", &prog.stack)),
    }
}

/// Keeps a quoted form as written.
pub fn preprocess_quote(kind: &CalcitSyntax, head_ns: &str, args: &CalcitItems) -> (res: Calcit)
    ensures
        cv(res) == Val::List(seq![Val::Syntax(*kind, head_ns@)] + cv_seq(args@)),
{
    let mut front: CalcitItems = Vec::new();
    front.push(Calcit::Syntax(*kind, head_ns.to_owned()));
    proof {
        assert(cv_seq(front@) =~= seq![cv(front@[0])]);
    }
    Calcit::List(crate::runner::join_items(front, crate::primes::clone_items(args)))
}

/// Resolves inside a quasiquote; see
/// [`preprocess_quasiquote_internal_spec`].
pub fn preprocess_quasiquote_internal(
    x: &Calcit,
    scope_defs: &Vec<String>,
    file_ns: &str,
    prog: &mut Program,
    fuel: u64,
) -> (res: Result<Calcit, CalcitErr>)
    ensures
        ({
            let (p, r) = preprocess_quasiquote_internal_spec(
                cv(*x),
                crate::primes::strs_view(scope_defs@),
                file_ns@,
                old(prog)@,
                fuel as nat,
            );
            final(prog)@ == p && res_view(res) == r
        }),
    decreases fuel, 3int, 0int,
{
    if fuel == 0 {
        return Err(depth_err3(&prog.stack));
    }
    match x {
        Calcit::List(ys) => {
            proof {
                assert(cv(*x) == Val::List(cv_seq(ys@)));
            }
            if ys.len() == 0 {
                return Ok(x.clone());
            }
            proof {
                assert(cv_seq(ys@)[0] == cv(ys@[0]));
            }
            let unquote = match &ys[0] {
                Calcit::Symbol(s, _, _, _) => crate::util::str_eq(s.as_str(), "~")
                    || crate::util::str_eq(s.as_str(), "~@"),
                _ => false,
            };
            if unquote {
                let r1 = preprocess_each_items(ys, scope_defs, file_ns, prog, fuel - 1);
                match r1 {
                    Err(e) => Err(e),
                    Ok(forms) => Ok(Calcit::List(forms)),
                }
            } else {
                let r1 = quasiquote_items(ys, scope_defs, file_ns, prog, fuel);
                match r1 {
                    Err(e) => Err(e),
                    Ok(forms) => Ok(Calcit::List(forms)),
                }
            }
        },
        _ => Ok(x.clone()),
    }
}

/// Resolves each child of a quasiquoted list.
fn quasiquote_items(
    ys: &CalcitItems,
    scope_defs: &Vec<String>,
    file_ns: &str,
    prog: &mut Program,
    fuel: u64,
) -> (res: Result<CalcitItems, CalcitErr>)
    ensures
        ({
            let (p, r) = quasiquote_items_spec(
                cv_seq(ys@),
                crate::primes::strs_view(scope_defs@),
                file_ns@,
                old(prog)@,
                fuel as nat,
            );
            final(prog)@ == p && match res {
                Ok(forms) => r == Ok::<Seq<Val>, ErrV>(cv_seq(forms@)),
                Err(e) => r == Err::<Seq<Val>, ErrV>(e@),
            }
        }),
    decreases fuel, 2int, ys@.len(),
{
    if fuel == 0 {
        return Err(depth_err3(&prog.stack));
    }
    if ys.len() == 0 {
        let out: CalcitItems = Vec::new();
        proof {
            assert(cv_seq(out@) =~= Seq::<Val>::empty());
        }
        return Ok(out);
    }
    let r1 = preprocess_quasiquote_internal(&ys[0], scope_defs, file_ns, prog, fuel - 1);
    match r1 {
        Err(e) => Err(e),
        Ok(form) => {
            let tail = crate::util::skip(ys, 1);
            proof {
                assert(cv_seq(tail@) == cv_seq(ys@).skip(1));
            }
            let r2 = quasiquote_items(&tail, scope_defs, file_ns, prog, fuel);
            match r2 {
                Err(e) => Err(e),
                Ok(rest) => {
                    let mut front: CalcitItems = Vec::new();
                    front.push(form);
                    proof {
                        assert(cv_seq(front@) =~= seq![cv(front@[0])]);
                    }
                    Ok(crate::runner::join_items(front, rest))
                },
            }
        },
    }
}

/// Resolves `quasiquote`; see [`preprocess_quasiquote_spec`].
pub fn preprocess_quasiquote(
    kind: &CalcitSyntax,
    head_ns: &str,
    args: &CalcitItems,
    scope_defs: &Vec<String>,
    file_ns: &str,
    prog: &mut Program,
    fuel: u64,
) -> (res: Result<Calcit, CalcitErr>)
    ensures
        ({
            let (p, r) = preprocess_quasiquote_spec(
                *kind,
                head_ns@,
                cv_seq(args@),
                crate::primes::strs_view(scope_defs@),
                file_ns@,
                old(prog)@,
                fuel as nat,
            );
            final(prog)@ == p && res_view(res) == r
        }),
    decreases fuel, 3int, 1int,
{
    if fuel == 0 {
        return Err(depth_err3(&prog.stack));
    }
    let r1 = quasiquote_items(args, scope_defs, file_ns, prog, fuel - 1);
    match r1 {
        Err(e) => Err(e),
        Ok(forms) => {
            let mut front: CalcitItems = Vec::new();
            front.push(Calcit::Syntax(*kind, head_ns.to_owned()));
            proof {
                assert(cv_seq(front@) =~= seq![cv(front@[0])]);
            }
            Ok(Calcit::List(crate::runner::join_items(front, forms)))
        },
    }
}

/// Resolves `defatom` by resolving each child under the same scope.
pub fn preprocess_defatom(
    kind: &CalcitSyntax,
    head_ns: &str,
    args: &CalcitItems,
    scope_defs: &Vec<String>,
    file_ns: &str,
    prog: &mut Program,
    fuel: u64,
) -> (res: Result<Calcit, CalcitErr>)
    ensures
        ({
            let (p, r) = preprocess_items_spec(
                cv_seq(args@),
                crate::primes::strs_view(scope_defs@),
                file_ns@,
                old(prog)@,
                fuel as nat,
            );
            final(prog)@ == p && match res {
                Ok(form) => (r matches Ok(forms) && cv(form) == Val::List(
                    seq![Val::Syntax(*kind, head_ns@)] + forms,
                )),
                Err(e) => r == Err::<Seq<Val>, ErrV>(e@),
            }
        }),
{
    let r1 = preprocess_each_items(args, scope_defs, file_ns, prog, fuel);
    match r1 {
        Err(e) => Err(e),
        Ok(forms) => {
            let mut front: CalcitItems = Vec::new();
            front.push(Calcit::Syntax(*kind, head_ns.to_owned()));
            proof {
                assert(cv_seq(front@) =~= seq![cv(front@[0])]);
            }
            Ok(Calcit::List(crate::runner::join_items(front, forms)))
        },
    }
}

} // verus!
