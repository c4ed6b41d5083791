use calcit_runner::builtins::syntax::handle_syntax;
use calcit_runner::call_stack::CalcitStack;
use calcit_runner::primes::{calcit_eq, format_to_lisp, Calcit, CalcitErr, ErrKind};
use calcit_runner::program::Program;
use calcit_runner::runner::preprocess::preprocess_expr;
use calcit_runner::runner::{evaluate_expr, run_fn};

const NS: &str = "app.main";
const FUEL: u64 = 2000;

fn sym(s: &str) -> Calcit {
    Calcit::Symbol(s.to_string(), NS.to_string(), "t".to_string(), None)
}

fn num(n: i64) -> Calcit {
    Calcit::Number(n)
}

fn lst(xs: Vec<Calcit>) -> Calcit {
    Calcit::List(xs)
}

fn run_program(defs: Vec<(&str, Calcit)>, expr: Calcit) -> Result<Calcit, CalcitErr> {
    let mut prog = Program::new();
    for (name, code) in defs {
        prog.add_def_code(NS, name, code);
    }
    let empty_defs: Vec<String> = vec![];
    let (form, _) = preprocess_expr(&expr, &empty_defs, NS, &mut prog, FUEL)?;
    let scope: Vec<(String, Calcit)> = vec![];
    evaluate_expr(&form, &scope, NS, &mut prog, FUEL)
}

#[test]
fn defn_and_add() {
    // (defn inc [x] (&+ x 1)) then (inc 41)
    let inc = lst(vec![
        sym("defn"),
        sym("inc"),
        lst(vec![sym("x")]),
        lst(vec![sym("&+"), sym("x"), num(1)]),
    ]);
    let got = run_program(vec![("inc", inc)], lst(vec![sym("inc"), num(41)])).unwrap();
    assert!(calcit_eq(&got, &num(42)));
}

#[test]
fn rest_parameter_counts() {
    // (defn f [& xs] (count xs))
    let f = lst(vec![
        sym("defn"),
        sym("f"),
        lst(vec![sym("&"), sym("xs")]),
        lst(vec![sym("count"), sym("xs")]),
    ]);
    let got = run_program(
        vec![("f", f.clone())],
        lst(vec![sym("f"), num(1), num(2), num(3)]),
    )
    .unwrap();
    assert!(calcit_eq(&got, &num(3)));
    let got0 = run_program(vec![("f", f)], lst(vec![sym("f")])).unwrap();
    assert!(calcit_eq(&got0, &num(0)));
}

fn when_macro() -> Calcit {
    // (defmacro when [c & body] (quasiquote (if (~ c) (&let nil (~@ body)))))
    lst(vec![
        sym("defmacro"),
        sym("when"),
        lst(vec![sym("c"), sym("&"), sym("body")]),
        lst(vec![
            sym("quasiquote"),
            lst(vec![
                sym("if"),
                lst(vec![sym("~"), sym("c")]),
                lst(vec![
                    sym("&let"),
                    Calcit::Nil,
                    lst(vec![sym("~@"), sym("body")]),
                ]),
            ]),
        ]),
    ])
}

#[test]
fn macro_with_splice_evaluates() {
    let got = run_program(
        vec![("when", when_macro())],
        lst(vec![sym("when"), Calcit::Bool(true), num(1), num(2), num(3)]),
    )
    .unwrap();
    assert!(calcit_eq(&got, &num(3)));
}

#[test]
fn macro_expands_in_one_step() {
    // (macroexpand-1 (quote (when true 1 2 3)))
    let call = lst(vec![
        sym("macroexpand-1"),
        lst(vec![
            sym("quote"),
            lst(vec![sym("when"), Calcit::Bool(true), num(1), num(2), num(3)]),
        ]),
    ]);
    let got = run_program(vec![("when", when_macro())], call).unwrap();
    let expected = lst(vec![
        sym("if"),
        Calcit::Bool(true),
        lst(vec![sym("&let"), Calcit::Nil, num(1), num(2), num(3)]),
    ]);
    assert!(
        calcit_eq(&got, &expected),
        "expansion was {}",
        format_to_lisp(&got)
    );
}

#[test]
fn macroexpand_reaches_macroexpand_1_fixed_point() {
    // (macroexpand (quote (when true 1 2 3))) agrees with the one step
    let call = lst(vec![
        sym("macroexpand"),
        lst(vec![
            sym("quote"),
            lst(vec![sym("when"), Calcit::Bool(true), num(1), num(2), num(3)]),
        ]),
    ]);
    let got = run_program(vec![("when", when_macro())], call).unwrap();
    let expected = lst(vec![
        sym("if"),
        Calcit::Bool(true),
        lst(vec![sym("&let"), Calcit::Nil, num(1), num(2), num(3)]),
    ]);
    assert!(calcit_eq(&got, &expected));
}

#[test]
fn optional_parameter_binds_nil() {
    // (defn g [x ? y] (if (nil? y) x y)) written with &= on nil
    let g = lst(vec![
        sym("defn"),
        sym("g"),
        lst(vec![sym("x"), sym("?"), sym("y")]),
        lst(vec![
            sym("if"),
            lst(vec![sym("&="), sym("y"), Calcit::Nil]),
            sym("x"),
            sym("y"),
        ]),
    ]);
    let got1 = run_program(vec![("g", g.clone())], lst(vec![sym("g"), num(10)])).unwrap();
    assert!(calcit_eq(&got1, &num(10)));
    let got2 = run_program(vec![("g", g)], lst(vec![sym("g"), num(10), num(20)])).unwrap();
    assert!(calcit_eq(&got2, &num(20)));
}

#[test]
fn try_recovers_raised_message() {
    // (try (raise "bad") (defn handler [e] e))
    let call = lst(vec![
        sym("try"),
        lst(vec![sym("raise"), Calcit::Str("bad".to_string())]),
        lst(vec![
            sym("defn"),
            sym("handler"),
            lst(vec![sym("e")]),
            sym("e"),
        ]),
    ]);
    let got = run_program(vec![], call).unwrap();
    assert!(calcit_eq(&got, &Calcit::Str("bad".to_string())));
}

#[test]
fn mutual_definitions_resolve_without_looping() {
    // a calls b lazily inside its body; b calls a lazily too
    let a = lst(vec![
        sym("defn"),
        sym("a"),
        lst(vec![sym("x")]),
        lst(vec![
            sym("if"),
            sym("x"),
            lst(vec![sym("b"), Calcit::Bool(false)]),
            num(1),
        ]),
    ]);
    let b = lst(vec![
        sym("defn"),
        sym("b"),
        lst(vec![sym("x")]),
        lst(vec![
            sym("if"),
            sym("x"),
            lst(vec![sym("a"), Calcit::Bool(false)]),
            num(2),
        ]),
    ]);
    let got = run_program(
        vec![("a", a), ("b", b)],
        lst(vec![sym("a"), Calcit::Bool(true)]),
    )
    .unwrap();
    assert!(calcit_eq(&got, &num(2)));
}

#[test]
fn quasiquote_without_unquote_is_identity() {
    let tree = lst(vec![sym("alpha"), num(1), lst(vec![num(2), num(3)])]);
    let call = lst(vec![sym("quasiquote"), tree.clone()]);
    let got = run_program(vec![], call).unwrap();
    assert!(calcit_eq(&got, &tree));
}

#[test]
fn eval_of_quote_matches_eval_of_literal() {
    // (eval (quote 42)) and (eval 42)
    let lhs = run_program(
        vec![],
        lst(vec![sym("eval"), lst(vec![sym("quote"), num(42)])]),
    )
    .unwrap();
    let rhs = run_program(vec![], lst(vec![sym("eval"), num(42)])).unwrap();
    assert!(calcit_eq(&lhs, &rhs));
    assert!(calcit_eq(&lhs, &num(42)));
}

#[test]
fn keyword_call_reads_map() {
    // (:a (&{} :a 1 :b 2))
    let call = lst(vec![
        Calcit::Keyword("a".to_string()),
        lst(vec![
            sym("&{}"),
            Calcit::Keyword("a".to_string()),
            num(1),
            Calcit::Keyword("b".to_string()),
            num(2),
        ]),
    ]);
    let got = run_program(vec![], call).unwrap();
    assert!(calcit_eq(&got, &num(1)));
}

#[test]
fn argument_spreading_inlines_a_list() {
    // (&+ & ([] 1 2)) spreads to (&+ 1 2)
    let call = lst(vec![
        sym("&+"),
        sym("&"),
        lst(vec![sym("[]"), num(1), num(2)]),
    ]);
    let got = run_program(vec![], call).unwrap();
    assert!(calcit_eq(&got, &num(3)));
}

#[test]
fn let_binding_reads_back() {
    // (&let (x 7) (&+ x 1))
    let call = lst(vec![
        sym("&let"),
        lst(vec![sym("x"), num(7)]),
        lst(vec![sym("&+"), sym("x"), num(1)]),
    ]);
    let got = run_program(vec![], call).unwrap();
    assert!(calcit_eq(&got, &num(8)));
}

#[test]
fn shadowing_binding_reads_back() {
    // (&let (if 7) (&+ if 1)): a local binding shadows even a special form
    let call = lst(vec![
        sym("&let"),
        lst(vec![sym("if"), num(7)]),
        lst(vec![sym("&+"), sym("if"), num(1)]),
    ]);
    let got = run_program(vec![], call).unwrap();
    assert!(calcit_eq(&got, &num(8)));
}

#[test]
fn foldl_folds_left_to_right() {
    // (foldl ([] 1 2 3) 0 (defn add2 [a b] (&+ a b)))
    let call = lst(vec![
        sym("foldl"),
        lst(vec![sym("[]"), num(1), num(2), num(3)]),
        num(0),
        lst(vec![
            sym("defn"),
            sym("add2"),
            lst(vec![sym("a"), sym("b")]),
            lst(vec![sym("&+"), sym("a"), sym("b")]),
        ]),
    ]);
    let got = run_program(vec![], call).unwrap();
    assert!(calcit_eq(&got, &num(6)));
}

#[test]
fn defatom_reset_and_deref() {
    // (&let nil (defatom cell 1) (reset! (deref-handle) 5) ...) written as lines
    let mut prog = Program::new();
    let scope: Vec<(String, Calcit)> = vec![];
    let make = lst(vec![sym("defatom"), sym("cell"), num(1)]);
    let empty_defs: Vec<String> = vec![];
    let (form, _) = preprocess_expr(&make, &empty_defs, NS, &mut prog, FUEL).unwrap();
    let handle = evaluate_expr(&form, &scope, NS, &mut prog, FUEL).unwrap();
    let read1 = evaluate_expr(
        &lst(vec![Calcit::Proc("deref".to_string()), handle.clone()]),
        &scope,
        NS,
        &mut prog,
        FUEL,
    )
    .unwrap();
    assert!(calcit_eq(&read1, &num(1)));
    // the handle is already a value, so it evaluates to itself under reset!
    let reset = lst(vec![
        Calcit::Syntax(calcit_runner::primes::CalcitSyntax::Reset, NS.to_string()),
        handle.clone(),
        num(5),
    ]);
    evaluate_expr(&reset, &scope, NS, &mut prog, FUEL).unwrap();
    let read2 = evaluate_expr(
        &lst(vec![Calcit::Proc("deref".to_string()), handle]),
        &scope,
        NS,
        &mut prog,
        FUEL,
    )
    .unwrap();
    assert!(calcit_eq(&read2, &num(5)));
}

#[test]
fn echo_collects_output_lines() {
    let mut prog = Program::new();
    let scope: Vec<(String, Calcit)> = vec![];
    let call = lst(vec![
        Calcit::Proc("echo".to_string()),
        Calcit::Str("hello".to_string()),
        num(42),
    ]);
    let got = evaluate_expr(&call, &scope, NS, &mut prog, FUEL).unwrap();
    assert!(calcit_eq(&got, &Calcit::Nil));
    assert_eq!(prog.logs.len(), 1);
    assert_eq!(prog.logs[0], "hello 42");
}

#[test]
fn unknown_symbol_is_reported() {
    let got = run_program(vec![], lst(vec![sym("no-such-thing"), num(1)]));
    match got {
        Err(e) => assert!(matches!(e.kind, ErrKind::UnknownSymbol)),
        Ok(v) => panic!("expected failure, got {}", format_to_lisp(&v)),
    }
}

#[test]
fn unresolved_symbol_leaves_a_warning() {
    let mut prog = Program::new();
    let empty_defs: Vec<String> = vec![];
    let (form, _) = preprocess_expr(&sym("mystery"), &empty_defs, NS, &mut prog, FUEL).unwrap();
    assert!(matches!(form, Calcit::Symbol(_, _, _, None)));
    assert_eq!(prog.warnings.len(), 1);
    assert_eq!(prog.warnings[0].sym, "mystery");
}

#[test]
fn arity_warning_on_direct_call() {
    let inc = lst(vec![
        sym("defn"),
        sym("inc"),
        lst(vec![sym("x")]),
        lst(vec![sym("&+"), sym("x"), num(1)]),
    ]);
    let mut prog = Program::new();
    prog.add_def_code(NS, "inc", inc);
    let empty_defs: Vec<String> = vec![];
    let call = lst(vec![sym("inc"), num(1), num(2)]);
    let _ = preprocess_expr(&call, &empty_defs, NS, &mut prog, FUEL).unwrap();
    assert!(prog
        .warnings
        .iter()
        .any(|w| matches!(w.kind, calcit_runner::program::WarnKind::TooManyArgs)));
}

#[test]
fn run_fn_recycles_tail_calls() {
    // (defn down [n] (if (&= n 0) 0 (recur (&- n 1)))) applied to 5
    let down = lst(vec![
        sym("defn"),
        sym("down"),
        lst(vec![sym("n")]),
        lst(vec![
            sym("if"),
            lst(vec![sym("&="), sym("n"), num(0)]),
            num(0),
            lst(vec![sym("recur"), lst(vec![sym("&-"), sym("n"), num(1)])]),
        ]),
    ]);
    let got = run_program(vec![("down", down)], lst(vec![sym("down"), num(5)])).unwrap();
    assert!(calcit_eq(&got, &num(0)));
}

#[test]
fn handle_syntax_by_name_matches_quote() {
    let mut prog = Program::new();
    let scope: Vec<(String, Calcit)> = vec![];
    let nodes = vec![num(7)];
    let got = handle_syntax("quote", &nodes, &scope, NS, &mut prog, FUEL).unwrap();
    assert!(calcit_eq(&got, &num(7)));
}

#[test]
fn run_fn_binds_and_evaluates() {
    let mut prog = Program::new();
    let scope: Vec<(String, Calcit)> = vec![];
    let params = vec![sym("x"), sym("y")];
    let body = vec![lst(vec![
        Calcit::Proc("&*".to_string()),
        sym("x"),
        sym("y"),
    ])];
    let values = vec![num(6), num(7)];
    let got = run_fn(&values, &scope, &params, &body, NS, &mut prog, FUEL).unwrap();
    assert!(calcit_eq(&got, &num(42)));
}

#[test]
fn call_stack_frames_survive_failures() {
    let mut prog = Program::new();
    let scope: Vec<(String, Calcit)> = vec![];
    let call = lst(vec![
        Calcit::Proc("raise".to_string()),
        Calcit::Str("boom".to_string()),
    ]);
    let got = evaluate_expr(&call, &scope, NS, &mut prog, FUEL);
    match got {
        Err(e) => {
            assert!(matches!(e.kind, ErrKind::UserRaised));
            assert_eq!(e.msg, "boom");
            assert_eq!(e.stack.len(), 1);
            assert_eq!(e.stack[0].def, "raise");
            assert!(matches!(
                e.stack[0].kind,
                calcit_runner::call_stack::StackKind::Proc
            ));
        }
        Ok(_) => panic!("expected failure"),
    }
    let _unused: Vec<CalcitStack> = vec![];
}

#[test]
fn fuel_running_out_is_an_error_not_a_hang() {
    // (defn spin [] (spin)) called with a small budget
    let spin = lst(vec![
        sym("defn"),
        sym("spin"),
        lst(vec![]),
        lst(vec![sym("spin")]),
    ]);
    let mut prog = Program::new();
    prog.add_def_code(NS, "spin", spin);
    let empty_defs: Vec<String> = vec![];
    let (form, _) = preprocess_expr(
        &lst(vec![sym("spin")]),
        &empty_defs,
        NS,
        &mut prog,
        200,
    )
    .unwrap();
    let scope: Vec<(String, Calcit)> = vec![];
    let got = evaluate_expr(&form, &scope, NS, &mut prog, 200);
    match got {
        Err(e) => assert!(matches!(e.kind, ErrKind::StackDepth)),
        Ok(_) => panic!("expected the budget to run out"),
    }
}
