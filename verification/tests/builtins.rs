use calcit_runner::builtins::records;
use calcit_runner::builtins::{handle_proc, is_proc_name, is_syntax_name};
use calcit_runner::call_stack::CalcitStack;
use calcit_runner::data::cirru::{calcit_to_cirru, code_to_calcit, matches_float, CodeTree};
use calcit_runner::primes::{
    calcit_eq, format_to_lisp, number_to_string, turn_string, Calcit, ErrKind,
};
use calcit_runner::program::Program;
use calcit_runner::runner::{bind_args, parse_ns_def};
use calcit_runner::util::{resolve_module_path, str_eq, str_lt};

fn num(n: i64) -> Calcit {
    Calcit::Number(n)
}

fn kwd(s: &str) -> Calcit {
    Calcit::Keyword(s.to_string())
}

fn stack() -> Vec<CalcitStack> {
    vec![]
}

fn proc_ok(name: &str, args: Vec<Calcit>) -> Calcit {
    let mut prog = Program::new();
    handle_proc(name, &args, &mut prog).unwrap()
}

fn proc_err(name: &str, args: Vec<Calcit>) -> ErrKind {
    let mut prog = Program::new();
    handle_proc(name, &args, &mut prog).unwrap_err().kind
}

#[test]
fn proc_names_are_recognized() {
    assert!(is_proc_name("&+"));
    assert!(is_proc_name("count"));
    assert!(is_proc_name("&record:get"));
    assert!(!is_proc_name("defn"));
    assert!(is_syntax_name("defn"));
    assert!(is_syntax_name("quote-replace"));
    assert!(!is_syntax_name("&+"));
}

#[test]
fn arithmetic_is_exact() {
    assert!(calcit_eq(&proc_ok("&+", vec![num(40), num(2)]), &num(42)));
    assert!(calcit_eq(&proc_ok("&-", vec![num(40), num(2)]), &num(38)));
    assert!(calcit_eq(&proc_ok("&*", vec![num(6), num(7)]), &num(42)));
    assert!(calcit_eq(&proc_ok("&/", vec![num(42), num(6)]), &num(7)));
}

#[test]
fn division_truncates_toward_zero() {
    assert!(calcit_eq(&proc_ok("&/", vec![num(-7), num(2)]), &num(-3)));
    assert!(calcit_eq(&proc_ok("&/", vec![num(7), num(-2)]), &num(-3)));
    assert!(calcit_eq(&proc_ok("&/", vec![num(-7), num(-2)]), &num(3)));
}

#[test]
fn arithmetic_overflow_is_an_error() {
    assert!(matches!(
        proc_err("&+", vec![num(i64::MAX), num(1)]),
        ErrKind::NumericOverflow
    ));
    assert!(matches!(
        proc_err("&/", vec![num(1), num(0)]),
        ErrKind::NumericOverflow
    ));
    assert!(matches!(
        proc_err("&/", vec![num(i64::MIN), num(-1)]),
        ErrKind::NumericOverflow
    ));
    assert!(matches!(
        proc_err("&*", vec![num(i64::MAX), num(2)]),
        ErrKind::NumericOverflow
    ));
}

#[test]
fn comparisons_and_equality() {
    assert!(calcit_eq(
        &proc_ok("&<", vec![num(1), num(2)]),
        &Calcit::Bool(true)
    ));
    assert!(calcit_eq(
        &proc_ok("&>", vec![num(1), num(2)]),
        &Calcit::Bool(false)
    ));
    assert!(calcit_eq(
        &proc_ok(
            "&<",
            vec![
                Calcit::Str("apple".to_string()),
                Calcit::Str("banana".to_string())
            ]
        ),
        &Calcit::Bool(true)
    ));
    assert!(calcit_eq(
        &proc_ok("&=", vec![num(3), num(3)]),
        &Calcit::Bool(true)
    ));
    assert!(matches!(
        proc_err("&<", vec![num(1), Calcit::Nil]),
        ErrKind::TypeMismatch
    ));
}

#[test]
fn dict_equality_ignores_entry_order() {
    let m1 = proc_ok("&{}", vec![kwd("a"), num(1), kwd("b"), num(2)]);
    let m2 = proc_ok("&{}", vec![kwd("b"), num(2), kwd("a"), num(1)]);
    assert!(calcit_eq(&m1, &m2));
    let m3 = proc_ok("&{}", vec![kwd("a"), num(1), kwd("b"), num(3)]);
    assert!(!calcit_eq(&m1, &m3));
}

#[test]
fn map_write_replaces_equal_keys() {
    let m = proc_ok("&{}", vec![kwd("a"), num(1), kwd("a"), num(2)]);
    let got = proc_ok("get", vec![m.clone(), kwd("a")]);
    assert!(calcit_eq(&got, &num(2)));
    assert!(calcit_eq(&proc_ok("count", vec![m]), &num(1)));
}

#[test]
fn set_drops_duplicates() {
    let s = proc_ok("#{}", vec![num(1), num(2), num(1), num(3)]);
    assert!(calcit_eq(&proc_ok("count", vec![s]), &num(3)));
}

#[test]
fn list_procedures() {
    let xs = proc_ok("[]", vec![num(10), num(20), num(30)]);
    assert!(calcit_eq(&proc_ok("count", vec![xs.clone()]), &num(3)));
    assert!(calcit_eq(
        &proc_ok("nth", vec![xs.clone(), num(1)]),
        &num(20)
    ));
    assert!(calcit_eq(
        &proc_ok("nth", vec![xs.clone(), num(9)]),
        &Calcit::Nil
    ));
    assert!(calcit_eq(
        &proc_ok("slice", vec![xs.clone(), num(1), num(3)]),
        &proc_ok("[]", vec![num(20), num(30)])
    ));
    assert!(calcit_eq(
        &proc_ok("append", vec![xs.clone(), num(40)]),
        &proc_ok("[]", vec![num(10), num(20), num(30), num(40)])
    ));
    assert!(calcit_eq(
        &proc_ok("prepend", vec![xs.clone(), num(0)]),
        &proc_ok("[]", vec![num(0), num(10), num(20), num(30)])
    ));
    assert!(calcit_eq(
        &proc_ok("rest", vec![xs.clone()]),
        &proc_ok("[]", vec![num(20), num(30)])
    ));
    assert!(calcit_eq(
        &proc_ok("butlast", vec![xs.clone()]),
        &proc_ok("[]", vec![num(10), num(20)])
    ));
    assert!(calcit_eq(
        &proc_ok("empty?", vec![proc_ok("[]", vec![])]),
        &Calcit::Bool(true)
    ));
    assert!(matches!(
        proc_err("nth", vec![Calcit::Nil, num(0)]),
        ErrKind::TypeMismatch
    ));
    assert!(matches!(proc_err("count", vec![]), ErrKind::Arity));
}

#[test]
fn record_round_trip() {
    let proto = proc_ok("new-record", vec![kwd("cat"), kwd("name"), kwd("age")]);
    let filled = proc_ok(
        "&%{}",
        vec![
            proto.clone(),
            kwd("name"),
            Calcit::Str("kitty".to_string()),
            kwd("age"),
            num(3),
        ],
    );
    assert!(calcit_eq(
        &proc_ok("&record:get", vec![filled.clone(), kwd("age")]),
        &num(3)
    ));
    assert!(calcit_eq(
        &proc_ok("&record:get-name", vec![filled.clone()]),
        &kwd("cat")
    ));
    assert!(calcit_eq(
        &proc_ok("&record:count", vec![filled.clone()]),
        &num(2)
    ));
    assert!(calcit_eq(
        &proc_ok("&record:contains?", vec![filled.clone(), kwd("name")]),
        &Calcit::Bool(true)
    ));
    assert!(calcit_eq(
        &proc_ok("&record:contains?", vec![filled.clone(), kwd("tail")]),
        &Calcit::Bool(false)
    ));
    assert!(calcit_eq(
        &proc_ok("&record:matches?", vec![filled.clone(), proto.clone()]),
        &Calcit::Bool(true)
    ));
    let renamed = proc_ok(
        "&record:assoc",
        vec![filled.clone(), kwd("age"), num(4)],
    );
    assert!(calcit_eq(
        &proc_ok("&record:get", vec![renamed, kwd("age")]),
        &num(4)
    ));
    let as_map = proc_ok("&record:to-map", vec![filled.clone()]);
    assert!(calcit_eq(
        &proc_ok("get", vec![as_map.clone(), kwd("name")]),
        &Calcit::Str("kitty".to_string())
    ));
    let back = proc_ok("&record:from-map", vec![proto, as_map]);
    assert!(calcit_eq(&back, &filled));
}

#[test]
fn record_rejects_duplicate_fields() {
    assert!(matches!(
        proc_err("new-record", vec![kwd("cat"), kwd("a"), kwd("a")]),
        ErrKind::TypeMismatch
    ));
}

#[test]
fn record_fields_are_sorted_for_binary_search() {
    match proc_ok(
        "new-record",
        vec![kwd("r"), kwd("zeta"), kwd("alpha"), kwd("mid")],
    ) {
        Calcit::Record(r) => {
            assert_eq!(r.fields, vec!["alpha", "mid", "zeta"]);
            assert_eq!(records::find_in_fields(&r.fields, "mid"), Some(1));
            assert_eq!(records::find_in_fields(&r.fields, "none"), None);
        }
        _ => panic!("expected a record"),
    }
}

#[test]
fn record_extend_keeps_order() {
    let proto = proc_ok("new-record", vec![kwd("r"), kwd("b"), kwd("d")]);
    let wider = proc_ok(
        "&record:extend-as",
        vec![proto, kwd("r2"), kwd("c"), num(9)],
    );
    match &wider {
        Calcit::Record(r) => assert_eq!(r.fields, vec!["b", "c", "d"]),
        _ => panic!("expected a record"),
    }
    assert!(calcit_eq(
        &proc_ok("&record:get", vec![wider, kwd("c")]),
        &num(9)
    ));
}

#[test]
fn type_of_names_variants() {
    assert!(calcit_eq(&proc_ok("type-of", vec![num(1)]), &kwd("number")));
    assert!(calcit_eq(
        &proc_ok("type-of", vec![Calcit::Nil]),
        &kwd("nil")
    ));
}

#[test]
fn printing_is_exact() {
    assert_eq!(number_to_string(0), "0");
    assert_eq!(number_to_string(-105), "-105");
    assert_eq!(number_to_string(i64::MIN), "-9223372036854775808");
    let xs = proc_ok("[]", vec![num(1), Calcit::Bool(true), Calcit::Nil]);
    assert_eq!(format_to_lisp(&xs), "(1 true nil)");
    assert_eq!(turn_string(&Calcit::Str("plain".to_string())), "plain");
    assert_eq!(format_to_lisp(&Calcit::Str("plain".to_string())), "|plain");
    assert_eq!(format_to_lisp(&kwd("k")), ":k");
    match proc_ok("format-to-lisp", vec![xs]) {
        Calcit::Str(s) => assert_eq!(s, "(1 true nil)"),
        _ => panic!("expected a string"),
    }
}

#[test]
fn str_concat_uses_friendly_forms() {
    match proc_ok(
        "&str-concat",
        vec![Calcit::Str("n=".to_string()), num(42)],
    ) {
        Calcit::Str(s) => assert_eq!(s, "n=42"),
        _ => panic!("expected a string"),
    }
}

#[test]
fn string_order_is_lexicographic() {
    assert!(str_lt("abc", "abd"));
    assert!(str_lt("ab", "abc"));
    assert!(!str_lt("b", "ab"));
    assert!(str_eq("same", "same"));
    assert!(!str_eq("same", "sane"));
}

#[test]
fn bind_args_plain_pairs() {
    let params = vec![
        Calcit::Symbol("x".to_string(), "n".to_string(), "d".to_string(), None),
        Calcit::Symbol("y".to_string(), "n".to_string(), "d".to_string(), None),
    ];
    let values = vec![num(1), num(2)];
    let base: Vec<(String, Calcit)> = vec![];
    let bound = bind_args(&params, &values, &base, &stack()).unwrap();
    assert_eq!(bound.len(), 2);
    assert_eq!(bound[0].0, "x");
    assert!(calcit_eq(&bound[0].1, &num(1)));
    assert_eq!(bound[1].0, "y");
    assert!(calcit_eq(&bound[1].1, &num(2)));
    let too_many = bind_args(&params, &vec![num(1), num(2), num(3)], &base, &stack());
    assert!(matches!(too_many.unwrap_err().kind, ErrKind::Arity));
    let too_few = bind_args(&params, &vec![num(1)], &base, &stack());
    assert!(matches!(too_few.unwrap_err().kind, ErrKind::Arity));
}

#[test]
fn parse_ns_def_splits_once() {
    assert_eq!(
        parse_ns_def("app.main/start"),
        Some(("app.main".to_string(), "start".to_string()))
    );
    assert_eq!(parse_ns_def("plain"), None);
    assert_eq!(parse_ns_def("a/b/c"), None);
    assert_eq!(parse_ns_def("/b"), None);
    assert_eq!(parse_ns_def("a/"), None);
}

#[test]
fn float_literals_are_recognized() {
    assert!(matches_float("12"));
    assert!(matches_float("-3"));
    assert!(matches_float("3.25"));
    assert!(matches_float("-0.5"));
    assert!(!matches_float("1."));
    assert!(!matches_float(".5"));
    assert!(!matches_float("1.2.3"));
    assert!(!matches_float("12a"));
    assert!(!matches_float("-"));
    assert!(!matches_float(""));
}

#[test]
fn code_leaves_read_as_values() {
    let st = stack();
    let read = |s: &str| code_to_calcit(&CodeTree::Leaf(s.to_string()), "ns", "d", &st);
    assert!(calcit_eq(&read("nil").unwrap(), &Calcit::Nil));
    assert!(calcit_eq(&read("true").unwrap(), &Calcit::Bool(true)));
    assert!(calcit_eq(&read("42").unwrap(), &num(42)));
    assert!(calcit_eq(&read("-42").unwrap(), &num(-42)));
    assert!(calcit_eq(&read(":kind").unwrap(), &kwd("kind")));
    assert!(calcit_eq(
        &read("|text").unwrap(),
        &Calcit::Str("text".to_string())
    ));
    match read("word").unwrap() {
        Calcit::Symbol(s, _, _, _) => assert_eq!(s, "word"),
        _ => panic!("expected a symbol"),
    }
    match read("'word").unwrap() {
        Calcit::List(xs) => {
            assert_eq!(xs.len(), 2);
            match &xs[0] {
                Calcit::Symbol(s, _, _, _) => assert_eq!(s, "quote"),
                _ => panic!("expected the quote symbol"),
            }
        }
        _ => panic!("expected quote sugar"),
    }
    assert!(calcit_eq(&read("0x10").unwrap(), &num(16)));
    assert!(calcit_eq(&read("0xfF").unwrap(), &num(255)));
    assert!(calcit_eq(&read("0xffffffff").unwrap(), &num(4294967295)));
    assert!(matches!(
        read("0xzz").unwrap_err().kind,
        ErrKind::TypeMismatch
    ));
    assert!(matches!(
        read("0x").unwrap_err().kind,
        ErrKind::TypeMismatch
    ));
    assert!(matches!(
        read("0x100000000").unwrap_err().kind,
        ErrKind::TypeMismatch
    ));
    assert!(matches!(
        read("3.5").unwrap_err().kind,
        ErrKind::TypeMismatch
    ));
    assert!(matches!(read("").unwrap_err().kind, ErrKind::TypeMismatch));
}

#[test]
fn code_lists_drop_comments() {
    let st = stack();
    let tree = CodeTree::List(vec![
        CodeTree::Leaf("1".to_string()),
        CodeTree::List(vec![
            CodeTree::Leaf(";".to_string()),
            CodeTree::Leaf("note".to_string()),
        ]),
        CodeTree::Leaf("2".to_string()),
    ]);
    match code_to_calcit(&tree, "ns", "d", &st).unwrap() {
        Calcit::List(xs) => {
            assert_eq!(xs.len(), 2);
            assert!(calcit_eq(&xs[0], &num(1)));
            assert!(calcit_eq(&xs[1], &num(2)));
        }
        _ => panic!("expected a list"),
    }
}

#[test]
fn code_forms_write_back_as_trees() {
    let st = stack();
    let form = lst_of(vec![
        Calcit::Symbol("if".to_string(), "n".to_string(), "d".to_string(), None),
        Calcit::Bool(true),
        num(16),
        Calcit::Str("txt".to_string()),
    ]);
    match calcit_to_cirru(&form, &st).unwrap() {
        CodeTree::List(xs) => {
            assert_eq!(xs.len(), 4);
            assert!(matches!(&xs[0], CodeTree::Leaf(s) if s == "if"));
            assert!(matches!(&xs[1], CodeTree::Leaf(s) if s == "true"));
            assert!(matches!(&xs[2], CodeTree::Leaf(s) if s == "16"));
            assert!(matches!(&xs[3], CodeTree::Leaf(s) if s == "|txt"));
        }
        _ => panic!("expected a tree list"),
    }
    let opaque = lst_of(vec![Calcit::Recur(vec![])]);
    assert!(matches!(
        calcit_to_cirru(&opaque, &st).unwrap_err().kind,
        ErrKind::TypeMismatch
    ));
}

fn lst_of(xs: Vec<Calcit>) -> Calcit {
    Calcit::List(xs)
}

#[test]
fn module_paths_resolve() {
    assert_eq!(
        resolve_module_path("./lib/", "/work", "/home/u"),
        "/work/./lib/compact.cirru"
    );
    assert_eq!(resolve_module_path("/abs/x.cirru", "/work", "/home/u"), "/abs/x.cirru");
    assert_eq!(
        resolve_module_path("shared", "/work", "/home/u"),
        "/home/u/.config/calcit/modules/shared"
    );
}
