//! The builtin registry: pure procedures and the names of special
//! syntaxes.  Membership of both tables is fixed at startup; the evaluator
//! picks the table by the head value's tag.

pub mod effects;
pub mod lists;
pub mod logics;
pub mod maps;
pub mod math;
pub mod meta;
pub mod records;
pub mod sets;
pub mod strings;
pub mod syntax;

use vstd::prelude::*;

use crate::primes::{cv_seq, Calcit, CalcitErr, CalcitItems, CalcitSyntax, ErrKind, ErrV, Val};
use crate::program::{ProgV, Program};
use crate::util::str_eq;

verus! {

broadcast use crate::primes::lemma_cv_seq_index, crate::primes::lemma_cv_seq_len;

/// The names of the builtin procedures.
pub open spec fn is_proc(s: Seq<char>) -> bool {
    ||| s == "type-of"@
    ||| s == "recur"@
    ||| s == "format-to-lisp"@
    ||| s == "echo"@
    ||| s == "echo-values"@
    ||| s == "raise"@
    ||| s == "&="@
    ||| s == "&<"@
    ||| s == "&>"@
    ||| s == "not"@
    ||| s == "&+"@
    ||| s == "&-"@
    ||| s == "&*"@
    ||| s == "&/"@
    ||| s == "round"@
    ||| s == "fractional"@
    ||| s == "&str-concat"@
    ||| s == "[]"@
    ||| s == "&{}"@
    ||| s == "#{}"@
    ||| s == "empty?"@
    ||| s == "count"@
    ||| s == "nth"@
    ||| s == "slice"@
    ||| s == "append"@
    ||| s == "prepend"@
    ||| s == "rest"@
    ||| s == "butlast"@
    ||| s == "get"@
    ||| s == "deref"@
    ||| s == "new-record"@
    ||| s == "new-class-record"@
    ||| s == "&%{}"@
    ||| s == "&record:class"@
    ||| s == "&record:with-class"@
    ||| s == "&record:from-map"@
    ||| s == "&record:get-name"@
    ||| s == "&record:to-map"@
    ||| s == "&record:matches?"@
    ||| s == "&record:contains?"@
    ||| s == "&record:get"@
    ||| s == "&record:assoc"@
    ||| s == "&record:extend-as"@
    ||| s == "&record:count"@
}

/// Whether a name belongs to a builtin procedure.
pub fn is_proc_name(s: &str) -> (res: bool)
    ensures
        res == is_proc(s@),
{
    str_eq(s, "type-of") || str_eq(s, "recur") || str_eq(s, "format-to-lisp") || str_eq(s, "echo")
        || str_eq(s, "echo-values") || str_eq(s, "raise") || str_eq(s, "&=") || str_eq(s, "&<")
        || str_eq(s, "&>") || str_eq(s, "not") || str_eq(s, "&+") || str_eq(s, "&-") || str_eq(
        s,
        "&*",
    ) || str_eq(s, "&/") || str_eq(s, "round") || str_eq(s, "fractional") || str_eq(
        s,
        "&str-concat",
    ) || str_eq(s, "[]") || str_eq(s, "&{}") || str_eq(s, "#{}") || str_eq(s, "empty?") || str_eq(
        s,
        "count",
    ) || str_eq(s, "nth") || str_eq(s, "slice") || str_eq(s, "append") || str_eq(s, "prepend")
        || str_eq(s, "rest") || str_eq(s, "butlast") || str_eq(s, "get") || str_eq(s, "deref")
        || str_eq(s, "new-record") || str_eq(s, "new-class-record") || str_eq(s, "&%{}") || str_eq(
        s,
        "&record:class",
    ) || str_eq(s, "&record:with-class") || str_eq(s, "&record:from-map") || str_eq(
        s,
        "&record:get-name",
    ) || str_eq(s, "&record:to-map") || str_eq(s, "&record:matches?") || str_eq(
        s,
        "&record:contains?",
    ) || str_eq(s, "&record:get") || str_eq(s, "&record:assoc") || str_eq(s, "&record:extend-as")
        || str_eq(s, "&record:count")
}

/// Which special form a name means, the alias included.
pub open spec fn syntax_kind_of(s: Seq<char>) -> Option<CalcitSyntax> {
    if s == "defn"@ {
        Some(CalcitSyntax::Defn)
    } else if s == "defmacro"@ {
        Some(CalcitSyntax::Defmacro)
    } else if s == "if"@ {
        Some(CalcitSyntax::If)
    } else if s == "&let"@ {
        Some(CalcitSyntax::CoreLet)
    } else if s == "quote"@ {
        Some(CalcitSyntax::Quote)
    } else if s == "quasiquote"@ {
        Some(CalcitSyntax::Quasiquote)
    } else if s == "quote-replace"@ {
        Some(CalcitSyntax::Quasiquote)
    } else if s == "eval"@ {
        Some(CalcitSyntax::Eval)
    } else if s == "try"@ {
        Some(CalcitSyntax::Try)
    } else if s == "macroexpand"@ {
        Some(CalcitSyntax::Macroexpand)
    } else if s == "macroexpand-1"@ {
        Some(CalcitSyntax::Macroexpand1)
    } else if s == "macroexpand-all"@ {
        Some(CalcitSyntax::MacroexpandAll)
    } else if s == "defatom"@ {
        Some(CalcitSyntax::Defatom)
    } else if s == "reset!"@ {
        Some(CalcitSyntax::Reset)
    } else if s == "hint-fn"@ {
        Some(CalcitSyntax::HintFn)
    } else if s == "foldl"@ {
        Some(CalcitSyntax::Foldl)
    } else {
        None
    }
}

/// Whether a name belongs to a special form.
pub open spec fn is_syntax(s: Seq<char>) -> bool {
    syntax_kind_of(s) is Some
}

/// Whether a name belongs to a special form.
pub fn is_syntax_name(s: &str) -> (res: bool)
    ensures
        res == is_syntax(s@),
{
    syntax_kind(s).is_some()
}

/// The special form a name means, if any.
pub fn syntax_kind(s: &str) -> (res: Option<CalcitSyntax>)
    ensures
        res == syntax_kind_of(s@),
{
    if str_eq(s, "defn") {
        Some(CalcitSyntax::Defn)
    } else if str_eq(s, "defmacro") {
        Some(CalcitSyntax::Defmacro)
    } else if str_eq(s, "if") {
        Some(CalcitSyntax::If)
    } else if str_eq(s, "&let") {
        Some(CalcitSyntax::CoreLet)
    } else if str_eq(s, "quote") {
        Some(CalcitSyntax::Quote)
    } else if str_eq(s, "quasiquote") {
        Some(CalcitSyntax::Quasiquote)
    } else if str_eq(s, "quote-replace") {
        Some(CalcitSyntax::Quasiquote)
    } else if str_eq(s, "eval") {
        Some(CalcitSyntax::Eval)
    } else if str_eq(s, "try") {
        Some(CalcitSyntax::Try)
    } else if str_eq(s, "macroexpand") {
        Some(CalcitSyntax::Macroexpand)
    } else if str_eq(s, "macroexpand-1") {
        Some(CalcitSyntax::Macroexpand1)
    } else if str_eq(s, "macroexpand-all") {
        Some(CalcitSyntax::MacroexpandAll)
    } else if str_eq(s, "defatom") {
        Some(CalcitSyntax::Defatom)
    } else if str_eq(s, "reset!") {
        Some(CalcitSyntax::Reset)
    } else if str_eq(s, "hint-fn") {
        Some(CalcitSyntax::HintFn)
    } else if str_eq(s, "foldl") {
        Some(CalcitSyntax::Foldl)
    } else {
        None
    }
}

/// What `deref` gives: the value a reference cell holds.
pub open spec fn deref_spec(args: Seq<Val>, prog: ProgV) -> Result<Val, ErrV> {
    if args.len() != 1 {
        Err(ErrV { kind: ErrKind::Arity, msg: "deref expected 1 argument"@, stack: prog.stack })
    } else {
        match args[0] {
            Val::Ref(name) => match crate::program::ref_read(prog.refs, name) {
                Some(v) => Ok(v),
                None => Err(
                    ErrV {
                        kind: ErrKind::UnknownSymbol,
                        msg: "no such reference"@,
                        stack: prog.stack,
                    },
                ),
            },
            _ => Err(
                ErrV {
                    kind: ErrKind::TypeMismatch,
                    msg: "deref expected a reference"@,
                    stack: prog.stack,
                },
            ),
        }
    }
}

/// What a procedure, named by `name`, gives on `args`, and how it changes
/// the program state: only the output-writing procedures change it.
pub open spec fn handle_proc_spec(name: Seq<char>, args: Seq<Val>, prog: ProgV) -> (
    ProgV,
    Result<Val, ErrV>,
) {
    let stack = prog.stack;
    if name == "echo"@ {
        effects::echo_spec(args, prog)
    } else if name == "echo-values"@ {
        effects::echo_values_spec(args, prog)
    } else if name == "deref"@ {
        (prog, deref_spec(args, prog))
    } else {
        (
            prog,
            if name == "type-of"@ {
                meta::type_of_spec(args, stack)
            } else if name == "recur"@ {
                meta::recur_spec(args, stack)
            } else if name == "format-to-lisp"@ {
                meta::format_to_lisp_spec(args, stack)
            } else if name == "raise"@ {
                effects::raise_spec(args, stack)
            } else if name == "&="@ {
                logics::binary_equal_spec(args, stack)
            } else if name == "&<"@ {
                logics::binary_less_spec(args, stack)
            } else if name == "&>"@ {
                logics::binary_greater_spec(args, stack)
            } else if name == "not"@ {
                logics::not_spec(args, stack)
            } else if name == "&+"@ {
                math::binary_add_spec(args, stack)
            } else if name == "&-"@ {
                math::binary_minus_spec(args, stack)
            } else if name == "&*"@ {
                math::binary_multiply_spec(args, stack)
            } else if name == "&/"@ {
                math::binary_divide_spec(args, stack)
            } else if name == "round"@ {
                math::round_spec(args, stack)
            } else if name == "fractional"@ {
                math::fractional_spec(args, stack)
            } else if name == "&str-concat"@ {
                strings::binary_str_concat_spec(args, stack)
            } else if name == "[]"@ {
                lists::new_list_spec(args, stack)
            } else if name == "&{}"@ {
                maps::call_new_map_spec(args, stack)
            } else if name == "#{}"@ {
                sets::new_set_spec(args, stack)
            } else if name == "empty?"@ {
                lists::empty_ques_spec(args, stack)
            } else if name == "count"@ {
                lists::count_spec(args, stack)
            } else if name == "nth"@ {
                lists::nth_spec(args, stack)
            } else if name == "slice"@ {
                lists::slice_spec(args, stack)
            } else if name == "append"@ {
                lists::append_spec(args, stack)
            } else if name == "prepend"@ {
                lists::prepend_spec(args, stack)
            } else if name == "rest"@ {
                lists::rest_spec(args, stack)
            } else if name == "butlast"@ {
                lists::butlast_spec(args, stack)
            } else if name == "get"@ {
                maps::get_spec(args, stack)
            } else if name == "new-record"@ {
                records::new_record_spec(args, stack)
            } else if name == "new-class-record"@ {
                records::new_class_record_spec(args, stack)
            } else if name == "&%{}"@ {
                records::call_record_spec(args, stack)
            } else if name == "&record:class"@ {
                records::get_class_spec(args, stack)
            } else if name == "&record:with-class"@ {
                records::with_class_spec(args, stack)
            } else if name == "&record:from-map"@ {
                records::record_from_map_spec(args, stack)
            } else if name == "&record:get-name"@ {
                records::get_record_name_spec(args, stack)
            } else if name == "&record:to-map"@ {
                records::turn_map_spec(args, stack)
            } else if name == "&record:matches?"@ {
                records::record_matches_spec(args, stack)
            } else if name == "&record:contains?"@ {
                records::contains_ques_spec(args, stack)
            } else if name == "&record:get"@ {
                records::record_get_spec(args, stack)
            } else if name == "&record:assoc"@ {
                records::record_assoc_spec(args, stack)
            } else if name == "&record:extend-as"@ {
                records::extend_as_spec(args, stack)
            } else if name == "&record:count"@ {
                records::record_count_spec(args, stack)
            } else {
                Err(ErrV { kind: ErrKind::UnknownSymbol, msg: "no such procedure"@, stack })
            },
        )
    }
}

/// Runs a builtin procedure by name.
pub fn handle_proc(name: &str, xs: &CalcitItems, prog: &mut Program) -> (res: Result<
    Calcit,
    CalcitErr,
>)
    ensures
        ({
            let out = handle_proc_spec(name@, cv_seq(xs@), old(prog)@);
            final(prog)@ == out.0 && crate::primes::res_view(res) == out.1
        }),
{
    if str_eq(name, "echo") {
        return effects::echo(xs, prog);
    }
    if str_eq(name, "echo-values") {
        return effects::echo_values(xs, prog);
    }
    if str_eq(name, "deref") {
        if xs.len() != 1 {
            return Err(CalcitErr::new(ErrKind::Arity, "deref expected 1 argument", &prog.stack));
        }
        proof {
            assert(cv_seq(xs@)[0] == crate::primes::cv(xs@[0]));
        }
        match &xs[0] {
            Calcit::Ref(r_name) => match crate::program::read_ref(prog, r_name.as_str()) {
                Some(v) => {
                    return Ok(v);
                },
                None => {
                    return Err(
                        CalcitErr::new(ErrKind::UnknownSymbol, "no such reference", &prog.stack),
                    );
                },
            },
            _ => {
                return Err(
                    CalcitErr::new(ErrKind::TypeMismatch, "deref expected a reference", &prog.stack),
                );
            },
        }
    }
    let stack = &prog.stack;
    if str_eq(name, "type-of") {
        meta::type_of(xs, stack)
    } else if str_eq(name, "recur") {
        meta::recur(xs, stack)
    } else if str_eq(name, "format-to-lisp") {
        meta::format_to_lisp(xs, stack)
    } else if str_eq(name, "raise") {
        effects::raise(xs, stack)
    } else if str_eq(name, "&=") {
        logics::binary_equal(xs, stack)
    } else if str_eq(name, "&<") {
        logics::binary_less(xs, stack)
    } else if str_eq(name, "&>") {
        logics::binary_greater(xs, stack)
    } else if str_eq(name, "not") {
        logics::not(xs, stack)
    } else if str_eq(name, "&+") {
        math::binary_add(xs, stack)
    } else if str_eq(name, "&-") {
        math::binary_minus(xs, stack)
    } else if str_eq(name, "&*") {
        math::binary_multiply(xs, stack)
    } else if str_eq(name, "&/") {
        math::binary_divide(xs, stack)
    } else if str_eq(name, "round") {
        math::round(xs, stack)
    } else if str_eq(name, "fractional") {
        math::fractional(xs, stack)
    } else if str_eq(name, "&str-concat") {
        strings::binary_str_concat(xs, stack)
    } else if str_eq(name, "[]") {
        lists::new_list(xs, stack)
    } else if str_eq(name, "&{}") {
        maps::call_new_map(xs, stack)
    } else if str_eq(name, "#{}") {
        sets::new_set(xs, stack)
    } else if str_eq(name, "empty?") {
        lists::empty_ques(xs, stack)
    } else if str_eq(name, "count") {
        lists::count(xs, stack)
    } else if str_eq(name, "nth") {
        lists::nth(xs, stack)
    } else if str_eq(name, "slice") {
        lists::slice(xs, stack)
    } else if str_eq(name, "append") {
        lists::append(xs, stack)
    } else if str_eq(name, "prepend") {
        lists::prepend(xs, stack)
    } else if str_eq(name, "rest") {
        lists::rest(xs, stack)
    } else if str_eq(name, "butlast") {
        lists::butlast(xs, stack)
    } else if str_eq(name, "get") {
        maps::get(xs, stack)
    } else if str_eq(name, "new-record") {
        records::new_record(xs, stack)
    } else if str_eq(name, "new-class-record") {
        records::new_class_record(xs, stack)
    } else if str_eq(name, "&%{}") {
        records::call_record(xs, stack)
    } else if str_eq(name, "&record:class") {
        records::get_class(xs, stack)
    } else if str_eq(name, "&record:with-class") {
        records::with_class(xs, stack)
    } else if str_eq(name, "&record:from-map") {
        records::record_from_map(xs, stack)
    } else if str_eq(name, "&record:get-name") {
        records::get_record_name(xs, stack)
    } else if str_eq(name, "&record:to-map") {
        records::turn_map(xs, stack)
    } else if str_eq(name, "&record:matches?") {
        records::matches(xs, stack)
    } else if str_eq(name, "&record:contains?") {
        records::contains_ques(xs, stack)
    } else if str_eq(name, "&record:get") {
        records::get(xs, stack)
    } else if str_eq(name, "&record:assoc") {
        records::assoc(xs, stack)
    } else if str_eq(name, "&record:extend-as") {
        records::extend_as(xs, stack)
    } else if str_eq(name, "&record:count") {
        records::count(xs, stack)
    } else {
        Err(CalcitErr::new(ErrKind::UnknownSymbol, "no such procedure", stack))
    }
}

} // verus!
