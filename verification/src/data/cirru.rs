//! The generic code tree: nested lists of plain leaves, as a parser hands
//! them over, and the reading of leaves into runtime values.  Numbers are
//! integral here; a literal with a fractional part is refused.

use vstd::prelude::*;

use crate::primes::{
    cv, cv_seq, dec_repr, lisp_repr, res_view, syntax_repr, Calcit, CalcitErr, CalcitItems,
    ErrKind, ErrV, Val,
};
use crate::util::str_eq;

verus! {

broadcast use crate::primes::lemma_cv_seq_index, crate::primes::lemma_cv_seq_len;

/// A parsed code tree: a leaf of text, or a list of trees.
#[derive(Debug)]
pub enum CodeTree {
    Leaf(String),
    List(Vec<CodeTree>),
}

/// Mathematical view of a code tree.
pub enum TreeV {
    Leaf(Seq<char>),
    List(Seq<TreeV>),
}

/// View of a code tree.
pub open spec fn tv(t: CodeTree) -> TreeV
    decreases t,
{
    match t {
        CodeTree::Leaf(s) => TreeV::Leaf(s@),
        CodeTree::List(xs) => TreeV::List(tv_seq(xs@)),
    }
}

/// View of a run of code trees.
pub open spec fn tv_seq(xs: Seq<CodeTree>) -> Seq<TreeV>
    decreases xs,
{
    Seq::new(
        xs.len(),
        |i: int|
            if 0 <= i < xs.len() {
                tv(xs[i])
            } else {
                TreeV::Leaf(Seq::empty())
            },
    )
}

/// A run of code trees views pointwise.
pub broadcast proof fn lemma_tv_seq_index(xs: Seq<CodeTree>, i: int)
    requires
        0 <= i < xs.len(),
    ensures
        #[trigger] tv_seq(xs)[i] == tv(xs[i]),
{
}

/// A run of code trees keeps its length in view.
pub broadcast proof fn lemma_tv_seq_len(xs: Seq<CodeTree>)
    ensures
        (#[trigger] tv_seq(xs)).len() == xs.len(),
{
}

/// Whether a character is a decimal digit.
pub open spec fn is_digit(c: char) -> bool {
    '0' <= c && c <= '9'
}

/// Whether every character is a decimal digit.
pub open spec fn all_digits(s: Seq<char>) -> bool {
    forall|i: int| 0 <= i < s.len() ==> is_digit(#[trigger] s[i])
}

/// A digit's value.
pub open spec fn digit_val(c: char) -> int {
    c as u32 - 48
}

/// The number a run of digits spells.
pub open spec fn int_of_digits(s: Seq<char>) -> int
    decreases s.len(),
{
    if s.len() == 0 {
        0
    } else {
        int_of_digits(s.drop_last()) * 10 + digit_val(s.last())
    }
}

/// Index of the first `.`; the length when there is none.
pub open spec fn dot_at(s: Seq<char>) -> int
    decreases s.len(),
{
    if s.len() == 0 {
        0
    } else if s[0] == '.' {
        0
    } else {
        1 + dot_at(s.skip(1))
    }
}

/// What the first-dot index means.
pub proof fn lemma_dot_at(s: Seq<char>)
    ensures
        0 <= dot_at(s) <= s.len(),
        forall|k: int| 0 <= k < dot_at(s) ==> s[k] != '.',
        dot_at(s) < s.len() ==> s[dot_at(s)] == '.',
    decreases s.len(),
{
    if s.len() == 0 {
    } else if s[0] == '.' {
    } else {
        lemma_dot_at(s.skip(1));
        assert forall|k: int| 0 <= k < dot_at(s) implies s[k] != '.' by {
            if k > 0 {
                assert(s.skip(1)[k - 1] == s[k]);
            }
        }
        if dot_at(s) < s.len() {
            assert(s.skip(1)[dot_at(s.skip(1))] == s[dot_at(s)]);
        }
    }
}

/// The body of a numeric literal, past an optional minus sign.
pub open spec fn num_body(s: Seq<char>) -> Seq<char> {
    if s.len() > 0 && s[0] == '-' {
        s.skip(1)
    } else {
        s
    }
}

/// Whether a leaf spells a number: an optional minus, digits, and an
/// optional fraction of digits.
pub open spec fn float_lit(s: Seq<char>) -> bool {
    let b = num_body(s);
    let d = dot_at(b);
    if d == b.len() {
        b.len() > 0 && all_digits(b)
    } else {
        d >= 1 && d + 1 < b.len() && all_digits(b.take(d)) && all_digits(b.skip(d + 1)) && dot_at(
            b.skip(d + 1),
        ) == b.len() - d - 1
    }
}

/// Whether a leaf spells an integer: an optional minus and digits only.
pub open spec fn int_lit(s: Seq<char>) -> bool {
    float_lit(s) && dot_at(num_body(s)) == num_body(s).len()
}

/// The number an integer literal spells.
pub open spec fn int_lit_val(s: Seq<char>) -> int {
    if s.len() > 0 && s[0] == '-' {
        -int_of_digits(s.skip(1))
    } else {
        int_of_digits(s)
    }
}

/// Position of the first dot in a string.
fn find_dot(s: &str, from: usize) -> (res: usize)
    requires
        from <= s@.len(),
    ensures
        res as int == from + dot_at(s@.skip(from as int)),
{
    let ghost body = s@.skip(from as int);
    proof {
        lemma_dot_at(body);
    }
    let n = s.unicode_len();
    let mut i: usize = from;
    #[verifier::loop_isolation(false)]
    while i < n
        invariant
            from <= i <= n,
            forall|k: int| 0 <= k < i - from ==> body[k] != '.',
        decreases n - i,
    {
        proof {
            assert(body[i - from] == s@[i as int]);
        }
        if s.get_char(i) == '.' {
            proof {
                let at = dot_at(body);
                if at < i - from {
                    assert(body[at] != '.');
                }
                if at > i - from {
                    assert(body[i - from] != '.');
                }
            }
            return i;
        }
        i = i + 1;
    }
    proof {
        let at = dot_at(body);
        if at < body.len() {
            assert(body[at] != '.');
        }
    }
    n
}

/// Whether every character from `from` on is a digit.
fn digits_from(s: &str, from: usize, to: usize) -> (res: bool)
    requires
        from <= to <= s@.len(),
    ensures
        res == all_digits(s@.subrange(from as int, to as int)),
{
    let ghost body = s@.subrange(from as int, to as int);
    let mut i: usize = from;
    #[verifier::loop_isolation(false)]
    while i < to
        invariant
            from <= i <= to,
            forall|k: int| 0 <= k < i - from ==> is_digit(#[trigger] body[k]),
        decreases to - i,
    {
        let c = s.get_char(i);
        proof {
            assert(body[i - from] == s@[i as int]);
        }
        if !(c >= '0' && c <= '9') {
            proof {
                assert(!is_digit(body[i - from]));
            }
            return false;
        }
        i = i + 1;
    }
    true
}

/// Whether a leaf spells a number, fractional part allowed.
pub fn matches_float(x: &str) -> (res: bool)
    ensures
        res == float_lit(x@),
{
    let n = x.unicode_len();
    let start: usize = if n > 0 && x.get_char(0) == '-' {
        1
    } else {
        0
    };
    let ghost b = num_body(x@);
    proof {
        assert(b =~= x@.skip(start as int));
        lemma_dot_at(b);
    }
    if start >= n {
        proof {
            assert(b.len() == 0);
        }
        return false;
    }
    let d = find_dot(x, start);
    proof {
        assert(dot_at(b) == d - start);
    }
    if d == n {
        let r = digits_from(x, start, n);
        proof {
            assert(x@.subrange(start as int, n as int) =~= b);
        }
        r
    } else {
        if d == start || d + 1 >= n {
            return false;
        }
        let head_ok = digits_from(x, start, d);
        if !head_ok {
            proof {
                assert(x@.subrange(start as int, d as int) =~= b.take(d - start));
            }
            return false;
        }
        let tail_ok = digits_from(x, d + 1, n);
        if !tail_ok {
            proof {
                assert(x@.subrange(d + 1, n as int) =~= b.skip(d - start + 1));
            }
            return false;
        }
        let d2 = find_dot(x, d + 1);
        proof {
            assert(x@.skip(d + 1) =~= b.skip(d - start + 1));
            assert(x@.subrange(start as int, d as int) =~= b.take(d - start));
            assert(x@.subrange(d + 1, n as int) =~= b.skip(d - start + 1));
        }
        d2 == n
    }
}

/// Whether a form is a comment: a list headed by the `;` symbol.
pub open spec fn is_comment_v(v: Val) -> bool {
    match v {
        Val::List(ys) => ys.len() > 0 && (ys[0] matches Val::Symbol(s, _, _, _) && s == ";"@),
        _ => false,
    }
}

/// Whether a form is a comment.
pub fn is_comment(x: &Calcit) -> (res: bool)
    ensures
        res == is_comment_v(cv(*x)),
{
    match x {
        Calcit::List(ys) => {
            proof {
                assert(cv(*x) == Val::List(cv_seq(ys@)));
            }
            if ys.len() == 0 {
                return false;
            }
            proof {
                assert(cv_seq(ys@)[0] == cv(ys@[0]));
            }
            match &ys[0] {
                Calcit::Symbol(s, _, _, _) => str_eq(s.as_str(), ";"),
                _ => false,
            }
        },
        _ => false,
    }
}

/// A run of digits spells a nonnegative number.
pub proof fn lemma_int_digits_nonneg(s: Seq<char>)
    requires
        all_digits(s),
    ensures
        int_of_digits(s) >= 0,
    decreases s.len(),
{
    if s.len() == 0 {
    } else {
        assert(all_digits(s.drop_last())) by {
            assert(forall|i: int|
                0 <= i < s.drop_last().len() ==> #[trigger] s.drop_last()[i] == s[i]);
        }
        lemma_int_digits_nonneg(s.drop_last());
    }
}

/// A longer run of digits spells no smaller number.
pub proof fn lemma_int_digits_mono(s: Seq<char>, k: int)
    requires
        all_digits(s),
        0 <= k <= s.len(),
    ensures
        int_of_digits(s.take(k)) <= int_of_digits(s),
    decreases s.len() - k,
{
    if k == s.len() {
        assert(s.take(k) =~= s);
    } else {
        assert(all_digits(s.take(k + 1))) by {
            assert(forall|i: int| 0 <= i < k + 1 ==> #[trigger] s.take(k + 1)[i] == s[i]);
        }
        assert(s.take(k + 1).drop_last() =~= s.take(k));
        assert(s.take(k + 1).last() == s[k]);
        lemma_int_digits_nonneg(s.take(k));
        assert(int_of_digits(s.take(k + 1)) == int_of_digits(s.take(k)) * 10 + digit_val(s[k]));
        assert(int_of_digits(s.take(k)) * 10 >= int_of_digits(s.take(k))) by (nonlinear_arith)
            requires
                int_of_digits(s.take(k)) >= 0,
        ;
        lemma_int_digits_mono(s, k + 1);
    }
}

/// Reads a run of digits as a number; a value past the signed range is an
/// error.
fn parse_digits(s: &str, from: usize, to: usize) -> (res: Option<u64>)
    requires
        from <= to <= s@.len(),
        all_digits(s@.subrange(from as int, to as int)),
    ensures
        ({
            let v = int_of_digits(s@.subrange(from as int, to as int));
            match res {
                Some(n) => n as int == v && v <= 0x8000_0000_0000_0000int,
                None => v > 0x8000_0000_0000_0000int,
            }
        }),
{
    let ghost body = s@.subrange(from as int, to as int);
    let mut acc: u64 = 0;
    let mut i: usize = from;
    proof {
        assert(body.take(0) =~= Seq::<char>::empty());
    }
    #[verifier::loop_isolation(false)]
    while i < to
        invariant
            from <= i <= to,
            acc as int == int_of_digits(body.take(i - from)),
            acc <= 0x8000_0000_0000_0000u64,
        decreases to - i,
    {
        let c = s.get_char(i);
        proof {
            assert(body[i - from] == s@[i as int]);
            assert(is_digit(body[i - from]));
            assert(body.take(i - from + 1).drop_last() =~= body.take(i - from));
            assert(body.take(i - from + 1).last() == body[i - from]);
        }
        let d: u64 = (c as u32 as u64) - 48;
        let next = match acc.checked_mul(10) {
            Some(m) => m.checked_add(d),
            None => None,
        };
        match next {
            Some(n) => {
                if n > 0x8000_0000_0000_0000u64 {
                    proof {
                        lemma_int_digits_mono(body, i - from + 1);
                    }
                    return None;
                }
                acc = n;
            },
            None => {
                proof {
                    assert(int_of_digits(body.take(i - from + 1)) > 0x8000_0000_0000_0000int);
                    lemma_int_digits_mono(body, i - from + 1);
                }
                return None;
            },
        }
        i = i + 1;
    }
    proof {
        assert(body.take(to - from) =~= body);
    }
    Some(acc)
}

/// Reads an integer literal, sign included; a value past the signed range
/// is refused.
pub fn parse_int_lit(s: &str) -> (res: Option<i64>)
    requires
        int_lit(s@),
    ensures
        match res {
            Some(n) => n as int == int_lit_val(s@) && i64::MIN <= int_lit_val(s@) <= i64::MAX,
            None => !(i64::MIN <= int_lit_val(s@) <= i64::MAX),
        },
{
    let n = s.unicode_len();
    let neg = n > 0 && s.get_char(0) == '-';
    let start: usize = if neg {
        1
    } else {
        0
    };
    proof {
        assert(num_body(s@) =~= s@.skip(start as int));
        assert(s@.subrange(start as int, n as int) =~= s@.skip(start as int));
        if neg {
            assert(int_lit_val(s@) == -int_of_digits(s@.skip(1)));
        } else {
            assert(int_lit_val(s@) == int_of_digits(s@));
            assert(s@.skip(0) =~= s@);
        }
        lemma_int_digits_nonneg(s@.subrange(start as int, n as int));
    }
    match parse_digits(s, start, n) {
        None => None,
        Some(m) => {
            if neg {
                if m == 0x8000_0000_0000_0000u64 {
                    Some(i64::MIN)
                } else if m <= i64::MAX as u64 {
                    Some(-(m as i64))
                } else {
                    Some(i64::MIN)
                }
            } else {
                if m <= i64::MAX as u64 {
                    Some(m as i64)
                } else {
                    None
                }
            }
        },
    }
}


/// Whether a character is a hexadecimal digit, either case.
pub open spec fn is_hex_digit(c: char) -> bool {
    ('0' <= c && c <= '9') || ('a' <= c && c <= 'f') || ('A' <= c && c <= 'F')
}

/// Whether every character is a hexadecimal digit.
pub open spec fn all_hex(s: Seq<char>) -> bool {
    forall|i: int| 0 <= i < s.len() ==> is_hex_digit(#[trigger] s[i])
}

/// A hexadecimal digit's value.
pub open spec fn hex_val(c: char) -> int {
    if '0' <= c && c <= '9' {
        c as u32 - 48
    } else if 'a' <= c && c <= 'f' {
        c as u32 - 87
    } else {
        c as u32 - 55
    }
}

/// The number a run of hexadecimal digits spells.
pub open spec fn int_of_hex(s: Seq<char>) -> int
    decreases s.len(),
{
    if s.len() == 0 {
        0
    } else {
        int_of_hex(s.drop_last()) * 16 + hex_val(s.last())
    }
}

/// A run of hexadecimal digits spells a nonnegative number.
pub proof fn lemma_hex_nonneg(s: Seq<char>)
    requires
        all_hex(s),
    ensures
        int_of_hex(s) >= 0,
    decreases s.len(),
{
    if s.len() == 0 {
    } else {
        assert(all_hex(s.drop_last())) by {
            assert(forall|i: int|
                0 <= i < s.drop_last().len() ==> #[trigger] s.drop_last()[i] == s[i]);
        }
        lemma_hex_nonneg(s.drop_last());
    }
}

/// A longer run of hexadecimal digits spells no smaller number.
pub proof fn lemma_hex_mono(s: Seq<char>, k: int)
    requires
        all_hex(s),
        0 <= k <= s.len(),
    ensures
        int_of_hex(s.take(k)) <= int_of_hex(s),
    decreases s.len() - k,
{
    if k == s.len() {
        assert(s.take(k) =~= s);
    } else {
        assert(all_hex(s.take(k + 1))) by {
            assert(forall|i: int| 0 <= i < k + 1 ==> #[trigger] s.take(k + 1)[i] == s[i]);
        }
        assert(s.take(k + 1).drop_last() =~= s.take(k));
        assert(s.take(k + 1).last() == s[k]);
        lemma_hex_nonneg(s.take(k));
        assert(int_of_hex(s.take(k + 1)) == int_of_hex(s.take(k)) * 16 + hex_val(s[k]));
        assert(int_of_hex(s.take(k)) * 16 >= int_of_hex(s.take(k))) by (nonlinear_arith)
            requires
                int_of_hex(s.take(k)) >= 0,
        ;
        lemma_hex_mono(s, k + 1);
    }
}

/// Reads a run of hexadecimal digits; a stray character or a value past
/// the unsigned 32-bit range is refused.
fn parse_hex_digits(s: &str, from: usize, to: usize) -> (res: Option<u32>)
    requires
        from <= to <= s@.len(),
    ensures
        ({
            let body = s@.subrange(from as int, to as int);
            match res {
                Some(n) => all_hex(body) && n as int == int_of_hex(body),
                None => !all_hex(body) || int_of_hex(body) > u32::MAX,
            }
        }),
{
    let ghost body = s@.subrange(from as int, to as int);
    let mut acc: u64 = 0;
    let mut i: usize = from;
    proof {
        assert(body.take(0) =~= Seq::<char>::empty());
    }
    #[verifier::loop_isolation(false)]
    while i < to
        invariant
            from <= i <= to,
            acc as int == int_of_hex(body.take(i - from)),
            acc <= u32::MAX as u64,
            forall|k: int| 0 <= k < i - from ==> is_hex_digit(#[trigger] body[k]),
        decreases to - i,
    {
        let c = s.get_char(i);
        proof {
            assert(body[i - from] == s@[i as int]);
        }
        let d: u64 = if c >= '0' && c <= '9' {
            (c as u32 as u64) - 48
        } else if c >= 'a' && c <= 'f' {
            (c as u32 as u64) - 87
        } else if c >= 'A' && c <= 'F' {
            (c as u32 as u64) - 55
        } else {
            proof {
                assert(!is_hex_digit(body[i - from]));
            }
            return None;
        };
        proof {
            assert(body.take(i - from + 1).drop_last() =~= body.take(i - from));
            assert(body.take(i - from + 1).last() == body[i - from]);
        }
        let next = acc * 16 + d;
        if next > u32::MAX as u64 {
            proof {
                assert(all_hex(body.take(i - from + 1))) by {
                    assert(forall|k: int|
                        0 <= k < i - from + 1 ==> #[trigger] body.take(i - from + 1)[k] == body[k]);
                }
                if all_hex(body) {
                    lemma_hex_mono(body, i - from + 1);
                }
            }
            return None;
        }
        acc = next;
        i = i + 1;
    }
    proof {
        assert(body.take(to - from) =~= body);
    }
    Some(acc as u32)
}

/// What one leaf reads as: literals, keywords, strings, markers with their
/// sugar, numbers, and symbols for everything else.
pub open spec fn code_leaf_spec(s: Seq<char>, ns: Seq<char>, def: Seq<char>) -> Result<
    Val,
    (ErrKind, Seq<char>),
> {
    if s == "nil"@ {
        Ok(Val::Nil)
    } else if s == "true"@ {
        Ok(Val::Bool(true))
    } else if s == "false"@ {
        Ok(Val::Bool(false))
    } else if s == "&newline"@ {
        Ok(Val::Str("\n"@))
    } else if s == "&tab"@ {
        Ok(Val::Str("\t"@))
    } else if s.len() == 0 {
        Err((ErrKind::TypeMismatch, "empty string is invalid"@))
    } else if s[0] == ':' {
        if s == "::"@ {
            Ok(Val::Symbol(s, ns, def, None))
        } else {
            Ok(Val::Keyword(s.skip(1)))
        }
    } else if s[0] == '.' {
        if s.len() >= 2 && (s[1] == '-' || s[1] == '!') {
            Ok(Val::Symbol(s, ns, def, None))
        } else {
            Ok(Val::Proc(s))
        }
    } else if s[0] == '"' || s[0] == '|' {
        Ok(Val::Str(s.skip(1)))
    } else if s[0] == '\'' && s.len() > 1 {
        Ok(
            Val::List(
                seq![
                    Val::Symbol("quote"@, ns, def, None),
                    Val::Symbol(s.skip(1), ns, def, None),
                ],
            ),
        )
    } else if s[0] == '~' && s.len() > 2 && s[1] == '@' {
        Ok(
            Val::List(
                seq![Val::Symbol("~@"@, ns, def, None), Val::Symbol(s.skip(2), ns, def, None)],
            ),
        )
    } else if s[0] == '~' && s.len() > 1 && s[1] != '@' {
        Ok(
            Val::List(
                seq![Val::Symbol("~"@, ns, def, None), Val::Symbol(s.skip(1), ns, def, None)],
            ),
        )
    } else if s[0] == '@' {
        Ok(
            Val::List(
                seq![Val::Symbol("deref"@, ns, def, None), Val::Symbol(s.skip(1), ns, def, None)],
            ),
        )
    } else if s.len() >= 2 && s[0] == '0' && s[1] == 'x' {
        if s.len() > 2 && all_hex(s.skip(2)) && int_of_hex(s.skip(2)) <= u32::MAX {
            Ok(Val::Number(int_of_hex(s.skip(2))))
        } else {
            Err((ErrKind::TypeMismatch, "failed to parse hex"@))
        }
    } else if float_lit(s) {
        if int_lit(s) {
            if i64::MIN <= int_lit_val(s) <= i64::MAX {
                Ok(Val::Number(int_lit_val(s)))
            } else {
                Err((ErrKind::NumericOverflow, "number literal is out of range"@))
            }
        } else {
            Err((ErrKind::TypeMismatch, "fractional literals are not supported"@))
        }
    } else {
        Ok(Val::Symbol(s, ns, def, None))
    }
}

/// What a code tree reads as; comments are dropped from lists.
pub open spec fn code_to_calcit_spec(t: TreeV, ns: Seq<char>, def: Seq<char>) -> Result<
    Val,
    (ErrKind, Seq<char>),
>
    decreases t,
{
    match t {
        TreeV::Leaf(s) => code_leaf_spec(s, ns, def),
        TreeV::List(ys) => match code_items_spec(ys, ns, def) {
            Ok(zs) => Ok(Val::List(zs)),
            Err(e) => Err(e),
        },
    }
}

/// Reading each child of a list, dropping comments.
pub open spec fn code_items_spec(ys: Seq<TreeV>, ns: Seq<char>, def: Seq<char>) -> Result<
    Seq<Val>,
    (ErrKind, Seq<char>),
>
    decreases ys,
{
    if ys.len() == 0 {
        Ok(Seq::empty())
    } else {
        match code_to_calcit_spec(ys[0], ns, def) {
            Err(e) => Err(e),
            Ok(v) => match code_items_spec(ys.skip(1), ns, def) {
                Err(e) => Err(e),
                Ok(rest) => if is_comment_v(v) {
                    Ok(rest)
                } else {
                    Ok(seq![v] + rest)
                },
            },
        }
    }
}

/// Reads one leaf into a value.
fn code_leaf(s: &str, ns: &str, def: &str, stack: &Vec<crate::call_stack::CalcitStack>) -> (res:
    Result<Calcit, CalcitErr>)
    ensures
        ({
            let r = code_leaf_spec(s@, ns@, def@);
            match res {
                Ok(v) => r == Ok::<Val, (ErrKind, Seq<char>)>(cv(v)),
                Err(e) => (r matches Err(em) && e@.kind == em.0 && e@.msg == em.1 && e@.stack
                    == crate::call_stack::stack_view(stack@)),
            }
        }),
{
    if str_eq(s, "nil") {
        return Ok(Calcit::Nil);
    }
    if str_eq(s, "true") {
        return Ok(Calcit::Bool(true));
    }
    if str_eq(s, "false") {
        return Ok(Calcit::Bool(false));
    }
    if str_eq(s, "&newline") {
        return Ok(Calcit::Str(String::from_str("\n")));
    }
    if str_eq(s, "&tab") {
        return Ok(Calcit::Str(String::from_str("\t")));
    }
    let n = s.unicode_len();
    if n == 0 {
        return Err(CalcitErr::new(ErrKind::TypeMismatch, "empty string is invalid", stack));
    }
    let c0 = s.get_char(0);
    if c0 == ':' {
        if str_eq(s, "::") {
            return Ok(Calcit::Symbol(s.to_owned(), ns.to_owned(), def.to_owned(), None));
        }
        let rest = s.substring_char(1, n);
        proof {
            assert(rest@ =~= s@.skip(1));
        }
        return Ok(Calcit::Keyword(rest.to_owned()));
    }
    if c0 == '.' {
        if n >= 2 {
            let c1 = s.get_char(1);
            if c1 == '-' || c1 == '!' {
                return Ok(Calcit::Symbol(s.to_owned(), ns.to_owned(), def.to_owned(), None));
            }
        }
        return Ok(Calcit::Proc(s.to_owned()));
    }
    if c0 == '"' || c0 == '|' {
        let rest = s.substring_char(1, n);
        proof {
            assert(rest@ =~= s@.skip(1));
        }
        return Ok(Calcit::Str(rest.to_owned()));
    }
    if c0 == '\'' && n > 1 {
        let rest = s.substring_char(1, n);
        proof {
            assert(rest@ =~= s@.skip(1));
        }
        return Ok(sugar_pair("quote", rest.to_owned(), ns, def));
    }
    if c0 == '~' && n > 2 && s.get_char(1) == '@' {
        let rest = s.substring_char(2, n);
        proof {
            assert(rest@ =~= s@.skip(2));
        }
        return Ok(sugar_pair("~@", rest.to_owned(), ns, def));
    }
    if c0 == '~' && n > 1 && s.get_char(1) != '@' {
        let rest = s.substring_char(1, n);
        proof {
            assert(rest@ =~= s@.skip(1));
        }
        return Ok(sugar_pair("~", rest.to_owned(), ns, def));
    }
    if c0 == '@' {
        let rest = s.substring_char(1, n);
        proof {
            assert(rest@ =~= s@.skip(1));
        }
        return Ok(sugar_pair("deref", rest.to_owned(), ns, def));
    }
    if n >= 2 && c0 == '0' && s.get_char(1) == 'x' {
        if n > 2 {
            match parse_hex_digits(s, 2, n) {
                Some(v) => {
                    proof {
                        assert(s@.subrange(2, n as int) =~= s@.skip(2));
                    }
                    return Ok(Calcit::Number(v as i64));
                },
                None => {
                    proof {
                        assert(s@.subrange(2, n as int) =~= s@.skip(2));
                    }
                    return Err(CalcitErr::new(ErrKind::TypeMismatch, "failed to parse hex", stack));
                },
            }
        }
        return Err(CalcitErr::new(ErrKind::TypeMismatch, "failed to parse hex", stack));
    }
    if matches_float(s) {
        let dotless = find_dot(s, 0) == n;
        proof {
            assert(s@.skip(0) =~= s@);
            lemma_dot_at(num_body(s@));
            if s@[0] == '-' {
                assert(num_body(s@) =~= s@.skip(1));
                assert(dot_at(s@) == dot_at(num_body(s@)) + 1 || (s@.len() > 0 && dot_at(s@)
                    <= s@.len())) by {
                    lemma_dot_at(s@);
                }
            }
        }
        let body_dotless = if n > 0 && c0 == '-' {
            find_dot(s, 1) == n
        } else {
            dotless
        };
        proof {
            if s@[0] == '-' {
                assert(s@.skip(1) =~= num_body(s@));
            } else {
                assert(s@ =~= num_body(s@));
            }
        }
        if body_dotless {
            match parse_int_lit(s) {
                Some(v) => {
                    return Ok(Calcit::Number(v));
                },
                None => {
                    return Err(
                        CalcitErr::new(
                            ErrKind::NumericOverflow,
                            "number literal is out of range",
                            stack,
                        ),
                    );
                },
            }
        } else {
            return Err(
                CalcitErr::new(
                    ErrKind::TypeMismatch,
                    "fractional literals are not supported",
                    stack,
                ),
            );
        }
    }
    Ok(Calcit::Symbol(s.to_owned(), ns.to_owned(), def.to_owned(), None))
}

/// A two-symbol sugar form, as reader shorthand expands.
fn sugar_pair(head: &str, rest: String, ns: &str, def: &str) -> (res: Calcit)
    ensures
        cv(res) == Val::List(
            seq![
                Val::Symbol(head@, ns@, def@, None),
                Val::Symbol(rest@, ns@, def@, None),
            ],
        ),
{
    let mut items: CalcitItems = Vec::new();
    items.push(Calcit::Symbol(head.to_owned(), ns.to_owned(), def.to_owned(), None));
    items.push(Calcit::Symbol(rest, ns.to_owned(), def.to_owned(), None));
    let res = Calcit::List(items);
    proof {
        assert(cv_seq(items@) =~= seq![
            Val::Symbol(head@, ns@, def@, None),
            Val::Symbol(items@[1]->Symbol_0@, ns@, def@, None),
        ]);
    }
    res
}

/// Reads a parsed code tree into a value; comments are dropped from lists.
pub fn code_to_calcit(
    t: &CodeTree,
    ns: &str,
    def: &str,
    stack: &Vec<crate::call_stack::CalcitStack>,
) -> (res: Result<Calcit, CalcitErr>)
    ensures
        ({
            let r = code_to_calcit_spec(tv(*t), ns@, def@);
            match res {
                Ok(v) => r == Ok::<Val, (ErrKind, Seq<char>)>(cv(v)),
                Err(e) => (r matches Err(em) && e@.kind == em.0 && e@.msg == em.1 && e@.stack
                    == crate::call_stack::stack_view(stack@)),
            }
        }),
    decreases *t, 1int,
{
    match t {
        CodeTree::Leaf(s) => code_leaf(s.as_str(), ns, def, stack),
        CodeTree::List(ys) => {
            proof {
                assert(tv(*t) == TreeV::List(tv_seq(ys@)));
            }
            proof {
                assert(tv_seq(ys@).skip(0) =~= tv_seq(ys@));
            }
            match code_items(ys, 0, ns, def, stack) {
                Err(e) => Err(e),
                Ok(zs) => Ok(Calcit::List(zs)),
            }
        },
    }
}

/// Reads the children of a list from `from` on, dropping comments.
fn code_items(
    ys: &Vec<CodeTree>,
    from: usize,
    ns: &str,
    def: &str,
    stack: &Vec<crate::call_stack::CalcitStack>,
) -> (res: Result<CalcitItems, CalcitErr>)
    requires
        from <= ys@.len(),
    ensures
        ({
            let r = code_items_spec(tv_seq(ys@).skip(from as int), ns@, def@);
            match res {
                Ok(zs) => r == Ok::<Seq<Val>, (ErrKind, Seq<char>)>(cv_seq(zs@)),
                Err(e) => (r matches Err(em) && e@.kind == em.0 && e@.msg == em.1 && e@.stack
                    == crate::call_stack::stack_view(stack@)),
            }
        }),
    decreases ys@, 0int, ys@.len() - from,
{
    let ghost full = tv_seq(ys@).skip(from as int);
    if from >= ys.len() {
        let out: CalcitItems = Vec::new();
        proof {
            assert(cv_seq(out@) =~= Seq::<Val>::empty());
        }
        return Ok(out);
    }
    proof {
        assert(full[0] == tv(ys@[from as int]));
    }
    match code_to_calcit(&ys[from], ns, def, stack) {
        Err(e) => Err(e),
        Ok(v) => {
            proof {
                assert(tv_seq(ys@).skip(from + 1) =~= full.skip(1));
            }
            match code_items(ys, from + 1, ns, def, stack) {
                Err(e) => Err(e),
                Ok(rest) => {
                    if is_comment(&v) {
                        Ok(rest)
                    } else {
                        let mut front: CalcitItems = Vec::new();
                        front.push(v);
                        proof {
                            assert(cv_seq(front@) =~= seq![cv(front@[0])]);
                        }
                        Ok(crate::runner::join_items(front, rest))
                    }
                },
            }
        },
    }
}

/// What a plain data tree reads as: every leaf is a string.
pub open spec fn cirru_to_calcit_spec(t: TreeV) -> Val
    decreases t,
{
    match t {
        TreeV::Leaf(s) => Val::Str(s),
        TreeV::List(ys) => Val::List(Seq::new(ys.len(), |i: int| if 0 <= i < ys.len() {
            cirru_to_calcit_spec(ys[i])
        } else {
            Val::Nil
        })),
    }
}

/// Reads a plain data tree: every leaf becomes a string.
pub fn cirru_to_calcit(t: &CodeTree) -> (res: Calcit)
    ensures
        cv(res) == cirru_to_calcit_spec(tv(*t)),
    decreases *t, 1int,
{
    match t {
        CodeTree::Leaf(s) => Calcit::Str(s.clone()),
        CodeTree::List(ys) => {
            let mut out: CalcitItems = Vec::new();
            let mut i: usize = 0;
            #[verifier::loop_isolation(false)]
            while i < ys.len()
                invariant
                    i <= ys@.len(),
                    out@.len() == i,
                    forall|k: int|
                        0 <= k < i ==> cv(#[trigger] out@[k]) == cirru_to_calcit_spec(
                            tv_seq(ys@)[k],
                        ),
                decreases ys@.len() - i,
            {
                proof {
                    assert(tv_seq(ys@)[i as int] == tv(ys@[i as int]));
                }
                out.push(cirru_to_calcit(&ys[i]));
                i = i + 1;
            }
            let res = Calcit::List(out);
            proof {
                assert(cv(res) == Val::List(cv_seq(out@)));
                assert(tv(*t) == TreeV::List(tv_seq(ys@)));
                match cirru_to_calcit_spec(tv(*t)) {
                    Val::List(s2) => {
                        assert(cv_seq(out@) =~= s2);
                    },
                    _ => {
                        assert(false);
                    },
                }
            }
            res
        },
    }
}

/// What a value writes back as a data tree: only plain data can.
pub open spec fn calcit_data_to_cirru_spec(v: Val) -> Result<TreeV, Seq<char>>
    decreases v, 1int,
{
    match v {
        Val::Nil => Ok(TreeV::Leaf("nil"@)),
        Val::Bool(b) => Ok(
            TreeV::Leaf(
                if b {
                    "true"@
                } else {
                    "false"@
                },
            ),
        ),
        Val::Number(n) => Ok(TreeV::Leaf(dec_repr(n))),
        Val::Str(s) => Ok(TreeV::Leaf(s)),
        Val::List(ys) => match data_items_spec(ys) {
            Ok(zs) => Ok(TreeV::List(zs)),
            Err(e) => Err(e),
        },
        _ => Err("unknown data for cirru"@),
    }
}

/// Writing each child of a list back.
pub open spec fn data_items_spec(ys: Seq<Val>) -> Result<Seq<TreeV>, Seq<char>>
    decreases ys, 2int,
{
    if ys.len() == 0 {
        Ok(Seq::empty())
    } else {
        match calcit_data_to_cirru_spec(ys[0]) {
            Err(e) => Err(e),
            Ok(t) => match data_items_spec(ys.skip(1)) {
                Err(e) => Err(e),
                Ok(rest) => Ok(seq![t] + rest),
            },
        }
    }
}

/// Writes a plain data value back as a tree; other values are refused.
pub fn calcit_data_to_cirru(v: &Calcit, stack: &Vec<crate::call_stack::CalcitStack>) -> (res:
    Result<CodeTree, CalcitErr>)
    ensures
        ({
            let r = calcit_data_to_cirru_spec(cv(*v));
            match res {
                Ok(t) => r == Ok::<TreeV, Seq<char>>(tv(t)),
                Err(e) => (r matches Err(m) && e@.kind == ErrKind::TypeMismatch && e@.msg == m
                    && e@.stack == crate::call_stack::stack_view(stack@)),
            }
        }),
    decreases *v, 1int,
{
    match v {
        Calcit::Nil => Ok(CodeTree::Leaf(String::from_str("nil"))),
        Calcit::Bool(b) => {
            if *b {
                Ok(CodeTree::Leaf(String::from_str("true")))
            } else {
                Ok(CodeTree::Leaf(String::from_str("false")))
            }
        },
        Calcit::Number(n) => Ok(CodeTree::Leaf(crate::primes::number_to_string(*n))),
        Calcit::Str(s) => Ok(CodeTree::Leaf(s.clone())),
        Calcit::List(ys) => {
            proof {
                assert(cv(*v) == Val::List(cv_seq(ys@)));
            }
            let ghost full = cv_seq(ys@);
            let mut out: Vec<CodeTree> = Vec::new();
            let mut i: usize = 0;
            proof {
                assert(full.skip(0) =~= full);
                assert(tv_seq(out@) =~= Seq::<TreeV>::empty());
            }
            #[verifier::loop_isolation(false)]
            while i < ys.len()
                invariant
                    i <= ys@.len(),
                    out@.len() == i,
                    data_items_spec(full) == (match data_items_spec(full.skip(i as int)) {
                        Err(e) => Err::<Seq<TreeV>, Seq<char>>(e),
                        Ok(rest) => Ok(tv_seq(out@) + rest),
                    }),
                decreases ys@.len() - i,
            {
                proof {
                    assert(full.skip(i as int)[0] == full[i as int]);
                    assert(full[i as int] == cv(ys@[i as int]));
                    assert(full.skip(i as int).skip(1) =~= full.skip(i + 1));
                }
                match calcit_data_to_cirru(&ys[i], stack) {
                    Err(e) => {
                        return Err(e);
                    },
                    Ok(t) => {
                        let ghost prev = tv_seq(out@);
                        out.push(t);
                        proof {
                            assert(tv_seq(out@) =~= prev.push(tv(out@.last())));
                            match data_items_spec(full.skip(i + 1)) {
                                Err(_) => {},
                                Ok(rest) => {
                                    assert(prev + (seq![tv(out@.last())] + rest) =~= tv_seq(out@)
                                        + rest);
                                },
                            }
                        }
                    },
                }
                i = i + 1;
            }
            proof {
                assert(full.skip(ys@.len() as int).len() == 0);
                assert(tv_seq(out@) + Seq::<TreeV>::empty() =~= tv_seq(out@));
            }
            Ok(CodeTree::List(out))
        },
        _ => Err(CalcitErr::new(ErrKind::TypeMismatch, "unknown data for cirru", stack)),
    }
}

/// What a code form writes back as a tree: symbols and procedures by
/// their names, keywords and strings with their lead characters, numbers
/// in decimal; values with no written form are refused.
pub open spec fn calcit_to_cirru_spec(v: Val) -> Result<TreeV, Seq<char>>
    decreases v, 1int,
{
    match v {
        Val::Nil => Ok(TreeV::Leaf("nil"@)),
        Val::Bool(b) => Ok(
            TreeV::Leaf(
                if b {
                    "true"@
                } else {
                    "false"@
                },
            ),
        ),
        Val::Number(n) => Ok(TreeV::Leaf(dec_repr(n))),
        Val::Str(s) => Ok(TreeV::Leaf("|"@ + s)),
        Val::Symbol(s, _, _, _) => Ok(TreeV::Leaf(s)),
        Val::Keyword(s) => Ok(TreeV::Leaf(":"@ + s)),
        Val::Proc(s) => Ok(TreeV::Leaf(s)),
        Val::Syntax(k, _) => Ok(TreeV::Leaf(syntax_repr(k))),
        Val::List(ys) => match code_forms_spec(ys) {
            Ok(zs) => Ok(TreeV::List(zs)),
            Err(e) => Err(e),
        },
        _ => Err("unknown data to write as code"@),
    }
}

/// Writing each child of a code list back.
pub open spec fn code_forms_spec(ys: Seq<Val>) -> Result<Seq<TreeV>, Seq<char>>
    decreases ys, 2int,
{
    if ys.len() == 0 {
        Ok(Seq::empty())
    } else {
        match calcit_to_cirru_spec(ys[0]) {
            Err(e) => Err(e),
            Ok(t) => match code_forms_spec(ys.skip(1)) {
                Err(e) => Err(e),
                Ok(rest) => Ok(seq![t] + rest),
            },
        }
    }
}

/// Writes a code form back as a tree; values with no written form are
/// refused.
pub fn calcit_to_cirru(v: &Calcit, stack: &Vec<crate::call_stack::CalcitStack>) -> (res: Result<
    CodeTree,
    CalcitErr,
>)
    ensures
        ({
            let r = calcit_to_cirru_spec(cv(*v));
            match res {
                Ok(t) => r == Ok::<TreeV, Seq<char>>(tv(t)),
                Err(e) => (r matches Err(m) && e@.kind == ErrKind::TypeMismatch && e@.msg == m
                    && e@.stack == crate::call_stack::stack_view(stack@)),
            }
        }),
    decreases *v, 1int,
{
    match v {
        Calcit::Nil => Ok(CodeTree::Leaf(String::from_str("nil"))),
        Calcit::Bool(b) => {
            if *b {
                Ok(CodeTree::Leaf(String::from_str("true")))
            } else {
                Ok(CodeTree::Leaf(String::from_str("false")))
            }
        },
        Calcit::Number(n) => Ok(CodeTree::Leaf(crate::primes::number_to_string(*n))),
        Calcit::Str(s) => {
            let mut out = String::from_str("|");
            out.append(s.as_str());
            Ok(CodeTree::Leaf(out))
        },
        Calcit::Symbol(s, _, _, _) => Ok(CodeTree::Leaf(s.clone())),
        Calcit::Keyword(s) => {
            let mut out = String::from_str(":");
            out.append(s.as_str());
            Ok(CodeTree::Leaf(out))
        },
        Calcit::Proc(s) => Ok(CodeTree::Leaf(s.clone())),
        Calcit::Syntax(k, _) => Ok(CodeTree::Leaf(crate::primes::syntax_name(k))),
        Calcit::List(ys) => {
            proof {
                assert(cv(*v) == Val::List(cv_seq(ys@)));
            }
            let ghost full = cv_seq(ys@);
            let mut out: Vec<CodeTree> = Vec::new();
            let mut i: usize = 0;
            proof {
                assert(full.skip(0) =~= full);
                assert(tv_seq(out@) =~= Seq::<TreeV>::empty());
            }
            #[verifier::loop_isolation(false)]
            while i < ys.len()
                invariant
                    i <= ys@.len(),
                    out@.len() == i,
                    code_forms_spec(full) == (match code_forms_spec(full.skip(i as int)) {
                        Err(e) => Err::<Seq<TreeV>, Seq<char>>(e),
                        Ok(rest) => Ok(tv_seq(out@) + rest),
                    }),
                decreases ys@.len() - i,
            {
                proof {
                    assert(full.skip(i as int)[0] == full[i as int]);
                    assert(full[i as int] == cv(ys@[i as int]));
                    assert(full.skip(i as int).skip(1) =~= full.skip(i + 1));
                }
                match calcit_to_cirru(&ys[i], stack) {
                    Err(e) => {
                        return Err(e);
                    },
                    Ok(t) => {
                        let ghost prev = tv_seq(out@);
                        out.push(t);
                        proof {
                            assert(tv_seq(out@) =~= prev.push(tv(out@.last())));
                            match code_forms_spec(full.skip(i + 1)) {
                                Err(_) => {},
                                Ok(rest) => {
                                    assert(prev + (seq![tv(out@.last())] + rest) =~= tv_seq(out@)
                                        + rest);
                                },
                            }
                        }
                    },
                }
                i = i + 1;
            }
            proof {
                assert(full.skip(ys@.len() as int).len() == 0);
                assert(tv_seq(out@) + Seq::<TreeV>::empty() =~= tv_seq(out@));
            }
            Ok(CodeTree::List(out))
        },
        _ => Err(CalcitErr::new(ErrKind::TypeMismatch, "unknown data to write as code", stack)),
    }
}

} // verus!
