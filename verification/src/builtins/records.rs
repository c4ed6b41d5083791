//! Records: named tuples whose field tags are kept sorted strictly
//! increasing, with one value per field.  Constructors enforce the
//! sort-unique invariant and reject duplicated fields; a binary search over
//! the sorted tags serves every access.

use vstd::prelude::*;

use crate::call_stack::CalcitStack;
use crate::primes::{
    cv, cv_seq, strs_view, Calcit, CalcitErr, CalcitItems, CalcitRecord, ErrKind, ErrV, Val,
};
use crate::util::{lemma_lex_trans, lemma_lex_trichotomy, lex_lt, str_eq, str_lt};

verus! {

broadcast use crate::primes::lemma_cv_seq_index, crate::primes::lemma_cv_seq_len,
    crate::primes::lemma_cv_pairs_index, crate::primes::lemma_cv_pairs_len,
    crate::primes::lemma_cv_scope_index, crate::primes::lemma_cv_scope_len,
    crate::primes::lemma_strs_view_index, crate::primes::lemma_strs_view_len;


/// The record invariant on tags: strictly increasing, hence free of
/// duplicates.
pub open spec fn fields_sorted(fields: Seq<Seq<char>>) -> bool {
    forall|i: int, j: int|
        0 <= i < j < fields.len() ==> lex_lt(#[trigger] fields[i], #[trigger] fields[j])
}

/// The record invariant: sorted unique tags, one value per tag.
pub open spec fn record_wf(fields: Seq<Seq<char>>, values: Seq<Val>) -> bool {
    fields_sorted(fields) && values.len() == fields.len()
}

/// The tag a value names a field with: strings, keywords and symbols name
/// fields, other values do not.
pub open spec fn tag_of(v: Val) -> Option<Seq<char>> {
    match v {
        Val::Str(s) => Some(s),
        Val::Keyword(s) => Some(s),
        Val::Symbol(s, _, _, _) => Some(s),
        _ => None,
    }
}

/// Index of the first field equal to `tag`; the field count when there is
/// none.
pub open spec fn field_at(fields: Seq<Seq<char>>, tag: Seq<char>) -> int
    decreases fields.len(),
{
    if fields.len() == 0 {
        0
    } else if fields[0] == tag {
        0
    } else {
        1 + field_at(fields.skip(1), tag)
    }
}

/// Whether a record with these fields has `tag`.
pub open spec fn has_field(fields: Seq<Seq<char>>, tag: Seq<char>) -> bool {
    field_at(fields, tag) < fields.len()
}

/// What the first-field index means.
pub proof fn lemma_field_at(fields: Seq<Seq<char>>, tag: Seq<char>)
    ensures
        0 <= field_at(fields, tag) <= fields.len(),
        forall|k: int| 0 <= k < field_at(fields, tag) ==> #[trigger] fields[k] != tag,
        field_at(fields, tag) < fields.len() ==> fields[field_at(fields, tag)] == tag,
    decreases fields.len(),
{
    if fields.len() == 0 {
    } else if fields[0] == tag {
    } else {
        lemma_field_at(fields.skip(1), tag);
        assert forall|k: int| 0 <= k < field_at(fields, tag) implies #[trigger] fields[k]
            != tag by {
            if k > 0 {
                assert(fields.skip(1)[k - 1] == fields[k]);
            }
        }
        if field_at(fields, tag) < fields.len() {
            assert(fields.skip(1)[field_at(fields.skip(1), tag)] == fields[field_at(
                fields,
                tag,
            )]);
        }
    }
}

/// Inserting a tag and its value into parallel sorted columns: in front of
/// the first greater tag; `None` when the tag is already there.
pub open spec fn insert_entry(
    fields: Seq<Seq<char>>,
    values: Seq<Val>,
    t: Seq<char>,
    v: Val,
) -> Option<(Seq<Seq<char>>, Seq<Val>)>
    decreases fields.len(),
{
    if fields.len() == 0 {
        Some((seq![t], seq![v]))
    } else if fields[0] == t {
        None
    } else if lex_lt(t, fields[0]) {
        Some((seq![t] + fields, seq![v] + values))
    } else {
        match insert_entry(fields.skip(1), values.skip(1), t, v) {
            None => None,
            Some(r) => Some((seq![fields[0]] + r.0, seq![values[0]] + r.1)),
        }
    }
}

/// Scanning past a prefix that neither equals nor exceeds `t` leaves the
/// insertion untouched.
pub proof fn lemma_insert_entry_skip(
    fields: Seq<Seq<char>>,
    values: Seq<Val>,
    t: Seq<char>,
    v: Val,
    j: int,
)
    requires
        values.len() == fields.len(),
        0 <= j <= fields.len(),
        forall|k: int| 0 <= k < j ==> #[trigger] fields[k] != t && !lex_lt(t, fields[k]),
    ensures
        insert_entry(fields, values, t, v) == match insert_entry(
            fields.skip(j),
            values.skip(j),
            t,
            v,
        ) {
            None => None::<(Seq<Seq<char>>, Seq<Val>)>,
            Some(r) => Some((fields.take(j) + r.0, values.take(j) + r.1)),
        },
    decreases j,
{
    if j == 0 {
        assert(fields.skip(0) =~= fields);
        assert(values.skip(0) =~= values);
        match insert_entry(fields, values, t, v) {
            None => {},
            Some(r) => {
                assert(fields.take(0) + r.0 =~= r.0);
                assert(values.take(0) + r.1 =~= r.1);
            },
        }
    } else {
        lemma_insert_entry_skip(fields, values, t, v, j - 1);
        assert(fields.skip(j - 1).len() > 0);
        assert(fields.skip(j - 1)[0] == fields[j - 1]);
        assert(values.skip(j - 1)[0] == values[j - 1]);
        assert(fields.skip(j - 1).skip(1) =~= fields.skip(j));
        assert(values.skip(j - 1).skip(1) =~= values.skip(j));
        match insert_entry(fields.skip(j), values.skip(j), t, v) {
            None => {},
            Some(r) => {
                assert(fields.take(j - 1) + (seq![fields[j - 1]] + r.0) =~= fields.take(j) + r.0);
                assert(values.take(j - 1) + (seq![values[j - 1]] + r.1) =~= values.take(j) + r.1);
            },
        }
    }
}

/// What inserting gives: the same columns with `t` and `v` placed at the
/// insertion point, still sorted; or nothing exactly when `t` was present.
pub proof fn lemma_insert_entry_props(
    fields: Seq<Seq<char>>,
    values: Seq<Val>,
    t: Seq<char>,
    v: Val,
)
    requires
        record_wf(fields, values),
    ensures
        insert_entry(fields, values, t, v) is None <==> has_field(fields, t),
        match insert_entry(fields, values, t, v) {
            None => true,
            Some(r) => record_wf(r.0, r.1) && r.0.len() == fields.len() + 1 && (forall|x: Seq<
                char,
            >| has_field(r.0, x) <==> (x == t || has_field(fields, x))),
        },
    decreases fields.len(),
{
    lemma_field_at(fields, t);
    if fields.len() == 0 {
        let r = (seq![t], seq![v]);
        assert(insert_entry(fields, values, t, v) == Some(r));
        lemma_field_at(r.0, t);
        assert forall|x: Seq<char>| has_field(r.0, x) implies (x == t || has_field(
            fields,
            x,
        )) by {
            lemma_field_at(r.0, x);
        }
        assert(has_field(r.0, t)) by {
            lemma_field_at(r.0, t);
        }
    } else if fields[0] == t {
    } else if lex_lt(t, fields[0]) {
        let r = (seq![t] + fields, seq![v] + values);
        assert(insert_entry(fields, values, t, v) == Some(r));
        assert forall|i: int, j: int| 0 <= i < j < r.0.len() implies lex_lt(
            #[trigger] r.0[i],
            #[trigger] r.0[j],
        ) by {
            if i == 0 {
                if j > 1 {
                    lemma_lex_trans(t, fields[0], fields[j - 1]);
                }
            }
        }
        assert forall|x: Seq<char>| has_field(r.0, x) implies (x == t || has_field(
            fields,
            x,
        )) by {
            lemma_field_at(r.0, x);
            if field_at(r.0, x) > 0 {
                lemma_field_at(fields, x);
                assert(r.0[field_at(r.0, x)] == fields[field_at(r.0, x) - 1]);
                let k = field_at(r.0, x) - 1;
                if !has_field(fields, x) {
                    assert(fields[field_at(fields, x)] == x || field_at(fields, x) == fields.len());
                    assert(fields[k] == x);
                    assert(field_at(fields, x) < fields.len());
                }
            }
        }
        assert forall|x: Seq<char>| (x == t || has_field(fields, x)) implies has_field(
            r.0,
            x,
        ) by {
            lemma_field_at(r.0, x);
            if x == t {
                if field_at(r.0, t) > 0 {
                    assert(r.0[0] == t);
                    assert(false);
                }
            } else {
                lemma_field_at(fields, x);
                let k = field_at(fields, x);
                assert(r.0[k + 1] == fields[k]);
                if field_at(r.0, x) == r.0.len() {
                    assert(r.0[k + 1] != x);
                    assert(false);
                }
            }
        }
        assert(!has_field(fields, t)) by {
            if has_field(fields, t) {
                let k = field_at(fields, t);
                if k > 0 {
                    lemma_lex_trans(t, fields[0], fields[k]);
                    lemma_lex_trichotomy(t, fields[k]);
                } else {
                    lemma_lex_trichotomy(t, fields[0]);
                }
            }
        }
    } else {
        lemma_lex_trichotomy(t, fields[0]);
        assert(lex_lt(fields[0], t));
        assert(fields.skip(1).len() == values.skip(1).len());
        assert forall|i: int, j: int|
            0 <= i < j < fields.skip(1).len() implies lex_lt(
            #[trigger] fields.skip(1)[i],
            #[trigger] fields.skip(1)[j],
        ) by {
            assert(fields.skip(1)[i] == fields[i + 1]);
            assert(fields.skip(1)[j] == fields[j + 1]);
        }
        lemma_insert_entry_props(fields.skip(1), values.skip(1), t, v);
        lemma_field_at(fields.skip(1), t);
        assert(has_field(fields, t) <==> has_field(fields.skip(1), t)) by {
            lemma_field_at(fields, t);
            if has_field(fields, t) {
                let k = field_at(fields, t);
                assert(k > 0);
                assert(fields.skip(1)[k - 1] == t);
                lemma_field_at(fields.skip(1), t);
                if !has_field(fields.skip(1), t) {
                    assert(fields.skip(1)[k - 1] != t);
                }
            }
            if has_field(fields.skip(1), t) {
                let k = field_at(fields.skip(1), t);
                assert(fields.skip(1)[k] == t);
                assert(fields[k + 1] == t);
                lemma_field_at(fields, t);
                if !has_field(fields, t) {
                    assert(fields[k + 1] != t);
                }
            }
        }
        match insert_entry(fields.skip(1), values.skip(1), t, v) {
            None => {},
            Some(r) => {
                let whole = (seq![fields[0]] + r.0, seq![values[0]] + r.1);
                assert(insert_entry(fields, values, t, v) == Some(whole));
                assert forall|i: int, j: int|
                    0 <= i < j < whole.0.len() implies lex_lt(
                    #[trigger] whole.0[i],
                    #[trigger] whole.0[j],
                ) by {
                    if i == 0 {
                        assert(whole.0[j] == r.0[j - 1]);
                        assert(has_field(r.0, r.0[j - 1])) by {
                            lemma_field_at(r.0, r.0[j - 1]);
                            if field_at(r.0, r.0[j - 1]) == r.0.len() {
                                assert(r.0[j - 1] != r.0[j - 1]);
                            }
                        }
                        if r.0[j - 1] == t {
                            assert(lex_lt(fields[0], t));
                        } else {
                            assert(has_field(fields.skip(1), r.0[j - 1]));
                            lemma_field_at(fields.skip(1), r.0[j - 1]);
                            let k = field_at(fields.skip(1), r.0[j - 1]);
                            assert(fields.skip(1)[k] == r.0[j - 1]);
                            assert(fields[k + 1] == r.0[j - 1]);
                            assert(lex_lt(fields[0], fields[k + 1]));
                        }
                    } else {
                        assert(whole.0[i] == r.0[i - 1]);
                        assert(whole.0[j] == r.0[j - 1]);
                    }
                }
                assert forall|x: Seq<char>| has_field(whole.0, x) implies (x == t || has_field(
                    fields,
                    x,
                )) by {
                    lemma_field_at(whole.0, x);
                    if field_at(whole.0, x) == 0 {
                        assert(fields[0] == x);
                        lemma_field_at(fields, x);
                        if !has_field(fields, x) {
                            assert(fields[field_at(fields, x)] != x);
                            assert(field_at(fields, x) == 0 ==> fields[0] == x);
                        }
                        assert(has_field(fields, x) || field_at(fields, x) == fields.len());
                        if !has_field(fields, x) {
                            lemma_field_at(fields, x);
                            assert(forall|k: int|
                                0 <= k < fields.len() ==> #[trigger] fields[k] != x);
                            assert(fields[0] != x);
                        }
                    } else {
                        let k = field_at(whole.0, x);
                        assert(whole.0[k] == r.0[k - 1]);
                        assert(has_field(r.0, x)) by {
                            lemma_field_at(r.0, x);
                            if field_at(r.0, x) == r.0.len() {
                                assert(r.0[k - 1] != x);
                            }
                        }
                        if x != t {
                            assert(has_field(fields.skip(1), x));
                            lemma_field_at(fields.skip(1), x);
                            let m = field_at(fields.skip(1), x);
                            assert(fields[m + 1] == x);
                            lemma_field_at(fields, x);
                            if !has_field(fields, x) {
                                assert(fields[m + 1] != x);
                            }
                        }
                    }
                }
                assert forall|x: Seq<char>| (x == t || has_field(fields, x)) implies has_field(
                    whole.0,
                    x,
                ) by {
                    lemma_field_at(whole.0, x);
                    if !has_field(whole.0, x) {
                        assert(forall|k: int|
                            0 <= k < whole.0.len() ==> #[trigger] whole.0[k] != x);
                        if x == t {
                            assert(has_field(r.0, t));
                            lemma_field_at(r.0, t);
                            let k = field_at(r.0, t);
                            assert(whole.0[k + 1] == r.0[k]);
                        } else {
                            lemma_field_at(fields, x);
                            let k = field_at(fields, x);
                            if k == 0 {
                                assert(whole.0[0] == x);
                            } else {
                                assert(fields.skip(1)[k - 1] == x);
                                assert(has_field(fields.skip(1), x)) by {
                                    lemma_field_at(fields.skip(1), x);
                                    if !has_field(fields.skip(1), x) {
                                        assert(fields.skip(1)[k - 1] != x);
                                    }
                                }
                                assert(has_field(r.0, x));
                                lemma_field_at(r.0, x);
                                let m = field_at(r.0, x);
                                assert(whole.0[m + 1] == r.0[m]);
                            }
                        }
                    }
                }
            },
        }
    }
}

/// Inserts a tag and its value into a record's parallel columns, keeping
/// the tags sorted; leaves them unchanged and answers `false` when the tag
/// is already there.
pub fn insert_field(fields: &mut Vec<String>, values: &mut Vec<Calcit>, t: String, v: Calcit) -> (
    ok: bool)
    requires
        strs_view(old(fields)@).len() == cv_seq(old(values)@).len(),
    ensures
        match insert_entry(strs_view(old(fields)@), cv_seq(old(values)@), t@, cv(v)) {
            None => !ok && strs_view(final(fields)@) == strs_view(old(fields)@) && cv_seq(
                final(values)@,
            ) == cv_seq(old(values)@),
            Some(r) => ok && strs_view(final(fields)@) == r.0 && cv_seq(final(values)@) == r.1,
        },
        final(fields)@.len() == final(values)@.len(),
{
    let ghost fv = strs_view(old(fields)@);
    let ghost vv = cv_seq(old(values)@);
    let ghost tv = t@;
    let ghost vvv = cv(v);
    let mut j: usize = 0;
    while j < fields.len()
        invariant
            fv == strs_view(old(fields)@),
            vv == cv_seq(old(values)@),
            strs_view(fields@) == fv,
            cv_seq(values@) == vv,
            fields@.len() == values@.len(),
            fv.len() == vv.len(),
            tv == t@,
            vvv == cv(v),
            j <= fields@.len(),
            forall|k: int| 0 <= k < j ==> #[trigger] fv[k] != tv && !lex_lt(tv, fv[k]),
        decreases fields@.len() - j,
    {
        if str_eq(t.as_str(), fields[j].as_str()) {
            proof {
                lemma_insert_entry_skip(fv, vv, tv, vvv, j as int);
                assert(fv[j as int] == fields@[j as int]@);
                assert(fv.skip(j as int)[0] == fv[j as int]);
                assert(fv.skip(j as int)[0] == tv);
                assert(insert_entry(fv.skip(j as int), vv.skip(j as int), tv, vvv) is None);
            }
            return false;
        }
        if str_lt(t.as_str(), fields[j].as_str()) {
            proof {
                lemma_insert_entry_skip(fv, vv, tv, vvv, j as int);
                assert(fv[j as int] == fields@[j as int]@);
                assert(fv.skip(j as int)[0] == fv[j as int]);
                assert(lex_lt(tv, fv.skip(j as int)[0]));
                assert(fv.skip(j as int)[0] != tv) by {
                    lemma_lex_trichotomy(tv, fv.skip(j as int)[0]);
                }
                assert(insert_entry(fv.skip(j as int), vv.skip(j as int), tv, vvv) == Some((
                    seq![tv] + fv.skip(j as int),
                    seq![vvv] + vv.skip(j as int),
                )));
            }
            fields.insert(j, t);
            values.insert(j, v);
            proof {
                assert(strs_view(fields@) =~= fv.take(j as int) + (seq![tv] + fv.skip(j as int)));
                assert(cv_seq(values@) =~= vv.take(j as int) + (seq![vvv] + vv.skip(j as int)));
            }
            return true;
        }
        i_continue(&mut j);
    }
    proof {
        lemma_insert_entry_skip(fv, vv, tv, vvv, fv.len() as int);
        assert(fv.skip(fv.len() as int).len() == 0);
    }
    fields.push(t);
    values.push(v);
    proof {
        assert(strs_view(fields@) =~= fv.take(fv.len() as int) + seq![tv]);
        assert(cv_seq(values@) =~= vv.take(vv.len() as int) + seq![vvv]);
    }
    true
}

/// Steps a loop counter.
fn i_continue(j: &mut usize)
    requires
        *old(j) < usize::MAX,
    ensures
        *final(j) == *old(j) + 1,
{
    *j = *j + 1;
}

/// Position of `y` among sorted field tags, by binary search.
pub fn find_in_fields(xs: &Vec<String>, y: &str) -> (res: Option<usize>)
    requires
        fields_sorted(strs_view(xs@)),
    ensures
        match res {
            Some(i) => i < xs@.len() && i as int == field_at(strs_view(xs@), y@),
            None => !has_field(strs_view(xs@), y@),
        },
{
    let ghost fv = strs_view(xs@);
    let mut lo: usize = 0;
    let mut hi: usize = xs.len();
    while lo < hi
        invariant
            fields_sorted(fv),
            fv == strs_view(xs@),
            lo <= hi <= xs@.len(),
            forall|k: int| 0 <= k < lo ==> lex_lt(#[trigger] fv[k], y@),
            forall|k: int| hi <= k < fv.len() ==> lex_lt(y@, #[trigger] fv[k]),
        decreases hi - lo,
    {
        let mid = lo + (hi - lo) / 2;
        if str_eq(y, xs[mid].as_str()) {
            proof {
                lemma_field_at(fv, y@);
                let at = field_at(fv, y@);
                if at < mid {
                    if at < fv.len() {
                        lemma_lex_trichotomy(fv[at], fv[mid as int]);
                    }
                }
                if at > mid {
                    assert(fv[mid as int] != y@);
                }
            }
            return Some(mid);
        }
        if str_lt(y, xs[mid].as_str()) {
            proof {
                assert forall|k: int| mid <= k < fv.len() implies lex_lt(y@, #[trigger] fv[k]) by {
                    if k > mid {
                        lemma_lex_trans(y@, fv[mid as int], fv[k]);
                    }
                }
            }
            hi = mid;
        } else {
            proof {
                lemma_lex_trichotomy(y@, fv[mid as int]);
                assert forall|k: int| 0 <= k <= mid implies lex_lt(#[trigger] fv[k], y@) by {
                    if k < mid {
                        lemma_lex_trans(fv[k], fv[mid as int], y@);
                    }
                }
            }
            lo = mid + 1;
        }
    }
    proof {
        lemma_field_at(fv, y@);
        if has_field(fv, y@) {
            let at = field_at(fv, y@);
            lemma_lex_trichotomy(fv[at], y@);
        }
    }
    None
}

/// An error result carrying the given stack snapshot.
pub open spec fn perr(kind: ErrKind, msg: Seq<char>, stack: Seq<crate::call_stack::FrameV>) -> Result<
    Val,
    ErrV,
> {
    Err(ErrV { kind, msg, stack })
}

/// Folding a run of field names into sorted record columns, every value
/// `Nil`: fails on a name that is no tag and on a duplicated name.
pub open spec fn build_record_columns(args: Seq<Val>) -> Result<
    (Seq<Seq<char>>, Seq<Val>),
    Seq<char>,
>
    decreases args.len(),
{
    if args.len() == 0 {
        Ok((Seq::empty(), Seq::empty()))
    } else {
        match build_record_columns(args.drop_last()) {
            Err(m) => Err(m),
            Ok(cols) => match tag_of(args.last()) {
                None => Err("record fields accept tags, strings and symbols"@),
                Some(t) => match insert_entry(cols.0, cols.1, t, Val::Nil) {
                    None => Err("duplicated field for record"@),
                    Some(r) => Ok(r),
                },
            },
        }
    }
}

/// A failed prefix fails the whole fold.
pub proof fn lemma_build_columns_err(args: Seq<Val>, k: int)
    requires
        0 <= k <= args.len(),
        build_record_columns(args.take(k)) is Err,
    ensures
        build_record_columns(args) == build_record_columns(args.take(k)),
    decreases args.len() - k,
{
    if k == args.len() {
        assert(args.take(k) =~= args);
    } else {
        assert(args.take(k + 1).drop_last() =~= args.take(k));
        lemma_build_columns_err(args, k + 1);
    }
}

/// The columns stay well-formed through the fold.
pub proof fn lemma_build_columns_wf(args: Seq<Val>)
    ensures
        match build_record_columns(args) {
            Err(_) => true,
            Ok(cols) => record_wf(cols.0, cols.1),
        },
    decreases args.len(),
{
    if args.len() == 0 {
    } else {
        lemma_build_columns_wf(args.drop_last());
        match build_record_columns(args.drop_last()) {
            Err(_) => {},
            Ok(cols) => match tag_of(args.last()) {
                None => {},
                Some(t) => {
                    lemma_insert_entry_props(cols.0, cols.1, t, Val::Nil);
                },
            },
        }
    }
}

/// The name a value gives to a record or a field.
pub fn tag_str(v: &Calcit) -> (res: Option<String>)
    ensures
        match res {
            Some(s) => tag_of(cv(*v)) == Some(s@),
            None => tag_of(cv(*v)) is None,
        },
{
    match v {
        Calcit::Str(s) => Some(s.clone()),
        Calcit::Keyword(s) => Some(s.clone()),
        Calcit::Symbol(s, _, _, _) => Some(s.clone()),
        _ => None,
    }
}

/// Builds sorted record columns from the names in `xs` starting at `start`,
/// every value `Nil`.
fn build_columns(xs: &CalcitItems, start: usize, stack: &Vec<CalcitStack>) -> (res: Result<
    (Vec<String>, Vec<Calcit>),
    CalcitErr,
>)
    requires
        start <= xs@.len(),
    ensures
        match res {
            Ok(cols) => build_record_columns(cv_seq(xs@).skip(start as int)) == Ok::<
                _,
                Seq<char>,
            >((strs_view(cols.0@), cv_seq(cols.1@))),
            Err(e) => build_record_columns(cv_seq(xs@).skip(start as int)) == Err::<
                (Seq<Seq<char>>, Seq<Val>),
                _,
            >(e@.msg) && e@.kind == ErrKind::TypeMismatch && e@.stack == crate::call_stack::stack_view(
                stack@,
            ),
        },
{
    let ghost args = cv_seq(xs@).skip(start as int);
    let mut fields: Vec<String> = Vec::new();
    let mut values: Vec<Calcit> = Vec::new();
    let mut i: usize = start;
    proof {
        assert(args.take(0) =~= Seq::empty());
        assert(strs_view(fields@) =~= Seq::<Seq<char>>::empty());
        assert(cv_seq(values@) =~= Seq::<Val>::empty());
    }
    while i < xs.len()
        invariant
            start <= i <= xs@.len(),
            args == cv_seq(xs@).skip(start as int),
            fields@.len() == values@.len(),
            build_record_columns(args.take(i - start)) == Ok::<_, Seq<char>>((
                strs_view(fields@),
                cv_seq(values@),
            )),
        decreases xs@.len() - i,
    {
        let ghost prev_fields = strs_view(fields@);
        let ghost prev_values = cv_seq(values@);
        proof {
            assert(args.take(i - start + 1).drop_last() =~= args.take(i - start));
            assert(args.take(i - start + 1).last() == args[i - start]);
            assert(args[i - start] == cv(xs@[i as int]));
        }
        match tag_str(&xs[i]) {
            None => {
                proof {
                    lemma_build_columns_err(args, i - start + 1);
                }
                return Err(CalcitErr::new(
                    ErrKind::TypeMismatch,
                    "record fields accept tags, strings and symbols",
                    stack,
                ));
            },
            Some(t) => {
                let ok = insert_field(&mut fields, &mut values, t, Calcit::Nil);
                if !ok {
                    proof {
                        lemma_build_columns_err(args, i - start + 1);
                    }
                    return Err(CalcitErr::new(
                        ErrKind::TypeMismatch,
                        "duplicated field for record",
                        stack,
                    ));
                }
            },
        }
        i = i + 1;
    }
    proof {
        assert(args.take(xs@.len() - start) =~= args);
    }
    Ok((fields, values))
}

/// What `new-record` gives: a record named by the first argument, the rest
/// as fields sorted strictly increasing, every value `Nil`, no class.
pub open spec fn new_record_spec(args: Seq<Val>, stack: Seq<crate::call_stack::FrameV>) -> Result<
    Val,
    ErrV,
> {
    if args.len() == 0 {
        perr(ErrKind::Arity, "new-record expected arguments"@, stack)
    } else {
        match tag_of(args[0]) {
            None => perr(ErrKind::TypeMismatch, "new-record expected a name"@, stack),
            Some(name) => match build_record_columns(args.skip(1)) {
                Err(m) => perr(ErrKind::TypeMismatch, m, stack),
                Ok(cols) => Ok(Val::Record(name, cols.0, cols.1, Box::new(Val::Nil))),
            },
        }
    }
}

/// Creates a record from a name and its field names; fields are sorted and
/// must be distinct, and every value starts as `Nil`.
pub fn new_record(xs: &CalcitItems, stack: &Vec<CalcitStack>) -> (res: Result<Calcit, CalcitErr>)
    ensures
        crate::primes::res_view(res) == new_record_spec(
            cv_seq(xs@),
            crate::call_stack::stack_view(stack@),
        ),
{
    if xs.len() == 0 {
        return Err(CalcitErr::new(ErrKind::Arity, "new-record expected arguments", stack));
    }
    let name = match tag_str(&xs[0]) {
        None => {
            return Err(CalcitErr::new(ErrKind::TypeMismatch, "new-record expected a name", stack));
        },
        Some(s) => s,
    };
    match build_columns(xs, 1, stack) {
        Err(e) => Err(e),
        Ok((fields, values)) => {
            let rec = CalcitRecord { name, fields, values, class: Box::new(Calcit::Nil) };
            let res = Calcit::Record(rec);
            proof {
                assert(Seq::new(rec.fields@.len(), |i: int| rec.fields@[i]@) =~= strs_view(
                    rec.fields@,
                ));
                assert(cv(res) == Val::Record(
                    rec.name@,
                    strs_view(rec.fields@),
                    cv_seq(rec.values@),
                    Box::new(Val::Nil),
                ));
            }
            Ok(res)
        },
    }
}

/// What `new-class-record` gives: as `new-record`, with the first argument,
/// a record, attached as the class.
pub open spec fn new_class_record_spec(args: Seq<Val>, stack: Seq<crate::call_stack::FrameV>) -> Result<
    Val,
    ErrV,
> {
    if args.len() < 2 {
        perr(ErrKind::Arity, "new-class-record expected a class and a name"@, stack)
    } else if !(args[0] is Record) {
        perr(ErrKind::TypeMismatch, "new-class-record expected a class record"@, stack)
    } else {
        match tag_of(args[1]) {
            None => perr(ErrKind::TypeMismatch, "new-record expected a name"@, stack),
            Some(name) => match build_record_columns(args.skip(2)) {
                Err(m) => perr(ErrKind::TypeMismatch, m, stack),
                Ok(cols) => Ok(Val::Record(name, cols.0, cols.1, Box::new(args[0]))),
            },
        }
    }
}

/// Creates a record with a class: the class record, then the name, then the
/// field names.
pub fn new_class_record(xs: &CalcitItems, stack: &Vec<CalcitStack>) -> (res: Result<
    Calcit,
    CalcitErr,
>)
    ensures
        crate::primes::res_view(res) == new_class_record_spec(
            cv_seq(xs@),
            crate::call_stack::stack_view(stack@),
        ),
{
    if xs.len() < 2 {
        return Err(
            CalcitErr::new(ErrKind::Arity, "new-class-record expected a class and a name", stack),
        );
    }
    let class = match &xs[0] {
        c @ Calcit::Record(_) => c.clone(),
        _ => {
            return Err(
                CalcitErr::new(
                    ErrKind::TypeMismatch,
                    "new-class-record expected a class record",
                    stack,
                ),
            );
        },
    };
    let name = match tag_str(&xs[1]) {
        None => {
            return Err(CalcitErr::new(ErrKind::TypeMismatch, "new-record expected a name", stack));
        },
        Some(s) => s,
    };
    match build_columns(xs, 2, stack) {
        Err(e) => Err(e),
        Ok((fields, values)) => {
            let rec = CalcitRecord { name, fields, values, class: Box::new(class) };
            let res = Calcit::Record(rec);
            proof {
                assert(Seq::new(rec.fields@.len(), |i: int| rec.fields@[i]@) =~= strs_view(
                    rec.fields@,
                ));
                assert(cv(res) == Val::Record(
                    rec.name@,
                    strs_view(rec.fields@),
                    cv_seq(rec.values@),
                    Box::new(cv(*rec.class)),
                ));
            }
            Ok(res)
        },
    }
}

/// Position of the first field equal to `tag`, by linear scan; unlike
/// [`find_in_fields`] it asks nothing of the input, so the accessors stay
/// total on malformed records.
fn field_index(fields: &Vec<String>, tag: &str) -> (res: Option<usize>)
    ensures
        match res {
            Some(i) => i < fields@.len() && i as int == field_at(strs_view(fields@), tag@),
            None => !has_field(strs_view(fields@), tag@),
        },
{
    let ghost fv = strs_view(fields@);
    proof {
        lemma_field_at(fv, tag@);
    }
    let mut i: usize = 0;
    while i < fields.len()
        invariant
            fv == strs_view(fields@),
            i <= fields@.len(),
            forall|k: int| 0 <= k < i ==> #[trigger] fv[k] != tag@,
            0 <= field_at(fv, tag@) <= fv.len(),
            forall|k: int| 0 <= k < field_at(fv, tag@) ==> #[trigger] fv[k] != tag@,
            field_at(fv, tag@) < fv.len() ==> fv[field_at(fv, tag@)] == tag@,
        decreases fields@.len() - i,
    {
        if str_eq(fields[i].as_str(), tag) {
            proof {
                assert(fv[i as int] == fields@[i as int]@);
                let at = field_at(fv, tag@);
                if at < i {
                    assert(fv[at] != tag@);
                }
                if at == fv.len() {
                    assert(fv[i as int] != tag@);
                }
                if i < at && at < fv.len() {
                    assert(fv[i as int] != tag@);
                }
            }
            return Some(i);
        }
        i = i + 1;
    }
    None
}

/// What `&record:class` gives: the class value of a record.
pub open spec fn get_class_spec(args: Seq<Val>, stack: Seq<crate::call_stack::FrameV>) -> Result<
    Val,
    ErrV,
> {
    if args.len() != 1 {
        perr(ErrKind::Arity, "&record:class expected 1 argument"@, stack)
    } else {
        match args[0] {
            Val::Record(_, _, _, class) => Ok(*class),
            _ => perr(ErrKind::TypeMismatch, "&record:class expected a record"@, stack),
        }
    }
}

/// The class a record was made with.
pub fn get_class(xs: &CalcitItems, stack: &Vec<CalcitStack>) -> (res: Result<Calcit, CalcitErr>)
    ensures
        crate::primes::res_view(res) == get_class_spec(
            cv_seq(xs@),
            crate::call_stack::stack_view(stack@),
        ),
{
    if xs.len() != 1 {
        return Err(CalcitErr::new(ErrKind::Arity, "&record:class expected 1 argument", stack));
    }
    match &xs[0] {
        Calcit::Record(r) => Ok((*r.class).clone()),
        _ => Err(CalcitErr::new(ErrKind::TypeMismatch, "&record:class expected a record", stack)),
    }
}

/// What `&record:with-class` gives: the same record carrying the second
/// argument as its class.
pub open spec fn with_class_spec(args: Seq<Val>, stack: Seq<crate::call_stack::FrameV>) -> Result<
    Val,
    ErrV,
> {
    if args.len() != 2 {
        perr(ErrKind::Arity, "&record:with-class expected 2 arguments"@, stack)
    } else {
        match (args[0], args[1]) {
            (Val::Record(name, fields, values, _), Val::Record(cn, cf, cv_, cc)) => Ok(
                Val::Record(name, fields, values, Box::new(Val::Record(cn, cf, cv_, cc))),
            ),
            (Val::Record(_, _, _, _), _) => perr(
                ErrKind::TypeMismatch,
                "&record:with-class expected a class record"@,
                stack,
            ),
            _ => perr(ErrKind::TypeMismatch, "&record:with-class expected a record"@, stack),
        }
    }
}

/// Replaces the class of a record.
pub fn with_class(xs: &CalcitItems, stack: &Vec<CalcitStack>) -> (res: Result<Calcit, CalcitErr>)
    ensures
        crate::primes::res_view(res) == with_class_spec(
            cv_seq(xs@),
            crate::call_stack::stack_view(stack@),
        ),
{
    if xs.len() != 2 {
        return Err(
            CalcitErr::new(ErrKind::Arity, "&record:with-class expected 2 arguments", stack),
        );
    }
    match (&xs[0], &xs[1]) {
        (Calcit::Record(r), c @ Calcit::Record(_)) => {
            let rec = CalcitRecord {
                name: r.name.clone(),
                fields: crate::primes::clone_strings(&r.fields),
                values: crate::primes::clone_items(&r.values),
                class: Box::new(c.clone()),
            };
            let res = Calcit::Record(rec);
            proof {
                assert(Seq::new(rec.fields@.len(), |i: int| rec.fields@[i]@) =~= Seq::new(
                    r.fields@.len(),
                    |i: int| r.fields@[i]@,
                ));
            }
            Ok(res)
        },
        (Calcit::Record(_), _) => Err(
            CalcitErr::new(ErrKind::TypeMismatch, "&record:with-class expected a class record", stack),
        ),
        _ => Err(
            CalcitErr::new(ErrKind::TypeMismatch, "&record:with-class expected a record", stack),
        ),
    }
}

/// What `&record:get-name` gives: the record's name as a keyword.
pub open spec fn get_record_name_spec(args: Seq<Val>, stack: Seq<crate::call_stack::FrameV>) -> Result<
    Val,
    ErrV,
> {
    if args.len() != 1 {
        perr(ErrKind::Arity, "&record:get-name expected 1 argument"@, stack)
    } else {
        match args[0] {
            Val::Record(name, _, _, _) => Ok(Val::Keyword(name)),
            _ => perr(ErrKind::TypeMismatch, "&record:get-name expected a record"@, stack),
        }
    }
}

/// The name a record was made with.
pub fn get_record_name(xs: &CalcitItems, stack: &Vec<CalcitStack>) -> (res: Result<
    Calcit,
    CalcitErr,
>)
    ensures
        crate::primes::res_view(res) == get_record_name_spec(
            cv_seq(xs@),
            crate::call_stack::stack_view(stack@),
        ),
{
    if xs.len() != 1 {
        return Err(CalcitErr::new(ErrKind::Arity, "&record:get-name expected 1 argument", stack));
    }
    match &xs[0] {
        Calcit::Record(r) => Ok(Calcit::Keyword(r.name.clone())),
        _ => Err(
            CalcitErr::new(ErrKind::TypeMismatch, "&record:get-name expected a record", stack),
        ),
    }
}

/// What `&record:matches?` gives: whether two records share name and
/// fields.
pub open spec fn record_matches_spec(args: Seq<Val>, stack: Seq<crate::call_stack::FrameV>) -> Result<
    Val,
    ErrV,
> {
    if args.len() != 2 {
        perr(ErrKind::Arity, "&record:matches? expected 2 arguments"@, stack)
    } else {
        match (args[0], args[1]) {
            (Val::Record(n1, f1, _, _), Val::Record(n2, f2, _, _)) => Ok(
                Val::Bool(n1 == n2 && f1 == f2),
            ),
            _ => perr(ErrKind::TypeMismatch, "&record:matches? expected 2 records"@, stack),
        }
    }
}

/// Whether two records share their name and their fields.
pub fn matches(xs: &CalcitItems, stack: &Vec<CalcitStack>) -> (res: Result<Calcit, CalcitErr>)
    ensures
        crate::primes::res_view(res) == record_matches_spec(
            cv_seq(xs@),
            crate::call_stack::stack_view(stack@),
        ),
{
    if xs.len() != 2 {
        return Err(CalcitErr::new(ErrKind::Arity, "&record:matches? expected 2 arguments", stack));
    }
    match (&xs[0], &xs[1]) {
        (Calcit::Record(r1), Calcit::Record(r2)) => Ok(
            Calcit::Bool(
                str_eq(r1.name.as_str(), r2.name.as_str()) && crate::primes::strings_eq(
                    &r1.fields,
                    &r2.fields,
                ),
            ),
        ),
        _ => Err(
            CalcitErr::new(ErrKind::TypeMismatch, "&record:matches? expected 2 records", stack),
        ),
    }
}

/// What `&record:count` gives: how many fields a record has.
pub open spec fn record_count_spec(args: Seq<Val>, stack: Seq<crate::call_stack::FrameV>) -> Result<
    Val,
    ErrV,
> {
    if args.len() != 1 {
        perr(ErrKind::Arity, "&record:count expected 1 argument"@, stack)
    } else {
        match args[0] {
            Val::Record(_, fields, _, _) => if fields.len() <= i64::MAX {
                Ok(Val::Number(fields.len() as int))
            } else {
                perr(ErrKind::NumericOverflow, "record is too large to count"@, stack)
            },
            _ => perr(ErrKind::TypeMismatch, "&record:count expected a record"@, stack),
        }
    }
}

/// How many fields a record has.
pub fn count(xs: &CalcitItems, stack: &Vec<CalcitStack>) -> (res: Result<Calcit, CalcitErr>)
    ensures
        crate::primes::res_view(res) == record_count_spec(
            cv_seq(xs@),
            crate::call_stack::stack_view(stack@),
        ),
{
    if xs.len() != 1 {
        return Err(CalcitErr::new(ErrKind::Arity, "&record:count expected 1 argument", stack));
    }
    match &xs[0] {
        Calcit::Record(r) => {
            let n = r.fields.len();
            if n as u64 <= i64::MAX as u64 {
                Ok(Calcit::Number(n as i64))
            } else {
                Err(CalcitErr::new(ErrKind::NumericOverflow, "record is too large to count", stack))
            }
        },
        _ => Err(CalcitErr::new(ErrKind::TypeMismatch, "&record:count expected a record", stack)),
    }
}

/// What `&record:contains?` gives: whether the record has the named field.
pub open spec fn contains_ques_spec(args: Seq<Val>, stack: Seq<crate::call_stack::FrameV>) -> Result<
    Val,
    ErrV,
> {
    if args.len() != 2 {
        perr(ErrKind::Arity, "&record:contains? expected 2 arguments"@, stack)
    } else {
        match args[0] {
            Val::Record(_, fields, _, _) => match tag_of(args[1]) {
                Some(t) => Ok(Val::Bool(has_field(fields, t))),
                None => perr(
                    ErrKind::TypeMismatch,
                    "record field expected as string, tag or symbol"@,
                    stack,
                ),
            },
            _ => perr(ErrKind::TypeMismatch, "&record:contains? expected a record"@, stack),
        }
    }
}

/// Whether a record has the named field.
pub fn contains_ques(xs: &CalcitItems, stack: &Vec<CalcitStack>) -> (res: Result<
    Calcit,
    CalcitErr,
>)
    ensures
        crate::primes::res_view(res) == contains_ques_spec(
            cv_seq(xs@),
            crate::call_stack::stack_view(stack@),
        ),
{
    if xs.len() != 2 {
        return Err(CalcitErr::new(ErrKind::Arity, "&record:contains? expected 2 arguments", stack));
    }
    match &xs[0] {
        Calcit::Record(r) => match tag_str(&xs[1]) {
            Some(t) => Ok(Calcit::Bool(field_index(&r.fields, t.as_str()).is_some())),
            None => Err(
                CalcitErr::new(
                    ErrKind::TypeMismatch,
                    "record field expected as string, tag or symbol",
                    stack,
                ),
            ),
        },
        _ => Err(
            CalcitErr::new(ErrKind::TypeMismatch, "&record:contains? expected a record", stack),
        ),
    }
}

/// What `&record:get` gives: the value under the named field, `Nil` when
/// the field is absent.
pub open spec fn record_get_spec(args: Seq<Val>, stack: Seq<crate::call_stack::FrameV>) -> Result<
    Val,
    ErrV,
> {
    if args.len() != 2 {
        perr(ErrKind::Arity, "&record:get expected 2 arguments"@, stack)
    } else {
        match args[0] {
            Val::Record(_, fields, values, _) => match tag_of(args[1]) {
                Some(t) => {
                    let at = field_at(fields, t);
                    if at < fields.len() && at < values.len() {
                        Ok(values[at])
                    } else {
                        Ok(Val::Nil)
                    }
                },
                None => perr(
                    ErrKind::TypeMismatch,
                    "record field expected as string, tag or symbol"@,
                    stack,
                ),
            },
            _ => perr(ErrKind::TypeMismatch, "&record:get expected a record"@, stack),
        }
    }
}

/// The value a record holds under the named field; `Nil` when absent.
pub fn get(xs: &CalcitItems, stack: &Vec<CalcitStack>) -> (res: Result<Calcit, CalcitErr>)
    ensures
        crate::primes::res_view(res) == record_get_spec(
            cv_seq(xs@),
            crate::call_stack::stack_view(stack@),
        ),
{
    if xs.len() != 2 {
        return Err(CalcitErr::new(ErrKind::Arity, "&record:get expected 2 arguments", stack));
    }
    match &xs[0] {
        Calcit::Record(r) => match tag_str(&xs[1]) {
            Some(t) => match field_index(&r.fields, t.as_str()) {
                Some(i) => {
                    proof {
                        assert(strs_view(r.fields@) =~= Seq::new(
                            r.fields@.len(),
                            |k: int| r.fields@[k]@,
                        ));
                        assert(cv_seq(xs@)[1] == cv(xs@[1]));
                    }
                    if i < r.values.len() {
                        proof {
                            assert(cv_seq(r.values@)[i as int] == cv(r.values@[i as int]));
                        }
                        Ok(r.values[i].clone())
                    } else {
                        Ok(Calcit::Nil)
                    }
                },
                None => {
                    proof {
                        lemma_field_at(strs_view(r.fields@), t@);
                    }
                    Ok(Calcit::Nil)
                },
            },
            None => Err(
                CalcitErr::new(
                    ErrKind::TypeMismatch,
                    "record field expected as string, tag or symbol",
                    stack,
                ),
            ),
        },
        _ => Err(CalcitErr::new(ErrKind::TypeMismatch, "&record:get expected a record", stack)),
    }
}

/// What `&record:assoc` gives: the record with the named field replaced;
/// a missing field is refused.
pub open spec fn record_assoc_spec(args: Seq<Val>, stack: Seq<crate::call_stack::FrameV>) -> Result<
    Val,
    ErrV,
> {
    if args.len() != 3 {
        perr(ErrKind::Arity, "&record:assoc expected 3 arguments"@, stack)
    } else {
        match args[0] {
            Val::Record(name, fields, values, class) => match tag_of(args[1]) {
                Some(t) => {
                    let at = field_at(fields, t);
                    if at < fields.len() && at < values.len() {
                        Ok(Val::Record(name, fields, values.update(at, args[2]), class))
                    } else if at < fields.len() {
                        Ok(Val::Record(name, fields, values, class))
                    } else {
                        perr(ErrKind::TypeMismatch, "invalid field for record"@, stack)
                    }
                },
                None => perr(
                    ErrKind::TypeMismatch,
                    "record field expected as string, tag or symbol"@,
                    stack,
                ),
            },
            _ => perr(ErrKind::TypeMismatch, "&record:assoc expected a record"@, stack),
        }
    }
}

/// Replaces the value under a field the record already has.
pub fn assoc(xs: &CalcitItems, stack: &Vec<CalcitStack>) -> (res: Result<Calcit, CalcitErr>)
    ensures
        crate::primes::res_view(res) == record_assoc_spec(
            cv_seq(xs@),
            crate::call_stack::stack_view(stack@),
        ),
{
    if xs.len() != 3 {
        return Err(CalcitErr::new(ErrKind::Arity, "&record:assoc expected 3 arguments", stack));
    }
    match &xs[0] {
        Calcit::Record(r) => match tag_str(&xs[1]) {
            Some(t) => match field_index(&r.fields, t.as_str()) {
                Some(i) => {
                    proof {
                        assert(strs_view(r.fields@) =~= Seq::new(
                            r.fields@.len(),
                            |k: int| r.fields@[k]@,
                        ));
                        assert(cv_seq(xs@)[1] == cv(xs@[1]));
                        assert(cv_seq(xs@)[2] == cv(xs@[2]));
                    }
                    let mut values = crate::primes::clone_items(&r.values);
                    if i < values.len() {
                        values.set(i, xs[2].clone());
                        proof {
                            assert(cv_seq(values@) =~= cv_seq(r.values@).update(
                                i as int,
                                cv(xs@[2]),
                            ));
                        }
                    }
                    let rec = CalcitRecord {
                        name: r.name.clone(),
                        fields: crate::primes::clone_strings(&r.fields),
                        values,
                        class: Box::new((*r.class).clone()),
                    };
                    let res = Calcit::Record(rec);
                    proof {
                        assert(Seq::new(rec.fields@.len(), |k: int| rec.fields@[k]@) =~= Seq::new(
                            r.fields@.len(),
                            |k: int| r.fields@[k]@,
                        ));
                    }
                    Ok(res)
                },
                None => Err(CalcitErr::new(ErrKind::TypeMismatch, "invalid field for record", stack)),
            },
            None => Err(
                CalcitErr::new(
                    ErrKind::TypeMismatch,
                    "record field expected as string, tag or symbol",
                    stack,
                ),
            ),
        },
        _ => Err(CalcitErr::new(ErrKind::TypeMismatch, "&record:assoc expected a record", stack)),
    }
}

/// What `&record:extend-as` gives: a record under a new name with one more
/// field, placed at its sorted position; a field already there is refused.
pub open spec fn extend_as_spec(args: Seq<Val>, stack: Seq<crate::call_stack::FrameV>) -> Result<
    Val,
    ErrV,
> {
    if args.len() != 4 {
        perr(ErrKind::Arity, "&record:extend-as expected 4 arguments"@, stack)
    } else {
        match args[0] {
            Val::Record(_, fields, values, class) => match (tag_of(args[1]), tag_of(args[2])) {
                (Some(n), Some(t)) => if fields.len() != values.len() {
                    perr(ErrKind::TypeMismatch, "malformed record"@, stack)
                } else {
                    match insert_entry(fields, values, t, args[3]) {
                        None => perr(ErrKind::TypeMismatch, "field already existed"@, stack),
                        Some(r) => Ok(Val::Record(n, r.0, r.1, class)),
                    }
                },
                _ => perr(
                    ErrKind::TypeMismatch,
                    "record field expected as string, tag or symbol"@,
                    stack,
                ),
            },
            _ => perr(ErrKind::TypeMismatch, "&record:extend-as expected a record"@, stack),
        }
    }
}

/// Extends a record by one field under a new record name.
pub fn extend_as(xs: &CalcitItems, stack: &Vec<CalcitStack>) -> (res: Result<Calcit, CalcitErr>)
    ensures
        crate::primes::res_view(res) == extend_as_spec(
            cv_seq(xs@),
            crate::call_stack::stack_view(stack@),
        ),
{
    if xs.len() != 4 {
        return Err(CalcitErr::new(ErrKind::Arity, "&record:extend-as expected 4 arguments", stack));
    }
    match &xs[0] {
        Calcit::Record(r) => match (tag_str(&xs[1]), tag_str(&xs[2])) {
            (Some(n), Some(t)) => {
                proof {
                    assert(strs_view(r.fields@) =~= Seq::new(
                        r.fields@.len(),
                        |k: int| r.fields@[k]@,
                    ));
                    assert(cv_seq(xs@)[0] == cv(xs@[0]));
                    assert(cv_seq(xs@)[1] == cv(xs@[1]));
                    assert(cv_seq(xs@)[2] == cv(xs@[2]));
                    assert(cv_seq(xs@)[3] == cv(xs@[3]));
                }
                if r.fields.len() != r.values.len() {
                    proof {
                        let sv = crate::call_stack::stack_view(stack@);
                        assert(cv_seq(xs@).len() == 4);
                        assert(cv_seq(xs@)[0] is Record);
                        assert(tag_of(cv_seq(xs@)[1]) is Some);
                        assert(tag_of(cv_seq(xs@)[2]) is Some);
                        assert(cv(xs@[0]) == Val::Record(
                            r.name@,
                            Seq::new(r.fields@.len(), |k: int| r.fields@[k]@),
                            cv_seq(r.values@),
                            Box::new(cv(*r.class)),
                        ));
                        assert(Seq::new(r.fields@.len(), |k: int| r.fields@[k]@).len()
                            == r.fields@.len());
                        assert(cv_seq(r.values@).len() == r.values@.len());
                        assert(r.fields@.len() != r.values@.len());
                        assert(extend_as_spec(cv_seq(xs@), sv) == perr(
                            ErrKind::TypeMismatch,
                            "malformed record"@,
                            sv,
                        ));
                    }
                    return Err(CalcitErr::new(ErrKind::TypeMismatch, "malformed record", stack));
                }
                let mut fields = crate::primes::clone_strings(&r.fields);
                let mut values = crate::primes::clone_items(&r.values);
                let ok = insert_field(&mut fields, &mut values, t, xs[3].clone());
                if !ok {
                    return Err(CalcitErr::new(ErrKind::TypeMismatch, "field already existed", stack));
                }
                let rec = CalcitRecord { name: n, fields, values, class: Box::new((*r.class).clone()) };
                let res = Calcit::Record(rec);
                proof {
                    assert(Seq::new(rec.fields@.len(), |k: int| rec.fields@[k]@) =~= strs_view(
                        rec.fields@,
                    ));
                    assert(Seq::new(r.fields@.len(), |k: int| r.fields@[k]@) =~= strs_view(
                        r.fields@,
                    ));
                }
                Ok(res)
            },
            _ => Err(
                CalcitErr::new(
                    ErrKind::TypeMismatch,
                    "record field expected as string, tag or symbol",
                    stack,
                ),
            ),
        },
        _ => Err(
            CalcitErr::new(ErrKind::TypeMismatch, "&record:extend-as expected a record", stack),
        ),
    }
}

/// What `&record:to-map` gives: the record's fields as keyword keys over
/// their values.
pub open spec fn turn_map_spec(args: Seq<Val>, stack: Seq<crate::call_stack::FrameV>) -> Result<
    Val,
    ErrV,
> {
    if args.len() != 1 {
        perr(ErrKind::Arity, "&record:to-map expected 1 argument"@, stack)
    } else {
        match args[0] {
            Val::Record(_, fields, values, _) => {
                let n = if fields.len() <= values.len() {
                    fields.len()
                } else {
                    values.len()
                };
                Ok(Val::Dict(Seq::new(n as nat, |i: int| (Val::Keyword(fields[i]), values[i]))))
            },
            _ => perr(ErrKind::TypeMismatch, "&record:to-map expected a record"@, stack),
        }
    }
}

/// Turns a record into a dictionary keyed by its field keywords.
pub fn turn_map(xs: &CalcitItems, stack: &Vec<CalcitStack>) -> (res: Result<Calcit, CalcitErr>)
    ensures
        crate::primes::res_view(res) == turn_map_spec(
            cv_seq(xs@),
            crate::call_stack::stack_view(stack@),
        ),
{
    if xs.len() != 1 {
        return Err(CalcitErr::new(ErrKind::Arity, "&record:to-map expected 1 argument", stack));
    }
    match &xs[0] {
        Calcit::Record(r) => {
            let n = if r.fields.len() <= r.values.len() {
                r.fields.len()
            } else {
                r.values.len()
            };
            let mut entries: Vec<(Calcit, Calcit)> = Vec::new();
            let mut i: usize = 0;
            while i < n
                invariant
                    n <= r.fields@.len(),
                    n <= r.values@.len(),
                    i <= n,
                    entries@.len() == i,
                    forall|k: int|
                        0 <= k < i ==> cv(#[trigger] entries@[k].0) == Val::Keyword(r.fields@[k]@)
                            && cv(entries@[k].1) == cv(r.values@[k]),
                decreases n - i,
            {
                let pair = (Calcit::Keyword(r.fields[i].clone()), r.values[i].clone());
                entries.push(pair);
                i = i + 1;
            }
            let res = Calcit::Dict(entries);
            proof {
                assert(strs_view(r.fields@) =~= Seq::new(r.fields@.len(), |k: int| r.fields@[k]@));
                assert(crate::primes::cv_pairs(entries@) =~= Seq::new(
                    n as nat,
                    |k: int| (Val::Keyword(strs_view(r.fields@)[k]), cv_seq(r.values@)[k]),
                ));
            }
            Ok(res)
        },
        _ => Err(CalcitErr::new(ErrKind::TypeMismatch, "&record:to-map expected a record", stack)),
    }
}

/// Folding key-value pairs onto a record's values: each key must name a
/// field; values are replaced left to right.
pub open spec fn record_set_pairs(
    fields: Seq<Seq<char>>,
    values: Seq<Val>,
    pairs: Seq<Val>,
) -> Result<Seq<Val>, Seq<char>>
    decreases pairs.len(),
{
    if pairs.len() == 0 {
        Ok(values)
    } else if pairs.len() == 1 {
        Err("&%{} expected pairs"@)
    } else {
        match tag_of(pairs[0]) {
            None => Err("expected field as string, tag or symbol"@),
            Some(t) => {
                let at = field_at(fields, t);
                if at < fields.len() && at < values.len() {
                    record_set_pairs(fields, values.update(at, pairs[1]), pairs.skip(2))
                } else {
                    Err("unexpected field for record"@)
                }
            },
        }
    }
}

/// What `&%{}` gives: a copy of the prototype record with every field set
/// from the key-value pairs that follow it.
pub open spec fn call_record_spec(args: Seq<Val>, stack: Seq<crate::call_stack::FrameV>) -> Result<
    Val,
    ErrV,
> {
    if args.len() < 2 {
        perr(ErrKind::Arity, "&%{} expected at least 2 arguments"@, stack)
    } else {
        match args[0] {
            Val::Record(name, fields, values, class) => {
                if (args.len() - 1) % 2 != 0 {
                    perr(ErrKind::Arity, "&%{} expected pairs"@, stack)
                } else if (args.len() - 1) / 2 != fields.len() {
                    perr(ErrKind::Arity, "&%{} expected one pair per field"@, stack)
                } else {
                    match record_set_pairs(fields, values, args.skip(1)) {
                        Err(m) => perr(ErrKind::TypeMismatch, m, stack),
                        Ok(vs) => Ok(Val::Record(name, fields, vs, class)),
                    }
                }
            },
            _ => perr(ErrKind::TypeMismatch, "&%{} expected a record as prototype"@, stack),
        }
    }
}

/// Builds a record from a prototype and field-value pairs; every field of
/// the prototype must be given exactly once.
pub fn call_record(xs: &CalcitItems, stack: &Vec<CalcitStack>) -> (res: Result<Calcit, CalcitErr>)
    ensures
        crate::primes::res_view(res) == call_record_spec(
            cv_seq(xs@),
            crate::call_stack::stack_view(stack@),
        ),
{
    if xs.len() < 2 {
        return Err(CalcitErr::new(ErrKind::Arity, "&%{} expected at least 2 arguments", stack));
    }
    match &xs[0] {
        Calcit::Record(r) => {
            proof {
                assert(cv_seq(xs@)[0] == cv(xs@[0]));
                assert(strs_view(r.fields@) =~= Seq::new(r.fields@.len(), |k: int| r.fields@[k]@));
            }
            if (xs.len() - 1) % 2 != 0 {
                return Err(CalcitErr::new(ErrKind::Arity, "&%{} expected pairs", stack));
            }
            if (xs.len() - 1) / 2 != r.fields.len() {
                return Err(CalcitErr::new(ErrKind::Arity, "&%{} expected one pair per field", stack));
            }
            let ghost fields_v = strs_view(r.fields@);
            let ghost pairs_all = cv_seq(xs@).skip(1);
            let mut values = crate::primes::clone_items(&r.values);
            let mut i: usize = 1;
            proof {
                assert(pairs_all.skip(0) =~= pairs_all);
            }
            #[verifier::loop_isolation(false)]
            while i < xs.len()
                invariant
                    1 <= i <= xs@.len(),
                    (i - 1) % 2 == 0,
                    fields_v == strs_view(r.fields@),
                    pairs_all == cv_seq(xs@).skip(1),
                    values@.len() == r.values@.len(),
                    record_set_pairs(fields_v, cv_seq(r.values@), pairs_all) == record_set_pairs(
                        fields_v,
                        cv_seq(values@),
                        pairs_all.skip(i - 1),
                    ),
                decreases xs@.len() - i,
            {
                let ghost rest = pairs_all.skip(i - 1);
                proof {
                    assert(rest.len() == xs@.len() - i);
                    assert(rest.len() != 1) by {
                        assert((xs@.len() - i) % 2 == 0);
                    }
                    assert(rest[0] == pairs_all[i - 1]);
                    assert(pairs_all[i - 1] == cv_seq(xs@)[i as int]);
                    assert(cv_seq(xs@)[i as int] == cv(xs@[i as int]));
                    assert(rest[1] == pairs_all[i as int]);
                    assert(pairs_all[i as int] == cv_seq(xs@)[i + 1]);
                    assert(cv_seq(xs@)[i + 1] == cv(xs@[i + 1]));
                    assert(rest.skip(2) =~= pairs_all.skip(i + 1));
                }
                let t = match tag_str(&xs[i]) {
                    None => {
                        return Err(
                            CalcitErr::new(
                                ErrKind::TypeMismatch,
                                "expected field as string, tag or symbol",
                                stack,
                            ),
                        );
                    },
                    Some(t) => t,
                };
                match field_index(&r.fields, t.as_str()) {
                    Some(at) => {
                        if at < values.len() {
                            let ghost prev = cv_seq(values@);
                            values.set(at, xs[i + 1].clone());
                            proof {
                                assert(cv_seq(values@) =~= prev.update(at as int, rest[1]));
                            }
                        } else {
                            return Err(
                                CalcitErr::new(
                                    ErrKind::TypeMismatch,
                                    "unexpected field for record",
                                    stack,
                                ),
                            );
                        }
                    },
                    None => {
                        return Err(
                            CalcitErr::new(ErrKind::TypeMismatch, "unexpected field for record", stack),
                        );
                    },
                }
                i = i + 2;
            }
            proof {
                assert(pairs_all.skip(xs@.len() - 1).len() == 0);
            }
            let rec = CalcitRecord {
                name: r.name.clone(),
                fields: crate::primes::clone_strings(&r.fields),
                values,
                class: Box::new((*r.class).clone()),
            };
            let res = Calcit::Record(rec);
            proof {
                assert(Seq::new(rec.fields@.len(), |k: int| rec.fields@[k]@) =~= strs_view(
                    r.fields@,
                ));
            }
            Ok(res)
        },
        _ => Err(
            CalcitErr::new(ErrKind::TypeMismatch, "&%{} expected a record as prototype", stack),
        ),
    }
}

/// The value under the first dictionary key whose tag is `t`, front to
/// back; string and keyword keys both name fields.
pub open spec fn dict_tag_get(entries: Seq<(Val, Val)>, t: Seq<char>) -> Option<Val>
    decreases entries.len(),
{
    if entries.len() == 0 {
        None
    } else if tag_of(entries[0].0) == Some(t) {
        Some(entries[0].1)
    } else {
        dict_tag_get(entries.skip(1), t)
    }
}

/// One value per field, each taken from the dictionary by its tag.
pub open spec fn from_map_values(fields: Seq<Seq<char>>, entries: Seq<(Val, Val)>) -> Result<
    Seq<Val>,
    Seq<char>,
>
    decreases fields.len(),
{
    if fields.len() == 0 {
        Ok(Seq::empty())
    } else {
        match from_map_values(fields.drop_last(), entries) {
            Err(m) => Err(m),
            Ok(vs) => match dict_tag_get(entries, fields.last()) {
                None => Err("missing field in map for record"@),
                Some(v) => Ok(vs.push(v)),
            },
        }
    }
}

/// A failed prefix fails the whole fold.
pub proof fn lemma_from_map_err(fields: Seq<Seq<char>>, entries: Seq<(Val, Val)>, k: int)
    requires
        0 <= k <= fields.len(),
        from_map_values(fields.take(k), entries) is Err,
    ensures
        from_map_values(fields, entries) == from_map_values(fields.take(k), entries),
    decreases fields.len() - k,
{
    if k == fields.len() {
        assert(fields.take(k) =~= fields);
    } else {
        assert(fields.take(k + 1).drop_last() =~= fields.take(k));
        lemma_from_map_err(fields, entries, k + 1);
    }
}

/// Index of the first dictionary entry whose key's tag is `t`.
fn dict_tag_idx(entries: &Vec<(Calcit, Calcit)>, t: &str) -> (res: Option<usize>)
    ensures
        match res {
            Some(j) => j < entries@.len() && dict_tag_get(crate::primes::cv_pairs(entries@), t@)
                == Some(crate::primes::cv_pairs(entries@)[j as int].1),
            None => dict_tag_get(crate::primes::cv_pairs(entries@), t@) is None,
        },
{
    let ghost full = crate::primes::cv_pairs(entries@);
    let mut j: usize = 0;
    proof {
        assert(full.skip(0) =~= full);
    }
    while j < entries.len()
        invariant
            j <= entries@.len(),
            full == crate::primes::cv_pairs(entries@),
            dict_tag_get(full, t@) == dict_tag_get(full.skip(j as int), t@),
        decreases entries@.len() - j,
    {
        proof {
            assert(full.skip(j as int)[0] == full[j as int]);
            assert(full.skip(j as int).skip(1) =~= full.skip(j + 1));
        }
        let hit = match tag_str(&entries[j].0) {
            Some(s) => str_eq(s.as_str(), t),
            None => false,
        };
        if hit {
            return Some(j);
        }
        j = j + 1;
    }
    proof {
        assert(full.skip(j as int).len() == 0);
    }
    None
}

/// What `&record:from-map` gives: the prototype record with each field's
/// value taken out of a dictionary holding exactly the fields as keys.
pub open spec fn record_from_map_spec(args: Seq<Val>, stack: Seq<crate::call_stack::FrameV>) -> Result<
    Val,
    ErrV,
> {
    if args.len() != 2 {
        perr(ErrKind::Arity, "&record:from-map expected 2 arguments"@, stack)
    } else {
        match (args[0], args[1]) {
            (Val::Record(name, fields, _, class), Val::Dict(entries)) => {
                if entries.len() != fields.len() {
                    perr(ErrKind::TypeMismatch, "invalid fields in map for record"@, stack)
                } else {
                    match from_map_values(fields, entries) {
                        Err(m) => perr(ErrKind::TypeMismatch, m, stack),
                        Ok(vs) => Ok(Val::Record(name, fields, vs, class)),
                    }
                }
            },
            _ => perr(ErrKind::TypeMismatch, "&record:from-map expected a record and a map"@, stack),
        }
    }
}

/// Builds a record from a prototype and a dictionary keyed by the fields.
pub fn record_from_map(xs: &CalcitItems, stack: &Vec<CalcitStack>) -> (res: Result<
    Calcit,
    CalcitErr,
>)
    ensures
        crate::primes::res_view(res) == record_from_map_spec(
            cv_seq(xs@),
            crate::call_stack::stack_view(stack@),
        ),
{
    if xs.len() != 2 {
        return Err(CalcitErr::new(ErrKind::Arity, "&record:from-map expected 2 arguments", stack));
    }
    match (&xs[0], &xs[1]) {
        (Calcit::Record(r), Calcit::Dict(entries)) => {
            proof {
                assert(cv_seq(xs@)[0] == cv(xs@[0]));
                assert(cv_seq(xs@)[1] == cv(xs@[1]));
                assert(strs_view(r.fields@) =~= Seq::new(r.fields@.len(), |k: int| r.fields@[k]@));
            }
            if entries.len() != r.fields.len() {
                return Err(
                    CalcitErr::new(ErrKind::TypeMismatch, "invalid fields in map for record", stack),
                );
            }
            let ghost fields_v = strs_view(r.fields@);
            let ghost entries_v = crate::primes::cv_pairs(entries@);
            let mut values: Vec<Calcit> = Vec::new();
            let mut i: usize = 0;
            proof {
                assert(fields_v.take(0) =~= Seq::<Seq<char>>::empty());
                assert(cv_seq(values@) =~= Seq::<Val>::empty());
            }
            #[verifier::loop_isolation(false)]
            while i < r.fields.len()
                invariant
                    i <= r.fields@.len(),
                    from_map_values(fields_v.take(i as int), entries_v) == Ok::<_, Seq<char>>(
                        cv_seq(values@),
                    ),
                decreases r.fields@.len() - i,
            {
                proof {
                    assert(fields_v.take(i + 1).drop_last() =~= fields_v.take(i as int));
                    assert(fields_v.take(i + 1).last() == fields_v[i as int]);
                    assert(fields_v[i as int] == r.fields@[i as int]@);
                }
                match dict_tag_idx(entries, r.fields[i].as_str()) {
                    None => {
                        proof {
                            lemma_from_map_err(fields_v, entries_v, i + 1);
                        }
                        return Err(
                            CalcitErr::new(
                                ErrKind::TypeMismatch,
                                "missing field in map for record",
                                stack,
                            ),
                        );
                    },
                    Some(j) => {
                        let ghost prev = cv_seq(values@);
                        values.push(entries[j].1.clone());
                        proof {
                            assert(crate::primes::cv_pairs(entries@)[j as int].1 == cv(
                                entries@[j as int].1,
                            ));
                            assert(cv_seq(values@) =~= prev.push(entries_v[j as int].1));
                        }
                    },
                }
                i = i + 1;
            }
            proof {
                assert(fields_v.take(r.fields@.len() as int) =~= fields_v);
            }
            let rec = CalcitRecord {
                name: r.name.clone(),
                fields: crate::primes::clone_strings(&r.fields),
                values,
                class: Box::new((*r.class).clone()),
            };
            let res = Calcit::Record(rec);
            proof {
                assert(Seq::new(rec.fields@.len(), |k: int| rec.fields@[k]@) =~= fields_v);
            }
            Ok(res)
        },
        _ => Err(
            CalcitErr::new(ErrKind::TypeMismatch, "&record:from-map expected a record and a map", stack),
        ),
    }
}

} // verus!
