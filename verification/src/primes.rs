//! The value model: the tagged union of runtime values, its mathematical
//! view, structural equality that ignores symbol resolution, and
//! well-formedness of records.

use vstd::prelude::*;

verus! {

/// What the resolver decided a symbol refers to.
#[derive(Debug)]
pub enum SymbolResolved {
    /// One of the in-band markers `~`, `~@`, `&`, `?`.
    ResolvedRaw,
    /// A binding introduced by `let` or by function parameters.
    ResolvedLocal,
    /// A definition in a namespace, with the import rule that led there.
    ResolvedDef { ns: String, def: String, rule: Option<ImportRule> },
}

/// How a namespace import exposes a target.
#[derive(Debug)]
pub enum ImportRule {
    /// The whole namespace under an alias.
    NsAs(String),
    /// One definition referred directly.
    NsReferDef(String, String),
    /// A default import of the namespace.
    NsDefault(String),
}

/// The special forms the evaluator knows.
#[derive(Clone, Copy, PartialEq, Eq, Structural, Debug)]
pub enum CalcitSyntax {
    Defn,
    Defmacro,
    If,
    CoreLet,
    Quote,
    Quasiquote,
    Eval,
    Try,
    Macroexpand,
    Macroexpand1,
    MacroexpandAll,
    Defatom,
    Reset,
    HintFn,
    Foldl,
}

/// A record: a named tuple whose field tags are kept sorted strictly
/// increasing, with one value per field.
#[derive(Debug)]
pub struct CalcitRecord {
    pub name: String,
    pub fields: Vec<String>,
    pub values: Vec<Calcit>,
    pub class: Box<Calcit>,
}

/// A runtime value.  Symbols are the only values whose meaning is
/// position-dependent; preprocessing fills their `resolved` annotation.
#[derive(Debug)]
pub enum Calcit {
    Nil,
    Bool(bool),
    Number(i64),
    Str(String),
    Keyword(String),
    /// name, namespace where it occurred, definition where it occurred, resolution
    Symbol(String, String, String, Option<SymbolResolved>),
    List(Vec<Calcit>),
    Dict(Vec<(Calcit, Calcit)>),
    SetOf(Vec<Calcit>),
    Record(CalcitRecord),
    /// names a builtin procedure
    Proc(String),
    /// a special form and the namespace it was seen in
    Syntax(CalcitSyntax, String),
    /// name, defining ns, unique id, captured scope, parameter list, body
    Fn(String, String, u64, Vec<(String, Calcit)>, Vec<Calcit>, Vec<Calcit>),
    /// name, defining ns, unique id, parameter list, body
    Macro(String, String, u64, Vec<Calcit>, Vec<Calcit>),
    /// lazily evaluated top-level binding: code and the memoized value
    Thunk(Box<Calcit>, Option<Box<Calcit>>),
    /// an opaque reference cell, named
    Ref(String),
    Tuple(Box<Calcit>, Box<Calcit>),
    /// sentinel produced by `recur`; consumed by the function applier
    Recur(Vec<Calcit>),
}

/// A local scope: later entries shadow earlier ones.
pub type CalcitScope = Vec<(String, Calcit)>;

/// An argument or element list.
pub type CalcitItems = Vec<Calcit>;

/// Mathematical view of [`SymbolResolved`].
pub enum ResolvedV {
    Raw,
    Local,
    Def(Seq<char>, Seq<char>, Option<RuleV>),
}

/// Mathematical view of [`ImportRule`].
pub enum RuleV {
    NsAs(Seq<char>),
    NsReferDef(Seq<char>, Seq<char>),
    NsDefault(Seq<char>),
}

/// Mathematical view of a value: the same tree over `Seq` and `int`.
pub enum Val {
    Nil,
    Bool(bool),
    Number(int),
    Str(Seq<char>),
    Keyword(Seq<char>),
    Symbol(Seq<char>, Seq<char>, Seq<char>, Option<ResolvedV>),
    List(Seq<Val>),
    Dict(Seq<(Val, Val)>),
    SetOf(Seq<Val>),
    Record(Seq<char>, Seq<Seq<char>>, Seq<Val>, Box<Val>),
    Proc(Seq<char>),
    Syntax(CalcitSyntax, Seq<char>),
    Fn(Seq<char>, Seq<char>, int, Seq<(Seq<char>, Val)>, Seq<Val>, Seq<Val>),
    Macro(Seq<char>, Seq<char>, int, Seq<Val>, Seq<Val>),
    Thunk(Box<Val>, Option<Box<Val>>),
    Ref(Seq<char>),
    Tuple(Box<Val>, Box<Val>),
    Recur(Seq<Val>),
}

/// View of a resolution annotation.
pub open spec fn rv(r: SymbolResolved) -> ResolvedV {
    match r {
        SymbolResolved::ResolvedRaw => ResolvedV::Raw,
        SymbolResolved::ResolvedLocal => ResolvedV::Local,
        SymbolResolved::ResolvedDef { ns, def, rule } => ResolvedV::Def(
            ns@,
            def@,
            match rule {
                None => None,
                Some(ImportRule::NsAs(s)) => Some(RuleV::NsAs(s@)),
                Some(ImportRule::NsReferDef(a, b)) => Some(RuleV::NsReferDef(a@, b@)),
                Some(ImportRule::NsDefault(s)) => Some(RuleV::NsDefault(s@)),
            },
        ),
    }
}

/// View of a value.
pub open spec fn cv(c: Calcit) -> Val
    decreases c,
{
    match c {
        Calcit::Nil => Val::Nil,
        Calcit::Bool(b) => Val::Bool(b),
        Calcit::Number(n) => Val::Number(n as int),
        Calcit::Str(s) => Val::Str(s@),
        Calcit::Keyword(s) => Val::Keyword(s@),
        Calcit::Symbol(sym, ns, at_def, resolved) => Val::Symbol(
            sym@,
            ns@,
            at_def@,
            match resolved {
                None => None,
                Some(r) => Some(rv(r)),
            },
        ),
        Calcit::List(xs) => Val::List(cv_seq(xs@)),
        Calcit::Dict(xs) => Val::Dict(cv_pairs(xs@)),
        Calcit::SetOf(xs) => Val::SetOf(cv_seq(xs@)),
        Calcit::Record(r) => Val::Record(
            r.name@,
            Seq::new(r.fields@.len(), |i: int| r.fields@[i]@),
            cv_seq(r.values@),
            Box::new(cv(*r.class)),
        ),
        Calcit::Proc(s) => Val::Proc(s@),
        Calcit::Syntax(k, ns) => Val::Syntax(k, ns@),
        Calcit::Fn(name, ns, id, scope, args, body) => Val::Fn(
            name@,
            ns@,
            id as int,
            cv_scope(scope@),
            cv_seq(args@),
            cv_seq(body@),
        ),
        Calcit::Macro(name, ns, id, args, body) => Val::Macro(
            name@,
            ns@,
            id as int,
            cv_seq(args@),
            cv_seq(body@),
        ),
        Calcit::Thunk(code, value) => Val::Thunk(
            Box::new(cv(*code)),
            match value {
                None => None,
                Some(v) => Some(Box::new(cv(*v))),
            },
        ),
        Calcit::Ref(s) => Val::Ref(s@),
        Calcit::Tuple(a, b) => Val::Tuple(Box::new(cv(*a)), Box::new(cv(*b))),
        Calcit::Recur(xs) => Val::Recur(cv_seq(xs@)),
    }
}

/// View of a sequence of values.
pub open spec fn cv_seq(xs: Seq<Calcit>) -> Seq<Val>
    decreases xs,
{
    Seq::new(
        xs.len(),
        |i: int|
            if 0 <= i < xs.len() {
                cv(xs[i])
            } else {
                Val::Nil
            },
    )
}

/// View of a key-value sequence.
pub open spec fn cv_pairs(xs: Seq<(Calcit, Calcit)>) -> Seq<(Val, Val)>
    decreases xs,
{
    Seq::new(
        xs.len(),
        |i: int|
            if 0 <= i < xs.len() {
                (cv(xs[i].0), cv(xs[i].1))
            } else {
                (Val::Nil, Val::Nil)
            },
    )
}

/// View of a scope.
pub open spec fn cv_scope(xs: Seq<(String, Calcit)>) -> Seq<(Seq<char>, Val)>
    decreases xs,
{
    Seq::new(
        xs.len(),
        |i: int|
            if 0 <= i < xs.len() {
                (xs[i].0@, cv(xs[i].1))
            } else {
                (Seq::empty(), Val::Nil)
            },
    )
}

impl Clone for SymbolResolved {
    /// A resolution annotation copies exactly.
    fn clone(&self) -> (res: Self)
        ensures
            res == *self,
    {
        match self {
            SymbolResolved::ResolvedRaw => SymbolResolved::ResolvedRaw,
            SymbolResolved::ResolvedLocal => SymbolResolved::ResolvedLocal,
            SymbolResolved::ResolvedDef { ns, def, rule } => SymbolResolved::ResolvedDef {
                ns: ns.clone(),
                def: def.clone(),
                rule: match rule {
                    None => None,
                    Some(r) => Some(r.clone()),
                },
            },
        }
    }
}

impl Clone for ImportRule {
    /// An import rule copies exactly.
    fn clone(&self) -> (res: Self)
        ensures
            res == *self,
    {
        match self {
            ImportRule::NsAs(s) => ImportRule::NsAs(s.clone()),
            ImportRule::NsReferDef(a, b) => ImportRule::NsReferDef(a.clone(), b.clone()),
            ImportRule::NsDefault(s) => ImportRule::NsDefault(s.clone()),
        }
    }
}

impl Clone for Calcit {
    /// A value copies to one with the same view.
    fn clone(&self) -> (res: Self)
        ensures
            cv(res) == cv(*self),
        decreases *self,
    {
        match self {
            Calcit::Nil => Calcit::Nil,
            Calcit::Bool(b) => Calcit::Bool(*b),
            Calcit::Number(n) => Calcit::Number(*n),
            Calcit::Str(s) => Calcit::Str(s.clone()),
            Calcit::Keyword(s) => Calcit::Keyword(s.clone()),
            Calcit::Symbol(sym, ns, at_def, resolved) => Calcit::Symbol(
                sym.clone(),
                ns.clone(),
                at_def.clone(),
                match resolved {
                    None => None,
                    Some(r) => Some(r.clone()),
                },
            ),
            Calcit::List(xs) => Calcit::List(clone_items(xs)),
            Calcit::Dict(xs) => Calcit::Dict(clone_entries(xs)),
            Calcit::SetOf(xs) => Calcit::SetOf(clone_items(xs)),
            Calcit::Record(r) => Calcit::Record(r.clone()),
            Calcit::Proc(s) => Calcit::Proc(s.clone()),
            Calcit::Syntax(k, ns) => Calcit::Syntax(*k, ns.clone()),
            Calcit::Fn(name, ns, id, scope, args, body) => Calcit::Fn(
                name.clone(),
                ns.clone(),
                *id,
                clone_scope(scope),
                clone_items(args),
                clone_items(body),
            ),
            Calcit::Macro(name, ns, id, args, body) => Calcit::Macro(
                name.clone(),
                ns.clone(),
                *id,
                clone_items(args),
                clone_items(body),
            ),
            Calcit::Thunk(code, value) => Calcit::Thunk(
                Box::new((**code).clone()),
                match value {
                    None => None,
                    Some(v) => Some(Box::new((**v).clone())),
                },
            ),
            Calcit::Ref(s) => Calcit::Ref(s.clone()),
            Calcit::Tuple(a, b) => Calcit::Tuple(
                Box::new((**a).clone()),
                Box::new((**b).clone()),
            ),
            Calcit::Recur(xs) => Calcit::Recur(clone_items(xs)),
        }
    }
}

impl Clone for CalcitRecord {
    /// A record copies to one with the same view.
    fn clone(&self) -> (res: Self)
        ensures
            cv(Calcit::Record(res)) == cv(Calcit::Record(*self)),
        decreases *self,
    {
        let res = CalcitRecord {
            name: self.name.clone(),
            fields: clone_strings(&self.fields),
            values: clone_items(&self.values),
            class: Box::new((*self.class).clone()),
        };
        proof {
            assert(Seq::new(res.fields@.len(), |i: int| res.fields@[i]@) =~= Seq::new(
                self.fields@.len(),
                |i: int| self.fields@[i]@,
            ));
        }
        res
    }
}

/// Copies a list of values, keeping the view.
pub fn clone_items(xs: &Vec<Calcit>) -> (res: Vec<Calcit>)
    ensures
        cv_seq(res@) == cv_seq(xs@),
        res@.len() == xs@.len(),
    decreases xs,
{
    let mut res: Vec<Calcit> = Vec::new();
    let mut i: usize = 0;
    while i < xs.len()
        invariant
            i <= xs@.len(),
            res@.len() == i,
            forall|j: int| 0 <= j < i ==> cv(res@[j]) == cv(xs@[j]),
        decreases xs@.len() - i,
    {
        res.push(xs[i].clone());
        i = i + 1;
    }
    proof {
        assert(cv_seq(res@) =~= cv_seq(xs@));
    }
    res
}

/// Copies a key-value list, keeping the view.
pub fn clone_entries(xs: &Vec<(Calcit, Calcit)>) -> (res: Vec<(Calcit, Calcit)>)
    ensures
        cv_pairs(res@) == cv_pairs(xs@),
        res@.len() == xs@.len(),
    decreases xs,
{
    let mut res: Vec<(Calcit, Calcit)> = Vec::new();
    let mut i: usize = 0;
    while i < xs.len()
        invariant
            i <= xs@.len(),
            res@.len() == i,
            forall|j: int| 0 <= j < i ==> cv(res@[j].0) == cv(xs@[j].0) && cv(res@[j].1) == cv(
                xs@[j].1,
            ),
        decreases xs@.len() - i,
    {
        let pair = (xs[i].0.clone(), xs[i].1.clone());
        res.push(pair);
        i = i + 1;
    }
    proof {
        assert(cv_pairs(res@) =~= cv_pairs(xs@));
    }
    res
}

/// Copies a scope, keeping the view.
pub fn clone_scope(xs: &Vec<(String, Calcit)>) -> (res: Vec<(String, Calcit)>)
    ensures
        cv_scope(res@) == cv_scope(xs@),
        res@.len() == xs@.len(),
    decreases xs,
{
    let mut res: Vec<(String, Calcit)> = Vec::new();
    let mut i: usize = 0;
    while i < xs.len()
        invariant
            i <= xs@.len(),
            res@.len() == i,
            forall|j: int| 0 <= j < i ==> res@[j].0@ == xs@[j].0@ && cv(res@[j].1) == cv(xs@[j].1),
        decreases xs@.len() - i,
    {
        let pair = (xs[i].0.clone(), xs[i].1.clone());
        res.push(pair);
        i = i + 1;
    }
    proof {
        assert(cv_scope(res@) =~= cv_scope(xs@));
    }
    res
}

/// Copies a list of names exactly.
pub fn clone_strings(xs: &Vec<String>) -> (res: Vec<String>)
    ensures
        res@ == xs@,
{
    let mut res: Vec<String> = Vec::new();
    let mut i: usize = 0;
    while i < xs.len()
        invariant
            i <= xs@.len(),
            res@ =~= xs@.subrange(0, i as int),
        decreases xs@.len() - i,
    {
        res.push(xs[i].clone());
        proof {
            assert(res@ =~= xs@.subrange(0, i + 1));
        }
        i = i + 1;
    }
    proof {
        assert(res@ =~= xs@);
    }
    res
}

/// Structural equality of two values.  Symbol resolution and the places a
/// symbol was written at are ignored: symbols are equal when their names are.
/// Functions and macros are compared by their unique ids.  Dictionaries and
/// sets are compared without regard to entry order.
pub open spec fn val_eq(a: Val, b: Val) -> bool
    decreases a, 1int,
{
    match (a, b) {
        (Val::Nil, Val::Nil) => true,
        (Val::Bool(x), Val::Bool(y)) => x == y,
        (Val::Number(x), Val::Number(y)) => x == y,
        (Val::Str(x), Val::Str(y)) => x == y,
        (Val::Keyword(x), Val::Keyword(y)) => x == y,
        (Val::Symbol(s1, _ns1, _d1, _r1), Val::Symbol(s2, _ns2, _d2, _r2)) => s1 == s2,
        (Val::List(xs), Val::List(ys)) => xs.len() == ys.len() && (forall|i: int|
            0 <= i < xs.len() ==> val_eq(#[trigger] xs[i], ys[i])),
        (Val::Dict(xs), Val::Dict(ys)) => xs.len() == ys.len() && (forall|i: int|
            0 <= i < xs.len() ==> match dict_get(#[trigger] xs[i].0, ys) {
                Some(v) => val_eq(xs[i].1, v),
                None => false,
            }),
        (Val::SetOf(xs), Val::SetOf(ys)) => xs.len() == ys.len() && (forall|i: int|
            0 <= i < xs.len() ==> set_has(#[trigger] xs[i], ys)),
        (Val::Record(n1, f1, v1, c1), Val::Record(n2, f2, v2, c2)) => n1 == n2 && f1 == f2
            && v1.len() == v2.len() && (forall|i: int|
            0 <= i < v1.len() ==> val_eq(#[trigger] v1[i], v2[i])) && val_eq(*c1, *c2),
        (Val::Proc(x), Val::Proc(y)) => x == y,
        (Val::Syntax(k1, _), Val::Syntax(k2, _)) => k1 == k2,
        (Val::Fn(_, _, id1, _, _, _), Val::Fn(_, _, id2, _, _, _)) => id1 == id2,
        (Val::Macro(_, _, id1, _, _), Val::Macro(_, _, id2, _, _)) => id1 == id2,
        (Val::Thunk(c1, _), Val::Thunk(c2, _)) => val_eq(*c1, *c2),
        (Val::Ref(x), Val::Ref(y)) => x == y,
        (Val::Tuple(a1, b1), Val::Tuple(a2, b2)) => val_eq(*a1, *a2) && val_eq(*b1, *b2),
        (Val::Recur(xs), Val::Recur(ys)) => xs.len() == ys.len() && (forall|i: int|
            0 <= i < xs.len() ==> val_eq(#[trigger] xs[i], ys[i])),
        _ => false,
    }
}

/// The value under the first key of `ys` that equals `k`, front to back.
pub open spec fn dict_get(k: Val, ys: Seq<(Val, Val)>) -> Option<Val>
    decreases k, 2int, ys.len(),
{
    if ys.len() == 0 {
        None
    } else if val_eq(k, ys[0].0) {
        Some(ys[0].1)
    } else {
        dict_get(k, ys.skip(1))
    }
}

/// Whether some member of `ys` equals `x`.
pub open spec fn set_has(x: Val, ys: Seq<Val>) -> bool
    decreases x, 2int, ys.len(),
{
    if ys.len() == 0 {
        false
    } else if val_eq(x, ys[0]) {
        true
    } else {
        set_has(x, ys.skip(1))
    }
}

/// View of a list of names.
pub open spec fn strs_view(xs: Seq<String>) -> Seq<Seq<char>> {
    Seq::new(xs.len(), |i: int| xs[i]@)
}

/// Whether two name lists hold the same names.
pub fn strings_eq(xs: &Vec<String>, ys: &Vec<String>) -> (r: bool)
    ensures
        r == (strs_view(xs@) == strs_view(ys@)),
{
    if xs.len() != ys.len() {
        proof {
            assert(strs_view(xs@).len() != strs_view(ys@).len());
        }
        return false;
    }
    let mut i: usize = 0;
    while i < xs.len()
        invariant
            xs@.len() == ys@.len(),
            i <= xs@.len(),
            forall|j: int| 0 <= j < i ==> xs@[j]@ == ys@[j]@,
        decreases xs@.len() - i,
    {
        if !crate::util::str_eq(xs[i].as_str(), ys[i].as_str()) {
            proof {
                assert(strs_view(xs@)[i as int] != strs_view(ys@)[i as int]);
            }
            return false;
        }
        i = i + 1;
    }
    proof {
        assert(strs_view(xs@) =~= strs_view(ys@));
    }
    true
}

/// Structural equality of two values; see [`val_eq`] for what it means.
pub fn calcit_eq(a: &Calcit, b: &Calcit) -> (r: bool)
    ensures
        r == val_eq(cv(*a), cv(*b)),
    decreases *a, 1int,
{
    match (a, b) {
        (Calcit::Nil, Calcit::Nil) => true,
        (Calcit::Bool(x), Calcit::Bool(y)) => x == y,
        (Calcit::Number(x), Calcit::Number(y)) => x == y,
        (Calcit::Str(x), Calcit::Str(y)) => crate::util::str_eq(x.as_str(), y.as_str()),
        (Calcit::Keyword(x), Calcit::Keyword(y)) => crate::util::str_eq(x.as_str(), y.as_str()),
        (Calcit::Symbol(s1, _, _, _), Calcit::Symbol(s2, _, _, _)) => crate::util::str_eq(
            s1.as_str(),
            s2.as_str(),
        ),
        (Calcit::List(xs), Calcit::List(ys)) => items_eq(xs, ys),
        (Calcit::Dict(xs), Calcit::Dict(ys)) => entries_eq(xs, ys),
        (Calcit::SetOf(xs), Calcit::SetOf(ys)) => members_eq(xs, ys),
        (Calcit::Record(r1), Calcit::Record(r2)) => {
            crate::util::str_eq(r1.name.as_str(), r2.name.as_str()) && strings_eq(
                &r1.fields,
                &r2.fields,
            ) && items_eq(&r1.values, &r2.values) && calcit_eq(&r1.class, &r2.class)
        },
        (Calcit::Proc(x), Calcit::Proc(y)) => crate::util::str_eq(x.as_str(), y.as_str()),
        (Calcit::Syntax(k1, _), Calcit::Syntax(k2, _)) => k1 == k2,
        (Calcit::Fn(_, _, id1, _, _, _), Calcit::Fn(_, _, id2, _, _, _)) => id1 == id2,
        (Calcit::Macro(_, _, id1, _, _), Calcit::Macro(_, _, id2, _, _)) => id1 == id2,
        (Calcit::Thunk(c1, _), Calcit::Thunk(c2, _)) => calcit_eq(c1, c2),
        (Calcit::Ref(x), Calcit::Ref(y)) => crate::util::str_eq(x.as_str(), y.as_str()),
        (Calcit::Tuple(a1, b1), Calcit::Tuple(a2, b2)) => calcit_eq(a1, a2) && calcit_eq(b1, b2),
        (Calcit::Recur(xs), Calcit::Recur(ys)) => items_eq(xs, ys),
        _ => false,
    }
}

/// Pointwise structural equality of two lists of values.
pub fn items_eq(xs: &Vec<Calcit>, ys: &Vec<Calcit>) -> (r: bool)
    ensures
        r == (cv_seq(xs@).len() == cv_seq(ys@).len() && (forall|i: int|
            0 <= i < xs@.len() ==> val_eq(#[trigger] cv_seq(xs@)[i], cv_seq(ys@)[i]))),
    decreases xs@, 0int,
{
    if xs.len() != ys.len() {
        return false;
    }
    let mut i: usize = 0;
    while i < xs.len()
        invariant
            xs@.len() == ys@.len(),
            i <= xs@.len(),
            forall|j: int| 0 <= j < i ==> val_eq(#[trigger] cv_seq(xs@)[j], cv_seq(ys@)[j]),
        decreases xs@.len() - i,
    {
        if !calcit_eq(&xs[i], &ys[i]) {
            proof {
                assert(!val_eq(cv_seq(xs@)[i as int], cv_seq(ys@)[i as int]));
            }
            return false;
        }
        i = i + 1;
    }
    true
}

/// Index of the first entry of `ys` whose key equals `k`, scanning from the
/// front, together with what [`dict_get`] gives on the views.
pub fn dict_get_idx(k: &Calcit, ys: &Vec<(Calcit, Calcit)>) -> (res: Option<usize>)
    ensures
        match res {
            Some(j) => j < ys@.len() && dict_get(cv(*k), cv_pairs(ys@)) == Some(
                cv_pairs(ys@)[j as int].1,
            ) && val_eq(cv(*k), cv_pairs(ys@)[j as int].0) && (forall|m: int|
                0 <= m < j ==> !val_eq(cv(*k), #[trigger] cv_pairs(ys@)[m].0)),
            None => dict_get(cv(*k), cv_pairs(ys@)) is None,
        },
    decreases *k, 2int,
{
    let ghost full = cv_pairs(ys@);
    let mut j: usize = 0;
    proof {
        assert(full.skip(0) =~= full);
    }
    while j < ys.len()
        invariant
            j <= ys@.len(),
            full == cv_pairs(ys@),
            dict_get(cv(*k), full) == dict_get(cv(*k), full.skip(j as int)),
            forall|m: int| 0 <= m < j ==> !val_eq(cv(*k), #[trigger] full[m].0),
        decreases ys@.len() - j,
    {
        proof {
            assert(full.skip(j as int)[0] == full[j as int]);
            assert(full.skip(j as int).skip(1) =~= full.skip(j + 1));
        }
        if calcit_eq(k, &ys[j].0) {
            return Some(j);
        }
        j = j + 1;
    }
    proof {
        assert(full.skip(j as int).len() == 0);
    }
    None
}

/// Whether two key-value lists are equal as dictionaries, without regard to
/// entry order.
pub fn entries_eq(xs: &Vec<(Calcit, Calcit)>, ys: &Vec<(Calcit, Calcit)>) -> (r: bool)
    ensures
        r == (cv_pairs(xs@).len() == cv_pairs(ys@).len() && (forall|i: int|
            0 <= i < xs@.len() ==> match dict_get(#[trigger] cv_pairs(xs@)[i].0, cv_pairs(ys@)) {
                Some(v) => val_eq(cv_pairs(xs@)[i].1, v),
                None => false,
            })),
    decreases xs@, 0int,
{
    if xs.len() != ys.len() {
        return false;
    }
    let mut i: usize = 0;
    while i < xs.len()
        invariant
            xs@.len() == ys@.len(),
            i <= xs@.len(),
            forall|j: int| 0 <= j < i ==> match dict_get(
                #[trigger] cv_pairs(xs@)[j].0,
                cv_pairs(ys@),
            ) {
                Some(v) => val_eq(cv_pairs(xs@)[j].1, v),
                None => false,
            },
        decreases xs@.len() - i,
    {
        match dict_get_idx(&xs[i].0, ys) {
            None => {
                proof {
                    assert(dict_get(cv_pairs(xs@)[i as int].0, cv_pairs(ys@)) is None);
                }
                return false;
            },
            Some(j) => {
                if !calcit_eq(&xs[i].1, &ys[j].1) {
                    proof {
                        assert(!val_eq(
                            cv_pairs(xs@)[i as int].1,
                            cv_pairs(ys@)[j as int].1,
                        ));
                    }
                    return false;
                }
            },
        }
        i = i + 1;
    }
    true
}

/// Whether some member of `ys` equals `x`.
pub fn set_has_member(x: &Calcit, ys: &Vec<Calcit>) -> (r: bool)
    ensures
        r == set_has(cv(*x), cv_seq(ys@)),
    decreases *x, 2int,
{
    let ghost full = cv_seq(ys@);
    let mut j: usize = 0;
    proof {
        assert(full.skip(0) =~= full);
    }
    while j < ys.len()
        invariant
            j <= ys@.len(),
            full == cv_seq(ys@),
            set_has(cv(*x), full) == set_has(cv(*x), full.skip(j as int)),
        decreases ys@.len() - j,
    {
        proof {
            assert(full.skip(j as int)[0] == full[j as int]);
            assert(full.skip(j as int).skip(1) =~= full.skip(j + 1));
        }
        if calcit_eq(x, &ys[j]) {
            return true;
        }
        j = j + 1;
    }
    proof {
        assert(full.skip(j as int).len() == 0);
    }
    false
}

/// Whether two member lists are equal as sets, without regard to order.
pub fn members_eq(xs: &Vec<Calcit>, ys: &Vec<Calcit>) -> (r: bool)
    ensures
        r == (cv_seq(xs@).len() == cv_seq(ys@).len() && (forall|i: int|
            0 <= i < xs@.len() ==> set_has(#[trigger] cv_seq(xs@)[i], cv_seq(ys@)))),
    decreases xs@, 0int,
{
    if xs.len() != ys.len() {
        return false;
    }
    let mut i: usize = 0;
    while i < xs.len()
        invariant
            xs@.len() == ys@.len(),
            i <= xs@.len(),
            forall|j: int| 0 <= j < i ==> set_has(#[trigger] cv_seq(xs@)[j], cv_seq(ys@)),
        decreases xs@.len() - i,
    {
        if !set_has_member(&xs[i], ys) {
            proof {
                assert(!set_has(cv_seq(xs@)[i as int], cv_seq(ys@)));
            }
            return false;
        }
        i = i + 1;
    }
    true
}

/// The kind of a failure; the taxonomy the evaluator reports.
#[derive(Clone, Copy, PartialEq, Eq, Structural, Debug)]
pub enum ErrKind {
    /// too many or too few arguments, or wrong shape for a syntax
    Arity,
    /// a procedure or syntax received a value of the wrong variant
    TypeMismatch,
    /// the head of a list form did not resolve to a callable
    NotCallable,
    /// a symbol or a namespace/definition pair could not be found
    UnknownSymbol,
    /// raised by the program itself
    UserRaised,
    /// an arithmetic result does not fit the number type
    NumericOverflow,
    /// the evaluation depth budget ran out
    StackDepth,
}

/// A failure: its kind, a short message, and a frozen snapshot of the call
/// stack at the moment it arose.
#[derive(Debug)]
pub struct CalcitErr {
    pub kind: ErrKind,
    pub msg: String,
    pub stack: Vec<crate::call_stack::CalcitStack>,
}

/// Mathematical view of a failure.
pub struct ErrV {
    pub kind: ErrKind,
    pub msg: Seq<char>,
    pub stack: Seq<crate::call_stack::FrameV>,
}

impl View for CalcitErr {
    type V = ErrV;

    open spec fn view(&self) -> ErrV {
        ErrV {
            kind: self.kind,
            msg: self.msg@,
            stack: crate::call_stack::stack_view(self.stack@),
        }
    }
}

impl CalcitErr {
    /// A failure carrying a snapshot of the given stack.
    pub fn new(kind: ErrKind, msg: &str, stack: &Vec<crate::call_stack::CalcitStack>) -> (res:
        Self)
        ensures
            res@ == (ErrV { kind, msg: msg@, stack: crate::call_stack::stack_view(stack@) }),
    {
        CalcitErr { kind, msg: msg.to_owned(), stack: crate::call_stack::clone_frames(stack) }
    }

    /// A failure with an owned message, carrying a snapshot of the stack.
    pub fn from_msg(kind: ErrKind, msg: String, stack: &Vec<crate::call_stack::CalcitStack>) -> (
        res: Self)
        ensures
            res@ == (ErrV { kind, msg: msg@, stack: crate::call_stack::stack_view(stack@) }),
    {
        CalcitErr { kind, msg, stack: crate::call_stack::clone_frames(stack) }
    }
}

/// View of an evaluation result.
pub open spec fn res_view(r: Result<Calcit, CalcitErr>) -> Result<Val, ErrV> {
    match r {
        Ok(v) => Ok(cv(v)),
        Err(e) => Err(e@),
    }
}

/// One decimal digit as text.
pub open spec fn digit_repr(d: int) -> Seq<char> {
    if d == 0 {
        "0"@
    } else if d == 1 {
        "1"@
    } else if d == 2 {
        "2"@
    } else if d == 3 {
        "3"@
    } else if d == 4 {
        "4"@
    } else if d == 5 {
        "5"@
    } else if d == 6 {
        "6"@
    } else if d == 7 {
        "7"@
    } else if d == 8 {
        "8"@
    } else {
        "9"@
    }
}

/// A nonnegative number in decimal.
pub open spec fn nat_repr(n: int) -> Seq<char>
    decreases n,
{
    if n < 10 {
        digit_repr(n)
    } else {
        nat_repr(n / 10) + digit_repr(n % 10)
    }
}

/// A number in decimal, signed.
pub open spec fn dec_repr(n: int) -> Seq<char> {
    if n < 0 {
        "-"@ + nat_repr(-n)
    } else {
        nat_repr(n)
    }
}

/// One decimal digit as an owned string.
fn digit_string(d: u64) -> (res: String)
    requires
        d < 10,
    ensures
        res@ == digit_repr(d as int),
{
    if d == 0 {
        String::from_str("0")
    } else if d == 1 {
        String::from_str("1")
    } else if d == 2 {
        String::from_str("2")
    } else if d == 3 {
        String::from_str("3")
    } else if d == 4 {
        String::from_str("4")
    } else if d == 5 {
        String::from_str("5")
    } else if d == 6 {
        String::from_str("6")
    } else if d == 7 {
        String::from_str("7")
    } else if d == 8 {
        String::from_str("8")
    } else {
        String::from_str("9")
    }
}

/// A nonnegative number as decimal text.
fn nat_string(n: u64) -> (res: String)
    ensures
        res@ == nat_repr(n as int),
    decreases n,
{
    if n < 10 {
        digit_string(n)
    } else {
        let mut s = nat_string(n / 10);
        let d = digit_string(n % 10);
        s.append(d.as_str());
        s
    }
}

/// A number as decimal text, signed.
pub fn number_to_string(n: i64) -> (res: String)
    ensures
        res@ == dec_repr(n as int),
{
    if n >= 0 {
        nat_string(n as u64)
    } else {
        let m: u64 = ((-(n + 1)) as u64) + 1;
        proof {
            assert(m as int == -(n as int));
        }
        let mut s = String::from_str("-");
        let d = nat_string(m);
        s.append(d.as_str());
        s
    }
}

/// The name of a special form, as written.
pub open spec fn syntax_repr(k: CalcitSyntax) -> Seq<char> {
    match k {
        CalcitSyntax::Defn => "defn"@,
        CalcitSyntax::Defmacro => "defmacro"@,
        CalcitSyntax::If => "if"@,
        CalcitSyntax::CoreLet => "&let"@,
        CalcitSyntax::Quote => "quote"@,
        CalcitSyntax::Quasiquote => "quasiquote"@,
        CalcitSyntax::Eval => "eval"@,
        CalcitSyntax::Try => "try"@,
        CalcitSyntax::Macroexpand => "macroexpand"@,
        CalcitSyntax::Macroexpand1 => "macroexpand-1"@,
        CalcitSyntax::MacroexpandAll => "macroexpand-all"@,
        CalcitSyntax::Defatom => "defatom"@,
        CalcitSyntax::Reset => "reset!"@,
        CalcitSyntax::HintFn => "hint-fn"@,
        CalcitSyntax::Foldl => "foldl"@,
    }
}

/// A value in program form: a tree that reads back as the value.
pub open spec fn lisp_repr(v: Val) -> Seq<char>
    decreases v, 0int,
{
    match v {
        Val::Nil => "nil"@,
        Val::Bool(b) => if b {
            "true"@
        } else {
            "false"@
        },
        Val::Number(n) => dec_repr(n),
        Val::Str(s) => "|"@ + s,
        Val::Keyword(s) => ":"@ + s,
        Val::Symbol(s, _, _, _) => s,
        Val::List(xs) => "("@ + repr_join(xs) + ")"@,
        Val::Dict(entries) => "(&{}"@ + repr_pairs(entries) + ")"@,
        Val::SetOf(xs) => "(#{}"@ + repr_prefix(xs) + ")"@,
        Val::Record(name, _, _, _) => "(%{} "@ + name + ")"@,
        Val::Proc(s) => s,
        Val::Syntax(k, _) => syntax_repr(k),
        Val::Fn(name, _, _, _, _, _) => "(fn "@ + name + ")"@,
        Val::Macro(name, _, _, _, _) => "(macro "@ + name + ")"@,
        Val::Thunk(code, _) => "(thunk "@ + lisp_repr(*code) + ")"@,
        Val::Ref(s) => "(ref "@ + s + ")"@,
        Val::Tuple(a, b) => "(:: "@ + lisp_repr(*a) + " "@ + lisp_repr(*b) + ")"@,
        Val::Recur(xs) => "(recur"@ + repr_prefix(xs) + ")"@,
    }
}

/// Items joined by single spaces.
pub open spec fn repr_join(xs: Seq<Val>) -> Seq<char>
    decreases xs, 1int,
{
    if xs.len() == 0 {
        Seq::empty()
    } else {
        lisp_repr(xs[0]) + repr_prefix(xs.skip(1))
    }
}

/// Items each preceded by one space.
pub open spec fn repr_prefix(xs: Seq<Val>) -> Seq<char>
    decreases xs, 1int,
{
    if xs.len() == 0 {
        Seq::empty()
    } else {
        repr_prefix(xs.drop_last()) + " "@ + lisp_repr(xs.last())
    }
}

/// Key-value pairs, each key and value preceded by one space.
pub open spec fn repr_pairs(entries: Seq<(Val, Val)>) -> Seq<char>
    decreases entries, 1int,
{
    if entries.len() == 0 {
        Seq::empty()
    } else {
        repr_pairs(entries.drop_last()) + " "@ + lisp_repr(entries.last().0) + " "@ + lisp_repr(
            entries.last().1,
        )
    }
}

/// A value in friendly form: strings appear bare, everything else in
/// program form.
pub open spec fn friendly_repr(v: Val) -> Seq<char> {
    match v {
        Val::Str(s) => s,
        _ => lisp_repr(v),
    }
}

/// Prints a value in program form.
pub fn format_to_lisp(v: &Calcit) -> (res: String)
    ensures
        res@ == lisp_repr(cv(*v)),
    decreases *v, 0int,
{
    match v {
        Calcit::Nil => String::from_str("nil"),
        Calcit::Bool(b) => {
            if *b {
                String::from_str("true")
            } else {
                String::from_str("false")
            }
        },
        Calcit::Number(n) => number_to_string(*n),
        Calcit::Str(s) => {
            let mut out = String::from_str("|");
            out.append(s.as_str());
            out
        },
        Calcit::Keyword(s) => {
            let mut out = String::from_str(":");
            out.append(s.as_str());
            out
        },
        Calcit::Symbol(s, _, _, _) => s.clone(),
        Calcit::List(xs) => {
            let mut out = String::from_str("(");
            let body = format_items_joined(xs);
            out.append(body.as_str());
            out.append(")");
            out
        },
        Calcit::Dict(entries) => {
            let mut out = String::from_str("(&{}");
            let body = format_pairs(entries);
            out.append(body.as_str());
            out.append(")");
            out
        },
        Calcit::SetOf(xs) => {
            let mut out = String::from_str("(#{}");
            let body = format_items_prefixed(xs);
            out.append(body.as_str());
            out.append(")");
            out
        },
        Calcit::Record(r) => {
            let mut out = String::from_str("(%{} ");
            out.append(r.name.as_str());
            out.append(")");
            out
        },
        Calcit::Proc(s) => s.clone(),
        Calcit::Syntax(k, _) => syntax_name(k),
        Calcit::Fn(name, _, _, _, _, _) => {
            let mut out = String::from_str("(fn ");
            out.append(name.as_str());
            out.append(")");
            out
        },
        Calcit::Macro(name, _, _, _, _) => {
            let mut out = String::from_str("(macro ");
            out.append(name.as_str());
            out.append(")");
            out
        },
        Calcit::Thunk(code, _) => {
            let mut out = String::from_str("(thunk ");
            let body = format_to_lisp(code);
            out.append(body.as_str());
            out.append(")");
            out
        },
        Calcit::Ref(s) => {
            let mut out = String::from_str("(ref ");
            out.append(s.as_str());
            out.append(")");
            out
        },
        Calcit::Tuple(a, b) => {
            let mut out = String::from_str("(:: ");
            let sa = format_to_lisp(a);
            out.append(sa.as_str());
            out.append(" ");
            let sb = format_to_lisp(b);
            out.append(sb.as_str());
            out.append(")");
            out
        },
        Calcit::Recur(xs) => {
            let mut out = String::from_str("(recur");
            let body = format_items_prefixed(xs);
            out.append(body.as_str());
            out.append(")");
            out
        },
    }
}

/// The written name of a special form.
pub fn syntax_name(k: &CalcitSyntax) -> (res: String)
    ensures
        res@ == syntax_repr(*k),
{
    match k {
        CalcitSyntax::Defn => String::from_str("defn"),
        CalcitSyntax::Defmacro => String::from_str("defmacro"),
        CalcitSyntax::If => String::from_str("if"),
        CalcitSyntax::CoreLet => String::from_str("&let"),
        CalcitSyntax::Quote => String::from_str("quote"),
        CalcitSyntax::Quasiquote => String::from_str("quasiquote"),
        CalcitSyntax::Eval => String::from_str("eval"),
        CalcitSyntax::Try => String::from_str("try"),
        CalcitSyntax::Macroexpand => String::from_str("macroexpand"),
        CalcitSyntax::Macroexpand1 => String::from_str("macroexpand-1"),
        CalcitSyntax::MacroexpandAll => String::from_str("macroexpand-all"),
        CalcitSyntax::Defatom => String::from_str("defatom"),
        CalcitSyntax::Reset => String::from_str("reset!"),
        CalcitSyntax::HintFn => String::from_str("hint-fn"),
        CalcitSyntax::Foldl => String::from_str("foldl"),
    }
}

/// Items joined by single spaces.
fn format_items_joined(xs: &Vec<Calcit>) -> (res: String)
    ensures
        res@ == repr_join(cv_seq(xs@)),
    decreases xs@, 1int,
{
    if xs.len() == 0 {
        proof {
            assert(repr_join(cv_seq(xs@)) =~= Seq::<char>::empty());
        }
        String::new()
    } else {
        let mut out = format_to_lisp(&xs[0]);
        let mut i: usize = 1;
        proof {
            assert(cv_seq(xs@).skip(1).take(0) =~= Seq::<Val>::empty());
            assert(repr_prefix(Seq::<Val>::empty()) =~= Seq::<char>::empty());
        }
        #[verifier::loop_isolation(false)]
        while i < xs.len()
            invariant
                1 <= i <= xs@.len(),
                out@ == lisp_repr(cv_seq(xs@)[0]) + repr_prefix(cv_seq(xs@).skip(1).take(i - 1)),
            decreases xs@.len() - i,
        {
            proof {
                let tail = cv_seq(xs@).skip(1);
                assert(tail.take(i as int).drop_last() =~= tail.take(i - 1));
                assert(tail.take(i as int).last() == tail[i - 1]);
                assert(tail[i - 1] == cv_seq(xs@)[i as int]);
                assert(cv_seq(xs@)[i as int] == cv(xs@[i as int]));
            }
            out.append(" ");
            let piece = format_to_lisp(&xs[i]);
            out.append(piece.as_str());
            i = i + 1;
        }
        proof {
            assert(cv_seq(xs@).skip(1).take(xs@.len() - 1) =~= cv_seq(xs@).skip(1));
        }
        out
    }
}

/// Items each preceded by one space.
fn format_items_prefixed(xs: &Vec<Calcit>) -> (res: String)
    ensures
        res@ == repr_prefix(cv_seq(xs@)),
    decreases xs@, 1int,
{
    let mut out = String::new();
    let mut i: usize = 0;
    proof {
        assert(cv_seq(xs@).take(0) =~= Seq::<Val>::empty());
        assert(repr_prefix(Seq::<Val>::empty()) =~= Seq::<char>::empty());
    }
    #[verifier::loop_isolation(false)]
    while i < xs.len()
        invariant
            i <= xs@.len(),
            out@ == repr_prefix(cv_seq(xs@).take(i as int)),
        decreases xs@.len() - i,
    {
        proof {
            assert(cv_seq(xs@).take(i + 1).drop_last() =~= cv_seq(xs@).take(i as int));
            assert(cv_seq(xs@).take(i + 1).last() == cv_seq(xs@)[i as int]);
            assert(cv_seq(xs@)[i as int] == cv(xs@[i as int]));
        }
        out.append(" ");
        let piece = format_to_lisp(&xs[i]);
        out.append(piece.as_str());
        i = i + 1;
    }
    proof {
        assert(cv_seq(xs@).take(xs@.len() as int) =~= cv_seq(xs@));
    }
    out
}

/// Key-value pairs, each key and value preceded by one space.
fn format_pairs(entries: &Vec<(Calcit, Calcit)>) -> (res: String)
    ensures
        res@ == repr_pairs(cv_pairs(entries@)),
    decreases entries@, 1int,
{
    let mut out = String::new();
    let mut i: usize = 0;
    proof {
        assert(cv_pairs(entries@).take(0) =~= Seq::<(Val, Val)>::empty());
        assert(repr_pairs(Seq::<(Val, Val)>::empty()) =~= Seq::<char>::empty());
    }
    #[verifier::loop_isolation(false)]
    while i < entries.len()
        invariant
            i <= entries@.len(),
            out@ == repr_pairs(cv_pairs(entries@).take(i as int)),
        decreases entries@.len() - i,
    {
        proof {
            assert(cv_pairs(entries@).take(i + 1).drop_last() =~= cv_pairs(entries@).take(
                i as int,
            ));
            assert(cv_pairs(entries@).take(i + 1).last() == cv_pairs(entries@)[i as int]);
            assert(cv_pairs(entries@)[i as int] == (cv(entries@[i as int].0), cv(
                entries@[i as int].1,
            )));
        }
        out.append(" ");
        let k = format_to_lisp(&entries[i].0);
        out.append(k.as_str());
        out.append(" ");
        let v = format_to_lisp(&entries[i].1);
        out.append(v.as_str());
        i = i + 1;
    }
    proof {
        assert(cv_pairs(entries@).take(entries@.len() as int) =~= cv_pairs(entries@));
    }
    out
}

/// Prints a value in friendly form.
pub fn turn_string(v: &Calcit) -> (res: String)
    ensures
        res@ == friendly_repr(cv(*v)),
{
    match v {
        Calcit::Str(s) => s.clone(),
        _ => format_to_lisp(v),
    }
}

/// A value list views pointwise.
pub broadcast proof fn lemma_cv_seq_index(xs: Seq<Calcit>, i: int)
    requires
        0 <= i < xs.len(),
    ensures
        #[trigger] cv_seq(xs)[i] == cv(xs[i]),
{
}

/// A value list's view keeps its length.
pub broadcast proof fn lemma_cv_seq_len(xs: Seq<Calcit>)
    ensures
        (#[trigger] cv_seq(xs)).len() == xs.len(),
{
}

/// A key-value list views pointwise.
pub broadcast proof fn lemma_cv_pairs_index(xs: Seq<(Calcit, Calcit)>, i: int)
    requires
        0 <= i < xs.len(),
    ensures
        #[trigger] cv_pairs(xs)[i] == (cv(xs[i].0), cv(xs[i].1)),
{
}

/// A key-value list's view keeps its length.
pub broadcast proof fn lemma_cv_pairs_len(xs: Seq<(Calcit, Calcit)>)
    ensures
        (#[trigger] cv_pairs(xs)).len() == xs.len(),
{
}

/// A scope views pointwise.
pub broadcast proof fn lemma_cv_scope_index(xs: Seq<(String, Calcit)>, i: int)
    requires
        0 <= i < xs.len(),
    ensures
        #[trigger] cv_scope(xs)[i] == (xs[i].0@, cv(xs[i].1)),
{
}

/// A scope's view keeps its length.
pub broadcast proof fn lemma_cv_scope_len(xs: Seq<(String, Calcit)>)
    ensures
        (#[trigger] cv_scope(xs)).len() == xs.len(),
{
}

/// A name list views pointwise.
pub broadcast proof fn lemma_strs_view_index(xs: Seq<String>, i: int)
    requires
        0 <= i < xs.len(),
    ensures
        #[trigger] strs_view(xs)[i] == xs[i]@,
{
}

/// A name list's view keeps its length.
pub broadcast proof fn lemma_strs_view_len(xs: Seq<String>)
    ensures
        (#[trigger] strs_view(xs)).len() == xs.len(),
{
}

/// A key that a scan found nothing under equals no key in the entries.
pub proof fn lemma_dict_get_none(k: Val, entries: Seq<(Val, Val)>, m: int)
    requires
        dict_get(k, entries) is None,
        0 <= m < entries.len(),
    ensures
        !val_eq(k, entries[m].0),
    decreases entries.len(),
{
    if m == 0 {
    } else {
        assert(entries.skip(1)[m - 1] == entries[m]);
        lemma_dict_get_none(k, entries.skip(1), m - 1);
    }
}

} // verus!
