//! The program store: namespaces mapped to definition code, the memo of
//! evaluated definitions, the import table, and the per-run state the
//! evaluator threads through every call (diagnostic stack, warnings, output
//! lines, reference cells, and the id well for functions and macros).

use vstd::prelude::*;

use crate::call_stack::{stack_view, CalcitStack, FrameV};
use crate::primes::{cv, cv_scope, Calcit, ImportRule, RuleV, Val};
use crate::util::str_eq;
use vstd::pervasive::VecAdditionalExecFns;

verus! {

/// One definition: its namespace, its name, and a code or value tree.
pub struct DefEntry {
    pub ns: String,
    pub def: String,
    pub code: Calcit,
}

/// Mathematical view of a definition entry.
pub struct DefV {
    pub ns: Seq<char>,
    pub def: Seq<char>,
    pub code: Val,
}

impl View for DefEntry {
    type V = DefV;

    open spec fn view(&self) -> DefV {
        DefV { ns: self.ns@, def: self.def@, code: cv(self.code) }
    }
}

/// View of a definition table.
pub open spec fn defs_view(xs: Seq<DefEntry>) -> Seq<DefV> {
    Seq::new(xs.len(), |i: int| xs[i]@)
}

/// One import rule of a namespace: under which name it applies and what it
/// exposes.
pub struct ImportEntry {
    /// the namespace whose file declared the import
    pub at_ns: String,
    /// the alias or definition name the rule is keyed by; empty for defaults
    pub key: String,
    pub rule: ImportRule,
}

/// Mathematical view of an import entry.
pub struct ImportV {
    pub at_ns: Seq<char>,
    pub key: Seq<char>,
    pub rule: RuleV,
}

impl View for ImportEntry {
    type V = ImportV;

    open spec fn view(&self) -> ImportV {
        ImportV {
            at_ns: self.at_ns@,
            key: self.key@,
            rule: match self.rule {
                ImportRule::NsAs(ref s) => RuleV::NsAs(s@),
                ImportRule::NsReferDef(ref a, ref b) => RuleV::NsReferDef(a@, b@),
                ImportRule::NsDefault(ref s) => RuleV::NsDefault(s@),
            },
        }
    }
}

/// View of an import table.
pub open spec fn imports_view(xs: Seq<ImportEntry>) -> Seq<ImportV> {
    Seq::new(xs.len(), |i: int| xs[i]@)
}

/// What a resolution warning complains about.
#[derive(Clone, Copy, PartialEq, Eq, Structural, Debug)]
pub enum WarnKind {
    /// a symbol resolved to nothing
    UnknownSymbol,
    /// a local binding shadows a builtin or core definition
    ShadowedCoreName,
    /// a direct call hands a function more arguments than it takes
    TooManyArgs,
    /// a direct call hands a function fewer arguments than it takes
    TooFewArgs,
    /// a value of an unexpected variant showed up during resolution
    UnexpectedData,
    /// a macro reached the evaluator unexpanded
    MacroAtCall,
}

/// A resolution warning: never fatal, collected for printing at exit.
#[derive(Debug)]
pub struct Warning {
    pub kind: WarnKind,
    /// the symbol complained about
    pub sym: String,
    /// namespace and definition where it occurred
    pub ns: String,
    pub def: String,
}

/// Mathematical view of a warning.
pub struct WarnV {
    pub kind: WarnKind,
    pub sym: Seq<char>,
    pub ns: Seq<char>,
    pub def: Seq<char>,
}

impl View for Warning {
    type V = WarnV;

    open spec fn view(&self) -> WarnV {
        WarnV { kind: self.kind, sym: self.sym@, ns: self.ns@, def: self.def@ }
    }
}

/// View of the warnings collector.
pub open spec fn warnings_view(xs: Seq<Warning>) -> Seq<WarnV> {
    Seq::new(xs.len(), |i: int| xs[i]@)
}

/// View of the output lines.
pub open spec fn logs_view(xs: Seq<String>) -> Seq<Seq<char>> {
    Seq::new(xs.len(), |i: int| xs[i]@)
}

/// The whole interpreter state.
pub struct Program {
    /// original parsed forms, written once at load
    pub code: Vec<DefEntry>,
    /// evaluated definitions, thunked and filled on first access
    pub evaled: Vec<DefEntry>,
    pub imports: Vec<ImportEntry>,
    /// diagnostic call stack
    pub stack: Vec<CalcitStack>,
    pub warnings: Vec<Warning>,
    /// lines produced by `echo`; the host prints them
    pub logs: Vec<String>,
    /// reference cells made by `defatom`
    pub refs: Vec<(String, Calcit)>,
    /// next unique id for functions and macros
    pub id_gen: u64,
}

/// Mathematical view of the interpreter state.
pub struct ProgV {
    pub code: Seq<DefV>,
    pub evaled: Seq<DefV>,
    pub imports: Seq<ImportV>,
    pub stack: Seq<FrameV>,
    pub warnings: Seq<WarnV>,
    pub logs: Seq<Seq<char>>,
    pub refs: Seq<(Seq<char>, Val)>,
    pub id_gen: int,
}

impl View for Program {
    type V = ProgV;

    open spec fn view(&self) -> ProgV {
        ProgV {
            code: defs_view(self.code@),
            evaled: defs_view(self.evaled@),
            imports: imports_view(self.imports@),
            stack: stack_view(self.stack@),
            warnings: warnings_view(self.warnings@),
            logs: logs_view(self.logs@),
            refs: cv_scope(self.refs@),
            id_gen: self.id_gen as int,
        }
    }
}

/// Whether an entry is the one for `ns/def`.
pub open spec fn def_matches(d: DefV, ns: Seq<char>, def: Seq<char>) -> bool {
    d.ns == ns && d.def == def
}

/// Index of the first entry for `ns/def`; the table length when there is
/// none.
pub open spec fn find_def_at(defs: Seq<DefV>, ns: Seq<char>, def: Seq<char>) -> int
    decreases defs.len(),
{
    if defs.len() == 0 {
        0
    } else if def_matches(defs[0], ns, def) {
        0
    } else {
        1 + find_def_at(defs.skip(1), ns, def)
    }
}

/// The code or value stored for `ns/def`, front entry first.
pub open spec fn lookup_def(defs: Seq<DefV>, ns: Seq<char>, def: Seq<char>) -> Option<Val> {
    let i = find_def_at(defs, ns, def);
    if i < defs.len() {
        Some(defs[i].code)
    } else {
        None
    }
}

/// Whether the table holds an entry for `ns/def`.
pub open spec fn has_def(defs: Seq<DefV>, ns: Seq<char>, def: Seq<char>) -> bool {
    find_def_at(defs, ns, def) < defs.len()
}

/// The table after writing `v` under `ns/def`: the first entry for that
/// name is overwritten, or a new entry appended.
pub open spec fn def_written(defs: Seq<DefV>, ns: Seq<char>, def: Seq<char>, v: Val) -> Seq<
    DefV,
> {
    let i = find_def_at(defs, ns, def);
    if i < defs.len() {
        defs.update(i, DefV { ns, def, code: v })
    } else {
        defs.push(DefV { ns, def, code: v })
    }
}

/// What the first-match index means.
pub proof fn lemma_find_def_at(defs: Seq<DefV>, ns: Seq<char>, def: Seq<char>)
    ensures
        0 <= find_def_at(defs, ns, def) <= defs.len(),
        forall|k: int|
            0 <= k < find_def_at(defs, ns, def) ==> !def_matches(#[trigger] defs[k], ns, def),
        find_def_at(defs, ns, def) < defs.len() ==> def_matches(
            defs[find_def_at(defs, ns, def)],
            ns,
            def,
        ),
    decreases defs.len(),
{
    if defs.len() == 0 {
    } else if def_matches(defs[0], ns, def) {
    } else {
        lemma_find_def_at(defs.skip(1), ns, def);
        assert forall|k: int| 0 <= k < find_def_at(defs, ns, def) implies !def_matches(
            #[trigger] defs[k],
            ns,
            def,
        ) by {
            if k > 0 {
                assert(defs.skip(1)[k - 1] == defs[k]);
            }
        }
        if find_def_at(defs, ns, def) < defs.len() {
            assert(defs.skip(1)[find_def_at(defs.skip(1), ns, def)] == defs[find_def_at(
                defs,
                ns,
                def,
            )]);
        }
    }
}

/// Finds the position of the first entry for `ns/def` in a table.
fn scan_defs(entries: &Vec<DefEntry>, ns: &str, def: &str) -> (res: Option<usize>)
    ensures
        match res {
            Some(i) => i < entries@.len() && i == find_def_at(defs_view(entries@), ns@, def@),
            None => find_def_at(defs_view(entries@), ns@, def@) == defs_view(entries@).len(),
        },
{
    proof {
        lemma_find_def_at(defs_view(entries@), ns@, def@);
    }
    let mut i: usize = 0;
    while i < entries.len()
        invariant
            i <= entries@.len(),
            forall|k: int| 0 <= k < i ==> !def_matches(#[trigger] defs_view(entries@)[k], ns@, def@),
            0 <= find_def_at(defs_view(entries@), ns@, def@) <= entries@.len(),
            forall|k: int|
                0 <= k < find_def_at(defs_view(entries@), ns@, def@) ==> !def_matches(
                    #[trigger] defs_view(entries@)[k],
                    ns@,
                    def@,
                ),
            find_def_at(defs_view(entries@), ns@, def@) < entries@.len() ==> def_matches(
                defs_view(entries@)[find_def_at(defs_view(entries@), ns@, def@)],
                ns@,
                def@,
            ),
        decreases entries@.len() - i,
    {
        if str_eq(entries[i].ns.as_str(), ns) && str_eq(entries[i].def.as_str(), def) {
            proof {
                let at = find_def_at(defs_view(entries@), ns@, def@);
                assert(def_matches(defs_view(entries@)[i as int], ns@, def@));
                if at < i {
                    assert(!def_matches(defs_view(entries@)[at], ns@, def@));
                }
            }
            return Some(i);
        }
        i = i + 1;
    }
    proof {
        let at = find_def_at(defs_view(entries@), ns@, def@);
        if at < entries@.len() {
            assert(!def_matches(defs_view(entries@)[at], ns@, def@));
        }
    }
    None
}

impl Program {
    /// A fresh store with no definitions and no imports.
    pub fn new() -> (res: Program)
        ensures
            res@ == (ProgV {
                code: Seq::<DefV>::empty(),
                evaled: Seq::<DefV>::empty(),
                imports: Seq::<ImportV>::empty(),
                stack: Seq::<FrameV>::empty(),
                warnings: Seq::<WarnV>::empty(),
                logs: Seq::<Seq<char>>::empty(),
                refs: Seq::<(Seq<char>, Val)>::empty(),
                id_gen: 0,
            }),
    {
        let res = Program {
            code: Vec::new(),
            evaled: Vec::new(),
            imports: Vec::new(),
            stack: Vec::new(),
            warnings: Vec::new(),
            logs: Vec::new(),
            refs: Vec::new(),
            id_gen: 0,
        };
        proof {
            assert(res@.code =~= Seq::<DefV>::empty());
            assert(res@.evaled =~= Seq::<DefV>::empty());
            assert(res@.imports =~= Seq::<ImportV>::empty());
            assert(res@.stack =~= Seq::<FrameV>::empty());
            assert(res@.warnings =~= Seq::<WarnV>::empty());
            assert(res@.logs =~= Seq::<Seq<char>>::empty());
            assert(res@.refs =~= Seq::<(Seq<char>, Val)>::empty());
        }
        res
    }

    /// Loads one definition's code; used while a parsed snapshot is brought
    /// in.
    pub fn add_def_code(&mut self, ns: &str, def: &str, code: Calcit)
        ensures
            final(self)@ == (ProgV {
                code: old(self)@.code.push(DefV { ns: ns@, def: def@, code: cv(code) }),
                ..old(self)@
            }),
    {
        let entry = DefEntry { ns: ns.to_owned(), def: def.to_owned(), code };
        self.code.push(entry);
        proof {
            assert(self@.code =~= old(self)@.code.push(
                DefV { ns: ns@, def: def@, code: cv(entry.code) },
            ));
            assert(self@.evaled =~= old(self)@.evaled);
            assert(self@.imports =~= old(self)@.imports);
            assert(self@.stack =~= old(self)@.stack);
            assert(self@.warnings =~= old(self)@.warnings);
            assert(self@.logs =~= old(self)@.logs);
            assert(self@.refs =~= old(self)@.refs);
        }
    }

    /// Declares one import rule; used while a parsed snapshot is brought in.
    pub fn add_import(&mut self, at_ns: &str, key: &str, rule: ImportRule)
        ensures
            final(self)@ == (ProgV {
                imports: old(self)@.imports.push(
                    ImportV {
                        at_ns: at_ns@,
                        key: key@,
                        rule: match rule {
                            ImportRule::NsAs(s) => RuleV::NsAs(s@),
                            ImportRule::NsReferDef(a, b) => RuleV::NsReferDef(a@, b@),
                            ImportRule::NsDefault(s) => RuleV::NsDefault(s@),
                        },
                    },
                ),
                ..old(self)@
            }),
    {
        let entry = ImportEntry { at_ns: at_ns.to_owned(), key: key.to_owned(), rule };
        self.imports.push(entry);
        proof {
            assert(self@.imports =~= old(self)@.imports.push(entry@));
            assert(self@.code =~= old(self)@.code);
            assert(self@.evaled =~= old(self)@.evaled);
            assert(self@.stack =~= old(self)@.stack);
            assert(self@.warnings =~= old(self)@.warnings);
            assert(self@.logs =~= old(self)@.logs);
            assert(self@.refs =~= old(self)@.refs);
        }
    }
}

/// Whether `ns/def` has loaded code.
pub fn has_def_code(prog: &Program, ns: &str, def: &str) -> (res: bool)
    ensures
        res == has_def(prog@.code, ns@, def@),
{
    scan_defs(&prog.code, ns, def).is_some()
}

/// The loaded code of `ns/def`.
pub fn lookup_def_code(prog: &Program, ns: &str, def: &str) -> (res: Option<Calcit>)
    ensures
        match res {
            Some(v) => lookup_def(prog@.code, ns@, def@) == Some(cv(v)),
            None => lookup_def(prog@.code, ns@, def@) is None,
        },
{
    match scan_defs(&prog.code, ns, def) {
        Some(i) => Some(prog.code[i].code.clone()),
        None => None,
    }
}

/// The evaluated value memoized for `ns/def`.
pub fn lookup_evaled_def(prog: &Program, ns: &str, def: &str) -> (res: Option<Calcit>)
    ensures
        match res {
            Some(v) => lookup_def(prog@.evaled, ns@, def@) == Some(cv(v)),
            None => lookup_def(prog@.evaled, ns@, def@) is None,
        },
{
    match scan_defs(&prog.evaled, ns, def) {
        Some(i) => Some(prog.evaled[i].code.clone()),
        None => None,
    }
}

/// Writes an evaluated value for `ns/def`; overwriting is permitted and is
/// used to break dead loops while mutually referring definitions resolve.
pub fn write_evaled_def(prog: &mut Program, ns: &str, def: &str, v: Calcit)
    ensures
        final(prog)@ == (ProgV {
            evaled: def_written(old(prog)@.evaled, ns@, def@, cv(v)),
            ..old(prog)@
        }),
{
    match scan_defs(&prog.evaled, ns, def) {
        Some(i) => {
            let entry = DefEntry { ns: ns.to_owned(), def: def.to_owned(), code: v };
            prog.evaled.set(i, entry);
            proof {
                assert(defs_view(prog.evaled@) =~= def_written(
                    defs_view(old(prog).evaled@),
                    ns@,
                    def@,
                    cv(v),
                ));
            }
        },
        None => {
            let entry = DefEntry { ns: ns.to_owned(), def: def.to_owned(), code: v };
            prog.evaled.push(entry);
            proof {
                assert(defs_view(prog.evaled@) =~= def_written(
                    defs_view(old(prog).evaled@),
                    ns@,
                    def@,
                    cv(v),
                ));
            }
        },
    }
    proof {
        assert(prog@.code =~= old(prog)@.code);
        assert(prog@.imports =~= old(prog)@.imports);
        assert(prog@.stack =~= old(prog)@.stack);
        assert(prog@.warnings =~= old(prog)@.warnings);
        assert(prog@.logs =~= old(prog)@.logs);
        assert(prog@.refs =~= old(prog)@.refs);
    }
}

/// Index of the first element satisfying `p`; the length when none does.
pub open spec fn find_at<T>(xs: Seq<T>, p: spec_fn(T) -> bool) -> int
    decreases xs.len(),
{
    if xs.len() == 0 {
        0
    } else if p(xs[0]) {
        0
    } else {
        1 + find_at(xs.skip(1), p)
    }
}

/// What the first-match index means.
pub proof fn lemma_find_at<T>(xs: Seq<T>, p: spec_fn(T) -> bool)
    ensures
        0 <= find_at(xs, p) <= xs.len(),
        forall|k: int| 0 <= k < find_at(xs, p) ==> !p(#[trigger] xs[k]),
        find_at(xs, p) < xs.len() ==> p(xs[find_at(xs, p)]),
    decreases xs.len(),
{
    if xs.len() == 0 {
    } else if p(xs[0]) {
    } else {
        lemma_find_at(xs.skip(1), p);
        assert forall|k: int| 0 <= k < find_at(xs, p) implies !p(#[trigger] xs[k]) by {
            if k > 0 {
                assert(xs.skip(1)[k - 1] == xs[k]);
            }
        }
        if find_at(xs, p) < xs.len() {
            assert(xs.skip(1)[find_at(xs.skip(1), p)] == xs[find_at(xs, p)]);
        }
    }
}

/// Whether an import entry aliases a namespace under `alias` for `at_ns`.
pub open spec fn is_ns_alias(e: ImportV, at_ns: Seq<char>, alias: Seq<char>) -> bool {
    e.at_ns == at_ns && e.key == alias && e.rule is NsAs
}

/// The namespace that `alias` names inside `at_ns`, if any.
pub open spec fn ns_target_in_import(
    imports: Seq<ImportV>,
    at_ns: Seq<char>,
    alias: Seq<char>,
) -> Option<Seq<char>> {
    let p = |e: ImportV| is_ns_alias(e, at_ns, alias);
    let i = find_at(imports, p);
    if i < imports.len() {
        match imports[i].rule {
            RuleV::NsAs(t) => Some(t),
            _ => None,
        }
    } else {
        None
    }
}

/// Whether an import entry refers definition `def` into `at_ns`.
pub open spec fn is_def_refer(e: ImportV, at_ns: Seq<char>, def: Seq<char>) -> bool {
    e.at_ns == at_ns && e.key == def && e.rule is NsReferDef
}

/// The namespace a directly referred `def` comes from inside `at_ns`, if
/// any.
pub open spec fn def_target_in_import(
    imports: Seq<ImportV>,
    at_ns: Seq<char>,
    def: Seq<char>,
) -> Option<Seq<char>> {
    let p = |e: ImportV| is_def_refer(e, at_ns, def);
    let i = find_at(imports, p);
    if i < imports.len() {
        match imports[i].rule {
            RuleV::NsReferDef(t, _) => Some(t),
            _ => None,
        }
    } else {
        None
    }
}

/// Whether a default import of `at_ns` exposes `def` out of the loaded
/// code.
pub open spec fn is_default_hit(e: ImportV, code: Seq<DefV>, at_ns: Seq<char>, def: Seq<
    char,
>) -> bool {
    e.at_ns == at_ns && match e.rule {
        RuleV::NsDefault(t) => has_def(code, t, def),
        _ => false,
    }
}

/// The namespace a default import finds `def` in, if any.
pub open spec fn default_target_in_import(
    imports: Seq<ImportV>,
    code: Seq<DefV>,
    at_ns: Seq<char>,
    def: Seq<char>,
) -> Option<Seq<char>> {
    let p = |e: ImportV| is_default_hit(e, code, at_ns, def);
    let i = find_at(imports, p);
    if i < imports.len() {
        match imports[i].rule {
            RuleV::NsDefault(t) => Some(t),
            _ => None,
        }
    } else {
        None
    }
}

/// Looks up a namespace alias declared by `at_ns`.
pub fn lookup_ns_target_in_import(prog: &Program, at_ns: &str, alias: &str) -> (res: Option<
    String,
>)
    ensures
        match res {
            Some(t) => ns_target_in_import(prog@.imports, at_ns@, alias@) == Some(t@),
            None => ns_target_in_import(prog@.imports, at_ns@, alias@) is None,
        },
{
    let ghost p = |e: ImportV| is_ns_alias(e, at_ns@, alias@);
    proof {
        lemma_find_at(prog@.imports, p);
    }
    let imports = &prog.imports;
    let mut i: usize = 0;
    while i < imports.len()
        invariant
            i <= imports@.len(),
            p == (|e: ImportV| is_ns_alias(e, at_ns@, alias@)),
            prog@.imports == imports_view(imports@),
            forall|k: int| 0 <= k < i ==> !p(#[trigger] imports_view(imports@)[k]),
            0 <= find_at(prog@.imports, p) <= prog@.imports.len(),
            forall|k: int|
                0 <= k < find_at(prog@.imports, p) ==> !p(#[trigger] prog@.imports[k]),
            find_at(prog@.imports, p) < prog@.imports.len() ==> p(
                prog@.imports[find_at(prog@.imports, p)],
            ),
        decreases imports@.len() - i,
    {
        let hit = str_eq(imports[i].at_ns.as_str(), at_ns) && str_eq(
            imports[i].key.as_str(),
            alias,
        ) && matches!(&imports[i].rule, ImportRule::NsAs(_));
        if hit {
            proof {
                let at = find_at(prog@.imports, p);
                assert(p(prog@.imports[i as int]));
                if at < i {
                    assert(!p(prog@.imports[at]));
                }
            }
            match &imports[i].rule {
                ImportRule::NsAs(t) => {
                    return Some(t.clone());
                },
                _ => {
                    proof {
                        assert(false);
                    }
                },
            }
        }
        i = i + 1;
    }
    proof {
        let at = find_at(prog@.imports, p);
        if at < prog@.imports.len() {
            assert(!p(prog@.imports[at]));
        }
    }
    None
}

/// Looks up a directly referred definition declared by `at_ns`.
pub fn lookup_def_target_in_import(prog: &Program, at_ns: &str, def: &str) -> (res: Option<
    String,
>)
    ensures
        match res {
            Some(t) => def_target_in_import(prog@.imports, at_ns@, def@) == Some(t@),
            None => def_target_in_import(prog@.imports, at_ns@, def@) is None,
        },
{
    let ghost p = |e: ImportV| is_def_refer(e, at_ns@, def@);
    proof {
        lemma_find_at(prog@.imports, p);
    }
    let imports = &prog.imports;
    let mut i: usize = 0;
    while i < imports.len()
        invariant
            i <= imports@.len(),
            p == (|e: ImportV| is_def_refer(e, at_ns@, def@)),
            prog@.imports == imports_view(imports@),
            forall|k: int| 0 <= k < i ==> !p(#[trigger] imports_view(imports@)[k]),
            0 <= find_at(prog@.imports, p) <= prog@.imports.len(),
            forall|k: int|
                0 <= k < find_at(prog@.imports, p) ==> !p(#[trigger] prog@.imports[k]),
            find_at(prog@.imports, p) < prog@.imports.len() ==> p(
                prog@.imports[find_at(prog@.imports, p)],
            ),
        decreases imports@.len() - i,
    {
        let hit = str_eq(imports[i].at_ns.as_str(), at_ns) && str_eq(imports[i].key.as_str(), def)
            && matches!(&imports[i].rule, ImportRule::NsReferDef(_, _));
        if hit {
            proof {
                let at = find_at(prog@.imports, p);
                assert(p(prog@.imports[i as int]));
                if at < i {
                    assert(!p(prog@.imports[at]));
                }
            }
            match &imports[i].rule {
                ImportRule::NsReferDef(t, _) => {
                    return Some(t.clone());
                },
                _ => {
                    proof {
                        assert(false);
                    }
                },
            }
        }
        i = i + 1;
    }
    proof {
        let at = find_at(prog@.imports, p);
        if at < prog@.imports.len() {
            assert(!p(prog@.imports[at]));
        }
    }
    None
}

/// Looks up `def` through the default imports declared by `at_ns`.
pub fn lookup_default_target_in_import(prog: &Program, at_ns: &str, def: &str) -> (res: Option<
    String,
>)
    ensures
        match res {
            Some(t) => default_target_in_import(prog@.imports, prog@.code, at_ns@, def@)
                == Some(t@),
            None => default_target_in_import(prog@.imports, prog@.code, at_ns@, def@) is None,
        },
{
    let ghost p = |e: ImportV| is_default_hit(e, prog@.code, at_ns@, def@);
    proof {
        lemma_find_at(prog@.imports, p);
    }
    let mut i: usize = 0;
    while i < prog.imports.len()
        invariant
            i <= prog.imports@.len(),
            p == (|e: ImportV| is_default_hit(e, prog@.code, at_ns@, def@)),
            forall|k: int| 0 <= k < i ==> !p(#[trigger] prog@.imports[k]),
            0 <= find_at(prog@.imports, p) <= prog@.imports.len(),
            forall|k: int|
                0 <= k < find_at(prog@.imports, p) ==> !p(#[trigger] prog@.imports[k]),
            find_at(prog@.imports, p) < prog@.imports.len() ==> p(
                prog@.imports[find_at(prog@.imports, p)],
            ),
        decreases prog.imports@.len() - i,
    {
        let mut hit = false;
        if str_eq(prog.imports[i].at_ns.as_str(), at_ns) {
            match &prog.imports[i].rule {
                ImportRule::NsDefault(t) => {
                    hit = has_def_code(prog, t.as_str(), def);
                },
                _ => {},
            }
        }
        if hit {
            proof {
                let at = find_at(prog@.imports, p);
                assert(p(prog@.imports[i as int]));
                if at < i {
                    assert(!p(prog@.imports[at]));
                }
            }
            match &prog.imports[i].rule {
                ImportRule::NsDefault(t) => {
                    return Some(t.clone());
                },
                _ => {
                    proof {
                        assert(false);
                    }
                },
            }
        }
        i = i + 1;
    }
    proof {
        let at = find_at(prog@.imports, p);
        if at < prog@.imports.len() {
            assert(!p(prog@.imports[at]));
        }
    }
    None
}

/// The id well after drawing one id: it grows by one until it is full.
pub open spec fn id_drawn(id_gen: int) -> int {
    if id_gen < u64::MAX {
        id_gen + 1
    } else {
        id_gen
    }
}

/// Draws a fresh id for a function or macro.
pub fn next_id(prog: &mut Program) -> (res: u64)
    ensures
        res as int == old(prog)@.id_gen,
        final(prog)@ == (ProgV { id_gen: id_drawn(old(prog)@.id_gen), ..old(prog)@ }),
{
    let res = prog.id_gen;
    if prog.id_gen < u64::MAX {
        prog.id_gen = prog.id_gen + 1;
    }
    proof {
        assert(prog@.code =~= old(prog)@.code);
        assert(prog@.evaled =~= old(prog)@.evaled);
        assert(prog@.imports =~= old(prog)@.imports);
        assert(prog@.stack =~= old(prog)@.stack);
        assert(prog@.warnings =~= old(prog)@.warnings);
        assert(prog@.logs =~= old(prog)@.logs);
        assert(prog@.refs =~= old(prog)@.refs);
    }
    res
}

/// Files a resolution warning.
pub fn push_warning(prog: &mut Program, kind: WarnKind, sym: &str, ns: &str, def: &str)
    ensures
        final(prog)@ == (ProgV {
            warnings: old(prog)@.warnings.push(
                WarnV { kind, sym: sym@, ns: ns@, def: def@ },
            ),
            ..old(prog)@
        }),
{
    let w = Warning { kind, sym: sym.to_owned(), ns: ns.to_owned(), def: def.to_owned() };
    prog.warnings.push(w);
    proof {
        assert(prog@.warnings =~= old(prog)@.warnings.push(
            WarnV { kind, sym: sym@, ns: ns@, def: def@ },
        ));
        assert(prog@.code =~= old(prog)@.code);
        assert(prog@.evaled =~= old(prog)@.evaled);
        assert(prog@.imports =~= old(prog)@.imports);
        assert(prog@.stack =~= old(prog)@.stack);
        assert(prog@.logs =~= old(prog)@.logs);
        assert(prog@.refs =~= old(prog)@.refs);
    }
}

/// Appends one output line.
pub fn push_log(prog: &mut Program, line: String)
    ensures
        final(prog)@ == (ProgV { logs: old(prog)@.logs.push(line@), ..old(prog)@ }),
{
    prog.logs.push(line);
    proof {
        assert(prog@.logs =~= old(prog)@.logs.push(line@));
        assert(prog@.code =~= old(prog)@.code);
        assert(prog@.evaled =~= old(prog)@.evaled);
        assert(prog@.imports =~= old(prog)@.imports);
        assert(prog@.stack =~= old(prog)@.stack);
        assert(prog@.warnings =~= old(prog)@.warnings);
        assert(prog@.refs =~= old(prog)@.refs);
    }
}

/// Index of the first reference cell named `name`; the count when there is
/// none.
pub open spec fn ref_at(refs: Seq<(Seq<char>, Val)>, name: Seq<char>) -> int
    decreases refs.len(),
{
    if refs.len() == 0 {
        0
    } else if refs[0].0 == name {
        0
    } else {
        1 + ref_at(refs.skip(1), name)
    }
}

/// The value a reference cell holds.
pub open spec fn ref_read(refs: Seq<(Seq<char>, Val)>, name: Seq<char>) -> Option<Val> {
    let i = ref_at(refs, name);
    if i < refs.len() {
        Some(refs[i].1)
    } else {
        None
    }
}

/// The cells after writing `v` under `name`: the first cell of that name is
/// overwritten, or a new cell appended.
pub open spec fn ref_written(refs: Seq<(Seq<char>, Val)>, name: Seq<char>, v: Val) -> Seq<
    (Seq<char>, Val),
> {
    let i = ref_at(refs, name);
    if i < refs.len() {
        refs.update(i, (name, v))
    } else {
        refs.push((name, v))
    }
}

/// What the first-cell index means.
pub proof fn lemma_ref_at(refs: Seq<(Seq<char>, Val)>, name: Seq<char>)
    ensures
        0 <= ref_at(refs, name) <= refs.len(),
        forall|k: int| 0 <= k < ref_at(refs, name) ==> (#[trigger] refs[k]).0 != name,
        ref_at(refs, name) < refs.len() ==> refs[ref_at(refs, name)].0 == name,
    decreases refs.len(),
{
    if refs.len() == 0 {
    } else if refs[0].0 == name {
    } else {
        lemma_ref_at(refs.skip(1), name);
        assert forall|k: int| 0 <= k < ref_at(refs, name) implies (#[trigger] refs[k]).0
            != name by {
            if k > 0 {
                assert(refs.skip(1)[k - 1] == refs[k]);
            }
        }
        if ref_at(refs, name) < refs.len() {
            assert(refs.skip(1)[ref_at(refs.skip(1), name)] == refs[ref_at(refs, name)]);
        }
    }
}

/// Finds the position of the first cell named `name`.
fn scan_refs(refs: &Vec<(String, Calcit)>, name: &str) -> (res: Option<usize>)
    ensures
        match res {
            Some(i) => i < refs@.len() && i as int == ref_at(cv_scope(refs@), name@),
            None => ref_at(cv_scope(refs@), name@) == cv_scope(refs@).len(),
        },
{
    let ghost rv = cv_scope(refs@);
    proof {
        lemma_ref_at(rv, name@);
    }
    let mut i: usize = 0;
    #[verifier::loop_isolation(false)]
    while i < refs.len()
        invariant
            i <= refs@.len(),
            forall|k: int| 0 <= k < i ==> (#[trigger] rv[k]).0 != name@,
        decreases refs@.len() - i,
    {
        if str_eq(refs[i].0.as_str(), name) {
            proof {
                assert(rv[i as int].0 == refs@[i as int].0@);
                let at = ref_at(rv, name@);
                if at < i {
                    assert(rv[at].0 != name@);
                }
                if at > i {
                    assert(rv[i as int].0 != name@);
                }
            }
            return Some(i);
        }
        i = i + 1;
    }
    proof {
        let at = ref_at(rv, name@);
        if at < rv.len() {
            assert(rv[at].0 != name@);
        }
    }
    None
}

/// Reads a reference cell.
pub fn read_ref(prog: &Program, name: &str) -> (res: Option<Calcit>)
    ensures
        match res {
            Some(v) => ref_read(prog@.refs, name@) == Some(cv(v)),
            None => ref_read(prog@.refs, name@) is None,
        },
{
    match scan_refs(&prog.refs, name) {
        Some(i) => Some(prog.refs[i].1.clone()),
        None => None,
    }
}

/// Writes a reference cell, making it when it is missing.
pub fn write_ref(prog: &mut Program, name: &str, v: Calcit)
    ensures
        final(prog)@ == (ProgV {
            refs: ref_written(old(prog)@.refs, name@, cv(v)),
            ..old(prog)@
        }),
{
    match scan_refs(&prog.refs, name) {
        Some(i) => {
            prog.refs.set(i, (name.to_owned(), v));
            proof {
                assert(cv_scope(prog.refs@) =~= ref_written(
                    cv_scope(old(prog).refs@),
                    name@,
                    cv(v),
                ));
            }
        },
        None => {
            prog.refs.push((name.to_owned(), v));
            proof {
                assert(cv_scope(prog.refs@) =~= ref_written(
                    cv_scope(old(prog).refs@),
                    name@,
                    cv(v),
                ));
            }
        },
    }
    proof {
        assert(prog@.code =~= old(prog)@.code);
        assert(prog@.evaled =~= old(prog)@.evaled);
        assert(prog@.imports =~= old(prog)@.imports);
        assert(prog@.stack =~= old(prog)@.stack);
        assert(prog@.warnings =~= old(prog)@.warnings);
        assert(prog@.logs =~= old(prog)@.logs);
    }
}

/// Looking a definition up right after writing it gives the written value.
pub proof fn lemma_def_written_lookup(defs: Seq<DefV>, ns: Seq<char>, def: Seq<char>, v: Val)
    ensures
        lookup_def(def_written(defs, ns, def, v), ns, def) == Some(v),
{
    lemma_find_def_at(defs, ns, def);
    let i = find_def_at(defs, ns, def);
    let w = def_written(defs, ns, def, v);
    lemma_find_def_at(w, ns, def);
    let j = find_def_at(w, ns, def);
    if i < defs.len() {
        assert(w[i] == (DefV { ns, def, code: v }));
        assert(def_matches(w[i], ns, def));
        if j < i {
            assert(w[j] == defs[j]);
            assert(!def_matches(defs[j], ns, def));
        }
        if j > i {
            assert(!def_matches(w[i], ns, def));
        }
    } else {
        assert(w[defs.len() as int] == (DefV { ns, def, code: v }));
        assert(def_matches(w[defs.len() as int], ns, def));
        if j < defs.len() {
            assert(w[j] == defs[j]);
            assert(!def_matches(defs[j], ns, def));
        }
        if j > defs.len() {
            assert(!def_matches(w[defs.len() as int], ns, def));
        }
    }
}

} // verus!
