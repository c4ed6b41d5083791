//! Small executable helpers: string equality and lexicographic order over
//! character sequences, and list skipping/slicing used by the evaluator.

use vstd::prelude::*;

use crate::primes::{cv, cv_seq, Calcit, CalcitItems, Val};

verus! {

/// Lexicographic order of two character sequences, by code point.
pub open spec fn lex_lt(a: Seq<char>, b: Seq<char>) -> bool
    decreases a.len(),
{
    if b.len() == 0 {
        false
    } else if a.len() == 0 {
        true
    } else if a[0] != b[0] {
        (a[0] as u32) < (b[0] as u32)
    } else {
        lex_lt(a.skip(1), b.skip(1))
    }
}

/// Whether two strings hold the same characters.
pub fn str_eq(a: &str, b: &str) -> (r: bool)
    ensures
        r == (a@ == b@),
{
    let la = a.unicode_len();
    let lb = b.unicode_len();
    if la != lb {
        return false;
    }
    let mut i: usize = 0;
    while i < la
        invariant
            la == a@.len(),
            la == b@.len(),
            i <= la,
            forall|j: int| 0 <= j < i ==> a@[j] == b@[j],
        decreases la - i,
    {
        if a.get_char(i) != b.get_char(i) {
            return false;
        }
        i = i + 1;
    }
    proof {
        assert(a@ =~= b@);
    }
    true
}

/// Whether `a` comes strictly before `b` in lexicographic order.
pub fn str_lt(a: &str, b: &str) -> (r: bool)
    ensures
        r == lex_lt(a@, b@),
{
    let la = a.unicode_len();
    let lb = b.unicode_len();
    let mut i: usize = 0;
    proof {
        assert(a@.skip(0) =~= a@);
        assert(b@.skip(0) =~= b@);
    }
    loop
        invariant
            la == a@.len(),
            lb == b@.len(),
            i <= la,
            i <= lb,
            forall|j: int| 0 <= j < i ==> a@[j] == b@[j],
            lex_lt(a@, b@) == lex_lt(a@.skip(i as int), b@.skip(i as int)),
        decreases la - i,
    {
        if i >= lb {
            proof {
                assert(b@.skip(i as int).len() == 0);
            }
            return false;
        }
        if i >= la {
            proof {
                assert(a@.skip(i as int).len() == 0);
                assert(b@.skip(i as int).len() > 0);
            }
            return true;
        }
        let ca = a.get_char(i);
        let cb = b.get_char(i);
        proof {
            assert(a@.skip(i as int)[0] == a@[i as int]);
            assert(b@.skip(i as int)[0] == b@[i as int]);
        }
        if ca as u32 != cb as u32 {
            proof {
                assert(ca == a@[i as int] && cb == b@[i as int]);
                assert(ca as u32 != cb as u32 ==> ca != cb);
            }
            return (ca as u32) < (cb as u32);
        }
        proof {
            assert(a@.skip(i as int).skip(1) =~= a@.skip(i + 1));
            assert(b@.skip(i as int).skip(1) =~= b@.skip(i + 1));
        }
        i = i + 1;
    }
}

/// The tail of a list after its first `n` items; all of it when `n` is past
/// the end.
pub fn skip(xs: &CalcitItems, n: usize) -> (res: CalcitItems)
    ensures
        cv_seq(res@) == cv_seq(xs@).skip(if n <= xs@.len() {
            n as int
        } else {
            xs@.len() as int
        }),
{
    let mut res: CalcitItems = Vec::new();
    let mut i: usize = if n <= xs.len() {
        n
    } else {
        xs.len()
    };
    let ghost start: int = i as int;
    while i < xs.len()
        invariant
            start <= i <= xs@.len(),
            res@.len() == i - start,
            forall|j: int| start <= j < i ==> cv(res@[j - start]) == cv(xs@[j]),
        decreases xs@.len() - i,
    {
        let y = xs[i].clone();
        res.push(y);
        i = i + 1;
    }
    proof {
        assert(cv_seq(res@) =~= cv_seq(xs@).skip(start));
    }
    res
}

/// The items of a list from `from` (inclusive) to `to` (exclusive).
pub fn slice(xs: &CalcitItems, from: usize, to: usize) -> (res: CalcitItems)
    requires
        from <= to <= xs@.len(),
    ensures
        cv_seq(res@) == cv_seq(xs@).subrange(from as int, to as int),
{
    let mut res: CalcitItems = Vec::new();
    let mut i: usize = from;
    while i < to
        invariant
            from <= i <= to <= xs@.len(),
            res@.len() == i - from,
            forall|j: int| from <= j < i ==> cv(res@[j - from]) == cv(xs@[j]),
        decreases to - i,
    {
        let y = xs[i].clone();
        res.push(y);
        i = i + 1;
    }
    proof {
        assert(cv_seq(res@) =~= cv_seq(xs@).subrange(from as int, to as int));
    }
    res
}


/// Distinct characters have distinct code points.
pub proof fn lemma_char_inj(c: char, d: char)
    ensures
        c != d ==> (c as u32) != (d as u32),
{
}

/// Exactly one of `a < b`, `a == b`, `b < a` holds in lexicographic order.
pub proof fn lemma_lex_trichotomy(a: Seq<char>, b: Seq<char>)
    ensures
        lex_lt(a, b) || a == b || lex_lt(b, a),
        lex_lt(a, b) ==> a != b && !lex_lt(b, a),
        a == b ==> !lex_lt(a, b) && !lex_lt(b, a),
    decreases a.len(),
{
    if b.len() == 0 {
        if a.len() == 0 {
            assert(a =~= b);
        }
    } else if a.len() == 0 {
    } else if a[0] != b[0] {
        lemma_char_inj(a[0], b[0]);
    } else {
        lemma_lex_trichotomy(a.skip(1), b.skip(1));
        if a.skip(1) == b.skip(1) {
            assert forall|i: int| 0 <= i < a.len() implies a[i] == b[i] by {
                if i > 0 {
                    assert(a.skip(1)[i - 1] == a[i]);
                    assert(b.skip(1)[i - 1] == b[i]);
                }
            }
            assert(a =~= b);
        }
        if a == b {
            assert(a.skip(1) =~= b.skip(1));
        }
    }
}

/// Lexicographic order is transitive.
pub proof fn lemma_lex_trans(a: Seq<char>, b: Seq<char>, c: Seq<char>)
    requires
        lex_lt(a, b),
        lex_lt(b, c),
    ensures
        lex_lt(a, c),
    decreases a.len(),
{
    if c.len() == 0 {
        assert(false);
    } else if a.len() == 0 {
    } else {
        if b.len() == 0 {
            assert(false);
        } else {
            lemma_char_inj(a[0], b[0]);
            lemma_char_inj(b[0], c[0]);
            lemma_char_inj(a[0], c[0]);
            if a[0] == b[0] && b[0] == c[0] {
                lemma_lex_trans(a.skip(1), b.skip(1), c.skip(1));
            }
        }
    }
}

/// Where a module path points: a trailing slash appends the default
/// compact-snapshot file name, a leading `./` resolves under the entry's
/// directory, an absolute path stands, and anything else sits under the
/// home configuration's modules directory.
pub open spec fn module_path_of(path: Seq<char>, base_dir: Seq<char>, home: Seq<char>) -> Seq<
    char,
> {
    let p = if path.len() > 0 && path.last() == '/' {
        path + "compact.cirru"@
    } else {
        path
    };
    if p.len() >= 2 && p[0] == '.' && p[1] == '/' {
        base_dir + "/"@ + p
    } else if p.len() >= 1 && p[0] == '/' {
        p
    } else {
        home + "/.config/calcit/modules/"@ + p
    }
}

/// Resolves a module path against the entry's directory and the home
/// directory.
pub fn resolve_module_path(path: &str, base_dir: &str, home: &str) -> (res: String)
    ensures
        res@ == module_path_of(path@, base_dir@, home@),
{
    let n = path.unicode_len();
    let mut p = path.to_owned();
    if n > 0 && path.get_char(n - 1) == '/' {
        proof {
            assert(path@.last() == path@[n - 1]);
        }
        p.append("compact.cirru");
    }
    let pn = p.as_str().unicode_len();
    let dotted = pn >= 2 && p.as_str().get_char(0) == '.' && p.as_str().get_char(1) == '/';
    if dotted {
        let mut out = base_dir.to_owned();
        out.append("/");
        out.append(p.as_str());
        return out;
    }
    let rooted = pn >= 1 && p.as_str().get_char(0) == '/';
    if rooted {
        return p;
    }
    let mut out = home.to_owned();
    out.append("/.config/calcit/modules/");
    out.append(p.as_str());
    out
}

} // verus!
