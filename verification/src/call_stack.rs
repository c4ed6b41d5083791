//! Diagnostic call stack: a last-in, first-out sequence of frames recording
//! which definition was being applied and with which arguments.  It has no
//! control use; errors freeze a snapshot of it.

use vstd::prelude::*;

use crate::primes::{cv, cv_seq, Calcit, CalcitItems, Val};

verus! {

/// What kind of callable pushed a frame.
#[derive(Clone, Copy, PartialEq, Eq, Structural, Debug)]
pub enum StackKind {
    Fn,
    Proc,
    Macro,
    Syntax,
}

/// One diagnostic frame.
#[derive(Debug)]
pub struct CalcitStack {
    pub ns: String,
    pub def: String,
    /// the form under evaluation; `Nil` for builtins that have none
    pub code: Calcit,
    pub args: CalcitItems,
    pub kind: StackKind,
}

/// Mathematical view of a frame.
pub struct FrameV {
    pub ns: Seq<char>,
    pub def: Seq<char>,
    pub code: Val,
    pub args: Seq<Val>,
    pub kind: StackKind,
}

impl View for CalcitStack {
    type V = FrameV;

    open spec fn view(&self) -> FrameV {
        FrameV {
            ns: self.ns@,
            def: self.def@,
            code: cv(self.code),
            args: cv_seq(self.args@),
            kind: self.kind,
        }
    }
}

/// View of a whole stack, bottom first.
pub open spec fn stack_view(frames: Seq<CalcitStack>) -> Seq<FrameV> {
    Seq::new(frames.len(), |i: int| frames[i]@)
}

impl Clone for CalcitStack {
    /// A frame copies to one with the same view.
    fn clone(&self) -> (res: Self)
        ensures
            res@ == self@,
    {
        CalcitStack {
            ns: self.ns.clone(),
            def: self.def.clone(),
            code: self.code.clone(),
            args: crate::primes::clone_items(&self.args),
            kind: self.kind,
        }
    }
}

/// Copies a stack, keeping the view.
pub fn clone_frames(frames: &Vec<CalcitStack>) -> (res: Vec<CalcitStack>)
    ensures
        stack_view(res@) == stack_view(frames@),
{
    let mut res: Vec<CalcitStack> = Vec::new();
    let mut i: usize = 0;
    while i < frames.len()
        invariant
            i <= frames@.len(),
            res@.len() == i,
            forall|j: int| 0 <= j < i ==> res@[j]@ == frames@[j]@,
        decreases frames@.len() - i,
    {
        res.push(frames[i].clone());
        i = i + 1;
    }
    proof {
        assert(stack_view(res@) =~= stack_view(frames@));
    }
    res
}

/// Appends one frame.
pub fn push_call_stack(
    stack: &mut Vec<CalcitStack>,
    ns: &str,
    def: &str,
    kind: StackKind,
    code: Calcit,
    args: &CalcitItems,
)
    ensures
        stack_view(final(stack)@) == stack_view(old(stack)@).push(
            FrameV { ns: ns@, def: def@, code: cv(code), args: cv_seq(args@), kind },
        ),
{
    let frame = CalcitStack {
        ns: ns.to_owned(),
        def: def.to_owned(),
        code,
        args: crate::primes::clone_items(args),
        kind,
    };
    stack.push(frame);
    proof {
        assert(stack_view(stack@) =~= stack_view(old(stack)@).push(
            FrameV { ns: ns@, def: def@, code: cv(code), args: cv_seq(args@), kind },
        ));
    }
}

/// Removes the newest frame; does nothing on an empty stack.
pub fn pop_call_stack(stack: &mut Vec<CalcitStack>)
    ensures
        stack_view(final(stack)@) == if old(stack)@.len() > 0 {
            stack_view(old(stack)@).drop_last()
        } else {
            stack_view(old(stack)@)
        },
{
    if stack.len() > 0 {
        stack.pop();
        proof {
            assert(stack_view(stack@) =~= stack_view(old(stack)@).drop_last());
        }
    } else {
        proof {
            assert(stack_view(stack@) =~= stack_view(old(stack)@));
        }
    }
}

/// The tag under which a frame kind appears in a dump.
pub fn name_kind(k: &StackKind) -> (res: String)
    ensures
        res@ == kind_name(*k),
{
    match k {
        StackKind::Fn => "fn".to_owned(),
        StackKind::Proc => "proc".to_owned(),
        StackKind::Macro => "macro".to_owned(),
        StackKind::Syntax => "syntax".to_owned(),
    }
}

/// Name of a frame kind.
pub open spec fn kind_name(k: StackKind) -> Seq<char> {
    match k {
        StackKind::Fn => "fn"@,
        StackKind::Proc => "proc"@,
        StackKind::Macro => "macro"@,
        StackKind::Syntax => "syntax"@,
    }
}

} // verus!
