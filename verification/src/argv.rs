//! Argument lists: tests on single arguments, searches and selections.
//!
//! An argument list is a `Vec<String>`; the contracts speak of the sequence
//! of its arguments' texts.

use crate::text::{contains, ends_with, occurs_in, same_text, starts_with, texts};
use vstd::prelude::*;

verus! {

/// A test on one argument, as the contracts see it.
pub enum Probe {
    /// The argument is exactly this text.
    Is(Seq<char>),
    /// The argument begins with this text.
    Prefix(Seq<char>),
    /// The argument ends with this text.
    Suffix(Seq<char>),
    /// This text occurs in the argument.
    Infix(Seq<char>),
}

impl Probe {
    /// Whether the argument `a` passes the test.
    pub open spec fn admits(self, a: Seq<char>) -> bool {
        match self {
            Probe::Is(t) => a == t,
            Probe::Prefix(t) => t.is_prefix_of(a),
            Probe::Suffix(t) => t.is_suffix_of(a),
            Probe::Infix(t) => occurs_in(t, a),
        }
    }
}

/// A test on one argument.
#[derive(Clone, Copy, Debug)]
pub enum Pattern<'a> {
    /// The argument is exactly this text.
    Is(&'a str),
    /// The argument begins with this text.
    Prefix(&'a str),
    /// The argument ends with this text.
    Suffix(&'a str),
    /// This text occurs in the argument.
    Infix(&'a str),
}

impl<'a> View for Pattern<'a> {
    type V = Probe;

    open spec fn view(&self) -> Probe {
        match self {
            Pattern::Is(t) => Probe::Is(t@),
            Pattern::Prefix(t) => Probe::Prefix(t@),
            Pattern::Suffix(t) => Probe::Suffix(t@),
            Pattern::Infix(t) => Probe::Infix(t@),
        }
    }
}

impl<'a> Pattern<'a> {
    /// Whether the argument `a` passes the test.
    pub fn test(&self, a: &str) -> (r: bool)
        ensures
            r == self@.admits(a@),
    {
        match self {
            Pattern::Is(t) => same_text(a, t),
            Pattern::Prefix(t) => starts_with(a, t),
            Pattern::Suffix(t) => ends_with(a, t),
            Pattern::Infix(t) => contains(a, t),
        }
    }
}

/// The index of the first argument from `from` on that `p` admits, or the
/// length of `args` where there is none.
pub open spec fn first_admitted_from(args: Seq<Seq<char>>, p: Probe, from: int) -> int
    decreases args.len() - from,
{
    if from >= args.len() {
        args.len() as int
    } else if p.admits(args[from]) {
        from
    } else {
        first_admitted_from(args, p, from + 1)
    }
}

/// The index of the first argument that `p` admits, or the length of `args`
/// where there is none.
pub open spec fn first_admitted(args: Seq<Seq<char>>, p: Probe) -> int {
    first_admitted_from(args, p, 0)
}

/// The index of the last argument among the first `upto` that `p` admits, or
/// -1 where there is none.
pub open spec fn last_admitted_upto(args: Seq<Seq<char>>, p: Probe, upto: int) -> int
    decreases upto,
{
    if upto <= 0 {
        -1
    } else if p.admits(args[upto - 1]) {
        upto - 1
    } else {
        last_admitted_upto(args, p, upto - 1)
    }
}

/// The index of the last argument that `p` admits, or -1 where there is none.
pub open spec fn last_admitted(args: Seq<Seq<char>>, p: Probe) -> int {
    last_admitted_upto(args, p, args.len() as int)
}

/// Those of the first `upto` arguments for which `p.admits` equals `keep`,
/// in their order.
pub open spec fn selected_upto(args: Seq<Seq<char>>, p: Probe, keep: bool, upto: int) -> Seq<
    Seq<char>,
>
    decreases upto,
{
    if upto <= 0 {
        Seq::empty()
    } else if p.admits(args[upto - 1]) == keep {
        selected_upto(args, p, keep, upto - 1).push(args[upto - 1])
    } else {
        selected_upto(args, p, keep, upto - 1)
    }
}

/// The arguments for which `p.admits` equals `keep`, in their order.
pub open spec fn selected(args: Seq<Seq<char>>, p: Probe, keep: bool) -> Seq<Seq<char>> {
    selected_upto(args, p, keep, args.len() as int)
}

/// What `last_admitted_upto` finds is within bounds, is admitted, and is the
/// last such argument before `upto`.
pub proof fn lemma_last_admitted_upto(args: Seq<Seq<char>>, p: Probe, upto: int)
    requires
        0 <= upto <= args.len(),
    ensures
        -1 <= last_admitted_upto(args, p, upto) < upto,
        last_admitted_upto(args, p, upto) >= 0 ==> p.admits(
            args[last_admitted_upto(args, p, upto)],
        ),
        forall|j: int| last_admitted_upto(args, p, upto) < j < upto ==> !p.admits(args[j]),
    decreases upto,
{
    if upto > 0 && !p.admits(args[upto - 1]) {
        lemma_last_admitted_upto(args, p, upto - 1);
    }
}

/// Every selected argument passes the selection's test, and comes from `args`.
pub proof fn lemma_selected_upto(args: Seq<Seq<char>>, p: Probe, keep: bool, upto: int)
    requires
        0 <= upto <= args.len(),
    ensures
        selected_upto(args, p, keep, upto).len() <= upto,
        forall|i: int|
            0 <= i < selected_upto(args, p, keep, upto).len() ==> p.admits(
                #[trigger] selected_upto(args, p, keep, upto)[i],
            ) == keep && args.contains(selected_upto(args, p, keep, upto)[i]),
    decreases upto,
{
    if upto > 0 {
        lemma_selected_upto(args, p, keep, upto - 1);
    }
}

/// Finds the first argument that `p` admits; the length of `args` where
/// there is none.
pub fn find_first(args: &Vec<String>, p: &Pattern) -> (r: usize)
    ensures
        r as int == first_admitted(texts(args@), p@),
        r <= args.len(),
{
    let mut i: usize = 0;
    while i < args.len()
        invariant
            i <= args.len(),
            first_admitted(texts(args@), p@) == first_admitted_from(texts(args@), p@, i as int),
        decreases args.len() - i,
    {
        if p.test(args[i].as_str()) {
            return i;
        }
        i += 1;
    }
    i
}

/// Finds the last argument that `p` admits.
pub fn find_last(args: &Vec<String>, p: &Pattern) -> (r: Option<usize>)
    ensures
        match r {
            Some(i) => i as int == last_admitted(texts(args@), p@),
            None => last_admitted(texts(args@), p@) == -1,
        },
{
    let mut i: usize = args.len();
    while i > 0
        invariant
            i <= args.len(),
            last_admitted(texts(args@), p@) == last_admitted_upto(texts(args@), p@, i as int),
        decreases i,
    {
        if p.test(args[i - 1].as_str()) {
            return Some(i - 1);
        }
        i -= 1;
    }
    None
}

/// Copies the arguments for which the test's answer equals `keep`.
pub fn select(args: &Vec<String>, p: &Pattern, keep: bool) -> (out: Vec<String>)
    ensures
        texts(out@) == selected(texts(args@), p@, keep),
{
    let mut out: Vec<String> = Vec::new();
    let mut i: usize = 0;
    while i < args.len()
        invariant
            i <= args.len(),
            texts(out@) =~= selected_upto(texts(args@), p@, keep, i as int),
        decreases args.len() - i,
    {
        if p.test(args[i].as_str()) == keep {
            push_text(&mut out, args[i].as_str());
        }
        i += 1;
    }
    out
}

/// Appends a copy of `s`.
pub fn push_text(out: &mut Vec<String>, s: &str)
    ensures
        texts(final(out)@) == texts(old(out)@).push(s@),
{
    out.push(s.to_owned());
    assert(texts(out@) =~= texts(old(out)@).push(s@));
}

/// Appends copies of the arguments of `more` from `from` up to `to`.
pub fn push_range(out: &mut Vec<String>, more: &Vec<String>, from: usize, to: usize)
    requires
        from <= to <= more.len(),
    ensures
        texts(final(out)@) == texts(old(out)@) + texts(more@).subrange(from as int, to as int),
{
    let mut i: usize = from;
    while i < to
        invariant
            from <= i <= to <= more.len(),
            texts(out@) =~= texts(old(out)@) + texts(more@).subrange(from as int, i as int),
        decreases to - i,
    {
        push_text(out, more[i].as_str());
        i += 1;
    }
}

/// Appends copies of all arguments of `more`.
pub fn push_all(out: &mut Vec<String>, more: &Vec<String>)
    ensures
        texts(final(out)@) == texts(old(out)@) + texts(more@),
{
    push_range(out, more, 0, more.len());
    assert(texts(more@).subrange(0, more.len() as int) =~= texts(more@));
}

} // verus!
