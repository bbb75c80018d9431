//! Optimization hints that the front end's data-flow analysis attaches to
//! functions as attributes, gathered by lowering into sets of functions.

use vstd::prelude::*;
use crate::ids::SymbolId;
use crate::hir::{HirAttribute, HirAttributeArg, HirFunction, HirLiteral};
use crate::variable_uses::{grows_by, insert_symbol, lemma_grows_trans};

verus! {

/// The kinds of hint.
#[derive(Clone, Copy, Debug, PartialEq, Eq, Structural)]
pub enum SsaHint {
    /// A small function with simple control flow.
    InlineCandidate,
    /// A function without branches.
    StraightLine,
    /// A function with many phi nodes.
    ComplexControlFlow,
    /// A function with common subexpressions.
    CommonSubexpressions,
}

/// The functions that carry each kind of hint, each set without duplicates.
#[derive(Debug)]
pub struct SsaOptimizationHints {
    pub inline_candidates: Vec<SymbolId>,
    pub straight_line_functions: Vec<SymbolId>,
    pub complex_control_flow_functions: Vec<SymbolId>,
    pub cse_opportunities: Vec<SymbolId>,
}

impl SsaOptimizationHints {
    /// The functions that carry hints of `kind`.
    pub open spec fn set_of(&self, kind: SsaHint) -> Seq<SymbolId> {
        match kind {
            SsaHint::InlineCandidate => self.inline_candidates@,
            SsaHint::StraightLine => self.straight_line_functions@,
            SsaHint::ComplexControlFlow => self.complex_control_flow_functions@,
            SsaHint::CommonSubexpressions => self.cse_opportunities@,
        }
    }

    /// No set names a function twice.
    pub open spec fn wf(&self) -> bool {
        forall|kind: SsaHint| #[trigger] self.set_of(kind).no_duplicates()
    }

    /// No hints.
    pub fn new() -> (r: SsaOptimizationHints)
        ensures
            r.wf(),
            forall|kind: SsaHint| #[trigger] r.set_of(kind).len() == 0,
    {
        SsaOptimizationHints {
            inline_candidates: Vec::new(),
            straight_line_functions: Vec::new(),
            complex_control_flow_functions: Vec::new(),
            cse_opportunities: Vec::new(),
        }
    }
}

/// The hint an attribute gives, if any: `inline_candidate`, or
/// `optimization_hint` whose first argument is the string
/// `straight_line_code`, `complex_control_flow` or `common_subexpressions`.
pub open spec fn hint_of(attr: HirAttribute) -> Option<SsaHint> {
    if attr.name@ == "inline_candidate"@ {
        Some(SsaHint::InlineCandidate)
    } else if attr.name@ == "optimization_hint"@ && attr.args@.len() > 0 {
        match attr.args@[0] {
            HirAttributeArg::Literal(HirLiteral::String(h)) => if h@ == "straight_line_code"@ {
                Some(SsaHint::StraightLine)
            } else if h@ == "complex_control_flow"@ {
                Some(SsaHint::ComplexControlFlow)
            } else if h@ == "common_subexpressions"@ {
                Some(SsaHint::CommonSubexpressions)
            } else {
                None
            },
            _ => None,
        }
    } else {
        None
    }
}

/// Some attribute among the first `n` of `metadata` gives a hint of `kind`.
pub open spec fn hinted_within(metadata: Seq<HirAttribute>, n: int, kind: SsaHint) -> bool {
    exists|j: int| 0 <= j < n && #[trigger] hint_of(metadata[j]) == Some(kind)
}

/// The functions of `functions` that carry a hint of `kind`.
pub open spec fn hinted(functions: Seq<(SymbolId, HirFunction)>, kind: SsaHint) -> Set<SymbolId> {
    Set::new(
        |s: SymbolId|
            exists|i: int|
                0 <= i < functions.len() && functions[i].0 == s && #[trigger] hinted_within(
                    functions[i].1.metadata@,
                    functions[i].1.metadata@.len() as int,
                    kind,
                ),
    )
}

/// The hint that `attr` gives.
fn classify_hint(attr: &HirAttribute) -> (r: Option<SsaHint>)
    ensures
        r == hint_of(*attr),
{
    if attr.name == "inline_candidate".to_owned() {
        Some(SsaHint::InlineCandidate)
    } else if attr.name == "optimization_hint".to_owned() && attr.args.len() > 0 {
        match &attr.args[0] {
            HirAttributeArg::Literal(HirLiteral::String(h)) => {
                if *h == "straight_line_code".to_owned() {
                    Some(SsaHint::StraightLine)
                } else if *h == "complex_control_flow".to_owned() {
                    Some(SsaHint::ComplexControlFlow)
                } else if *h == "common_subexpressions".to_owned() {
                    Some(SsaHint::CommonSubexpressions)
                } else {
                    None
                }
            },
            _ => None,
        }
    } else {
        None
    }
}

/// Puts `sym` into the set of functions with hints of `kind`.
fn add_hint(hints: &mut SsaOptimizationHints, kind: SsaHint, sym: SymbolId)
    requires
        old(hints).wf(),
    ensures
        final(hints).wf(),
        grows_by(old(hints).set_of(kind), final(hints).set_of(kind), set![sym]),
        forall|k: SsaHint| k != kind ==> #[trigger] final(hints).set_of(k) == old(hints).set_of(k),
{
    proof {
        assert(hints.set_of(kind).no_duplicates());
    }
    match kind {
        SsaHint::InlineCandidate => insert_symbol(&mut hints.inline_candidates, sym),
        SsaHint::StraightLine => insert_symbol(&mut hints.straight_line_functions, sym),
        SsaHint::ComplexControlFlow => insert_symbol(&mut hints.complex_control_flow_functions, sym),
        SsaHint::CommonSubexpressions => insert_symbol(&mut hints.cse_opportunities, sym),
    }
    proof {
        assert forall|k: SsaHint| #[trigger] hints.set_of(k).no_duplicates() by {
            if k != kind {
                assert(old(hints).set_of(k).no_duplicates());
            }
        }
    }
}

/// Adds each function of `functions` to the set of each kind of hint that
/// one of its attributes gives.
pub fn extract_ssa_hints_from_hir(hints: &mut SsaOptimizationHints, functions: &Vec<(SymbolId, HirFunction)>)
    requires
        old(hints).wf(),
    ensures
        final(hints).wf(),
        forall|kind: SsaHint|
            grows_by(#[trigger] old(hints).set_of(kind), final(hints).set_of(kind), hinted(functions@, kind)),
{
    let ghost h0 = *hints;
    let mut i: usize = 0;
    while i < functions.len()
        invariant
            i <= functions.len(),
            hints.wf(),
            forall|kind: SsaHint|
                grows_by(#[trigger] h0.set_of(kind), hints.set_of(kind), hinted(functions@.take(i as int), kind)),
        decreases functions.len() - i,
    {
        let sym = functions[i].0;
        let metadata = &functions[i].1.metadata;
        let ghost hi = *hints;
        let mut j: usize = 0;
        while j < metadata.len()
            invariant
                i < functions.len(),
                j <= metadata.len(),
                *metadata == functions@[i as int].1.metadata,
                sym == functions@[i as int].0,
                hints.wf(),
                forall|kind: SsaHint|
                    grows_by(
                        #[trigger] hi.set_of(kind),
                        hints.set_of(kind),
                        if hinted_within(metadata@, j as int, kind) {
                            set![sym]
                        } else {
                            Set::empty()
                        },
                    ),
            decreases metadata.len() - j,
        {
            let ghost hj = *hints;
            let found = classify_hint(&metadata[j]);
            if let Some(kind) = found {
                add_hint(hints, kind, sym);
            }
            proof {
                assert forall|kind: SsaHint|
                    grows_by(
                        #[trigger] hi.set_of(kind),
                        hints.set_of(kind),
                        if hinted_within(metadata@, j + 1, kind) {
                            set![sym]
                        } else {
                            Set::empty()
                        },
                    ) by {
                    if hint_of(metadata@[j as int]) == Some(kind) {
                        assert(hinted_within(metadata@, j + 1, kind));
                    } else {
                        if hinted_within(metadata@, j + 1, kind) {
                            let w = choose|w: int| 0 <= w < j + 1 && #[trigger] hint_of(metadata@[w]) == Some(kind);
                            assert(w < j);
                            assert(hinted_within(metadata@, j as int, kind));
                        }
                        if hinted_within(metadata@, j as int, kind) {
                            let w = choose|w: int| 0 <= w < j && #[trigger] hint_of(metadata@[w]) == Some(kind);
                            assert(hinted_within(metadata@, j + 1, kind));
                        }
                    }
                }
            }
            j = j + 1;
        }
        proof {
            assert forall|kind: SsaHint|
                grows_by(#[trigger] h0.set_of(kind), hints.set_of(kind), hinted(functions@.take(i + 1), kind)) by {
                let added = if hinted_within(metadata@, metadata@.len() as int, kind) {
                    set![sym]
                } else {
                    Set::<SymbolId>::empty()
                };
                lemma_grows_trans(h0.set_of(kind), hi.set_of(kind), hints.set_of(kind), hinted(functions@.take(i as int), kind), added);
                let pre = functions@.take(i as int);
                let post = functions@.take(i + 1);
                assert forall|s: SymbolId| hinted(pre, kind).union(added).contains(s) <==> #[trigger] hinted(post, kind).contains(s) by {
                    if hinted(pre, kind).contains(s) {
                        let w = choose|w: int|
                            0 <= w < pre.len() && pre[w].0 == s && #[trigger] hinted_within(
                                pre[w].1.metadata@,
                                pre[w].1.metadata@.len() as int,
                                kind,
                            );
                        assert(post[w] == pre[w]);
                    }
                    if added.contains(s) {
                        assert(post[i as int] == functions@[i as int]);
                    }
                    if hinted(post, kind).contains(s) {
                        let w = choose|w: int|
                            0 <= w < post.len() && post[w].0 == s && #[trigger] hinted_within(
                                post[w].1.metadata@,
                                post[w].1.metadata@.len() as int,
                                kind,
                            );
                        if w < i {
                            assert(pre[w] == post[w]);
                        }
                    }
                }
                assert(hinted(pre, kind).union(added) =~= hinted(post, kind));
            }
        }
        i = i + 1;
    }
    proof {
        assert(functions@.take(functions.len() as int) =~= functions@);
    }
}

} // verus!
