//! The semantics of flattening.
//!
//! `flatten_sels` walks a selection list once, accumulating the flattened
//! fields visible at that scope and every diagnostic the conflict merger
//! finds on the way. A condition or inline fragment flattens its own body
//! first and merges the result into the surrounding scope; a fragment spread
//! does the same with the named fragment's list. The `fuel` bounds the
//! nesting of spreads: it only rules out spread cycles, which earlier
//! validation passes exclude, and `lemma_flatten_sels_fuel` shows the result
//! is the same at every sufficient fuel — which is what makes a fragment's
//! flattened list cacheable and shareable across spread sites.

use vstd::prelude::*;

use crate::diagnostics::Diagnostic;
use crate::flat::flat_views;
use crate::flat::linked_view;
use crate::flat::scalar_view;
use crate::flat::FlatView;
use crate::ir::frag_index;
use crate::ir::lemma_sel_weight_elem;
use crate::ir::sel_weight;
use crate::ir::sels_weight;
use crate::ir::wf_program;
use crate::ir::wf_sel;
use crate::ir::wf_sels;
use crate::ir::Program;
use crate::ir::Selection;
use crate::merge::insert_view;
use crate::merge::merge_views;
use crate::merge::MergeOutcome;

verus! {

/// Flattens one selection into the accumulated per-scope list. A selection
/// whose own body already fails contributes its diagnostics and leaves the
/// accumulator unchanged; otherwise its fields are handed to the conflict
/// merger.
pub open spec fn flatten_sel(p: Program, sel: Selection, fuel: nat, acc: Seq<FlatView>) -> MergeOutcome
    decreases fuel, sel_weight(sel), 0int,
{
    match sel {
        Selection::LinkedField(f) => {
            let sub = flatten_sels(p, f.selections@, fuel);
            if sub.errs.len() > 0 {
                MergeOutcome { fields: acc, errs: sub.errs }
            } else {
                insert_view(
                    p.schema,
                    acc,
                    FlatView::Linked { node: linked_view(f), children: sub.fields },
                    false,
                )
            }
        },
        Selection::ScalarField(f) => insert_view(
            p.schema,
            acc,
            FlatView::Scalar { node: scalar_view(f) },
            false,
        ),
        Selection::Condition(c) => {
            let sub = flatten_sels(p, c.selections@, fuel);
            if sub.errs.len() > 0 {
                MergeOutcome { fields: acc, errs: sub.errs }
            } else {
                merge_views(p.schema, acc, sub.fields, false)
            }
        },
        Selection::InlineFragment(f) => {
            let sub = flatten_sels(p, f.selections@, fuel);
            if sub.errs.len() > 0 {
                MergeOutcome { fields: acc, errs: sub.errs }
            } else {
                merge_views(p.schema, acc, sub.fields, false)
            }
        },
        Selection::FragmentSpread(sp) => {
            let j = frag_index(p, sp.fragment_name);
            if 0 <= j && fuel > 0 {
                let sub = flatten_sels(p, p.fragments@[j].selections@, (fuel - 1) as nat);
                if sub.errs.len() > 0 {
                    MergeOutcome { fields: acc, errs: sub.errs }
                } else {
                    merge_views(p.schema, acc, sub.fields, false)
                }
            } else {
                MergeOutcome { fields: acc, errs: Seq::empty() }
            }
        },
    }
}

/// Flattens the selections from index `i` on into the accumulated list,
/// concatenating the diagnostics of every selection: one failing selection
/// never hides the conflicts of its siblings.
pub open spec fn flatten_from(
    p: Program,
    sels: Seq<Selection>,
    fuel: nat,
    i: int,
    acc: Seq<FlatView>,
) -> MergeOutcome
    decreases fuel, sels_weight(sels), sels.len() - i + 1,
    via flatten_from_decreases
{
    if i < 0 || i >= sels.len() {
        MergeOutcome { fields: acc, errs: Seq::empty() }
    } else {
        let one = flatten_sel(p, sels[i], fuel, acc);
        let rest = flatten_from(p, sels, fuel, i + 1, one.fields);
        MergeOutcome { fields: rest.fields, errs: one.errs + rest.errs }
    }
}

#[via_fn]
proof fn flatten_from_decreases(
    p: Program,
    sels: Seq<Selection>,
    fuel: nat,
    i: int,
    acc: Seq<FlatView>,
) {
    if 0 <= i < sels.len() {
        lemma_sel_weight_elem(sels, i);
    }
}

/// Flattens a whole selection list into an empty accumulator: the flattened
/// field list of that scope, and every diagnostic found while building it.
pub open spec fn flatten_sels(p: Program, sels: Seq<Selection>, fuel: nat) -> MergeOutcome
    decreases fuel, sels_weight(sels), sels.len() + 2,
{
    flatten_from(p, sels, fuel, 0, Seq::empty())
}

/// Flattening one selection does not depend on the fuel, as long as the
/// selection is well formed at both fuels.
pub proof fn lemma_flatten_sel_fuel(
    p: Program,
    sel: Selection,
    f1: nat,
    f2: nat,
    acc: Seq<FlatView>,
)
    requires
        wf_sel(p, sel, f1),
        wf_sel(p, sel, f2),
    ensures
        flatten_sel(p, sel, f1, acc) == flatten_sel(p, sel, f2, acc),
    decreases f1, sel_weight(sel), 0int,
{
    match sel {
        Selection::LinkedField(f) => lemma_flatten_sels_fuel(p, f.selections@, f1, f2),
        Selection::ScalarField(_) => {},
        Selection::Condition(c) => lemma_flatten_sels_fuel(p, c.selections@, f1, f2),
        Selection::InlineFragment(f) => lemma_flatten_sels_fuel(p, f.selections@, f1, f2),
        Selection::FragmentSpread(sp) => {
            let j = frag_index(p, sp.fragment_name);
            lemma_flatten_sels_fuel(
                p,
                p.fragments@[j].selections@,
                (f1 - 1) as nat,
                (f2 - 1) as nat,
            );
        },
    }
}

/// Flattening from an index on does not depend on the fuel.
pub proof fn lemma_flatten_from_fuel(
    p: Program,
    sels: Seq<Selection>,
    f1: nat,
    f2: nat,
    i: int,
    acc: Seq<FlatView>,
)
    requires
        wf_sels(p, sels, f1),
        wf_sels(p, sels, f2),
    ensures
        flatten_from(p, sels, f1, i, acc) == flatten_from(p, sels, f2, i, acc),
    decreases f1, sels_weight(sels), sels.len() - i + 1,
{
    if 0 <= i < sels.len() {
        lemma_sel_weight_elem(sels, i);
        lemma_flatten_sel_fuel(p, sels[i], f1, f2, acc);
        let one = flatten_sel(p, sels[i], f1, acc);
        lemma_flatten_from_fuel(p, sels, f1, f2, i + 1, one.fields);
    }
}

/// A fragment's flattened list is the same whichever sufficient fuel it is
/// computed at: resolving it from any spread site, or caching it once and
/// sharing the entry, yields one value — and one set of diagnostics.
pub proof fn lemma_flatten_sels_fuel(p: Program, sels: Seq<Selection>, f1: nat, f2: nat)
    requires
        wf_sels(p, sels, f1),
        wf_sels(p, sels, f2),
    ensures
        flatten_sels(p, sels, f1) == flatten_sels(p, sels, f2),
    decreases f1, sels_weight(sels), sels.len() + 2,
{
    lemma_flatten_from_fuel(p, sels, f1, f2, 0, Seq::empty());
}

/// The diagnostics of the operations from index `k` on, in order.
pub open spec fn op_errs_from(p: Program, k: int) -> Seq<Diagnostic>
    decreases p.operations@.len() - k,
{
    if k < 0 || k >= p.operations@.len() {
        Seq::empty()
    } else {
        flatten_sels(p, p.operations@[k].selections@, p.fragments@.len() as nat).errs
            + op_errs_from(p, k + 1)
    }
}

/// The diagnostics of the fragments from index `i` on, in order: every
/// fragment is validated on its own, whether or not any operation spreads it.
pub open spec fn frag_errs_from(p: Program, i: int) -> Seq<Diagnostic>
    decreases p.fragments@.len() - i,
{
    if i < 0 || i >= p.fragments@.len() {
        Seq::empty()
    } else {
        flatten_sels(p, p.fragments@[i].selections@, p.fragments@.len() as nat).errs
            + frag_errs_from(p, i + 1)
    }
}

/// Every diagnostic of one validation run: the operations' diagnostics in
/// operation order, then the fragments' in fragment order.
pub open spec fn program_errs(p: Program) -> Seq<Diagnostic> {
    op_errs_from(p, 0) + frag_errs_from(p, 0)
}

} // verus!
