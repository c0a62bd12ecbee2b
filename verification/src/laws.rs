//! The merging laws the library guarantees, each proved from the stated
//! semantics alone.

use vstd::prelude::*;

use crate::diagnostics::alias_diag;
use crate::flat::both_concrete;
use crate::flat::fv_children;
use crate::flat::fv_def;
use crate::flat::fv_key;
use crate::flat::fv_loc;
use crate::flat::mutually_exclusive;
use crate::flat::lemma_selv_eq_refl;
use crate::flat::lemma_selvs_eq_refl;
use crate::flat::same_node;
use crate::flat::FlatView;
use crate::flatten::flatten_sels;
use crate::flatten::lemma_flatten_sels_fuel;
use crate::ir::wf_sels;
use crate::ir::Program;
use crate::ir::Schema;
use crate::merge::compare_views;
use crate::merge::insert_view;
use crate::merge::merge_views;
use crate::merge::scan_views;

verus! {

/// Scanning a list whose same-key entries are all the same structural node
/// as the candidate finds no diagnostic, and reports a match exactly when
/// such an entry lies at or after the scan position.
proof fn lemma_scan_identical(s: Schema, acc: Seq<FlatView>, cand: FlatView, excl: bool, i: int)
    requires
        0 <= i <= acc.len(),
        forall|k: int|
            0 <= k < acc.len() && fv_key(s, #[trigger] acc[k]) == fv_key(s, cand) ==> same_node(
                acc[k],
                cand,
            ),
    ensures
        ({
            let o = scan_views(s, acc, cand, excl, i);
            o.errs.len() == 0 && (o.matched <==> exists|k: int|
                i <= k < acc.len() && fv_key(s, #[trigger] acc[k]) == fv_key(s, cand))
        }),
    decreases acc.len() - i,
{
    if i < acc.len() {
        if fv_key(s, acc[i]) == fv_key(s, cand) {
            assert(same_node(acc[i], cand));
            assert(i <= i < acc.len() && fv_key(s, acc[i]) == fv_key(s, cand));
        } else {
            lemma_scan_identical(s, acc, cand, excl, i + 1);
            let o = scan_views(s, acc, cand, excl, i);
            assert forall|k: int|
                i <= k < acc.len() && fv_key(s, #[trigger] acc[k]) == fv_key(s, cand) implies (
            exists|k2: int|
                i + 1 <= k2 < acc.len() && fv_key(s, #[trigger] acc[k2]) == fv_key(s, cand)) by {
                assert(k != i);
                assert(i + 1 <= k < acc.len() && fv_key(s, acc[k]) == fv_key(s, cand));
            }
        }
    }
}

/// However deeply the occurrences are nested, a field merges without any
/// diagnostic into a scope whose fields at its response key are all the
/// same structural node as itself — and the scope is left unchanged, since
/// the identical entry already stands for it.
pub proof fn lemma_identical_node_merges(s: Schema, acc: Seq<FlatView>, cand: FlatView, excl: bool)
    requires
        exists|k: int| 0 <= k < acc.len() && fv_key(s, #[trigger] acc[k]) == fv_key(s, cand),
        forall|k: int|
            0 <= k < acc.len() && fv_key(s, #[trigger] acc[k]) == fv_key(s, cand) ==> same_node(
                acc[k],
                cand,
            ),
    ensures
        insert_view(s, acc, cand, excl).errs.len() == 0,
        insert_view(s, acc, cand, excl).fields == acc,
{
    lemma_scan_identical(s, acc, cand, excl, 0);
}

/// Every field is the same structural node as itself, whatever its nesting
/// depth: re-selecting a field verbatim is always sound.
pub proof fn lemma_same_node_reflexive(f: FlatView)
    ensures
        same_node(f, f),
{
    match f {
        FlatView::Linked { node, .. } => lemma_selvs_eq_refl(node.selections),
        FlatView::Scalar { .. } => {},
    }
}

/// A field merges without any diagnostic into a scope holding exactly that
/// field already, and the scope is unchanged.
pub proof fn lemma_field_merges_with_itself(s: Schema, f: FlatView, excl: bool)
    ensures
        insert_view(s, seq![f], f, excl).errs.len() == 0,
        insert_view(s, seq![f], f, excl).fields == seq![f],
{
    lemma_same_node_reflexive(f);
    assert(seq![f][0] == f);
    lemma_identical_node_merges(s, seq![f], f, excl);
}

/// Two linked fields with the same underlying name at one response key never
/// conflict at that key themselves: every diagnostic of their comparison is
/// one of the recursive merge of their child lists, and so cites a nested
/// response key.
pub proof fn lemma_same_name_conflicts_are_nested(s: Schema, l: FlatView, r: FlatView, excl: bool)
    requires
        l is Linked,
        r is Linked,
        fv_def(s, l).name == fv_def(s, r).name,
    ensures
        compare_views(s, l, r, excl) == merge_views(
            s,
            fv_children(l),
            fv_children(r),
            mutually_exclusive(excl, fv_def(s, l), fv_def(s, r)),
        ).errs,
{
    let nested = merge_views(
        s,
        fv_children(l),
        fv_children(r),
        mutually_exclusive(excl, fv_def(s, l), fv_def(s, r)),
    ).errs;
    assert(compare_views(s, l, r, excl) =~= nested);
}

/// Two scalar fields whose declaring types are different concrete object
/// types can never both execute on one runtime object: as long as they agree
/// on the result type, they share a response key without any diagnostic,
/// whatever their underlying names.
pub proof fn lemma_exclusive_concrete_types_merge(s: Schema, l: FlatView, r: FlatView, excl: bool)
    requires
        l is Scalar,
        r is Scalar,
        fv_def(s, l).parent_type != fv_def(s, r).parent_type,
        both_concrete(fv_def(s, l).parent_type, fv_def(s, r).parent_type),
        fv_def(s, l).type_ == fv_def(s, r).type_,
    ensures
        compare_views(s, l, r, excl).len() == 0,
{
}

/// Two scalar fields with different underlying names at one response key,
/// declared on the same type or on types that are not both concrete objects,
/// conflict: the comparison reports exactly one ambiguous-alias diagnostic
/// citing both occurrences.
pub proof fn lemma_shared_type_different_names_conflict(s: Schema, l: FlatView, r: FlatView)
    requires
        l is Scalar,
        r is Scalar,
        fv_def(s, l).name != fv_def(s, r).name,
        !mutually_exclusive(false, fv_def(s, l), fv_def(s, r)),
    ensures
        compare_views(s, l, r, false) == seq![
            alias_diag(
                fv_key(s, r),
                fv_def(s, l).name,
                fv_def(s, r).name,
                fv_loc(l),
                fv_loc(r),
            ),
        ],
{
}

/// Validating one fragment is idempotent: whichever spread site resolves it,
/// and at whatever spread-nesting fuel, the flattened field list and the
/// diagnostics are the same values — so serving the cached list is
/// indistinguishable from recomputing it.
pub proof fn lemma_fragment_validation_idempotent(p: Program, j: int, f1: nat, f2: nat)
    requires
        0 <= j < p.fragments@.len(),
        wf_sels(p, p.fragments@[j].selections@, f1),
        wf_sels(p, p.fragments@[j].selections@, f2),
    ensures
        flatten_sels(p, p.fragments@[j].selections@, f1) == flatten_sels(
            p,
            p.fragments@[j].selections@,
            f2,
        ),
{
    lemma_flatten_sels_fuel(p, p.fragments@[j].selections@, f1, f2);
}

} // verus!
