//! The conflict merger.
//!
//! `insert_view` is the semantics of adding one flattened field to an
//! accumulated per-scope field list: every already-present field with the
//! same response key is compared against the candidate, diagnostics from all
//! comparisons are collected, and the candidate is appended only when none
//! arose. A candidate that is the same structural node as an existing entry
//! short-circuits the remaining comparisons without discarding diagnostics
//! already found. `merge_views` folds a whole list in, never stopping at the
//! first conflict. The executable functions mirror these definitions
//! exactly.

use vstd::prelude::*;

use crate::diagnostics::alias_diag;
use crate::diagnostics::type_diag;
use crate::diagnostics::Annotation;
use crate::diagnostics::AnnotationLabel;
use crate::diagnostics::Diagnostic;
use crate::diagnostics::ValidationMessage;
use crate::flat::check_mutually_exclusive;
use crate::flat::clone_flat_field;
use crate::flat::clone_flat_fields;
use crate::flat::fields_same_node;
use crate::flat::flat_field_def;
use crate::flat::flat_loc;
use crate::flat::flat_view;
use crate::flat::flat_views;
use crate::flat::fv_def;
use crate::flat::fv_key;
use crate::flat::fv_loc;
use crate::flat::fv_weight;
use crate::flat::fvs_weight;
use crate::flat::lemma_fv_weight_elem;
use crate::flat::lemma_fvs_weight_push;
use crate::flat::linked_view;
use crate::flat::mutually_exclusive;
use crate::flat::response_key;
use crate::flat::same_node;
use crate::flat::scalar_view;
use crate::flat::FlatField;
use crate::flat::FlatView;
use crate::ir::Schema;

verus! {

/// The outcome of merging: the updated field list and the diagnostics found.
pub struct MergeOutcome {
    pub fields: Seq<FlatView>,
    pub errs: Seq<Diagnostic>,
}

/// The outcome of scanning the existing same-key entries: whether the
/// candidate hit a structurally identical entry, and the diagnostics found
/// against the entries compared before that.
pub struct ScanOutcome {
    pub matched: bool,
    pub errs: Seq<Diagnostic>,
}

/// The diagnostics from comparing an existing field `l` against a candidate
/// `r` that shares its response key.
///
/// - Two linked fields must have the same underlying name unless they are
///   mutually exclusive; their child lists are merged into each other either
///   way, under the exclusivity computed here, so that conflicts nested
///   below the shared key still surface.
/// - Two scalar fields must have the same underlying name unless they are
///   mutually exclusive; exclusive ones may differ in name but must agree on
///   the result type seen by the client.
/// - A linked field against a scalar field is always a shape conflict.
pub open spec fn compare_views(s: Schema, l: FlatView, r: FlatView, excl: bool) -> Seq<
    Diagnostic,
>
    decreases fv_weight(l) + fv_weight(r), 0int, 0int, 0int,
{
    let ld = fv_def(s, l);
    let rd = fv_def(s, r);
    let key = fv_key(s, r);
    let mx = mutually_exclusive(excl, ld, rd);
    match (l, r) {
        (
            FlatView::Linked { node: ln, children: lc },
            FlatView::Linked { node: rn, children: rc },
        ) => {
            let alias_errs = if !mx && ld.name != rd.name {
                seq![alias_diag(key, ld.name, rd.name, ln.location, rn.location)]
            } else {
                Seq::empty()
            };
            alias_errs + merge_views(s, lc, rc, mx).errs
        },
        (FlatView::Scalar { node: ln }, FlatView::Scalar { node: rn }) => {
            if !mx {
                if ld.name != rd.name {
                    seq![alias_diag(key, ld.name, rd.name, ln.location, rn.location)]
                } else {
                    Seq::empty()
                }
            } else if ld.type_ != rd.type_ {
                seq![
                    type_diag(
                        key,
                        ld.name,
                        rd.name,
                        ld.type_string,
                        rd.type_string,
                        ln.location,
                        rn.location,
                    ),
                ]
            } else {
                Seq::empty()
            }
        },
        _ => seq![
            type_diag(
                key,
                ld.name,
                rd.name,
                ld.type_string,
                rd.type_string,
                fv_loc(l),
                fv_loc(r),
            ),
        ],
    }
}

/// Scans the existing entries from index `i` on: entries at other response
/// keys are skipped; a structurally identical entry stops the scan with the
/// diagnostics found so far; every other same-key entry contributes its
/// comparison diagnostics.
pub open spec fn scan_views(
    s: Schema,
    acc: Seq<FlatView>,
    cand: FlatView,
    excl: bool,
    i: int,
) -> ScanOutcome
    decreases fvs_weight(acc) + fv_weight(cand), 0int, 1int, acc.len() - i,
    via scan_views_decreases
{
    if i < 0 || i >= acc.len() {
        ScanOutcome { matched: false, errs: Seq::empty() }
    } else if fv_key(s, acc[i]) != fv_key(s, cand) {
        scan_views(s, acc, cand, excl, i + 1)
    } else if same_node(acc[i], cand) {
        ScanOutcome { matched: true, errs: Seq::empty() }
    } else {
        let e = compare_views(s, acc[i], cand, excl);
        let rest = scan_views(s, acc, cand, excl, i + 1);
        ScanOutcome { matched: rest.matched, errs: e + rest.errs }
    }
}

#[via_fn]
proof fn scan_views_decreases(s: Schema, acc: Seq<FlatView>, cand: FlatView, excl: bool, i: int) {
    if 0 <= i < acc.len() {
        lemma_fv_weight_elem(acc, i);
    }
}

/// Merges a whole candidate list into the accumulated list, inserting each
/// candidate in order and concatenating all diagnostics: an earlier conflict
/// never hides a later one.
pub open spec fn merge_views(
    s: Schema,
    acc: Seq<FlatView>,
    cands: Seq<FlatView>,
    excl: bool,
) -> MergeOutcome
    decreases fvs_weight(acc) + fvs_weight(cands), cands.len(), 3int, 0int,
    via merge_views_decreases
{
    if cands.len() == 0 {
        MergeOutcome { fields: acc, errs: Seq::empty() }
    } else {
        let o = scan_views(s, acc, cands[0], excl, 0);
        let acc1 = if !o.matched && o.errs.len() == 0 {
            acc.push(cands[0])
        } else {
            acc
        };
        let rest = merge_views(s, acc1, cands.drop_first(), excl);
        MergeOutcome { fields: rest.fields, errs: o.errs + rest.errs }
    }
}

#[via_fn]
proof fn merge_views_decreases(s: Schema, acc: Seq<FlatView>, cands: Seq<FlatView>, excl: bool) {
    if cands.len() > 0 {
        lemma_fv_weight_elem(cands, 0);
        lemma_fvs_weight_push(acc, cands[0]);
        assert(fvs_weight(cands) == 1 + fv_weight(cands[0]) + fvs_weight(cands.drop_first()));
    }
}

/// Adds one flattened field to the accumulated list: the candidate is
/// appended exactly when the scan neither hit an identical entry nor found
/// any diagnostic; the diagnostics found are returned either way.
pub open spec fn insert_view(s: Schema, acc: Seq<FlatView>, cand: FlatView, excl: bool) -> MergeOutcome
    decreases fvs_weight(acc) + fv_weight(cand), 0int, 2int, 0int,
{
    let o = scan_views(s, acc, cand, excl, 0);
    MergeOutcome {
        fields: if !o.matched && o.errs.len() == 0 {
            acc.push(cand)
        } else {
            acc
        },
        errs: o.errs,
    }
}

/// Compares an existing field against a same-key candidate.
pub fn compare_fields(s: &Schema, l: &FlatField, r: &FlatField, excl: bool) -> (errs: Vec<
    Diagnostic,
>)
    ensures
        errs@ == compare_views(*s, flat_view(*l), flat_view(*r), excl),
    decreases fv_weight(flat_view(*l)) + fv_weight(flat_view(*r)), 0int, 0int, 0int,
{
    let ld = flat_field_def(s, l);
    let rd = flat_field_def(s, r);
    let key = response_key(s, r);
    let mx = check_mutually_exclusive(excl, &ld, &rd);
    let ghost goal = compare_views(*s, flat_view(*l), flat_view(*r), excl);
    let mut errs: Vec<Diagnostic> = Vec::new();
    match (l, r) {
        (
            FlatField::Linked { node: ln, children: lc },
            FlatField::Linked { node: rn, children: rc },
        ) => {
            proof {
                assert(flat_view(*l) == FlatView::Linked {
                    node: linked_view(*ln),
                    children: flat_views(lc@),
                });
                assert(flat_view(*r) == FlatView::Linked {
                    node: linked_view(*rn),
                    children: flat_views(rc@),
                });
            }
            if !mx && ld.name != rd.name {
                errs.push(
                    Diagnostic {
                        message: ValidationMessage::AmbiguousFieldAlias {
                            response_key: key,
                            l_name: ld.name,
                            r_name: rd.name,
                        },
                        location: ln.location,
                        annotation: Annotation {
                            label: AnnotationLabel::OtherField,
                            location: rn.location,
                        },
                    },
                );
            }
            let mut lcc = clone_flat_fields(lc);
            let mut merrs = merge_fields(s, &mut lcc, rc, mx);
            errs.append(&mut merrs);
            proof {
                assert(errs@ =~= goal);
            }
            errs
        },
        (FlatField::Scalar { node: ln }, FlatField::Scalar { node: rn }) => {
            proof {
                assert(flat_view(*l) == FlatView::Scalar { node: scalar_view(*ln) });
                assert(flat_view(*r) == FlatView::Scalar { node: scalar_view(*rn) });
            }
            if !mx {
                if ld.name != rd.name {
                    errs.push(
                        Diagnostic {
                            message: ValidationMessage::AmbiguousFieldAlias {
                                response_key: key,
                                l_name: ld.name,
                                r_name: rd.name,
                            },
                            location: ln.location,
                            annotation: Annotation {
                                label: AnnotationLabel::OtherField,
                                location: rn.location,
                            },
                        },
                    );
                }
            } else if ld.type_ != rd.type_ {
                errs.push(
                    Diagnostic {
                        message: ValidationMessage::AmbiguousFieldType {
                            response_key: key,
                            l_name: ld.name,
                            r_name: rd.name,
                            l_type_string: ld.type_string,
                            r_type_string: rd.type_string,
                        },
                        location: ln.location,
                        annotation: Annotation {
                            label: AnnotationLabel::OtherField,
                            location: rn.location,
                        },
                    },
                );
            }
            proof {
                assert(errs@ =~= goal);
            }
            errs
        },
        _ => {
            errs.push(
                Diagnostic {
                    message: ValidationMessage::AmbiguousFieldType {
                        response_key: key,
                        l_name: ld.name,
                        r_name: rd.name,
                        l_type_string: ld.type_string,
                        r_type_string: rd.type_string,
                    },
                    location: flat_loc(l),
                    annotation: Annotation {
                        label: AnnotationLabel::OtherField,
                        location: flat_loc(r),
                    },
                },
            );
            proof {
                assert(errs@ =~= goal);
            }
            errs
        },
    }
}

/// Scans the existing entries from index `i` on, comparing the candidate
/// against each one that shares its response key.
fn scan_fields(s: &Schema, acc: &Vec<FlatField>, cand: &FlatField, excl: bool, i: usize) -> (r: (
    bool,
    Vec<Diagnostic>,
))
    requires
        i <= acc@.len(),
    ensures
        ({
            let o = scan_views(*s, flat_views(acc@), flat_view(*cand), excl, i as int);
            r.0 == o.matched && r.1@ == o.errs
        }),
    decreases
            fvs_weight(flat_views(acc@)) + fv_weight(flat_view(*cand)),
            0int,
            1int,
            acc@.len() - i,
{
    if i == acc.len() {
        (false, Vec::new())
    } else {
        let e = &acc[i];
        proof {
            assert(flat_views(acc@)[i as int] == flat_view(acc@[i as int]));
        }
        if response_key(s, e) != response_key(s, cand) {
            scan_fields(s, acc, cand, excl, i + 1)
        } else if fields_same_node(e, cand) {
            (true, Vec::new())
        } else {
            proof {
                lemma_fv_weight_elem(flat_views(acc@), i as int);
            }
            let mut errs = compare_fields(s, e, cand, excl);
            let (m, mut rest) = scan_fields(s, acc, cand, excl, i + 1);
            errs.append(&mut rest);
            (m, errs)
        }
    }
}

/// Adds one flattened field to the accumulated per-scope list, returning the
/// diagnostics found against the already-present fields at its response key.
pub fn insert_field(s: &Schema, acc: &mut Vec<FlatField>, cand: FlatField, excl: bool) -> (errs:
    Vec<Diagnostic>)
    ensures
        ({
            let o = insert_view(*s, flat_views(old(acc)@), flat_view(cand), excl);
            flat_views(final(acc)@) == o.fields && errs@ == o.errs
        }),
    decreases fvs_weight(flat_views(acc@)) + fv_weight(flat_view(cand)), 0int, 2int, 0int,
{
    let (matched, errs) = scan_fields(s, acc, &cand, excl, 0);
    if !matched && errs.len() == 0 {
        acc.push(cand);
        proof {
            assert(flat_views(acc@) =~= flat_views(old(acc)@).push(flat_view(cand)));
        }
    }
    errs
}

/// Merges the candidate fields starting at index `j` into the accumulator.
fn merge_fields_from(
    s: &Schema,
    acc: &mut Vec<FlatField>,
    cands: &Vec<FlatField>,
    excl: bool,
    j: usize,
) -> (errs: Vec<Diagnostic>)
    requires
        j <= cands@.len(),
    ensures
        ({
            let o = merge_views(
                *s,
                flat_views(old(acc)@),
                flat_views(cands@).skip(j as int),
                excl,
            );
            flat_views(final(acc)@) == o.fields && errs@ == o.errs
        }),
    decreases
            fvs_weight(flat_views(acc@)) + fvs_weight(flat_views(cands@).skip(j as int)),
            cands@.len() - j,
            3int,
            0int,
{
    let ghost cv = flat_views(cands@).skip(j as int);
    if j == cands.len() {
        proof {
            assert(cv =~= Seq::<FlatView>::empty());
        }
        Vec::new()
    } else {
        proof {
            assert(cv[0] == flat_view(cands@[j as int]));
            assert(cv.drop_first() =~= flat_views(cands@).skip(j as int + 1));
        }
        let c = clone_flat_field(&cands[j]);
        let mut errs = insert_field(s, acc, c, excl);
        proof {
            lemma_fvs_weight_push(flat_views(old(acc)@), flat_view(cands@[j as int]));
            assert(flat_views(acc@) == flat_views(old(acc)@) || flat_views(acc@) == flat_views(
                old(acc)@,
            ).push(flat_view(cands@[j as int])));
            assert(fvs_weight(cv) == 1 + fv_weight(cv[0]) + fvs_weight(cv.drop_first()));
        }
        let mut rest = merge_fields_from(s, acc, cands, excl, j + 1);
        errs.append(&mut rest);
        errs
    }
}

/// Merges a whole flattened list into the accumulator, field by field,
/// collecting every diagnostic.
pub fn merge_fields(s: &Schema, acc: &mut Vec<FlatField>, cands: &Vec<FlatField>, excl: bool) -> (
    errs: Vec<Diagnostic>)
    ensures
        ({
            let o = merge_views(*s, flat_views(old(acc)@), flat_views(cands@), excl);
            flat_views(final(acc)@) == o.fields && errs@ == o.errs
        }),
    decreases
            fvs_weight(flat_views(acc@)) + fvs_weight(flat_views(cands@)),
            cands@.len(),
            4int,
            0int,
{
    proof {
        assert(flat_views(cands@).skip(0) =~= flat_views(cands@));
    }
    merge_fields_from(s, acc, cands, excl, 0)
}

} // verus!
