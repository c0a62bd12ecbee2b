//! Flattened fields and their mathematical model.
//!
//! A flattened field is the per-scope view of one `LinkedField` or
//! `ScalarField` occurrence; a linked one carries the flattened list of its
//! own sub-selections, resolved once when the field was first seen. The
//! ghost mirrors (`SelView`, `FlatView`) give every structure a value made of
//! `Seq` and plain scalars, which the contracts and the merging semantics are
//! stated over.

use vstd::prelude::*;

use crate::diagnostics::Location;
use crate::ir::field_def;
use crate::ir::lookup_field_def;
use crate::ir::sel_weight;
use crate::ir::sels_weight;
use crate::ir::lemma_sel_weight_elem;
use crate::ir::Condition;
use crate::ir::FieldDefinition;
use crate::ir::InlineFragment;
use crate::ir::LinkedField;
use crate::ir::ScalarField;
use crate::ir::Schema;
use crate::ir::SchemaType;
use crate::ir::Selection;

verus! {

broadcast use
    vstd::seq::axiom_seq_index_decreases,
    vstd::seq::axiom_seq_subrange_decreases,
    vstd::std_specs::vec::axiom_vec_index_decreases,
    vstd::std_specs::vec::axiom_vec_decreases_to_view;

/// The ghost value of one selection: the same shape as `Selection`, with
/// every vector replaced by a sequence.
#[verifier::ext_equal]
pub enum SelView {
    Linked { node_id: u64, alias: Option<u64>, definition: usize, location: Location, selections: Seq<SelView> },
    Scalar { alias: Option<u64>, definition: usize, location: Location },
    Cond { selections: Seq<SelView> },
    Inline { type_condition: Option<SchemaType>, selections: Seq<SelView> },
    Spread { fragment_name: u64 },
}

/// The ghost value of a linked field node.
#[verifier::ext_equal]
pub struct LinkedView {
    pub node_id: u64,
    pub alias: Option<u64>,
    pub definition: usize,
    pub location: Location,
    pub selections: Seq<SelView>,
}

/// The ghost value of a scalar field node.
#[verifier::ext_equal]
pub struct ScalarView {
    pub alias: Option<u64>,
    pub definition: usize,
    pub location: Location,
}

/// The ghost value of a selection list.
pub open spec fn sels_view(q: Seq<Selection>) -> Seq<SelView>
    decreases q,
{
    Seq::new(
        q.len(),
        |i: int|
            if 0 <= i < q.len() {
                sel_view(q[i])
            } else {
                arbitrary()
            },
    )
}

/// The ghost value of one selection.
pub open spec fn sel_view(s: Selection) -> SelView
    decreases s,
{
    match s {
        Selection::LinkedField(f) => SelView::Linked {
            node_id: f.node_id,
            alias: f.alias,
            definition: f.definition,
            location: f.location,
            selections: sels_view(f.selections@),
        },
        Selection::ScalarField(f) => SelView::Scalar {
            alias: f.alias,
            definition: f.definition,
            location: f.location,
        },
        Selection::Condition(c) => SelView::Cond { selections: sels_view(c.selections@) },
        Selection::InlineFragment(f) => SelView::Inline {
            type_condition: f.type_condition,
            selections: sels_view(f.selections@),
        },
        Selection::FragmentSpread(sp) => SelView::Spread { fragment_name: sp.fragment_name },
    }
}

/// The ghost value of a linked field node.
pub open spec fn linked_view(f: LinkedField) -> LinkedView {
    LinkedView {
        node_id: f.node_id,
        alias: f.alias,
        definition: f.definition,
        location: f.location,
        selections: sels_view(f.selections@),
    }
}

/// The ghost value of a scalar field node.
pub open spec fn scalar_view(f: ScalarField) -> ScalarView {
    ScalarView { alias: f.alias, definition: f.definition, location: f.location }
}

/// One flattened field: the underlying node, and for a linked field the
/// flattened list of its sub-selections.
pub enum FlatField {
    Linked { node: LinkedField, children: Vec<FlatField> },
    Scalar { node: ScalarField },
}

/// The ghost value of one flattened field.
#[verifier::ext_equal]
pub enum FlatView {
    Linked { node: LinkedView, children: Seq<FlatView> },
    Scalar { node: ScalarView },
}

/// The ghost value of a flattened field.
pub open spec fn flat_view(f: FlatField) -> FlatView
    decreases f,
{
    match f {
        FlatField::Linked { node, children } => FlatView::Linked {
            node: linked_view(node),
            children: flat_views(children@),
        },
        FlatField::Scalar { node } => FlatView::Scalar { node: scalar_view(node) },
    }
}

/// The ghost value of a flattened field list.
pub open spec fn flat_views(q: Seq<FlatField>) -> Seq<FlatView>
    decreases q,
{
    Seq::new(
        q.len(),
        |i: int|
            if 0 <= i < q.len() {
                flat_view(q[i])
            } else {
                arbitrary()
            },
    )
}

/// The size of one flattened field, counting the node and its children.
pub open spec fn fv_weight(f: FlatView) -> nat
    decreases f,
{
    match f {
        FlatView::Linked { children, .. } => 1 + fvs_weight(children),
        FlatView::Scalar { .. } => 1,
    }
}

/// The size of a flattened field list; always positive.
pub open spec fn fvs_weight(q: Seq<FlatView>) -> nat
    decreases q,
{
    if q.len() == 0 {
        1
    } else {
        1 + fv_weight(q[0]) + fvs_weight(q.drop_first())
    }
}

/// Each flattened field weighs less than the list holding it.
pub proof fn lemma_fv_weight_elem(q: Seq<FlatView>, i: int)
    requires
        0 <= i < q.len(),
    ensures
        fv_weight(q[i]) < fvs_weight(q),
    decreases i,
{
    if i > 0 {
        lemma_fv_weight_elem(q.drop_first(), i - 1);
        assert(q.drop_first()[i - 1] == q[i]);
    }
}

/// Appending one field adds its weight plus one.
pub proof fn lemma_fvs_weight_push(q: Seq<FlatView>, x: FlatView)
    ensures
        fvs_weight(q.push(x)) == fvs_weight(q) + fv_weight(x) + 1,
    decreases q.len(),
{
    if q.len() == 0 {
        assert(q.push(x)[0] == x);
        assert(q.push(x).drop_first() =~= Seq::<FlatView>::empty());
        assert(fvs_weight(Seq::<FlatView>::empty()) == 1);
    } else {
        assert(q.push(x).drop_first() =~= q.drop_first().push(x));
        assert(q.push(x)[0] == q[0]);
        lemma_fvs_weight_push(q.drop_first(), x);
    }
}

/// Deep content equality of two selection views, ignoring node identities
/// and source locations: the "same structural node" relation of the merger's
/// fast path.
pub open spec fn selv_eq(a: SelView, b: SelView) -> bool
    decreases a,
{
    match (a, b) {
        (
            SelView::Linked { alias: aa, definition: ad, selections: asels, .. },
            SelView::Linked { alias: ba, definition: bd, selections: bsels, .. },
        ) => aa == ba && ad == bd && selvs_eq(asels, bsels),
        (
            SelView::Scalar { alias: aa, definition: ad, .. },
            SelView::Scalar { alias: ba, definition: bd, .. },
        ) => aa == ba && ad == bd,
        (SelView::Cond { selections: asels }, SelView::Cond { selections: bsels }) => selvs_eq(
            asels,
            bsels,
        ),
        (
            SelView::Inline { type_condition: at, selections: asels },
            SelView::Inline { type_condition: bt, selections: bsels },
        ) => at == bt && selvs_eq(asels, bsels),
        (
            SelView::Spread { fragment_name: an },
            SelView::Spread { fragment_name: bn },
        ) => an == bn,
        _ => false,
    }
}

/// Deep content equality of two selection view lists.
pub open spec fn selvs_eq(a: Seq<SelView>, b: Seq<SelView>) -> bool
    decreases a,
{
    &&& a.len() == b.len()
    &&& (a.len() == 0 || (selv_eq(a[0], b[0]) && selvs_eq(a.drop_first(), b.drop_first())))
}

/// Content equality is reflexive.
pub proof fn lemma_selv_eq_refl(a: SelView)
    ensures
        selv_eq(a, a),
    decreases a,
{
    match a {
        SelView::Linked { selections, .. } => lemma_selvs_eq_refl(selections),
        SelView::Cond { selections } => lemma_selvs_eq_refl(selections),
        SelView::Inline { selections, .. } => lemma_selvs_eq_refl(selections),
        _ => {},
    }
}

/// Content equality of lists is reflexive.
pub proof fn lemma_selvs_eq_refl(a: Seq<SelView>)
    ensures
        selvs_eq(a, a),
    decreases a,
{
    if a.len() > 0 {
        lemma_selv_eq_refl(a[0]);
        lemma_selvs_eq_refl(a.drop_first());
    }
}

/// Whether two flattened fields are the same structural node: same kind and
/// deep-content-equal underlying nodes. Node identities and locations do not
/// take part: two syntactically equal occurrences are the same node.
pub open spec fn same_node(a: FlatView, b: FlatView) -> bool {
    match (a, b) {
        (FlatView::Linked { node: x, .. }, FlatView::Linked { node: y, .. }) => {
            x.alias == y.alias && x.definition == y.definition && selvs_eq(
                x.selections,
                y.selections,
            )
        },
        (FlatView::Scalar { node: x }, FlatView::Scalar { node: y }) => x.alias == y.alias
            && x.definition == y.definition,
        _ => false,
    }
}

/// The response key of a field: its alias if present, else the name of the
/// field definition it refers to.
pub open spec fn key_of(s: Schema, alias: Option<u64>, definition: usize) -> u64 {
    match alias {
        Some(a) => a,
        None => field_def(s, definition).name,
    }
}

/// The response key of a flattened field.
pub open spec fn fv_key(s: Schema, f: FlatView) -> u64 {
    match f {
        FlatView::Linked { node, .. } => key_of(s, node.alias, node.definition),
        FlatView::Scalar { node } => key_of(s, node.alias, node.definition),
    }
}

/// The field definition of a flattened field.
pub open spec fn fv_def(s: Schema, f: FlatView) -> FieldDefinition {
    match f {
        FlatView::Linked { node, .. } => field_def(s, node.definition),
        FlatView::Scalar { node } => field_def(s, node.definition),
    }
}

/// The flattened child list of a flattened field; a scalar has none.
pub open spec fn fv_children(f: FlatView) -> Seq<FlatView> {
    match f {
        FlatView::Linked { children, .. } => children,
        FlatView::Scalar { .. } => Seq::empty(),
    }
}

/// The source location of a flattened field's definition.
pub open spec fn fv_loc(f: FlatView) -> Location {
    match f {
        FlatView::Linked { node, .. } => node.location,
        FlatView::Scalar { node } => node.location,
    }
}

/// Whether both field definitions sit on concrete object types.
pub open spec fn both_concrete(a: Option<SchemaType>, b: Option<SchemaType>) -> bool {
    match (a, b) {
        (Some(SchemaType::Object(_)), Some(SchemaType::Object(_))) => true,
        _ => false,
    }
}

/// Whether two fields can never both execute on one runtime object: either
/// the surrounding merge already was exclusive, or the two declaring types
/// are different concrete object types.
pub open spec fn mutually_exclusive(
    excl: bool,
    ld: FieldDefinition,
    rd: FieldDefinition,
) -> bool {
    excl || (ld.parent_type != rd.parent_type && both_concrete(ld.parent_type, rd.parent_type))
}

/// The response key of a flattened field.
pub fn response_key(s: &Schema, f: &FlatField) -> (r: u64)
    ensures
        r == fv_key(*s, flat_view(*f)),
{
    match f {
        FlatField::Linked { node, .. } => match node.alias {
            Some(a) => a,
            None => lookup_field_def(s, node.definition).name,
        },
        FlatField::Scalar { node } => match node.alias {
            Some(a) => a,
            None => lookup_field_def(s, node.definition).name,
        },
    }
}

/// The field definition of a flattened field.
pub fn flat_field_def(s: &Schema, f: &FlatField) -> (r: FieldDefinition)
    ensures
        r == fv_def(*s, flat_view(*f)),
{
    match f {
        FlatField::Linked { node, .. } => lookup_field_def(s, node.definition),
        FlatField::Scalar { node } => lookup_field_def(s, node.definition),
    }
}

/// The source location of a flattened field's definition.
pub fn flat_loc(f: &FlatField) -> (r: Location)
    ensures
        r == fv_loc(flat_view(*f)),
{
    match f {
        FlatField::Linked { node, .. } => node.location,
        FlatField::Scalar { node } => node.location,
    }
}

fn opt_name_eq(a: &Option<u64>, b: &Option<u64>) -> (r: bool)
    ensures
        r == (*a == *b),
{
    match (a, b) {
        (Some(x), Some(y)) => *x == *y,
        (None, None) => true,
        _ => false,
    }
}

fn opt_type_eq(a: &Option<SchemaType>, b: &Option<SchemaType>) -> (r: bool)
    ensures
        r == (*a == *b),
{
    match (a, b) {
        (Some(x), Some(y)) => *x == *y,
        (None, None) => true,
        _ => false,
    }
}

/// Whether both definitions sit on concrete object types.
pub fn check_both_concrete(a: &Option<SchemaType>, b: &Option<SchemaType>) -> (r: bool)
    ensures
        r == both_concrete(*a, *b),
{
    match (a, b) {
        (Some(SchemaType::Object(_)), Some(SchemaType::Object(_))) => true,
        _ => false,
    }
}

/// Whether two fields are mutually exclusive given the surrounding flag.
pub fn check_mutually_exclusive(excl: bool, ld: &FieldDefinition, rd: &FieldDefinition) -> (r:
    bool)
    ensures
        r == mutually_exclusive(excl, *ld, *rd),
{
    excl || (!opt_type_eq(&ld.parent_type, &rd.parent_type) && check_both_concrete(
        &ld.parent_type,
        &rd.parent_type,
    ))
}

/// Deep content equality of two selections.
pub fn eq_selection(a: &Selection, b: &Selection) -> (r: bool)
    ensures
        r == selv_eq(sel_view(*a), sel_view(*b)),
    decreases sel_weight(*a), 0int,
{
    match (a, b) {
        (Selection::LinkedField(x), Selection::LinkedField(y)) => {
            proof {
                assert(sel_view(*a) == SelView::Linked {
                    node_id: x.node_id,
                    alias: x.alias,
                    definition: x.definition,
                    location: x.location,
                    selections: sels_view(x.selections@),
                });
                assert(sel_view(*b) == SelView::Linked {
                    node_id: y.node_id,
                    alias: y.alias,
                    definition: y.definition,
                    location: y.location,
                    selections: sels_view(y.selections@),
                });
            }
            opt_name_eq(&x.alias, &y.alias) && x.definition == y.definition && eq_selections(
                &x.selections,
                &y.selections,
            )
        },
        (Selection::ScalarField(x), Selection::ScalarField(y)) => {
            proof {
                assert(sel_view(*a) == SelView::Scalar {
                    alias: x.alias,
                    definition: x.definition,
                    location: x.location,
                });
                assert(sel_view(*b) == SelView::Scalar {
                    alias: y.alias,
                    definition: y.definition,
                    location: y.location,
                });
            }
            opt_name_eq(&x.alias, &y.alias) && x.definition == y.definition
        },
        (Selection::Condition(x), Selection::Condition(y)) => {
            proof {
                assert(sel_view(*a) == SelView::Cond { selections: sels_view(x.selections@) });
                assert(sel_view(*b) == SelView::Cond { selections: sels_view(y.selections@) });
            }
            eq_selections(&x.selections, &y.selections)
        },
        (Selection::InlineFragment(x), Selection::InlineFragment(y)) => {
            proof {
                assert(sel_view(*a) == SelView::Inline {
                    type_condition: x.type_condition,
                    selections: sels_view(x.selections@),
                });
                assert(sel_view(*b) == SelView::Inline {
                    type_condition: y.type_condition,
                    selections: sels_view(y.selections@),
                });
            }
            opt_type_eq(&x.type_condition, &y.type_condition) && eq_selections(
                &x.selections,
                &y.selections,
            )
        },
        (Selection::FragmentSpread(x), Selection::FragmentSpread(y)) => {
            proof {
                assert(sel_view(*a) == SelView::Spread { fragment_name: x.fragment_name });
                assert(sel_view(*b) == SelView::Spread { fragment_name: y.fragment_name });
            }
            x.fragment_name == y.fragment_name
        },
        _ => false,
    }
}

/// Deep content equality of two selection lists, from index `i` on.
fn eq_selections_from(a: &Vec<Selection>, b: &Vec<Selection>, i: usize) -> (r: bool)
    requires
        i <= a@.len(),
        i <= b@.len(),
    ensures
        r == selvs_eq(sels_view(a@).skip(i as int), sels_view(b@).skip(i as int)),
    decreases sels_weight(a@), a@.len() - i + 1,
{
    let ghost av = sels_view(a@).skip(i as int);
    let ghost bv = sels_view(b@).skip(i as int);
    if i == a.len() || i == b.len() {
        a.len() == b.len()
    } else {
        proof {
            lemma_sel_weight_elem(a@, i as int);
            assert(av[0] == sel_view(a@[i as int]));
            assert(bv[0] == sel_view(b@[i as int]));
            assert(av.drop_first() =~= sels_view(a@).skip(i + 1));
            assert(bv.drop_first() =~= sels_view(b@).skip(i + 1));
        }
        let head = eq_selection(&a[i], &b[i]);
        if !head {
            false
        } else {
            eq_selections_from(a, b, i + 1)
        }
    }
}

/// Deep content equality of two selection lists.
pub fn eq_selections(a: &Vec<Selection>, b: &Vec<Selection>) -> (r: bool)
    ensures
        r == selvs_eq(sels_view(a@), sels_view(b@)),
    decreases sels_weight(a@), a@.len() + 2,
{
    proof {
        assert(sels_view(a@).skip(0) =~= sels_view(a@));
        assert(sels_view(b@).skip(0) =~= sels_view(b@));
    }
    eq_selections_from(a, b, 0)
}

/// Whether two flattened fields are the same structural node.
pub fn fields_same_node(a: &FlatField, b: &FlatField) -> (r: bool)
    ensures
        r == same_node(flat_view(*a), flat_view(*b)),
{
    match (a, b) {
        (FlatField::Linked { node: x, .. }, FlatField::Linked { node: y, .. }) => opt_name_eq(
            &x.alias,
            &y.alias,
        ) && x.definition == y.definition && eq_selections(&x.selections, &y.selections),
        (FlatField::Scalar { node: x }, FlatField::Scalar { node: y }) => opt_name_eq(
            &x.alias,
            &y.alias,
        ) && x.definition == y.definition,
        _ => false,
    }
}

/// Copies one selection; the copy has the same ghost value.
pub fn clone_selection(s: &Selection) -> (r: Selection)
    ensures
        sel_view(r) == sel_view(*s),
    decreases sel_weight(*s), 0int,
{
    match s {
        Selection::LinkedField(f) => Selection::LinkedField(clone_linked_field(f)),
        Selection::ScalarField(f) => Selection::ScalarField(
            ScalarField { alias: f.alias, definition: f.definition, location: f.location },
        ),
        Selection::Condition(c) => Selection::Condition(
            Condition { selections: clone_selections(&c.selections) },
        ),
        Selection::InlineFragment(f) => Selection::InlineFragment(
            InlineFragment {
                type_condition: f.type_condition,
                selections: clone_selections(&f.selections),
            },
        ),
        Selection::FragmentSpread(sp) => Selection::FragmentSpread(
            crate::ir::FragmentSpread { fragment_name: sp.fragment_name },
        ),
    }
}

/// Copies a selection list; the copy has the same ghost value.
pub fn clone_selections(v: &Vec<Selection>) -> (r: Vec<Selection>)
    ensures
        sels_view(r@) == sels_view(v@),
    decreases sels_weight(v@), 1int,
{
    let mut r: Vec<Selection> = Vec::new();
    let mut i: usize = 0;
    while i < v.len()
        invariant
            i <= v@.len(),
            r@.len() == i,
            forall|j: int| 0 <= j < i ==> sel_view(r@[j]) == sel_view(v@[j]),
        decreases v@.len() - i,
    {
        proof {
            lemma_sel_weight_elem(v@, i as int);
        }
        let c = clone_selection(&v[i]);
        r.push(c);
        i = i + 1;
    }
    proof {
        assert(sels_view(r@) =~= sels_view(v@));
    }
    r
}

/// Copies a linked field node; the copy has the same ghost value.
pub fn clone_linked_field(f: &LinkedField) -> (r: LinkedField)
    ensures
        linked_view(r) == linked_view(*f),
    decreases sels_weight(f.selections@), 2int,
{
    let r = LinkedField {
        node_id: f.node_id,
        alias: f.alias,
        definition: f.definition,
        location: f.location,
        selections: clone_selections(&f.selections),
    };
    proof {
        assert(linked_view(r) =~= linked_view(*f));
    }
    r
}

/// Copies a flattened field; the copy has the same ghost value.
pub fn clone_flat_field(f: &FlatField) -> (r: FlatField)
    ensures
        flat_view(r) == flat_view(*f),
    decreases *f,
{
    match f {
        FlatField::Linked { node, children } => {
            let r = FlatField::Linked {
                node: clone_linked_field(node),
                children: clone_flat_fields(children),
            };
            proof {
                assert(flat_view(r) =~= flat_view(*f));
            }
            r
        },
        FlatField::Scalar { node } => FlatField::Scalar {
            node: ScalarField {
                alias: node.alias,
                definition: node.definition,
                location: node.location,
            },
        },
    }
}

/// Copies a flattened field list; the copy has the same ghost value.
pub fn clone_flat_fields(v: &Vec<FlatField>) -> (r: Vec<FlatField>)
    ensures
        flat_views(r@) == flat_views(v@),
    decreases *v,
{
    let mut r: Vec<FlatField> = Vec::new();
    let mut i: usize = 0;
    while i < v.len()
        invariant
            i <= v@.len(),
            r@.len() == i,
            forall|j: int| 0 <= j < i ==> flat_view(r@[j]) == flat_view(v@[j]),
        decreases v@.len() - i,
    {
        let c = clone_flat_field(&v[i]);
        r.push(c);
        i = i + 1;
    }
    proof {
        assert(flat_views(r@) =~= flat_views(v@));
    }
    r
}

} // verus!
