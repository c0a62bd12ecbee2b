//! The intermediate representation the validation consumes.
//!
//! The program and its schema are read-only inputs. Names, aliases and
//! rendered type strings are interned string handles (`u64`); field
//! definitions are referenced by their index in the schema's field table.

use vstd::prelude::*;

use crate::diagnostics::Location;

verus! {

broadcast use
    vstd::seq::axiom_seq_index_decreases,
    vstd::seq::axiom_seq_subrange_decreases,
    vstd::std_specs::vec::axiom_vec_index_decreases,
    vstd::std_specs::vec::axiom_vec_decreases_to_view;

/// A schema type as the validation reads it: what matters is the identity of
/// the type and whether it is a concrete object type, since only fields
/// declared on two different concrete object types are mutually exclusive.
#[derive(Clone, Copy, Debug, PartialEq, Eq, Structural)]
pub enum SchemaType {
    /// A concrete object type.
    Object(u64),
    /// An abstract interface type.
    Interface(u64),
    /// An abstract union type.
    Union(u64),
}

/// What the schema provider returns for a field definition handle: the
/// field's declared name, the type that declares it, the identity of its
/// result type, and the rendered text of that result type (an interned
/// handle, used only inside diagnostics).
#[derive(Clone, Copy, Debug)]
pub struct FieldDefinition {
    pub name: u64,
    pub parent_type: Option<SchemaType>,
    pub type_: u64,
    pub type_string: u64,
}

/// The schema: a read-only table of field definitions, indexed by the
/// handles stored in the selections.
pub struct Schema {
    pub fields: Vec<FieldDefinition>,
}

/// A field whose result is an object carrying further selections.
///
/// `node_id` is a node identity assigned when the representation was built:
/// distinct nodes carry distinct identities even when they are syntactically
/// equal, and the flattener's per-node memoization is keyed by it.
pub struct LinkedField {
    pub node_id: u64,
    pub alias: Option<u64>,
    pub definition: usize,
    pub location: Location,
    pub selections: Vec<Selection>,
}

/// A leaf field with no further selections.
#[derive(Clone, Copy, Debug)]
pub struct ScalarField {
    pub alias: Option<u64>,
    pub definition: usize,
    pub location: Location,
}

/// A runtime-condition wrapper around nested selections. The guard itself is
/// irrelevant to merging, so it is not represented: the nested fields compete
/// for response keys with their siblings either way.
pub struct Condition {
    pub selections: Vec<Selection>,
}

/// A type-narrowing wrapper around nested selections. Like a condition it
/// introduces no new merge scope.
pub struct InlineFragment {
    pub type_condition: Option<SchemaType>,
    pub selections: Vec<Selection>,
}

/// A reference to a named fragment.
#[derive(Clone, Copy, Debug)]
pub struct FragmentSpread {
    pub fragment_name: u64,
}

/// One selection in a selection list.
pub enum Selection {
    LinkedField(LinkedField),
    ScalarField(ScalarField),
    Condition(Condition),
    InlineFragment(InlineFragment),
    FragmentSpread(FragmentSpread),
}

/// A named, reusable selection list. The name is the memoization key.
pub struct FragmentDefinition {
    pub name: u64,
    pub selections: Vec<Selection>,
}

/// A top-level operation: validated once per run, never cached.
pub struct OperationDefinition {
    pub name: u64,
    pub selections: Vec<Selection>,
}

/// The immutable input of one validation run: the operations and the named
/// fragments, bound to one schema.
pub struct Program {
    pub schema: Schema,
    pub operations: Vec<OperationDefinition>,
    pub fragments: Vec<FragmentDefinition>,
}

/// The field definition a handle refers to; a fixed placeholder when the
/// handle is out of range (well-formed programs never are).
pub open spec fn field_def(s: Schema, handle: usize) -> FieldDefinition {
    if handle < s.fields@.len() {
        s.fields@[handle as int]
    } else {
        FieldDefinition { name: 0, parent_type: None, type_: 0, type_string: 0 }
    }
}

/// Looks a field definition up in the schema; total, mirroring `field_def`.
pub fn lookup_field_def(s: &Schema, handle: usize) -> (r: FieldDefinition)
    ensures
        r == field_def(*s, handle),
{
    if handle < s.fields.len() {
        s.fields[handle]
    } else {
        FieldDefinition { name: 0, parent_type: None, type_: 0, type_string: 0 }
    }
}

/// The index of the first fragment named `name` at or after `i`, or -1.
pub open spec fn frag_index_from(p: Program, name: u64, i: int) -> int
    decreases p.fragments@.len() - i,
{
    if i < 0 || i >= p.fragments@.len() {
        -1
    } else if p.fragments@[i].name == name {
        i
    } else {
        frag_index_from(p, name, i + 1)
    }
}

/// The index of the first fragment named `name`, or -1 when there is none.
pub open spec fn frag_index(p: Program, name: u64) -> int {
    frag_index_from(p, name, 0)
}

/// The structural size of one selection subtree.
pub open spec fn sel_weight(s: Selection) -> nat
    decreases s,
{
    match s {
        Selection::LinkedField(f) => 1 + sels_weight(f.selections@),
        Selection::ScalarField(_) => 1,
        Selection::Condition(c) => 1 + sels_weight(c.selections@),
        Selection::InlineFragment(f) => 1 + sels_weight(f.selections@),
        Selection::FragmentSpread(_) => 1,
    }
}

/// The structural size of a selection list; always positive.
pub open spec fn sels_weight(q: Seq<Selection>) -> nat
    decreases q,
{
    if q.len() == 0 {
        1
    } else {
        1 + sel_weight(q[0]) + sels_weight(q.drop_first())
    }
}

/// Each selection weighs less than the list holding it.
pub proof fn lemma_sel_weight_elem(q: Seq<Selection>, i: int)
    requires
        0 <= i < q.len(),
    ensures
        sel_weight(q[i]) < sels_weight(q),
    decreases i,
{
    if i > 0 {
        lemma_sel_weight_elem(q.drop_first(), i - 1);
        assert(q.drop_first()[i - 1] == q[i]);
    }
}

/// Whether one selection is well formed at the given spread-nesting fuel:
/// every field handle could be anything (lookups are total), but every
/// fragment spread must name an existing fragment, and chains of spreads
/// must bottom out before the fuel runs dry. A program that passed the
/// earlier validation passes (fragments all defined, no spread cycles)
/// satisfies this with fuel equal to the number of fragments.
pub open spec fn wf_sel(p: Program, s: Selection, fuel: nat) -> bool
    decreases fuel, sel_weight(s), 0int,
{
    match s {
        Selection::LinkedField(f) => wf_sels(p, f.selections@, fuel),
        Selection::ScalarField(_) => true,
        Selection::Condition(c) => wf_sels(p, c.selections@, fuel),
        Selection::InlineFragment(f) => wf_sels(p, f.selections@, fuel),
        Selection::FragmentSpread(sp) => {
            let j = frag_index(p, sp.fragment_name);
            0 <= j && fuel > 0 && wf_sels(
                p,
                p.fragments@[j].selections@,
                (fuel - 1) as nat,
            )
        },
    }
}

/// Whether every selection in the list is well formed at the given fuel.
pub open spec fn wf_sels(p: Program, q: Seq<Selection>, fuel: nat) -> bool
    decreases fuel, sels_weight(q), 1int,
    via wf_sels_decreases
{
    forall|i: int| 0 <= i < q.len() ==> wf_sel(p, q[i], fuel)
}

#[via_fn]
proof fn wf_sels_decreases(p: Program, q: Seq<Selection>, fuel: nat) {
    assert forall|i: int| 0 <= i < q.len() implies sel_weight(q[i]) < sels_weight(q) by {
        lemma_sel_weight_elem(q, i);
    }
}

/// Whether the program is a valid input for the validation: fragment names
/// are unique (the fragment table is a map keyed by name), and every
/// selection list is well formed with the number of fragments as fuel.
pub open spec fn wf_program(p: Program) -> bool {
    &&& forall|i: int, j: int|
        0 <= i < j < p.fragments@.len() ==> p.fragments@[i].name != p.fragments@[j].name
    &&& forall|k: int|
        0 <= k < p.operations@.len() ==> wf_sels(
            p,
            #[trigger] p.operations@[k].selections@,
            p.fragments@.len() as nat,
        )
    &&& forall|i: int|
        0 <= i < p.fragments@.len() ==> wf_sels(
            p,
            #[trigger] p.fragments@[i].selections@,
            p.fragments@.len() as nat,
        )
    &&& distinct_node_ids(p)
}


/// Whether the linked field node `n` occurs in the selection `s`, at any
/// nesting depth (not following fragment spreads).
pub open spec fn node_in_sel(n: LinkedField, s: Selection) -> bool
    decreases s,
{
    match s {
        Selection::LinkedField(f) => f == n || node_in_sels(n, f.selections@),
        Selection::ScalarField(_) => false,
        Selection::Condition(c) => node_in_sels(n, c.selections@),
        Selection::InlineFragment(f) => node_in_sels(n, f.selections@),
        Selection::FragmentSpread(_) => false,
    }
}

/// Whether the linked field node `n` occurs in the selection list `q`.
pub open spec fn node_in_sels(n: LinkedField, q: Seq<Selection>) -> bool
    decreases q,
{
    q.len() > 0 && (node_in_sel(n, q[0]) || node_in_sels(n, q.drop_first()))
}

/// A node occurring in one selection occurs in any list holding it.
pub proof fn lemma_node_in_elem(n: LinkedField, q: Seq<Selection>, i: int)
    requires
        0 <= i < q.len(),
        node_in_sel(n, q[i]),
    ensures
        node_in_sels(n, q),
    decreases i,
{
    if i > 0 {
        lemma_node_in_elem(n, q.drop_first(), i - 1);
        assert(q.drop_first()[i - 1] == q[i]);
    }
}

/// Whether the linked field node `n` occurs anywhere in the program.
pub open spec fn node_in_program(n: LinkedField, p: Program) -> bool {
    ||| exists|k: int|
        0 <= k < p.operations@.len() && node_in_sels(n, #[trigger] p.operations@[k].selections@)
    ||| exists|i: int|
        0 <= i < p.fragments@.len() && node_in_sels(n, #[trigger] p.fragments@[i].selections@)
}

/// Whether every linked field node of the selection occurs in the program:
/// what a scope handed to the flattener must satisfy, so that the per-node
/// memoization can rely on the program's node identities.
pub open spec fn sel_in_program(p: Program, s: Selection) -> bool {
    forall|n: LinkedField| #[trigger] node_in_sel(n, s) ==> node_in_program(n, p)
}

/// Whether every linked field node of the list occurs in the program.
pub open spec fn sels_in_program(p: Program, q: Seq<Selection>) -> bool {
    forall|n: LinkedField| #[trigger] node_in_sels(n, q) ==> node_in_program(n, p)
}

/// Whether node identities identify nodes: two occurrences carrying one
/// identity are the same node, so two syntactically equal but distinct nodes
/// always carry distinct identities.
pub open spec fn distinct_node_ids(p: Program) -> bool {
    forall|n1: LinkedField, n2: LinkedField|
        #[trigger] node_in_program(n1, p) && #[trigger] node_in_program(n2, p) && n1.node_id
            == n2.node_id ==> n1 == n2
}

/// `frag_index_from` finds the first occurrence: a later search start that
/// skips only non-matching names finds the same fragment.
pub proof fn lemma_frag_index_first(p: Program, name: u64, i: int, j: int)
    requires
        0 <= i <= j < p.fragments@.len(),
        p.fragments@[j].name == name,
        forall|k: int| i <= k < j ==> p.fragments@[k].name != name,
    ensures
        frag_index_from(p, name, i) == j,
    decreases j - i,
{
    if i < j {
        lemma_frag_index_first(p, name, i + 1, j);
    }
}

/// With unique fragment names, looking a fragment's own name up finds it.
pub proof fn lemma_frag_index_self(p: Program, j: int)
    requires
        0 <= j < p.fragments@.len(),
        forall|a: int, b: int|
            0 <= a < b < p.fragments@.len() ==> p.fragments@[a].name != p.fragments@[b].name,
    ensures
        frag_index(p, p.fragments@[j].name) == j,
{
    lemma_frag_index_first(p, p.fragments@[j].name, 0, j);
}

/// Finds the first fragment with the given name.
pub fn find_fragment(p: &Program, name: u64) -> (j: usize)
    requires
        frag_index(*p, name) >= 0,
    ensures
        j == frag_index(*p, name),
        j < p.fragments@.len(),
        p.fragments@[j as int].name == name,
{
    let mut i: usize = 0;
    while i < p.fragments.len()
        invariant
            0 <= i <= p.fragments@.len(),
            frag_index(*p, name) >= 0,
            frag_index_from(*p, name, i as int) == frag_index(*p, name),
            forall|k: int| 0 <= k < i ==> p.fragments@[k].name != name,
        decreases p.fragments@.len() - i,
    {
        if p.fragments[i].name == name {
            return i;
        }
        i = i + 1;
    }
    proof {
        assert(frag_index_from(*p, name, i as int) == -1);
    }
    unreached()
}

} // verus!
