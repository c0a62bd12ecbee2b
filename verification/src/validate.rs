//! The flattener and the validation driver.
//!
//! `ValidateSelectionConflict` walks every operation and every fragment of a
//! program, flattening each selection scope through the conflict merger. Two
//! memo tables make shared subtrees cheap: one keyed by fragment name, one
//! keyed by the identity of a linked field node, each holding the flattened
//! list that every later resolution shares. Every executable step is proved
//! to produce exactly the fields and diagnostics of the `flatten_sels`
//! semantics — with or without cache hits.

use vstd::prelude::*;

use crate::cache::table_entries;
use crate::cache::table_get;
use crate::cache::table_insert;
use crate::cache::table_new;
use crate::cache::MemoTable;
use crate::diagnostics::Diagnostic;
use crate::flat::clone_flat_fields;
use crate::flat::clone_linked_field;
use crate::flat::flat_view;
use crate::flat::flat_views;
use crate::flat::linked_view;
use crate::flat::FlatField;
use crate::flat::FlatView;
use crate::flatten::flatten_from;
use crate::flatten::flatten_sel;
use crate::flatten::flatten_sels;
use crate::flatten::frag_errs_from;
use crate::flatten::lemma_flatten_sels_fuel;
use crate::flatten::op_errs_from;
use crate::flatten::program_errs;
use crate::ir::find_fragment;
use crate::ir::frag_index;
use crate::ir::lemma_frag_index_self;
use crate::ir::lemma_node_in_elem;
use crate::ir::node_in_program;
use crate::ir::node_in_sel;
use crate::ir::node_in_sels;
use crate::ir::sel_in_program;
use crate::ir::sels_in_program;
use crate::ir::LinkedField;
use crate::ir::lemma_sel_weight_elem;
use crate::ir::sel_weight;
use crate::ir::sels_weight;
use crate::ir::wf_program;
use crate::ir::wf_sel;
use crate::ir::wf_sels;
use crate::ir::Program;
use crate::ir::Selection;
use crate::merge::insert_field;
use crate::merge::merge_fields;

verus! {

broadcast use vstd::map::group_map_axioms, vstd::set::group_set_axioms;

/// Whether a cached value is the flattened field list of fragment `j`,
/// computed conflict-free at some sufficient fuel.
pub open spec fn frag_entry_ok(p: Program, j: int, fl: nat, v: Seq<FlatView>) -> bool {
    &&& wf_sels(p, p.fragments@[j].selections@, fl)
    &&& flatten_sels(p, p.fragments@[j].selections@, fl).errs.len() == 0
    &&& v == flatten_sels(p, p.fragments@[j].selections@, fl).fields
}

/// Whether a cached value is the flattened sub-selection list of the node
/// `n`, cached under its identity `id` and computed conflict-free at some
/// sufficient fuel.
pub open spec fn node_entry_ok(
    p: Program,
    n: LinkedField,
    id: u64,
    fl: nat,
    v: Seq<FlatView>,
) -> bool {
    &&& node_in_program(n, p)
    &&& n.node_id == id
    &&& wf_sels(p, n.selections@, fl)
    &&& flatten_sels(p, n.selections@, fl).errs.len() == 0
    &&& v == flatten_sels(p, n.selections@, fl).fields
}

/// One validation run: the program is read-only, and the fragment cache maps
/// each fragment name, once validated without conflicts, to the shared
/// flattened field list every spread site receives.
pub struct ValidateSelectionConflict {
    fragment_cache: MemoTable,
    fields_cache: MemoTable,
}

impl ValidateSelectionConflict {
    /// Every cache entry is the conflict-free flattened list of the fragment
    /// it is keyed by.
    pub closed spec fn inv(self, p: Program) -> bool {
        &&& forall|name: u64|
            #[trigger] table_entries(self.fragment_cache).dom().contains(name) ==> {
                let j = frag_index(p, name);
                &&& 0 <= j < p.fragments@.len()
                &&& exists|fl: nat|
                    frag_entry_ok(p, j, fl, table_entries(self.fragment_cache)[name])
            }
        &&& forall|id: u64|
            #[trigger] table_entries(self.fields_cache).dom().contains(id)
                ==> exists|n: LinkedField, fl: nat|
                node_entry_ok(p, n, id, fl, table_entries(self.fields_cache)[id])
    }

    /// A fresh validation run with an empty cache, valid for any program.
    pub fn new() -> (v: ValidateSelectionConflict)
        ensures
            forall|p: Program| v.inv(p),
    {
        let v = ValidateSelectionConflict {
            fragment_cache: table_new(),
            fields_cache: table_new(),
        };
        proof {
            assert forall|p: Program| v.inv(p) by {
                assert(forall|name: u64|
                    !table_entries(v.fragment_cache).dom().contains(name));
                assert(forall|id: u64| !table_entries(v.fields_cache).dom().contains(id));
            }
        }
        v
    }

    /// Flattens one selection into the accumulator, collecting the
    /// diagnostics the conflict merger finds.
    fn validate_selection(
        &mut self,
        p: &Program,
        sel: &Selection,
        acc: &mut Vec<FlatField>,
        Ghost(fuel): Ghost<nat>,
    ) -> (errs: Vec<Diagnostic>)
        requires
            wf_program(*p),
            wf_sel(*p, *sel, fuel),
            sel_in_program(*p, *sel),
            old(self).inv(*p),
        ensures
            final(self).inv(*p),
            ({
                let o = flatten_sel(*p, *sel, fuel, flat_views(old(acc)@));
                flat_views(final(acc)@) == o.fields && errs@ == o.errs
            }),
        decreases fuel, sel_weight(*sel), 1int,
    {
        match sel {
            Selection::LinkedField(f) => {
                proof {
                    assert(node_in_sel(*f, *sel));
                    assert forall|n: LinkedField| #[trigger] node_in_sels(n, f.selections@)
                        implies node_in_program(n, *p) by {
                        assert(node_in_sel(n, *sel));
                    }
                }
                match self.validate_linked_field_selections(p, f, Ghost(fuel)) {
                    Err(e) => e,
                    Ok(children) => {
                        let node = clone_linked_field(f);
                        let ff = FlatField::Linked { node, children };
                        proof {
                            assert(flat_view(ff) == FlatView::Linked {
                                node: linked_view(*f),
                                children: flatten_sels(*p, f.selections@, fuel).fields,
                            });
                        }
                        insert_field(&p.schema, acc, ff, false)
                    },
                }
            },
            Selection::ScalarField(f) => {
                let ff = FlatField::Scalar { node: *f };
                insert_field(&p.schema, acc, ff, false)
            },
            Selection::Condition(c) => {
                proof {
                    assert forall|n: LinkedField| #[trigger] node_in_sels(n, c.selections@)
                        implies node_in_program(n, *p) by {
                        assert(node_in_sel(n, *sel));
                    }
                }
                match self.validate_selections(p, &c.selections, Ghost(fuel)) {
                    Err(e) => e,
                    Ok(fields) => merge_fields(&p.schema, acc, &fields, false),
                }
            },
            Selection::InlineFragment(f) => {
                proof {
                    assert forall|n: LinkedField| #[trigger] node_in_sels(n, f.selections@)
                        implies node_in_program(n, *p) by {
                        assert(node_in_sel(n, *sel));
                    }
                }
                match self.validate_selections(p, &f.selections, Ghost(fuel)) {
                    Err(e) => e,
                    Ok(fields) => merge_fields(&p.schema, acc, &fields, false),
                }
            },
            Selection::FragmentSpread(sp) => {
                let j = find_fragment(p, sp.fragment_name);
                let sub = self.validate_and_collect_fragment(
                    p,
                    j,
                    Ghost((fuel - 1) as nat),
                );
                match sub {
                    Err(e) => e,
                    Ok(fields) => merge_fields(&p.schema, acc, &fields, false),
                }
            },
        }
    }

    /// Flattens the selections from index `i` on into the accumulator,
    /// concatenating every selection's diagnostics.
    fn validate_from(
        &mut self,
        p: &Program,
        sels: &Vec<Selection>,
        i: usize,
        acc: &mut Vec<FlatField>,
        Ghost(fuel): Ghost<nat>,
    ) -> (errs: Vec<Diagnostic>)
        requires
            wf_program(*p),
            wf_sels(*p, sels@, fuel),
            sels_in_program(*p, sels@),
            i <= sels@.len(),
            old(self).inv(*p),
        ensures
            final(self).inv(*p),
            ({
                let o = flatten_from(*p, sels@, fuel, i as int, flat_views(old(acc)@));
                flat_views(final(acc)@) == o.fields && errs@ == o.errs
            }),
        decreases fuel, sels_weight(sels@), sels@.len() - i + 1,
    {
        if i == sels.len() {
            Vec::new()
        } else {
            proof {
                lemma_sel_weight_elem(sels@, i as int);
                assert(wf_sel(*p, sels@[i as int], fuel));
                assert forall|n: LinkedField| #[trigger] node_in_sel(n, sels@[i as int])
                    implies node_in_program(n, *p) by {
                    lemma_node_in_elem(n, sels@, i as int);
                }
            }
            let mut errs = self.validate_selection(p, &sels[i], acc, Ghost(fuel));
            let mut rest = self.validate_from(p, sels, i + 1, acc, Ghost(fuel));
            errs.append(&mut rest);
            errs
        }
    }

    /// Flattens one whole selection scope: the flattened field list on
    /// success, every diagnostic found in it otherwise.
    fn validate_selections(
        &mut self,
        p: &Program,
        sels: &Vec<Selection>,
        Ghost(fuel): Ghost<nat>,
    ) -> (r: Result<Vec<FlatField>, Vec<Diagnostic>>)
        requires
            wf_program(*p),
            wf_sels(*p, sels@, fuel),
            sels_in_program(*p, sels@),
            old(self).inv(*p),
        ensures
            final(self).inv(*p),
            ({
                let o = flatten_sels(*p, sels@, fuel);
                match r {
                    Ok(v) => o.errs.len() == 0 && flat_views(v@) == o.fields,
                    Err(e) => o.errs.len() > 0 && e@ == o.errs,
                }
            }),
        decreases fuel, sels_weight(sels@), sels@.len() + 2,
    {
        let mut acc: Vec<FlatField> = Vec::new();
        proof {
            assert(flat_views(acc@) =~= Seq::<FlatView>::empty());
        }
        let errs = self.validate_from(p, sels, 0, &mut acc, Ghost(fuel));
        if errs.len() == 0 {
            Ok(acc)
        } else {
            Err(errs)
        }
    }

    /// Resolves a linked field's flattened sub-selection list: from the
    /// per-node cache when this node was already resolved, flattening the
    /// sub-selections and filling the cache otherwise. The cache is keyed by
    /// the node's identity, so two syntactically equal but distinct nodes
    /// are cached independently.
    fn validate_linked_field_selections(
        &mut self,
        p: &Program,
        f: &LinkedField,
        Ghost(fuel): Ghost<nat>,
    ) -> (r: Result<Vec<FlatField>, Vec<Diagnostic>>)
        requires
            wf_program(*p),
            wf_sels(*p, f.selections@, fuel),
            node_in_program(*f, *p),
            sels_in_program(*p, f.selections@),
            old(self).inv(*p),
        ensures
            final(self).inv(*p),
            ({
                let o = flatten_sels(*p, f.selections@, fuel);
                match r {
                    Ok(v) => o.errs.len() == 0 && flat_views(v@) == o.fields,
                    Err(e) => o.errs.len() > 0 && e@ == o.errs,
                }
            }),
        decreases fuel, sels_weight(f.selections@) + 1, 0int,
    {
        match table_get(&self.fields_cache, f.node_id) {
            Some(v) => {
                proof {
                    let entry = table_entries(self.fields_cache)[f.node_id];
                    let (n, fl): (LinkedField, nat) = choose|n: LinkedField, fl: nat|
                        node_entry_ok(*p, n, f.node_id, fl, entry);
                    assert(n == *f);
                    lemma_flatten_sels_fuel(*p, f.selections@, fl, fuel);
                }
                Ok(v)
            },
            None => {
                match self.validate_selections(p, &f.selections, Ghost(fuel)) {
                    Err(e) => Err(e),
                    Ok(fields) => {
                        let copy = clone_flat_fields(&fields);
                        let ghost pre = table_entries(self.fields_cache);
                        let ghost mid = *self;
                        table_insert(&mut self.fields_cache, f.node_id, copy);
                        proof {
                            assert(node_entry_ok(
                                *p,
                                *f,
                                f.node_id,
                                fuel,
                                flat_views(fields@),
                            ));
                            assert forall|id: u64|
                                #[trigger] table_entries(
                                    self.fields_cache,
                                ).dom().contains(id) implies exists|n: LinkedField, fl: nat|
                                node_entry_ok(
                                    *p,
                                    n,
                                    id,
                                    fl,
                                    table_entries(self.fields_cache)[id],
                                ) by {
                                if id == f.node_id {
                                    assert(node_entry_ok(
                                        *p,
                                        *f,
                                        id,
                                        fuel,
                                        table_entries(self.fields_cache)[id],
                                    ));
                                } else {
                                    assert(pre.dom().contains(id));
                                    assert(mid.inv(*p));
                                    assert(table_entries(self.fields_cache)[id] == pre[id]);
                                }
                            }
                        }
                        Ok(fields)
                    },
                }
            },
        }
    }

    /// Resolves a fragment's flattened field list: from the cache when the
    /// fragment was already validated, flattening it and filling the cache
    /// otherwise. A fragment with conflicts is not cached, so each spread
    /// site reports its diagnostics again, exactly as recomputing would.
    fn validate_and_collect_fragment(
        &mut self,
        p: &Program,
        j: usize,
        Ghost(fuel): Ghost<nat>,
    ) -> (r: Result<Vec<FlatField>, Vec<Diagnostic>>)
        requires
            wf_program(*p),
            j < p.fragments@.len(),
            wf_sels(*p, p.fragments@[j as int].selections@, fuel),
            old(self).inv(*p),
        ensures
            final(self).inv(*p),
            ({
                let o = flatten_sels(*p, p.fragments@[j as int].selections@, fuel);
                match r {
                    Ok(v) => o.errs.len() == 0 && flat_views(v@) == o.fields,
                    Err(e) => o.errs.len() > 0 && e@ == o.errs,
                }
            }),
        decreases fuel, sels_weight(p.fragments@[j as int].selections@) + 1, 0int,
    {
        let name = p.fragments[j].name;
        proof {
            lemma_frag_index_self(*p, j as int);
        }
        match table_get(&self.fragment_cache, name) {
            Some(v) => {
                proof {
                    let entry = table_entries(self.fragment_cache)[name];
                    let fl = choose|fl: nat| frag_entry_ok(*p, j as int, fl, entry);
                    lemma_flatten_sels_fuel(*p, p.fragments@[j as int].selections@, fl, fuel);
                }
                Ok(v)
            },
            None => {
                match self.validate_selections(p, &p.fragments[j].selections, Ghost(fuel)) {
                    Err(e) => Err(e),
                    Ok(fields) => {
                        let copy = clone_flat_fields(&fields);
                        let ghost pre = table_entries(self.fragment_cache);
                        let ghost mid = *self;
                        table_insert(&mut self.fragment_cache, name, copy);
                        proof {
                            assert(frag_entry_ok(*p, j as int, fuel, flat_views(fields@)));
                            assert forall|n2: u64|
                                #[trigger] table_entries(
                                    self.fragment_cache,
                                ).dom().contains(n2) implies {
                                let j2 = frag_index(*p, n2);
                                &&& 0 <= j2 < p.fragments@.len()
                                &&& exists|fl: nat|
                                    frag_entry_ok(
                                        *p,
                                        j2,
                                        fl,
                                        table_entries(self.fragment_cache)[n2],
                                    )
                            } by {
                                if n2 == name {
                                    assert(frag_entry_ok(
                                        *p,
                                        frag_index(*p, n2),
                                        fuel,
                                        table_entries(self.fragment_cache)[n2],
                                    ));
                                } else {
                                    assert(pre.dom().contains(n2));
                                    assert(mid.inv(*p));
                                    assert(table_entries(self.fragment_cache)[n2] == pre[n2]);
                                }
                            }
                        }
                        Ok(fields)
                    },
                }
            },
        }
    }

    /// Validates one operation: its flattened fields are not kept, only the
    /// diagnostics matter.
    pub fn validate_operation(&mut self, p: &Program, k: usize) -> (r: Result<(), Vec<Diagnostic>>)
        requires
            wf_program(*p),
            k < p.operations@.len(),
            old(self).inv(*p),
        ensures
            final(self).inv(*p),
            ({
                let o = flatten_sels(
                    *p,
                    p.operations@[k as int].selections@,
                    p.fragments@.len() as nat,
                );
                match r {
                    Ok(_) => o.errs.len() == 0,
                    Err(e) => o.errs.len() > 0 && e@ == o.errs,
                }
            }),
    {
        match self.validate_selections(
            p,
            &p.operations[k].selections,
            Ghost(p.fragments@.len() as nat),
        ) {
            Ok(_) => Ok(()),
            Err(e) => Err(e),
        }
    }

    /// Validates one fragment on its own, as the driver does for fragments
    /// that no operation spreads; its flattened list is kept only in the
    /// cache.
    pub fn validate_fragment(&mut self, p: &Program, i: usize) -> (r: Result<
        (),
        Vec<Diagnostic>,
    >)
        requires
            wf_program(*p),
            i < p.fragments@.len(),
            old(self).inv(*p),
        ensures
            final(self).inv(*p),
            ({
                let o = flatten_sels(
                    *p,
                    p.fragments@[i as int].selections@,
                    p.fragments@.len() as nat,
                );
                match r {
                    Ok(_) => o.errs.len() == 0,
                    Err(e) => o.errs.len() > 0 && e@ == o.errs,
                }
            }),
    {
        match self.validate_and_collect_fragment(p, i, Ghost(p.fragments@.len() as nat)) {
            Ok(_) => Ok(()),
            Err(e) => Err(e),
        }
    }

    /// Validates the operations from index `k` on, concatenating all their
    /// diagnostics.
    fn validate_operations_from(&mut self, p: &Program, k: usize) -> (errs: Vec<Diagnostic>)
        requires
            wf_program(*p),
            k <= p.operations@.len(),
            old(self).inv(*p),
        ensures
            final(self).inv(*p),
            errs@ == op_errs_from(*p, k as int),
        decreases p.operations@.len() - k,
    {
        if k == p.operations.len() {
            Vec::new()
        } else {
            let mut errs = match self.validate_operation(p, k) {
                Ok(_) => Vec::new(),
                Err(e) => e,
            };
            let mut rest = self.validate_operations_from(p, k + 1);
            errs.append(&mut rest);
            proof {
                assert(errs@ =~= op_errs_from(*p, k as int));
            }
            errs
        }
    }

    /// Validates the fragments from index `i` on, whether or not any
    /// operation spreads them, concatenating all their diagnostics.
    fn validate_fragments_from(&mut self, p: &Program, i: usize) -> (errs: Vec<Diagnostic>)
        requires
            wf_program(*p),
            i <= p.fragments@.len(),
            old(self).inv(*p),
        ensures
            final(self).inv(*p),
            errs@ == frag_errs_from(*p, i as int),
        decreases p.fragments@.len() - i,
    {
        if i == p.fragments.len() {
            Vec::new()
        } else {
            let mut errs = match self.validate_fragment(p, i) {
                Ok(_) => Vec::new(),
                Err(e) => e,
            };
            let mut rest = self.validate_fragments_from(p, i + 1);
            errs.append(&mut rest);
            proof {
                assert(errs@ =~= frag_errs_from(*p, i as int));
            }
            errs
        }
    }

    /// Validates every operation and every fragment of the program,
    /// aggregating the diagnostics of all of them: a conflict in one scope
    /// never suppresses the conflicts of another.
    pub fn validate_program(&mut self, p: &Program) -> (r: Result<(), Vec<Diagnostic>>)
        requires
            wf_program(*p),
            old(self).inv(*p),
        ensures
            final(self).inv(*p),
            ({
                let e = program_errs(*p);
                match r {
                    Ok(_) => e.len() == 0,
                    Err(v) => e.len() > 0 && v@ == e,
                }
            }),
    {
        let mut errs = self.validate_operations_from(p, 0);
        let mut frag_errs = self.validate_fragments_from(p, 0);
        errs.append(&mut frag_errs);
        proof {
            assert(errs@ =~= program_errs(*p));
        }
        if errs.len() == 0 {
            Ok(())
        } else {
            Err(errs)
        }
    }
}

/// Validates that every two field selections landing on the same response
/// key anywhere in the program are compatible. Returns `Ok` exactly when no
/// conflict exists; otherwise every diagnostic of the run, in scope order.
///
/// The program must be well formed: every fragment spread names an existing
/// fragment, fragment names are unique, and spreads do not form cycles —
/// all guaranteed by the earlier validation passes this one runs after.
pub fn validate_selection_conflict(program: &Program) -> (r: Result<(), Vec<Diagnostic>>)
    requires
        wf_program(*program),
    ensures
        ({
            let e = program_errs(*program);
            match r {
                Ok(_) => e.len() == 0,
                Err(v) => e.len() > 0 && v@ == e,
            }
        }),
{
    let mut validator = ValidateSelectionConflict::new();
    validator.validate_program(program)
}

} // verus!
