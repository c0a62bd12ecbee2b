use selection_conflict::validate_selection_conflict;
use selection_conflict::AnnotationLabel;
use selection_conflict::Condition;
use selection_conflict::FieldDefinition;
use selection_conflict::FragmentDefinition;
use selection_conflict::FragmentSpread;
use selection_conflict::InlineFragment;
use selection_conflict::LinkedField;
use selection_conflict::Location;
use selection_conflict::OperationDefinition;
use selection_conflict::Program;
use selection_conflict::ScalarField;
use selection_conflict::Schema;
use selection_conflict::SchemaType;
use selection_conflict::Selection;
use selection_conflict::ValidationMessage;

// Interned string handles used by the tests.
const KEY_USER: u64 = 1;
const KEY_A: u64 = 2;
const NAME_NAME: u64 = 10;
const NAME_EMAIL: u64 = 11;
const NAME_BREED: u64 = 12;
const NAME_COLOR: u64 = 13;
const NAME_ID: u64 = 14;
const NAME_AGE: u64 = 16;
const NAME_USER: u64 = 15;
const TY_STRING: u64 = 100;
const TY_INT: u64 = 101;
const TY_USER: u64 = 102;
const TS_STRING: u64 = 200;
const TS_INT: u64 = 201;
const TS_USER: u64 = 202;

const QUERY_TYPE: SchemaType = SchemaType::Object(1);
const DOG_TYPE: SchemaType = SchemaType::Object(2);
const CAT_TYPE: SchemaType = SchemaType::Object(3);

fn def(name: u64, parent: SchemaType, ty: u64, ts: u64) -> FieldDefinition {
    FieldDefinition { name, parent_type: Some(parent), type_: ty, type_string: ts }
}

/// Field handles into `test_schema`.
const F_USER: usize = 0; // user: User on Query
const F_ID: usize = 1; // id: Int on User
const F_NAME: usize = 2; // name: String on Query
const F_EMAIL: usize = 3; // email: String on Query
const F_BREED: usize = 4; // breed: String on Dog
const F_COLOR: usize = 5; // color: String on Cat
const F_COLOR_DOG: usize = 6; // color: String on Dog
const F_AGE: usize = 7; // age: Int on Cat

fn test_schema() -> Schema {
    Schema {
        fields: vec![
            def(NAME_USER, QUERY_TYPE, TY_USER, TS_USER),
            def(NAME_ID, QUERY_TYPE, TY_INT, TS_INT),
            def(NAME_NAME, QUERY_TYPE, TY_STRING, TS_STRING),
            def(NAME_EMAIL, QUERY_TYPE, TY_STRING, TS_STRING),
            def(NAME_BREED, DOG_TYPE, TY_STRING, TS_STRING),
            def(NAME_COLOR, CAT_TYPE, TY_STRING, TS_STRING),
            def(NAME_COLOR, DOG_TYPE, TY_STRING, TS_STRING),
            def(NAME_AGE, CAT_TYPE, TY_INT, TS_INT),
        ],
    }
}

fn loc(n: u64) -> Location {
    Location { file: 0, start: n, end: n + 1 }
}

fn scalar(alias: Option<u64>, definition: usize, at: u64) -> Selection {
    Selection::ScalarField(ScalarField { alias, definition, location: loc(at) })
}

fn linked(
    node_id: u64,
    alias: Option<u64>,
    definition: usize,
    at: u64,
    selections: Vec<Selection>,
) -> Selection {
    Selection::LinkedField(LinkedField { node_id, alias, definition, location: loc(at), selections })
}

fn inline(type_condition: Option<SchemaType>, selections: Vec<Selection>) -> Selection {
    Selection::InlineFragment(InlineFragment { type_condition, selections })
}

fn spread(fragment_name: u64) -> Selection {
    Selection::FragmentSpread(FragmentSpread { fragment_name })
}

fn query(selections: Vec<Selection>) -> Program {
    Program {
        schema: test_schema(),
        operations: vec![OperationDefinition { name: 0, selections }],
        fragments: vec![],
    }
}

#[test]
fn identical_linked_fields_merge() {
    // `user { id }` selected twice at the top level: the two occurrences are
    // the same structural node, so they merge without a diagnostic.
    let p = query(vec![
        linked(1, None, F_USER, 1, vec![scalar(None, F_ID, 2)]),
        linked(2, None, F_USER, 3, vec![scalar(None, F_ID, 4)]),
    ]);
    assert!(validate_selection_conflict(&p).is_ok());
}

#[test]
fn different_fields_at_one_alias_conflict() {
    // `a: name` and `a: email` on the same object type.
    let p = query(vec![
        scalar(Some(KEY_A), F_NAME, 1),
        scalar(Some(KEY_A), F_EMAIL, 2),
    ]);
    let errs = validate_selection_conflict(&p).unwrap_err();
    assert_eq!(errs.len(), 1);
    assert_eq!(
        errs[0].message,
        ValidationMessage::AmbiguousFieldAlias {
            response_key: KEY_A,
            l_name: NAME_NAME,
            r_name: NAME_EMAIL,
        }
    );
    // The diagnostic cites both occurrences.
    assert_eq!(errs[0].location, loc(1));
    assert_eq!(errs[0].annotation.label, AnnotationLabel::OtherField);
    assert_eq!(errs[0].annotation.location, loc(2));
}

#[test]
fn exclusive_concrete_types_allow_different_fields() {
    // `... on Dog { name: breed }` and `... on Cat { name: color }` under one
    // pet interface: Dog and Cat are different concrete object types, so the
    // two fields can never both execute for one object.
    let p = query(vec![
        inline(Some(DOG_TYPE), vec![scalar(Some(NAME_NAME), F_BREED, 1)]),
        inline(Some(CAT_TYPE), vec![scalar(Some(NAME_NAME), F_COLOR, 2)]),
    ]);
    assert!(validate_selection_conflict(&p).is_ok());
}

#[test]
fn same_concrete_type_still_conflicts() {
    // Both inline fragments narrow to Dog: the two fields may both execute,
    // so the shared response key is ambiguous.
    let p = query(vec![
        inline(Some(DOG_TYPE), vec![scalar(Some(NAME_NAME), F_BREED, 1)]),
        inline(Some(DOG_TYPE), vec![scalar(Some(NAME_NAME), F_COLOR_DOG, 2)]),
    ]);
    let errs = validate_selection_conflict(&p).unwrap_err();
    assert_eq!(errs.len(), 1);
    assert_eq!(
        errs[0].message,
        ValidationMessage::AmbiguousFieldAlias {
            response_key: NAME_NAME,
            l_name: NAME_BREED,
            r_name: NAME_COLOR,
        }
    );
}

#[test]
fn shared_fragment_is_validated_once() {
    // Two spreads of one fragment: the second resolution is served from the
    // cache, and the identical fields merge silently.
    let frag = FragmentDefinition {
        name: 77,
        selections: vec![scalar(None, F_ID, 1)],
    };
    let p = Program {
        schema: test_schema(),
        operations: vec![OperationDefinition {
            name: 0,
            selections: vec![spread(77), spread(77)],
        }],
        fragments: vec![frag],
    };
    assert!(validate_selection_conflict(&p).is_ok());
}

#[test]
fn cached_fragment_fields_still_conflict_with_siblings() {
    // The first operation fills the cache; the second receives the cached
    // list and must still see its field conflict with a sibling selection.
    let frag = FragmentDefinition {
        name: 77,
        selections: vec![scalar(Some(KEY_A), F_NAME, 1)],
    };
    let p = Program {
        schema: test_schema(),
        operations: vec![
            OperationDefinition { name: 0, selections: vec![spread(77)] },
            OperationDefinition {
                name: 1,
                selections: vec![spread(77), scalar(Some(KEY_A), F_EMAIL, 9)],
            },
        ],
        fragments: vec![frag],
    };
    let errs = validate_selection_conflict(&p).unwrap_err();
    assert_eq!(errs.len(), 1);
    assert_eq!(
        errs[0].message,
        ValidationMessage::AmbiguousFieldAlias {
            response_key: KEY_A,
            l_name: NAME_NAME,
            r_name: NAME_EMAIL,
        }
    );
}

#[test]
fn scalar_against_linked_is_a_shape_conflict() {
    // Response key `user` resolved once as a scalar and once as an object.
    let p = query(vec![
        scalar(Some(KEY_USER), F_NAME, 1),
        linked(1, Some(KEY_USER), F_USER, 2, vec![scalar(None, F_ID, 3)]),
    ]);
    let errs = validate_selection_conflict(&p).unwrap_err();
    assert_eq!(errs.len(), 1);
    assert_eq!(
        errs[0].message,
        ValidationMessage::AmbiguousFieldType {
            response_key: KEY_USER,
            l_name: NAME_NAME,
            r_name: NAME_USER,
            l_type_string: TS_STRING,
            r_type_string: TS_USER,
        }
    );
    assert_eq!(errs[0].location, loc(1));
    assert_eq!(errs[0].annotation.location, loc(2));
}

#[test]
fn nested_conflicts_cite_the_nested_key() {
    // `user { a: name }` and `user { a: email }`: the outer key matches the
    // same field, so the conflict surfaces from the nested merge under `a`.
    let p = query(vec![
        linked(1, None, F_USER, 1, vec![scalar(Some(KEY_A), F_NAME, 2)]),
        linked(2, None, F_USER, 3, vec![scalar(Some(KEY_A), F_EMAIL, 4)]),
    ]);
    let errs = validate_selection_conflict(&p).unwrap_err();
    assert_eq!(errs.len(), 1);
    assert_eq!(
        errs[0].message,
        ValidationMessage::AmbiguousFieldAlias {
            response_key: KEY_A,
            l_name: NAME_NAME,
            r_name: NAME_EMAIL,
        }
    );
}

#[test]
fn condition_fields_compete_with_siblings() {
    // A runtime condition introduces no new merge scope: its fields compete
    // for response keys with their siblings.
    let p = query(vec![
        scalar(Some(KEY_A), F_NAME, 1),
        Selection::Condition(Condition { selections: vec![scalar(Some(KEY_A), F_EMAIL, 2)] }),
    ]);
    let errs = validate_selection_conflict(&p).unwrap_err();
    assert_eq!(errs.len(), 1);
}

#[test]
fn exclusive_types_require_equal_result_types() {
    // Dog and Cat are exclusive, but the same response key must keep one
    // result shape: String on one branch against Int on the other fails.
    let p = query(vec![
        inline(Some(DOG_TYPE), vec![scalar(Some(KEY_A), F_BREED, 1)]),
        inline(Some(CAT_TYPE), vec![scalar(Some(KEY_A), F_AGE, 2)]),
    ]);
    let errs = validate_selection_conflict(&p).unwrap_err();
    assert_eq!(errs.len(), 1);
    match errs[0].message {
        ValidationMessage::AmbiguousFieldType { response_key, .. } => {
            assert_eq!(response_key, KEY_A);
        }
        _ => panic!("expected a result-shape diagnostic"),
    }
}

#[test]
fn unreferenced_fragments_are_still_validated() {
    // No operation spreads the fragment; its internal conflict must still be
    // reported.
    let frag = FragmentDefinition {
        name: 5,
        selections: vec![
            scalar(Some(KEY_A), F_NAME, 1),
            scalar(Some(KEY_A), F_EMAIL, 2),
        ],
    };
    let p = Program { schema: test_schema(), operations: vec![], fragments: vec![frag] };
    let errs = validate_selection_conflict(&p).unwrap_err();
    assert_eq!(errs.len(), 1);
}

#[test]
fn conflicting_fragment_reports_at_every_spread_site() {
    // A fragment with an internal conflict is never cached: both spread
    // sites re-validate it, and the fragment's own validation runs too.
    let frag = FragmentDefinition {
        name: 5,
        selections: vec![
            scalar(Some(KEY_A), F_NAME, 1),
            scalar(Some(KEY_A), F_EMAIL, 2),
        ],
    };
    let p = Program {
        schema: test_schema(),
        operations: vec![OperationDefinition {
            name: 0,
            selections: vec![spread(5), spread(5)],
        }],
        fragments: vec![frag],
    };
    let errs = validate_selection_conflict(&p).unwrap_err();
    assert_eq!(errs.len(), 3);
    assert_eq!(errs[0], errs[1]);
    assert_eq!(errs[1], errs[2]);
}

#[test]
fn interface_declared_fields_are_not_exclusive() {
    // A field declared on an interface may execute together with one
    // declared on an object type: different underlying names at one key
    // conflict.
    let mut schema = test_schema();
    schema.fields.push(FieldDefinition {
        name: NAME_NAME,
        parent_type: Some(SchemaType::Interface(4)),
        type_: TY_STRING,
        type_string: TS_STRING,
    });
    let on_interface = schema.fields.len() - 1;
    let p = Program {
        schema,
        operations: vec![OperationDefinition {
            name: 0,
            selections: vec![
                scalar(Some(KEY_A), on_interface, 1),
                inline(Some(DOG_TYPE), vec![scalar(Some(KEY_A), F_BREED, 2)]),
            ],
        }],
        fragments: vec![],
    };
    let errs = validate_selection_conflict(&p).unwrap_err();
    assert_eq!(errs.len(), 1);
    match errs[0].message {
        ValidationMessage::AmbiguousFieldAlias { .. } => {}
        _ => panic!("expected an ambiguous-alias diagnostic"),
    }
}

#[test]
fn single_tasks_can_be_driven_separately() {
    // A surrounding pipeline may validate each operation and each fragment
    // as its own task; the aggregated diagnostics equal the whole-program
    // run's.
    let frag = FragmentDefinition {
        name: 5,
        selections: vec![
            scalar(Some(KEY_A), F_NAME, 1),
            scalar(Some(KEY_A), F_EMAIL, 2),
        ],
    };
    let p = Program {
        schema: test_schema(),
        operations: vec![OperationDefinition { name: 0, selections: vec![spread(5)] }],
        fragments: vec![frag],
    };
    let mut op_runner = selection_conflict::ValidateSelectionConflict::new();
    let op_errs = op_runner.validate_operation(&p, 0).unwrap_err();
    let mut frag_runner = selection_conflict::ValidateSelectionConflict::new();
    let frag_errs = frag_runner.validate_fragment(&p, 0).unwrap_err();
    let whole = validate_selection_conflict(&p).unwrap_err();
    let mut combined = op_errs.clone();
    combined.extend(frag_errs.clone());
    assert_eq!(combined, whole);
}

#[test]
fn union_declared_fields_are_not_exclusive() {
    // Union-typed parents are abstract: two different fields at one key,
    // one declared on a union and one on an object type, conflict.
    let mut schema = test_schema();
    schema.fields.push(FieldDefinition {
        name: NAME_NAME,
        parent_type: Some(SchemaType::Union(9)),
        type_: TY_STRING,
        type_string: TS_STRING,
    });
    let on_union = schema.fields.len() - 1;
    let p = Program {
        schema,
        operations: vec![OperationDefinition {
            name: 0,
            selections: vec![
                scalar(Some(KEY_A), on_union, 1),
                scalar(Some(KEY_A), F_EMAIL, 2),
            ],
        }],
        fragments: vec![],
    };
    assert!(validate_selection_conflict(&p).is_err());
}

#[test]
fn deeply_nested_identical_fields_merge() {
    // The same two-level subtree selected twice: identical at every nesting
    // depth, so the whole merge is silent.
    let subtree = |outer_id: u64, inner_id: u64| {
        linked(
            outer_id,
            None,
            F_USER,
            outer_id,
            vec![linked(inner_id, None, F_USER, inner_id, vec![scalar(None, F_ID, 99)])],
        )
    };
    let p = query(vec![subtree(1, 2), subtree(3, 4)]);
    assert!(validate_selection_conflict(&p).is_ok());
}

#[test]
fn empty_program_validates() {
    let p = Program { schema: test_schema(), operations: vec![], fragments: vec![] };
    assert!(validate_selection_conflict(&p).is_ok());
}

#[test]
fn validation_is_repeatable() {
    // Two runs over one program, each with its own fresh cache, produce the
    // same diagnostics.
    let build = || {
        query(vec![
            scalar(Some(KEY_A), F_NAME, 1),
            scalar(Some(KEY_A), F_EMAIL, 2),
        ])
    };
    let first = validate_selection_conflict(&build()).unwrap_err();
    let second = validate_selection_conflict(&build()).unwrap_err();
    assert_eq!(first, second);
}
