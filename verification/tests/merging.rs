use selection_conflict::flat::FlatField;
use selection_conflict::merge::compare_fields;
use selection_conflict::merge::insert_field;
use selection_conflict::FieldDefinition;
use selection_conflict::LinkedField;
use selection_conflict::Location;
use selection_conflict::ScalarField;
use selection_conflict::Schema;
use selection_conflict::SchemaType;
use selection_conflict::ValidationMessage;

const ALIAS_X: u64 = 1;
const NAME_N: u64 = 10;
const NAME_M: u64 = 11;
const TY_STRING: u64 = 100;
const TY_INT: u64 = 101;
const TS_STRING: u64 = 200;
const TS_INT: u64 = 201;

const OBJ: SchemaType = SchemaType::Object(1);

/// Handles: 0 = `n: String`, 1 = `n: Int`, 2 = `m: String`, all on one
/// object type.
fn schema() -> Schema {
    Schema {
        fields: vec![
            FieldDefinition { name: NAME_N, parent_type: Some(OBJ), type_: TY_STRING, type_string: TS_STRING },
            FieldDefinition { name: NAME_N, parent_type: Some(OBJ), type_: TY_INT, type_string: TS_INT },
            FieldDefinition { name: NAME_M, parent_type: Some(OBJ), type_: TY_STRING, type_string: TS_STRING },
        ],
    }
}

fn loc(n: u64) -> Location {
    Location { file: 0, start: n, end: n + 1 }
}

fn flat_scalar(definition: usize, at: u64) -> FlatField {
    FlatField::Scalar {
        node: ScalarField { alias: Some(ALIAS_X), definition, location: loc(at) },
    }
}

#[test]
fn insert_appends_a_clean_candidate() {
    let s = schema();
    let mut acc: Vec<FlatField> = Vec::new();
    let errs = insert_field(&s, &mut acc, flat_scalar(0, 1), false);
    assert!(errs.is_empty());
    assert_eq!(acc.len(), 1);
}

#[test]
fn conflicting_candidate_is_not_appended() {
    let s = schema();
    let mut acc: Vec<FlatField> = Vec::new();
    assert!(insert_field(&s, &mut acc, flat_scalar(0, 1), false).is_empty());
    let errs = insert_field(&s, &mut acc, flat_scalar(2, 2), false);
    assert_eq!(errs.len(), 1);
    assert_eq!(acc.len(), 1);
}

#[test]
fn identical_match_keeps_earlier_findings() {
    // The accumulator holds `x: n` (as an Int field) and `x: n` (as a String
    // field); under an exclusive merge the two coexisted, since their names
    // agree. A candidate identical to the second entry is compared against
    // the first — a result-type clash under exclusivity — before the scan
    // stops at its exact match. The diagnostic found on the way must be
    // returned, the candidate must not be appended, and entries after the
    // match must never be compared (the third entry would add a second
    // diagnostic if they were).
    let s = schema();
    let mut acc = vec![flat_scalar(1, 1), flat_scalar(0, 2), flat_scalar(1, 3)];
    let errs = insert_field(&s, &mut acc, flat_scalar(0, 9), true);
    assert_eq!(errs.len(), 1);
    assert_eq!(
        errs[0].message,
        ValidationMessage::AmbiguousFieldType {
            response_key: ALIAS_X,
            l_name: NAME_N,
            r_name: NAME_N,
            l_type_string: TS_INT,
            r_type_string: TS_STRING,
        }
    );
    assert_eq!(acc.len(), 3);
}

#[test]
fn linked_against_scalar_compares_as_shape_conflict() {
    let s = schema();
    let l = FlatField::Linked {
        node: LinkedField {
            node_id: 1,
            alias: Some(ALIAS_X),
            definition: 0,
            location: loc(1),
            selections: vec![],
        },
        children: vec![],
    };
    let r = flat_scalar(1, 2);
    let errs = compare_fields(&s, &l, &r, false);
    assert_eq!(errs.len(), 1);
    match errs[0].message {
        ValidationMessage::AmbiguousFieldType { .. } => {}
        _ => panic!("expected a result-shape diagnostic"),
    }
}

#[test]
fn exclusivity_flag_tolerates_different_names() {
    let s = schema();
    let mut acc: Vec<FlatField> = Vec::new();
    assert!(insert_field(&s, &mut acc, flat_scalar(0, 1), true).is_empty());
    // `x: m` after `x: n`, both String: allowed under an exclusive parent.
    let errs = insert_field(&s, &mut acc, flat_scalar(2, 2), true);
    assert!(errs.is_empty());
    assert_eq!(acc.len(), 2);
}
