//! Diagnostics reported by the validation pass.
//!
//! All human-readable text (field names, response keys, rendered type
//! strings) is represented by interned string handles (`u64`): the consumer
//! that built the program owns the interner and renders the final messages.

use vstd::prelude::*;

verus! {

/// A source position: the file handle and the byte span of the offending
/// field definition, as recorded in the intermediate representation.
#[derive(Clone, Copy, Debug, PartialEq, Eq, Structural)]
pub struct Location {
    pub file: u64,
    pub start: u64,
    pub end: u64,
}

/// The two conflict kinds this pass can report.
#[derive(Clone, Copy, Debug, PartialEq, Eq, Structural)]
pub enum ValidationMessage {
    /// The same response key resolves to two different underlying fields
    /// that may both execute on one concrete runtime object.
    AmbiguousFieldAlias { response_key: u64, l_name: u64, r_name: u64 },
    /// The same response key resolves to two incompatible result shapes:
    /// a leaf against an object, or two leaves of different result types
    /// under mutually exclusive branches.
    AmbiguousFieldType {
        response_key: u64,
        l_name: u64,
        r_name: u64,
        l_type_string: u64,
        r_type_string: u64,
    },
}

/// The label of a secondary annotation. This pass attaches exactly one
/// annotation to each diagnostic, pointing at the other conflicting field.
#[derive(Clone, Copy, Debug, PartialEq, Eq, Structural)]
pub enum AnnotationLabel {
    OtherField,
}

/// A secondary annotation: a label and the location it points at.
#[derive(Clone, Copy, Debug, PartialEq, Eq, Structural)]
pub struct Annotation {
    pub label: AnnotationLabel,
    pub location: Location,
}

/// One diagnostic: a primary message and location, plus the secondary
/// annotation that cites the other occurrence of the response key.
#[derive(Clone, Copy, Debug, PartialEq, Eq, Structural)]
pub struct Diagnostic {
    pub message: ValidationMessage,
    pub location: Location,
    pub annotation: Annotation,
}

/// The diagnostic for two fields whose underlying names differ although both
/// may appear on the same concrete object.
pub open spec fn alias_diag(
    key: u64,
    l_name: u64,
    r_name: u64,
    l_loc: Location,
    r_loc: Location,
) -> Diagnostic {
    Diagnostic {
        message: ValidationMessage::AmbiguousFieldAlias { response_key: key, l_name, r_name },
        location: l_loc,
        annotation: Annotation { label: AnnotationLabel::OtherField, location: r_loc },
    }
}

/// The diagnostic for two fields whose result shapes disagree at one
/// response key.
pub open spec fn type_diag(
    key: u64,
    l_name: u64,
    r_name: u64,
    l_type_string: u64,
    r_type_string: u64,
    l_loc: Location,
    r_loc: Location,
) -> Diagnostic {
    Diagnostic {
        message: ValidationMessage::AmbiguousFieldType {
            response_key: key,
            l_name,
            r_name,
            l_type_string,
            r_type_string,
        },
        location: l_loc,
        annotation: Annotation { label: AnnotationLabel::OtherField, location: r_loc },
    }
}

} // verus!
