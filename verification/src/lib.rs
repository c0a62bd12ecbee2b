//! Selection-merging validation for a query-language compiler.
//!
//! Given an immutable program of operations and named fragments bound to one
//! schema, this crate checks that wherever two field selections land on the
//! same response key they are compatible: same underlying field and same
//! result shape, unless the two occurrences can never apply to the same
//! concrete runtime type. Selections nest through conditions, inline
//! fragments and named-fragment spreads; the flattener resolves each shared
//! subtree once through a concurrent memoization layer, and the conflict
//! merger accumulates every diagnostic instead of stopping at the first.

pub mod cache;
pub mod diagnostics;
pub mod flat;
pub mod flatten;
pub mod ir;
pub mod laws;
pub mod merge;
pub mod validate;

pub use diagnostics::Annotation;
pub use diagnostics::AnnotationLabel;
pub use diagnostics::Diagnostic;
pub use diagnostics::Location;
pub use diagnostics::ValidationMessage;
pub use ir::Condition;
pub use ir::FieldDefinition;
pub use ir::FragmentDefinition;
pub use ir::FragmentSpread;
pub use ir::InlineFragment;
pub use ir::LinkedField;
pub use ir::OperationDefinition;
pub use ir::Program;
pub use ir::ScalarField;
pub use ir::Schema;
pub use ir::SchemaType;
pub use ir::Selection;
pub use validate::validate_selection_conflict;
pub use validate::ValidateSelectionConflict;
