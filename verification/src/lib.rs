//! Reconciliation of a desired key-value registry against the registry that
//! is currently deployed.
//!
//! [`reconcile`] compares two maps over the same keys and returns the edits
//! that bring the current one in line with the desired one: the keys to
//! delete and the entries to write. Values are compared by their canonical
//! text (see [`Canonical`]), never by structure. [`diff`] does the same for
//! values that only have a `Debug` text.
//!
//! - [`canonical`]: canonical texts, for the value types that have one of
//!   their own and for values that the caller renders.
//! - [`model`]: the classification of keys and the edits that follow from
//!   it, as mathematical maps and sets.
//! - [`reconciler`]: the reconciler itself.
//! - [`laws`]: what holds of every reconciliation.
//! - [`listing`]: the step that walks a paged listing to its end.
//! - [`pools`]: planning the move of liquidity pools from one exchange name
//!   to another.

pub mod canonical;
pub mod laws;
pub mod listing;
pub mod model;
pub mod pools;
pub mod reconciler;

pub use canonical::Canonical;
pub use canonical::Rendered;
pub use reconciler::diff;
pub use reconciler::reconcile;
