//! Constrained text newtypes: pairs of an owned, growable text value and a
//! borrowed, zero-copy view over existing text storage, such that every live
//! instance of either kind is guaranteed to satisfy a pluggable validation
//! predicate for its entire lifetime.
//!
//! The validation predicate is given by the [`Validate`](validate::Validate)
//! trait.  A view type aliases a borrowed `&str` and an owned type wraps a
//! `String`; both carry a type invariant stating that their content satisfies
//! the predicate, so holding a value of either type is itself proof that the
//! text is valid and no call boundary needs to re-validate.

pub mod as_str;
pub mod aux_values;
pub mod digits;
pub mod free_standing;
pub mod gateway;
pub mod lowercase;
pub mod new_ref_unchecked;
pub mod pneu_str;
pub mod pneu_string;
pub mod url;
pub mod validate;
pub mod value;
