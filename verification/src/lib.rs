//! Compile-time validation of slash-command schema declarations.
//!
//! The crate reads annotated data-structure declarations — structs and enums
//! describing chat-application slash commands — through a plain syntax model
//! (see [`syntax`] and [`decl`]), validates the `#[command(...)]` attributes
//! and the declaration shape against the platform's rules, and produces the
//! normalized models that drive code generation. Every failure carries the
//! source position of the offending token.

use vstd::prelude::*;

pub mod error;
pub mod syntax;
pub mod text;
pub mod attributes;
pub mod decl;
pub mod fields;
pub mod subcommand;

verus! {

/// The deep view of a `Result`: both payloads replaced by their views.
///
/// Contracts throughout the crate relate an executable result to a spec-level
/// outcome through this function.
pub open spec fn result_view<T: DeepView, E: DeepView>(r: Result<T, E>) -> Result<T::V, E::V> {
    match r {
        Ok(t) => Ok(t.deep_view()),
        Err(e) => Err(e.deep_view()),
    }
}

} // verus!
