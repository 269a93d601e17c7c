//! Errors surfaced by the renderer core.

use vstd::prelude::*;

verus! {

/// A graphics-related error.
///
/// Resource loading fails with `MissingResource` when no source is known for
/// a path; `MissingDescriptorSet` reports a pipeline whose layout list lacks
/// the per-material set a material needs; `MismatchedBinding` reports a
/// descriptor layout whose binding count does not match what was supplied.
#[derive(Debug, Clone, PartialEq, Eq)]
pub enum Error {
    MissingResource(String),
    MissingDescriptorSet(u32),
    MismatchedBinding(u32, u32),
    ParseError,
    UnimplementedFeature(&'static str),
}

} // verus!
