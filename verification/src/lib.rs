//! A sequential text-transformation pipeline: a pipeline owns an ordered
//! list of string operations (punctuation removal, whitespace normalization,
//! case folding, n-gram extraction) and applies them left to right to an
//! input string.
//!
//! The `model` module holds the mathematical description of each
//! transformation as functions over `Seq<char>`; the `processor` module
//! holds the executable pipeline, proved against that model; the `laws`
//! module states and proves the algebraic properties of the operations.

pub mod laws;
pub mod model;
pub mod processor;

pub use processor::Operation;
pub use processor::ProcessError;
pub use processor::TextProcessor;
