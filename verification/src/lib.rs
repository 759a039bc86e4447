//! Filtering text through an ordered chain of regular expressions.
//!
//! A chain is a list of stages. Each stage searches the candidate text it is
//! handed; a stage that declares a capture group named `out` hands only the
//! text captured by that group to the next stage, any other stage hands its
//! candidate on untouched. A text survives when every stage matched.

pub mod engine;
pub mod stage;
pub mod chain;
pub mod input;
pub mod laws;

