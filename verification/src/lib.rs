//! Renders a human-readable, colorized difference between two blocks of text.
//!
//! The line-level and character-level alignments come from the `diff` crate;
//! terminal styling comes from the `colored` crate.  Everything between the
//! two — which lines to show, how to collapse long unchanged runs, and how to
//! highlight a changed line pair — is specified and verified here.

pub mod laws;
pub mod model;
pub mod rows;
pub mod outside;
pub mod printer;
pub mod render;
pub mod spans;

use vstd::prelude::*;

verus! {

/// How many unchanged lines of context are displayed around each change.
pub const CONTEXT: usize = 2;

} // verus!
