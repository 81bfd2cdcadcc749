//! Typed statements for the textual assembly listing of one function:
//! classification of raw lines, source-location tracking, and rendering.
use vstd::prelude::*;

pub mod ast;
pub mod function;
pub mod laws;
pub mod text;

verus! {

} // verus!
