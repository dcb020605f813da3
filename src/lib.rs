//! Indentation-scoped context extraction over the lines of a text file, with
//! a plain offset/limit slice mode beside it.
use vstd::prelude::*;

pub mod block;
pub mod cli;
pub mod defaults;
pub mod error;
pub mod lines;
pub mod slice;
pub mod text;
pub mod tools;

verus! {

} // verus!
