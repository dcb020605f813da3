//! Defaults of the read request's optional arguments.
use vstd::prelude::*;

verus! {

/// First line read when no offset is given.
pub fn offset() -> (r: usize)
    ensures
        r == 1,
{
    1
}

/// Number of lines read when no limit is given.
pub fn limit() -> (r: usize)
    ensures
        r == 2000,
{
    2000
}

/// Levels the indentation scan may climb when none is given: no bound.
pub fn max_levels() -> (r: usize)
    ensures
        r == 0,
{
    0
}

/// Whether siblings at the threshold depth are kept when not said.
pub fn include_siblings() -> (r: bool)
    ensures
        !r,
{
    false
}

/// Whether a comment header above the block is kept when not said.
pub fn include_header() -> (r: bool)
    ensures
        r,
{
    true
}

} // verus!
