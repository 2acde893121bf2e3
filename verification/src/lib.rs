//! A small fetch-mediator library: a state holder for the last successfully
//! fetched network address, with a dirty flag, a display helper, and a
//! verified parser for the one-key JSON body `{"origin": "<string>"}` that
//! the address service returns.

pub mod json;
pub mod mediator;

use vstd::prelude::*;

verus! {

/// Sum of two sizes; the caller keeps the sum within the machine limit.
pub fn add(left: usize, right: usize) -> (r: usize)
    requires
        left + right <= usize::MAX,
    ensures
        r == left + right,
{
    left + right
}

} // verus!
