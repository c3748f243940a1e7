//! Results over vectors, seen as results over sequences.

use vstd::prelude::*;

verus! {

/// A result holding a vector, with the vector taken as a sequence.
pub open spec fn seq_result<T, E>(r: Result<Vec<T>, E>) -> Result<Seq<T>, E> {
    match r {
        Ok(v) => Ok(v@),
        Err(e) => Err(e),
    }
}

} // verus!
