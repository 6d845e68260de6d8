//! Admission of bodies into a simulation.
//!
//! A body is admissible when its mass is strictly positive; a zero or
//! negative mass would give undefined or repulsive dynamics. The caller
//! evaluates that test on each body and hands the outcomes here, in body
//! order; this module decides whether construction goes ahead.
use vstd::prelude::*;

verus! {

/// Construction was refused: the body at `index` has a mass that is not
/// strictly positive.
#[derive(Debug, Clone, Copy, PartialEq, Eq, Structural)]
pub struct InvalidBody {
    pub index: usize,
}

/// Whether every body of the list is admissible.
pub open spec fn all_admissible(positive: Seq<bool>) -> bool {
    forall|k: int| 0 <= k < positive.len() ==> positive[k]
}

/// The first inadmissible body is at `index`.
pub open spec fn first_inadmissible(positive: Seq<bool>, index: int) -> bool {
    &&& 0 <= index < positive.len()
    &&& !positive[index]
    &&& forall|k: int| 0 <= k < index ==> positive[k]
}

/// Decides construction from the per-body mass test, `positive[k]` being
/// whether body `k` has a strictly positive mass. Succeeds exactly when all
/// bodies pass; otherwise names the first body that does not.
pub fn check_masses(positive: &Vec<bool>) -> (r: Result<(), InvalidBody>)
    ensures
        r is Ok <==> all_admissible(positive@),
        r matches Err(e) ==> first_inadmissible(positive@, e.index as int),
{
    let mut k: usize = 0;
    while k < positive.len()
        invariant
            k <= positive@.len(),
            forall|m: int| 0 <= m < k ==> positive@[m],
        decreases positive@.len() - k,
    {
        if !positive[k] {
            return Err(InvalidBody { index: k });
        }
        k = k + 1;
    }
    Ok(())
}

} // verus!
