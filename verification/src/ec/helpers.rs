//! Helper functions for EC operations.
use crate::ec::negated_point;
use crate::types::G1Point;
use vstd::prelude::*;

verus! {

/// Negate a G1 point (compute -P by negating Y coordinate)
pub fn negate(pt: &G1Point) -> (r: G1Point)
    ensures
        r.bytes@ == negated_point(pt.bytes@),
{
    crate::ec::negate(pt)
}

} // verus!
