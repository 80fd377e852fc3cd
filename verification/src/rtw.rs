//! A small shared helper.

use vstd::prelude::*;
use crate::fixed::Fx;

verus! {

/// Clamps a scalar into `[lower, upper]`.
pub fn clamp(x: Fx, lower: Fx, upper: Fx) -> (r: Fx)
    requires
        lower@ <= upper@,
    ensures
        r@ == if x@ < lower@ {
            lower@
        } else if x@ > upper@ {
            upper@
        } else {
            x@
        },
{
    x.clamp(lower, upper)
}

} // verus!
