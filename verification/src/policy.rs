//! Trust scoring from a verification verdict and the run's state.
use vstd::prelude::*;

verus! {

use crate::state::Bits;

/// Trust assigned to a verified, error-free run.
pub const TRUST_HIGH: u32 = 900;

/// Trust assigned to any other run.
pub const TRUST_LOW: u32 = 100;

/// The trust score a run earns: high when verification passed and no
/// error was recorded, low otherwise.
pub fn trust_from(passed: bool, bits: &Bits) -> (t: u32)
    ensures
        t == if passed && bits.e == 0 {
            TRUST_HIGH
        } else {
            TRUST_LOW
        },
{
    if passed && bits.e == 0 {
        TRUST_HIGH
    } else {
        TRUST_LOW
    }
}

} // verus!
