//! The nine-field per-run state vector and its public-facing record.
use vstd::prelude::*;

verus! {

use crate::UNIT;

/// Per-run status vector. The four flag fields `a`, `p`, `d` and `m` are
/// logically boolean (`0` or `UNIT`); the remaining fields range over
/// `0 ..= UNIT`. All values are per-mille fixed-point fractions.
#[derive(Clone, Copy, Debug, PartialEq, Eq, Structural)]
pub struct ExtendedBits {
    /// Action readiness (flag).
    pub a: u32,
    /// Uncertainty.
    pub u: u32,
    /// Policy compliance (flag).
    pub p: u32,
    /// Error.
    pub e: u32,
    /// Drift (flag): set once a stale context item is seen, never cleared
    /// within a run.
    pub d: u32,
    /// Intervention.
    pub i: u32,
    /// Rollback.
    pub r: u32,
    /// Trust.
    pub t: u32,
    /// Meta-change (flag): set when degradation triggered a tuning proposal.
    pub m: u32,
}

/// Public-facing record with the same nine fields; the state vector converts
/// to and from it without loss.
#[derive(Clone, Copy, Debug, PartialEq, Eq, Structural)]
pub struct Bits {
    pub a: u32,
    pub u: u32,
    pub p: u32,
    pub e: u32,
    pub d: u32,
    pub i: u32,
    pub r: u32,
    pub t: u32,
    pub m: u32,
}

/// A per-mille fraction lies in the unit interval.
pub open spec fn frac_ok(v: u32) -> bool {
    v <= UNIT
}

/// A logically boolean field is either zero or one, scaled.
pub open spec fn flag_ok(v: u32) -> bool {
    v == 0 || v == UNIT
}

/// The public-facing record that mirrors a state vector field for field.
pub open spec fn bits_of(s: ExtendedBits) -> Bits {
    Bits { a: s.a, u: s.u, p: s.p, e: s.e, d: s.d, i: s.i, r: s.r, t: s.t, m: s.m }
}

/// The state vector that mirrors a public-facing record field for field.
pub open spec fn state_of(b: Bits) -> ExtendedBits {
    ExtendedBits { a: b.a, u: b.u, p: b.p, e: b.e, d: b.d, i: b.i, r: b.r, t: b.t, m: b.m }
}

impl ExtendedBits {
    /// Every field is populated within its domain.
    pub open spec fn wf(self) -> bool {
        &&& flag_ok(self.a)
        &&& frac_ok(self.u)
        &&& flag_ok(self.p)
        &&& frac_ok(self.e)
        &&& flag_ok(self.d)
        &&& frac_ok(self.i)
        &&& frac_ok(self.r)
        &&& frac_ok(self.t)
        &&& flag_ok(self.m)
    }

    /// Initial state of a run: ready and compliant, neutral trust, all else
    /// zero.
    pub fn init() -> (s: Self)
        ensures
            s == (ExtendedBits {
                a: UNIT,
                u: 0,
                p: UNIT,
                e: 0,
                d: 0,
                i: 0,
                r: 0,
                t: (UNIT / 2) as u32,
                m: 0,
            }),
            s.wf(),
    {
        ExtendedBits { a: UNIT, u: 0, p: UNIT, e: 0, d: 0, i: 0, r: 0, t: UNIT / 2, m: 0 }
    }

    /// Field-for-field conversion to the public-facing record.
    pub fn to_bits(&self) -> (b: Bits)
        ensures
            b == bits_of(*self),
    {
        Bits {
            a: self.a,
            u: self.u,
            p: self.p,
            e: self.e,
            d: self.d,
            i: self.i,
            r: self.r,
            t: self.t,
            m: self.m,
        }
    }

    /// Field-for-field conversion back from the public-facing record.
    pub fn from_bits(b: &Bits) -> (s: Self)
        ensures
            s == state_of(*b),
    {
        ExtendedBits {
            a: b.a,
            u: b.u,
            p: b.p,
            e: b.e,
            d: b.d,
            i: b.i,
            r: b.r,
            t: b.t,
            m: b.m,
        }
    }
}

impl From<ExtendedBits> for Bits {
    /// Field-for-field conversion to the public-facing record.
    fn from(s: ExtendedBits) -> (b: Bits) {
        Bits { a: s.a, u: s.u, p: s.p, e: s.e, d: s.d, i: s.i, r: s.r, t: s.t, m: s.m }
    }
}

impl vstd::std_specs::convert::FromSpecImpl<ExtendedBits> for Bits {
    open spec fn obeys_from_spec() -> bool {
        true
    }

    open spec fn from_spec(s: ExtendedBits) -> Bits {
        bits_of(s)
    }
}

/// Converting a state vector to its public-facing record and back restores
/// every field, and likewise starting from the record: the two mappings are
/// mutually inverse, so the conversion is lossless.
pub proof fn lemma_bits_round_trip(s: ExtendedBits, b: Bits)
    ensures
        state_of(bits_of(s)) == s,
        bits_of(state_of(b)) == b,
{
}

} // verus!
