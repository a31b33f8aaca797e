//! Metacognitive control kernel for a goal-execution service.
//!
//! A run of the engine carries a nine-field state vector through admission
//! gating, delegated execution, verification, trust scoring and adaptive
//! self-tuning. Field values are fixed-point fractions scaled by 1000
//! (per-mille), so a logical value of `0.9` is stored as `900`.
use vstd::prelude::*;

pub mod api;
pub mod executor;
pub mod history;
pub mod integrations;
pub mod kernel;
pub mod lm;
pub mod meta_prompt;
pub mod nstar;
pub mod policy;
pub mod research;
pub mod run;
pub mod state;
pub mod textutil;
pub mod timefmt;
pub mod types;

pub use state::Bits;
pub use state::ExtendedBits;

verus! {

/// Scale of the fixed-point state fields: `1000` stands for the value one.
pub const UNIT: u32 = 1000;

} // verus!

