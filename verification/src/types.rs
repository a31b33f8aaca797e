//! Run-level records: the request policy, the result manifest and its
//! evidence payload.
use vstd::prelude::*;

verus! {

use crate::kernel::L2Params;
use crate::state::Bits;

/// Policy values carried with one request, as per-mille fractions. The
/// gate value, the maximum risk and the small-diff threshold ride along;
/// no gate of this kernel consults them.
#[derive(Clone, Copy, Debug, PartialEq, Eq, Structural)]
pub struct Policy {
    pub gamma_gate: u32,
    pub time_ms: u64,
    pub max_risk: u32,
    pub tiny_diff_loc: u32,
}

/// The evidence payload a manifest carries.
pub enum Evidence {
    /// A delegated execution: its output and how it compared with the
    /// expectation, with a snapshot of the live parameters.
    Exec {
        stdout: String,
        expected_success: bool,
        actual_success: bool,
        l2_params: L2Params,
        meta2_triggered: bool,
    },
    /// A failed post-execution re-gate, carrying its explanation.
    Clarification { stdout: String },
    /// An opaque payload handed back by a collaborator, kept as the JSON
    /// text it arrived in.
    External { json: String },
}

/// The result of one run.
pub struct Manifest {
    pub run_id: String,
    pub goal_id: String,
    pub deliverables: Vec<String>,
    pub evidence: Evidence,
    pub bits: Bits,
}

/// Two parameter snapshots hold the same configuration, retry strategies
/// compared by their text.
pub open spec fn l2_params_eq(a: L2Params, b: L2Params) -> bool {
    &&& a.ask_act_threshold == b.ask_act_threshold
    &&& a.confidence_gate_tau == b.confidence_gate_tau
    &&& a.backoff_k == b.backoff_k
    &&& a.retry_strategies@.len() == b.retry_strategies@.len()
    &&& forall|i: int|
        0 <= i < a.retry_strategies@.len() ==> a.retry_strategies@[i]@ == b.retry_strategies@[i]@
}

/// Copies a parameter snapshot for a manifest's evidence.
pub fn snapshot_l2(p: &L2Params) -> (r: L2Params)
    ensures
        l2_params_eq(r, *p),
{
    let mut retry_strategies: Vec<String> = Vec::new();
    let mut i: usize = 0;
    while i < p.retry_strategies.len()
        invariant
            i <= p.retry_strategies@.len(),
            retry_strategies@.len() == i,
            forall|k: int|
                0 <= k < i ==> retry_strategies@[k]@ == p.retry_strategies@[k]@,
        decreases p.retry_strategies@.len() - i,
    {
        retry_strategies.push(p.retry_strategies[i].clone());
        i += 1;
    }
    L2Params {
        ask_act_threshold: p.ask_act_threshold,
        confidence_gate_tau: p.confidence_gate_tau,
        backoff_k: p.backoff_k,
        retry_strategies,
    }
}

} // verus!
