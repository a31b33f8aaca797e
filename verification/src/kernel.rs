//! The adaptive layer: live operating parameters, the safety envelope, the
//! two admission predicates, degradation detection and bounded self-tuning
//! proposals.
use vstd::prelude::*;

verus! {

use crate::UNIT;
use crate::state::ExtendedBits;
use crate::textutil::permille_chars;
use crate::textutil::permille_str;

/// Live operating parameters, shared across runs and occasionally targeted
/// by tuning proposals. Thresholds are per-mille fractions.
pub struct L2Params {
    pub ask_act_threshold: u32,
    pub confidence_gate_tau: u32,
    pub backoff_k: u32,
    pub retry_strategies: Vec<String>,
}

/// The safety envelope: read-only bounds on what a proposal may suggest.
/// All fractions are per-mille.
pub struct L3Rules {
    pub evidence_coverage_min: u32,
    pub rollback_rate_max: u32,
    pub weekly_param_delta_max: u32,
    pub shadow_rollout_pct: u32,
}

/// The adaptive kernel: operating parameters plus safety envelope.
pub struct KernelLoop {
    pub l2_params: L2Params,
    pub l3_rules: L3Rules,
}

/// One bounded, never auto-applied change suggestion.
pub struct Meta2Proposal {
    pub symptom: String,
    pub hypothesis: String,
    pub change: Meta2Change,
    pub shadow_pct: u32,
    pub rollback_condition: String,
}

/// The tagged change a proposal carries, with old and new values.
pub enum Meta2Change {
    ConfidenceGate { old_tau: u32, new_tau: u32 },
    BackoffStrategy { old_k: u32, new_k: u32 },
    AskActThreshold { old_threshold: u32, new_threshold: u32 },
}

/// The admission predicate: ready, compliant and free of drift.
pub open spec fn admission_ok(bits: ExtendedBits) -> bool {
    bits.a >= UNIT && bits.p >= UNIT && bits.d == 0
}

/// The history value at `i`, with an assumed baseline of one for indices
/// before the start of history.
pub open spec fn history_at(h: Seq<u32>, i: int) -> int {
    if 0 <= i < h.len() {
        h[i] as int
    } else {
        UNIT as int
    }
}

/// The degrade-twice rule: at least two points, and the two most recent
/// steps both strictly decline (the point before them counts as the
/// baseline of one when history is that short).
pub open spec fn degradation(h: Seq<u32>) -> bool {
    &&& h.len() >= 2
    &&& history_at(h, h.len() - 3) > history_at(h, h.len() - 2)
    &&& history_at(h, h.len() - 2) > history_at(h, h.len() - 1)
}

/// The confidence-gate value a proposal suggests: lowered by `0.05`,
/// floored at `0.5`.
pub open spec fn lowered_tau(tau: int) -> int {
    if tau - 50 >= 500 {
        tau - 50
    } else {
        500
    }
}

impl KernelLoop {
    /// The shipped configuration: the values `new` establishes.
    pub open spec fn is_shipped(self) -> bool {
        &&& self.l2_params.ask_act_threshold == 800
        &&& self.l2_params.confidence_gate_tau == 700
        &&& self.l2_params.backoff_k == 3
        &&& self.l2_params.retry_strategies@.len() == 2
        &&& self.l2_params.retry_strategies@[0]@ == "cache"@
        &&& self.l2_params.retry_strategies@[1]@ == "alt_api"@
        &&& self.l3_rules.evidence_coverage_min == 900
        &&& self.l3_rules.rollback_rate_max == 80
        &&& self.l3_rules.weekly_param_delta_max == 150
        &&& self.l3_rules.shadow_rollout_pct == 200
    }

    /// The kernel's shipped configuration.
    pub fn new() -> (k: Self)
        ensures
            k.is_shipped(),
    {
        let mut retry_strategies: Vec<String> = Vec::new();
        retry_strategies.push(String::from_str("cache"));
        retry_strategies.push(String::from_str("alt_api"));
        KernelLoop {
            l2_params: L2Params {
                ask_act_threshold: 800,
                confidence_gate_tau: 700,
                backoff_k: 3,
                retry_strategies,
            },
            l3_rules: L3Rules {
                evidence_coverage_min: 900,
                rollback_rate_max: 80,
                weekly_param_delta_max: 150,
                shadow_rollout_pct: 200,
            },
        }
    }

    /// The admission gate: true exactly when the state is ready, compliant
    /// and free of drift.
    pub fn ask_act_gate(&self, bits: &ExtendedBits) -> (r: bool)
        ensures
            r == admission_ok(*bits),
    {
        bits.a >= UNIT && bits.p >= UNIT && bits.d == 0
    }

    /// The advisory evidence gate: false exactly when uncertainty has
    /// reached the confidence threshold, so that verification is wanted.
    pub fn evidence_gate(&self, bits: &ExtendedBits) -> (r: bool)
        ensures
            r == (bits.u < self.l2_params.confidence_gate_tau),
    {
        !(bits.u >= self.l2_params.confidence_gate_tau)
    }

    /// Degradation detection over the outcome-trend history.
    pub fn should_wake_l3(&self, kpi_history: &Vec<u32>) -> (r: bool)
        ensures
            r == degradation(kpi_history@),
    {
        let n = kpi_history.len();
        if n >= 2 {
            let two_back: u32 = if n >= 3 {
                kpi_history[n - 3]
            } else {
                UNIT
            };
            two_back > kpi_history[n - 2] && kpi_history[n - 2] > kpi_history[n - 1]
        } else {
            false
        }
    }

    /// Synthesizes a bounded tuning proposal when the named signal has
    /// fallen below the safety envelope's minimum evidence coverage;
    /// otherwise nothing. The kernel itself is left unchanged: proposals
    /// are never auto-applied.
    pub fn propose_meta2_change(&mut self, kpi_name: &str, current_value: u32) -> (r: Option<
        Meta2Proposal,
    >)
        requires
            current_value <= UNIT,
        ensures
            *final(self) == *old(self),
            r is Some <==> current_value < old(self).l3_rules.evidence_coverage_min,
            r matches Some(p) ==> {
                &&& p.symptom@ == kpi_name@ + " fell to "@ + permille_chars(current_value as int)
                &&& p.hypothesis@ == "confidence gate too restrictive"@
                &&& p.change matches Meta2Change::ConfidenceGate { old_tau, new_tau }
                    && old_tau == old(self).l2_params.confidence_gate_tau
                    && new_tau == lowered_tau(old(self).l2_params.confidence_gate_tau as int)
                &&& p.shadow_pct == old(self).l3_rules.shadow_rollout_pct
                &&& p.rollback_condition@ == "evidence_coverage < 0.85 for 3d"@
            },
    {
        if current_value < self.l3_rules.evidence_coverage_min {
            let tau = self.l2_params.confidence_gate_tau;
            let new_tau: u32 = if tau >= 550 {
                tau - 50
            } else {
                500
            };
            let mut symptom = String::from_str(kpi_name);
            symptom.append(" fell to ");
            let rendered = permille_str(current_value);
            symptom.append(rendered.as_str());
            Some(
                Meta2Proposal {
                    symptom,
                    hypothesis: String::from_str("confidence gate too restrictive"),
                    change: Meta2Change::ConfidenceGate { old_tau: tau, new_tau },
                    shadow_pct: self.l3_rules.shadow_rollout_pct,
                    rollback_condition: String::from_str("evidence_coverage < 0.85 for 3d"),
                },
            )
        } else {
            None
        }
    }

    /// Contract validation: every field of the state vector is populated
    /// within its domain. Violation is an internal-consistency error,
    /// distinct in kind from a gate failure.
    pub fn validate_bits_complete(&self, bits: &ExtendedBits) -> (r: Result<(), &'static str>)
        ensures
            r is Ok <==> bits.wf(),
    {
        if !(bits.a == 0 || bits.a == UNIT) {
            Err("A out of domain")
        } else if !(bits.u <= UNIT) {
            Err("U out of domain")
        } else if !(bits.p == 0 || bits.p == UNIT) {
            Err("P out of domain")
        } else if !(bits.e <= UNIT) {
            Err("E out of domain")
        } else if !(bits.d == 0 || bits.d == UNIT) {
            Err("Δ out of domain")
        } else if !(bits.i <= UNIT) {
            Err("I out of domain")
        } else if !(bits.r <= UNIT) {
            Err("R out of domain")
        } else if !(bits.t <= UNIT) {
            Err("T out of domain")
        } else if !(bits.m == 0 || bits.m == UNIT) {
            Err("M out of domain")
        } else {
            Ok(())
        }
    }

    /// The post-execution re-gate: as the admission predicate, but failure
    /// names the condition that was lost.
    pub fn enforce_ask_act_gate(&self, bits: &ExtendedBits) -> (r: Result<(), &'static str>)
        ensures
            r is Ok <==> admission_ok(*bits),
            r matches Err(e) ==> (bits.a < UNIT && e@ == "A<1"@) || (bits.a >= UNIT && bits.p < UNIT
                && e@ == "P<1"@) || (bits.a >= UNIT && bits.p >= UNIT && bits.d != 0 && e@
                == "Δ!=0"@),
    {
        if bits.a < UNIT {
            Err("A<1")
        } else if bits.p < UNIT {
            Err("P<1")
        } else if bits.d != 0 {
            Err("Δ!=0")
        } else {
            Ok(())
        }
    }
}

/// Two consecutive strict declines at the end of the history trigger
/// degradation; a tail that rises instead never does. The first
/// conjunct covers a falling tail such as `[900, 600, 300]`, the second a
/// rising one such as `[300, 600, 900]`.
pub proof fn lemma_degradation_tail(h: Seq<u32>)
    requires
        h.len() >= 3,
    ensures
        h[h.len() - 3] > h[h.len() - 2] && h[h.len() - 2] > h[h.len() - 1] ==> degradation(h),
        h[h.len() - 3] < h[h.len() - 2] || h[h.len() - 2] < h[h.len() - 1] ==> !degradation(h),
{
}

} // verus!
