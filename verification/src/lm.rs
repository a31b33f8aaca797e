//! Planning: the stub planner's fixed step lists and the abstention gate
//! over a candidate's uncertainty.
use vstd::prelude::*;

verus! {

use crate::textutil::starts_with_seq;
use crate::textutil::str_starts_with;
use crate::types::Policy;

/// A candidate plan: its steps and the planner's risk and uncertainty
/// estimates, as per-mille fractions.
pub struct PlanCand {
    pub steps: Vec<String>,
    pub risk: u32,
    pub uncertainty: u32,
}

/// The stub planner, used when no language-model backend is configured.
pub struct StubLm;

/// The step list the stub planner proposes for a goal.
pub open spec fn stub_steps(g: Seq<char>) -> Seq<Seq<char>> {
    if starts_with_seq(g, "swe."@) {
        seq![
            "echo 'Running SWE task...'"@,
            "ls -la"@,
            "pwd"@,
            "echo 'SWE task completed'"@,
        ]
    } else if starts_with_seq(g, "chat."@) {
        seq!["echo 'Hello! I am the one-engine assistant.'"@]
    } else {
        seq!["demo.write-file"@]
    }
}

impl StubLm {
    /// Proposes a fixed plan by goal prefix, with low risk and low
    /// uncertainty.
    pub fn plan(&self, goal: &str) -> (c: PlanCand)
        ensures
            c.steps@.map_values(|s: String| s@) =~= stub_steps(goal@),
            c.risk == 100,
            c.uncertainty == 100,
    {
        let mut steps: Vec<String> = Vec::new();
        if str_starts_with(goal, "swe.") {
            steps.push(String::from_str("echo 'Running SWE task...'"));
            steps.push(String::from_str("ls -la"));
            steps.push(String::from_str("pwd"));
            steps.push(String::from_str("echo 'SWE task completed'"));
        } else if str_starts_with(goal, "chat.") {
            steps.push(String::from_str("echo 'Hello! I am the one-engine assistant.'"));
        } else {
            steps.push(String::from_str("demo.write-file"));
        }
        PlanCand { steps, risk: 100, uncertainty: 100 }
    }
}

/// The abstention gate over a candidate: a plan whose uncertainty exceeds
/// the policy's gate value is refused.
pub fn gamma_gate(cand: &PlanCand, policy: &Policy) -> (r: bool)
    ensures
        r == (cand.uncertainty <= policy.gamma_gate),
{
    cand.uncertainty <= policy.gamma_gate
}

} // verus!
