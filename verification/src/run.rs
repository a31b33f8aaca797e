//! The run orchestrator: one request moves through initialization, context
//! freshness scanning, admission gating, delegated execution, verification,
//! trust scoring, history updates, degradation detection and optional
//! self-tuning proposals. The delegated calls themselves (execution,
//! verification, conversation) are the caller's: this module decides, from
//! plain values, what to do before them and what everything means after
//! them.
use vstd::prelude::*;

verus! {

use crate::UNIT;
use crate::executor::Action;
use crate::executor::ExecResult;
use crate::executor::escape_arg;
use crate::executor::shell_escaped;
use crate::history::OUTCOME_CAP;
use crate::history::OutcomeHistory;
use crate::history::TRACE_CAP;
use crate::history::TraceHistory;
use crate::history::recent;
use crate::kernel::KernelLoop;
use crate::kernel::Meta2Change;
use crate::kernel::Meta2Proposal;
use crate::kernel::admission_ok;
use crate::kernel::degradation;
use crate::kernel::lowered_tau;
use crate::policy::TRUST_HIGH;
use crate::policy::TRUST_LOW;
use crate::policy::trust_from;
use crate::state::ExtendedBits;
use crate::state::bits_of;
use crate::textutil::contains_seq;
use crate::textutil::permille_chars;
use crate::textutil::str_contains;
use crate::textutil::terse_chars;
use crate::textutil::terse_permille_str;
use crate::timefmt::parse_rfc3339;
use crate::timefmt::rfc3339_secs;
use crate::types::Evidence;
use crate::types::Manifest;
use crate::types::l2_params_eq;
use crate::types::snapshot_l2;

/// One context item of a request: a timestamp and a time-to-live in
/// seconds.
pub struct ContextItem {
    pub ts: String,
    pub ttl: i64,
}

/// A context item is stale at `now`: its timestamp parses and its age
/// exceeds its time-to-live. An unparseable timestamp never counts.
pub open spec fn stale_at(item: ContextItem, now: int) -> bool {
    match rfc3339_secs(item.ts@) {
        Some(t) => now - t > item.ttl,
        None => false,
    }
}

/// Some context item is stale at `now`.
pub open spec fn any_stale(ctx: Seq<ContextItem>, now: int) -> bool {
    exists|i: int| 0 <= i < ctx.len() && #[trigger] stale_at(ctx[i], now)
}

/// Uncertainty assigned by ordered substring match on the goal identifier;
/// the first match wins.
pub open spec fn goal_uncertainty(g: Seq<char>) -> u32 {
    if contains_seq(g, "easy"@) {
        100
    } else if contains_seq(g, "hard"@) {
        700
    } else if contains_seq(g, "impossible"@) {
        900
    } else {
        300
    }
}

/// The goal denotes a conversational intent.
pub open spec fn is_chat_goal(g: Seq<char>) -> bool {
    contains_seq(g, "meta.omni"@)
}

/// The goal is tagged as an action or execution kind, so the re-gate
/// applies after execution.
pub open spec fn is_action_goal(g: Seq<char>) -> bool {
    contains_seq(g, "action"@) || contains_seq(g, "execute"@)
}

/// The delegated execution is expected to succeed unless the goal is
/// marked impossible.
pub open spec fn expected_of(g: Seq<char>) -> bool {
    !contains_seq(g, "impossible"@)
}

/// The message a run echoes: the request's, or a fixed greeting.
pub open spec fn msg_chars(m: Option<String>) -> Seq<char> {
    match m {
        Some(s) => s@,
        None => "hello from one-engine"@,
    }
}

/// The command line selected for the goal: a guaranteed failure for an
/// impossible goal, a slower echo for a hard one, a plain echo otherwise.
pub open spec fn command_of(g: Seq<char>, msg: Seq<char>) -> Seq<char> {
    if contains_seq(g, "impossible"@) {
        "false"@
    } else if contains_seq(g, "hard"@) {
        "sleep 0.1 && echo "@ + shell_escaped(msg)
    } else {
        "echo "@ + shell_escaped(msg)
    }
}

/// The state vector after initialization, the freshness scan and the
/// uncertainty assignment.
pub open spec fn prepared_bits(g: Seq<char>, ctx: Seq<ContextItem>, now: int) -> ExtendedBits {
    ExtendedBits {
        a: UNIT,
        u: goal_uncertainty(g),
        p: UNIT,
        e: 0,
        d: if any_stale(ctx, now) {
            UNIT
        } else {
            0
        },
        i: 0,
        r: 0,
        t: (UNIT / 2) as u32,
        m: 0,
    }
}

/// How the run proceeds after admission: a conversational delegation, or a
/// delegated execution with an expectation attached.
pub enum RunPlan {
    Chat,
    Execute { action: Action, expected_success: bool },
}

/// Everything decided before any side effect: the state vector so far, the
/// advisory evidence verdict, the snapshotted confidence threshold and the
/// plan.
pub struct PreparedRun {
    pub bits: ExtendedBits,
    pub needs_verification: bool,
    pub tau: u32,
    pub plan: RunPlan,
}

/// A run refused before any side effect: the admission gate failed, with
/// the offending field values embedded.
#[derive(Debug)]
pub enum RunError {
    GateRejected { a: u32, p: u32, d: u32 },
}

/// The text of an admission rejection, with each gated field's value.
pub open spec fn gate_rejected_chars(a: int, p: int, d: int) -> Seq<char> {
    "Ask-Act gate failed: A="@ + terse_chars(a) + ", P="@ + terse_chars(p) + ", Δ="@ + terse_chars(
        d,
    )
}

impl RunError {
    /// The explicit error text a rejected run surfaces.
    pub fn message(&self) -> (m: String)
        requires
            self matches RunError::GateRejected { a, p, d } && a <= UNIT && p <= UNIT && d <= UNIT,
        ensures
            self matches RunError::GateRejected { a, p, d } ==> m@ == gate_rejected_chars(
                a as int,
                p as int,
                d as int,
            ),
    {
        match self {
            RunError::GateRejected { a, p, d } => {
                let mut m = String::from_str("Ask-Act gate failed: A=");
                m.append(terse_permille_str(*a).as_str());
                m.append(", P=");
                m.append(terse_permille_str(*p).as_str());
                m.append(", Δ=");
                m.append(terse_permille_str(*d).as_str());
                m
            },
        }
    }
}

/// Overrides a conversational reply may carry for the readiness,
/// uncertainty, compliance and error fields.
pub struct BitsOverrides {
    pub a: Option<u32>,
    pub u: Option<u32>,
    pub p: Option<u32>,
    pub e: Option<u32>,
}

/// The state vector with a reply's overrides folded in.
pub open spec fn merged_bits(b: ExtendedBits, o: BitsOverrides) -> ExtendedBits {
    ExtendedBits {
        a: match o.a {
            Some(v) => v,
            None => b.a,
        },
        u: match o.u {
            Some(v) => v,
            None => b.u,
        },
        p: match o.p {
            Some(v) => v,
            None => b.p,
        },
        e: match o.e {
            Some(v) => v,
            None => b.e,
        },
        ..b
    }
}

/// Bound every clock reading handed to the orchestrator respects, so that
/// second arithmetic never overflows a machine integer.
pub const CLOCK_MAX_SECS: i64 = 4_000_000_000_000;

/// The state vector with a detected execution drift mapped in.
pub open spec fn drift_mapped(b: ExtendedBits, drift: bool) -> ExtendedBits {
    if drift {
        ExtendedBits { d: UNIT, ..b }
    } else {
        b
    }
}

/// The state vector with an execution failure mapped in: the error flag
/// set and uncertainty raised by `0.2`, clamped to one.
pub open spec fn error_mapped(b: ExtendedBits, ok: bool) -> ExtendedBits {
    if ok {
        b
    } else {
        ExtendedBits {
            e: UNIT,
            u: if b.u + 200 <= UNIT {
                (b.u + 200) as u32
            } else {
                UNIT
            },
            ..b
        }
    }
}

/// Trust scaled down by the misprediction penalty when the expectation
/// disagreed with the verification verdict.
pub open spec fn penalized(t: u32, expected: bool, passed: bool) -> u32 {
    if expected != passed {
        ((t * 700) / 1000) as u32
    } else {
        t
    }
}

/// The state vector after execution results, verification and trust
/// scoring are folded in.
pub open spec fn scored_bits(
    b: ExtendedBits,
    ok: bool,
    drift: bool,
    passed: bool,
    expected: bool,
) -> ExtendedBits {
    let b2 = error_mapped(drift_mapped(b, drift), ok);
    let t0: u32 = if passed && b2.e == 0 {
        TRUST_HIGH
    } else {
        TRUST_LOW
    };
    ExtendedBits { t: penalized(t0, expected, passed), ..b2 }
}

/// Whether appending trust `t` to the outcome history leaves its bounded
/// window showing degradation.
pub open spec fn degraded_after(outcomes: Seq<u32>, t: u32) -> bool {
    degradation(recent(outcomes.push(t), OUTCOME_CAP as int))
}

/// The state vector a run ends with: the meta-change flag records whether
/// degradation triggered.
pub open spec fn closing_bits(b: ExtendedBits, deg: bool) -> ExtendedBits {
    if deg {
        ExtendedBits { m: UNIT, ..b }
    } else {
        b
    }
}

/// The explanation a failed re-gate surfaces, naming the condition that
/// was lost and the required state.
pub open spec fn clarification_chars(b: ExtendedBits) -> Seq<char> {
    "Ask-Act gate: "@ + (if b.a < UNIT {
        "A<1"@
    } else if b.p < UNIT {
        "P<1"@
    } else {
        "Δ!=0"@
    }) + ". Need P=1, A=1, Δ=0"@
}

/// Drift is monotonic within a run: once the freshness scan or the
/// executor sets it, no later step of the pipeline clears it.
pub proof fn lemma_drift_monotonic(
    b: ExtendedBits,
    ok: bool,
    drift: bool,
    passed: bool,
    expected: bool,
    deg: bool,
)
    ensures
        closing_bits(scored_bits(b, ok, drift, passed, expected), deg).d == if drift {
            UNIT
        } else {
            b.d
        },
        b.d == UNIT ==> closing_bits(scored_bits(b, ok, drift, passed, expected), deg).d == UNIT,
{
}

/// How a run ends once execution and verification are in hand.
pub enum RunCompletion {
    /// The normal result, with the tuning proposal if one fired.
    Completed { manifest: Manifest, bits: ExtendedBits, proposal: Option<Meta2Proposal> },
    /// The post-execution re-gate failed: a successful-but-incomplete
    /// result carrying a sentinel deliverable, never an error.
    ClarificationRequired { manifest: Manifest, bits: ExtendedBits },
    /// Contract validation failed: an internal-consistency error.
    Fatal { reason: &'static str },
}

/// The shared service: the adaptive kernel and both histories. One
/// instance serves every run; the embedding program guards it with mutual
/// exclusion and never holds it across a delegated call.
pub struct Engine {
    pub kernel: KernelLoop,
    pub outcomes: OutcomeHistory,
    pub traces: TraceHistory,
}

impl Engine {
    /// Both histories hold exactly their most recent appends.
    pub open spec fn wf(self) -> bool {
        self.outcomes.wf() && self.traces.wf()
    }

    /// A fresh service: shipped kernel configuration, empty histories.
    pub fn new() -> (e: Self)
        ensures
            e.wf(),
            e.kernel.is_shipped(),
            e.outcomes@ == Seq::<u32>::empty(),
            e.outcomes.appended() == Seq::<u32>::empty(),
            e.traces@ == Seq::<ExtendedBits>::empty(),
            e.traces.appended() == Seq::<ExtendedBits>::empty(),
    {
        Engine {
            kernel: KernelLoop::new(),
            outcomes: OutcomeHistory::new(),
            traces: TraceHistory::new(),
        }
    }

    /// Everything before any side effect: initialization, the freshness
    /// scan over the whole context (drift set once, never cleared), the
    /// uncertainty assignment, the admission gate (fail-fast, producing no
    /// plan), the advisory evidence verdict under one parameter snapshot,
    /// and plan selection.
    pub fn prepare_run(
        &self,
        goal_id: &str,
        message: &Option<String>,
        context: &Vec<ContextItem>,
        now_secs: i64,
    ) -> (r: Result<PreparedRun, RunError>)
        requires
            -CLOCK_MAX_SECS <= now_secs <= CLOCK_MAX_SECS,
        ensures
            r is Err <==> any_stale(context@, now_secs as int),
            r matches Err(RunError::GateRejected { a, p, d }) ==> a == UNIT && p == UNIT && d
                == UNIT,
            r matches Ok(pr) ==> {
                &&& pr.bits == prepared_bits(goal_id@, context@, now_secs as int)
                &&& pr.tau == self.kernel.l2_params.confidence_gate_tau
                &&& pr.needs_verification == (pr.bits.u >= pr.tau)
                &&& if is_chat_goal(goal_id@) {
                    pr.plan is Chat
                } else {
                    pr.plan matches RunPlan::Execute { action, expected_success }
                        && expected_success == expected_of(goal_id@) && (action matches Action::Cli(
                        c,
                    ) && c@ == command_of(goal_id@, msg_chars(*message)))
                }
            },
    {
        let mut bits = ExtendedBits::init();
        let ghost now = now_secs as int;

        let mut k: usize = 0;
        while k < context.len()
            invariant
                -CLOCK_MAX_SECS <= now_secs <= CLOCK_MAX_SECS,
                now == now_secs as int,
                k <= context@.len(),
                bits == (ExtendedBits {
                    a: UNIT,
                    u: 0,
                    p: UNIT,
                    e: 0,
                    d: if any_stale(context@.take(k as int), now) {
                        UNIT
                    } else {
                        0
                    },
                    i: 0,
                    r: 0,
                    t: (UNIT / 2) as u32,
                    m: 0,
                }),
            decreases context@.len() - k,
        {
            let item = &context[k];
            match parse_rfc3339(item.ts.as_str()) {
                Some(t) => {
                    let age: i64 = now_secs - t;
                    if age > item.ttl {
                        bits.d = UNIT;
                    }
                },
                None => {},
            }
            proof {
                assert(context@.take(k + 1).drop_last() =~= context@.take(k as int));
                assert(context@.take(k + 1).last() == context@[k as int]);
                assert(any_stale(context@.take(k + 1), now) <==> (any_stale(
                    context@.take(k as int),
                    now,
                ) || stale_at(context@[k as int], now))) by {
                    if any_stale(context@.take(k + 1), now) {
                        let i = choose|i: int|
                            0 <= i < context@.take(k + 1).len() && #[trigger] stale_at(
                                context@.take(k + 1)[i],
                                now,
                            );
                        if i < k {
                            assert(stale_at(context@.take(k as int)[i], now));
                        }
                    }
                    if any_stale(context@.take(k as int), now) {
                        let i = choose|i: int|
                            0 <= i < context@.take(k as int).len() && #[trigger] stale_at(
                                context@.take(k as int)[i],
                                now,
                            );
                        assert(stale_at(context@.take(k + 1)[i], now));
                    }
                    if stale_at(context@[k as int], now) {
                        assert(stale_at(context@.take(k + 1)[k as int], now));
                    }
                }
            }
            k += 1;
        }
        proof {
            assert(context@.take(context@.len() as int) =~= context@);
        }

        bits.u = uncertainty_for_goal(goal_id);

        if !self.kernel.ask_act_gate(&bits) {
            return Err(RunError::GateRejected { a: bits.a, p: bits.p, d: bits.d });
        }

        let needs_verification = !self.kernel.evidence_gate(&bits);
        let tau = self.kernel.l2_params.confidence_gate_tau;

        if str_contains(goal_id, "meta.omni") {
            return Ok(PreparedRun { bits, needs_verification, tau, plan: RunPlan::Chat });
        }

        let (action, expected_success) = if str_contains(goal_id, "impossible") {
            (Action::Cli(String::from_str("false")), false)
        } else {
            let escaped = match message {
                Some(m) => escape_arg(m.as_str()),
                None => escape_arg("hello from one-engine"),
            };
            let mut cmd = if str_contains(goal_id, "hard") {
                String::from_str("sleep 0.1 && echo ")
            } else {
                String::from_str("echo ")
            };
            cmd.append(escaped.as_str());
            (Action::Cli(cmd), true)
        };
        Ok(
            PreparedRun {
                bits,
                needs_verification,
                tau,
                plan: RunPlan::Execute { action, expected_success },
            },
        )
    }

    /// Everything after the delegated execution and verification of a
    /// non-conversational run: drift and failure mapped into the state,
    /// trust scored and penalty applied, the outcome recorded, degradation
    /// evaluated and a proposal synthesized if warranted, the contract
    /// validated, the re-gate applied to action-tagged goals, the trace
    /// recorded and the manifest assembled.
    pub fn finish_exec_run(
        &mut self,
        bits: ExtendedBits,
        goal_id: &str,
        exec: &ExecResult,
        passed: bool,
        expected_success: bool,
    ) -> (r: RunCompletion)
        requires
            old(self).wf(),
            bits.wf(),
        ensures
            final(self).wf(),
            final(self).kernel == old(self).kernel,
            ({
                let b2 = scored_bits(bits, exec.ok, exec.drift, passed, expected_success);
                let deg = degraded_after(old(self).outcomes@, b2.t);
                let b3 = closing_bits(b2, deg);
                let clar = is_action_goal(goal_id@) && !admission_ok(b3);
                &&& final(self).outcomes@ == recent(
                    old(self).outcomes@.push(b2.t),
                    OUTCOME_CAP as int,
                )
                &&& final(self).outcomes.appended() == old(self).outcomes.appended().push(b2.t)
                &&& final(self).traces@ == if clar {
                    old(self).traces@
                } else {
                    recent(old(self).traces@.push(b3), TRACE_CAP as int)
                }
                &&& !(r is Fatal)
                &&& (r is Completed <==> !clar)
                &&& (r is ClarificationRequired <==> clar)
                &&& r matches RunCompletion::Completed { manifest, bits: rb, proposal } ==> {
                    &&& rb == b3
                    &&& manifest.goal_id@ == goal_id@
                    &&& manifest.deliverables@.len() == 0
                    &&& manifest.bits == bits_of(b3)
                    &&& manifest.evidence matches Evidence::Exec {
                        stdout,
                        expected_success: es,
                        actual_success,
                        l2_params,
                        meta2_triggered,
                    } && stdout@ == exec.stdout@ && es == expected_success && actual_success
                        == passed && l2_params_eq(l2_params, old(self).kernel.l2_params)
                        && meta2_triggered == (b3.m > 0)
                    &&& (proposal is Some <==> deg && b2.t
                        < old(self).kernel.l3_rules.evidence_coverage_min)
                    &&& proposal matches Some(p) ==> {
                        &&& p.symptom@ == "evidence_coverage"@ + " fell to "@ + permille_chars(
                            b2.t as int,
                        )
                        &&& p.change matches Meta2Change::ConfidenceGate { old_tau, new_tau }
                            && old_tau == old(self).kernel.l2_params.confidence_gate_tau && new_tau
                            == lowered_tau(old(self).kernel.l2_params.confidence_gate_tau as int)
                        &&& p.shadow_pct == old(self).kernel.l3_rules.shadow_rollout_pct
                    }
                }
                &&& r matches RunCompletion::ClarificationRequired { manifest, bits: rb } ==> {
                    &&& rb == b3
                    &&& manifest.goal_id@ == goal_id@
                    &&& manifest.deliverables@.len() == 1 && manifest.deliverables@[0]@
                        == "clarification_required"@
                    &&& manifest.bits == bits_of(b3)
                    &&& manifest.evidence matches Evidence::Clarification { stdout } && stdout@
                        == clarification_chars(b3)
                }
            }),
    {
        let mut bits = bits;

        if exec.drift {
            bits.d = UNIT;
        }
        if !exec.ok {
            bits.e = UNIT;
            bits.u = if bits.u + 200 <= UNIT {
                bits.u + 200
            } else {
                UNIT
            };
        }

        let legacy = bits.to_bits();
        bits.t = trust_from(passed, &legacy);
        if expected_success != passed {
            bits.t = (bits.t * 700) / 1000;
        }

        self.outcomes.push(bits.t);

        let degraded = self.kernel.should_wake_l3(self.outcomes.scores());
        let proposal = if degraded {
            bits.m = UNIT;
            self.kernel.propose_meta2_change("evidence_coverage", bits.t)
        } else {
            None
        };

        if let Err(reason) = self.kernel.validate_bits_complete(&bits) {
            return RunCompletion::Fatal { reason };
        }

        if str_contains(goal_id, "action") || str_contains(goal_id, "execute") {
            if let Err(e) = self.kernel.enforce_ask_act_gate(&bits) {
                let mut clarification = String::from_str("Ask-Act gate: ");
                clarification.append(e);
                clarification.append(". Need P=1, A=1, Δ=0");
                let mut deliverables: Vec<String> = Vec::new();
                deliverables.push(String::from_str("clarification_required"));
                let manifest = Manifest {
                    run_id: new_uuid_string(),
                    goal_id: String::from_str(goal_id),
                    deliverables,
                    evidence: Evidence::Clarification { stdout: clarification },
                    bits: bits.to_bits(),
                };
                return RunCompletion::ClarificationRequired { manifest, bits };
            }
        }

        self.traces.push(bits);

        let mut run_id = String::from_str("r-");
        run_id.append(new_uuid_string().as_str());
        let manifest = Manifest {
            run_id,
            goal_id: String::from_str(goal_id),
            deliverables: Vec::new(),
            evidence: Evidence::Exec {
                stdout: exec.stdout.clone(),
                expected_success,
                actual_success: passed,
                l2_params: snapshot_l2(&self.kernel.l2_params),
                meta2_triggered: bits.m > 0,
            },
            bits: bits.to_bits(),
        };
        RunCompletion::Completed { manifest, bits, proposal }
    }
}

/// Uncertainty assigned by ordered substring match on the goal identifier.
pub fn uncertainty_for_goal(goal_id: &str) -> (u: u32)
    ensures
        u == goal_uncertainty(goal_id@),
{
    if str_contains(goal_id, "easy") {
        100
    } else if str_contains(goal_id, "hard") {
        700
    } else if str_contains(goal_id, "impossible") {
        900
    } else {
        300
    }
}

/// Folds a conversational reply's overrides into the state vector.
pub fn merge_overrides(bits: &mut ExtendedBits, o: &BitsOverrides)
    ensures
        *final(bits) == merged_bits(*old(bits), *o),
{
    if let Some(v) = o.a {
        bits.a = v;
    }
    if let Some(v) = o.u {
        bits.u = v;
    }
    if let Some(v) = o.p {
        bits.p = v;
    }
    if let Some(v) = o.e {
        bits.e = v;
    }
}

/// Assembles the result of a conversational run: the reply's overrides are
/// folded into the state, the collaborator's evidence is carried through
/// as it arrived, and trust scoring and degradation evaluation are skipped
/// by design.
pub fn finish_chat_run(
    bits: &ExtendedBits,
    goal_id: &str,
    overrides: &BitsOverrides,
    evidence_json: String,
) -> (r: (Manifest, ExtendedBits))
    ensures
        r.1 == merged_bits(*bits, *overrides),
        r.0.goal_id@ == goal_id@,
        r.0.deliverables@.len() == 0,
        r.0.bits == bits_of(r.1),
        r.0.evidence matches Evidence::External { json } && json@ == evidence_json@,
{
    let mut merged = *bits;
    merge_overrides(&mut merged, overrides);
    let mut run_id = String::from_str("r-");
    run_id.append(new_uuid_string().as_str());
    let manifest = Manifest {
        run_id,
        goal_id: String::from_str(goal_id),
        deliverables: Vec::new(),
        evidence: Evidence::External { json: evidence_json },
        bits: merged.to_bits(),
    };
    (manifest, merged)
}

/// Relies on `uuid::Uuid::new_v4`: a freshly drawn random identifier, of
/// which nothing is promised.
#[verifier::external_body]
fn new_uuid_string() -> String {
    uuid::Uuid::new_v4().to_string()
}

} // verus!
