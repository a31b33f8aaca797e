use one_engine::ExtendedBits;
use one_engine::executor::Action;
use one_engine::executor::ExecResult;
use one_engine::run::BitsOverrides;
use one_engine::run::ContextItem;
use one_engine::run::Engine;
use one_engine::run::RunCompletion;
use one_engine::run::RunError;
use one_engine::run::RunPlan;
use one_engine::run::finish_chat_run;
use one_engine::run::merge_overrides;
use one_engine::run::uncertainty_for_goal;
use one_engine::types::Evidence;

fn secs(ts: &str) -> i64 {
    chrono::DateTime::parse_from_rfc3339(ts).unwrap().timestamp()
}

fn ok_result(stdout: &str) -> ExecResult {
    ExecResult { ok: true, drift: false, stdout: stdout.to_string(), artifact: None }
}

fn no_overrides() -> BitsOverrides {
    BitsOverrides { a: None, u: None, p: None, e: None }
}

#[test]
fn freshness_sets_drift_on_stale_context() {
    let engine = Engine::new();
    let now = secs("2024-01-01T00:02:00Z");
    let stale = vec![ContextItem { ts: "2024-01-01T00:00:20Z".to_string(), ttl: 50 }];
    let r = engine.prepare_run("goal", &None, &stale, now);
    match r {
        Err(RunError::GateRejected { a, p, d }) => {
            assert_eq!((a, p, d), (1000, 1000, 1000));
        },
        Ok(_) => panic!("stale context must be rejected"),
    }

    // Aged 10 seconds with a 50-second budget: fresh.
    let fresh = vec![ContextItem { ts: "2024-01-01T00:01:50Z".to_string(), ttl: 50 }];
    let r = engine.prepare_run("goal", &None, &fresh, now).expect("fresh context passes");
    assert_eq!(r.bits.d, 0);

    // An empty context never sets drift.
    let r = engine.prepare_run("goal", &None, &Vec::new(), now).expect("empty context passes");
    assert_eq!(r.bits.d, 0);
}

#[test]
fn freshness_scans_every_item() {
    let engine = Engine::new();
    let now = secs("2024-01-01T01:00:00Z");
    let ctx = vec![
        ContextItem { ts: "2024-01-01T00:59:59Z".to_string(), ttl: 3600 },
        ContextItem { ts: "not a timestamp".to_string(), ttl: 1 },
        ContextItem { ts: "2024-01-01T00:00:00Z".to_string(), ttl: 60 },
    ];
    assert!(engine.prepare_run("goal", &None, &ctx, now).is_err());
}

#[test]
fn uncertainty_by_goal_substring() {
    assert_eq!(uncertainty_for_goal("demo.easy-win"), 100);
    assert_eq!(uncertainty_for_goal("really-hard-task"), 700);
    assert_eq!(uncertainty_for_goal("impossible.case"), 900);
    assert_eq!(uncertainty_for_goal("plain"), 300);
    // Ordered matching: the easy pattern wins over later ones.
    assert_eq!(uncertainty_for_goal("easy-but-hard"), 100);
}

#[test]
fn prepare_selects_plan_and_expectation() {
    let engine = Engine::new();
    let prep = engine
        .prepare_run("impossible.case", &None, &Vec::new(), 0)
        .expect("admitted");
    match prep.plan {
        RunPlan::Execute { action: Action::Cli(cmd), expected_success } => {
            assert_eq!(cmd, "false");
            assert!(!expected_success);
        },
        _ => panic!("expected an execution plan"),
    }
    // Uncertainty 900 reaches the confidence threshold of 700.
    assert!(prep.needs_verification);
    assert_eq!(prep.tau, 700);

    let prep = engine
        .prepare_run("hard.case", &Some("two words".to_string()), &Vec::new(), 0)
        .expect("admitted");
    match prep.plan {
        RunPlan::Execute { action: Action::Cli(cmd), expected_success } => {
            assert_eq!(cmd, "sleep 0.1 && echo 'two words'");
            assert!(expected_success);
        },
        _ => panic!("expected an execution plan"),
    }

    let prep = engine.prepare_run("plain", &None, &Vec::new(), 0).expect("admitted");
    match prep.plan {
        RunPlan::Execute { action: Action::Cli(cmd), expected_success } => {
            assert_eq!(cmd, "echo 'hello from one-engine'");
            assert!(expected_success);
        },
        _ => panic!("expected an execution plan"),
    }
    assert!(!prep.needs_verification);

    let prep = engine.prepare_run("meta.omni", &None, &Vec::new(), 0).expect("admitted");
    assert!(matches!(prep.plan, RunPlan::Chat));
}

#[test]
fn gate_rejection_message_embeds_fields() {
    let e = RunError::GateRejected { a: 1000, p: 1000, d: 1000 };
    assert_eq!(e.message(), "Ask-Act gate failed: A=1, P=1, Δ=1");
}

#[test]
fn misprediction_penalty_scales_trust() {
    let mut engine = Engine::new();
    let bits = ExtendedBits::init();
    // Verification passed though failure was expected: base trust 0.9
    // scaled by 0.7 gives 0.63.
    let r = engine.finish_exec_run(bits, "plain", &ok_result("out"), true, false);
    match r {
        RunCompletion::Completed { bits, manifest, .. } => {
            assert_eq!(bits.t, 630);
            match manifest.evidence {
                Evidence::Exec { expected_success, actual_success, .. } => {
                    assert!(!expected_success);
                    assert!(actual_success);
                },
                _ => panic!("expected execution evidence"),
            }
        },
        _ => panic!("expected completion"),
    }

    // Matching expectation keeps the high trust.
    let mut engine = Engine::new();
    let r = engine.finish_exec_run(ExtendedBits::init(), "plain", &ok_result("out"), true, true);
    match r {
        RunCompletion::Completed { bits, .. } => assert_eq!(bits.t, 900),
        _ => panic!("expected completion"),
    }
}

#[test]
fn failed_execution_raises_error_and_uncertainty() {
    let mut engine = Engine::new();
    let mut bits = ExtendedBits::init();
    bits.u = 900;
    let failed = ExecResult { ok: false, drift: true, stdout: String::new(), artifact: None };
    let r = engine.finish_exec_run(bits, "plain", &failed, false, true);
    match r {
        RunCompletion::Completed { bits, .. } => {
            assert_eq!(bits.e, 1000);
            assert_eq!(bits.u, 1000);
            assert_eq!(bits.d, 1000);
            // Failed with failure unexpected: low trust, scaled by 0.7.
            assert_eq!(bits.t, 70);
        },
        _ => panic!("expected completion"),
    }
}

#[test]
fn outcome_history_keeps_recent_two_hundred() {
    let mut engine = Engine::new();
    for k in 0..250u32 {
        let r = engine.finish_exec_run(
            ExtendedBits::init(),
            "plain",
            &ok_result("out"),
            true,
            true,
        );
        assert!(matches!(r, RunCompletion::Completed { .. }), "run {} must complete", k);
    }
    let scores = engine.outcomes.scores();
    assert_eq!(scores.len(), 200);
    assert!(scores.iter().all(|&t| t == 900));
    // The trace history is capped at one hundred.
    assert_eq!(engine.traces.traces().len(), 100);
}

#[test]
fn degradation_sets_meta_flag_and_proposes() {
    let mut engine = Engine::new();
    // A passing run (0.9), then a mispredicted pass (0.63), then a
    // mispredicted failure (0.07): strict declines throughout.
    let r1 = engine.finish_exec_run(ExtendedBits::init(), "plain", &ok_result("a"), true, true);
    match r1 {
        RunCompletion::Completed { proposal, bits, .. } => {
            assert!(proposal.is_none());
            assert_eq!(bits.m, 0);
        },
        _ => panic!("expected completion"),
    }
    let r2 = engine.finish_exec_run(ExtendedBits::init(), "plain", &ok_result("b"), true, false);
    match r2 {
        RunCompletion::Completed { proposal, bits, .. } => {
            // 0.9 then 0.63 declines, but the assumed baseline of one sits
            // before the start: 1.0 > 0.9 > 0.63 triggers already.
            assert!(proposal.is_some());
            assert_eq!(bits.m, 1000);
        },
        _ => panic!("expected completion"),
    }
    let failed = ExecResult { ok: false, drift: false, stdout: String::new(), artifact: None };
    let r3 = engine.finish_exec_run(ExtendedBits::init(), "plain", &failed, false, true);
    match r3 {
        RunCompletion::Completed { proposal, bits, .. } => {
            let p = proposal.expect("degrading trend proposes a change");
            assert_eq!(p.symptom, "evidence_coverage fell to 0.070");
            assert_eq!(bits.m, 1000);
        },
        _ => panic!("expected completion"),
    }
}

#[test]
fn action_goal_with_lost_readiness_requires_clarification() {
    let mut engine = Engine::new();
    let mut bits = ExtendedBits::init();
    bits.a = 0;
    let r = engine.finish_exec_run(bits, "user.action.deploy", &ok_result("out"), true, true);
    match r {
        RunCompletion::ClarificationRequired { manifest, bits } => {
            assert_eq!(manifest.deliverables, vec!["clarification_required".to_string()]);
            match manifest.evidence {
                Evidence::Clarification { stdout } => {
                    assert_eq!(stdout, "Ask-Act gate: A<1. Need P=1, A=1, Δ=0");
                },
                _ => panic!("expected clarification evidence"),
            }
            assert_eq!(bits.a, 0);
        },
        _ => panic!("expected a clarification, not an error"),
    }
    // The clarification path records no trace.
    assert!(engine.traces.traces().is_empty());
    // The outcome was still recorded.
    assert_eq!(engine.outcomes.scores().len(), 1);
}

#[test]
fn drifted_execute_goal_requires_clarification() {
    let mut engine = Engine::new();
    let drifted = ExecResult { ok: true, drift: true, stdout: "out".to_string(), artifact: None };
    let r = engine.finish_exec_run(ExtendedBits::init(), "execute.batch", &drifted, true, true);
    match r {
        RunCompletion::ClarificationRequired { manifest, .. } => match manifest.evidence {
            Evidence::Clarification { stdout } => {
                assert_eq!(stdout, "Ask-Act gate: Δ!=0. Need P=1, A=1, Δ=0");
            },
            _ => panic!("expected clarification evidence"),
        },
        _ => panic!("expected a clarification"),
    }
}

#[test]
fn merge_overrides_replaces_only_given_fields() {
    let mut bits = ExtendedBits::init();
    merge_overrides(
        &mut bits,
        &BitsOverrides { a: Some(0), u: Some(250), p: None, e: Some(1000) },
    );
    assert_eq!(bits.a, 0);
    assert_eq!(bits.u, 250);
    assert_eq!(bits.p, 1000);
    assert_eq!(bits.e, 1000);
    assert_eq!(bits.t, 500);
}

#[test]
fn chat_run_carries_evidence_through() {
    let bits = ExtendedBits::init();
    let (manifest, merged) = finish_chat_run(
        &bits,
        "meta.omni",
        &no_overrides(),
        "{\"reply\":\"hi\"}".to_string(),
    );
    assert_eq!(manifest.goal_id, "meta.omni");
    assert!(manifest.deliverables.is_empty());
    assert!(manifest.run_id.starts_with("r-"));
    match manifest.evidence {
        Evidence::External { json } => assert_eq!(json, "{\"reply\":\"hi\"}"),
        _ => panic!("expected external evidence"),
    }
    assert_eq!(merged, bits);
}
