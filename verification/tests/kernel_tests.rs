use one_engine::ExtendedBits;
use one_engine::kernel::KernelLoop;
use one_engine::kernel::Meta2Change;

fn bits_with(a: u32, p: u32, d: u32) -> ExtendedBits {
    let mut bits = ExtendedBits::init();
    bits.a = a;
    bits.p = p;
    bits.d = d;
    bits
}

#[test]
fn init_state_vector() {
    let bits = ExtendedBits::init();
    assert_eq!(bits.a, 1000);
    assert_eq!(bits.p, 1000);
    assert_eq!(bits.t, 500);
    assert_eq!(bits.u, 0);
    assert_eq!(bits.e, 0);
    assert_eq!(bits.d, 0);
    assert_eq!(bits.i, 0);
    assert_eq!(bits.r, 0);
    assert_eq!(bits.m, 0);
}

#[test]
fn admission_gate_boundary_combinations() {
    let kernel = KernelLoop::new();
    for &a in &[0u32, 1000] {
        for &p in &[0u32, 1000] {
            for &d in &[0u32, 1000] {
                let expected = a >= 1000 && p >= 1000 && d == 0;
                assert_eq!(kernel.ask_act_gate(&bits_with(a, p, d)), expected);
            }
        }
    }
}

#[test]
fn evidence_gate_threshold() {
    let kernel = KernelLoop::new();
    let mut bits = ExtendedBits::init();
    bits.u = 699;
    assert!(kernel.evidence_gate(&bits));
    bits.u = 700;
    assert!(!kernel.evidence_gate(&bits));
    bits.u = 900;
    assert!(!kernel.evidence_gate(&bits));
}

#[test]
fn degradation_trigger_tails() {
    let kernel = KernelLoop::new();
    assert!(kernel.should_wake_l3(&vec![900, 600, 300]));
    assert!(!kernel.should_wake_l3(&vec![300, 600, 900]));
    assert!(!kernel.should_wake_l3(&vec![900]));
    assert!(!kernel.should_wake_l3(&Vec::new()));
    // With two points the baseline of one stands in for the missing third.
    assert!(kernel.should_wake_l3(&vec![900, 600]));
    assert!(!kernel.should_wake_l3(&vec![1000, 600]));
    // A long history is judged by its tail alone.
    assert!(kernel.should_wake_l3(&vec![100, 200, 900, 600, 300]));
}

#[test]
fn proposal_fires_only_below_coverage_minimum() {
    let mut kernel = KernelLoop::new();
    assert!(kernel.propose_meta2_change("evidence_coverage", 900).is_none());
    assert!(kernel.propose_meta2_change("evidence_coverage", 1000).is_none());

    let p = kernel.propose_meta2_change("evidence_coverage", 630).expect("proposal");
    assert_eq!(p.symptom, "evidence_coverage fell to 0.630");
    assert_eq!(p.hypothesis, "confidence gate too restrictive");
    assert_eq!(p.shadow_pct, 200);
    assert_eq!(p.rollback_condition, "evidence_coverage < 0.85 for 3d");
    match p.change {
        Meta2Change::ConfidenceGate { old_tau, new_tau } => {
            assert_eq!(old_tau, 700);
            assert_eq!(new_tau, 650);
        },
        _ => panic!("expected a confidence-gate change"),
    }
}

#[test]
fn proposal_floors_new_tau() {
    let mut kernel = KernelLoop::new();
    kernel.l2_params.confidence_gate_tau = 520;
    let p = kernel.propose_meta2_change("evidence_coverage", 100).expect("proposal");
    match p.change {
        Meta2Change::ConfidenceGate { old_tau, new_tau } => {
            assert_eq!(old_tau, 520);
            assert_eq!(new_tau, 500);
        },
        _ => panic!("expected a confidence-gate change"),
    }
}

#[test]
fn validate_bits_checks_domains() {
    let kernel = KernelLoop::new();
    assert!(kernel.validate_bits_complete(&ExtendedBits::init()).is_ok());
    let mut bad = ExtendedBits::init();
    bad.a = 500;
    assert!(kernel.validate_bits_complete(&bad).is_err());
    let mut bad_u = ExtendedBits::init();
    bad_u.u = 1500;
    assert!(kernel.validate_bits_complete(&bad_u).is_err());
}

#[test]
fn enforce_gate_names_condition() {
    let kernel = KernelLoop::new();
    assert!(kernel.enforce_ask_act_gate(&ExtendedBits::init()).is_ok());
    assert_eq!(kernel.enforce_ask_act_gate(&bits_with(0, 1000, 0)), Err("A<1"));
    assert_eq!(kernel.enforce_ask_act_gate(&bits_with(1000, 0, 0)), Err("P<1"));
    assert_eq!(kernel.enforce_ask_act_gate(&bits_with(1000, 1000, 1000)), Err("Δ!=0"));
}

#[test]
fn shipped_configuration() {
    let kernel = KernelLoop::new();
    assert_eq!(kernel.l2_params.ask_act_threshold, 800);
    assert_eq!(kernel.l2_params.confidence_gate_tau, 700);
    assert_eq!(kernel.l2_params.backoff_k, 3);
    assert_eq!(kernel.l2_params.retry_strategies, vec!["cache", "alt_api"]);
    assert_eq!(kernel.l3_rules.evidence_coverage_min, 900);
    assert_eq!(kernel.l3_rules.rollback_rate_max, 80);
    assert_eq!(kernel.l3_rules.weekly_param_delta_max, 150);
    assert_eq!(kernel.l3_rules.shadow_rollout_pct, 200);
}

#[test]
fn outcome_history_evicts_oldest_in_order() {
    let mut h = one_engine::history::OutcomeHistory::new();
    for v in 0..250u32 {
        h.push(v);
    }
    let scores = h.scores();
    assert_eq!(scores.len(), 200);
    for (i, &v) in scores.iter().enumerate() {
        assert_eq!(v, 50 + i as u32);
    }
}

#[test]
fn trace_history_evicts_oldest() {
    let mut h = one_engine::history::TraceHistory::new();
    for v in 0..130u32 {
        let mut b = ExtendedBits::init();
        b.u = v;
        h.push(b);
    }
    let traces = h.traces();
    assert_eq!(traces.len(), 100);
    assert_eq!(traces[0].u, 30);
    assert_eq!(traces[99].u, 129);
}

#[test]
fn bits_round_trip_is_lossless() {
    let mut bits = ExtendedBits::init();
    bits.u = 123;
    bits.e = 1000;
    bits.t = 630;
    bits.m = 1000;
    let record = one_engine::Bits::from(bits);
    assert_eq!(record.u, 123);
    assert_eq!(record.d, 0);
    let back = ExtendedBits::from_bits(&record);
    assert_eq!(back, bits);
}
