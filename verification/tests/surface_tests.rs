use one_engine::api::AppState;
use one_engine::api::UserContext;
use one_engine::api::authenticate_user;
use one_engine::api::is_safe_golden_name;
use one_engine::executor::Action;
use one_engine::executor::ExecResult;
use one_engine::executor::deliverable_exists;
use one_engine::executor::detect_capability;
use one_engine::integrations::DataReality;
use one_engine::integrations::integration_reality_matrix;
use one_engine::lm::StubLm;
use one_engine::lm::gamma_gate;
use one_engine::meta_prompt::process_meta_prompt;
use one_engine::nstar::NStarRunReq;
use one_engine::nstar::html_escape_min;
use one_engine::types::Policy;

#[test]
fn capability_heuristic() {
    assert_eq!(detect_capability("curl https://example.com"), Some("network"));
    assert_eq!(detect_capability("WGET https://example.com"), Some("network"));
    assert_eq!(detect_capability("sudo rm -rf /tmp/x"), Some("file_write"));
    assert_eq!(detect_capability("git push origin main"), Some("identity"));
    assert_eq!(detect_capability("gh release create v1"), Some("identity"));
    assert_eq!(detect_capability("echo hello"), None);
    // The network match wins over later categories.
    assert_eq!(detect_capability("curl x && git push"), Some("network"));
}

#[test]
fn shell_escaping_in_selected_commands() {
    let engine = one_engine::run::Engine::new();
    let cmd_for = |msg: &str| -> String {
        let prep = engine
            .prepare_run("plain", &Some(msg.to_string()), &Vec::new(), 0)
            .expect("admitted");
        match prep.plan {
            one_engine::run::RunPlan::Execute { action: Action::Cli(cmd), .. } => cmd,
            _ => panic!("expected a command plan"),
        }
    };
    assert_eq!(cmd_for("--aaa=bbb-ccc"), "echo --aaa=bbb-ccc");
    assert_eq!(cmd_for("two words"), "echo 'two words'");
    assert_eq!(cmd_for("don't"), "echo 'don'\\''t'");
    assert_eq!(cmd_for(""), "echo ''");
}

#[test]
fn deliverable_requires_success_and_artifact() {
    let with = ExecResult {
        ok: true,
        drift: false,
        stdout: String::new(),
        artifact: Some("out/hello.txt".to_string()),
    };
    assert!(deliverable_exists(&with, true));
    assert!(!deliverable_exists(&with, false));
    let without = ExecResult { ok: true, drift: false, stdout: String::new(), artifact: None };
    assert!(!deliverable_exists(&without, true));
    let failed = ExecResult {
        ok: false,
        drift: false,
        stdout: String::new(),
        artifact: Some("out/hello.txt".to_string()),
    };
    assert!(!deliverable_exists(&failed, true));
}

#[test]
fn html_escaping_minimal() {
    assert_eq!(html_escape_min("a<b>&c"), "a&lt;b&gt;&amp;c");
    assert_eq!(html_escape_min("plain"), "plain");
    assert_eq!(html_escape_min(""), "");
}

#[test]
fn nstar_request_holds_task() {
    let req = NStarRunReq { task: "demo".to_string() };
    assert_eq!(req.task, "demo");
}

#[test]
fn reality_matrix_is_simulated_everywhere() {
    let m = integration_reality_matrix();
    assert_eq!(m.len(), 5);
    let names: Vec<&str> = m.iter().map(|e| e.component.as_str()).collect();
    assert_eq!(names, vec!["flywheel", "monorepo", "kpi", "ui", "telemetry"]);
    assert!(m.iter().all(|e| e.reality == DataReality::Simulated));
}

#[test]
fn fallback_replies_by_phrase() {
    assert_eq!(
        process_meta_prompt("sys", "Who am I?", None),
        "I am One Engine v0.2, a metacognitive AI system with self-awareness capabilities."
    );
    assert_eq!(
        process_meta_prompt("sys", "Hello there", None),
        "Hello! I'm One Engine, ready to assist with metacognitive validation and adaptive control."
    );
    assert_eq!(
        process_meta_prompt("sys", "HELP me", None),
        "I can process tasks with uncertainty tracking, trust calibration, and failure awareness. Try asking about my capabilities!"
    );
    assert_eq!(
        process_meta_prompt("sys", "anything else", None),
        "I'm processing your request with metacognitive awareness. How can I help you today?"
    );
}

#[test]
fn stub_planner_steps() {
    let lm = StubLm;
    let swe = lm.plan("swe.refactor");
    assert_eq!(
        swe.steps,
        vec![
            "echo 'Running SWE task...'",
            "ls -la",
            "pwd",
            "echo 'SWE task completed'",
        ]
    );
    assert_eq!(swe.risk, 100);
    assert_eq!(swe.uncertainty, 100);
    let chat = lm.plan("chat.respond");
    assert_eq!(chat.steps, vec!["echo 'Hello! I am the one-engine assistant.'"]);
    let demo = lm.plan("demo.hello");
    assert_eq!(demo.steps, vec!["demo.write-file"]);
}

#[test]
fn gamma_gate_refuses_uncertain_plans() {
    let policy = Policy { gamma_gate: 500, time_ms: 30_000, max_risk: 300, tiny_diff_loc: 120 };
    let lm = StubLm;
    let cand = lm.plan("demo.hello");
    assert!(gamma_gate(&cand, &policy));
    let tight = Policy { gamma_gate: 50, time_ms: 30_000, max_risk: 300, tiny_diff_loc: 120 };
    assert!(!gamma_gate(&cand, &tight));
}

#[test]
fn authenticate_by_api_key() {
    let state = AppState {
        users: vec![
            UserContext {
                user_id: "demo".to_string(),
                api_key: "demo-key-123".to_string(),
                quota_remaining: 1000,
                policy_overrides: None,
            },
            UserContext {
                user_id: "premium".to_string(),
                api_key: "premium-key-456".to_string(),
                quota_remaining: 10_000,
                policy_overrides: Some(Policy {
                    gamma_gate: 300,
                    time_ms: 60_000,
                    max_risk: 500,
                    tiny_diff_loc: 500,
                }),
            },
        ],
    };
    let u = authenticate_user(&state, "premium-key-456").expect("known key");
    assert_eq!(u.user_id, "premium");
    assert!(u.policy_overrides.is_some());
    assert!(authenticate_user(&state, "wrong").is_none());
}

#[test]
fn golden_names_are_sanitized() {
    assert!(is_safe_golden_name("trace_01-a"));
    assert!(is_safe_golden_name(""));
    assert!(!is_safe_golden_name("../etc/passwd"));
    assert!(!is_safe_golden_name("a b"));
}

#[test]
fn actions_carry_their_payload() {
    match Action::Cli("echo hi".to_string()) {
        Action::Cli(cmd) => assert_eq!(cmd, "echo hi"),
        _ => panic!("expected a command action"),
    }
    match (Action::WriteFile { path: "out/a.txt".to_string(), content: "x".to_string() }) {
        Action::WriteFile { path, content } => {
            assert_eq!(path, "out/a.txt");
            assert_eq!(content, "x");
        },
        _ => panic!("expected a write action"),
    }
}
