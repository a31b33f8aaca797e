use one_engine::research::ResearchArtifact;
use one_engine::research::adler32;
use one_engine::research::artifact_from_file;
use one_engine::research::build_index_multi;
use one_engine::research::checksum_hex;
use one_engine::research::front_matter_tags;
use one_engine::research::kind_for;
use one_engine::research::summarize;

fn artifact(
    kind: &str,
    path: &str,
    ts: &str,
    ttl: u64,
    tags: &[&str],
    branch: Option<&str>,
    commit: Option<&str>,
) -> ResearchArtifact {
    ResearchArtifact {
        id: format!("{}#{}", path, ttl),
        kind: kind.to_string(),
        path: path.to_string(),
        ts: ts.to_string(),
        ttl,
        tags: tags.iter().map(|t| t.to_string()).collect(),
        checksum: "deadbeef".into(),
        git_commit: commit.map(|c| c.to_string()),
        git_branch: branch.map(|b| b.to_string()),
    }
}

fn secs(ts: &str) -> i64 {
    chrono::DateTime::parse_from_rfc3339(ts).unwrap().timestamp()
}

#[test]
fn summary_counts_and_expiry() {
    let now = secs("2024-01-02T00:00:00Z");
    let arts = vec![
        artifact(
            "doc",
            "docs/a.md",
            "2024-01-01T00:00:00Z",
            86_400,
            &["alpha"],
            Some("main"),
            Some("abc123"),
        ),
        artifact(
            "policy",
            "policies/b.yaml",
            "2024-01-01T12:00:00Z",
            172_800,
            &["beta", "alpha"],
            Some("dev"),
            Some("def456"),
        ),
        artifact(
            "prompt",
            "prompts/c.md",
            "2024-01-05T00:00:00Z",
            0,
            &[],
            None,
            None,
        ),
    ];

    let summary = summarize(&arts, now);

    assert_eq!(summary.total, 3);
    assert_eq!(summary.by_kind.get("doc"), 1);
    assert_eq!(summary.by_kind.get("policy"), 1);
    assert_eq!(summary.by_kind.get("prompt"), 1);
    assert_eq!(summary.by_tag.get("alpha"), 2);
    assert_eq!(summary.by_tag.get("beta"), 1);
    assert_eq!(summary.untagged, 1);
    assert_eq!(summary.missing_git_commit, 1);
    assert_eq!(summary.by_branch.get("main"), 1);
    assert_eq!(summary.by_branch.get("dev"), 1);
    assert_eq!(summary.by_branch.get("<unknown>"), 1);

    let span = summary.time_span.expect("time span");
    assert_eq!(span.earliest, "2024-01-01T00:00:00+00:00");
    assert_eq!(span.latest, "2024-01-05T00:00:00+00:00");

    assert_eq!(summary.expiring_soon.len(), 1);
    let soon = &summary.expiring_soon[0];
    assert_eq!(soon.path, "policies/b.yaml");
    assert_eq!(soon.expires_at, "2024-01-03T12:00:00+00:00");
    assert_eq!(soon.seconds_remaining, 129_600);

    assert_eq!(summary.expired.len(), 1);
    let expired = &summary.expired[0];
    assert_eq!(expired.path, "docs/a.md");
    assert_eq!(expired.expires_at, "2024-01-02T00:00:00+00:00");
    assert_eq!(expired.seconds_remaining, 0);
}

#[test]
fn summary_of_empty_catalogue() {
    let summary = summarize(&Vec::new(), secs("2024-01-02T00:00:00Z"));
    assert_eq!(summary.total, 0);
    assert_eq!(summary.untagged, 0);
    assert!(summary.time_span.is_none());
    assert!(summary.expired.is_empty());
    assert!(summary.expiring_soon.is_empty());
}

#[test]
fn summary_orders_expiry_by_remaining() {
    let now = secs("2024-01-10T00:00:00Z");
    let arts = vec![
        artifact("doc", "late.md", "2024-01-01T00:00:00Z", 86_400, &[], None, None),
        artifact("doc", "later.md", "2024-01-05T00:00:00Z", 86_400, &[], None, None),
        artifact("doc", "soonest.md", "2024-01-09T23:00:00Z", 7_200, &[], None, None),
    ];
    let summary = summarize(&arts, now);
    assert_eq!(summary.expired.len(), 2);
    assert_eq!(summary.expired[0].path, "late.md");
    assert_eq!(summary.expired[1].path, "later.md");
    assert_eq!(summary.expiring_soon.len(), 1);
    assert_eq!(summary.expiring_soon[0].path, "soonest.md");
    assert_eq!(summary.expiring_soon[0].seconds_remaining, 3_600);
}

#[test]
fn adler32_known_values() {
    assert_eq!(adler32(b""), 1);
    assert_eq!(adler32(b"Wikipedia"), 0x11E6_0398);
    assert_eq!(checksum_hex(b"Wikipedia"), "11e60398");
}

#[test]
fn kind_for_patterns() {
    assert_eq!(kind_for("repo/prompts/x.md"), "prompt");
    assert_eq!(kind_for("repo/POLICIES/p.yaml"), "policy");
    assert_eq!(kind_for("repo/schemas/s.json"), "schema");
    assert_eq!(kind_for("repo/trace/golden/t.json"), "trace");
    assert_eq!(kind_for("repo/docs/guide.md"), "doc");
    assert_eq!(kind_for("repo/README.md"), "doc");
    assert_eq!(kind_for("data/set.yaml"), "dataset");
    assert_eq!(kind_for("src/main.rs"), "other");
}

#[test]
fn front_matter_tags_extracts_list() {
    let buf = b"---\ntags:\n  - alpha\n  - beta\n---\nbody\n";
    assert_eq!(front_matter_tags(buf), vec!["alpha".to_string(), "beta".to_string()]);
}

#[test]
fn front_matter_tags_requires_marker() {
    assert!(front_matter_tags(b"tags:\n  - alpha\n").is_empty());
    assert!(front_matter_tags(b"").is_empty());
    assert!(front_matter_tags(b"---\nno tags here\n---\n").is_empty());
}

#[test]
fn front_matter_tags_stops_at_blank_line() {
    let buf = b"---\ntags:\n  - alpha\n\n  - beta\n---\n";
    assert_eq!(front_matter_tags(buf), vec!["alpha".to_string()]);
}

#[test]
fn artifact_from_file_fields() {
    let now = secs("2024-01-02T00:00:00Z");
    let mtime = secs("2024-01-01T00:00:00Z");
    let a = artifact_from_file(
        "work/policies/p.yaml",
        "policies/p.yaml",
        b"key: value\n",
        Some(mtime),
        now,
        Some("abc123".to_string()),
        Some("main".to_string()),
    );
    assert_eq!(a.kind, "policy");
    assert_eq!(a.path, "policies/p.yaml");
    assert_eq!(a.ts, "2024-01-01T00:00:00+00:00");
    assert_eq!(a.ttl, 14 * 24 * 3600);
    assert_eq!(a.tags, vec!["policy".to_string()]);
    assert_eq!(a.checksum, format!("{:08x}", adler32(b"key: value\n")));
    assert_eq!(a.id, format!("policies/p.yaml#{}", a.checksum));
    assert_eq!(a.git_commit.as_deref(), Some("abc123"));
    assert_eq!(a.git_branch.as_deref(), Some("main"));

    let golden = artifact_from_file(
        "work/trace/golden/t.json",
        "trace/golden/t.json",
        b"{}",
        None,
        now,
        None,
        None,
    );
    assert_eq!(golden.ttl, 0);
    assert_eq!(golden.ts, "2024-01-02T00:00:00+00:00");
    assert_eq!(golden.kind, "trace");
}

#[test]
fn build_index_multi_dedups_by_checksum() {
    let a = artifact("doc", "a.md", "2024-01-01T00:00:00Z", 0, &[], None, None);
    let mut b = artifact("doc", "b.md", "2024-01-01T00:00:00Z", 0, &[], None, None);
    b.checksum = "feedface".into();
    let mut a_again = artifact("doc", "a-copy.md", "2024-01-01T00:00:00Z", 0, &[], None, None);
    a_again.checksum = a.checksum.clone();
    let merged = build_index_multi(vec![vec![a, b], vec![a_again]]);
    assert_eq!(merged.len(), 2);
    assert_eq!(merged[0].path, "a.md");
    assert_eq!(merged[1].path, "b.md");
}
