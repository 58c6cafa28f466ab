use anti_llm_cheat_lsp::wip::analyze::{admit_snapshot_schema, analyze};
use anti_llm_cheat_lsp::wip::model::{
    BranchSnapshot, ClosureActionKind, DependencyEdge, GitHubSnapshot, IssueSnapshot,
    PullRequestSnapshot, ReleaseSnapshot, RepositorySnapshot, SourceFinding, Standing, Timestamp,
    WipKind, WorkflowRunSnapshot, WIP_REPORT_SCHEMA, WIP_SNAPSHOT_SCHEMA,
};
use anti_llm_cheat_lsp::wip::source::scan_source_text;
use anti_llm_cheat_lsp::wip::tree_sitter_scan::scan_tree_sitter_file;

/// 2026-08-{day}T00:00:00Z.
fn ts(day: u32) -> Timestamp {
    Timestamp { secs: 1_785_542_400 + (i64::from(day) - 1) * 86_400, nanos: 0 }
}

fn snapshot(repositories: Vec<RepositorySnapshot>) -> GitHubSnapshot {
    GitHubSnapshot {
        schema_version: WIP_SNAPSHOT_SCHEMA.to_string(),
        observed_at: ts(15),
        window_days: 30,
        workspace_repository: None,
        repositories,
    }
}

#[test]
fn little_law_uses_observed_closures_only() {
    let mut admitted = snapshot(vec![RepositorySnapshot {
        full_name: "acme/repo".to_string(),
        pull_requests: vec![
            PullRequestSnapshot {
                number: 1,
                state: "open".to_string(),
                created_at: Some(ts(10)),
                updated_at: Some(ts(14)),
                ci_status: "failure".to_string(),
                ..PullRequestSnapshot::default()
            },
            PullRequestSnapshot {
                number: 2,
                state: "closed".to_string(),
                created_at: Some(ts(5)),
                merged_at: Some(ts(10)),
                ..PullRequestSnapshot::default()
            },
        ],
        ..RepositorySnapshot::default()
    }]);
    admitted.window_days = 10;

    let report = analyze(&admitted, Vec::new());
    assert_eq!(report.metrics.wip_l, 1);
    assert_eq!(report.metrics.completed_objects_in_window, 1);
    // Throughput λ = completed / window days = 1 / 10 per day; the library supplies both.
    assert_eq!(report.metrics.observation_window_days, 10);
    assert_eq!(report.metrics.completion_cycle_seconds, vec![5 * 86_400]);
    assert!(report
        .closure_frontier
        .iter()
        .any(|intent| intent.action == ClosureActionKind::RepairCi));
}

#[test]
fn linked_issue_pr_and_failed_workflow_are_one_wip_object() {
    let admitted = snapshot(vec![RepositorySnapshot {
        full_name: "acme/repo".to_string(),
        pull_requests: vec![PullRequestSnapshot {
            number: 10,
            state: "open".to_string(),
            head_branch: "feature/ten".to_string(),
            ci_status: "failure".to_string(),
            linked_issues: vec![3],
            ..PullRequestSnapshot::default()
        }],
        issues: vec![IssueSnapshot {
            number: 3,
            state: "open".to_string(),
            linked_pr: Some(10),
            ..IssueSnapshot::default()
        }],
        workflow_runs: vec![WorkflowRunSnapshot {
            id: 99,
            conclusion: "failure".to_string(),
            pull_request: Some(10),
            ..WorkflowRunSnapshot::default()
        }],
        ..RepositorySnapshot::default()
    }]);

    let report = analyze(&admitted, Vec::new());
    assert_eq!(report.metrics.wip_l, 1);
    assert_eq!(report.wip[0].kind, WipKind::Ci);
    assert!(report.wip[0]
        .evidence
        .iter()
        .any(|item| item == "linked_issue=3"));
}

#[test]
fn stale_unmerged_branch_becomes_orphan_wip() {
    let admitted = snapshot(vec![RepositorySnapshot {
        full_name: "acme/repo".to_string(),
        branches: vec![BranchSnapshot {
            name: "feature/old".to_string(),
            ahead_by: 3,
            last_activity_at: Some(ts(1)),
            ..BranchSnapshot::default()
        }],
        ..RepositorySnapshot::default()
    }]);

    let report = analyze(&admitted, Vec::new());
    assert_eq!(report.wip[0].kind, WipKind::OrphanBranch);
    assert!(report
        .closure_frontier
        .iter()
        .any(|intent| intent.action == ClosureActionKind::CompareAndSupersede));
}

#[test]
fn ocel_projection_never_grants_execution_authority() {
    let admitted = snapshot(vec![RepositorySnapshot {
        full_name: "acme/repo".to_string(),
        issues: vec![IssueSnapshot {
            number: 7,
            state: "open".to_string(),
            ..IssueSnapshot::default()
        }],
        ..RepositorySnapshot::default()
    }]);

    let report = analyze(&admitted, Vec::new());
    assert!(!report.closure_frontier.is_empty());
    assert!(report
        .closure_frontier
        .iter()
        .all(|intent| intent.authority == "INTENT_ONLY"));
    assert!(report
        .closure_frontier
        .iter()
        .all(|intent| intent.receipt_required));
}

#[test]
fn generic_status_vocabulary_is_not_source_wip() {
    let findings = scan_source_text(
        "README.md",
        "Allowed statuses include OPEN, BLOCKED, CANDIDATE, and PARTIAL_ALIVE.\n",
    );
    assert!(findings.is_empty());
}

#[test]
fn declared_status_is_admitted_as_source_wip() {
    let findings = scan_source_text("STATUS.md", "Status: BLOCKED\n");
    assert_eq!(findings.len(), 1);
    assert_eq!(findings[0].standing, Standing::Blocked);
}

#[test]
fn utf8_source_evidence_is_scanned_without_byte_slicing() {
    let line = format!("// TODO {}", "進".repeat(200));
    let findings = match scan_tree_sitter_file("lib.rs", "lib.rs", &line) {
        Some(findings) => findings,
        None => panic!("lib.rs has an admitted grammar"),
    };
    assert_eq!(findings.len(), 1);
    assert!(findings[0].message.ends_with('…'));
}

#[test]
fn report_carries_schema_notes_and_observation_instant() {
    let report = analyze(&snapshot(Vec::new()), Vec::new());
    assert_eq!(report.schema_version, WIP_REPORT_SCHEMA);
    assert_eq!(report.observed_at, ts(15));
    assert_eq!(report.status, Standing::Unknown);
    assert_eq!(report.notes.len(), 3);
    assert!(report.notes[2].starts_with("UNKNOWN is never promoted"));
    assert!(report.wip.is_empty());
    assert!(report.closure_frontier.is_empty());
}

#[test]
fn wip_is_unique_and_ordered_by_identity() {
    let admitted = snapshot(vec![RepositorySnapshot {
        full_name: "acme/repo".to_string(),
        issues: vec![
            IssueSnapshot { number: 9, state: "OPEN".to_string(), ..IssueSnapshot::default() },
            IssueSnapshot { number: 2, state: "open".to_string(), title: "first".to_string(), ..IssueSnapshot::default() },
            IssueSnapshot { number: 2, state: "open".to_string(), title: "second".to_string(), ..IssueSnapshot::default() },
        ],
        ..RepositorySnapshot::default()
    }]);
    let report = analyze(&admitted, Vec::new());
    let ids: Vec<&str> = report.wip.iter().map(|o| o.id.as_str()).collect();
    assert_eq!(ids, vec!["github:acme/repo/issue/2", "github:acme/repo/issue/9"]);
    // The first object with a repeated identity is kept.
    assert_eq!(report.wip[0].title, "#2 first");
    assert_eq!(report.wip[1].title, "Issue #9");
    assert_eq!(report.wip[1].standing, Standing::Unknown);
    assert_eq!(report.metrics.wip_l, 2);
}

#[test]
fn pull_request_classification_and_conditions() {
    let pr = |number: u64, ci: &str, blockers: Vec<String>, draft: bool, updated: u32| PullRequestSnapshot {
        number,
        state: "open".to_string(),
        ci_status: ci.to_string(),
        blockers,
        draft,
        updated_at: Some(ts(updated)),
        ..PullRequestSnapshot::default()
    };
    let admitted = snapshot(vec![RepositorySnapshot {
        full_name: "acme/repo".to_string(),
        pull_requests: vec![
            pr(1, "TIMED_OUT", Vec::new(), false, 14),
            pr(2, "pending", vec!["waits on acme/lib".to_string()], false, 14),
            pr(3, "Passed", Vec::new(), false, 14),
            pr(4, "pending", Vec::new(), true, 1),
            pr(5, "pending", Vec::new(), false, 14),
        ],
        ..RepositorySnapshot::default()
    }]);
    let report = analyze(&admitted, Vec::new());
    let kinds: Vec<(WipKind, Standing)> = report.wip.iter().map(|o| (o.kind, o.standing)).collect();
    assert_eq!(
        kinds,
        vec![
            (WipKind::Ci, Standing::BuildBroken),
            (WipKind::CrossRepoBlocker, Standing::Blocked),
            (WipKind::Merge, Standing::PartialAlive),
            (WipKind::StalePr, Standing::PartialAlive),
            (WipKind::Review, Standing::PartialAlive),
        ]
    );
    assert_eq!(report.wip[0].closure_conditions[0], "inspect the exact-head failing check");
    assert_eq!(report.wip[1].blockers, vec!["waits on acme/lib".to_string()]);
    assert_eq!(report.wip[3].closure_conditions, vec![
        "finish implementation and evidence".to_string(),
        "mark ready only after exact-head verification".to_string(),
    ]);
    // Fourteen days of age, in seconds.
    assert_eq!(report.wip[3].age_seconds, 14 * 86_400);
    assert_eq!(report.wip[4].age_seconds, 86_400);
    assert_eq!(report.status, Standing::BuildBroken);
}

#[test]
fn stale_threshold_is_seven_days_exactly() {
    let admitted = snapshot(vec![RepositorySnapshot {
        full_name: "acme/repo".to_string(),
        branches: vec![
            BranchSnapshot { name: "a".to_string(), ahead_by: 1, last_activity_at: Some(ts(8)), ..BranchSnapshot::default() },
            BranchSnapshot {
                name: "b".to_string(),
                ahead_by: 1,
                last_activity_at: Some(Timestamp { secs: ts(8).secs, nanos: 1 }),
                ..BranchSnapshot::default()
            },
        ],
        ..RepositorySnapshot::default()
    }]);
    let report = analyze(&admitted, Vec::new());
    assert_eq!(report.wip[0].kind, WipKind::OrphanBranch);
    // 6 days, 23:59:59.999999999 truncates to one second short of seven days.
    assert_eq!(report.wip[1].age_seconds, 7 * 86_400 - 1);
    assert_eq!(report.wip[1].kind, WipKind::Code);
}

#[test]
fn branches_skipped_for_default_merged_idle_or_open_pr_head() {
    let branch = |name: &str, ahead: u64, merged: bool| BranchSnapshot {
        name: name.to_string(),
        ahead_by: ahead,
        merged_into_default: merged,
        ..BranchSnapshot::default()
    };
    let admitted = snapshot(vec![RepositorySnapshot {
        full_name: "acme/repo".to_string(),
        default_branch: "main".to_string(),
        branches: vec![
            branch("main", 5, false),
            branch("merged", 5, true),
            branch("idle", 0, false),
            branch("feature/pr", 5, false),
            branch("feature/free", 5, false),
        ],
        pull_requests: vec![PullRequestSnapshot {
            number: 1,
            state: "open".to_string(),
            head_branch: "feature/pr".to_string(),
            ..PullRequestSnapshot::default()
        }],
        ..RepositorySnapshot::default()
    }]);
    let report = analyze(&admitted, Vec::new());
    let ids: Vec<&str> = report.wip.iter().map(|o| o.id.as_str()).collect();
    assert_eq!(ids, vec!["github:acme/repo/branch/feature/free", "github:acme/repo/pr/1"]);
    // Without any activity the branch is age 0 and not stale.
    assert_eq!(report.wip[0].kind, WipKind::Code);
    assert_eq!(report.wip[0].evidence, vec!["ahead_by=5".to_string(), "head_sha=".to_string()]);
}

#[test]
fn completions_outside_the_window_are_not_counted() {
    let mut admitted = snapshot(vec![RepositorySnapshot {
        full_name: "acme/repo".to_string(),
        pull_requests: vec![PullRequestSnapshot {
            number: 1,
            state: "closed".to_string(),
            created_at: Some(ts(1)),
            closed_at: Some(ts(2)),
            ..PullRequestSnapshot::default()
        }],
        issues: vec![
            // Closed with a listed PR: the PR stands for it.
            IssueSnapshot {
                number: 5,
                state: "closed".to_string(),
                linked_pr: Some(1),
                created_at: Some(ts(1)),
                closed_at: Some(ts(14)),
                ..IssueSnapshot::default()
            },
            IssueSnapshot {
                number: 6,
                state: "closed".to_string(),
                created_at: Some(ts(3)),
                closed_at: Some(ts(14)),
                ..IssueSnapshot::default()
            },
        ],
        releases: vec![
            ReleaseSnapshot {
                tag_name: "v1".to_string(),
                created_at: Some(ts(12)),
                published_at: Some(ts(13)),
                ..ReleaseSnapshot::default()
            },
            ReleaseSnapshot {
                tag_name: "v2".to_string(),
                name: "next".to_string(),
                draft: true,
                created_at: Some(ts(14)),
                ..ReleaseSnapshot::default()
            },
        ],
        ..RepositorySnapshot::default()
    }]);
    admitted.window_days = 5;
    let report = analyze(&admitted, Vec::new());
    assert_eq!(report.metrics.completed_objects_in_window, 2);
    assert_eq!(report.metrics.completion_cycle_seconds, vec![11 * 86_400, 86_400]);
    assert_eq!(report.wip.len(), 1);
    assert_eq!(report.wip[0].title, "draft release v2 (next)");
    assert_eq!(report.wip[0].evidence, vec!["tag=v2".to_string(), "prerelease=false".to_string()]);
}

#[test]
fn dependents_are_sorted_and_unique() {
    let edge = |from: &str, to: &str, blocking: bool| DependencyEdge {
        from: from.to_string(),
        to: to.to_string(),
        relation: "blocks".to_string(),
        blocking,
    };
    let admitted = snapshot(vec![RepositorySnapshot {
        full_name: "acme/repo".to_string(),
        issues: vec![IssueSnapshot { number: 1, state: "open".to_string(), ..IssueSnapshot::default() }],
        dependency_edges: vec![
            edge("zeta", "acme/repo", true),
            edge("alpha", "github:acme/repo/issue/1", true),
            edge("zeta", "github:acme/repo/issue/1", true),
            edge("ignored", "acme/repo", false),
        ],
        ..RepositorySnapshot::default()
    }]);
    let report = analyze(&admitted, Vec::new());
    assert_eq!(report.wip[0].dependents, vec!["alpha".to_string(), "zeta".to_string()]);
    assert!(report.closure_frontier.iter().all(|intent| intent.blocked_dependents == 2));
}

#[test]
fn source_findings_collapse_by_path_and_kind() {
    let finding = |path: &str, line: usize, marker: &str, kind: WipKind, standing: Standing| SourceFinding {
        id: format!("{path}:{line}:{marker}"),
        path: path.to_string(),
        line,
        marker: marker.to_string(),
        kind,
        standing,
        message: format!("{marker} here"),
    };
    let findings = vec![
        finding("src/b.rs", 3, "TODO", WipKind::SourceMarker, Standing::PartialAlive),
        finding("src/a.rs", 1, "FIXME", WipKind::SourceMarker, Standing::PartialAlive),
        finding("src/b.rs", 1, "FIXME", WipKind::SourceMarker, Standing::Blocked),
        finding("src/b.rs", 2, "TODO", WipKind::SourceMarker, Standing::PartialAlive),
    ];
    let mut admitted = snapshot(Vec::new());
    admitted.workspace_repository = Some("acme/ws".to_string());
    let report = analyze(&admitted, findings);
    assert_eq!(report.wip.len(), 2);
    let b = match report.wip.iter().find(|o| o.title.contains("src/b.rs")) {
        Some(o) => o,
        None => panic!("a group for src/b.rs"),
    };
    assert_eq!(b.title, "3 source WIP finding(s) in src/b.rs [FIXME, TODO]");
    assert_eq!(b.repository, "acme/ws");
    assert_eq!(b.standing, Standing::Blocked);
    // The blocker is the message of the group's first finding.
    assert_eq!(b.blockers, vec!["TODO here".to_string()]);
    assert_eq!(
        b.evidence,
        vec!["src/b.rs:3:TODO".to_string(), "src/b.rs:1:FIXME".to_string(), "src/b.rs:2:TODO".to_string()]
    );
    assert!(b.id.starts_with("source:"));
    assert_eq!(b.id.len(), "source:".len() + 16);
    assert_eq!(report.status, Standing::Blocked);
}

#[test]
fn unsupported_snapshot_schema_is_refused() {
    assert!(admit_snapshot_schema(WIP_SNAPSHOT_SCHEMA).is_ok());
    assert_eq!(
        admit_snapshot_schema("chatman.wip.github-snapshot/v0"),
        Err("unsupported snapshot schema chatman.wip.github-snapshot/v0; expected chatman.wip.github-snapshot/v1".to_string())
    );
}
