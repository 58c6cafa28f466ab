use anti_llm_cheat_lsp::wip::model::{SourceFinding, Standing, WipKind};
use anti_llm_cheat_lsp::wip::source::{
    classify_declared_status, compact_line, finding_id, is_scanner_self_surface,
    missing_dependency_finding, path_dependency_candidates, scan_source_text, should_skip,
    sort_and_dedup_findings,
};

fn finding(path: &str, line: usize, marker: &str, id: &str, message: &str) -> SourceFinding {
    SourceFinding {
        id: id.to_string(),
        path: path.to_string(),
        line,
        marker: marker.to_string(),
        kind: WipKind::SourceMarker,
        standing: Standing::PartialAlive,
        message: message.to_string(),
    }
}

#[test]
fn finding_ids_are_short_stable_hex() {
    let a = finding_id("src/a.rs", 3, "TODO");
    assert_eq!(a, finding_id("src/a.rs", 3, "TODO"));
    assert_ne!(a, finding_id("src/a.rs", 4, "TODO"));
    assert!(a.starts_with("source:"));
    let hex = &a["source:".len()..];
    assert_eq!(hex.len(), 16);
    assert!(hex.chars().all(|c| c.is_ascii_hexdigit() && !c.is_ascii_uppercase()));
    let full = blake3::hash(b"src/a.rs:3:TODO").to_hex().to_string();
    assert_eq!(hex, &full[..16]);
}

#[test]
fn line_scanner_markers_and_statuses() {
    let content = "intro\n  TODO: write docs; not implemented yet  \r\n| Status | BUILD_BROKEN |\nWipKind::Code with Standing::Blocked TODO\n";
    let found = scan_source_text("NOTES.md", content);
    let markers: Vec<(&str, usize)> = found.iter().map(|f| (f.marker.as_str(), f.line)).collect();
    assert_eq!(markers, vec![("TODO", 2), ("not implemented", 2), ("BUILD_BROKEN", 3)]);
    assert_eq!(found[0].message, "TODO marker: TODO: write docs; not implemented yet");
    assert_eq!(found[1].kind, WipKind::Code);
    assert_eq!(found[2].kind, WipKind::Ci);
    assert_eq!(found[2].standing, Standing::BuildBroken);
    assert_eq!(found[2].id, finding_id("NOTES.md", 3, "BUILD_BROKEN"));
}

#[test]
fn replay_pointers_and_rust_macros_in_text_files() {
    let found = scan_source_text("plan.txt", "see file:///home/me/run.log\ncall todo!( later)\n");
    let markers: Vec<(&str, WipKind)> = found.iter().map(|f| (f.marker.as_str(), f.kind)).collect();
    assert_eq!(markers, vec![("file:///", WipKind::Replay), ("todo!(", WipKind::Code)]);
}

#[test]
fn declared_status_words() {
    let chars: Vec<char> = "  standing = candidate".chars().collect();
    assert_eq!(classify_declared_status(&chars).map(|c| c.0), Some("CANDIDATE_OR_OPEN"));
    let chars: Vec<char> = "Status: done".chars().collect();
    assert_eq!(classify_declared_status(&chars), None);
    let chars: Vec<char> = "status:partial_alive and blocked".chars().collect();
    assert_eq!(classify_declared_status(&chars).map(|c| c.0), Some("BLOCKED"));
}

#[test]
fn compact_line_trims_and_cuts_at_160_characters() {
    let line: Vec<char> = format!("   {}   ", "é".repeat(170)).chars().collect();
    let c = compact_line(&line);
    assert_eq!(c.chars().count(), 161);
    assert!(c.ends_with('…'));
    let short: Vec<char> = "\t keep me \t".chars().collect();
    assert_eq!(compact_line(&short), "keep me");
    let exact: Vec<char> = "x".repeat(160).chars().collect();
    assert_eq!(compact_line(&exact).chars().count(), 160);
}

#[test]
fn path_dependencies_of_a_manifest() {
    let manifest = "[dependencies]\nfoo = { path = \"../foo\" }\nbar = \"1\"\nbaz = { path=\"crates/baz\", version = \"2\" }\n";
    let deps = path_dependency_candidates(manifest);
    assert_eq!(deps, vec![(2, "../foo".to_string()), (4, "crates/baz".to_string())]);
    let f = missing_dependency_finding(2, "../foo");
    assert_eq!(f.path, "Cargo.toml");
    assert_eq!(f.marker, "../foo");
    assert_eq!(f.kind, WipKind::Dependency);
    assert_eq!(f.standing, Standing::Blocked);
    assert_eq!(f.message, "missing path dependency: ../foo");
    assert_eq!(f.id, finding_id("Cargo.toml", 2, "../foo"));
}

#[test]
fn findings_sorted_stably_and_repeats_dropped() {
    let found = vec![
        finding("b.rs", 2, "TODO", "x", "first x"),
        finding("a.rs", 9, "TODO", "y", "y"),
        finding("b.rs", 1, "FIXME", "z", "z"),
        finding("b.rs", 2, "TODO", "x", "second x"),
        finding("b.rs", 2, "FIXME", "w", "w"),
    ];
    let sorted = sort_and_dedup_findings(&found);
    let keys: Vec<(&str, usize, &str, &str)> = sorted
        .iter()
        .map(|f| (f.path.as_str(), f.line, f.marker.as_str(), f.message.as_str()))
        .collect();
    assert_eq!(
        keys,
        vec![
            ("a.rs", 9, "TODO", "y"),
            ("b.rs", 1, "FIXME", "z"),
            ("b.rs", 2, "FIXME", "w"),
            ("b.rs", 2, "TODO", "first x"),
        ]
    );
}

#[test]
fn skipped_and_self_surface_paths() {
    let parts = |p: &str| p.split('/').map(|s| s.to_string()).collect::<Vec<_>>();
    assert!(should_skip(&parts("repo/target/debug/x.rs")));
    assert!(should_skip(&parts("web/node_modules/a.js")));
    assert!(!should_skip(&parts("src/targets.rs")));
    assert!(is_scanner_self_surface("src/wip/source.rs"));
    assert!(is_scanner_self_surface("docs/WIP_CLOSURE_ENGINE.md"));
    assert!(!is_scanner_self_surface("src/wip/model.rs"));
}
