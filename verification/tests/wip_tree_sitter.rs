use anti_llm_cheat_lsp::wip::model::{SourceFinding, Standing, WipKind};
use anti_llm_cheat_lsp::wip::tree_sitter_scan::{
    classify_comment_status, compact, compact_whitespace, contains_unfinished_phrase, is_comment_node,
    is_string_node, is_test_path, scan_tree_sitter_file, source_kind, strip_comment_prefix,
    SyntaxLanguage,
};
use anti_llm_cheat_lsp::wip::{is_tree_sitter_path, supported_tree_sitter_languages};

fn scan(path: &str, source: &str) -> Vec<SourceFinding> {
    match scan_tree_sitter_file(path, path, source) {
        Some(findings) => findings,
        None => panic!("{path} has an admitted grammar"),
    }
}

#[test]
fn language_registry_is_polyglot() {
    let languages = supported_tree_sitter_languages();
    for expected in [
        "rust",
        "typescript",
        "tsx",
        "javascript",
        "python",
        "go",
        "java",
        "c",
        "cpp",
        "csharp",
        "bash",
    ] {
        assert!(languages.contains(&expected));
    }
}

#[test]
fn rust_ast_ignores_marker_like_strings() {
    let findings = scan("lib.rs", "pub fn message() -> &'static str { \"TODO: not implemented\" }\n");
    assert!(findings.is_empty());
}

#[test]
fn rust_todo_macro_is_ast_wip() {
    let findings = scan("lib.rs", "pub fn unfinished() { todo!(\"later\"); }\n");
    assert_eq!(findings.len(), 1);
    assert_eq!(findings[0].kind, WipKind::Code);
    assert!(findings[0].marker.contains("tree-sitter:rust:todo!"));
}

#[test]
fn python_pass_only_function_is_wip() {
    let findings = scan("service.py", "def load():\n    pass\n");
    assert_eq!(findings.len(), 1);
    assert_eq!(findings[0].kind, WipKind::Code);
    assert!(findings[0].marker.contains("tree-sitter:python:pass-stub"));
}

#[test]
fn go_todo_panic_is_wip() {
    let findings = scan("worker.go", "package worker\nfunc Run() { panic(\"TODO: wire backend\") }\n");
    assert_eq!(findings.len(), 1);
    assert!(findings[0].marker.contains("tree-sitter:go:panic-unfinished"));
}

#[test]
fn typescript_not_implemented_throw_is_wip() {
    let findings = scan(
        "client.ts",
        "export function connect(): never { throw new Error(\"Not implemented\"); }\n",
    );
    assert_eq!(findings.len(), 1);
    assert!(findings[0]
        .marker
        .contains("tree-sitter:typescript:throw-not-implemented"));
}

#[test]
fn csharp_not_implemented_exception_is_wip() {
    let findings = scan(
        "Service.cs",
        "class Service { void Run() { throw new System.NotImplementedException(); } }\n",
    );
    assert_eq!(findings.len(), 1);
    assert!(findings[0]
        .marker
        .contains("tree-sitter:csharp:throw-not-implemented"));
}

#[test]
fn syntax_error_is_build_broken_wip() {
    let findings = scan("Broken.java", "class Broken { void run( { }\n");
    assert!(findings
        .iter()
        .any(|finding| finding.standing == Standing::BuildBroken));
}

#[test]
fn test_file_stub_is_typed_as_test_wip() {
    let findings = scan("tests/test_api.py", "def test_api():\n    pass\n");
    assert_eq!(findings.len(), 1);
    assert_eq!(findings[0].kind, WipKind::Test);
}

#[test]
fn cpp_header_uses_best_of_c_and_cpp_grammars() {
    assert!(scan("widget.h", "class Widget { public: void run(); };\n").is_empty());
}

#[test]
fn javascript_comment_marker_is_ast_wip() {
    let findings = scan("index.js", "// FIXME: close transport\nexport const ready = false;\n");
    assert_eq!(findings.len(), 1);
    assert!(findings[0].marker.contains("tree-sitter:javascript:FIXME"));
}

#[test]
fn finding_identity_line_and_message() {
    let findings = scan("lib.rs", "fn a() {}\n\nfn b() {\n    unimplemented!()\n}\n");
    assert_eq!(findings.len(), 1);
    let f = &findings[0];
    assert_eq!(f.line, 4);
    assert_eq!(f.path, "lib.rs");
    assert_eq!(f.marker, "tree-sitter:rust:unimplemented!");
    assert_eq!(f.message, "tree-sitter/rust Rust unimplemented! macro: unimplemented!()");
    assert_eq!(f.standing, Standing::PartialAlive);
    assert!(f.id.starts_with("source:"));
    assert_eq!(f.id.len(), 23);
}

#[test]
fn comment_status_and_replay_pointer() {
    let findings = scan("run.sh", "# Status: BLOCKED on file:///tmp/x\nexit 1 # todo\n");
    let markers: Vec<&str> = findings.iter().map(|f| f.marker.as_str()).collect();
    assert!(markers.contains(&"tree-sitter:bash:BLOCKED"));
    assert!(markers.contains(&"tree-sitter:bash:machine-local-replay"));
    assert!(findings.iter().any(|f| f.kind == WipKind::Replay));
    assert!(findings.iter().any(|f| f.standing == Standing::Blocked && f.kind == WipKind::CrossRepoBlocker));
}

#[test]
fn unadmitted_extensions_are_left_to_the_line_scanner() {
    assert!(scan_tree_sitter_file("notes.md", "notes.md", "TODO").is_none());
    assert!(scan_tree_sitter_file("Makefile", "Makefile", "TODO").is_none());
    assert!(!is_tree_sitter_path("README"));
    assert!(is_tree_sitter_path("src/Main.JAVA"));
    assert!(is_tree_sitter_path("widget.hpp"));
}

#[test]
fn test_paths_and_source_kinds() {
    assert!(is_test_path("src\\__tests__\\widget.js"));
    assert!(is_test_path("pkg/server_test.go"));
    assert!(is_test_path("web/app.spec.ts"));
    assert!(is_test_path("src/FooTest.java"));
    assert!(is_test_path("Test_Module.py"));
    assert!(!is_test_path("src/testing.rs"));
    assert!(!is_test_path("src/contest.py"));
    assert_eq!(source_kind("spec/models.rb"), WipKind::Test);
    assert_eq!(source_kind("src/lib.rs"), WipKind::Code);
}

#[test]
fn node_vocabulary() {
    assert!(is_comment_node("comment"));
    assert!(is_comment_node("line_comment"));
    assert!(!is_comment_node("commentary"));
    assert!(is_string_node("interpreted_string_literal"));
    assert!(is_string_node("char_literal"));
    assert!(!is_string_node("identifier"));
    assert!(contains_unfinished_phrase("raise NotImplemented"));
    assert!(contains_unfinished_phrase("Stub Implementation here"));
    assert!(!contains_unfinished_phrase("implemented"));
}

#[test]
fn comment_prefixes_and_statuses() {
    assert_eq!(strip_comment_prefix("  /// ** # -- Status: OPEN  "), "** # -- Status: OPEN");
    assert_eq!(strip_comment_prefix("/**  Standing = partial_alive */"), "Standing = partial_alive */");
    assert_eq!(strip_comment_prefix("# - standing: build_broken"), "- standing: build_broken");
    assert_eq!(classify_comment_status("# - standing: build_broken"), None);
    assert_eq!(strip_comment_prefix("#- standing: build_broken"), "standing: build_broken");
    let status = classify_comment_status("#- standing: build_broken");
    assert_eq!(status.map(|s| s.0), Some("BUILD_BROKEN"));
    assert_eq!(status.map(|s| s.2), Some(Standing::BuildBroken));
    assert_eq!(classify_comment_status("// Status = candidate").map(|s| s.0), Some("CANDIDATE_OR_OPEN"));
    assert_eq!(classify_comment_status("// the status: BLOCKED"), None);
    assert_eq!(classify_comment_status("// Status: done"), None);
}

#[test]
fn whitespace_is_flattened_and_evidence_cut() {
    assert_eq!(compact_whitespace("  a\t\tb \n c  "), "a b c");
    assert_eq!(compact_whitespace(" \n\t "), "");
    let long = format!("x {}", "y".repeat(200));
    let c = compact(&long);
    assert_eq!(c.chars().count(), 161);
    assert!(c.ends_with('…'));
    assert_eq!(compact("short  text"), "short text");
    assert_eq!(SyntaxLanguage::CSharp.name(), "csharp");
}
