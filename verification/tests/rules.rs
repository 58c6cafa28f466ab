use anti_llm_cheat_lsp::config::AntiLlmConfig;
use anti_llm_cheat_lsp::negative_controls::{run_with_timeout, run_with_timeout_v2};
use anti_llm_cheat_lsp::observations::Observation;
use anti_llm_cheat_lsp::rules::{hedge, hollow, mutation, rust_smells, version};

fn obs(file: &str, line: usize, kind: &str, construct: &str, context: &str, message: &str) -> Observation {
    Observation {
        file_path: file.to_string(),
        start_byte: 0,
        end_byte: 0,
        line,
        column: 1,
        kind: kind.to_string(),
        construct: construct.to_string(),
        context: context.to_string(),
        message: message.to_string(),
    }
}

#[test]
fn hedge_comments_inside_comments_only() {
    let content = "// For now, we skip validation\nlet x = 1; // in a real implementation\n/* this is a placeholder\n   stub implementation */\nfn f() {} // will be replaced\n";
    let found = hedge::scan_for_hedge("src/a.rs", content);
    let constructs: Vec<&str> = found.iter().map(|o| o.construct.as_str()).collect();
    assert_eq!(constructs, vec!["For now, we", "this is a placeholder", "stub implementation"]);
    assert_eq!(found[0].line, 1);
    assert_eq!(found[2].line, 4);
    assert_eq!(found[0].message, "Hedge comment 'For now, we' detected on line 1");

    let diags = hedge::evaluate(&found, &AntiLlmConfig::default());
    assert_eq!(diags.len(), 3);
    assert!(diags.iter().all(|d| d.code == "ANTI-LLM-HEDGE-001" && d.blocking));
    assert_eq!(
        diags[0].message,
        "Hedge comment detected: 'For now, we' — implementation admitted incomplete via comment"
    );
}

#[test]
fn hedge_diagnostics_respect_suppression_paths() {
    let found = hedge::scan_for_hedge("fixtures/hedge.rs", "// temporary workaround\n");
    assert_eq!(found.len(), 1);
    let config = AntiLlmConfig { suppression_paths: vec!["fixtures/".to_string()] };
    assert!(hedge::evaluate(&found, &config).is_empty());
    assert!(config.is_suppression_allowed("a/fixtures/b.rs"));
    assert!(!AntiLlmConfig::default().is_suppression_allowed("a/fixtures/b.rs"));
}

#[test]
fn calver_components_out_of_range_or_placeholder() {
    let found = version::scan_for_calver_violations("Cargo.toml", "version = \"24.13.5\"\nversion = \"26.1.1\"\nversion = \"26.6.27\"\n");
    let constructs: Vec<(&str, usize)> = found.iter().map(|o| (o.construct.as_str(), o.line)).collect();
    assert_eq!(constructs, vec![("calver_out_of_range", 1), ("calver_placeholder", 2)]);
    assert_eq!(found[0].context, "24.13.5 (year=24, month=13, day=5)");
    assert_eq!(
        found[1].message,
        "Static CalVer placeholder in '26.1.1': Jan-1 default or zero component"
    );
    let diags = version::evaluate(&found, &AntiLlmConfig::default());
    let codes: Vec<&str> = diags.iter().map(|d| d.code.as_str()).collect();
    assert_eq!(codes, vec!["ANTI-LLM-VERSION-004", "ANTI-LLM-VERSION-005"]);
}

#[test]
fn template_version_is_flagged() {
    let o = obs("Cargo.toml", 3, "version", "version = \"1.0.0\"", "version = \"1.0.0\"", "");
    let diags = version::evaluate(&[o], &AntiLlmConfig::default());
    assert_eq!(diags[0].code, "ANTI-LLM-VERSION-001");
    assert!(diags[0].blocking);
    assert_eq!(diags[0].line, 3);
}

#[test]
fn file_writes_outside_tests_are_mutations() {
    let found = vec![
        obs("src/server.rs", 7, "call", "std::fs::write", "", ""),
        obs("tests/server.rs", 7, "call", "std::fs::write", "", ""),
        obs("src/edit.rs", 9, "call", "WorkspaceEdit", "", ""),
    ];
    let diags = mutation::evaluate(&found, &AntiLlmConfig::default());
    let codes: Vec<(&str, &str)> = diags.iter().map(|d| (d.code.as_str(), d.file_path.as_str())).collect();
    assert_eq!(codes, vec![("ANTI-LLM-MUT-001", "src/server.rs"), ("ANTI-LLM-MUT-002", "src/edit.rs")]);
}

#[test]
fn strange_code_constructs() {
    let found = vec![
        obs("src/a.rs", 1, "k", "CLAP-DEBUG", "", ""),
        obs("src/b.rs", 2, "k", "x", "", "this leaks raw content here"),
    ];
    let diags = rust_smells::evaluate(&found);
    let codes: Vec<&str> = diags.iter().map(|d| d.code.as_str()).collect();
    assert_eq!(codes, vec!["ANTI-LLM-STRANGE-001", "ANTI-LLM-STRANGE-002"]);
    assert_eq!(diags[1].line, 2);
}

#[test]
fn hollow_rust_patterns() {
    let found = hollow::scan_for_hollow("src/lib.rs", "fn f() { todo!() }\nfn g() -> R { Ok(None) }\n");
    let constructs: Vec<&str> = found.iter().map(|o| o.construct.as_str()).collect();
    assert_eq!(constructs, vec!["todo!()", "Ok(None)"]);
    assert_eq!(found[0].message, "Hollow pattern 'todo!()' detected on line 1");
    let diags = hollow::evaluate(&found, &AntiLlmConfig::default());
    let codes: Vec<(&str, bool)> = diags.iter().map(|d| (d.code.as_str(), d.blocking)).collect();
    assert_eq!(codes, vec![("ANTI-LLM-HOLLOW-002", true), ("ANTI-LLM-HOLLOW-008", false)]);
}

#[test]
fn empty_some_result_is_a_non_blocking_candidate() {
    let o = obs("src/h.rs", 4, "hollow_smell", "Ok(Some(vec![]))", "    Ok(Some(vec![]))", "");
    let diags = hollow::evaluate(&[o], &AntiLlmConfig::default());
    let codes: Vec<(&str, bool)> = diags.iter().map(|d| (d.code.as_str(), d.blocking)).collect();
    assert_eq!(codes, vec![("ANTI-LLM-HOLLOW-007", false), ("ANTI-LLM-HOLLOW-014", false)]);
    let empty_vec = obs("src/h.rs", 5, "hollow_smell", "Ok(vec![])", "    Ok(vec![])", "");
    let diags = hollow::evaluate(&[empty_vec], &AntiLlmConfig::default());
    let codes: Vec<(&str, bool)> = diags.iter().map(|d| (d.code.as_str(), d.blocking)).collect();
    assert_eq!(codes, vec![("ANTI-LLM-HOLLOW-013", true)]);
}

#[test]
fn negative_control_primary_fails_and_twin_succeeds() {
    assert_eq!(run_with_timeout("sleep 1"), Err("timeout".to_string()));
    assert_eq!(run_with_timeout_v2("sleep 1"), Ok(()));
}
