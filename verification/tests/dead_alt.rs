use anti_llm_cheat_lsp::config::AntiLlmConfig;
use anti_llm_cheat_lsp::rules::dead_alt::{evaluate, scan_for_dead_alt};

fn dummy_config() -> AntiLlmConfig {
    AntiLlmConfig::default()
}

#[test]
fn detects_unused_v2_function() {
    let src = r#"
fn run_with_timeout(ms: u64) -> bool {
    false // broken
}

fn run_with_timeout_v2(ms: u64) -> bool {
    true // correct
}

fn main() {
    run_with_timeout(100);
}
"#;
    let obs = scan_for_dead_alt("example.rs", src);
    assert_eq!(obs.len(), 1);
    assert_eq!(obs[0].construct, "run_with_timeout_v2");

    let diags = evaluate(&obs, &dummy_config());
    assert_eq!(diags.len(), 1);
    assert_eq!(diags[0].code, "ANTI-LLM-DEAD-ALT-001");
    assert!(diags[0].blocking);
}

#[test]
fn no_false_positive_when_alt_is_called() {
    let src = r#"
fn compute_fixed(x: i32) -> i32 { x * 2 }

fn main() {
    let _ = compute_fixed(3);
}
"#;
    let obs = scan_for_dead_alt("example.rs", src);
    assert!(obs.is_empty());
}

#[test]
fn skips_non_rust_files() {
    let src = "fn foo_v2() {}";
    let obs = scan_for_dead_alt("example.py", src);
    assert!(obs.is_empty());
}

#[test]
fn detects_alt_suffix_variants() {
    for suffix in &[
        "_alt", "_correct", "_real", "_proper", "_fixed", "_working", "_new", "_better", "_v3",
    ] {
        let fn_name = format!("do_thing{}", suffix);
        let src = format!("fn {}() {{}}\nfn main() {{}}", fn_name);
        let obs = scan_for_dead_alt("example.rs", &src);
        assert_eq!(obs.len(), 1, "expected detection for suffix {}", suffix);
        assert_eq!(obs[0].construct, fn_name);
    }
}

#[test]
fn dead_alt_message_names_function_and_line() {
    let obs = scan_for_dead_alt("src/a.rs", "\n\npub async fn load_real() {}\n");
    assert_eq!(obs.len(), 1);
    assert_eq!(obs[0].line, 3);
    assert_eq!(obs[0].kind, "dead_alt_smell");
    assert_eq!(obs[0].context, "pub async fn load_real() {}");
    assert_eq!(
        obs[0].message,
        "Dead alternative function 'load_real' defined on line 3 but never called"
    );
}

#[test]
fn dead_alt_extern_and_visibility_prefixes() {
    let obs = scan_for_dead_alt("x.rs", "pub(crate) unsafe extern \"C\" fn cb_fixed() {}\n");
    assert_eq!(obs.len(), 1);
    assert_eq!(obs[0].construct, "cb_fixed");
}

#[test]
fn dead_alt_suppressed_paths_emit_no_diagnostic() {
    let obs = scan_for_dead_alt("vendor/x.rs", "fn go_v2() {}\n");
    assert_eq!(obs.len(), 1);
    let config = AntiLlmConfig { suppression_paths: vec!["vendor/".to_string()] };
    assert!(evaluate(&obs, &config).is_empty());
    let diags = evaluate(&obs, &dummy_config());
    assert_eq!(diags[0].forbidden_implication, "DeadAlternative(go_v2) => BrokenPrimaryInUse");
}
