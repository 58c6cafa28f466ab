use anti_llm_cheat_lsp::parsers::fitness_report::{fitness_observations, FitnessFacts};
use anti_llm_cheat_lsp::parsers::markdown_claims::parse_markdown_claims;
use anti_llm_cheat_lsp::parsers::receipt_json::{parse_receipt_json, try_parse_receipt_json};

#[test]
fn test_victory_language_detected() {
    let content = "We have solved all problems and are fully guaranteed to work. Victory is ours!";
    let obs = parse_markdown_claims("test.md", content);
    assert!(!obs.is_empty());
    assert!(obs.iter().all(|o| o.file_path == "test.md"));
}

#[test]
fn receipt_that_is_not_json() {
    let obs = parse_receipt_json("run.receipt.json", "{not json");
    assert_eq!(obs.len(), 1);
    assert_eq!(obs[0].construct, "invalid json");
    assert_eq!(obs[0].message, "Receipt file is not valid JSON");
    assert_eq!(obs[0].context, "{not json");
}

#[test]
fn receipt_missing_fields_and_bad_algorithm() {
    let content = r#"{"digest":"9f86d081884c7d659a2feaa0c55ad015","digest_algorithm":"MD5","boundary":"b"}"#;
    let obs = parse_receipt_json("out/run.receipt.json", content);
    let constructs: Vec<&str> = obs.iter().map(|o| o.construct.as_str()).collect();
    assert_eq!(
        constructs,
        vec!["missing checkpoint", "missing raw_command", "missing output_digest", "invalid digest_algorithm"]
    );
    assert_eq!(obs[0].message, "Receipt file lacks required field 'checkpoint'");
    assert_eq!(obs[3].message, "Receipt uses invalid digest algorithm 'MD5'; expected BLAKE3 or SHA-256");
    assert!(obs.iter().all(|o| o.kind == "receipt_json" && o.line == 1 && o.column == 1));
}

#[test]
fn receipt_fabricated_digests() {
    let base = r#""digest_algorithm":"BLAKE3","boundary":"b","checkpoint":"c","raw_command":"r","output_digest":"o""#;
    let zeros = format!(r#"{{"digest":"{}",{base}}}"#, "0".repeat(64));
    let obs = parse_receipt_json("r.json", &zeros);
    assert_eq!(obs.len(), 1);
    assert_eq!(obs[0].construct, "fabricated_digest");
    assert_eq!(obs[0].context, format!("digest={}", "0".repeat(24)));

    let placeholder = format!(r#"{{"digest":"DEADBEEF00112233",{base}}}"#);
    let obs = parse_receipt_json("r.json", &placeholder);
    assert_eq!(obs.len(), 1);
    assert_eq!(obs[0].context, "digest=DEADBEEF00112233");

    let repeated = format!(r#"{{"digest":"{}",{base}}}"#, "a".repeat(16));
    assert_eq!(parse_receipt_json("r.json", &repeated).len(), 1);

    let real = format!(r#"{{"digest":"af1349b9f5f9a1a6a0404dea36dcc949",{base}}}"#);
    assert!(parse_receipt_json("r.json", &real).is_empty());
}

#[test]
fn receipt_digest_cut_inside_a_character_is_refused() {
    let base = r#""digest_algorithm":"BLAKE3","boundary":"b","checkpoint":"c","raw_command":"r","output_digest":"o""#;
    // 23 ASCII bytes then a two-byte character: byte 24 falls inside it.
    let digest = format!("deadbeef{}é", "1".repeat(15));
    let content = format!(r#"{{"digest":"{digest}",{base}}}"#);
    assert!(try_parse_receipt_json("r.json", &content).is_none());
    let fine = format!(r#"{{"digest":"deadbeef",{base}}}"#);
    assert_eq!(try_parse_receipt_json("r.json", &fine).map(|o| o.len()), Some(1));
}

#[test]
fn receipt_path_naming_itself() {
    let base = r#""digest":"af1349b9f5f9a1a6a0404dea36dcc949","digest_algorithm":"SHA-256","boundary":"b","checkpoint":"c","raw_command":"r","output_digest":"o""#;
    let content = format!(r#"{{{base},"path":"receipts/build.json"}}"#);
    let obs = parse_receipt_json("receipts/build.receipt.json", &content);
    assert_eq!(obs.len(), 1);
    assert_eq!(obs[0].construct, "self_referential_receipt");
    assert_eq!(obs[0].context, "path=receipts/build.json");
    let other = format!(r#"{{{base},"path":"src/main.rs"}}"#);
    assert!(parse_receipt_json("receipts/build.receipt.json", &other).is_empty());
}

fn facts() -> FitnessFacts {
    FitnessFacts {
        fitness_is_one: false,
        fitness_at_least_095: false,
        fitness_text: "0.5".to_string(),
        fitness_text_3dp: "0.500".to_string(),
        admitted: false,
        has_provenance: false,
        has_run_id: false,
        run_id: String::new(),
        provenance_has_measured_by: false,
    }
}

#[test]
fn fitness_admitted_without_provenance() {
    let content = r#"{"fitness":1.0,"admitted":true}"#;
    let f = FitnessFacts {
        fitness_is_one: true,
        fitness_at_least_095: true,
        fitness_text: "1".to_string(),
        fitness_text_3dp: "1.000".to_string(),
        admitted: true,
        ..facts()
    };
    let obs = fitness_observations("fit.json", content, &f);
    let constructs: Vec<&str> = obs.iter().map(|o| o.construct.as_str()).collect();
    assert_eq!(constructs, vec!["fitness_bare_constant", "admitted_no_run_id", "admitted_no_measured_by"]);
    assert_eq!(obs[0].context, "fitness=1, admitted=true, provenance=absent");
    assert_eq!(obs[2].context, "fitness=1.000, admitted=true, provenance.measured_by=absent");
    assert!(obs.iter().all(|o| o.end_byte == content.len()));
}

#[test]
fn fitness_fabricated_run_ids() {
    for (run_id, flagged) in [
        ("00000000-0000-0000-0000-000000000000", true),
        ("12345678-aaaa", true),
        ("test-run-7", true),
        ("conformance-run-1", true),
        ("run-001", true),
        ("fake-run", true),
        ("run-002", false),
        ("7f1c2a90-1b2c", false),
    ] {
        let f = FitnessFacts { has_run_id: true, run_id: run_id.to_string(), ..facts() };
        let obs = fitness_observations("fit.json", "{}", &f);
        assert_eq!(obs.len(), usize::from(flagged), "{run_id}");
        if flagged {
            assert_eq!(obs[0].context, format!("run_id={run_id}"));
        }
    }
}
