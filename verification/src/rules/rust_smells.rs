//! STRANGE-00x: debug scaffolding, raw-content/path leaks, substring checks used
//! as law, stray `println!` and `#[cfg(test)]` in production files.
use vstd::prelude::*;

use crate::diagnostics::{diag, diag_coded, diag_views, lemma_diag_views_push, make_diag, AntiLlmDiagnostic, DiagnosticView};
use crate::observations::{obs_views, Observation, ObservationView};
use crate::text::{contains, contains_text, eq_text, owned, starts_with, starts_with_text};

verus! {

pub open spec fn strange_001(o: ObservationView) -> DiagnosticView {
    diag(
        "ANTI-LLM-STRANGE-001"@,
        "strange-code"@,
        o,
        "Debug diagnostic name found in admissible path."@,
        "Debug scaffold => law diagnostic"@,
        true,
        "Remove temporary/debug diagnostics from production code paths."@,
        "Verify all diagnostics are production-ready."@,
    )
}

pub open spec fn strange_002(o: ObservationView) -> DiagnosticView {
    diag(
        "ANTI-LLM-STRANGE-002"@,
        "strange-code"@,
        o,
        "Diagnostic leaks raw file content, which could leak secrets or private data."@,
        "Raw content dump => useful diagnostic"@,
        true,
        "Obfuscate or summarize content in diagnostics instead of printing raw content."@,
        "Check diagnostic message serialization."@,
    )
}

pub open spec fn strange_003(o: ObservationView) -> DiagnosticView {
    diag(
        "ANTI-LLM-STRANGE-003"@,
        "strange-code"@,
        o,
        "Diagnostic leaks raw path, violating environment isolation rules."@,
        "Raw path dump => law diagnostic"@,
        true,
        "Output relative or sanitized paths in diagnostic details."@,
        "Check path scrubbing function in diagnostic emitter."@,
    )
}

pub open spec fn strange_007(o: ObservationView) -> DiagnosticView {
    diag(
        "ANTI-LLM-STRANGE-007"@,
        "strange-code"@,
        o,
        "Substring check used as law (e.g. searching 'customization-map.json' or 'TODO')."@,
        "SubstringMatch => Authority"@,
        true,
        "Use structural AST or file metadata parsing instead of simple string searches for policy checks."@,
        "Verify utilizing tree-sitter or JSON-TOML deserializers."@,
    )
}

pub open spec fn strange_008(o: ObservationView) -> DiagnosticView {
    diag(
        "ANTI-LLM-STRANGE-008"@,
        "strange-code"@,
        o,
        "println! found in non-test production code — debug output left in"@,
        "DebugPrint => ProductionCode"@,
        true,
        "Remove println! or replace with tracing::debug!/info! for structured logging."@,
        "Verify no unintended debug output in production paths."@,
    )
}

pub open spec fn strange_009(o: ObservationView) -> DiagnosticView {
    diag(
        "ANTI-LLM-STRANGE-009"@,
        "strange-code"@,
        o,
        "#[cfg(test)] in a non-test file — production logic must not be gated by test cfg"@,
        "CfgTest => ProductionLogicEvasion"@,
        true,
        "Move test-only code to a dedicated test file or tests/ directory."@,
        "Verify that all #[cfg(test)] blocks are in test files only."@,
    )
}

pub open spec fn when(c: bool, d: DiagnosticView) -> Seq<DiagnosticView> {
    if c {
        seq![d]
    } else {
        Seq::empty()
    }
}

pub open spec fn part1(o: ObservationView) -> Seq<DiagnosticView> {
    when(o.construct == "CLAP-DEBUG"@ || o.construct == "CLAP-DEBUG-PATH"@, strange_001(o))
}

pub open spec fn part2(o: ObservationView) -> Seq<DiagnosticView> {
    when(o.construct == "Content was:"@ || contains(o.message, "leaks raw content"@), strange_002(o))
}

pub open spec fn part3(o: ObservationView) -> Seq<DiagnosticView> {
    when(o.construct == "Path was:"@ || contains(o.message, "leaks raw path"@), strange_003(o))
}

pub open spec fn part4(o: ObservationView) -> Seq<DiagnosticView> {
    when(
        starts_with(o.construct, "content.contains"@) || starts_with(o.construct, "path.ends_with"@)
            || starts_with(o.construct, "path_str.contains"@),
        strange_007(o),
    )
}

pub open spec fn part5(o: ObservationView) -> Seq<DiagnosticView> {
    when(o.construct == "println_in_production"@, strange_008(o))
}

pub open spec fn part6(o: ObservationView) -> Seq<DiagnosticView> {
    when(o.construct == "cfg_test_in_production"@, strange_009(o))
}

/// The strange-code diagnostics for one observation, in rule order.
pub open spec fn smells_eval_one(o: ObservationView) -> Seq<DiagnosticView> {
    part1(o) + part2(o) + part3(o) + part4(o) + part5(o) + part6(o)
}

pub open spec fn smells_eval_upto(obs: Seq<ObservationView>, n: int) -> Seq<DiagnosticView>
    decreases n,
{
    if n <= 0 {
        Seq::empty()
    } else {
        smells_eval_upto(obs, n - 1) + smells_eval_one(obs[n - 1])
    }
}

fn push_when(diags: &mut Vec<AntiLlmDiagnostic>, c: bool, d: AntiLlmDiagnostic)
    ensures
        diag_views(final(diags)@) == diag_views(old(diags)@) + when(c, d@),
{
    let ghost before = diags@;
    if c {
        diags.push(d);
        proof {
            lemma_diag_views_push(before, d);
        }
    } else {
        assert(diag_views(diags@) =~= diag_views(before) + when(c, d@));
    }
}

#[verifier::rlimit(40)]
fn smells_for(o: &Observation, diags: &mut Vec<AntiLlmDiagnostic>)
    ensures
        diag_views(final(diags)@) == diag_views(old(diags)@) + smells_eval_one(o@),
{
    let ghost base = diag_views(diags@);
        let c = o.construct.as_str();
        let m = o.message.as_str();
        let ghost g0 = diag_views(diags@);
        push_when(
            diags,
            eq_text(c, "CLAP-DEBUG") || eq_text(c, "CLAP-DEBUG-PATH"),
            make_diag(
                "ANTI-LLM-STRANGE-001",
                "strange-code",
                o,
                owned("Debug diagnostic name found in admissible path."),
                owned("Debug scaffold => law diagnostic"),
                true,
                "Remove temporary/debug diagnostics from production code paths.",
                "Verify all diagnostics are production-ready.",
            ),
        );
        let ghost g1 = diag_views(diags@);
        push_when(
            diags,
            eq_text(c, "Content was:") || contains_text(m, "leaks raw content"),
            make_diag(
                "ANTI-LLM-STRANGE-002",
                "strange-code",
                o,
                owned("Diagnostic leaks raw file content, which could leak secrets or private data."),
                owned("Raw content dump => useful diagnostic"),
                true,
                "Obfuscate or summarize content in diagnostics instead of printing raw content.",
                "Check diagnostic message serialization.",
            ),
        );
        let ghost g2 = diag_views(diags@);
        push_when(
            diags,
            eq_text(c, "Path was:") || contains_text(m, "leaks raw path"),
            make_diag(
                "ANTI-LLM-STRANGE-003",
                "strange-code",
                o,
                owned("Diagnostic leaks raw path, violating environment isolation rules."),
                owned("Raw path dump => law diagnostic"),
                true,
                "Output relative or sanitized paths in diagnostic details.",
                "Check path scrubbing function in diagnostic emitter.",
            ),
        );
        let ghost g3 = diag_views(diags@);
        push_when(
            diags,
            starts_with_text(c, "content.contains") || starts_with_text(c, "path.ends_with")
                || starts_with_text(c, "path_str.contains"),
            make_diag(
                "ANTI-LLM-STRANGE-007",
                "strange-code",
                o,
                owned("Substring check used as law (e.g. searching 'customization-map.json' or 'TODO')."),
                owned("SubstringMatch => Authority"),
                true,
                "Use structural AST or file metadata parsing instead of simple string searches for policy checks.",
                "Verify utilizing tree-sitter or JSON-TOML deserializers.",
            ),
        );
        let ghost g4 = diag_views(diags@);
        push_when(
            diags,
            eq_text(c, "println_in_production"),
            make_diag(
                "ANTI-LLM-STRANGE-008",
                "strange-code",
                o,
                owned("println! found in non-test production code — debug output left in"),
                owned("DebugPrint => ProductionCode"),
                true,
                "Remove println! or replace with tracing::debug!/info! for structured logging.",
                "Verify no unintended debug output in production paths.",
            ),
        );
        let ghost g5 = diag_views(diags@);
        push_when(
            diags,
            eq_text(c, "cfg_test_in_production"),
            make_diag(
                "ANTI-LLM-STRANGE-009",
                "strange-code",
                o,
                owned("#[cfg(test)] in a non-test file — production logic must not be gated by test cfg"),
                owned("CfgTest => ProductionLogicEvasion"),
                true,
                "Move test-only code to a dedicated test file or tests/ directory.",
                "Verify that all #[cfg(test)] blocks are in test files only.",
            ),
        );
    assert(diag_views(diags@) =~= base + smells_eval_one(o@)) by {
        assert(g0 == base);
        assert(g1 == g0 + part1(o@));
        assert(g2 == g1 + part2(o@));
        assert(g3 == g2 + part3(o@));
        assert(g4 == g3 + part4(o@));
        assert(g5 == g4 + part5(o@));
        assert(diag_views(diags@) == g5 + part6(o@));
    }
}

/// Strange-code diagnostics for every observation, in observation and rule order.
pub fn evaluate(obs: &[Observation]) -> (diags: Vec<AntiLlmDiagnostic>)
    ensures
        diag_views(diags@) == smells_eval_upto(obs_views(obs@), obs@.len() as int),
{
    let mut diags: Vec<AntiLlmDiagnostic> = Vec::new();
    let ghost ov = obs_views(obs@);
    let mut i: usize = 0;
    assert(diag_views(diags@) =~= smells_eval_upto(ov, 0));
    while i < obs.len()
        invariant
            i <= obs@.len(),
            ov == obs_views(obs@),
            diag_views(diags@) == smells_eval_upto(ov, i as int),
        decreases obs@.len() - i,
    {
        let o = &obs[i];
        assert(ov[i as int] == o@);
        smells_for(o, &mut diags);
        i = i + 1;
    }
    diags
}

/// The strange-code rules for one observation, all blocking, each code
/// appearing exactly when its rule applies: CLAP debug output (STRANGE-001),
/// raw content (STRANGE-002) or raw paths (STRANGE-003) leaked into
/// messages, content- or path-sniffing classification (STRANGE-007),
/// `println!` in production (STRANGE-008), and `cfg(test)` in production
/// (STRANGE-009).
pub proof fn lemma_smell_rules(o: ObservationView)
    ensures
        ({
            let ds = smells_eval_one(o);
            &&& diag_coded(ds, "ANTI-LLM-STRANGE-001"@) <==> (o.construct == "CLAP-DEBUG"@ || o.construct == "CLAP-DEBUG-PATH"@)
            &&& diag_coded(ds, "ANTI-LLM-STRANGE-002"@) <==> (o.construct == "Content was:"@ || contains(o.message, "leaks raw content"@))
            &&& diag_coded(ds, "ANTI-LLM-STRANGE-003"@) <==> (o.construct == "Path was:"@ || contains(o.message, "leaks raw path"@))
            &&& diag_coded(ds, "ANTI-LLM-STRANGE-007"@) <==> (starts_with(o.construct, "content.contains"@) || starts_with(
                o.construct,
                "path.ends_with"@,
            ) || starts_with(o.construct, "path_str.contains"@))
            &&& diag_coded(ds, "ANTI-LLM-STRANGE-008"@) <==> o.construct == "println_in_production"@
            &&& diag_coded(ds, "ANTI-LLM-STRANGE-009"@) <==> o.construct == "cfg_test_in_production"@
            &&& forall|k: int| 0 <= k < ds.len() ==> (#[trigger] ds[k]).blocking
        }),
{
    reveal_strlit("ANTI-LLM-STRANGE-001");
    reveal_strlit("ANTI-LLM-STRANGE-002");
    reveal_strlit("ANTI-LLM-STRANGE-003");
    reveal_strlit("ANTI-LLM-STRANGE-007");
    reveal_strlit("ANTI-LLM-STRANGE-008");
    reveal_strlit("ANTI-LLM-STRANGE-009");
    let c1 = "ANTI-LLM-STRANGE-001"@;
    let c2 = "ANTI-LLM-STRANGE-002"@;
    let c3 = "ANTI-LLM-STRANGE-003"@;
    let c7 = "ANTI-LLM-STRANGE-007"@;
    let c8 = "ANTI-LLM-STRANGE-008"@;
    let c9 = "ANTI-LLM-STRANGE-009"@;
    assert(c1[19] == '1' && c2[19] == '2' && c3[19] == '3' && c7[19] == '7' && c8[19] == '8' && c9[19] == '9');
    assert(c1 != c2 && c1 != c3 && c1 != c7 && c1 != c8 && c1 != c9 && c2 != c3 && c2 != c7 && c2 != c8 && c2 != c9
        && c3 != c7 && c3 != c8 && c3 != c9 && c7 != c8 && c7 != c9 && c8 != c9);
    let q1 = part1(o);
    let q2 = part2(o);
    let q3 = part3(o);
    let q4 = part4(o);
    let q5 = part5(o);
    let q6 = part6(o);
    let ds = smells_eval_one(o);
    assert(ds == q1 + q2 + q3 + q4 + q5 + q6);
    let a = q1.len();
    let b = a + q2.len();
    let c = b + q3.len();
    let d = c + q4.len();
    let e = d + q5.len();
    assert forall|k: int| 0 <= k < ds.len() implies {
        ||| (ds[k] == strange_001(o) && q1.len() == 1)
        ||| (ds[k] == strange_002(o) && q2.len() == 1)
        ||| (ds[k] == strange_003(o) && q3.len() == 1)
        ||| (ds[k] == strange_007(o) && q4.len() == 1)
        ||| (ds[k] == strange_008(o) && q5.len() == 1)
        ||| (ds[k] == strange_009(o) && q6.len() == 1)
    } by {
        if k < a {
            assert(ds[k] == q1[k]);
        } else if k < b {
            assert(ds[k] == q2[k - a]);
        } else if k < c {
            assert(ds[k] == q3[k - b]);
        } else if k < d {
            assert(ds[k] == q4[k - c]);
        } else if k < e {
            assert(ds[k] == q5[k - d]);
        } else {
            assert(ds[k] == q6[k - e]);
        }
    }
    if q1.len() == 1 {
        assert(ds[0] == strange_001(o));
    }
    if q2.len() == 1 {
        assert(ds[a as int] == strange_002(o));
    }
    if q3.len() == 1 {
        assert(ds[b as int] == strange_003(o));
    }
    if q4.len() == 1 {
        assert(ds[c as int] == strange_007(o));
    }
    if q5.len() == 1 {
        assert(ds[d as int] == strange_008(o));
    }
    if q6.len() == 1 {
        assert(ds[e as int] == strange_009(o));
    }
}

} // verus!
