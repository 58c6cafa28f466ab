//! MUT-001/002: direct file mutation, or a `WorkspaceEdit` standing in for a
//! receipt, in the read-only LSP authority path.
use vstd::prelude::*;

use crate::config::AntiLlmConfig;
use crate::diagnostics::{diag, diag_coded, diag_views, lemma_diag_views_push, make_diag, AntiLlmDiagnostic, DiagnosticView};
use crate::observations::{obs_views, Observation, ObservationView};
use crate::text::{contains, contains_text, ends_with, ends_with_text, eq_text, owned};

verus! {

/// Path fragments that mark test, fixture, example and harness code.
pub open spec fn test_fragment(i: int) -> Seq<char> {
    if i == 0 {
        "tests/"@
    } else if i == 1 {
        "/test/"@
    } else if i == 2 {
        "fixtures/"@
    } else if i == 3 {
        "benches/"@
    } else if i == 4 {
        "examples/"@
    } else if i == 5 {
        "build.rs"@
    } else if i == 6 {
        "crates/chicago-tdd-lsp/"@
    } else if i == 7 {
        "spec-harness/"@
    } else if i == 8 {
        "src/observability/ocel/collector.rs"@
    } else if i == 9 {
        "src/observability/weaver/types.rs"@
    } else {
        "src/testing/effects.rs"@
    }
}

fn test_fragment_exec(i: usize) -> (r: &'static str)
    requires
        i < 11,
    ensures
        r@ == test_fragment(i as int),
{
    match i {
        0 => "tests/",
        1 => "/test/",
        2 => "fixtures/",
        3 => "benches/",
        4 => "examples/",
        5 => "build.rs",
        6 => "crates/chicago-tdd-lsp/",
        7 => "spec-harness/",
        8 => "src/observability/ocel/collector.rs",
        9 => "src/observability/weaver/types.rs",
        _ => "src/testing/effects.rs",
    }
}

/// Test-like paths, except negative-control fixtures, which must still be diagnosed.
pub open spec fn spec_is_test_path(path: Seq<char>) -> bool {
    if contains(path, "negative_controls/"@) || contains(path, "negative_controls\\"@) {
        false
    } else {
        ends_with(path, "_test.rs"@) || exists|i: int| 0 <= i < 11 && contains(path, test_fragment(i))
    }
}

fn is_test_path(path: &str) -> (b: bool)
    ensures
        b == spec_is_test_path(path@),
{
    if contains_text(path, "negative_controls/") || contains_text(path, "negative_controls\\") {
        return false;
    }
    if ends_with_text(path, "_test.rs") {
        return true;
    }
    let mut i: usize = 0;
    while i < 11
        invariant
            i <= 11,
            !contains(path@, "negative_controls/"@),
            !contains(path@, "negative_controls\\"@),
            !ends_with(path@, "_test.rs"@),
            forall|j: int| 0 <= j < i ==> !contains(path@, test_fragment(j)),
        decreases 11 - i,
    {
        if contains_text(path, test_fragment_exec(i)) {
            assert(contains(path@, test_fragment(i as int)));
            return true;
        }
        i = i + 1;
    }
    false
}

pub open spec fn is_write_construct(c: Seq<char>) -> bool {
    c == "std::fs::write"@ || c == "tokio::fs::write"@ || c == "File::create"@ || c == "OpenOptions"@
        || c == "write_all"@
}

pub open spec fn mut_001(o: ObservationView) -> DiagnosticView {
    diag(
        "ANTI-LLM-MUT-001"@,
        "mutation"@,
        o,
        "Direct file write or file creation found in LSP authority path. The server is read-only by default."@,
        "LSP observation => mutation authority"@,
        true,
        "Remove direct file write call. Route mutation requests via CodeAction to PackPlan intent instead."@,
        "Verify with read-only permission checks."@,
    )
}

pub open spec fn mut_002(o: ObservationView) -> DiagnosticView {
    diag(
        "ANTI-LLM-MUT-002"@,
        "mutation"@,
        o,
        "WorkspaceEdit used directly as receipt binding or mutation proof."@,
        "WorkspaceEdit => admitted receipt mutation"@,
        true,
        "WorkspaceEdit must represent a read-only template intent, not the final mutation receipt."@,
        "Enforce MutationGate and sign receipts independently."@,
    )
}

/// The mutation diagnostics for one observation.
pub open spec fn mutation_eval_one(o: ObservationView) -> Seq<DiagnosticView> {
    (if is_write_construct(o.construct) && !spec_is_test_path(o.file_path) {
        seq![mut_001(o)]
    } else {
        Seq::empty()
    }) + (if (o.construct == "WorkspaceEdit"@ || contains(o.message, "WorkspaceEdit used as receipt binding"@))
        && !spec_is_test_path(o.file_path) {
        seq![mut_002(o)]
    } else {
        Seq::empty()
    })
}

pub open spec fn mutation_eval_upto(obs: Seq<ObservationView>, n: int) -> Seq<DiagnosticView>
    decreases n,
{
    if n <= 0 {
        Seq::empty()
    } else {
        mutation_eval_upto(obs, n - 1) + mutation_eval_one(obs[n - 1])
    }
}

/// MUT-001 for file writes and MUT-002 for `WorkspaceEdit` receipts, outside test paths.
pub fn evaluate(obs: &[Observation], config: &AntiLlmConfig) -> (diags: Vec<AntiLlmDiagnostic>)
    ensures
        diag_views(diags@) == mutation_eval_upto(obs_views(obs@), obs@.len() as int),
{
    let mut diags: Vec<AntiLlmDiagnostic> = Vec::new();
    let ghost ov = obs_views(obs@);
    let mut i: usize = 0;
    assert(diag_views(diags@) =~= mutation_eval_upto(ov, 0));
    while i < obs.len()
        invariant
            i <= obs@.len(),
            ov == obs_views(obs@),
            diag_views(diags@) == mutation_eval_upto(ov, i as int),
        decreases obs@.len() - i,
    {
        let o = &obs[i];
        assert(ov[i as int] == o@);
        let ghost base = diag_views(diags@);
        let c = o.construct.as_str();
        let test = is_test_path(o.file_path.as_str());
        if (eq_text(c, "std::fs::write") || eq_text(c, "tokio::fs::write") || eq_text(c, "File::create")
            || eq_text(c, "OpenOptions") || eq_text(c, "write_all")) && !test {
            let d = make_diag(
                "ANTI-LLM-MUT-001",
                "mutation",
                o,
                owned("Direct file write or file creation found in LSP authority path. The server is read-only by default."),
                owned("LSP observation => mutation authority"),
                true,
                "Remove direct file write call. Route mutation requests via CodeAction to PackPlan intent instead.",
                "Verify with read-only permission checks.",
            );
            let ghost before = diags@;
            diags.push(d);
            proof {
                lemma_diag_views_push(before, d);
            }
        }
        let ghost mid = diag_views(diags@);
        if (eq_text(c, "WorkspaceEdit") || contains_text(o.message.as_str(), "WorkspaceEdit used as receipt binding"))
            && !test {
            let d = make_diag(
                "ANTI-LLM-MUT-002",
                "mutation",
                o,
                owned("WorkspaceEdit used directly as receipt binding or mutation proof."),
                owned("WorkspaceEdit => admitted receipt mutation"),
                true,
                "WorkspaceEdit must represent a read-only template intent, not the final mutation receipt.",
                "Enforce MutationGate and sign receipts independently.",
            );
            let ghost before = diags@;
            diags.push(d);
            proof {
                lemma_diag_views_push(before, d);
            }
        }
        assert(diag_views(diags@) =~= mutation_eval_upto(ov, i + 1));
        i = i + 1;
    }
    diags
}

/// Test, fixture, example and bench paths are never diagnosed as mutations.
pub proof fn lemma_mutation_spares_test_paths(obs: Seq<ObservationView>, n: int)
    ensures
        forall|k: int|
            0 <= k < mutation_eval_upto(obs, n).len() ==> !spec_is_test_path(
                (#[trigger] mutation_eval_upto(obs, n)[k]).file_path,
            ),
    decreases n,
{
    if n > 0 {
        lemma_mutation_spares_test_paths(obs, n - 1);
        let prev = mutation_eval_upto(obs, n - 1);
        let cur = mutation_eval_one(obs[n - 1]);
        let all = mutation_eval_upto(obs, n);
        assert forall|k: int| 0 <= k < all.len() implies !spec_is_test_path((#[trigger] all[k]).file_path) by {
            if k < prev.len() {
                assert(all[k] == prev[k]);
            } else {
                assert(all[k] == cur[k - prev.len()]);
            }
        }
    }
}

/// The mutation rules for one observation, both blocking and never on a
/// test path: a direct file write or creation (`std::fs::write`,
/// `tokio::fs::write`, `File::create`, `OpenOptions`, `write_all`) draws
/// MUT-001, and a `WorkspaceEdit` used as a receipt binding draws MUT-002,
/// each exactly then.
pub proof fn lemma_mutation_rules(o: ObservationView)
    ensures
        ({
            let ds = mutation_eval_one(o);
            let w = o.construct == "std::fs::write"@ || o.construct == "tokio::fs::write"@ || o.construct == "File::create"@
                || o.construct == "OpenOptions"@ || o.construct == "write_all"@;
            &&& diag_coded(ds, "ANTI-LLM-MUT-001"@) <==> (w && !spec_is_test_path(o.file_path))
            &&& diag_coded(ds, "ANTI-LLM-MUT-002"@) <==> ((o.construct == "WorkspaceEdit"@ || contains(
                o.message,
                "WorkspaceEdit used as receipt binding"@,
            )) && !spec_is_test_path(o.file_path))
            &&& forall|k: int| 0 <= k < ds.len() ==> (#[trigger] ds[k]).blocking
        }),
{
    reveal_strlit("ANTI-LLM-MUT-001");
    reveal_strlit("ANTI-LLM-MUT-002");
    let c1 = "ANTI-LLM-MUT-001"@;
    let c2 = "ANTI-LLM-MUT-002"@;
    assert(c1[15] == '1' && c2[15] == '2');
    assert(c1 != c2);
    let ds = mutation_eval_one(o);
    if ds.len() > 0 {
        assert(ds[0].code == c1 || ds[0].code == c2);
    }
    if ds.len() > 1 {
        assert(ds[1].code == c2);
    }
}

} // verus!
