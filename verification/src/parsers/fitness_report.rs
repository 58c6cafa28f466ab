//! Fitness reports (JSON): premature admission without provenance, admission
//! without a run id, fabricated run ids, and high fitness admitted without a
//! `measured_by` attribution. The report's fitness number is read by the
//! caller; the rules here see it as the facts they need.
use vstd::prelude::*;

use crate::observations::{obs_views, Observation, ObservationView};
use crate::text::{byte_len, eq_text, owned, starts_with, starts_with_text, utf8_len};

verus! {

/// What the rules read from a parsed fitness report.
#[derive(Debug, Clone)]
pub struct FitnessFacts {
    /// `fitness` equals 1.0 (within `f64::EPSILON`); a missing fitness reads as 0.0.
    pub fitness_is_one: bool,
    /// `fitness >= 0.95`.
    pub fitness_at_least_095: bool,
    /// `fitness` as `{}` prints it.
    pub fitness_text: String,
    /// `fitness` as `{:.3}` prints it.
    pub fitness_text_3dp: String,
    /// `admitted` is `true` (a missing or non-boolean value reads as `false`).
    pub admitted: bool,
    /// A `provenance` member is present.
    pub has_provenance: bool,
    /// A top-level `run_id` or a `provenance.run_id` member is present.
    pub has_run_id: bool,
    /// The run id text: top-level `run_id`, else `provenance.run_id`, when a string; else empty.
    pub run_id: String,
    /// `provenance.measured_by` is present.
    pub provenance_has_measured_by: bool,
}

pub open spec fn fitness_obs(file: Seq<char>, content: Seq<char>, construct: Seq<char>, context: Seq<char>, message: Seq<char>) -> ObservationView {
    ObservationView {
        file_path: file,
        start_byte: 0,
        end_byte: utf8_len(content),
        line: 1,
        column: 1,
        kind: "fitness_report"@,
        construct: construct,
        context: context,
        message: message,
    }
}

pub open spec fn bool_text(b: bool) -> Seq<char> {
    if b {
        "true"@
    } else {
        "false"@
    }
}

/// A run id that is a placeholder rather than a real conformance execution.
pub open spec fn fabricated_run_id(r: Seq<char>) -> bool {
    r == "00000000-0000-0000-0000-000000000000"@ || starts_with(r, "12345678-"@) || starts_with(r, "test-run-"@)
        || starts_with(r, "conformance-run-"@) || r == "run-001"@ || starts_with(r, "fake-run"@)
}

/// The observations of a fitness report, in rule order (ADMIT-001, 003, 004, 005).
pub open spec fn fitness_findings(file: Seq<char>, content: Seq<char>, f: FitnessFacts) -> Seq<ObservationView> {
    (if f.fitness_is_one && f.admitted && !f.has_provenance {
        seq![
            fitness_obs(
                file,
                content,
                "fitness_bare_constant"@,
                "fitness="@ + f.fitness_text@ + ", admitted="@ + bool_text(f.admitted) + ", provenance=absent"@,
                "Fitness report asserts 1.0/admitted without measurement provenance block — A10 premature admission"@,
            ),
        ]
    } else {
        Seq::empty()
    }) + (if f.admitted && !f.has_run_id {
        seq![
            fitness_obs(
                file,
                content,
                "admitted_no_run_id"@,
                "admitted="@ + bool_text(f.admitted) + ", run_id=absent"@,
                "Fitness report admits breed without run_id in provenance — cannot trace back to a measured run"@,
            ),
        ]
    } else {
        Seq::empty()
    }) + (if f.run_id@.len() > 0 && fabricated_run_id(f.run_id@) {
        seq![
            fitness_obs(
                file,
                content,
                "fabricated_run_id"@,
                "run_id="@ + f.run_id@,
                "Fitness report contains fabricated run_id '"@ + f.run_id@
                    + "' — placeholder, not a real conformance execution"@,
            ),
        ]
    } else {
        Seq::empty()
    }) + (if f.fitness_at_least_095 && f.admitted && !f.provenance_has_measured_by {
        seq![
            fitness_obs(
                file,
                content,
                "admitted_no_measured_by"@,
                "fitness="@ + f.fitness_text_3dp@ + ", admitted="@ + bool_text(f.admitted)
                    + ", provenance.measured_by=absent"@,
                "Fitness admitted at >=0.95 but provenance block lacks 'measured_by' — admission cannot be attributed to a tool or agent"@,
            ),
        ]
    } else {
        Seq::empty()
    })
}

/// Some observation of `obs` has construct `c`.
pub open spec fn fitness_has(obs: Seq<ObservationView>, c: Seq<char>) -> bool {
    exists|k: int| 0 <= k < obs.len() && (#[trigger] obs[k]).construct == c
}

/// The fitness admission rules, each reported at most once and exactly when
/// it applies: a fitness of 1.0 admitted without a provenance block
/// (`fitness_bare_constant`); an admission without a run id
/// (`admitted_no_run_id`); a placeholder run id, such as the all-zero UUID,
/// one starting `12345678-`, `test-run-`, `conformance-run-` or `fake-run`,
/// or `run-001` (`fabricated_run_id`); and a fitness of at least 0.95
/// admitted without `provenance.measured_by` (`admitted_no_measured_by`).
pub proof fn lemma_fitness_rules(file: Seq<char>, content: Seq<char>, f: FitnessFacts)
    ensures
        ({
            let obs = fitness_findings(file, content, f);
            let r = f.run_id@;
            let placeholder = r == "00000000-0000-0000-0000-000000000000"@ || starts_with(r, "12345678-"@) || starts_with(
                r,
                "test-run-"@,
            ) || starts_with(r, "conformance-run-"@) || r == "run-001"@ || starts_with(r, "fake-run"@);
            &&& obs.len() <= 4
            &&& fitness_has(obs, "fitness_bare_constant"@) <==> (f.fitness_is_one && f.admitted && !f.has_provenance)
            &&& fitness_has(obs, "admitted_no_run_id"@) <==> (f.admitted && !f.has_run_id)
            &&& fitness_has(obs, "fabricated_run_id"@) <==> (r.len() > 0 && placeholder)
            &&& fitness_has(obs, "admitted_no_measured_by"@) <==> (f.fitness_at_least_095 && f.admitted
                && !f.provenance_has_measured_by)
            &&& forall|k: int| 0 <= k < obs.len() ==> (#[trigger] obs[k]).kind == "fitness_report"@ && obs[k].file_path == file
        }),
{
    reveal_strlit("fitness_bare_constant");
    reveal_strlit("admitted_no_run_id");
    reveal_strlit("fabricated_run_id");
    reveal_strlit("admitted_no_measured_by");
    let c1 = "fitness_bare_constant"@;
    let c2 = "admitted_no_run_id"@;
    let c3 = "fabricated_run_id"@;
    let c4 = "admitted_no_measured_by"@;
    assert(c1.len() == 21 && c2.len() == 18 && c3.len() == 17 && c4.len() == 23);
    let obs = fitness_findings(file, content, f);
    let a: Seq<ObservationView> = if f.fitness_is_one && f.admitted && !f.has_provenance {
        seq![fitness_obs(file, content, c1, "fitness="@ + f.fitness_text@ + ", admitted="@ + bool_text(f.admitted) + ", provenance=absent"@,
            "Fitness report asserts 1.0/admitted without measurement provenance block — A10 premature admission"@)]
    } else {
        Seq::empty()
    };
    let b: Seq<ObservationView> = if f.admitted && !f.has_run_id {
        seq![fitness_obs(file, content, c2, "admitted="@ + bool_text(f.admitted) + ", run_id=absent"@,
            "Fitness report admits breed without run_id in provenance — cannot trace back to a measured run"@)]
    } else {
        Seq::empty()
    };
    let c: Seq<ObservationView> = if f.run_id@.len() > 0 && fabricated_run_id(f.run_id@) {
        seq![fitness_obs(file, content, c3, "run_id="@ + f.run_id@,
            "Fitness report contains fabricated run_id '"@ + f.run_id@ + "' — placeholder, not a real conformance execution"@)]
    } else {
        Seq::empty()
    };
    let d: Seq<ObservationView> = if f.fitness_at_least_095 && f.admitted && !f.provenance_has_measured_by {
        seq![fitness_obs(file, content, c4, "fitness="@ + f.fitness_text_3dp@ + ", admitted="@ + bool_text(f.admitted)
            + ", provenance.measured_by=absent"@,
            "Fitness admitted at >=0.95 but provenance block lacks 'measured_by' — admission cannot be attributed to a tool or agent"@)]
    } else {
        Seq::empty()
    };
    assert(obs =~= a + b + c + d);
    assert forall|k: int| 0 <= k < obs.len() implies {
        &&& (#[trigger] obs[k]).kind == "fitness_report"@ && obs[k].file_path == file
        &&& (obs[k].construct == c1 && a.len() == 1) || (obs[k].construct == c2 && b.len() == 1) || (obs[k].construct == c3
            && c.len() == 1) || (obs[k].construct == c4 && d.len() == 1)
    } by {
        if k < a.len() {
            assert(obs[k] == a[k]);
        } else if k < a.len() + b.len() {
            assert(obs[k] == b[k - a.len()]);
        } else if k < a.len() + b.len() + c.len() {
            assert(obs[k] == c[k - a.len() - b.len()]);
        } else {
            assert(obs[k] == d[k - a.len() - b.len() - c.len()]);
        }
    }
    if a.len() == 1 {
        assert(obs[0] == a[0]);
    }
    if b.len() == 1 {
        assert(obs[a.len() as int] == b[0]);
    }
    if c.len() == 1 {
        assert(obs[(a.len() + b.len()) as int] == c[0]);
    }
    if d.len() == 1 {
        assert(obs[(a.len() + b.len() + c.len()) as int] == d[0]);
    }
}

fn make_fitness_obs(file: &str, content: &str, construct: &str, context: String, message: String) -> (o: Observation)
    ensures
        o@ == fitness_obs(file@, content@, construct@, context@, message@),
{
    Observation {
        file_path: owned(file),
        start_byte: 0,
        end_byte: byte_len(content),
        line: 1,
        column: 1,
        kind: owned("fitness_report"),
        construct: owned(construct),
        context: context,
        message: message,
    }
}

fn bool_str(b: bool) -> (r: &'static str)
    ensures
        r@ == bool_text(b),
{
    if b {
        "true"
    } else {
        "false"
    }
}

/// The observations of a parsed fitness report.
pub fn fitness_observations(filepath: &str, content: &str, facts: &FitnessFacts) -> (obs: Vec<Observation>)
    ensures
        obs_views(obs@) == fitness_findings(filepath@, content@, *facts),
{
    let mut obs: Vec<Observation> = Vec::new();
    let ghost s0 = obs_views(obs@);
    if facts.fitness_is_one && facts.admitted && !facts.has_provenance {
        let mut context = owned("fitness=");
        context.append(facts.fitness_text.as_str());
        context.append(", admitted=");
        context.append(bool_str(facts.admitted));
        context.append(", provenance=absent");
        obs.push(
            make_fitness_obs(
                filepath,
                content,
                "fitness_bare_constant",
                context,
                owned(
                    "Fitness report asserts 1.0/admitted without measurement provenance block — A10 premature admission",
                ),
            ),
        );
    }
    let ghost s1 = obs_views(obs@);
    if facts.admitted && !facts.has_run_id {
        let mut context = owned("admitted=");
        context.append(bool_str(facts.admitted));
        context.append(", run_id=absent");
        obs.push(
            make_fitness_obs(
                filepath,
                content,
                "admitted_no_run_id",
                context,
                owned(
                    "Fitness report admits breed without run_id in provenance — cannot trace back to a measured run",
                ),
            ),
        );
    }
    let ghost s2 = obs_views(obs@);
    let r = facts.run_id.as_str();
    if !r.is_empty() && (eq_text(r, "00000000-0000-0000-0000-000000000000") || starts_with_text(r, "12345678-")
        || starts_with_text(r, "test-run-") || starts_with_text(r, "conformance-run-") || eq_text(r, "run-001")
        || starts_with_text(r, "fake-run")) {
        let mut context = owned("run_id=");
        context.append(r);
        let mut message = owned("Fitness report contains fabricated run_id '");
        message.append(r);
        message.append("' — placeholder, not a real conformance execution");
        obs.push(make_fitness_obs(filepath, content, "fabricated_run_id", context, message));
    }
    let ghost s3 = obs_views(obs@);
    if facts.fitness_at_least_095 && facts.admitted && !facts.provenance_has_measured_by {
        let mut context = owned("fitness=");
        context.append(facts.fitness_text_3dp.as_str());
        context.append(", admitted=");
        context.append(bool_str(facts.admitted));
        context.append(", provenance.measured_by=absent");
        obs.push(
            make_fitness_obs(
                filepath,
                content,
                "admitted_no_measured_by",
                context,
                owned(
                    "Fitness admitted at >=0.95 but provenance block lacks 'measured_by' — admission cannot be attributed to a tool or agent",
                ),
            ),
        );
    }
    assert(obs_views(obs@) =~= fitness_findings(filepath@, content@, *facts));
    obs
}

} // verus!
