//! CLAIM-004: victory language and overclaims; CHANGELOG-001: a delta changelog
//! presented as full spec coverage.
//!
//! The vocabulary below is the single source of truth. Terms are matched
//! case-insensitively on word boundaries; repository-configured domain terms
//! exempt a match.
use vstd::prelude::*;

use crate::diagnostics::{diag, diag_views, lemma_diag_views_push, make_diag, AntiLlmDiagnostic, DiagnosticView};
use crate::matching::{escape, find_all, match_views, regex_escaped, regex_find_all, to_lowercase, unicode_lowercase};
use crate::observations::{lemma_obs_views_push, obs_views, Observation, ObservationView};
use crate::text::{
    chars_of, contains, contains_chars, eq_text, lines_chars, lines_of, owned, string_of, take_at_most,
    take_at_most_chars, trim, trim_chars,
};

verus! {

// 36 victory terms
pub const VICTORY_TERM_COUNT: usize = 36;

pub const CONTEXT_PATTERN_COUNT: usize = 5;

/// Canonical victory / overclaim terms, lower-cased; matched case-insensitively on word boundaries.
pub open spec fn victory_term(i: int) -> Seq<char> {
    if i == 0 {
        "victory confirmed"@
    } else if i == 1 {
        "victory audit"@
    } else if i == 2 {
        "victory"@
    } else if i == 3 {
        "done"@
    } else if i == 4 {
        "all gaps resolved"@
    } else if i == 5 {
        "all clean"@
    } else if i == 6 {
        "no issues"@
    } else if i == 7 {
        "everything passes"@
    } else if i == 8 {
        "successfully proven"@
    } else if i == 9 {
        "guaranteed"@
    } else if i == 10 {
        "impossible to fake"@
    } else if i == 11 {
        "solved"@
    } else if i == 12 {
        "fully admitted"@
    } else if i == 13 {
        "path is clear"@
    } else if i == 14 {
        "routing to packplan"@
    } else if i == 15 {
        "implementation is complete"@
    } else if i == 16 {
        "fully implemented"@
    } else if i == 17 {
        "all passing"@
    } else if i == 18 {
        "no remaining issues"@
    } else if i == 19 {
        "everything is resolved"@
    } else if i == 20 {
        "working correctly"@
    } else if i == 21 {
        "no blockers"@
    } else if i == 22 {
        "work is complete"@
    } else if i == 23 {
        "all tests pass"@
    } else if i == 24 {
        "no issues found"@
    } else if i == 25 {
        "all checks pass"@
    } else if i == 26 {
        "all requirements met"@
    } else if i == 27 {
        "tests are passing"@
    } else if i == 28 {
        "everything works"@
    } else if i == 29 {
        "fully working"@
    } else if i == 30 {
        "complete and working"@
    } else if i == 31 {
        "ready to ship"@
    } else if i == 32 {
        "ready for review"@
    } else if i == 33 {
        "all good"@
    } else if i == 34 {
        "looks good"@
    } else {
        "should be good"@
    }
}

pub fn victory_term_exec(i: usize) -> (r: &'static str)
    requires
        i < 36,
    ensures
        r@ == victory_term(i as int),
{
    match i {
        0 => "victory confirmed",
        1 => "victory audit",
        2 => "victory",
        3 => "done",
        4 => "all gaps resolved",
        5 => "all clean",
        6 => "no issues",
        7 => "everything passes",
        8 => "successfully proven",
        9 => "guaranteed",
        10 => "impossible to fake",
        11 => "solved",
        12 => "fully admitted",
        13 => "path is clear",
        14 => "routing to packplan",
        15 => "implementation is complete",
        16 => "fully implemented",
        17 => "all passing",
        18 => "no remaining issues",
        19 => "everything is resolved",
        20 => "working correctly",
        21 => "no blockers",
        22 => "work is complete",
        23 => "all tests pass",
        24 => "no issues found",
        25 => "all checks pass",
        26 => "all requirements met",
        27 => "tests are passing",
        28 => "everything works",
        29 => "fully working",
        30 => "complete and working",
        31 => "ready to ship",
        32 => "ready for review",
        33 => "all good",
        34 => "looks good",
        _ => "should be good",
    }
}

/// Context patterns checked against the whole line.
pub open spec fn context_pattern(i: int) -> Seq<char> {
    if i == 0 {
        "no gaps found"@
    } else if i == 1 {
        "all systems functional"@
    } else if i == 2 {
        "audit complete"@
    } else if i == 3 {
        "zero violations"@
    } else {
        "zero diagnostics"@
    }
}

pub fn context_pattern_exec(i: usize) -> (r: &'static str)
    requires
        i < 5,
    ensures
        r@ == context_pattern(i as int),
{
    match i {
        0 => "no gaps found",
        1 => "all systems functional",
        2 => "audit complete",
        3 => "zero violations",
        _ => "zero diagnostics",
    }
}


/// The victory vocabulary: the 36 victory terms, in order, and the five
/// victory context patterns, in order, that the claim regexes alternate over.
pub proof fn lemma_victory_vocabulary()
    ensures
        VICTORY_TERM_COUNT == 36,
        CONTEXT_PATTERN_COUNT == 5,
        victory_term(0) == "victory confirmed"@,
        victory_term(1) == "victory audit"@,
        victory_term(2) == "victory"@,
        victory_term(3) == "done"@,
        victory_term(4) == "all gaps resolved"@,
        victory_term(5) == "all clean"@,
        victory_term(6) == "no issues"@,
        victory_term(7) == "everything passes"@,
        victory_term(8) == "successfully proven"@,
        victory_term(9) == "guaranteed"@,
        victory_term(10) == "impossible to fake"@,
        victory_term(11) == "solved"@,
        victory_term(12) == "fully admitted"@,
        victory_term(13) == "path is clear"@,
        victory_term(14) == "routing to packplan"@,
        victory_term(15) == "implementation is complete"@,
        victory_term(16) == "fully implemented"@,
        victory_term(17) == "all passing"@,
        victory_term(18) == "no remaining issues"@,
        victory_term(19) == "everything is resolved"@,
        victory_term(20) == "working correctly"@,
        victory_term(21) == "no blockers"@,
        victory_term(22) == "work is complete"@,
        victory_term(23) == "all tests pass"@,
        victory_term(24) == "no issues found"@,
        victory_term(25) == "all checks pass"@,
        victory_term(26) == "all requirements met"@,
        victory_term(27) == "tests are passing"@,
        victory_term(28) == "everything works"@,
        victory_term(29) == "fully working"@,
        victory_term(30) == "complete and working"@,
        victory_term(31) == "ready to ship"@,
        victory_term(32) == "ready for review"@,
        victory_term(33) == "all good"@,
        victory_term(34) == "looks good"@,
        victory_term(35) == "should be good"@,
        context_pattern(0) == "no gaps found"@,
        context_pattern(1) == "all systems functional"@,
        context_pattern(2) == "audit complete"@,
        context_pattern(3) == "zero violations"@,
        context_pattern(4) == "zero diagnostics"@,
{
}

/// `t0|t1|...` over the first `n` escaped victory terms.
pub open spec fn victory_alternation(n: int) -> Seq<char>
    decreases n,
{
    if n <= 0 {
        Seq::empty()
    } else if n == 1 {
        regex_escaped(victory_term(0))
    } else {
        victory_alternation(n - 1) + "|"@ + regex_escaped(victory_term(n - 1))
    }
}

/// `t0|t1|...` over the first `n` escaped context patterns.
pub open spec fn context_alternation(n: int) -> Seq<char>
    decreases n,
{
    if n <= 0 {
        Seq::empty()
    } else if n == 1 {
        regex_escaped(context_pattern(0))
    } else {
        context_alternation(n - 1) + "|"@ + regex_escaped(context_pattern(n - 1))
    }
}

/// `(?i)\b(victory confirmed|victory audit|...)\b`
pub open spec fn victory_regex() -> Seq<char> {
    "(?i)\\b("@ + victory_alternation(VICTORY_TERM_COUNT as int) + ")\\b"@
}

/// `(?i)\b(no gaps found|...)\b`
pub open spec fn context_regex() -> Seq<char> {
    "(?i)\\b("@ + context_alternation(CONTEXT_PATTERN_COUNT as int) + ")\\b"@
}

fn victory_regex_exec() -> (p: String)
    ensures
        p@ == victory_regex(),
{
    let mut p = owned("(?i)\\b(");
    let mut i: usize = 0;
    while i < VICTORY_TERM_COUNT
        invariant
            i <= VICTORY_TERM_COUNT,
            p@ == "(?i)\\b("@ + victory_alternation(i as int),
        decreases VICTORY_TERM_COUNT - i,
    {
        let ghost before = p@;
        if i > 0 {
            p.append("|");
        }
        let e = escape(victory_term_exec(i));
        p.append(e.as_str());
        i = i + 1;
        assert(p@ =~= "(?i)\\b("@ + victory_alternation(i as int));
    }
    p.append(")\\b");
    p
}

fn context_regex_exec() -> (p: String)
    ensures
        p@ == context_regex(),
{
    let mut p = owned("(?i)\\b(");
    let mut i: usize = 0;
    while i < CONTEXT_PATTERN_COUNT
        invariant
            i <= CONTEXT_PATTERN_COUNT,
            p@ == "(?i)\\b("@ + context_alternation(i as int),
        decreases CONTEXT_PATTERN_COUNT - i,
    {
        if i > 0 {
            p.append("|");
        }
        let e = escape(context_pattern_exec(i));
        p.append(e.as_str());
        i = i + 1;
        assert(p@ =~= "(?i)\\b("@ + context_alternation(i as int));
    }
    p.append(")\\b");
    p
}

/// A term is exempt when, lower-cased, it contains some lower-cased domain term.
pub open spec fn domain_exempt(term: Seq<char>, domain_terms: Seq<String>) -> bool {
    exists|i: int|
        0 <= i < domain_terms.len() && contains(unicode_lowercase(term), unicode_lowercase(domain_terms[i]@))
}

fn is_domain_exempt(term: &str, domain_terms: &[String]) -> (b: bool)
    ensures
        b == domain_exempt(term@, domain_terms@),
{
    let lower = to_lowercase(term);
    let lc = chars_of(lower.as_str());
    let mut i: usize = 0;
    while i < domain_terms.len()
        invariant
            i <= domain_terms@.len(),
            lc@ == unicode_lowercase(term@),
            forall|j: int| 0 <= j < i ==> !contains(unicode_lowercase(term@), unicode_lowercase(domain_terms@[j]@)),
        decreases domain_terms@.len() - i,
    {
        let d = to_lowercase(domain_terms[i].as_str());
        let dc = chars_of(d.as_str());
        if contains_chars(lc.as_slice(), dc.as_slice()) {
            return true;
        }
        i = i + 1;
    }
    false
}

/// The victory test applied by `evaluate`: the first term match in `construct`,
/// or else the first context match in `context`, that is not domain-exempt.
pub open spec fn spec_is_victory(construct: Seq<char>, context: Seq<char>, domain_terms: Seq<String>) -> bool {
    let m = regex_find_all(victory_regex(), construct);
    let c = regex_find_all(context_regex(), context);
    (m.len() > 0 && !domain_exempt(m[0].2, domain_terms)) || (c.len() > 0 && !domain_exempt(c[0].2, domain_terms))
}

fn is_victory(construct: &str, context: &str, domain_terms: &[String]) -> (b: bool)
    ensures
        b == spec_is_victory(construct@, context@, domain_terms@),
{
    let vp = victory_regex_exec();
    let m = find_all(vp.as_str(), construct);
    assert(match_views(m@).len() == m@.len());
    if m.len() > 0 {
        assert(match_views(m@)[0] == m@[0]@);
        if !is_domain_exempt(m[0].text.as_str(), domain_terms) {
            return true;
        }
    }
    let cp = context_regex_exec();
    let c = find_all(cp.as_str(), context);
    assert(match_views(c@).len() == c@.len());
    if c.len() > 0 {
        assert(match_views(c@)[0] == c@[0]@);
        if !is_domain_exempt(c[0].text.as_str(), domain_terms) {
            return true;
        }
    }
    false
}

// ---------------------------------------------------------------------------
// Evaluation
// ---------------------------------------------------------------------------
pub open spec fn changelog_diag(o: ObservationView) -> DiagnosticView {
    diag(
        "ANTI-LLM-CHANGELOG-001"@,
        "claim"@,
        o,
        "Changelog laundering detected: '"@ + take_at_most(o.context, 80)
            + "'. A delta changelog is not combinatorial spec coverage."@,
        "ChangelogCoverage => SpecCoverage(LSP 3.18)"@,
        true,
        "Remove claim that changelog matrix constitutes full LSP 3.18 combinatorial coverage. Implement a spec extractor."@,
        "Changelog and spec coverage are tracked separately; no CHANGELOG-001 diagnostic fires."@,
    )
}

pub open spec fn claim_diag(o: ObservationView) -> DiagnosticView {
    diag(
        "ANTI-LLM-CLAIM-004"@,
        "claim"@,
        o,
        "Victory/overclaim language detected: '"@ + o.construct + "'. Bounded status vocabulary required."@,
        "StatusWord(ADMITTED) => Admitted"@,
        true,
        "Replace with bounded status vocabulary (e.g. REPORTED_ADMITTED_BY_DOGFOOD, CANDIDATE). If this is a domain term (e.g. typestate vocabulary), add it to anti-llm.toml [claim] domain_terms."@,
        "Run admissibility scan; confirm zero CLAIM-004 diagnostics."@,
    )
}

/// CHANGELOG-001 for changelog-laundering observations; otherwise CLAIM-004 when victory language is present.
pub open spec fn claims_eval_one(o: ObservationView, domain_terms: Seq<String>) -> Seq<DiagnosticView> {
    if o.kind == "changelog_laundering"@ {
        seq![changelog_diag(o)]
    } else if spec_is_victory(o.construct, o.context, domain_terms) {
        seq![claim_diag(o)]
    } else {
        Seq::empty()
    }
}

pub open spec fn claims_eval_upto(obs: Seq<ObservationView>, domain_terms: Seq<String>, n: int) -> Seq<DiagnosticView>
    decreases n,
{
    if n <= 0 {
        Seq::empty()
    } else {
        claims_eval_upto(obs, domain_terms, n - 1) + claims_eval_one(obs[n - 1], domain_terms)
    }
}

/// Whether an observation draws a claims diagnostic.
pub open spec fn claims_fires(o: ObservationView, domain_terms: Seq<String>) -> bool {
    o.kind == "changelog_laundering"@ || spec_is_victory(o.construct, o.context, domain_terms)
}

/// How many of the first `n` observations draw a claims diagnostic.
pub open spec fn claims_fired(obs: Seq<ObservationView>, domain_terms: Seq<String>, n: int) -> nat
    decreases n,
{
    if n <= 0 {
        0
    } else {
        claims_fired(obs, domain_terms, n - 1) + if claims_fires(obs[n - 1], domain_terms) {
            1nat
        } else {
            0nat
        }
    }
}

proof fn lemma_claims_fired_mono(obs: Seq<ObservationView>, domain_terms: Seq<String>, i: int, n: int)
    requires
        0 <= i <= n,
    ensures
        claims_fired(obs, domain_terms, i) <= claims_fired(obs, domain_terms, n),
        i < n && claims_fires(obs[i], domain_terms) ==> claims_fired(obs, domain_terms, i) < claims_fired(obs, domain_terms, n),
    decreases n - i,
{
    if i < n {
        lemma_claims_fired_mono(obs, domain_terms, i, n - 1);
        if i == n - 1 {
        }
    }
}

/// The claims routing: the diagnostics match, one to one and in order, the
/// observations that are changelog laundering (CHANGELOG-001) or else carry
/// non-exempt victory or context language (CLAIM-004); each is a blocking
/// `claim` diagnostic at its observation's place.
pub proof fn lemma_claims_routing(obs: Seq<ObservationView>, domain_terms: Seq<String>, n: int)
    requires
        0 <= n <= obs.len(),
    ensures
        claims_eval_upto(obs, domain_terms, n).len() == claims_fired(obs, domain_terms, n),
        forall|i: int|
            0 <= i < n && #[trigger] claims_fires(obs[i], domain_terms) ==> {
                let d = claims_eval_upto(obs, domain_terms, n)[claims_fired(obs, domain_terms, i) as int];
                &&& d.code == (if obs[i].kind == "changelog_laundering"@ {
                    "ANTI-LLM-CHANGELOG-001"@
                } else {
                    "ANTI-LLM-CLAIM-004"@
                })
                &&& d.category == "claim"@ && d.blocking
                &&& d.file_path == obs[i].file_path && d.line == obs[i].line && d.column == obs[i].column
            },
    decreases n,
{
    if n > 0 {
        lemma_claims_routing(obs, domain_terms, n - 1);
        let prev = claims_eval_upto(obs, domain_terms, n - 1);
        let all = claims_eval_upto(obs, domain_terms, n);
        assert(all == prev + claims_eval_one(obs[n - 1], domain_terms));
        assert forall|i: int| 0 <= i < n && #[trigger] claims_fires(obs[i], domain_terms) implies {
            let d = all[claims_fired(obs, domain_terms, i) as int];
            &&& d.code == (if obs[i].kind == "changelog_laundering"@ {
                "ANTI-LLM-CHANGELOG-001"@
            } else {
                "ANTI-LLM-CLAIM-004"@
            })
            &&& d.category == "claim"@ && d.blocking
            &&& d.file_path == obs[i].file_path && d.line == obs[i].line && d.column == obs[i].column
        } by {
            if i < n - 1 {
                lemma_claims_fired_mono(obs, domain_terms, i, n - 1);
                assert(all[claims_fired(obs, domain_terms, i) as int] == prev[claims_fired(obs, domain_terms, i) as int]);
            } else {
                assert(all[prev.len() as int] == claims_eval_one(obs[n - 1], domain_terms)[0]);
            }
        }
    }
}

/// Victory claims: an observation that is not changelog laundering draws a
/// diagnostic exactly when its construct holds a victory term, or its context
/// a victory context pattern (no gaps found, all systems functional, audit
/// complete, zero violations, zero diagnostics), whose first match no
/// configured domain term exempts; the context alone suffices, whatever the
/// construct holds. The diagnostic is a blocking CLAIM-004 at the
/// observation's place. A changelog-laundering observation always draws one
/// blocking CHANGELOG-001.
pub proof fn lemma_victory_claims(o: ObservationView, domain_terms: Seq<String>)
    ensures
        o.kind != "changelog_laundering"@ ==> {
            let terms = regex_find_all(victory_regex(), o.construct);
            let ctx = regex_find_all(context_regex(), o.context);
            let fires = (terms.len() > 0 && !domain_exempt(terms[0].2, domain_terms)) || (ctx.len() > 0 && !domain_exempt(
                ctx[0].2,
                domain_terms,
            ));
            &&& (claims_eval_one(o, domain_terms).len() == 1) <==> fires
            &&& !fires ==> claims_eval_one(o, domain_terms).len() == 0
            &&& fires ==> claims_eval_one(o, domain_terms)[0].code == "ANTI-LLM-CLAIM-004"@ && claims_eval_one(
                o,
                domain_terms,
            )[0].blocking && claims_eval_one(o, domain_terms)[0].file_path == o.file_path && claims_eval_one(
                o,
                domain_terms,
            )[0].line == o.line
        },
        o.kind == "changelog_laundering"@ ==> claims_eval_one(o, domain_terms).len() == 1 && claims_eval_one(
            o,
            domain_terms,
        )[0].code == "ANTI-LLM-CHANGELOG-001"@ && claims_eval_one(o, domain_terms)[0].blocking,
{
}

fn claims_for(o: &Observation, domain_terms: &[String], diags: &mut Vec<AntiLlmDiagnostic>)
    ensures
        diag_views(final(diags)@) == diag_views(old(diags)@) + claims_eval_one(o@, domain_terms@),
{
    let ghost before = diags@;
    if eq_text(o.kind.as_str(), "changelog_laundering") {
        let ctx = chars_of(o.context.as_str());
        let head = take_at_most_chars(ctx.as_slice(), 80);
        let mut message = owned("Changelog laundering detected: '");
        message.append(string_of(head.as_slice()).as_str());
        message.append("'. A delta changelog is not combinatorial spec coverage.");
        let d = make_diag(
            "ANTI-LLM-CHANGELOG-001",
            "claim",
            o,
            message,
            owned("ChangelogCoverage => SpecCoverage(LSP 3.18)"),
            true,
            "Remove claim that changelog matrix constitutes full LSP 3.18 combinatorial coverage. Implement a spec extractor.",
            "Changelog and spec coverage are tracked separately; no CHANGELOG-001 diagnostic fires.",
        );
        assert(d@ == changelog_diag(o@));
        diags.push(d);
        proof {
            lemma_diag_views_push(before, d);
        }
    } else if is_victory(o.construct.as_str(), o.context.as_str(), domain_terms) {
        let mut message = owned("Victory/overclaim language detected: '");
        message.append(o.construct.as_str());
        message.append("'. Bounded status vocabulary required.");
        let d = make_diag(
            "ANTI-LLM-CLAIM-004",
            "claim",
            o,
            message,
            owned("StatusWord(ADMITTED) => Admitted"),
            true,
            "Replace with bounded status vocabulary (e.g. REPORTED_ADMITTED_BY_DOGFOOD, CANDIDATE). If this is a domain term (e.g. typestate vocabulary), add it to anti-llm.toml [claim] domain_terms.",
            "Run admissibility scan; confirm zero CLAIM-004 diagnostics.",
        );
        assert(d@ == claim_diag(o@));
        diags.push(d);
        proof {
            lemma_diag_views_push(before, d);
        }
    } else {
        assert(diag_views(diags@) =~= diag_views(before) + claims_eval_one(o@, domain_terms@));
    }
}

/// CLAIM-004 / CHANGELOG-001 diagnostics for every observation, in order.
pub fn evaluate(obs: &[Observation], domain_terms: &[String], _failset_nonempty: bool) -> (diags: Vec<AntiLlmDiagnostic>)
    ensures
        diag_views(diags@) == claims_eval_upto(obs_views(obs@), domain_terms@, obs@.len() as int),
{
    let mut diags: Vec<AntiLlmDiagnostic> = Vec::new();
    let ghost ov = obs_views(obs@);
    let mut i: usize = 0;
    assert(diag_views(diags@) =~= claims_eval_upto(ov, domain_terms@, 0));
    while i < obs.len()
        invariant
            i <= obs@.len(),
            ov == obs_views(obs@),
            diag_views(diags@) == claims_eval_upto(ov, domain_terms@, i as int),
        decreases obs@.len() - i,
    {
        assert(ov[i as int] == obs@[i as int]@);
        claims_for(&obs[i], domain_terms, &mut diags);
        i = i + 1;
    }
    diags
}

// ---------------------------------------------------------------------------
// Scanning
// ---------------------------------------------------------------------------
/// An observation for regex match `m` on line `idx` (0-based).
pub open spec fn victory_obs(
    file: Seq<char>,
    kind: Seq<char>,
    idx: int,
    line: Seq<char>,
    m: (usize, usize, Seq<char>),
    construct: Seq<char>,
    message_head: Seq<char>,
) -> ObservationView {
    ObservationView {
        file_path: file,
        start_byte: m.0,
        end_byte: m.1,
        line: (idx + 1) as usize,
        column: (m.0 + 1) as usize,
        kind,
        construct,
        context: trim(line),
        message: message_head + construct + "' found"@,
    }
}

/// Term-level observations for the first `k` victory matches of a line.
pub open spec fn term_obs(
    file: Seq<char>,
    kind: Seq<char>,
    domain_terms: Seq<String>,
    idx: int,
    line: Seq<char>,
    ms: Seq<(usize, usize, Seq<char>)>,
    k: int,
) -> Seq<ObservationView>
    decreases k,
{
    if k <= 0 {
        Seq::empty()
    } else {
        let t = unicode_lowercase(ms[k - 1].2);
        term_obs(file, kind, domain_terms, idx, line, ms, k - 1) + if domain_exempt(t, domain_terms) {
            Seq::empty()
        } else {
            seq![victory_obs(file, kind, idx, line, ms[k - 1], t, "Victory/overclaim language '"@)]
        }
    }
}

/// Context-level observations for the first `k` context matches of a line,
/// appended to `acc`; a match is skipped when the last observation so far is on this line.
pub open spec fn context_fold(
    acc: Seq<ObservationView>,
    file: Seq<char>,
    kind: Seq<char>,
    domain_terms: Seq<String>,
    idx: int,
    line: Seq<char>,
    ms: Seq<(usize, usize, Seq<char>)>,
    k: int,
) -> Seq<ObservationView>
    decreases k,
{
    if k <= 0 {
        acc
    } else {
        let prev = context_fold(acc, file, kind, domain_terms, idx, line, ms, k - 1);
        let p = unicode_lowercase(ms[k - 1].2);
        if domain_exempt(p, domain_terms) || (prev.len() > 0 && prev.last().line == idx + 1) {
            prev
        } else {
            prev.push(victory_obs(file, kind, idx, line, ms[k - 1], p, "Victory/overclaim context pattern '"@))
        }
    }
}

pub open spec fn victory_upto(
    file: Seq<char>,
    kind: Seq<char>,
    domain_terms: Seq<String>,
    lines: Seq<Seq<char>>,
    n: int,
) -> Seq<ObservationView>
    decreases n,
{
    if n <= 0 {
        Seq::empty()
    } else {
        let line = lines[n - 1];
        let tm = regex_find_all(victory_regex(), line);
        let cm = regex_find_all(context_regex(), line);
        context_fold(
            victory_upto(file, kind, domain_terms, lines, n - 1) + term_obs(file, kind, domain_terms, n - 1, line, tm, tm.len() as int),
            file,
            kind,
            domain_terms,
            n - 1,
            line,
            cm,
            cm.len() as int,
        )
    }
}

/// Everything `scan_for_victory` reports.
pub open spec fn victory_scan(file: Seq<char>, content: Seq<char>, kind: Seq<char>, domain_terms: Seq<String>) -> Seq<ObservationView> {
    let lines = lines_of(content);
    victory_upto(file, kind, domain_terms, lines, lines.len() as int)
}

/// What every victory observation for line `idx` of `lines` satisfies.
pub open spec fn victory_obs_ok(
    o: ObservationView,
    file: Seq<char>,
    kind: Seq<char>,
    domain_terms: Seq<String>,
    lines: Seq<Seq<char>>,
    idx: int,
) -> bool {
    &&& o.line == idx + 1
    &&& o.file_path == file && o.kind == kind
    &&& !domain_exempt(o.construct, domain_terms)
    &&& o.context == trim(lines[idx])
}

proof fn lemma_term_obs(
    file: Seq<char>,
    kind: Seq<char>,
    domain_terms: Seq<String>,
    lines: Seq<Seq<char>>,
    idx: int,
    ms: Seq<(usize, usize, Seq<char>)>,
    k: int,
)
    requires
        0 <= idx < lines.len() <= usize::MAX,
        k <= ms.len(),
    ensures
        forall|j: int| 0 <= j < term_obs(file, kind, domain_terms, idx, lines[idx], ms, k).len() ==> victory_obs_ok(
            #[trigger] term_obs(file, kind, domain_terms, idx, lines[idx], ms, k)[j], file, kind, domain_terms, lines, idx),
    decreases k,
{
    if k > 0 {
        lemma_term_obs(file, kind, domain_terms, lines, idx, ms, k - 1);
        let prev = term_obs(file, kind, domain_terms, idx, lines[idx], ms, k - 1);
        let all = term_obs(file, kind, domain_terms, idx, lines[idx], ms, k);
        assert forall|j: int| 0 <= j < all.len() implies victory_obs_ok(#[trigger] all[j], file, kind, domain_terms, lines, idx) by {
            if j < prev.len() {
                assert(all[j] == prev[j]);
            }
        }
    }
}

proof fn lemma_context_fold(
    acc: Seq<ObservationView>,
    file: Seq<char>,
    kind: Seq<char>,
    domain_terms: Seq<String>,
    lines: Seq<Seq<char>>,
    idx: int,
    ms: Seq<(usize, usize, Seq<char>)>,
    k: int,
)
    requires
        0 <= idx < lines.len() <= usize::MAX,
        k <= ms.len(),
    ensures
        ({
            let r = context_fold(acc, file, kind, domain_terms, idx, lines[idx], ms, k);
            &&& acc.len() <= r.len()
            &&& r.take(acc.len() as int) == acc
            &&& forall|j: int| acc.len() <= j < r.len() ==> victory_obs_ok(#[trigger] r[j], file, kind, domain_terms, lines, idx)
        }),
    decreases k,
{
    if k > 0 {
        lemma_context_fold(acc, file, kind, domain_terms, lines, idx, ms, k - 1);
        let prev = context_fold(acc, file, kind, domain_terms, idx, lines[idx], ms, k - 1);
        let r = context_fold(acc, file, kind, domain_terms, idx, lines[idx], ms, k);
        assert(r.take(acc.len() as int) =~= acc) by {
            assert forall|j: int| 0 <= j < acc.len() implies r[j] == acc[j] by {
                assert(prev.take(acc.len() as int)[j] == acc[j]);
                assert(r[j] == prev[j]);
            }
        }
        assert forall|j: int| acc.len() <= j < r.len() implies victory_obs_ok(#[trigger] r[j], file, kind, domain_terms, lines, idx) by {
            if j < prev.len() {
                assert(r[j] == prev[j]);
            }
        }
    } else {
        assert(acc.take(acc.len() as int) =~= acc);
    }
}

proof fn lemma_victory_upto(file: Seq<char>, kind: Seq<char>, domain_terms: Seq<String>, lines: Seq<Seq<char>>, n: int)
    requires
        0 <= n <= lines.len() <= usize::MAX,
    ensures
        forall|j: int| 0 <= j < victory_upto(file, kind, domain_terms, lines, n).len() ==> {
            let o = #[trigger] victory_upto(file, kind, domain_terms, lines, n)[j];
            1 <= o.line <= n && victory_obs_ok(o, file, kind, domain_terms, lines, o.line - 1)
        },
        forall|a: int, b: int|
            0 <= a < b < victory_upto(file, kind, domain_terms, lines, n).len() ==> (#[trigger] victory_upto(
                file,
                kind,
                domain_terms,
                lines,
                n,
            )[a]).line <= (#[trigger] victory_upto(file, kind, domain_terms, lines, n)[b]).line,
    decreases n,
{
    if n > 0 {
        lemma_victory_upto(file, kind, domain_terms, lines, n - 1);
        let line = lines[n - 1];
        let tm = regex_find_all(victory_regex(), line);
        let cm = regex_find_all(context_regex(), line);
        let prev = victory_upto(file, kind, domain_terms, lines, n - 1);
        let terms = term_obs(file, kind, domain_terms, n - 1, line, tm, tm.len() as int);
        lemma_term_obs(file, kind, domain_terms, lines, n - 1, tm, tm.len() as int);
        let acc = prev + terms;
        lemma_context_fold(acc, file, kind, domain_terms, lines, n - 1, cm, cm.len() as int);
        let all = victory_upto(file, kind, domain_terms, lines, n);
        assert(all == context_fold(acc, file, kind, domain_terms, n - 1, line, cm, cm.len() as int));
        assert forall|j: int| 0 <= j < all.len() implies {
            let o = #[trigger] all[j];
            1 <= o.line <= n && victory_obs_ok(o, file, kind, domain_terms, lines, o.line - 1)
        } by {
            if j < acc.len() {
                assert(all.take(acc.len() as int)[j] == acc[j]);
                if j < prev.len() {
                    assert(acc[j] == prev[j]);
                } else {
                    assert(acc[j] == terms[j - prev.len()]);
                }
            }
        }
        assert forall|a: int, b: int| 0 <= a < b < all.len() implies (#[trigger] all[a]).line <= (#[trigger] all[b]).line by {
            if b < prev.len() {
                assert(all.take(acc.len() as int)[a] == acc[a]);
                assert(all.take(acc.len() as int)[b] == acc[b]);
                assert(acc[a] == prev[a] && acc[b] == prev[b]);
            } else if a < prev.len() {
                assert(all.take(acc.len() as int)[a] == acc[a]);
                assert(acc[a] == prev[a]);
                if b < acc.len() {
                    assert(all.take(acc.len() as int)[b] == acc[b]);
                    assert(acc[b] == terms[b - prev.len()]);
                }
            } else {
                if a < acc.len() {
                    assert(all.take(acc.len() as int)[a] == acc[a]);
                    assert(acc[a] == terms[a - prev.len()]);
                }
                if b < acc.len() {
                    assert(all.take(acc.len() as int)[b] == acc[b]);
                    assert(acc[b] == terms[b - prev.len()]);
                }
            }
        }
    }
}

/// Victory scanning: every observation, in line order, names the file and the
/// given kind, carries its (trimmed) line as context, and has a construct that
/// no configured domain term exempts.
pub proof fn lemma_victory_scan_law(file: Seq<char>, content: Seq<char>, kind: Seq<char>, domain_terms: Seq<String>)
    requires
        content.len() <= usize::MAX,
    ensures
        ({
            let lines = lines_of(content);
            let obs = victory_scan(file, content, kind, domain_terms);
            &&& forall|j: int| 0 <= j < obs.len() ==> {
                let o = #[trigger] obs[j];
                1 <= o.line <= lines.len() && victory_obs_ok(o, file, kind, domain_terms, lines, o.line - 1)
            }
            &&& forall|a: int, b: int| 0 <= a < b < obs.len() ==> (#[trigger] obs[a]).line <= (#[trigger] obs[b]).line
        }),
{
    let lines = lines_of(content);
    crate::text::lemma_lines_len(content);
    lemma_victory_upto(file, kind, domain_terms, lines, lines.len() as int);
}

fn make_victory_obs(
    filepath: &str,
    kind: &str,
    line_num: usize,
    context: &String,
    m: &crate::matching::RegexMatch,
    construct: String,
    message_head: &str,
) -> (o: Observation)
    requires
        m.start <= isize::MAX,
    ensures
        o@.file_path == filepath@,
        o@.start_byte == m.start,
        o@.end_byte == m.end,
        o@.line == line_num,
        o@.column == m.start + 1,
        o@.kind == kind@,
        o@.construct == construct@,
        o@.context == context@,
        o@.message == message_head@ + construct@ + "' found"@,
{
    let mut message = owned(message_head);
    message.append(construct.as_str());
    message.append("' found");
    Observation {
        file_path: owned(filepath),
        start_byte: m.start,
        end_byte: m.end,
        line: line_num,
        column: m.start + 1,
        kind: owned(kind),
        construct,
        context: context.clone(),
        message,
    }
}

/// Scans every line of `content` for victory terms and context patterns.
///
/// Each non-exempt term match yields an observation (construct: the lower-cased
/// match); a non-exempt context match is added unless the previous observation
/// is already on the same line.
pub fn scan_for_victory(filepath: &str, content: &str, kind: &str, domain_terms: &[String]) -> (obs: Vec<Observation>)
    ensures
        obs_views(obs@) == victory_scan(filepath@, content@, kind@, domain_terms@),
        forall|k: int| 0 <= k < obs@.len() ==> (#[trigger] obs@[k]).column == obs@[k].start_byte + 1,
{
    let mut obs: Vec<Observation> = Vec::new();
    let vp = victory_regex_exec();
    let cp = context_regex_exec();
    let c = chars_of(content);
    let lines = lines_chars(c.as_slice());
    let ghost ls = lines_of(content@);
    let mut i: usize = 0;
    assert(obs_views(obs@) =~= victory_upto(filepath@, kind@, domain_terms@, ls, 0));
    while i < lines.len()
        invariant
            i <= lines@.len(),
            lines@.len() <= content@.len(),
            vp@ == victory_regex(),
            cp@ == context_regex(),
            lines@.map_values(|l: Vec<char>| l@) == ls,
            obs_views(obs@) == victory_upto(filepath@, kind@, domain_terms@, ls, i as int),
            forall|q: int| 0 <= q < obs@.len() ==> (#[trigger] obs@[q]).column == obs@[q].start_byte + 1,
        decreases lines@.len() - i,
    {
        assert(ls[i as int] == lines@[i as int]@);
        let ghost line = ls[i as int];
        let line_num = i + 1;
        let line_s = string_of(lines[i].as_slice());
        let ctx = string_of(trim_chars(lines[i].as_slice()).as_slice());
        let tm = find_all(vp.as_str(), line_s.as_str());
        let ghost tmv = match_views(tm@);
        let ghost base = obs_views(obs@);
        let mut k: usize = 0;
        assert(base =~= base + term_obs(filepath@, kind@, domain_terms@, i as int, line, tmv, 0));
        while k < tm.len()
            invariant
                k <= tm@.len(),
                tmv == match_views(tm@),
                forall|t: int| 0 <= t < tm@.len() ==> #[trigger] tm@[t].start <= tm@[t].end <= isize::MAX,
                line_num == i + 1,
                ctx@ == trim(line),
                obs_views(obs@) == base + term_obs(filepath@, kind@, domain_terms@, i as int, line, tmv, k as int),
                forall|q: int| 0 <= q < obs@.len() ==> (#[trigger] obs@[q]).column == obs@[q].start_byte + 1,
            decreases tm@.len() - k,
        {
            let m = &tm[k];
            assert(tmv[k as int] == m@);
            let t = to_lowercase(m.text.as_str());
            let ghost before = obs@;
            if !is_domain_exempt(t.as_str(), domain_terms) {
                assert(m.start <= isize::MAX);
                let o = make_victory_obs(filepath, kind, line_num, &ctx, m, t, "Victory/overclaim language '");
                assert(o@ == victory_obs(filepath@, kind@, i as int, line, tmv[k as int], unicode_lowercase(tmv[k as int].2), "Victory/overclaim language '"@));
                obs.push(o);
                proof {
                    lemma_obs_views_push(before, o);
                }
            }
            k = k + 1;
            assert(obs_views(obs@) =~= base + term_obs(filepath@, kind@, domain_terms@, i as int, line, tmv, k as int));
        }
        let cm = find_all(cp.as_str(), line_s.as_str());
        let ghost cmv = match_views(cm@);
        let ghost acc = obs_views(obs@);
        let mut k: usize = 0;
        while k < cm.len()
            invariant
                k <= cm@.len(),
                cmv == match_views(cm@),
                forall|t: int| 0 <= t < cm@.len() ==> #[trigger] cm@[t].start <= cm@[t].end <= isize::MAX,
                line_num == i + 1,
                ctx@ == trim(line),
                obs_views(obs@) == context_fold(acc, filepath@, kind@, domain_terms@, i as int, line, cmv, k as int),
                forall|q: int| 0 <= q < obs@.len() ==> (#[trigger] obs@[q]).column == obs@[q].start_byte + 1,
            decreases cm@.len() - k,
        {
            let m = &cm[k];
            assert(cmv[k as int] == m@);
            let p = to_lowercase(m.text.as_str());
            let ghost before = obs@;
            let ghost prev = obs_views(obs@);
            let exempt = is_domain_exempt(p.as_str(), domain_terms);
            let same_line = obs.len() > 0 && obs[obs.len() - 1].line == line_num;
            proof {
                if obs@.len() > 0 {
                    assert(prev.last() == obs@[obs@.len() - 1]@);
                }
            }
            if !exempt && !same_line {
                assert(m.start <= isize::MAX);
                let o = make_victory_obs(filepath, kind, line_num, &ctx, m, p, "Victory/overclaim context pattern '");
                assert(o@ == victory_obs(filepath@, kind@, i as int, line, cmv[k as int], unicode_lowercase(cmv[k as int].2), "Victory/overclaim context pattern '"@));
                obs.push(o);
                proof {
                    lemma_obs_views_push(before, o);
                }
            }
            k = k + 1;
        }
        i = i + 1;
        assert(obs_views(obs@) == victory_upto(filepath@, kind@, domain_terms@, ls, i as int));
    }
    obs
}

} // verus!
