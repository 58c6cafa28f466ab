//! HEDGE-001: comments that admit an implementation is incomplete
//! ("in a real implementation", "for now we", "stub implementation", ...).
use vstd::prelude::*;

use crate::config::AntiLlmConfig;
use crate::diagnostics::{diag, diag_views, lemma_diag_views_push, make_diag, AntiLlmDiagnostic, DiagnosticView};
use crate::matching::{find_all, match_views, regex_find_all};
use crate::observations::{lemma_obs_views_push, obs_views, Observation, ObservationView};
use crate::text::{
    chars_of, contains, contains_chars, decimal, eq_text, lines_chars, lines_of, owned, push_decimal,
    starts_with, starts_with_chars, string_of, trim_start, trim_start_chars,
};

verus! {

/// The case-insensitive hedge-phrase pattern.
pub open spec fn hedge_regex() -> Seq<char> {
    "(?i)(in a real implementation|for now,? (we('ll)?|this)|temporary workaround|this is a placeholder|stub implementation|not yet implemented|will be replaced|production implementation would|todo: replace this with a real)"@
}

fn hedge_regex_exec() -> (p: &'static str)
    ensures
        p@ == hedge_regex(),
{
    "(?i)(in a real implementation|for now,? (we('ll)?|this)|temporary workaround|this is a placeholder|stub implementation|not yet implemented|will be replaced|production implementation would|todo: replace this with a real)"
}

/// A line whose left-trimmed form starts a `//` comment.
pub open spec fn spec_is_comment_line(trimmed: Seq<char>) -> bool {
    starts_with(trimmed, "//"@)
}

fn is_comment_line(trimmed: &[char]) -> (b: bool)
    ensures
        b == spec_is_comment_line(trimmed@),
{
    let p = chars_of("//");
    starts_with_chars(trimmed, p.as_slice())
}

/// Block-comment state while a line is examined: set by a line starting `/*`.
pub open spec fn block_during(before: bool, line: Seq<char>) -> bool {
    before || starts_with(trim_start(line), "/*"@)
}

/// Block-comment state after a line: cleared once the line holds `*/`.
pub open spec fn block_after(during: bool, line: Seq<char>) -> bool {
    if during && contains(line, "*/"@) {
        false
    } else {
        during
    }
}

/// Block-comment state before line `n` (0-based).
pub open spec fn block_state(lines: Seq<Seq<char>>, n: int) -> bool
    decreases n,
{
    if n <= 0 {
        false
    } else {
        block_after(block_during(block_state(lines, n - 1), lines[n - 1]), lines[n - 1])
    }
}

/// The observation, if any, for line `idx` examined with block state `during`.
pub open spec fn hedge_line(file: Seq<char>, idx: int, line: Seq<char>, during: bool) -> Seq<ObservationView> {
    let m = regex_find_all(hedge_regex(), line);
    if (during || spec_is_comment_line(trim_start(line))) && m.len() > 0 {
        seq![ObservationView {
            file_path: file,
            start_byte: 0,
            end_byte: 0,
            line: (idx + 1) as usize,
            column: 1,
            kind: "hedge_smell"@,
            construct: m[0].2,
            context: line,
            message: "Hedge comment '"@ + m[0].2 + "' detected on line "@ + decimal((idx + 1) as nat),
        }]
    } else {
        Seq::empty()
    }
}

pub open spec fn hedge_upto(file: Seq<char>, lines: Seq<Seq<char>>, n: int) -> Seq<ObservationView>
    decreases n,
{
    if n <= 0 {
        Seq::empty()
    } else {
        hedge_upto(file, lines, n - 1) + hedge_line(
            file,
            n - 1,
            lines[n - 1],
            block_during(block_state(lines, n - 1), lines[n - 1]),
        )
    }
}

/// Everything `scan_for_hedge` reports.
pub open spec fn hedge_scan(file: Seq<char>, content: Seq<char>) -> Seq<ObservationView> {
    let lines = lines_of(content);
    hedge_upto(file, lines, lines.len() as int)
}

/// Scans `//` comment lines and lines inside `/* ... */` blocks for the first
/// hedge phrase; one `hedge_smell` observation per such line.
pub fn scan_for_hedge(filepath: &str, content: &str) -> (obs: Vec<Observation>)
    ensures
        obs_views(obs@) == hedge_scan(filepath@, content@),
{
    let mut obs: Vec<Observation> = Vec::new();
    let mut in_block = false;
    let open = chars_of("/*");
    let close = chars_of("*/");
    let c = chars_of(content);
    let lines = lines_chars(c.as_slice());
    let ghost ls = lines_of(content@);
    let mut i: usize = 0;
    assert(obs_views(obs@) =~= hedge_upto(filepath@, ls, 0));
    while i < lines.len()
        invariant
            i <= lines@.len(),
            lines@.len() <= content@.len(),
            open@ == "/*"@,
            close@ == "*/"@,
            lines@.map_values(|l: Vec<char>| l@) == ls,
            in_block == block_state(ls, i as int),
            obs_views(obs@) == hedge_upto(filepath@, ls, i as int),
        decreases lines@.len() - i,
    {
        assert(ls[i as int] == lines@[i as int]@);
        let line_num = i + 1;
        let trimmed = trim_start_chars(lines[i].as_slice());
        if starts_with_chars(trimmed.as_slice(), open.as_slice()) {
            in_block = true;
        }
        let is_comment = in_block || is_comment_line(trimmed.as_slice());
        let ghost before = obs@;
        if is_comment {
            let line_s = string_of(lines[i].as_slice());
            let m = find_all(hedge_regex_exec(), line_s.as_str());
            assert(match_views(m@).len() == m@.len());
            if m.len() > 0 {
                assert(match_views(m@)[0] == m@[0]@);
                let phrase = m[0].text.clone();
                let mut message = owned("Hedge comment '");
                message.append(phrase.as_str());
                message.append("' detected on line ");
                push_decimal(&mut message, line_num);
                let o = Observation {
                    file_path: owned(filepath),
                    start_byte: 0,
                    end_byte: 0,
                    line: line_num,
                    column: 1,
                    kind: owned("hedge_smell"),
                    construct: phrase,
                    context: line_s,
                    message,
                };
                obs.push(o);
                proof {
                    lemma_obs_views_push(before, o);
                }
            }
        }
        assert(obs_views(obs@) =~= hedge_upto(filepath@, ls, i + 1));
        if in_block && contains_chars(lines[i].as_slice(), close.as_slice()) {
            in_block = false;
        }
        i = i + 1;
    }
    obs
}

/// Line `idx` lies in a block comment opened on line `s`: line `s` starts
/// `/*` and no line from `s` up to (not including) `idx` holds `*/`.
pub open spec fn opened_at(lines: Seq<Seq<char>>, s: int, idx: int) -> bool {
    &&& 0 <= s <= idx
    &&& starts_with(trim_start(lines[s]), "/*"@)
    &&& forall|t: int| s <= t < idx ==> !contains(#[trigger] lines[t], "*/"@)
}

/// Line `idx` is a comment line: a `//` line, or one from a line starting `/*`
/// to the first line (the same or later) that holds `*/`.
pub open spec fn hedge_comment_line(lines: Seq<Seq<char>>, idx: int) -> bool {
    spec_is_comment_line(trim_start(lines[idx])) || exists|s: int| #[trigger] opened_at(lines, s, idx)
}

proof fn lemma_block_during(lines: Seq<Seq<char>>, idx: int)
    requires
        0 <= idx < lines.len(),
    ensures
        block_during(block_state(lines, idx), lines[idx]) <==> exists|s: int| #[trigger] opened_at(lines, s, idx),
    decreases idx,
{
    if starts_with(trim_start(lines[idx]), "/*"@) {
        assert(opened_at(lines, idx, idx));
    }
    if idx > 0 {
        lemma_block_during(lines, idx - 1);
        if block_state(lines, idx) {
            let s = choose|s: int| #[trigger] opened_at(lines, s, idx - 1);
            assert(opened_at(lines, s, idx));
        }
        if exists|s: int| #[trigger] opened_at(lines, s, idx) {
            let s = choose|s: int| #[trigger] opened_at(lines, s, idx);
            if s < idx {
                assert(opened_at(lines, s, idx - 1));
                assert(!contains(lines[idx - 1], "*/"@));
            }
        }
    } else {
        if exists|s: int| #[trigger] opened_at(lines, s, idx) {
            let s = choose|s: int| #[trigger] opened_at(lines, s, idx);
            assert(s == 0);
        }
    }
}

proof fn lemma_hedge_upto(file: Seq<char>, lines: Seq<Seq<char>>, n: int)
    requires
        0 <= n <= lines.len(),
        lines.len() <= usize::MAX,
    ensures
        forall|k: int| 0 <= k < hedge_upto(file, lines, n).len() ==> {
            let o = #[trigger] hedge_upto(file, lines, n)[k];
            &&& 1 <= o.line <= n
            &&& hedge_comment_line(lines, o.line - 1)
            &&& regex_find_all(hedge_regex(), lines[o.line - 1]).len() > 0
            &&& o.construct == regex_find_all(hedge_regex(), lines[o.line - 1])[0].2
            &&& o.file_path == file && o.kind == "hedge_smell"@ && o.column == 1 && o.context == lines[o.line - 1]
        },
        forall|a: int, b: int|
            0 <= a < b < hedge_upto(file, lines, n).len() ==> (#[trigger] hedge_upto(file, lines, n)[a]).line
                < (#[trigger] hedge_upto(file, lines, n)[b]).line,
        forall|idx: int|
            0 <= idx < n && #[trigger] hedge_comment_line(lines, idx) && regex_find_all(hedge_regex(), lines[idx]).len() > 0
                ==> exists|k: int| 0 <= k < hedge_upto(file, lines, n).len() && (#[trigger] hedge_upto(file, lines, n)[k]).line == idx + 1,
    decreases n,
{
    if n > 0 {
        lemma_hedge_upto(file, lines, n - 1);
        lemma_block_during(lines, n - 1);
        let prev = hedge_upto(file, lines, n - 1);
        let cur = hedge_line(file, n - 1, lines[n - 1], block_during(block_state(lines, n - 1), lines[n - 1]));
        let all = hedge_upto(file, lines, n);
        assert(all == prev + cur);
        assert forall|k: int| 0 <= k < all.len() implies {
            let o = #[trigger] all[k];
            &&& 1 <= o.line <= n
            &&& hedge_comment_line(lines, o.line - 1)
            &&& regex_find_all(hedge_regex(), lines[o.line - 1]).len() > 0
            &&& o.construct == regex_find_all(hedge_regex(), lines[o.line - 1])[0].2
            &&& o.file_path == file && o.kind == "hedge_smell"@ && o.column == 1 && o.context == lines[o.line - 1]
        } by {
            if k < prev.len() {
                assert(all[k] == prev[k]);
            } else {
                assert(all[k] == cur[k - prev.len()]);
            }
        }
        assert forall|a: int, b: int| 0 <= a < b < all.len() implies (#[trigger] all[a]).line < (#[trigger] all[b]).line by {
            if b < prev.len() {
                assert(all[a] == prev[a] && all[b] == prev[b]);
            } else if a < prev.len() {
                assert(all[a] == prev[a]);
                assert(all[b] == cur[b - prev.len()]);
            } else {
                assert(cur.len() <= 1);
            }
        }
        assert forall|idx: int|
            0 <= idx < n && #[trigger] hedge_comment_line(lines, idx) && regex_find_all(hedge_regex(), lines[idx]).len() > 0
            implies exists|k: int| 0 <= k < all.len() && (#[trigger] all[k]).line == idx + 1 by {
            if idx < n - 1 {
                let k = choose|k: int| 0 <= k < prev.len() && (#[trigger] prev[k]).line == idx + 1;
                assert(all[k] == prev[k]);
            } else {
                assert(cur.len() == 1);
                assert(all[prev.len() as int] == cur[0]);
            }
        }
    }
}

/// Hedge detection on comment lines: every observation, in line order and at
/// most one per line, is on a comment line (a `//` line, or a line from one
/// starting `/*` to the first that holds `*/`) whose text matches a hedge
/// phrase, with column 1, the line as context and the first match as construct;
/// and every such line is reported.
pub proof fn lemma_hedge_comment_lines(file: Seq<char>, content: Seq<char>)
    requires
        content.len() <= usize::MAX,
    ensures
        ({
            let lines = lines_of(content);
            let obs = hedge_scan(file, content);
            &&& forall|k: int| 0 <= k < obs.len() ==> {
                let o = #[trigger] obs[k];
                &&& 1 <= o.line <= lines.len()
                &&& hedge_comment_line(lines, o.line - 1)
                &&& regex_find_all(hedge_regex(), lines[o.line - 1]).len() > 0
                &&& o.construct == regex_find_all(hedge_regex(), lines[o.line - 1])[0].2
                &&& o.file_path == file && o.kind == "hedge_smell"@ && o.column == 1 && o.context == lines[o.line - 1]
            }
            &&& forall|a: int, b: int| 0 <= a < b < obs.len() ==> (#[trigger] obs[a]).line < (#[trigger] obs[b]).line
            &&& forall|idx: int|
                0 <= idx < lines.len() && #[trigger] hedge_comment_line(lines, idx) && regex_find_all(hedge_regex(), lines[idx]).len() > 0
                    ==> exists|k: int| 0 <= k < obs.len() && (#[trigger] obs[k]).line == idx + 1
        }),
{
    let lines = lines_of(content);
    crate::text::lemma_lines_len(content);
    lemma_hedge_upto(file, lines, lines.len() as int);
    let obs = hedge_scan(file, content);
    assert(obs == hedge_upto(file, lines, lines.len() as int));
    assert forall|idx: int|
        0 <= idx < lines.len() && #[trigger] hedge_comment_line(lines, idx) && regex_find_all(hedge_regex(), lines[idx]).len() > 0
        implies exists|k: int| 0 <= k < obs.len() && (#[trigger] obs[k]).line == idx + 1 by {
        let k = choose|k: int|
            0 <= k < obs.len() && (#[trigger] hedge_upto(file, lines, lines.len() as int)[k]).line == idx + 1;
        assert(obs[k].line == idx + 1);
    }
}

pub open spec fn hedge_diag(o: ObservationView) -> DiagnosticView {
    diag(
        "ANTI-LLM-HEDGE-001"@,
        "hedge_implementation"@,
        o,
        "Hedge comment detected: '"@ + o.construct + "' — implementation admitted incomplete via comment"@,
        "HedgeComment("@ + o.construct + ") => IncompleteImplementation"@,
        true,
        "Remove the hedge comment and either complete the implementation or use todo!()"@,
        "Show the completed implementation with no hedging language"@,
    )
}

pub open spec fn hedge_eval_one(o: ObservationView, config: AntiLlmConfig) -> Seq<DiagnosticView> {
    if o.kind == "hedge_smell"@ && !config.allows_suppression(o.file_path) {
        seq![hedge_diag(o)]
    } else {
        Seq::empty()
    }
}

pub open spec fn hedge_eval_upto(obs: Seq<ObservationView>, config: AntiLlmConfig, n: int) -> Seq<DiagnosticView>
    decreases n,
{
    if n <= 0 {
        Seq::empty()
    } else {
        hedge_eval_upto(obs, config, n - 1) + hedge_eval_one(obs[n - 1], config)
    }
}

/// One HEDGE-001 diagnostic per unsuppressed `hedge_smell` observation.
pub fn evaluate(obs: &[Observation], config: &AntiLlmConfig) -> (diags: Vec<AntiLlmDiagnostic>)
    ensures
        diag_views(diags@) == hedge_eval_upto(obs_views(obs@), *config, obs@.len() as int),
{
    let mut diags: Vec<AntiLlmDiagnostic> = Vec::new();
    let ghost ov = obs_views(obs@);
    let mut i: usize = 0;
    assert(diag_views(diags@) =~= hedge_eval_upto(ov, *config, 0));
    while i < obs.len()
        invariant
            i <= obs@.len(),
            ov == obs_views(obs@),
            diag_views(diags@) == hedge_eval_upto(ov, *config, i as int),
        decreases obs@.len() - i,
    {
        let o = &obs[i];
        assert(ov[i as int] == o@);
        let ghost before = diags@;
        if eq_text(o.kind.as_str(), "hedge_smell") && !config.is_suppression_allowed(o.file_path.as_str()) {
            let mut message = owned("Hedge comment detected: '");
            message.append(o.construct.as_str());
            message.append("' — implementation admitted incomplete via comment");
            let mut forbidden = owned("HedgeComment(");
            forbidden.append(o.construct.as_str());
            forbidden.append(") => IncompleteImplementation");
            let d = make_diag(
                "ANTI-LLM-HEDGE-001",
                "hedge_implementation",
                o,
                message,
                forbidden,
                true,
                "Remove the hedge comment and either complete the implementation or use todo!()",
                "Show the completed implementation with no hedging language",
            );
            diags.push(d);
            proof {
                lemma_diag_views_push(before, d);
            }
        }
        assert(diag_views(diags@) =~= hedge_eval_upto(ov, *config, i + 1));
        i = i + 1;
    }
    diags
}

/// Findings in a path that the configuration suppresses are never diagnosed.
pub proof fn lemma_hedge_respects_suppression(obs: Seq<ObservationView>, config: AntiLlmConfig, n: int)
    ensures
        forall|k: int|
            0 <= k < hedge_eval_upto(obs, config, n).len() ==> !config.allows_suppression(
                (#[trigger] hedge_eval_upto(obs, config, n)[k]).file_path,
            ),
    decreases n,
{
    if n > 0 {
        lemma_hedge_respects_suppression(obs, config, n - 1);
        let prev = hedge_eval_upto(obs, config, n - 1);
        let all = hedge_eval_upto(obs, config, n);
        assert forall|k: int| 0 <= k < all.len() implies !config.allows_suppression((#[trigger] all[k]).file_path) by {
            if k < prev.len() {
                assert(all[k] == prev[k]);
            }
        }
    }
}

/// Every unsuppressed hedge observation (`hedge_smell`) draws exactly one
/// blocking HEDGE-001 diagnostic at its place; any other
/// observation, or one in a suppressed path, draws none.
pub proof fn lemma_hedge_diagnostics(o: ObservationView, config: AntiLlmConfig)
    ensures
        (hedge_eval_one(o, config).len() == 1) <==> (o.kind == "hedge_smell"@ && !config.allows_suppression(o.file_path)),
        hedge_eval_one(o, config).len() <= 1,
        hedge_eval_one(o, config).len() == 1 ==> hedge_eval_one(o, config)[0].code == "ANTI-LLM-HEDGE-001"@ && hedge_eval_one(o, config)[0].blocking
            && hedge_eval_one(o, config)[0].file_path == o.file_path && hedge_eval_one(o, config)[0].line == o.line,
{
}

} // verus!
