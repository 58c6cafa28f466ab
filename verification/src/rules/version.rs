//! CalVer version law (`ANTI-LLM-VERSION-*`): versions are `YY.M.D`, not SemVer
//! template defaults, and CalVer-shaped strings must have plausible components.
use vstd::prelude::*;

use crate::config::AntiLlmConfig;
use crate::diagnostics::{diag, diag_coded, diag_views, lemma_diag_views_push, make_diag, AntiLlmDiagnostic, DiagnosticView};
use crate::matching::{captures_all, captures_views, regex_captures_all, RegexCaptures};
use crate::observations::{lemma_obs_views_push, obs_views, Observation, ObservationView};
use crate::text::{chars_of, contains, contains_text, decimal, eq_text, lines_chars, lines_of, owned, push_decimal, string_of};

verus! {

// ---------------------------------------------------------------------------
// `u32::from_str`
// ---------------------------------------------------------------------------
pub open spec fn all_ascii_digits(s: Seq<char>) -> bool {
    forall|i: int| 0 <= i < s.len() ==> '0' <= #[trigger] s[i] && s[i] <= '9'
}

/// Value of a string of ASCII decimal digits.
pub open spec fn digits_value(s: Seq<char>) -> nat
    decreases s.len(),
{
    if s.len() == 0 {
        0
    } else {
        digits_value(s.drop_last()) * 10 + ((s.last() as u32) - 48) as nat
    }
}

/// `u32::from_str`: an optional `+`, then one or more ASCII digits, with no overflow.
pub open spec fn parse_u32(s: Seq<char>) -> Option<u32> {
    let d = if s.len() > 0 && s[0] == '+' {
        s.drop_first()
    } else {
        s
    };
    if d.len() == 0 || !all_ascii_digits(d) || digits_value(d) > u32::MAX {
        None
    } else {
        Some(digits_value(d) as u32)
    }
}

proof fn lemma_digits_monotone(s: Seq<char>, k: int)
    requires
        0 <= k <= s.len(),
        all_ascii_digits(s),
    ensures
        digits_value(s.take(k)) <= digits_value(s),
    decreases s.len() - k,
{
    if k < s.len() {
        lemma_digits_monotone(s, k + 1);
        assert(s.take(k + 1).drop_last() =~= s.take(k));
        assert('0' <= s[k]);
    } else {
        assert(s.take(k) =~= s);
    }
}

fn parse_u32_exec(s: &[char]) -> (r: Option<u32>)
    ensures
        r == parse_u32(s@),
{
    let start: usize = if s.len() > 0 && s[0] == '+' { 1 } else { 0 };
    let ghost d = if s@.len() > 0 && s@[0] == '+' { s@.drop_first() } else { s@ };
    assert(d =~= s@.skip(start as int));
    if start == s.len() {
        return None;
    }
    let mut i = start;
    while i < s.len()
        invariant
            start <= i <= s@.len(),
            d =~= s@.skip(start as int),
            d == (if s@.len() > 0 && s@[0] == '+' { s@.drop_first() } else { s@ }),
            forall|j: int| start <= j < i ==> '0' <= #[trigger] s@[j] && s@[j] <= '9',
        decreases s@.len() - i,
    {
        if !('0' <= s[i] && s[i] <= '9') {
            assert(!all_ascii_digits(d)) by {
                assert(d[i - start] == s@[i as int]);
            }
            return None;
        }
        i = i + 1;
    }
    assert(all_ascii_digits(d)) by {
        assert forall|j: int| 0 <= j < d.len() implies '0' <= #[trigger] d[j] && d[j] <= '9' by {
            assert(d[j] == s@[start + j]);
        }
    }
    let mut v: u64 = 0;
    let mut k: usize = start;
    while k < s.len()
        invariant
            start <= k <= s@.len(),
            d =~= s@.skip(start as int),
            d == (if s@.len() > 0 && s@[0] == '+' { s@.drop_first() } else { s@ }),
            all_ascii_digits(d),
            v == digits_value(d.take(k - start)),
            v <= u32::MAX,
        decreases s@.len() - k,
    {
        assert(d[k - start] == s@[k as int]);
        let dig = (s[k] as u32 - 48) as u64;
        assert(d.take(k - start + 1).drop_last() =~= d.take(k - start));
        let nv = v * 10 + dig;
        if nv > 0xFFFF_FFFF {
            proof {
                lemma_digits_monotone(d, k - start + 1);
            }
            return None;
        }
        v = nv;
        k = k + 1;
    }
    assert(d.take(k - start) =~= d);
    Some(v as u32)
}

// ---------------------------------------------------------------------------
// Scanning
// ---------------------------------------------------------------------------
/// `\b(\d{2})\.(\d{1,2})\.(\d{1,2})\b`
pub open spec fn calver_regex() -> Seq<char> {
    "\\b(\\d{2})\\.(\\d{1,2})\\.(\\d{1,2})\\b"@
}

fn calver_regex_exec() -> (p: &'static str)
    ensures
        p@ == calver_regex(),
{
    "\\b(\\d{2})\\.(\\d{1,2})\\.(\\d{1,2})\\b"
}

/// Text of capture group `i + 1` (empty when absent).
pub open spec fn group_text(groups: Seq<Option<Seq<char>>>, i: int) -> Seq<char> {
    if 0 <= i < groups.len() {
        match groups[i] {
            Some(t) => t,
            None => Seq::empty(),
        }
    } else {
        Seq::empty()
    }
}

/// The parsed component, 0 when it does not parse.
pub open spec fn component(groups: Seq<Option<Seq<char>>>, i: int) -> u32 {
    match parse_u32(group_text(groups, i)) {
        Some(v) => v,
        None => 0,
    }
}

pub open spec fn calver_context(matched: Seq<char>, y: u32, m: u32, d: u32) -> Seq<char> {
    matched + " (year="@ + decimal(y as nat) + ", month="@ + decimal(m as nat) + ", day="@ + decimal(d as nat)
        + ")"@
}

pub open spec fn out_of_range(y: u32, m: u32, d: u32) -> bool {
    y < 25 || y > 30 || m > 12 || d > 31
}

pub open spec fn placeholder(m: u32, d: u32) -> bool {
    (m == 1 && d == 1) || m == 0 || d == 0
}

pub open spec fn calver_obs(file: Seq<char>, idx: int, construct: Seq<char>, context: Seq<char>, message: Seq<char>) -> ObservationView {
    ObservationView {
        file_path: file,
        start_byte: 0,
        end_byte: 0,
        line: (idx + 1) as usize,
        column: 1,
        kind: "calver_scan"@,
        construct,
        context,
        message,
    }
}

/// The observations for one CalVer-shaped match.
pub open spec fn capture_obs(file: Seq<char>, idx: int, c: (Seq<char>, Seq<Option<Seq<char>>>)) -> Seq<ObservationView> {
    let y = component(c.1, 0);
    let m = component(c.1, 1);
    let d = component(c.1, 2);
    let ctx = calver_context(c.0, y, m, d);
    (if out_of_range(y, m, d) {
        seq![calver_obs(file, idx, "calver_out_of_range"@, ctx,
            "CalVer component out of valid range in '"@ + c.0 + "': year="@ + decimal(y as nat) + ", month="@
                + decimal(m as nat) + ", day="@ + decimal(d as nat))]
    } else {
        Seq::empty()
    }) + (if placeholder(m, d) {
        seq![calver_obs(file, idx, "calver_placeholder"@, ctx,
            "Static CalVer placeholder in '"@ + c.0 + "': Jan-1 default or zero component"@)]
    } else {
        Seq::empty()
    })
}

pub open spec fn captures_upto(file: Seq<char>, idx: int, cs: Seq<(Seq<char>, Seq<Option<Seq<char>>>)>, k: int) -> Seq<ObservationView>
    decreases k,
{
    if k <= 0 {
        Seq::empty()
    } else {
        captures_upto(file, idx, cs, k - 1) + capture_obs(file, idx, cs[k - 1])
    }
}

pub open spec fn calver_upto(file: Seq<char>, lines: Seq<Seq<char>>, n: int) -> Seq<ObservationView>
    decreases n,
{
    if n <= 0 {
        Seq::empty()
    } else {
        let cs = regex_captures_all(calver_regex(), lines[n - 1]);
        calver_upto(file, lines, n - 1) + captures_upto(file, n - 1, cs, cs.len() as int)
    }
}

/// Everything `scan_for_calver_violations` reports.
pub open spec fn calver_scan(file: Seq<char>, content: Seq<char>) -> Seq<ObservationView> {
    let lines = lines_of(content);
    calver_upto(file, lines, lines.len() as int)
}

/// CalVer classification of one `YY.M.D` match: it is reported out of range
/// exactly when YY is outside 25..=30, M above 12 or D above 31, and as a
/// placeholder exactly when it is Jan-1 or has a zero month or day (out of
/// range first); so it yields nothing exactly when 25 <= YY <= 30,
/// 1 <= M <= 12, 1 <= D <= 31 and (M, D) is not (1, 1).
pub proof fn lemma_calver_classification(file: Seq<char>, idx: int, c: (Seq<char>, Seq<Option<Seq<char>>>))
    ensures
        ({
            let y = component(c.1, 0);
            let m = component(c.1, 1);
            let d = component(c.1, 2);
            let obs = capture_obs(file, idx, c);
            &&& obs.len() == (if out_of_range(y, m, d) { 1int } else { 0int }) + (if placeholder(m, d) { 1int } else { 0int })
            &&& out_of_range(y, m, d) ==> obs[0].construct == "calver_out_of_range"@
            &&& placeholder(m, d) ==> obs[obs.len() - 1].construct == "calver_placeholder"@
            &&& forall|k: int| 0 <= k < obs.len() ==> (#[trigger] obs[k]).kind == "calver_scan"@ && obs[k].file_path == file
            &&& (obs.len() == 0 <==> (25 <= y <= 30 && 1 <= m <= 12 && 1 <= d <= 31 && !(m == 1 && d == 1)))
        }),
{
}

/// The CalVer-shaped matches of line `idx`.
pub open spec fn line_captures(lines: Seq<Seq<char>>, idx: int) -> Seq<(Seq<char>, Seq<Option<Seq<char>>>)> {
    regex_captures_all(calver_regex(), lines[idx])
}

/// Match `c` classifies as `construct`: out of range, or a placeholder.
pub open spec fn capture_yields(c: (Seq<char>, Seq<Option<Seq<char>>>), construct: Seq<char>) -> bool {
    let y = component(c.1, 0);
    let m = component(c.1, 1);
    let d = component(c.1, 2);
    (construct == "calver_out_of_range"@ && out_of_range(y, m, d)) || (construct == "calver_placeholder"@ && placeholder(m, d))
}

/// The context an observation of match `c` carries.
pub open spec fn capture_context(c: (Seq<char>, Seq<Option<Seq<char>>>)) -> Seq<char> {
    calver_context(c.0, component(c.1, 0), component(c.1, 1), component(c.1, 2))
}

/// Observation `o` reports match `c` on line `idx`.
pub open spec fn reports_capture(o: ObservationView, file: Seq<char>, idx: int, c: (Seq<char>, Seq<Option<Seq<char>>>)) -> bool {
    &&& o.line == idx + 1 && o.file_path == file && o.kind == "calver_scan"@
    &&& capture_yields(c, o.construct) && o.context == capture_context(c)
}

/// Observation `o` reports a classifying match on one of the first `n` lines.
pub open spec fn from_line_match(file: Seq<char>, lines: Seq<Seq<char>>, o: ObservationView, n: int) -> bool {
    exists|idx: int, j: int|
        0 <= idx < n && 0 <= j < line_captures(lines, idx).len() && reports_capture(o, file, idx, #[trigger] line_captures(lines, idx)[j])
}

proof fn lemma_capture_obs(file: Seq<char>, idx: int, c: (Seq<char>, Seq<Option<Seq<char>>>))
    requires
        0 <= idx < usize::MAX,
    ensures
        forall|t: int| 0 <= t < capture_obs(file, idx, c).len() ==> reports_capture(#[trigger] capture_obs(file, idx, c)[t], file, idx, c),
        forall|cons: Seq<char>| #[trigger] capture_yields(c, cons) ==> exists|t: int|
            0 <= t < capture_obs(file, idx, c).len() && (#[trigger] capture_obs(file, idx, c)[t]).construct == cons
                && capture_obs(file, idx, c)[t].line == idx + 1 && capture_obs(file, idx, c)[t].context == capture_context(c),
{
    let cur = capture_obs(file, idx, c);
    assert forall|cons: Seq<char>| #[trigger] capture_yields(c, cons) implies exists|t: int|
        0 <= t < cur.len() && (#[trigger] cur[t]).construct == cons && cur[t].line == idx + 1 && cur[t].context == capture_context(c) by {
        if cons == "calver_out_of_range"@ && out_of_range(component(c.1, 0), component(c.1, 1), component(c.1, 2)) {
            assert(cur[0].construct == cons);
        } else {
            assert(cur[cur.len() - 1].construct == cons);
        }
    }
}

proof fn lemma_captures_sound(file: Seq<char>, idx: int, cs: Seq<(Seq<char>, Seq<Option<Seq<char>>>)>, k: int)
    requires
        0 <= idx < usize::MAX,
        0 <= k <= cs.len(),
    ensures
        forall|t: int| 0 <= t < captures_upto(file, idx, cs, k).len() ==> exists|j: int|
            0 <= j < k && reports_capture(#[trigger] captures_upto(file, idx, cs, k)[t], file, idx, #[trigger] cs[j]),
    decreases k,
{
    if k > 0 {
        lemma_captures_sound(file, idx, cs, k - 1);
        lemma_capture_obs(file, idx, cs[k - 1]);
        let prev = captures_upto(file, idx, cs, k - 1);
        let cur = capture_obs(file, idx, cs[k - 1]);
        let all = captures_upto(file, idx, cs, k);
        assert(all == prev + cur);
        assert forall|t: int| 0 <= t < all.len() implies exists|j: int|
            0 <= j < k && reports_capture(#[trigger] all[t], file, idx, #[trigger] cs[j]) by {
            if t < prev.len() {
                assert(all[t] == prev[t]);
                let j = choose|j: int| 0 <= j < k - 1 && reports_capture(#[trigger] prev[t], file, idx, #[trigger] cs[j]);
                assert(reports_capture(all[t], file, idx, cs[j]));
            } else {
                assert(all[t] == cur[t - prev.len()]);
                assert(reports_capture(all[t], file, idx, cs[k - 1]));
            }
        }
    }
}

proof fn lemma_captures_complete(file: Seq<char>, idx: int, cs: Seq<(Seq<char>, Seq<Option<Seq<char>>>)>, k: int)
    requires
        0 <= idx < usize::MAX,
        0 <= k <= cs.len(),
    ensures
        forall|j: int, cons: Seq<char>| 0 <= j < k && #[trigger] capture_yields(cs[j], cons) ==> exists|t: int|
            0 <= t < captures_upto(file, idx, cs, k).len() && (#[trigger] captures_upto(file, idx, cs, k)[t]).construct == cons
                && captures_upto(file, idx, cs, k)[t].line == idx + 1 && captures_upto(file, idx, cs, k)[t].context
                == capture_context(cs[j]),
    decreases k,
{
    if k > 0 {
        lemma_captures_complete(file, idx, cs, k - 1);
        lemma_capture_obs(file, idx, cs[k - 1]);
        let prev = captures_upto(file, idx, cs, k - 1);
        let cur = capture_obs(file, idx, cs[k - 1]);
        let all = captures_upto(file, idx, cs, k);
        assert(all == prev + cur);
        assert forall|j: int, cons: Seq<char>| 0 <= j < k && #[trigger] capture_yields(cs[j], cons) implies exists|t: int|
            0 <= t < all.len() && (#[trigger] all[t]).construct == cons && all[t].line == idx + 1 && all[t].context
                == capture_context(cs[j]) by {
            if j < k - 1 {
                let t = choose|t: int|
                    0 <= t < prev.len() && (#[trigger] prev[t]).construct == cons && prev[t].line == idx + 1
                        && prev[t].context == capture_context(cs[j]);
                assert(all[t] == prev[t]);
            } else {
                let t = choose|t: int|
                    0 <= t < cur.len() && (#[trigger] cur[t]).construct == cons && cur[t].line == idx + 1 && cur[t].context
                        == capture_context(cs[j]);
                assert(all[prev.len() + t] == cur[t]);
            }
        }
    }
}

proof fn lemma_calver_upto(file: Seq<char>, lines: Seq<Seq<char>>, n: int)
    requires
        0 <= n <= lines.len(),
        lines.len() <= usize::MAX,
    ensures
        forall|t: int| 0 <= t < calver_upto(file, lines, n).len() ==> #[trigger] from_line_match(
            file,
            lines,
            calver_upto(file, lines, n)[t],
            n,
        ),
        forall|idx: int, j: int, cons: Seq<char>|
            0 <= idx < n && 0 <= j < line_captures(lines, idx).len() && #[trigger] capture_yields(line_captures(lines, idx)[j], cons)
                ==> exists|t: int|
                0 <= t < calver_upto(file, lines, n).len() && (#[trigger] calver_upto(file, lines, n)[t]).construct == cons
                    && calver_upto(file, lines, n)[t].line == idx + 1 && calver_upto(file, lines, n)[t].context
                    == capture_context(line_captures(lines, idx)[j]),
    decreases n,
{
    if n > 0 {
        lemma_calver_upto(file, lines, n - 1);
        let cs = line_captures(lines, n - 1);
        lemma_captures_sound(file, n - 1, cs, cs.len() as int);
        lemma_captures_complete(file, n - 1, cs, cs.len() as int);
        let prev = calver_upto(file, lines, n - 1);
        let cur = captures_upto(file, n - 1, cs, cs.len() as int);
        let all = calver_upto(file, lines, n);
        assert(all == prev + cur);
        assert forall|t: int| 0 <= t < all.len() implies #[trigger] from_line_match(file, lines, all[t], n) by {
            if t < prev.len() {
                assert(all[t] == prev[t]);
                assert(from_line_match(file, lines, prev[t], n - 1));
                let (idx, j) = choose|idx: int, j: int|
                    0 <= idx < n - 1 && 0 <= j < line_captures(lines, idx).len() && reports_capture(
                        prev[t],
                        file,
                        idx,
                        #[trigger] line_captures(lines, idx)[j],
                    );
                assert(reports_capture(all[t], file, idx, line_captures(lines, idx)[j]));
            } else {
                assert(all[t] == cur[t - prev.len()]);
                let j = choose|j: int| 0 <= j < cs.len() && reports_capture(#[trigger] cur[t - prev.len()], file, n - 1, #[trigger] cs[j]);
                assert(reports_capture(all[t], file, n - 1, line_captures(lines, n - 1)[j]));
            }
        }
        assert forall|idx: int, j: int, cons: Seq<char>|
            0 <= idx < n && 0 <= j < line_captures(lines, idx).len() && #[trigger] capture_yields(line_captures(lines, idx)[j], cons)
            implies exists|t: int|
            0 <= t < all.len() && (#[trigger] all[t]).construct == cons && all[t].line == idx + 1 && all[t].context
                == capture_context(line_captures(lines, idx)[j]) by {
            if idx < n - 1 {
                let t = choose|t: int|
                    0 <= t < prev.len() && (#[trigger] prev[t]).construct == cons && prev[t].line == idx + 1
                        && prev[t].context == capture_context(line_captures(lines, idx)[j]);
                assert(all[t] == prev[t]);
            } else {
                assert(capture_yields(cs[j], cons));
                let t = choose|t: int|
                    0 <= t < cur.len() && (#[trigger] cur[t]).construct == cons && cur[t].line == idx + 1 && cur[t].context
                        == capture_context(cs[j]);
                assert(all[prev.len() + t] == cur[t]);
            }
        }
    }
}

/// Every observation reports a classifying match on its own line.
pub open spec fn calver_sound(file: Seq<char>, lines: Seq<Seq<char>>, obs: Seq<ObservationView>) -> bool {
    forall|t: int| 0 <= t < obs.len() ==> #[trigger] from_line_match(file, lines, obs[t], lines.len() as int)
}

/// Every classifying match of every line is reported, with its context.
pub open spec fn calver_complete(lines: Seq<Seq<char>>, obs: Seq<ObservationView>) -> bool {
    forall|idx: int, j: int, cons: Seq<char>|
        0 <= idx < lines.len() && 0 <= j < line_captures(lines, idx).len() && #[trigger] capture_yields(
            line_captures(lines, idx)[j],
            cons,
        ) ==> exists|t: int|
            0 <= t < obs.len() && (#[trigger] obs[t]).construct == cons && obs[t].line == idx + 1 && obs[t].context
                == capture_context(line_captures(lines, idx)[j])
}

/// The CalVer scan as a whole: every observation reports a `YY.M.D` match on
/// its own line that is out of range (YY outside 25..=30, M above 12 or D
/// above 31) or a placeholder (Jan-1, or a zero month or day), with that
/// classification as construct; and every such match of every line is
/// reported, with its components as context.
pub proof fn lemma_calver_scan_law(file: Seq<char>, content: Seq<char>)
    requires
        content.len() <= usize::MAX,
    ensures
        calver_sound(file, lines_of(content), calver_scan(file, content)),
        calver_complete(lines_of(content), calver_scan(file, content)),
{
    let lines = lines_of(content);
    crate::text::lemma_lines_len(content);
    lemma_calver_upto(file, lines, lines.len() as int);
    let all = calver_upto(file, lines, lines.len() as int);
    assert(calver_sound(file, lines, all));
    assert(calver_complete(lines, all));
    assert(calver_scan(file, content) == all);
}

fn component_exec(c: &RegexCaptures, i: usize) -> (v: u32)
    ensures
        v == component(c@.1, i as int),
{
    let text: Vec<char> = if i < c.groups.len() {
        assert(c@.1[i as int] == crate::matching::opt_view(c.groups@[i as int]));
        match &c.groups[i] {
            Some(t) => chars_of(t.as_str()),
            None => Vec::new(),
        }
    } else {
        Vec::new()
    };
    assert(text@ =~= group_text(c@.1, i as int));
    match parse_u32_exec(text.as_slice()) {
        Some(v) => v,
        None => 0,
    }
}

fn push_capture_obs(filepath: &str, line_num: usize, c: &RegexCaptures, obs: &mut Vec<Observation>)
    requires
        line_num >= 1,
    ensures
        obs_views(final(obs)@) == obs_views(old(obs)@) + capture_obs(filepath@, line_num - 1, c@),
{
    let ghost base = obs_views(obs@);
    let y = component_exec(c, 0);
    let m = component_exec(c, 1);
    let d = component_exec(c, 2);
    let mut ctx = c.whole.clone();
    ctx.append(" (year=");
    push_decimal(&mut ctx, y as usize);
    ctx.append(", month=");
    push_decimal(&mut ctx, m as usize);
    ctx.append(", day=");
    push_decimal(&mut ctx, d as usize);
    ctx.append(")");
    let ghost first: Seq<ObservationView> = Seq::empty();
    if y < 25 || y > 30 || m > 12 || d > 31 {
        let mut message = owned("CalVer component out of valid range in '");
        message.append(c.whole.as_str());
        message.append("': year=");
        push_decimal(&mut message, y as usize);
        message.append(", month=");
        push_decimal(&mut message, m as usize);
        message.append(", day=");
        push_decimal(&mut message, d as usize);
        let o = Observation {
            file_path: owned(filepath),
            start_byte: 0,
            end_byte: 0,
            line: line_num,
            column: 1,
            kind: owned("calver_scan"),
            construct: owned("calver_out_of_range"),
            context: ctx.clone(),
            message,
        };
        let ghost before = obs@;
        obs.push(o);
        proof {
            lemma_obs_views_push(before, o);
        }
    }
    let ghost mid = obs_views(obs@);
    if (m == 1 && d == 1) || m == 0 || d == 0 {
        let mut message = owned("Static CalVer placeholder in '");
        message.append(c.whole.as_str());
        message.append("': Jan-1 default or zero component");
        let o = Observation {
            file_path: owned(filepath),
            start_byte: 0,
            end_byte: 0,
            line: line_num,
            column: 1,
            kind: owned("calver_scan"),
            construct: owned("calver_placeholder"),
            context: ctx,
            message,
        };
        let ghost before = obs@;
        obs.push(o);
        proof {
            lemma_obs_views_push(before, o);
        }
    }
    assert(obs_views(obs@) =~= base + capture_obs(filepath@, line_num - 1, c@));
}

/// Scans every line for CalVer-shaped `YY.M.D` strings; each match with an
/// out-of-range component yields `calver_out_of_range`, and each Jan-1 or
/// zero-component match yields `calver_placeholder`.
pub fn scan_for_calver_violations(filepath: &str, content: &str) -> (obs: Vec<Observation>)
    ensures
        obs_views(obs@) == calver_scan(filepath@, content@),
{
    let mut obs: Vec<Observation> = Vec::new();
    let c = chars_of(content);
    let lines = lines_chars(c.as_slice());
    let ghost ls = lines_of(content@);
    let mut i: usize = 0;
    assert(obs_views(obs@) =~= calver_upto(filepath@, ls, 0));
    while i < lines.len()
        invariant
            i <= lines@.len(),
            lines@.len() <= content@.len(),
            lines@.map_values(|l: Vec<char>| l@) == ls,
            obs_views(obs@) == calver_upto(filepath@, ls, i as int),
        decreases lines@.len() - i,
    {
        assert(ls[i as int] == lines@[i as int]@);
        let line_s = string_of(lines[i].as_slice());
        let cs = captures_all(calver_regex_exec(), line_s.as_str());
        let ghost csv = captures_views(cs@);
        let ghost base = obs_views(obs@);
        let line_num = i + 1;
        let mut k: usize = 0;
        assert(base =~= base + captures_upto(filepath@, i as int, csv, 0));
        while k < cs.len()
            invariant
                k <= cs@.len(),
                i < lines@.len(),
                line_num == i + 1,
                csv == captures_views(cs@),
                obs_views(obs@) == base + captures_upto(filepath@, i as int, csv, k as int),
            decreases cs@.len() - k,
        {
            assert(csv[k as int] == cs@[k as int]@);
            push_capture_obs(filepath, line_num, &cs[k], &mut obs);
            k = k + 1;
            assert(obs_views(obs@) =~= base + captures_upto(filepath@, i as int, csv, k as int));
        }
        i = i + 1;
    }
    obs
}

// ---------------------------------------------------------------------------
// Evaluation
// ---------------------------------------------------------------------------
pub open spec fn version_001(o: ObservationView) -> DiagnosticView {
    diag(
        "ANTI-LLM-VERSION-001"@,
        "version"@,
        o,
        "Default template version '1.0.0' or 'v1.0.0' found in project configuration."@,
        "Template default => release law"@,
        true,
        "Specify CalVer version (e.g. v26.6.5) instead of standard v1.0.0 template version."@,
        "Check project Cargo.toml metadata."@,
    )
}

pub open spec fn version_002(o: ObservationView) -> DiagnosticView {
    diag(
        "ANTI-LLM-VERSION-002"@,
        "version"@,
        o,
        "Path dependency declares explicit SemVer version; omit version field or use CalVer"@,
        "Path dep version pin => calver law"@,
        false,
        "Remove the version field from the path dependency or replace with a CalVer string (YY.M.D)."@,
        "Check path dependency declarations in Cargo.toml."@,
    )
}

pub open spec fn version_003(o: ObservationView) -> DiagnosticView {
    diag(
        "ANTI-LLM-VERSION-003"@,
        "version"@,
        o,
        "Workspace root declares SemVer version; workspace must use CalVer (YY.M.D)"@,
        "Workspace semver => calver law"@,
        false,
        "Replace workspace version with CalVer (e.g. 26.6.12)."@,
        "Check [workspace.package] version in root Cargo.toml."@,
    )
}

pub open spec fn version_004(o: ObservationView) -> DiagnosticView {
    diag(
        "ANTI-LLM-VERSION-004"@,
        "version"@,
        o,
        "CalVer component out of valid range: "@ + o.context,
        "CalVerShaped => ValidCalVerRange"@,
        true,
        "Use a valid CalVer string (YY.M.D where 25<=YY<=30, 1<=M<=12, 1<=D<=31)."@,
        "Verify the version string reflects an actual calendar date in range."@,
    )
}

pub open spec fn version_005(o: ObservationView) -> DiagnosticView {
    diag(
        "ANTI-LLM-VERSION-005"@,
        "version"@,
        o,
        "Static CalVer placeholder detected: "@ + o.context,
        "CalVerPlaceholder => MeasuredCalVer"@,
        true,
        "Replace the placeholder CalVer with the actual release date (e.g. 26.6.30)."@,
        "Confirm the version encodes a real sprint/release date, not a default."@,
    )
}

pub open spec fn when(c: bool, d: DiagnosticView) -> Seq<DiagnosticView> {
    if c {
        seq![d]
    } else {
        Seq::empty()
    }
}

pub open spec fn vpart1(o: ObservationView, s: bool) -> Seq<DiagnosticView> {
    when(
        (o.construct == "version = \"1.0.0\""@ || contains(o.context, "v1.0.0"@) || contains(o.context, "1.0.0"@))
            && !s,
        version_001(o),
    )
}

pub open spec fn vpart2(o: ObservationView, s: bool) -> Seq<DiagnosticView> {
    when(o.construct == "path_dep_with_semver_version"@ && !s, version_002(o))
}

pub open spec fn vpart3(o: ObservationView, s: bool) -> Seq<DiagnosticView> {
    when(o.construct == "workspace_semver_version"@ && !s, version_003(o))
}

pub open spec fn vpart4(o: ObservationView, s: bool) -> Seq<DiagnosticView> {
    when(o.construct == "calver_out_of_range"@ && !s, version_004(o))
}

pub open spec fn vpart5(o: ObservationView, s: bool) -> Seq<DiagnosticView> {
    when(o.construct == "calver_placeholder"@ && !s, version_005(o))
}

/// The version diagnostics for one observation, in rule order.
pub open spec fn version_eval_one(o: ObservationView, config: AntiLlmConfig) -> Seq<DiagnosticView> {
    let s = config.allows_suppression(o.file_path);
    vpart1(o, s) + vpart2(o, s) + vpart3(o, s) + vpart4(o, s) + vpart5(o, s)
}

pub open spec fn version_eval_upto(obs: Seq<ObservationView>, config: AntiLlmConfig, n: int) -> Seq<DiagnosticView>
    decreases n,
{
    if n <= 0 {
        Seq::empty()
    } else {
        version_eval_upto(obs, config, n - 1) + version_eval_one(obs[n - 1], config)
    }
}

fn push_when(diags: &mut Vec<AntiLlmDiagnostic>, c: bool, d: AntiLlmDiagnostic)
    ensures
        diag_views(final(diags)@) == diag_views(old(diags)@) + when(c, d@),
{
    let ghost before = diags@;
    if c {
        diags.push(d);
        proof {
            lemma_diag_views_push(before, d);
        }
    } else {
        assert(diag_views(diags@) =~= diag_views(before) + when(c, d@));
    }
}

#[verifier::rlimit(40)]
fn version_for(o: &Observation, config: &AntiLlmConfig, diags: &mut Vec<AntiLlmDiagnostic>)
    ensures
        diag_views(final(diags)@) == diag_views(old(diags)@) + version_eval_one(o@, *config),
{
    let ghost base = diag_views(diags@);
    let s = config.is_suppression_allowed(o.file_path.as_str());
    let c = o.construct.as_str();
    let ctx = o.context.as_str();
    let ghost g0 = diag_views(diags@);
    push_when(
        diags,
        (eq_text(c, "version = \"1.0.0\"") || contains_text(ctx, "v1.0.0") || contains_text(ctx, "1.0.0")) && !s,
        make_diag(
            "ANTI-LLM-VERSION-001",
            "version",
            o,
            owned("Default template version '1.0.0' or 'v1.0.0' found in project configuration."),
            owned("Template default => release law"),
            true,
            "Specify CalVer version (e.g. v26.6.5) instead of standard v1.0.0 template version.",
            "Check project Cargo.toml metadata.",
        ),
    );
    let ghost g1 = diag_views(diags@);
    push_when(
        diags,
        eq_text(c, "path_dep_with_semver_version") && !s,
        make_diag(
            "ANTI-LLM-VERSION-002",
            "version",
            o,
            owned("Path dependency declares explicit SemVer version; omit version field or use CalVer"),
            owned("Path dep version pin => calver law"),
            false,
            "Remove the version field from the path dependency or replace with a CalVer string (YY.M.D).",
            "Check path dependency declarations in Cargo.toml.",
        ),
    );
    let ghost g2 = diag_views(diags@);
    push_when(
        diags,
        eq_text(c, "workspace_semver_version") && !s,
        make_diag(
            "ANTI-LLM-VERSION-003",
            "version",
            o,
            owned("Workspace root declares SemVer version; workspace must use CalVer (YY.M.D)"),
            owned("Workspace semver => calver law"),
            false,
            "Replace workspace version with CalVer (e.g. 26.6.12).",
            "Check [workspace.package] version in root Cargo.toml.",
        ),
    );
    let ghost g3 = diag_views(diags@);
    let mut m4 = owned("CalVer component out of valid range: ");
    m4.append(ctx);
    push_when(
        diags,
        eq_text(c, "calver_out_of_range") && !s,
        make_diag(
            "ANTI-LLM-VERSION-004",
            "version",
            o,
            m4,
            owned("CalVerShaped => ValidCalVerRange"),
            true,
            "Use a valid CalVer string (YY.M.D where 25<=YY<=30, 1<=M<=12, 1<=D<=31).",
            "Verify the version string reflects an actual calendar date in range.",
        ),
    );
    let ghost g4 = diag_views(diags@);
    let mut m5 = owned("Static CalVer placeholder detected: ");
    m5.append(ctx);
    push_when(
        diags,
        eq_text(c, "calver_placeholder") && !s,
        make_diag(
            "ANTI-LLM-VERSION-005",
            "version",
            o,
            m5,
            owned("CalVerPlaceholder => MeasuredCalVer"),
            true,
            "Replace the placeholder CalVer with the actual release date (e.g. 26.6.30).",
            "Confirm the version encodes a real sprint/release date, not a default.",
        ),
    );
    assert(diag_views(diags@) =~= base + version_eval_one(o@, *config)) by {
        let sp = config.allows_suppression(o@.file_path);
        assert(g1 == g0 + vpart1(o@, sp));
        assert(g2 == g1 + vpart2(o@, sp));
        assert(g3 == g2 + vpart3(o@, sp));
        assert(g4 == g3 + vpart4(o@, sp));
        assert(diag_views(diags@) == g4 + vpart5(o@, sp));
    }
}

/// Version-law diagnostics for every observation, in observation and rule order.
pub fn evaluate(obs: &[Observation], config: &AntiLlmConfig) -> (diags: Vec<AntiLlmDiagnostic>)
    ensures
        diag_views(diags@) == version_eval_upto(obs_views(obs@), *config, obs@.len() as int),
{
    let mut diags: Vec<AntiLlmDiagnostic> = Vec::new();
    let ghost ov = obs_views(obs@);
    let mut i: usize = 0;
    assert(diag_views(diags@) =~= version_eval_upto(ov, *config, 0));
    while i < obs.len()
        invariant
            i <= obs@.len(),
            ov == obs_views(obs@),
            diag_views(diags@) == version_eval_upto(ov, *config, i as int),
        decreases obs@.len() - i,
    {
        assert(ov[i as int] == obs@[i as int]@);
        version_for(&obs[i], config, &mut diags);
        i = i + 1;
    }
    diags
}

/// Findings in a path that the configuration suppresses are never diagnosed.
pub proof fn lemma_version_respects_suppression(obs: Seq<ObservationView>, config: AntiLlmConfig, n: int)
    ensures
        forall|k: int|
            0 <= k < version_eval_upto(obs, config, n).len() ==> !config.allows_suppression(
                (#[trigger] version_eval_upto(obs, config, n)[k]).file_path,
            ),
    decreases n,
{
    if n > 0 {
        lemma_version_respects_suppression(obs, config, n - 1);
        let o = obs[n - 1];
        let s = config.allows_suppression(o.file_path);
        let prev = version_eval_upto(obs, config, n - 1);
        let cur = version_eval_one(o, config);
        assert(s ==> cur.len() == 0);
        assert forall|m: int| 0 <= m < cur.len() implies (#[trigger] cur[m]).file_path == o.file_path by {
            let a = vpart1(o, s);
            let b = vpart2(o, s);
            let c = vpart3(o, s);
            let d = vpart4(o, s);
            let e = vpart5(o, s);
            assert(cur == a + b + c + d + e);
        }
        let all = version_eval_upto(obs, config, n);
        assert forall|k: int| 0 <= k < all.len() implies !config.allows_suppression((#[trigger] all[k]).file_path) by {
            if k < prev.len() {
                assert(all[k] == prev[k]);
            } else {
                assert(all[k] == cur[k - prev.len()]);
            }
        }
    }
}

/// The version rules for one observation: a suppressed path draws nothing;
/// otherwise a `version = "1.0.0"` construct or a `1.0.0` in the context
/// draws a blocking VERSION-001, a path dependency with a SemVer version a
/// non-blocking VERSION-002, a workspace SemVer version a non-blocking
/// VERSION-003, an out-of-range CalVer a blocking VERSION-004, and a CalVer
/// placeholder a blocking VERSION-005, and each code appears exactly then.
pub proof fn lemma_version_rules(o: ObservationView, config: AntiLlmConfig)
    ensures
        config.allows_suppression(o.file_path) ==> version_eval_one(o, config).len() == 0,
        !config.allows_suppression(o.file_path) ==> {
            let ds = version_eval_one(o, config);
            &&& diag_coded(ds, "ANTI-LLM-VERSION-001"@) <==> (o.construct == "version = \"1.0.0\""@ || contains(
                o.context,
                "v1.0.0"@,
            ) || contains(o.context, "1.0.0"@))
            &&& diag_coded(ds, "ANTI-LLM-VERSION-002"@) <==> o.construct == "path_dep_with_semver_version"@
            &&& diag_coded(ds, "ANTI-LLM-VERSION-003"@) <==> o.construct == "workspace_semver_version"@
            &&& diag_coded(ds, "ANTI-LLM-VERSION-004"@) <==> o.construct == "calver_out_of_range"@
            &&& diag_coded(ds, "ANTI-LLM-VERSION-005"@) <==> o.construct == "calver_placeholder"@
            &&& forall|k: int| 0 <= k < ds.len() ==> ((#[trigger] ds[k]).blocking <==> (ds[k].code == "ANTI-LLM-VERSION-001"@
                || ds[k].code == "ANTI-LLM-VERSION-004"@ || ds[k].code == "ANTI-LLM-VERSION-005"@))
        },
{
    let s = config.allows_suppression(o.file_path);
    if !s {
        reveal_strlit("ANTI-LLM-VERSION-001");
        reveal_strlit("ANTI-LLM-VERSION-002");
        reveal_strlit("ANTI-LLM-VERSION-003");
        reveal_strlit("ANTI-LLM-VERSION-004");
        reveal_strlit("ANTI-LLM-VERSION-005");
        let c1 = "ANTI-LLM-VERSION-001"@;
        let c2 = "ANTI-LLM-VERSION-002"@;
        let c3 = "ANTI-LLM-VERSION-003"@;
        let c4 = "ANTI-LLM-VERSION-004"@;
        let c5 = "ANTI-LLM-VERSION-005"@;
        assert(c1[19] == '1' && c2[19] == '2' && c3[19] == '3' && c4[19] == '4' && c5[19] == '5');
        assert(c1 != c2 && c1 != c3 && c1 != c4 && c1 != c5 && c2 != c3 && c2 != c4 && c2 != c5 && c3 != c4 && c3 != c5
            && c4 != c5);
        let p1 = vpart1(o, s);
        let p2 = vpart2(o, s);
        let p3 = vpart3(o, s);
        let p4 = vpart4(o, s);
        let p5 = vpart5(o, s);
        let ds = version_eval_one(o, config);
        assert(ds == p1 + p2 + p3 + p4 + p5);
        assert forall|k: int| 0 <= k < ds.len() implies {
            ||| (ds[k] == version_001(o) && p1.len() == 1)
            ||| (ds[k] == version_002(o) && p2.len() == 1)
            ||| (ds[k] == version_003(o) && p3.len() == 1)
            ||| (ds[k] == version_004(o) && p4.len() == 1)
            ||| (ds[k] == version_005(o) && p5.len() == 1)
        } by {
            let a = p1.len();
            let b = a + p2.len();
            let c = b + p3.len();
            let d = c + p4.len();
            if k < a {
                assert(ds[k] == p1[k]);
            } else if k < b {
                assert(ds[k] == p2[k - a]);
            } else if k < c {
                assert(ds[k] == p3[k - b]);
            } else if k < d {
                assert(ds[k] == p4[k - c]);
            } else {
                assert(ds[k] == p5[k - d]);
            }
        }
        if p1.len() == 1 {
            assert(ds[0] == version_001(o));
        }
        if p2.len() == 1 {
            assert(ds[p1.len() as int] == version_002(o));
        }
        if p3.len() == 1 {
            assert(ds[(p1.len() + p2.len()) as int] == version_003(o));
        }
        if p4.len() == 1 {
            assert(ds[(p1.len() + p2.len() + p3.len()) as int] == version_004(o));
        }
        if p5.len() == 1 {
            assert(ds[(p1.len() + p2.len() + p3.len() + p4.len()) as int] == version_005(o));
        }
    }
}

} // verus!
