//! Source-tree WIP evidence: finding identities, the line scanner for files
//! without an admitted grammar, declared-status lines, missing path
//! dependencies, and the ordering and de-duplication of findings.
use vstd::prelude::*;

use crate::matching::{captures_all, captures_views, regex_captures_all};
use crate::text::{
    ascii_upper, ascii_upper_chars, char_from_ascii, chars_of, contains, contains_chars,
    contains_text, decimal, eq_text, lines_chars, lines_of, owned, push_decimal, starts_with,
    starts_with_chars, string_of, take_at_most_chars, trim, trim_chars,
};
use crate::wip::model::{finding_views, FindingView, SourceFinding, Standing, WipKind};
use crate::wip::order::{lemma_lex_irrefl, lemma_lex_total, lemma_lex_trans, lex_lt, str_lt};

verus! {

/// The BLAKE3 digest of the UTF-8 encoding of a text.
pub uninterp spec fn blake3_digest(input: Seq<char>) -> Seq<u8>;

/// `blake3::hash` of the UTF-8 bytes of `input`, as its 32 bytes. The digest
/// is named, not stated: only its length follows from the array type.
#[verifier::external_body]
fn blake3_bytes(input: &str) -> (r: [u8; 32])
    ensures
        r@ == blake3_digest(input@),
{
    *blake3::hash(input.as_bytes()).as_bytes()
}

/// Lower-case hexadecimal digit of a nibble.
pub open spec fn hex_digit(n: int) -> char {
    if n < 10 {
        (48 + n) as char
    } else {
        (87 + n) as char
    }
}

/// Lower-case hexadecimal rendering of bytes, two digits per byte.
pub open spec fn hex_of(bytes: Seq<u8>) -> Seq<char>
    decreases bytes.len(),
{
    if bytes.len() == 0 {
        Seq::empty()
    } else {
        hex_of(bytes.drop_last()) + seq![
            hex_digit(bytes.last() as int / 16),
            hex_digit(bytes.last() as int % 16),
        ]
    }
}

/// `"source:"` and the first 16 hex digits of the BLAKE3 digest of `"{path}:{line}:{marker}"`.
pub open spec fn finding_id_of(path: Seq<char>, line: nat, marker: Seq<char>) -> Seq<char> {
    "source:"@ + hex_of(blake3_digest(path + ":"@ + decimal(line) + ":"@ + marker).take(8))
}

fn hex_char(n: u8) -> (c: char)
    requires
        n < 16,
    ensures
        c == hex_digit(n as int),
{
    if n < 10 {
        char_from_ascii(48 + n)
    } else {
        char_from_ascii(87 + n)
    }
}

/// A lower-case hexadecimal digit.
pub open spec fn is_lower_hex(c: char) -> bool {
    ('0' <= c && c <= '9') || ('a' <= c && c <= 'f')
}

/// Stable identity of a source finding: `source:` and sixteen lower-case
/// hexadecimal digits (the first eight bytes of the digest).
pub fn finding_id(path: &str, line: usize, marker: &str) -> (id: String)
    ensures
        id@ == finding_id_of(path@, line as nat, marker@),
        id@.len() == 23,
        id@.take(7) == "source:"@,
        forall|k: int| 7 <= k < 23 ==> is_lower_hex(#[trigger] id@[k]),
{
    let mut input = owned(path);
    input.append(":");
    push_decimal(&mut input, line);
    input.append(":");
    input.append(marker);
    let digest = blake3_bytes(input.as_str());
    let ghost d = blake3_digest(input@);
    assert(input@ == path@ + ":"@ + decimal(line as nat) + ":"@ + marker@);
    let mut id = owned("source:");
    proof {
        reveal_strlit("source:");
    }
    let mut i: usize = 0;
    while i < 8
        invariant
            i <= 8,
            digest@ == d,
            d.len() == 32,
            id@ == "source:"@ + hex_of(d.take(i as int)),
            id@.len() == 7 + 2 * i,
            id@.take(7) == "source:"@,
            forall|k: int| 7 <= k < id@.len() ==> is_lower_hex(#[trigger] id@[k]),
        decreases 8 - i,
    {
        let b = digest[i];
        let ghost before = id@;
        let hi = hex_char(b / 16);
        let lo = hex_char(b % 16);
        assert(is_lower_hex(hi) && is_lower_hex(lo));
        id.push(hi);
        id.push(lo);
        proof {
            assert(d.take(i + 1).drop_last() =~= d.take(i as int));
            assert(d.take(i + 1).last() == b);
            assert(id@ =~= before.push(hi).push(lo));
            assert(id@.take(7) =~= before.take(7));
        }
        i = i + 1;
        assert(id@ =~= "source:"@ + hex_of(d.take(i as int)));
    }
    id
}

// ---------------------------------------------------------------------------
// Evidence text
// ---------------------------------------------------------------------------
/// A line trimmed and cut to 160 characters, with `…` when something was cut.
pub open spec fn compacted(line: Seq<char>) -> Seq<char> {
    let t = trim(line);
    if t.len() <= 160 {
        t
    } else {
        t.take(160).push('…')
    }
}

pub fn compact_line(line: &[char]) -> (r: String)
    ensures
        r@ == compacted(line@),
{
    let t = trim_chars(line);
    let head = take_at_most_chars(t.as_slice(), 160);
    let mut r = string_of(head.as_slice());
    if t.len() > 160 {
        r.push('…');
    }
    r
}

// ---------------------------------------------------------------------------
// Declared status lines
// ---------------------------------------------------------------------------
/// Marker, kind, standing and label of a finding.
pub type Classified = (&'static str, WipKind, Standing, &'static str);

pub open spec fn classified_view(c: Classified) -> (Seq<char>, WipKind, Standing, Seq<char>) {
    (c.0@, c.1, c.2, c.3@)
}

pub open spec fn opt_classified(o: Option<Classified>) -> Option<(Seq<char>, WipKind, Standing, Seq<char>)> {
    match o {
        Some(c) => Some(classified_view(c)),
        None => None,
    }
}

/// The status a normalized (trimmed, upper-cased) declaration names.
pub open spec fn status_named(n: Seq<char>) -> Option<(Seq<char>, WipKind, Standing, Seq<char>)> {
    if contains(n, "BUILD_BROKEN"@) {
        Some(("BUILD_BROKEN"@, WipKind::Ci, Standing::BuildBroken, "declared broken build"@))
    } else if contains(n, "BLOCKED"@) {
        Some(("BLOCKED"@, WipKind::CrossRepoBlocker, Standing::Blocked, "declared blocker"@))
    } else if contains(n, "PARTIAL_ALIVE"@) {
        Some(("PARTIAL_ALIVE"@, WipKind::Evidence, Standing::PartialAlive, "declared partial standing"@))
    } else if contains(n, "CANDIDATE"@) || contains(n, "OPEN"@) {
        Some(("CANDIDATE_OR_OPEN"@, WipKind::Evidence, Standing::PartialAlive, "declared incomplete evidence state"@))
    } else {
        None
    }
}

pub fn status_named_exec(n: &[char]) -> (r: Option<Classified>)
    ensures
        opt_classified(r) == status_named(n@),
{
    let a = chars_of("BUILD_BROKEN");
    let b = chars_of("BLOCKED");
    let c = chars_of("PARTIAL_ALIVE");
    let d = chars_of("CANDIDATE");
    let e = chars_of("OPEN");
    if contains_chars(n, a.as_slice()) {
        Some(("BUILD_BROKEN", WipKind::Ci, Standing::BuildBroken, "declared broken build"))
    } else if contains_chars(n, b.as_slice()) {
        Some(("BLOCKED", WipKind::CrossRepoBlocker, Standing::Blocked, "declared blocker"))
    } else if contains_chars(n, c.as_slice()) {
        Some(("PARTIAL_ALIVE", WipKind::Evidence, Standing::PartialAlive, "declared partial standing"))
    } else if contains_chars(n, d.as_slice()) || contains_chars(n, e.as_slice()) {
        Some(("CANDIDATE_OR_OPEN", WipKind::Evidence, Standing::PartialAlive, "declared incomplete evidence state"))
    } else {
        None
    }
}

/// A line that declares a status (`Status:`, `Standing =`, a `| Status |` table row, ...).
pub open spec fn declares_status(n: Seq<char>) -> bool {
    starts_with(n, "STATUS:"@) || starts_with(n, "STANDING:"@) || starts_with(n, "STATUS ="@)
        || starts_with(n, "STANDING ="@) || starts_with(n, "| STATUS |"@) || starts_with(n, "| STANDING |"@)
}

/// The finding a line's declared status yields, if any.
pub open spec fn declared_status(line: Seq<char>) -> Option<(Seq<char>, WipKind, Standing, Seq<char>)> {
    let n = ascii_upper(trim(line));
    if declares_status(n) {
        status_named(n)
    } else {
        None
    }
}

fn starts_with_lit(s: &[char], p: &str) -> (b: bool)
    ensures
        b == starts_with(s@, p@),
{
    let pc = chars_of(p);
    starts_with_chars(s, pc.as_slice())
}

pub fn classify_declared_status(line: &[char]) -> (r: Option<Classified>)
    ensures
        opt_classified(r) == declared_status(line@),
{
    let t = trim_chars(line);
    let n = ascii_upper_chars(t.as_slice());
    let n = n.as_slice();
    if starts_with_lit(n, "STATUS:") || starts_with_lit(n, "STANDING:") || starts_with_lit(n, "STATUS =")
        || starts_with_lit(n, "STANDING =") || starts_with_lit(n, "| STATUS |") || starts_with_lit(
        n,
        "| STANDING |",
    ) {
        status_named_exec(n)
    } else {
        None
    }
}

// ---------------------------------------------------------------------------
// Line scanner
// ---------------------------------------------------------------------------
/// The text markers of the line scanner, in the order they are tried.
pub open spec fn marker_rules() -> Seq<(Seq<char>, WipKind, Standing, Seq<char>)> {
    seq![
        ("TODO"@, WipKind::SourceMarker, Standing::PartialAlive, "TODO marker"@),
        ("FIXME"@, WipKind::SourceMarker, Standing::PartialAlive, "FIXME marker"@),
        ("todo!("@, WipKind::Code, Standing::PartialAlive, "Rust todo! macro"@),
        ("unimplemented!("@, WipKind::Code, Standing::PartialAlive, "Rust unimplemented! macro"@),
        ("file:///"@, WipKind::Replay, Standing::PartialAlive, "machine-local replay pointer"@),
        ("stub implementation"@, WipKind::Code, Standing::PartialAlive, "stub implementation marker"@),
        ("not implemented"@, WipKind::Code, Standing::PartialAlive, "not-implemented marker"@),
    ]
}

fn marker_rules_exec() -> (r: Vec<Classified>)
    ensures
        r@.map_values(|c: Classified| classified_view(c)) == marker_rules(),
{
    let r = vec![
        ("TODO", WipKind::SourceMarker, Standing::PartialAlive, "TODO marker"),
        ("FIXME", WipKind::SourceMarker, Standing::PartialAlive, "FIXME marker"),
        ("todo!(", WipKind::Code, Standing::PartialAlive, "Rust todo! macro"),
        ("unimplemented!(", WipKind::Code, Standing::PartialAlive, "Rust unimplemented! macro"),
        ("file:///", WipKind::Replay, Standing::PartialAlive, "machine-local replay pointer"),
        ("stub implementation", WipKind::Code, Standing::PartialAlive, "stub implementation marker"),
        ("not implemented", WipKind::Code, Standing::PartialAlive, "not-implemented marker"),
    ];
    assert(r@.map_values(|c: Classified| classified_view(c)) =~= marker_rules());
    r
}

/// The finding a rule yields on line `line_no` of `path`.
pub open spec fn line_finding(
    path: Seq<char>,
    line_no: nat,
    line: Seq<char>,
    rule: (Seq<char>, WipKind, Standing, Seq<char>),
) -> FindingView {
    FindingView {
        id: finding_id_of(path, line_no, rule.0),
        path: path,
        line: line_no as usize,
        marker: rule.0,
        kind: rule.1,
        standing: rule.2,
        message: rule.3 + ": "@ + compacted(line),
    }
}

/// Findings of the first `k` marker rules on one line.
pub open spec fn rule_findings(path: Seq<char>, line_no: nat, line: Seq<char>, k: int) -> Seq<FindingView>
    decreases k,
{
    if k <= 0 {
        Seq::empty()
    } else {
        let prev = rule_findings(path, line_no, line, k - 1);
        let rule = marker_rules()[k - 1];
        if contains(line, rule.0) {
            prev.push(line_finding(path, line_no, line, rule))
        } else {
            prev
        }
    }
}

/// Findings of one line: each marker it contains, then its declared status.
/// A line that names both `WipKind::` and `Standing::` is scanner vocabulary, not WIP.
pub open spec fn findings_of_line(path: Seq<char>, line_no: nat, line: Seq<char>) -> Seq<FindingView> {
    if contains(line, "WipKind::"@) && contains(line, "Standing::"@) {
        Seq::empty()
    } else {
        rule_findings(path, line_no, line, 7) + match declared_status(line) {
            Some(d) => seq![line_finding(path, line_no, line, d)],
            None => Seq::empty(),
        }
    }
}

/// Findings of the first `n` lines.
pub open spec fn text_findings_upto(path: Seq<char>, lines: Seq<Seq<char>>, n: int) -> Seq<FindingView>
    decreases n,
{
    if n <= 0 {
        Seq::empty()
    } else {
        text_findings_upto(path, lines, n - 1) + findings_of_line(path, n as nat, lines[n - 1])
    }
}

/// Findings of the line scanner on a whole text.
pub open spec fn text_findings(path: Seq<char>, content: Seq<char>) -> Seq<FindingView> {
    text_findings_upto(path, lines_of(content), lines_of(content).len() as int)
}

fn make_line_finding(path: &str, line_no: usize, line: &[char], rule: Classified) -> (f: SourceFinding)
    ensures
        f@ == line_finding(path@, line_no as nat, line@, classified_view(rule)),
{
    let mut message = owned(rule.3);
    message.append(": ");
    let c = compact_line(line);
    message.append(c.as_str());
    SourceFinding {
        id: finding_id(path, line_no, rule.0),
        path: owned(path),
        line: line_no,
        marker: owned(rule.0),
        kind: rule.1,
        standing: rule.2,
        message: message,
    }
}

/// Line scanner for files without an admitted grammar: marker findings and
/// declared statuses, line by line.
pub fn scan_source_text(relative: &str, content: &str) -> (r: Vec<SourceFinding>)
    ensures
        finding_views(r@) == text_findings(relative@, content@),
{
    let chars = chars_of(content);
    let lines = lines_chars(chars.as_slice());
    let ghost ls = lines_of(content@);
    assert(lines@.map_values(|l: Vec<char>| l@) == ls);
    let rules = marker_rules_exec();
    assert(rules@.len() == rules@.map_values(|c: Classified| classified_view(c)).len());
    let wk = chars_of("WipKind::");
    let st = chars_of("Standing::");
    let mut r: Vec<SourceFinding> = Vec::new();
    let mut i: usize = 0;
    assert(finding_views(r@) =~= text_findings_upto(relative@, ls, 0));
    while i < lines.len()
        invariant
            i <= lines@.len(),
            lines@.len() == ls.len(),
            lines@.len() <= content@.len(),
            forall|j: int| 0 <= j < lines@.len() ==> (#[trigger] lines@[j])@ == ls[j],
            rules@.map_values(|c: Classified| classified_view(c)) == marker_rules(),
            rules@.len() == 7,
            wk@ == "WipKind::"@,
            st@ == "Standing::"@,
            finding_views(r@) == text_findings_upto(relative@, ls, i as int),
        decreases lines@.len() - i,
    {
        let line = lines[i].as_slice();
        let line_no = i + 1;
        assert(line@ == ls[i as int]);
        let ghost before = finding_views(r@);
        if !(contains_chars(line, wk.as_slice()) && contains_chars(line, st.as_slice())) {
            let mut k: usize = 0;
            while k < rules.len()
                invariant
                    k <= rules@.len(),
                    rules@.len() == 7,
                    rules@.map_values(|c: Classified| classified_view(c)) == marker_rules(),
                    finding_views(r@) == before + rule_findings(relative@, line_no as nat, line@, k as int),
                decreases rules@.len() - k,
            {
                let rule = rules[k];
                assert(classified_view(rule) == marker_rules()[k as int]);
                let m = chars_of(rule.0);
                if contains_chars(line, m.as_slice()) {
                    let f = make_line_finding(relative, line_no, line, rule);
                    let ghost b2 = r@;
                    r.push(f);
                    assert(finding_views(r@) =~= finding_views(b2).push(f@));
                }
                k = k + 1;
            }
            let ghost mid = finding_views(r@);
            match classify_declared_status(line) {
                Some(d) => {
                    let f = make_line_finding(relative, line_no, line, d);
                    r.push(f);
                    assert(finding_views(r@) =~= mid.push(f@));
                },
                None => {},
            }
            assert(finding_views(r@) =~= before + findings_of_line(relative@, line_no as nat, line@));
        } else {
            assert(finding_views(r@) =~= before + findings_of_line(relative@, line_no as nat, line@));
        }
        i = i + 1;
    }
    r
}

proof fn lemma_rule_findings_at(path: Seq<char>, line_no: nat, line: Seq<char>, k: int)
    requires
        line_no <= usize::MAX,
    ensures
        forall|m: int|
            0 <= m < rule_findings(path, line_no, line, k).len() ==> (#[trigger] rule_findings(path, line_no, line, k)[m]).path
                == path && rule_findings(path, line_no, line, k)[m].line == line_no && finding_id_sound(
                rule_findings(path, line_no, line, k)[m],
            ),
    decreases k,
{
    reveal(finding_id_sound);
    if k > 0 {
        lemma_rule_findings_at(path, line_no, line, k - 1);
    }
}

proof fn lemma_text_findings_upto(path: Seq<char>, lines: Seq<Seq<char>>, n: int)
    requires
        0 <= n <= lines.len(),
        lines.len() <= usize::MAX,
    ensures
        forall|m: int|
            0 <= m < text_findings_upto(path, lines, n).len() ==> (#[trigger] text_findings_upto(path, lines, n)[m]).path
                == path && 1 <= text_findings_upto(path, lines, n)[m].line <= n && finding_id_sound(
                text_findings_upto(path, lines, n)[m],
            ),
    decreases n,
{
    reveal(finding_id_sound);
    if n > 0 {
        lemma_text_findings_upto(path, lines, n - 1);
        lemma_rule_findings_at(path, n as nat, lines[n - 1], 7);
        let prev = text_findings_upto(path, lines, n - 1);
        let cur = findings_of_line(path, n as nat, lines[n - 1]);
        assert forall|m: int| 0 <= m < cur.len() implies (#[trigger] cur[m]).path == path && cur[m].line == n && finding_id_sound(cur[m]) by {
            let rf = rule_findings(path, n as nat, lines[n - 1], 7);
            if !(contains(lines[n - 1], "WipKind::"@) && contains(lines[n - 1], "Standing::"@)) && m >= rf.len() {
                assert(cur[m] == line_finding(path, n as nat, lines[n - 1], declared_status(lines[n - 1])->0));
            }
        }
        let all = text_findings_upto(path, lines, n);
        assert forall|m: int| 0 <= m < all.len() implies (#[trigger] all[m]).path == path && 1 <= all[m].line <= n && finding_id_sound(all[m]) by {
            if m < prev.len() {
                assert(all[m] == prev[m]);
            } else {
                assert(all[m] == cur[m - prev.len()]);
            }
        }
    }
}

/// Every finding of the line scanner names the scanned path and one of the text's lines.
pub proof fn lemma_text_findings_located(path: Seq<char>, content: Seq<char>)
    requires
        content.len() <= usize::MAX,
    ensures
        forall|m: int|
            0 <= m < text_findings(path, content).len() ==> (#[trigger] text_findings(path, content)[m]).path == path
                && 1 <= text_findings(path, content)[m].line <= lines_of(content).len(),
{
    crate::text::lemma_lines_len(content);
    lemma_text_findings_upto(path, lines_of(content), lines_of(content).len() as int);
}

/// Every finding of the line scanner has the identity derived from its path,
/// line and marker, so that sorting and deduplication leave no two findings
/// with the same path, line and marker.
pub proof fn lemma_text_findings_sound(path: Seq<char>, content: Seq<char>)
    requires
        content.len() <= usize::MAX,
    ensures
        forall|m: int| 0 <= m < text_findings(path, content).len() ==> finding_id_sound(#[trigger] text_findings(path, content)[m]),
{
    crate::text::lemma_lines_len(content);
    lemma_text_findings_upto(path, lines_of(content), lines_of(content).len() as int);
}

proof fn lemma_text_upto_prefix(path: Seq<char>, lines: Seq<Seq<char>>, m: int, n: int)
    requires
        0 <= m <= n,
    ensures
        text_findings_upto(path, lines, m).len() <= text_findings_upto(path, lines, n).len(),
        text_findings_upto(path, lines, n).take(text_findings_upto(path, lines, m).len() as int) == text_findings_upto(
            path,
            lines,
            m,
        ),
    decreases n - m,
{
    if m < n {
        lemma_text_upto_prefix(path, lines, m, n - 1);
        let a = text_findings_upto(path, lines, m);
        let b = text_findings_upto(path, lines, n - 1);
        let c = text_findings_upto(path, lines, n);
        assert(c == b + findings_of_line(path, n as nat, lines[n - 1]));
        assert(c.take(a.len() as int) =~= b.take(a.len() as int));
    } else {
        let a = text_findings_upto(path, lines, m);
        assert(a.take(a.len() as int) =~= a);
    }
}

/// Finding `f` reports a declared status at line `line_no`.
pub open spec fn declares_at(f: FindingView, line_no: int, marker: Seq<char>, kind: WipKind, standing: Standing) -> bool {
    f.line == line_no && f.marker == marker && f.kind == kind && f.standing == standing
}

/// Declared statuses: a line that declares a status (`Status:`, `Standing =`,
/// a `| Status |` row, ..., upper-cased after trimming) and is not the
/// scanner's own `WipKind::`/`Standing::` vocabulary is reported at its line
/// under the most severe status it names: BUILD_BROKEN (a CI finding, build
/// broken), else BLOCKED (a cross-repository blocker, blocked), else
/// PARTIAL_ALIVE (evidence, partially alive), else CANDIDATE or OPEN
/// (evidence, partially alive, as CANDIDATE_OR_OPEN).
pub proof fn lemma_declared_status_reported(path: Seq<char>, content: Seq<char>, idx: int)
    requires
        content.len() <= usize::MAX,
        0 <= idx < lines_of(content).len(),
        !(contains(lines_of(content)[idx], "WipKind::"@) && contains(lines_of(content)[idx], "Standing::"@)),
        declares_status(ascii_upper(trim(lines_of(content)[idx]))),
    ensures
        ({
            let n = ascii_upper(trim(lines_of(content)[idx]));
            let fs = text_findings(path, content);
            &&& contains(n, "BUILD_BROKEN"@) ==> exists|k: int|
                0 <= k < fs.len() && declares_at(#[trigger] fs[k], idx + 1, "BUILD_BROKEN"@, WipKind::Ci, Standing::BuildBroken)
            &&& !contains(n, "BUILD_BROKEN"@) && contains(n, "BLOCKED"@) ==> exists|k: int|
                0 <= k < fs.len() && declares_at(#[trigger] fs[k], idx + 1, "BLOCKED"@, WipKind::CrossRepoBlocker, Standing::Blocked)
            &&& !contains(n, "BUILD_BROKEN"@) && !contains(n, "BLOCKED"@) && contains(n, "PARTIAL_ALIVE"@) ==> exists|k: int|
                0 <= k < fs.len() && declares_at(#[trigger] fs[k], idx + 1, "PARTIAL_ALIVE"@, WipKind::Evidence, Standing::PartialAlive)
            &&& !contains(n, "BUILD_BROKEN"@) && !contains(n, "BLOCKED"@) && !contains(n, "PARTIAL_ALIVE"@) && (contains(
                n,
                "CANDIDATE"@,
            ) || contains(n, "OPEN"@)) ==> exists|k: int|
                0 <= k < fs.len() && declares_at(
                    #[trigger] fs[k],
                    idx + 1,
                    "CANDIDATE_OR_OPEN"@,
                    WipKind::Evidence,
                    Standing::PartialAlive,
                )
        }),
{
    let lines = lines_of(content);
    crate::text::lemma_lines_len(content);
    let line = lines[idx];
    let n = ascii_upper(trim(line));
    let fs = text_findings(path, content);
    let before = text_findings_upto(path, lines, idx);
    let fol = findings_of_line(path, (idx + 1) as nat, line);
    let upto = text_findings_upto(path, lines, idx + 1);
    assert(upto == before + fol);
    lemma_text_upto_prefix(path, lines, idx + 1, lines.len() as int);
    assert(fs == text_findings_upto(path, lines, lines.len() as int));
    if status_named(n) is Some {
        let d = status_named(n)->0;
        assert(declared_status(line) == Some(d));
        let f = line_finding(path, (idx + 1) as nat, line, d);
        assert(fol.last() == f);
        let k = before.len() + fol.len() - 1;
        assert(upto[k] == f);
        assert(fs.take(upto.len() as int)[k] == fs[k]);
        assert(fs[k] == f);
        assert(f.line == idx + 1);
    }
}

proof fn lemma_rule_findings_cover(path: Seq<char>, line_no: nat, line: Seq<char>, k: int)
    requires
        0 <= k <= 7,
    ensures
        forall|j: int|
            0 <= j < k && contains(line, #[trigger] marker_rules()[j].0) ==> rule_findings(path, line_no, line, k).contains(
                line_finding(path, line_no, line, marker_rules()[j]),
            ),
    decreases k,
{
    if k > 0 {
        lemma_rule_findings_cover(path, line_no, line, k - 1);
        let prev = rule_findings(path, line_no, line, k - 1);
        let all = rule_findings(path, line_no, line, k);
        assert forall|j: int| 0 <= j < k && contains(line, #[trigger] marker_rules()[j].0) implies all.contains(
            line_finding(path, line_no, line, marker_rules()[j]),
        ) by {
            if j < k - 1 {
                let m = choose|m: int| 0 <= m < prev.len() && prev[m] == line_finding(path, line_no, line, marker_rules()[j]);
                assert(all[m] == prev[m]);
            } else {
                assert(all[all.len() - 1] == line_finding(path, line_no, line, marker_rules()[j]));
            }
        }
    }
}

/// Text markers: a line that is not the scanner's own vocabulary is reported
/// at its line once for each marker it contains: `TODO` and `FIXME` as
/// source markers, `todo!(`, `unimplemented!(`, `stub implementation` and
/// `not implemented` as unfinished code, and `file:///` as a machine-local
/// replay pointer, all partially alive.
pub proof fn lemma_text_markers_reported(path: Seq<char>, content: Seq<char>, idx: int)
    requires
        content.len() <= usize::MAX,
        0 <= idx < lines_of(content).len(),
        !(contains(lines_of(content)[idx], "WipKind::"@) && contains(lines_of(content)[idx], "Standing::"@)),
    ensures
        ({
            let line = lines_of(content)[idx];
            let fs = text_findings(path, content);
            &&& contains(line, "TODO"@) ==> exists|k: int|
                0 <= k < fs.len() && declares_at(#[trigger] fs[k], idx + 1, "TODO"@, WipKind::SourceMarker, Standing::PartialAlive)
            &&& contains(line, "FIXME"@) ==> exists|k: int|
                0 <= k < fs.len() && declares_at(#[trigger] fs[k], idx + 1, "FIXME"@, WipKind::SourceMarker, Standing::PartialAlive)
            &&& contains(line, "todo!("@) ==> exists|k: int|
                0 <= k < fs.len() && declares_at(#[trigger] fs[k], idx + 1, "todo!("@, WipKind::Code, Standing::PartialAlive)
            &&& contains(line, "unimplemented!("@) ==> exists|k: int|
                0 <= k < fs.len() && declares_at(#[trigger] fs[k], idx + 1, "unimplemented!("@, WipKind::Code, Standing::PartialAlive)
            &&& contains(line, "file:///"@) ==> exists|k: int|
                0 <= k < fs.len() && declares_at(#[trigger] fs[k], idx + 1, "file:///"@, WipKind::Replay, Standing::PartialAlive)
            &&& contains(line, "stub implementation"@) ==> exists|k: int|
                0 <= k < fs.len() && declares_at(
                    #[trigger] fs[k],
                    idx + 1,
                    "stub implementation"@,
                    WipKind::Code,
                    Standing::PartialAlive,
                )
            &&& contains(line, "not implemented"@) ==> exists|k: int|
                0 <= k < fs.len() && declares_at(#[trigger] fs[k], idx + 1, "not implemented"@, WipKind::Code, Standing::PartialAlive)
        }),
{
    let lines = lines_of(content);
    crate::text::lemma_lines_len(content);
    let line = lines[idx];
    let fs = text_findings(path, content);
    let before = text_findings_upto(path, lines, idx);
    let fol = findings_of_line(path, (idx + 1) as nat, line);
    let rf = rule_findings(path, (idx + 1) as nat, line, 7);
    let upto = text_findings_upto(path, lines, idx + 1);
    assert(upto == before + fol);
    lemma_text_upto_prefix(path, lines, idx + 1, lines.len() as int);
    lemma_rule_findings_cover(path, (idx + 1) as nat, line, 7);
    assert(fs == text_findings_upto(path, lines, lines.len() as int));
    assert forall|j: int| 0 <= j < 7 && contains(line, #[trigger] marker_rules()[j].0) implies exists|k: int|
        0 <= k < fs.len() && fs[k] == line_finding(path, (idx + 1) as nat, line, marker_rules()[j]) by {
        let m = choose|m: int| 0 <= m < rf.len() && rf[m] == line_finding(path, (idx + 1) as nat, line, marker_rules()[j]);
        assert(fol[m] == rf[m]);
        let k = before.len() + m;
        assert(upto[k] == fol[m]);
        assert(fs.take(upto.len() as int)[k] == fs[k]);
    }
    assert(marker_rules()[0].0 == "TODO"@);
    assert(marker_rules()[1].0 == "FIXME"@);
    assert(marker_rules()[2].0 == "todo!("@);
    assert(marker_rules()[3].0 == "unimplemented!("@);
    assert(marker_rules()[4].0 == "file:///"@);
    assert(marker_rules()[5].0 == "stub implementation"@);
    assert(marker_rules()[6].0 == "not implemented"@);
}

// ---------------------------------------------------------------------------
// Paths the scanner leaves alone
// ---------------------------------------------------------------------------
/// The scanner's own sources and documentation, whose marker vocabulary is not WIP.
pub open spec fn self_surface(relative: Seq<char>) -> bool {
    relative == "src/wip/source.rs"@ || relative == "src/wip/tree_sitter_scan.rs"@
        || relative == "tests/wip_closure.rs"@ || relative == "docs/WIP_CLOSURE_ENGINE.md"@
}

pub fn is_scanner_self_surface(relative: &str) -> (b: bool)
    ensures
        b == self_surface(relative@),
{
    eq_text(relative, "src/wip/source.rs") || eq_text(relative, "src/wip/tree_sitter_scan.rs") || eq_text(
        relative,
        "tests/wip_closure.rs",
    ) || eq_text(relative, "docs/WIP_CLOSURE_ENGINE.md")
}

/// A path component under which nothing is scanned.
pub open spec fn skipped_component(c: Seq<char>) -> bool {
    c == ".git"@ || c == "target"@ || c == "node_modules"@ || c == "vendor"@ || c == "generated"@
        || c == "receipts"@ || c == "transcripts"@ || c == "ocel"@
}

/// Whether any component of a path (given as its components) is skipped.
pub fn should_skip(components: &Vec<String>) -> (b: bool)
    ensures
        b == exists|i: int| 0 <= i < components@.len() && skipped_component((#[trigger] components@[i])@),
{
    let mut i: usize = 0;
    while i < components.len()
        invariant
            i <= components@.len(),
            forall|j: int| 0 <= j < i ==> !skipped_component((#[trigger] components@[j])@),
        decreases components@.len() - i,
    {
        let c = components[i].as_str();
        if eq_text(c, ".git") || eq_text(c, "target") || eq_text(c, "node_modules") || eq_text(c, "vendor")
            || eq_text(c, "generated") || eq_text(c, "receipts") || eq_text(c, "transcripts") || eq_text(
            c,
            "ocel",
        ) {
            return true;
        }
        i = i + 1;
    }
    false
}

// ---------------------------------------------------------------------------
// Path dependencies of a Cargo manifest
// ---------------------------------------------------------------------------
/// `path = "..."` entries of a manifest.
pub open spec fn dep_pattern() -> Seq<char> {
    "path\\s*=\\s*\"([^\"]+)\""@
}

/// `(line, path)` of each capture among the first `k` whose first group matched.
pub open spec fn capture_paths(line_no: nat, caps: Seq<(Seq<char>, Seq<Option<Seq<char>>>)>, k: int) -> Seq<(nat, Seq<char>)>
    decreases k,
{
    if k <= 0 {
        Seq::empty()
    } else {
        let prev = capture_paths(line_no, caps, k - 1);
        let c = caps[k - 1];
        if c.1.len() > 0 && c.1[0] is Some {
            prev.push((line_no, c.1[0]->0))
        } else {
            prev
        }
    }
}

pub open spec fn dep_paths_upto(lines: Seq<Seq<char>>, n: int) -> Seq<(nat, Seq<char>)>
    decreases n,
{
    if n <= 0 {
        Seq::empty()
    } else {
        let caps = regex_captures_all(dep_pattern(), lines[n - 1]);
        dep_paths_upto(lines, n - 1) + capture_paths(n as nat, caps, caps.len() as int)
    }
}

/// Every `path = "..."` dependency of a manifest, with its 1-based line.
pub open spec fn dependency_paths(manifest: Seq<char>) -> Seq<(nat, Seq<char>)> {
    dep_paths_upto(lines_of(manifest), lines_of(manifest).len() as int)
}

pub open spec fn dep_views(v: Seq<(usize, String)>) -> Seq<(nat, Seq<char>)> {
    v.map_values(|p: (usize, String)| (p.0 as nat, p.1@))
}

/// The path dependencies a manifest declares; which of them are missing is for the caller to find out.
pub fn path_dependency_candidates(manifest: &str) -> (r: Vec<(usize, String)>)
    ensures
        dep_views(r@) == dependency_paths(manifest@),
{
    let chars = chars_of(manifest);
    let lines = lines_chars(chars.as_slice());
    let ghost ls = lines_of(manifest@);
    let mut r: Vec<(usize, String)> = Vec::new();
    let mut i: usize = 0;
    assert(dep_views(r@) =~= dep_paths_upto(ls, 0));
    while i < lines.len()
        invariant
            i <= lines@.len(),
            lines@.len() == ls.len(),
            lines@.len() <= manifest@.len(),
            lines@.map_values(|l: Vec<char>| l@) == ls,
            dep_views(r@) == dep_paths_upto(ls, i as int),
        decreases lines@.len() - i,
    {
        let line = string_of(lines[i].as_slice());
        assert(line@ == ls[i as int]);
        let line_no = i + 1;
        let caps = captures_all("path\\s*=\\s*\"([^\"]+)\"", line.as_str());
        let ghost cv = captures_views(caps@);
        let ghost base = dep_views(r@);
        let mut k: usize = 0;
        assert(base + capture_paths((i + 1) as nat, cv, 0) =~= base);
        while k < caps.len()
            invariant
                k <= caps@.len(),
                cv == captures_views(caps@),
                line_no == i + 1,
                dep_views(r@) == base + capture_paths((i + 1) as nat, cv, k as int),
            decreases caps@.len() - k,
        {
            let c = &caps[k];
            assert(cv[k as int] == c@);
            if c.groups.len() > 0 {
                match &c.groups[0] {
                    Some(p) => {
                        let ghost before = r@;
                        r.push((line_no, p.clone()));
                        assert(c@.1[0] == Some(p@));
                        assert(dep_views(r@) =~= dep_views(before).push(((i + 1) as nat, p@)));
                    },
                    None => {},
                }
            }
            k = k + 1;
        }
        i = i + 1;
    }
    r
}

/// The finding for a path dependency that does not exist on disk.
pub open spec fn missing_dependency(line_no: nat, dep_path: Seq<char>) -> FindingView {
    FindingView {
        id: finding_id_of("Cargo.toml"@, line_no, dep_path),
        path: "Cargo.toml"@,
        line: line_no as usize,
        marker: dep_path,
        kind: WipKind::Dependency,
        standing: Standing::Blocked,
        message: "missing path dependency: "@ + dep_path,
    }
}

pub fn missing_dependency_finding(line_no: usize, dep_path: &str) -> (f: SourceFinding)
    ensures
        f@ == missing_dependency(line_no as nat, dep_path@),
        finding_id_sound(f@),
{
    proof {
        reveal(finding_id_sound);
    }
    let mut message = owned("missing path dependency: ");
    message.append(dep_path);
    SourceFinding {
        id: finding_id("Cargo.toml", line_no, dep_path),
        path: owned("Cargo.toml"),
        line: line_no,
        marker: owned(dep_path),
        kind: WipKind::Dependency,
        standing: Standing::Blocked,
        message: message,
    }
}

// ---------------------------------------------------------------------------
// Ordering and de-duplication
// ---------------------------------------------------------------------------
/// `a` sorts strictly before `b`: by path, then line, then marker.
pub open spec fn finding_before(a: FindingView, b: FindingView) -> bool {
    lex_lt(a.path, b.path) || (a.path == b.path && (a.line < b.line || (a.line == b.line && lex_lt(
        a.marker,
        b.marker,
    ))))
}

/// `x` inserted into `q` after every element that does not sort after it.
pub open spec fn insert_stable(q: Seq<FindingView>, x: FindingView) -> Seq<FindingView>
    decreases q.len(),
{
    if q.len() == 0 {
        seq![x]
    } else if finding_before(x, q.last()) {
        insert_stable(q.drop_last(), x).push(q.last())
    } else {
        q.push(x)
    }
}

/// The stable sort of `s` by path, line and marker: equal keys keep their order.
pub open spec fn sort_stable(s: Seq<FindingView>) -> Seq<FindingView>
    decreases s.len(),
{
    if s.len() == 0 {
        Seq::empty()
    } else {
        insert_stable(sort_stable(s.drop_last()), s.last())
    }
}

/// `s` without each element whose identity equals that of the element before it.
pub open spec fn dedup_adjacent(s: Seq<FindingView>) -> Seq<FindingView>
    decreases s.len(),
{
    if s.len() <= 1 {
        s
    } else {
        let d = dedup_adjacent(s.drop_last());
        if s.last().id == s[s.len() - 2].id {
            d
        } else {
            d.push(s.last())
        }
    }
}

proof fn lemma_insert_stable(q: Seq<FindingView>, x: FindingView, j: int)
    requires
        0 <= j <= q.len(),
        forall|m: int| j <= m < q.len() ==> finding_before(x, #[trigger] q[m]),
        j == 0 || !finding_before(x, q[j - 1]),
    ensures
        insert_stable(q, x) == q.insert(j, x),
    decreases q.len(),
{
    if q.len() == 0 {
        assert(q.insert(j, x) =~= seq![x]);
    } else if j == q.len() {
        assert(q.insert(j, x) =~= q.push(x));
    } else {
        assert(finding_before(x, q.last()));
        let p = q.drop_last();
        assert forall|m: int| j <= m < p.len() implies finding_before(x, #[trigger] p[m]) by {
            assert(p[m] == q[m]);
        }
        if j > 0 {
            assert(p[j - 1] == q[j - 1]);
        }
        lemma_insert_stable(p, x, j);
        assert(p.insert(j, x).push(q.last()) =~= q.insert(j, x));
    }
}

fn finding_before_exec(a: &SourceFinding, b: &SourceFinding) -> (r: bool)
    ensures
        r == finding_before(a@, b@),
{
    str_lt(a.path.as_str(), b.path.as_str()) || (eq_text(a.path.as_str(), b.path.as_str()) && (a.line < b.line || (a.line
        == b.line && str_lt(a.marker.as_str(), b.marker.as_str()))))
}

fn clone_finding(f: &SourceFinding) -> (r: SourceFinding)
    ensures
        r@ == f@,
{
    SourceFinding {
        id: f.id.clone(),
        path: f.path.clone(),
        line: f.line,
        marker: f.marker.clone(),
        kind: f.kind,
        standing: f.standing,
        message: f.message.clone(),
    }
}

/// Sorts findings by path, line and marker (stably) and drops each one whose
/// identity repeats the one before it.
pub fn sort_and_dedup_findings(findings: &Vec<SourceFinding>) -> (r: Vec<SourceFinding>)
    ensures
        finding_views(r@) == dedup_adjacent(sort_stable(finding_views(findings@))),
{
    let ghost s = finding_views(findings@);
    let mut sorted: Vec<SourceFinding> = Vec::new();
    let mut i: usize = 0;
    assert(finding_views(sorted@) =~= sort_stable(s.take(0)));
    while i < findings.len()
        invariant
            i <= findings@.len(),
            s == finding_views(findings@),
            finding_views(sorted@) == sort_stable(s.take(i as int)),
        decreases findings@.len() - i,
    {
        let x = clone_finding(&findings[i]);
        let ghost q = finding_views(sorted@);
        let mut j: usize = sorted.len();
        while j > 0 && finding_before_exec(&x, &sorted[j - 1])
            invariant
                j <= sorted@.len(),
                q == finding_views(sorted@),
                forall|m: int| j <= m < q.len() ==> finding_before(x@, #[trigger] q[m]),
            decreases j,
        {
            j = j - 1;
        }
        proof {
            lemma_insert_stable(q, x@, j as int);
            assert(s.take(i + 1).drop_last() =~= s.take(i as int));
            assert(s.take(i + 1).last() == x@);
        }
        sorted.insert(j, x);
        assert(finding_views(sorted@) =~= q.insert(j as int, x@));
        i = i + 1;
    }
    assert(s.take(i as int) =~= s);
    let ghost t = finding_views(sorted@);
    let mut r: Vec<SourceFinding> = Vec::new();
    let mut k: usize = 0;
    assert(finding_views(r@) =~= dedup_adjacent(t.take(0)));
    while k < sorted.len()
        invariant
            k <= sorted@.len(),
            t == finding_views(sorted@),
            finding_views(r@) == dedup_adjacent(t.take(k as int)),
        decreases sorted@.len() - k,
    {
        let ghost tk = t.take(k + 1);
        assert(tk.drop_last() =~= t.take(k as int));
        if k == 0 {
            let ghost before = r@;
            r.push(clone_finding(&sorted[k]));
            assert(finding_views(r@) =~= tk);
        } else {
            assert(tk[tk.len() - 2] == t[k - 1]);
            if !eq_text(sorted[k].id.as_str(), sorted[k - 1].id.as_str()) {
                let c = clone_finding(&sorted[k]);
                let ghost before = finding_views(r@);
                r.push(c);
                assert(finding_views(r@) =~= before.push(c@));
            }
        }
        k = k + 1;
    }
    assert(t.take(k as int) =~= t);
    r
}

// ---------------------------------------------------------------------------
// The order of findings
// ---------------------------------------------------------------------------
/// No finding sorts before an earlier one.
pub open spec fn findings_ordered(s: Seq<FindingView>) -> bool {
    forall|i: int, j: int| 0 <= i < j < s.len() ==> !finding_before(#[trigger] s[j], #[trigger] s[i])
}

/// No two neighbouring findings share an identity.
pub open spec fn adjacent_ids_distinct(s: Seq<FindingView>) -> bool {
    forall|k: int| 0 <= k < s.len() - 1 ==> #[trigger] step_ids_differ(s, k)
}

proof fn lemma_before_strict(a: FindingView, b: FindingView, c: FindingView)
    ensures
        !finding_before(a, a),
        finding_before(a, b) && finding_before(b, c) ==> finding_before(a, c),
        (a.path, a.line, a.marker) != (b.path, b.line, b.marker) ==> finding_before(a, b) || finding_before(b, a),
{
    lemma_lex_irrefl(a.path);
    lemma_lex_irrefl(a.marker);
    if finding_before(a, b) && finding_before(b, c) {
        if lex_lt(a.path, b.path) && lex_lt(b.path, c.path) {
            lemma_lex_trans(a.path, b.path, c.path);
        }
        if lex_lt(a.marker, b.marker) && lex_lt(b.marker, c.marker) {
            lemma_lex_trans(a.marker, b.marker, c.marker);
        }
    }
    if a.path != b.path {
        lemma_lex_total(a.path, b.path);
    }
    if a.marker != b.marker {
        lemma_lex_total(a.marker, b.marker);
    }
}

/// "Does not sort after" is transitive.
proof fn lemma_not_before_trans(a: FindingView, b: FindingView, c: FindingView)
    requires
        !finding_before(b, a),
        !finding_before(c, b),
    ensures
        !finding_before(c, a),
{
    lemma_before_strict(a, b, c);
    lemma_before_strict(b, c, a);
    lemma_before_strict(c, a, b);
    lemma_before_strict(a, c, b);
    lemma_before_strict(b, a, c);
    lemma_before_strict(c, b, a);
}

proof fn lemma_insert_stable_elems(q: Seq<FindingView>, x: FindingView)
    ensures
        forall|y: FindingView| #[trigger] insert_stable(q, x).contains(y) ==> q.contains(y) || y == x,
    decreases q.len(),
{
    let r = insert_stable(q, x);
    if q.len() == 0 {
        assert forall|y: FindingView| #[trigger] r.contains(y) implies q.contains(y) || y == x by {
            let k = choose|k: int| 0 <= k < r.len() && r[k] == y;
        }
    } else if finding_before(x, q.last()) {
        let p = q.drop_last();
        lemma_insert_stable_elems(p, x);
        let rp = insert_stable(p, x);
        assert forall|y: FindingView| #[trigger] r.contains(y) implies q.contains(y) || y == x by {
            let k = choose|k: int| 0 <= k < r.len() && r[k] == y;
            if k < rp.len() {
                assert(rp[k] == y);
                assert(rp.contains(y));
                if p.contains(y) {
                    let m = choose|m: int| 0 <= m < p.len() && p[m] == y;
                    assert(q[m] == y);
                }
            } else {
                assert(y == q.last());
                assert(q[q.len() - 1] == y);
            }
        }
    } else {
        assert forall|y: FindingView| #[trigger] r.contains(y) implies q.contains(y) || y == x by {
            let k = choose|k: int| 0 <= k < r.len() && r[k] == y;
            if k < q.len() {
                assert(q[k] == y);
            }
        }
    }
}

proof fn lemma_insert_stable_ordered(q: Seq<FindingView>, x: FindingView)
    requires
        findings_ordered(q),
    ensures
        findings_ordered(insert_stable(q, x)),
        insert_stable(q, x).len() == q.len() + 1,
    decreases q.len(),
{
    let r = insert_stable(q, x);
    if q.len() == 0 {
    } else if finding_before(x, q.last()) {
        let p = q.drop_last();
        let l = q.last();
        assert(findings_ordered(p)) by {
            assert forall|i: int, j: int| 0 <= i < j < p.len() implies !finding_before(#[trigger] p[j], #[trigger] p[i]) by {
                assert(p[i] == q[i] && p[j] == q[j]);
            }
        }
        lemma_insert_stable_ordered(p, x);
        lemma_insert_stable_elems(p, x);
        let rp = insert_stable(p, x);
        assert forall|i: int, j: int| 0 <= i < j < r.len() implies !finding_before(#[trigger] r[j], #[trigger] r[i]) by {
            if j < rp.len() {
                assert(r[i] == rp[i] && r[j] == rp[j]);
            } else {
                assert(r[j] == l);
                assert(r[i] == rp[i]);
                assert(rp.contains(rp[i]));
                if rp[i] == x {
                    lemma_before_strict(x, l, x);
                } else {
                    let m = choose|m: int| 0 <= m < p.len() && p[m] == rp[i];
                    assert(q[m] == rp[i]);
                    assert(!finding_before(q[q.len() - 1], q[m]));
                }
            }
        }
    } else {
        assert forall|i: int, j: int| 0 <= i < j < r.len() implies !finding_before(#[trigger] r[j], #[trigger] r[i]) by {
            if j < q.len() {
                assert(r[i] == q[i] && r[j] == q[j]);
            } else {
                assert(r[j] == x);
                assert(r[i] == q[i]);
                if i < q.len() - 1 {
                    assert(!finding_before(q[q.len() - 1], q[i]));
                    lemma_not_before_trans(q[i], q[q.len() - 1], x);
                }
            }
        }
    }
}

proof fn lemma_sort_stable_ordered(s: Seq<FindingView>)
    ensures
        findings_ordered(sort_stable(s)),
        sort_stable(s).len() == s.len(),
    decreases s.len(),
{
    if s.len() > 0 {
        lemma_sort_stable_ordered(s.drop_last());
        lemma_insert_stable_ordered(sort_stable(s.drop_last()), s.last());
    }
}

proof fn lemma_dedup_elems(s: Seq<FindingView>)
    ensures
        forall|y: FindingView| #[trigger] dedup_adjacent(s).contains(y) ==> s.contains(y),
        s.len() > 0 ==> dedup_adjacent(s).len() > 0 && dedup_adjacent(s).last().id == s.last().id,
    decreases s.len(),
{
    let d = dedup_adjacent(s);
    if s.len() == 1 {
        assert forall|y: FindingView| #[trigger] d.contains(y) implies s.contains(y) by {
        }
    } else if s.len() > 1 {
        let p = s.drop_last();
        lemma_dedup_elems(p);
        let dp = dedup_adjacent(p);
        assert forall|y: FindingView| #[trigger] d.contains(y) implies s.contains(y) by {
            let k = choose|k: int| 0 <= k < d.len() && d[k] == y;
            if k < dp.len() {
                assert(dp[k] == y);
                assert(dp.contains(y));
                let m = choose|m: int| 0 <= m < p.len() && p[m] == y;
                assert(s[m] == y);
            } else {
                assert(s[s.len() - 1] == y);
            }
        }
    }
}

proof fn lemma_dedup_ordered(s: Seq<FindingView>)
    requires
        findings_ordered(s),
    ensures
        findings_ordered(dedup_adjacent(s)),
    decreases s.len(),
{
    if s.len() > 1 {
        let p = s.drop_last();
        assert(findings_ordered(p)) by {
            assert forall|i: int, j: int| 0 <= i < j < p.len() implies !finding_before(#[trigger] p[j], #[trigger] p[i]) by {
                assert(p[i] == s[i] && p[j] == s[j]);
            }
        }
        lemma_dedup_ordered(p);
        lemma_dedup_elems(p);
        let dp = dedup_adjacent(p);
        let d = dedup_adjacent(s);
        assert forall|i: int, j: int| 0 <= i < j < d.len() implies !finding_before(#[trigger] d[j], #[trigger] d[i]) by {
            if j < dp.len() {
                assert(d[i] == dp[i] && d[j] == dp[j]);
            } else {
                assert(d[j] == s.last());
                assert(d[i] == dp[i]);
                assert(dp.contains(dp[i]));
                let m = choose|m: int| 0 <= m < p.len() && p[m] == dp[i];
                assert(s[m] == dp[i]);
                assert(!finding_before(s[s.len() - 1], s[m]));
            }
        }
    }
}

proof fn lemma_dedup_distinct(s: Seq<FindingView>)
    ensures
        adjacent_ids_distinct(dedup_adjacent(s)),
    decreases s.len(),
{
    if s.len() > 1 {
        let p = s.drop_last();
        lemma_dedup_distinct(p);
        lemma_dedup_elems(p);
        let dp = dedup_adjacent(p);
        let d = dedup_adjacent(s);
        assert(p.last() == s[s.len() - 2]);
        assert forall|k: int| 0 <= k < d.len() - 1 implies #[trigger] step_ids_differ(d, k) by {
            if k + 1 < dp.len() {
                assert(d[k] == dp[k] && d[k + 1] == dp[k + 1]);
                assert(step_ids_differ(dp, k));
            } else {
                assert(d[k] == dp.last());
            }
        }
    }
}

/// Source findings come out ordered by path, line and marker, and no two
/// neighbours share an identity.
pub proof fn lemma_findings_sorted_unique(s: Seq<FindingView>)
    ensures
        findings_ordered(dedup_adjacent(sort_stable(s))),
        adjacent_ids_distinct(dedup_adjacent(sort_stable(s))),
{
    lemma_sort_stable_ordered(s);
    lemma_dedup_ordered(sort_stable(s));
    lemma_dedup_distinct(sort_stable(s));
}

proof fn lemma_sort_stable_elems(s: Seq<FindingView>)
    ensures
        forall|y: FindingView| #[trigger] sort_stable(s).contains(y) ==> s.contains(y),
    decreases s.len(),
{
    if s.len() > 0 {
        let p = s.drop_last();
        lemma_sort_stable_elems(p);
        lemma_insert_stable_elems(sort_stable(p), s.last());
        assert forall|y: FindingView| #[trigger] sort_stable(s).contains(y) implies s.contains(y) by {
            if sort_stable(p).contains(y) {
                let k = choose|k: int| 0 <= k < p.len() && p[k] == y;
                assert(s[k] == y);
            } else {
                assert(s[s.len() - 1] == y);
            }
        }
    }
}

/// A finding whose identity is derived from its path, line and marker.
#[verifier::opaque]
pub open spec fn finding_id_sound(f: FindingView) -> bool {
    f.id == finding_id_of(f.path, f.line as nat, f.marker)
}

/// When every finding's identity is derived from its path, line and marker (as
/// the scanners make them), the findings come out strictly increasing by
/// (path, line, marker): no two share all three.
pub proof fn lemma_dedup_sound(s: Seq<FindingView>)
    requires
        forall|i: int| 0 <= i < s.len() ==> finding_id_sound(#[trigger] s[i]),
    ensures
        forall|k: int| 0 <= k < dedup_adjacent(sort_stable(s)).len() ==> finding_id_sound(#[trigger] dedup_adjacent(sort_stable(s))[k]),
{
    let d = dedup_adjacent(sort_stable(s));
    lemma_sort_stable_elems(s);
    lemma_dedup_elems(sort_stable(s));
    assert forall|k: int| 0 <= k < d.len() implies finding_id_sound(#[trigger] d[k]) by {
        assert(d.contains(d[k]));
        assert(sort_stable(s).contains(d[k]));
        let m = choose|m: int| 0 <= m < s.len() && s[m] == d[k];
    }
}

proof fn lemma_adjacent_before(a: FindingView, b: FindingView)
    requires
        finding_id_sound(a),
        finding_id_sound(b),
        a.id != b.id,
        !finding_before(b, a),
    ensures
        finding_before(a, b),
{
    reveal(finding_id_sound);
    assert((a.path, a.line, a.marker) != (b.path, b.line, b.marker));
    lemma_before_strict(a, b, a);
}

/// When every finding's identity is derived from its path, line and marker (as
/// the scanners make them), the findings come out strictly increasing by
/// (path, line, marker): no two share all three.
pub proof fn lemma_findings_strictly_ordered(s: Seq<FindingView>)
    requires
        forall|i: int| 0 <= i < s.len() ==> finding_id_sound(#[trigger] s[i]),
    ensures
        forall|i: int, j: int|
            0 <= i < j < dedup_adjacent(sort_stable(s)).len() ==> finding_before(
                #[trigger] dedup_adjacent(sort_stable(s))[i],
                #[trigger] dedup_adjacent(sort_stable(s))[j],
            ),
{
    lemma_findings_sorted_unique(s);
    lemma_dedup_sound(s);
    lemma_strict_from(dedup_adjacent(sort_stable(s)));
}

/// Finding `k` sorts before finding `k + 1`.
pub open spec fn step_before(d: Seq<FindingView>, k: int) -> bool {
    finding_before(d[k], d[k + 1])
}

/// Findings `k` and `k + 1` have different identities.
pub open spec fn step_ids_differ(d: Seq<FindingView>, k: int) -> bool {
    d[k].id != d[k + 1].id
}

proof fn lemma_strict_from(d: Seq<FindingView>)
    requires
        findings_ordered(d),
        forall|k: int| 0 <= k < d.len() - 1 ==> #[trigger] step_ids_differ(d, k),
        forall|k: int| 0 <= k < d.len() ==> finding_id_sound(#[trigger] d[k]),
    ensures
        forall|i: int, j: int| 0 <= i < j < d.len() ==> finding_before(#[trigger] d[i], #[trigger] d[j]),
{
    assert forall|k: int| 0 <= k < d.len() - 1 implies #[trigger] step_before(d, k) by {
        let a = d[k];
        let b = d[k + 1];
        assert(step_ids_differ(d, k));
        assert(!finding_before(b, a));
        assert(finding_id_sound(a) && finding_id_sound(b));
        lemma_adjacent_before(a, b);
    }
    assert forall|i: int, j: int| 0 <= i < j < d.len() implies finding_before(#[trigger] d[i], #[trigger] d[j]) by {
        lemma_chain_before(d, i, j);
    }
}

proof fn lemma_chain_before(d: Seq<FindingView>, i: int, j: int)
    requires
        0 <= i < j < d.len(),
        forall|k: int| 0 <= k < d.len() - 1 ==> #[trigger] step_before(d, k),
    ensures
        finding_before(d[i], d[j]),
    decreases j - i,
{
    if j > i + 1 {
        lemma_chain_before(d, i, j - 1);
        assert(step_before(d, j - 1));
        lemma_before_strict(d[i], d[j - 1], d[j]);
    } else {
        assert(step_before(d, i));
    }
}

} // verus!
