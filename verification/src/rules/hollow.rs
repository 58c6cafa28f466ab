//! HOLLOW-0xx: placeholder implementations (`todo!()`, TODO throws, empty
//! success returns, ...) in Rust, TypeScript/JavaScript and Tera sources.
use vstd::prelude::*;

use crate::config::AntiLlmConfig;
use crate::diagnostics::{diag, diag_views, lemma_diag_views_push, AntiLlmDiagnostic, DiagnosticView};
use crate::observations::{lemma_obs_views_push, obs_views, Observation, ObservationView};
use crate::text::{
    chars_of, contains, contains_chars, decimal, ends_with, ends_with_chars, lines_chars, lines_of,
    owned, push_decimal, string_of, trim, trim_chars,
};

verus! {

/// Rust hollow patterns.
pub open spec fn rs_pattern(i: int) -> Seq<char> {
    if i == 0 {
        "unimplemented!()"@
    } else if i == 1 {
        "todo!()"@
    } else if i == 2 {
        "todo!(\""@
    } else if i == 3 {
        "panic!(\"not implemented\")"@
    } else if i == 4 {
        "panic!(\"TODO\")"@
    } else if i == 5 {
        "// TODO:"@
    } else if i == 6 {
        "// FIXME:"@
    } else if i == 7 {
        "// PLACEHOLDER"@
    } else if i == 8 {
        "Ok(Some(vec![]))"@
    } else if i == 9 {
        "Ok(None)"@
    } else if i == 10 {
        "unreachable!()"@
    } else if i == 11 {
        "Box::new(|| {})"@
    } else if i == 12 {
        "Ok(vec![])"@
    } else {
        "Ok(Some(vec![]))"@
    }
}

pub fn rs_pattern_exec(i: usize) -> (r: &'static str)
    requires
        i < 14,
    ensures
        r@ == rs_pattern(i as int),
{
    match i {
        0 => "unimplemented!()",
        1 => "todo!()",
        2 => "todo!(\"",
        3 => "panic!(\"not implemented\")",
        4 => "panic!(\"TODO\")",
        5 => "// TODO:",
        6 => "// FIXME:",
        7 => "// PLACEHOLDER",
        8 => "Ok(Some(vec![]))",
        9 => "Ok(None)",
        10 => "unreachable!()",
        11 => "Box::new(|| {})",
        12 => "Ok(vec![])",
        _ => "Ok(Some(vec![]))",
    }
}

/// Diagnostic code of each Rust hollow pattern.
pub open spec fn rs_code(i: int) -> Seq<char> {
    if i == 0 {
        "ANTI-LLM-HOLLOW-001"@
    } else if i == 1 {
        "ANTI-LLM-HOLLOW-002"@
    } else if i == 2 {
        "ANTI-LLM-HOLLOW-002"@
    } else if i == 3 {
        "ANTI-LLM-HOLLOW-003"@
    } else if i == 4 {
        "ANTI-LLM-HOLLOW-003"@
    } else if i == 5 {
        "ANTI-LLM-HOLLOW-004"@
    } else if i == 6 {
        "ANTI-LLM-HOLLOW-005"@
    } else if i == 7 {
        "ANTI-LLM-HOLLOW-006"@
    } else if i == 8 {
        "ANTI-LLM-HOLLOW-007"@
    } else if i == 9 {
        "ANTI-LLM-HOLLOW-008"@
    } else if i == 10 {
        "ANTI-LLM-HOLLOW-009"@
    } else if i == 11 {
        "ANTI-LLM-HOLLOW-010"@
    } else if i == 12 {
        "ANTI-LLM-HOLLOW-013"@
    } else {
        "ANTI-LLM-HOLLOW-014"@
    }
}

pub fn rs_code_exec(i: usize) -> (r: &'static str)
    requires
        i < 14,
    ensures
        r@ == rs_code(i as int),
{
    match i {
        0 => "ANTI-LLM-HOLLOW-001",
        1 => "ANTI-LLM-HOLLOW-002",
        2 => "ANTI-LLM-HOLLOW-002",
        3 => "ANTI-LLM-HOLLOW-003",
        4 => "ANTI-LLM-HOLLOW-003",
        5 => "ANTI-LLM-HOLLOW-004",
        6 => "ANTI-LLM-HOLLOW-005",
        7 => "ANTI-LLM-HOLLOW-006",
        8 => "ANTI-LLM-HOLLOW-007",
        9 => "ANTI-LLM-HOLLOW-008",
        10 => "ANTI-LLM-HOLLOW-009",
        11 => "ANTI-LLM-HOLLOW-010",
        12 => "ANTI-LLM-HOLLOW-013",
        _ => "ANTI-LLM-HOLLOW-014",
    }
}

/// Diagnostic message of each Rust hollow pattern.
pub open spec fn rs_message(i: int) -> Seq<char> {
    if i == 0 {
        "unimplemented!() is a placeholder — hollow by law"@
    } else if i == 1 {
        "todo!() is a placeholder — hollow by law"@
    } else if i == 2 {
        "todo!() is a placeholder — hollow by law"@
    } else if i == 3 {
        "panic-as-stub detected — hollow by law"@
    } else if i == 4 {
        "panic-as-stub detected — hollow by law"@
    } else if i == 5 {
        "TODO comment is a placeholder — implement or formally refuse"@
    } else if i == 6 {
        "FIXME comment is a placeholder — implement or formally refuse"@
    } else if i == 7 {
        "PLACEHOLDER comment — hollow by law"@
    } else if i == 8 {
        "LSP handler returning empty vec — verify not a hollow stub"@
    } else if i == 9 {
        "LSP handler returning None unconditionally — verify not a stub"@
    } else if i == 10 {
        "unreachable!() in reachable code path — review if genuine"@
    } else if i == 11 {
        "Empty closure boxed as implementation — hollow by law"@
    } else if i == 12 {
        "LSP handler returning Ok(vec![]) — empty success is a false-success stub"@
    } else {
        "LSP handler returning Ok(Some(vec![])) — empty Some is a false-success stub"@
    }
}

pub fn rs_message_exec(i: usize) -> (r: &'static str)
    requires
        i < 14,
    ensures
        r@ == rs_message(i as int),
{
    match i {
        0 => "unimplemented!() is a placeholder — hollow by law",
        1 => "todo!() is a placeholder — hollow by law",
        2 => "todo!() is a placeholder — hollow by law",
        3 => "panic-as-stub detected — hollow by law",
        4 => "panic-as-stub detected — hollow by law",
        5 => "TODO comment is a placeholder — implement or formally refuse",
        6 => "FIXME comment is a placeholder — implement or formally refuse",
        7 => "PLACEHOLDER comment — hollow by law",
        8 => "LSP handler returning empty vec — verify not a hollow stub",
        9 => "LSP handler returning None unconditionally — verify not a stub",
        10 => "unreachable!() in reachable code path — review if genuine",
        11 => "Empty closure boxed as implementation — hollow by law",
        12 => "LSP handler returning Ok(vec![]) — empty success is a false-success stub",
        _ => "LSP handler returning Ok(Some(vec![])) — empty Some is a false-success stub",
    }
}

/// Whether each Rust hollow pattern blocks admission. `Ok(None)` and
/// `Ok(Some(vec![]))` are candidates: legitimate handlers return them for
/// optional or empty results, so they call for review but do not block.
pub open spec fn rs_blocking(i: int) -> bool {
    i == 0 || i == 1 || i == 2 || i == 3 || i == 4 || i == 5 || i == 6 || i == 7 || i == 10 || i == 11 || i == 12
}

pub fn rs_blocking_exec(i: usize) -> (r: bool)
    requires
        i < 14,
    ensures
        r == rs_blocking(i as int),
{
    i == 0 || i == 1 || i == 2 || i == 3 || i == 4 || i == 5 || i == 6 || i == 7 || i == 10 || i == 11 || i == 12
}

/// TypeScript/JavaScript hollow patterns (HOLLOW-011).
pub open spec fn ts_pattern(i: int) -> Seq<char> {
    if i == 0 {
        "throw new Error('TODO')"@
    } else if i == 1 {
        "throw new Error(\"TODO\")"@
    } else if i == 2 {
        "throw new Error('not implemented')"@
    } else if i == 3 {
        "throw new Error(\"not implemented\")"@
    } else if i == 4 {
        "throw new Error('FIXME')"@
    } else if i == 5 {
        "throw new Error(\"FIXME\")"@
    } else if i == 6 {
        "// TODO: implement"@
    } else {
        "/* PLACEHOLDER */"@
    }
}

pub fn ts_pattern_exec(i: usize) -> (r: &'static str)
    requires
        i < 8,
    ensures
        r@ == ts_pattern(i as int),
{
    match i {
        0 => "throw new Error('TODO')",
        1 => "throw new Error(\"TODO\")",
        2 => "throw new Error('not implemented')",
        3 => "throw new Error(\"not implemented\")",
        4 => "throw new Error('FIXME')",
        5 => "throw new Error(\"FIXME\")",
        6 => "// TODO: implement",
        _ => "/* PLACEHOLDER */",
    }
}

/// Diagnostic message of each TypeScript hollow pattern.
pub open spec fn ts_message(i: int) -> Seq<char> {
    if i == 0 {
        "TypeScript TODO throw — hollow by law"@
    } else if i == 1 {
        "TypeScript TODO throw — hollow by law"@
    } else if i == 2 {
        "TypeScript not-implemented throw — hollow by law"@
    } else if i == 3 {
        "TypeScript not-implemented throw — hollow by law"@
    } else if i == 4 {
        "TypeScript FIXME throw — hollow by law"@
    } else if i == 5 {
        "TypeScript FIXME throw — hollow by law"@
    } else if i == 6 {
        "TypeScript TODO comment — hollow by law"@
    } else {
        "TypeScript PLACEHOLDER comment — hollow by law"@
    }
}

pub fn ts_message_exec(i: usize) -> (r: &'static str)
    requires
        i < 8,
    ensures
        r@ == ts_message(i as int),
{
    match i {
        0 => "TypeScript TODO throw — hollow by law",
        1 => "TypeScript TODO throw — hollow by law",
        2 => "TypeScript not-implemented throw — hollow by law",
        3 => "TypeScript not-implemented throw — hollow by law",
        4 => "TypeScript FIXME throw — hollow by law",
        5 => "TypeScript FIXME throw — hollow by law",
        6 => "TypeScript TODO comment — hollow by law",
        _ => "TypeScript PLACEHOLDER comment — hollow by law",
    }
}

/// Whether each TypeScript hollow pattern blocks admission.
pub open spec fn ts_blocking(i: int) -> bool {
    i == 0 || i == 1 || i == 2 || i == 3 || i == 4 || i == 5 || i == 6 || i == 7
}

pub fn ts_blocking_exec(i: usize) -> (r: bool)
    requires
        i < 8,
    ensures
        r == ts_blocking(i as int),
{
    i == 0 || i == 1 || i == 2 || i == 3 || i == 4 || i == 5 || i == 6 || i == 7
}

/// Tera template hollow patterns (HOLLOW-012).
pub open spec fn tera_pattern(i: int) -> Seq<char> {
    if i == 0 {
        "{# TODO #}"@
    } else if i == 1 {
        "{# PLACEHOLDER #}"@
    } else {
        "{# FIXME #}"@
    }
}

pub fn tera_pattern_exec(i: usize) -> (r: &'static str)
    requires
        i < 3,
    ensures
        r@ == tera_pattern(i as int),
{
    match i {
        0 => "{# TODO #}",
        1 => "{# PLACEHOLDER #}",
        _ => "{# FIXME #}",
    }
}

/// Diagnostic message of each Tera hollow pattern.
pub open spec fn tera_message(i: int) -> Seq<char> {
    if i == 0 {
        "Tera TODO comment — hollow by law"@
    } else if i == 1 {
        "Tera PLACEHOLDER comment — hollow by law"@
    } else {
        "Tera FIXME comment — hollow by law"@
    }
}

pub fn tera_message_exec(i: usize) -> (r: &'static str)
    requires
        i < 3,
    ensures
        r@ == tera_message(i as int),
{
    match i {
        0 => "Tera TODO comment — hollow by law",
        1 => "Tera PLACEHOLDER comment — hollow by law",
        _ => "Tera FIXME comment — hollow by law",
    }
}

/// Whether each Tera hollow pattern blocks admission.
pub open spec fn tera_blocking(i: int) -> bool {
    i == 0 || i == 1 || i == 2
}

pub fn tera_blocking_exec(i: usize) -> (r: bool)
    requires
        i < 3,
    ensures
        r == tera_blocking(i as int),
{
    i == 0 || i == 1 || i == 2
}


/// The three pattern tables.
#[derive(Clone, Copy, PartialEq, Eq, Debug)]
pub enum HollowTable {
    Rust,
    TypeScript,
    Tera,
}

pub open spec fn table_len(t: HollowTable) -> int {
    match t {
        HollowTable::Rust => 14,
        HollowTable::TypeScript => 8,
        HollowTable::Tera => 3,
    }
}

pub open spec fn table_pattern(t: HollowTable, i: int) -> Seq<char> {
    match t {
        HollowTable::Rust => rs_pattern(i),
        HollowTable::TypeScript => ts_pattern(i),
        HollowTable::Tera => tera_pattern(i),
    }
}

fn table_len_exec(t: HollowTable) -> (n: usize)
    ensures
        n == table_len(t),
{
    match t {
        HollowTable::Rust => 14,
        HollowTable::TypeScript => 8,
        HollowTable::Tera => 3,
    }
}

fn table_pattern_exec(t: HollowTable, i: usize) -> (r: &'static str)
    requires
        i < table_len(t),
    ensures
        r@ == table_pattern(t, i as int),
{
    match t {
        HollowTable::Rust => rs_pattern_exec(i),
        HollowTable::TypeScript => ts_pattern_exec(i),
        HollowTable::Tera => tera_pattern_exec(i),
    }
}

/// The observation recording `pattern` on line `line_num`.
pub open spec fn hollow_obs(file: Seq<char>, line_num: usize, pattern: Seq<char>, line: Seq<char>) -> ObservationView {
    ObservationView {
        file_path: file,
        start_byte: 0,
        end_byte: 0,
        line: line_num,
        column: 1,
        kind: "hollow_smell"@,
        construct: pattern,
        context: line,
        message: "Hollow pattern '"@ + pattern + "' detected on line "@ + decimal(line_num as nat),
    }
}

/// The observations for the first `k` patterns of `t` found on one line.
pub open spec fn line_hits(t: HollowTable, file: Seq<char>, line_num: usize, line: Seq<char>, k: int) -> Seq<ObservationView>
    decreases k,
{
    if k <= 0 {
        Seq::empty()
    } else {
        line_hits(t, file, line_num, line, k - 1) + if contains(line, table_pattern(t, k - 1)) {
            seq![hollow_obs(file, line_num, table_pattern(t, k - 1), line)]
        } else {
            Seq::empty()
        }
    }
}

pub open spec fn scan_upto(t: HollowTable, file: Seq<char>, lines: Seq<Seq<char>>, n: int) -> Seq<ObservationView>
    decreases n,
{
    if n <= 0 {
        Seq::empty()
    } else {
        scan_upto(t, file, lines, n - 1) + line_hits(t, file, n as usize, lines[n - 1], table_len(t))
    }
}

/// Every observation a table scan reports: for each line in order, each
/// pattern of the table (in table order) that the line contains.
pub open spec fn hollow_scan(t: HollowTable, file: Seq<char>, content: Seq<char>) -> Seq<ObservationView> {
    let lines = lines_of(content);
    scan_upto(t, file, lines, lines.len() as int)
}

fn make_hollow_obs(filepath: &str, line_num: usize, pattern: &str, line: &str) -> (o: Observation)
    ensures
        o@ == hollow_obs(filepath@, line_num, pattern@, line@),
{
    let mut message = owned("Hollow pattern '");
    message.append(pattern);
    message.append("' detected on line ");
    push_decimal(&mut message, line_num);
    let o = Observation {
        file_path: owned(filepath),
        start_byte: 0,
        end_byte: 0,
        line: line_num,
        column: 1,
        kind: owned("hollow_smell"),
        construct: owned(pattern),
        context: owned(line),
        message,
    };
    assert(o@.message =~= hollow_obs(filepath@, line_num, pattern@, line@).message);
    o
}

fn scan_table(t: HollowTable, filepath: &str, content: &str) -> (obs: Vec<Observation>)
    ensures
        obs_views(obs@) == hollow_scan(t, filepath@, content@),
{
    let mut obs: Vec<Observation> = Vec::new();
    let c = chars_of(content);
    let lines = lines_chars(c.as_slice());
    let ghost ls = lines_of(content@);
    let n = table_len_exec(t);
    let mut i: usize = 0;
    assert(obs_views(obs@) =~= scan_upto(t, filepath@, ls, 0));
    while i < lines.len()
        invariant
            i <= lines@.len(),
            lines@.len() <= content@.len(),
            n == table_len(t),
            lines@.map_values(|l: Vec<char>| l@) == ls,
            obs_views(obs@) == scan_upto(t, filepath@, ls, i as int),
        decreases lines@.len() - i,
    {
        assert(ls[i as int] == lines@[i as int]@);
        let line_num = i + 1;
        let line_s = string_of(lines[i].as_slice());
        let mut k: usize = 0;
        let ghost base = obs_views(obs@);
        assert(base =~= base + line_hits(t, filepath@, line_num, ls[i as int], 0));
        while k < n
            invariant
                k <= n,
                n == table_len(t),
                i < lines@.len(),
                line_num == i + 1,
                line_s@ == ls[i as int],
                lines@[i as int]@ == ls[i as int],
                obs_views(obs@) == base + line_hits(t, filepath@, line_num, ls[i as int], k as int),
            decreases n - k,
        {
            let p = table_pattern_exec(t, k);
            let pc = chars_of(p);
            let ghost before = obs@;
            if contains_chars(lines[i].as_slice(), pc.as_slice()) {
                let o = make_hollow_obs(filepath, line_num, p, line_s.as_str());
                obs.push(o);
                proof {
                    lemma_obs_views_push(before, o);
                }
            }
            k = k + 1;
            assert(obs_views(obs@) =~= base + line_hits(t, filepath@, line_num, ls[i as int], k as int));
        }
        i = i + 1;
        assert(obs_views(obs@) =~= scan_upto(t, filepath@, ls, i as int));
    }
    obs
}

/// Scans TypeScript/JavaScript source for the HOLLOW-011 patterns.
pub fn scan_for_hollow_ts(filepath: &str, content: &str) -> (obs: Vec<Observation>)
    ensures
        obs_views(obs@) == hollow_scan(HollowTable::TypeScript, filepath@, content@),
{
    scan_table(HollowTable::TypeScript, filepath, content)
}

/// Scans Tera templates for the HOLLOW-012 patterns.
pub fn scan_for_hollow_tera(filepath: &str, content: &str) -> (obs: Vec<Observation>)
    ensures
        obs_views(obs@) == hollow_scan(HollowTable::Tera, filepath@, content@),
{
    scan_table(HollowTable::Tera, filepath, content)
}

/// Scans Rust source line by line for the Rust hollow patterns.
pub fn scan_for_hollow(filepath: &str, content: &str) -> (obs: Vec<Observation>)
    ensures
        obs_views(obs@) == hollow_scan(HollowTable::Rust, filepath@, content@),
{
    scan_table(HollowTable::Rust, filepath, content)
}

// ---------------------------------------------------------------------------
// Evaluation
// ---------------------------------------------------------------------------
/// The table that governs a file, chosen by its extension.
pub open spec fn table_for(file: Seq<char>) -> Option<HollowTable> {
    if ends_with(file, ".rs"@) {
        Some(HollowTable::Rust)
    } else if ends_with(file, ".ts"@) || ends_with(file, ".tsx"@) || ends_with(file, ".js"@) {
        Some(HollowTable::TypeScript)
    } else if ends_with(file, ".tera"@) {
        Some(HollowTable::Tera)
    } else {
        None
    }
}

pub open spec fn table_diag(t: HollowTable, o: ObservationView, i: int) -> DiagnosticView {
    match t {
        HollowTable::Rust => diag(
            rs_code(i),
            "hollow_implementation"@,
            o,
            rs_message(i),
            "Placeholder("@ + trim(rs_pattern(i)) + ") => HollowAdmission"@,
            rs_blocking(i),
            "Replace with real implementation or formal Refuses-by-law declaration"@,
            "Provide transcript + receipt showing real behavior"@,
        ),
        HollowTable::TypeScript => diag(
            "ANTI-LLM-HOLLOW-011"@,
            "hollow_implementation"@,
            o,
            ts_message(i),
            "TsPlaceholder("@ + trim(ts_pattern(i)) + ") => HollowAdmission"@,
            ts_blocking(i),
            "Replace with real implementation or formal Refuses-by-law declaration"@,
            "Provide transcript + receipt showing real behavior"@,
        ),
        HollowTable::Tera => diag(
            "ANTI-LLM-HOLLOW-012"@,
            "hollow_implementation"@,
            o,
            tera_message(i),
            "TeraPlaceholder("@ + trim(tera_pattern(i)) + ") => HollowAdmission"@,
            tera_blocking(i),
            "Replace with real Tera template content or formal Refuses-by-law declaration"@,
            "Provide transcript + receipt showing real template behavior"@,
        ),
    }
}

pub open spec fn obs_hits(o: ObservationView, p: Seq<char>) -> bool {
    contains(o.context, p) || contains(o.construct, p)
}

pub open spec fn table_diags(t: HollowTable, o: ObservationView, k: int) -> Seq<DiagnosticView>
    decreases k,
{
    if k <= 0 {
        Seq::empty()
    } else {
        table_diags(t, o, k - 1) + if obs_hits(o, table_pattern(t, k - 1)) {
            seq![table_diag(t, o, k - 1)]
        } else {
            Seq::empty()
        }
    }
}

/// The diagnostics for one observation.
pub open spec fn hollow_eval_one(o: ObservationView, config: AntiLlmConfig) -> Seq<DiagnosticView> {
    if config.allows_suppression(o.file_path) {
        Seq::empty()
    } else {
        match table_for(o.file_path) {
            Some(t) => table_diags(t, o, table_len(t)),
            None => Seq::empty(),
        }
    }
}

pub open spec fn hollow_eval_upto(obs: Seq<ObservationView>, config: AntiLlmConfig, n: int) -> Seq<DiagnosticView>
    decreases n,
{
    if n <= 0 {
        Seq::empty()
    } else {
        hollow_eval_upto(obs, config, n - 1) + hollow_eval_one(obs[n - 1], config)
    }
}

fn table_for_exec(file: &str) -> (r: Option<HollowTable>)
    ensures
        r == table_for(file@),
{
    let f = chars_of(file);
    if ends_with_chars(f.as_slice(), chars_of(".rs").as_slice()) {
        Some(HollowTable::Rust)
    } else if ends_with_chars(f.as_slice(), chars_of(".ts").as_slice()) || ends_with_chars(
        f.as_slice(),
        chars_of(".tsx").as_slice(),
    ) || ends_with_chars(f.as_slice(), chars_of(".js").as_slice()) {
        Some(HollowTable::TypeScript)
    } else if ends_with_chars(f.as_slice(), chars_of(".tera").as_slice()) {
        Some(HollowTable::Tera)
    } else {
        None
    }
}

fn trimmed_string(p: &str) -> (r: String)
    ensures
        r@ == trim(p@),
{
    let pc = chars_of(p);
    let t = trim_chars(pc.as_slice());
    string_of(t.as_slice())
}

fn make_table_diag(t: HollowTable, o: &Observation, i: usize) -> (d: AntiLlmDiagnostic)
    requires
        i < table_len(t),
    ensures
        d@ == table_diag(t, o@, i as int),
{
    let p = trimmed_string(table_pattern_exec(t, i));
    match t {
        HollowTable::Rust => {
            let mut forbidden = owned("Placeholder(");
            forbidden.append(p.as_str());
            forbidden.append(") => HollowAdmission");
            AntiLlmDiagnostic {
                code: owned(rs_code_exec(i)),
                category: owned("hollow_implementation"),
                file_path: o.file_path.clone(),
                line: o.line,
                column: o.column,
                message: owned(rs_message_exec(i)),
                forbidden_implication: forbidden,
                blocking: rs_blocking_exec(i),
                required_correction: owned("Replace with real implementation or formal Refuses-by-law declaration"),
                required_next_proof: owned("Provide transcript + receipt showing real behavior"),
            }
        },
        HollowTable::TypeScript => {
            let mut forbidden = owned("TsPlaceholder(");
            forbidden.append(p.as_str());
            forbidden.append(") => HollowAdmission");
            AntiLlmDiagnostic {
                code: owned("ANTI-LLM-HOLLOW-011"),
                category: owned("hollow_implementation"),
                file_path: o.file_path.clone(),
                line: o.line,
                column: o.column,
                message: owned(ts_message_exec(i)),
                forbidden_implication: forbidden,
                blocking: ts_blocking_exec(i),
                required_correction: owned("Replace with real implementation or formal Refuses-by-law declaration"),
                required_next_proof: owned("Provide transcript + receipt showing real behavior"),
            }
        },
        HollowTable::Tera => {
            let mut forbidden = owned("TeraPlaceholder(");
            forbidden.append(p.as_str());
            forbidden.append(") => HollowAdmission");
            AntiLlmDiagnostic {
                code: owned("ANTI-LLM-HOLLOW-012"),
                category: owned("hollow_implementation"),
                file_path: o.file_path.clone(),
                line: o.line,
                column: o.column,
                message: owned(tera_message_exec(i)),
                forbidden_implication: forbidden,
                blocking: tera_blocking_exec(i),
                required_correction: owned("Replace with real Tera template content or formal Refuses-by-law declaration"),
                required_next_proof: owned("Provide transcript + receipt showing real template behavior"),
            }
        },
    }
}

/// Hollow-implementation diagnostics: for each unsuppressed observation, one
/// diagnostic per pattern of its file's table that its context or construct contains.
pub fn evaluate(obs: &[Observation], config: &AntiLlmConfig) -> (diags: Vec<AntiLlmDiagnostic>)
    ensures
        diag_views(diags@) == hollow_eval_upto(obs_views(obs@), *config, obs@.len() as int),
        forall|k: int| 0 <= k < diags@.len() && candidate_code(#[trigger] diags@[k].code@) ==> !diags@[k].blocking,
        forall|k: int| 0 <= k < diags@.len() ==> ((#[trigger] diags@[k]).blocking <==> !review_only_code(diags@[k].code@)),
{
    let mut diags: Vec<AntiLlmDiagnostic> = Vec::new();
    let ghost ov = obs_views(obs@);
    let mut i: usize = 0;
    assert(diag_views(diags@) =~= hollow_eval_upto(ov, *config, 0));
    while i < obs.len()
        invariant
            i <= obs@.len(),
            ov == obs_views(obs@),
            diag_views(diags@) == hollow_eval_upto(ov, *config, i as int),
        decreases obs@.len() - i,
    {
        let o = &obs[i];
        assert(ov[i as int] == o@);
        let ghost base = diag_views(diags@);
        if !config.is_suppression_allowed(o.file_path.as_str()) {
            match table_for_exec(o.file_path.as_str()) {
                Some(t) => {
                    let n = table_len_exec(t);
                    let ctx = chars_of(o.context.as_str());
                    let cons = chars_of(o.construct.as_str());
                    let mut k: usize = 0;
                    assert(base =~= base + table_diags(t, o@, 0));
                    while k < n
                        invariant
                            k <= n,
                            n == table_len(t),
                            ctx@ == o@.context,
                            cons@ == o@.construct,
                            diag_views(diags@) == base + table_diags(t, o@, k as int),
                        decreases n - k,
                    {
                        let pc = chars_of(table_pattern_exec(t, k));
                        let ghost before = diags@;
                        if contains_chars(ctx.as_slice(), pc.as_slice()) || contains_chars(cons.as_slice(), pc.as_slice()) {
                            let d = make_table_diag(t, o, k);
                            diags.push(d);
                            proof {
                                lemma_diag_views_push(before, d);
                            }
                        }
                        k = k + 1;
                        assert(diag_views(diags@) =~= base + table_diags(t, o@, k as int));
                    }
                },
                None => {},
            }
        }
        assert(diag_views(diags@) =~= hollow_eval_upto(ov, *config, i + 1));
        i = i + 1;
    }
    proof {
        lemma_empty_some_never_blocks(ov, *config, obs@.len() as int);
        lemma_hollow_blocking(ov, *config, obs@.len() as int);
        assert forall|k: int| 0 <= k < diags@.len() implies ((#[trigger] diags@[k]).blocking <==> !review_only_code(diags@[k].code@)) by {
            assert(diag_views(diags@)[k] == diags@[k]@);
        }
        assert forall|k: int| 0 <= k < diags@.len() && candidate_code(#[trigger] diags@[k].code@) implies !diags@[k].blocking by {
            assert(diag_views(diags@)[k] == diags@[k]@);
        }
    }
    diags
}

proof fn lemma_table_diags_at(t: HollowTable, o: ObservationView, k: int)
    ensures
        forall|m: int|
            0 <= m < table_diags(t, o, k).len() ==> (#[trigger] table_diags(t, o, k)[m]).file_path == o.file_path,
    decreases k,
{
    if k > 0 {
        lemma_table_diags_at(t, o, k - 1);
        let prev = table_diags(t, o, k - 1);
        let all = table_diags(t, o, k);
        assert forall|m: int| 0 <= m < all.len() implies (#[trigger] all[m]).file_path == o.file_path by {
            if m < prev.len() {
                assert(all[m] == prev[m]);
            }
        }
    }
}

/// Findings in a path that the configuration suppresses are never diagnosed.
pub proof fn lemma_hollow_respects_suppression(obs: Seq<ObservationView>, config: AntiLlmConfig, n: int)
    ensures
        forall|k: int|
            0 <= k < hollow_eval_upto(obs, config, n).len() ==> !config.allows_suppression(
                (#[trigger] hollow_eval_upto(obs, config, n)[k]).file_path,
            ),
    decreases n,
{
    if n > 0 {
        lemma_hollow_respects_suppression(obs, config, n - 1);
        let o = obs[n - 1];
        if let Some(t) = table_for(o.file_path) {
            lemma_table_diags_at(t, o, table_len(t));
        }
        let prev = hollow_eval_upto(obs, config, n - 1);
        let cur = hollow_eval_one(o, config);
        let all = hollow_eval_upto(obs, config, n);
        assert forall|k: int| 0 <= k < all.len() implies !config.allows_suppression((#[trigger] all[k]).file_path) by {
            if k < prev.len() {
                assert(all[k] == prev[k]);
            } else {
                assert(all[k] == cur[k - prev.len()]);
            }
        }
    }
}

/// The codes of the candidate patterns (`Ok(Some(vec![]))` as HOLLOW-007 and
/// HOLLOW-014), whose diagnostics call for review but never block.
pub open spec fn candidate_code(code: Seq<char>) -> bool {
    code == "ANTI-LLM-HOLLOW-007"@ || code == "ANTI-LLM-HOLLOW-014"@
}

proof fn lemma_table_candidates(t: HollowTable, o: ObservationView, k: int)
    requires
        k <= table_len(t),
    ensures
        forall|m: int|
            0 <= m < table_diags(t, o, k).len() && candidate_code((#[trigger] table_diags(t, o, k)[m]).code)
                ==> !table_diags(t, o, k)[m].blocking,
    decreases k,
{
    if k > 0 {
        lemma_table_candidates(t, o, k - 1);
        reveal_strlit("ANTI-LLM-HOLLOW-001");
        reveal_strlit("ANTI-LLM-HOLLOW-002");
        reveal_strlit("ANTI-LLM-HOLLOW-003");
        reveal_strlit("ANTI-LLM-HOLLOW-004");
        reveal_strlit("ANTI-LLM-HOLLOW-005");
        reveal_strlit("ANTI-LLM-HOLLOW-006");
        reveal_strlit("ANTI-LLM-HOLLOW-007");
        reveal_strlit("ANTI-LLM-HOLLOW-008");
        reveal_strlit("ANTI-LLM-HOLLOW-009");
        reveal_strlit("ANTI-LLM-HOLLOW-010");
        reveal_strlit("ANTI-LLM-HOLLOW-011");
        reveal_strlit("ANTI-LLM-HOLLOW-012");
        reveal_strlit("ANTI-LLM-HOLLOW-013");
        reveal_strlit("ANTI-LLM-HOLLOW-014");
        let prev = table_diags(t, o, k - 1);
        let all = table_diags(t, o, k);
        let d = table_diag(t, o, k - 1);
        let c7 = "ANTI-LLM-HOLLOW-007"@;
        let c14 = "ANTI-LLM-HOLLOW-014"@;
        assert(c7[17] == '0' && c7[18] == '7');
        assert(c14[17] == '1' && c14[18] == '4');
        if candidate_code(d.code) {
            assert(d.code[17] == c7[17] && d.code[18] == c7[18] || d.code[17] == c14[17] && d.code[18] == c14[18]);
            match t {
                HollowTable::Rust => {
                    let i = k - 1;
                    assert(i == 8 || i == 13) by {
                        let c = rs_code(i);
                        if i != 8 && i != 13 {
                            assert(!(c[17] == '0' && c[18] == '7') && !(c[17] == '1' && c[18] == '4'));
                        }
                    }
                },
                HollowTable::TypeScript => {
                    let c = "ANTI-LLM-HOLLOW-011"@;
                    assert(c[17] == '1' && c[18] == '1');
                },
                HollowTable::Tera => {
                    let c = "ANTI-LLM-HOLLOW-012"@;
                    assert(c[17] == '1' && c[18] == '2');
                },
            }
        }
        assert(candidate_code(d.code) ==> !d.blocking);
        assert forall|m: int| 0 <= m < all.len() && candidate_code((#[trigger] all[m]).code) implies !all[m].blocking by {
            if m < prev.len() {
                assert(all[m] == prev[m]);
            } else {
                assert(all[m] == d);
            }
        }
    }
}

/// `Ok(Some(vec![]))` is a candidate: no diagnostic under its codes
/// (HOLLOW-007, HOLLOW-014) blocks admission.
pub proof fn lemma_empty_some_never_blocks(obs: Seq<ObservationView>, config: AntiLlmConfig, n: int)
    ensures
        forall|k: int|
            0 <= k < hollow_eval_upto(obs, config, n).len() && candidate_code(
                (#[trigger] hollow_eval_upto(obs, config, n)[k]).code,
            ) ==> !hollow_eval_upto(obs, config, n)[k].blocking,
    decreases n,
{
    if n > 0 {
        lemma_empty_some_never_blocks(obs, config, n - 1);
        let o = obs[n - 1];
        if let Some(t) = table_for(o.file_path) {
            lemma_table_candidates(t, o, table_len(t));
        }
        let prev = hollow_eval_upto(obs, config, n - 1);
        let cur = hollow_eval_one(o, config);
        let all = hollow_eval_upto(obs, config, n);
        assert forall|k: int| 0 <= k < all.len() && candidate_code((#[trigger] all[k]).code) implies !all[k].blocking by {
            if k < prev.len() {
                assert(all[k] == prev[k]);
            } else {
                assert(all[k] == cur[k - prev.len()]);
            }
        }
    }
}

proof fn lemma_table_diags_from(t: HollowTable, o: ObservationView, k: int)
    ensures
        forall|m: int|
            0 <= m < table_diags(t, o, k).len() ==> exists|i: int|
                0 <= i < k && #[trigger] table_diags(t, o, k)[m] == table_diag(t, o, i),
    decreases k,
{
    if k > 0 {
        lemma_table_diags_from(t, o, k - 1);
        let prev = table_diags(t, o, k - 1);
        let all = table_diags(t, o, k);
        assert forall|m: int| 0 <= m < all.len() implies exists|i: int|
            0 <= i < k && #[trigger] all[m] == table_diag(t, o, i) by {
            if m < prev.len() {
                assert(all[m] == prev[m]);
                let i = choose|i: int| 0 <= i < k - 1 && #[trigger] prev[m] == table_diag(t, o, i);
                assert(all[m] == table_diag(t, o, i));
            } else {
                assert(all[m] == table_diag(t, o, k - 1));
            }
        }
    }
}

/// Hollow routing by file type: a suppressed path, or one that is neither Rust,
/// TypeScript/JavaScript nor Tera, draws nothing; TypeScript and JavaScript
/// observations draw only HOLLOW-011, Tera ones only HOLLOW-012, and Rust ones
/// only the codes of the Rust table. Every diagnostic is a
/// `hollow_implementation` at its observation's place.
pub proof fn lemma_hollow_routing(o: ObservationView, config: AntiLlmConfig)
    ensures
        config.allows_suppression(o.file_path) || table_for(o.file_path) is None ==> hollow_eval_one(o, config).len() == 0,
        forall|m: int| 0 <= m < hollow_eval_one(o, config).len() ==> {
            let d = #[trigger] hollow_eval_one(o, config)[m];
            &&& d.category == "hollow_implementation"@
            &&& d.file_path == o.file_path && d.line == o.line && d.column == o.column
            &&& table_for(o.file_path) == Some(HollowTable::TypeScript) ==> d.code == "ANTI-LLM-HOLLOW-011"@
            &&& table_for(o.file_path) == Some(HollowTable::Tera) ==> d.code == "ANTI-LLM-HOLLOW-012"@
            &&& table_for(o.file_path) == Some(HollowTable::Rust) ==> exists|i: int| 0 <= i < 14 && d.code == #[trigger] rs_code(i)
        },
{
    if !config.allows_suppression(o.file_path) {
        if let Some(t) = table_for(o.file_path) {
            lemma_table_diags_from(t, o, table_len(t));
            let ds = hollow_eval_one(o, config);
            assert forall|m: int| 0 <= m < ds.len() implies {
                let d = #[trigger] ds[m];
                &&& d.category == "hollow_implementation"@
                &&& d.file_path == o.file_path && d.line == o.line && d.column == o.column
                &&& table_for(o.file_path) == Some(HollowTable::TypeScript) ==> d.code == "ANTI-LLM-HOLLOW-011"@
                &&& table_for(o.file_path) == Some(HollowTable::Tera) ==> d.code == "ANTI-LLM-HOLLOW-012"@
                &&& table_for(o.file_path) == Some(HollowTable::Rust) ==> exists|i: int| 0 <= i < 14 && d.code == #[trigger] rs_code(i)
            } by {
                let i = choose|i: int| 0 <= i < table_len(t) && #[trigger] ds[m] == table_diag(t, o, i);
                if t == HollowTable::Rust {
                    assert(ds[m].code == rs_code(i));
                }
            }
        }
    }
}

/// The candidate codes: `Ok(Some(vec![]))` (HOLLOW-007, HOLLOW-014) and
/// `Ok(None)` (HOLLOW-008), results legitimate handlers give.
pub open spec fn review_only_code(code: Seq<char>) -> bool {
    code == "ANTI-LLM-HOLLOW-007"@ || code == "ANTI-LLM-HOLLOW-008"@ || code == "ANTI-LLM-HOLLOW-014"@
}

proof fn lemma_table_blocking(t: HollowTable, o: ObservationView, k: int)
    requires
        k <= table_len(t),
    ensures
        forall|m: int|
            0 <= m < table_diags(t, o, k).len() ==> ((#[trigger] table_diags(t, o, k)[m]).blocking <==> !review_only_code(
                table_diags(t, o, k)[m].code,
            )),
    decreases k,
{
    if k > 0 {
        lemma_table_blocking(t, o, k - 1);
        reveal_strlit("ANTI-LLM-HOLLOW-001");
        reveal_strlit("ANTI-LLM-HOLLOW-002");
        reveal_strlit("ANTI-LLM-HOLLOW-003");
        reveal_strlit("ANTI-LLM-HOLLOW-004");
        reveal_strlit("ANTI-LLM-HOLLOW-005");
        reveal_strlit("ANTI-LLM-HOLLOW-006");
        reveal_strlit("ANTI-LLM-HOLLOW-007");
        reveal_strlit("ANTI-LLM-HOLLOW-008");
        reveal_strlit("ANTI-LLM-HOLLOW-009");
        reveal_strlit("ANTI-LLM-HOLLOW-010");
        reveal_strlit("ANTI-LLM-HOLLOW-011");
        reveal_strlit("ANTI-LLM-HOLLOW-012");
        reveal_strlit("ANTI-LLM-HOLLOW-013");
        reveal_strlit("ANTI-LLM-HOLLOW-014");
        let prev = table_diags(t, o, k - 1);
        let all = table_diags(t, o, k);
        let d = table_diag(t, o, k - 1);
        let c7 = "ANTI-LLM-HOLLOW-007"@;
        let c8 = "ANTI-LLM-HOLLOW-008"@;
        let c14 = "ANTI-LLM-HOLLOW-014"@;
        assert(c7[17] == '0' && c7[18] == '7');
        assert(c8[17] == '0' && c8[18] == '8');
        assert(c14[17] == '1' && c14[18] == '4');
        assert(d.blocking <==> !review_only_code(d.code)) by {
            match t {
                HollowTable::Rust => {
                    let i = k - 1;
                    let c = rs_code(i);
                    if i == 8 {
                        assert(c == c7);
                    } else if i == 9 {
                        assert(c == c8);
                    } else if i == 13 {
                        assert(c == c14);
                    } else {
                        assert(!(c[17] == '0' && c[18] == '7') && !(c[17] == '0' && c[18] == '8') && !(c[17] == '1'
                            && c[18] == '4'));
                        assert(c != c7 && c != c8 && c != c14);
                    }
                },
                HollowTable::TypeScript => {
                    let c = "ANTI-LLM-HOLLOW-011"@;
                    assert(c[17] == '1' && c[18] == '1');
                    assert(c != c7 && c != c8 && c != c14);
                },
                HollowTable::Tera => {
                    let c = "ANTI-LLM-HOLLOW-012"@;
                    assert(c[17] == '1' && c[18] == '2');
                    assert(c != c7 && c != c8 && c != c14);
                },
            }
        }
        assert forall|m: int| 0 <= m < all.len() implies ((#[trigger] all[m]).blocking <==> !review_only_code(all[m].code)) by {
            if m < prev.len() {
                assert(all[m] == prev[m]);
            } else {
                assert(all[m] == d);
            }
        }
    }
}

/// Hollow diagnostics block admission, except the candidates `Ok(None)`
/// (HOLLOW-008) and `Ok(Some(vec![]))` (HOLLOW-007, HOLLOW-014), which call
/// for review only: every other hollow pattern (`unimplemented!()`,
/// `todo!()`, panic stubs, TODO/FIXME/PLACEHOLDER comments, `unreachable!()`,
/// an empty boxed closure, `Ok(vec![])`, and every TypeScript and Tera
/// placeholder) is blocking.
pub proof fn lemma_hollow_blocking(obs: Seq<ObservationView>, config: AntiLlmConfig, n: int)
    ensures
        forall|k: int|
            0 <= k < hollow_eval_upto(obs, config, n).len() ==> ((#[trigger] hollow_eval_upto(obs, config, n)[k]).blocking
                <==> !review_only_code(hollow_eval_upto(obs, config, n)[k].code)),
    decreases n,
{
    if n > 0 {
        lemma_hollow_blocking(obs, config, n - 1);
        let o = obs[n - 1];
        if let Some(t) = table_for(o.file_path) {
            lemma_table_blocking(t, o, table_len(t));
        }
        let prev = hollow_eval_upto(obs, config, n - 1);
        let cur = hollow_eval_one(o, config);
        let all = hollow_eval_upto(obs, config, n);
        assert forall|k: int| 0 <= k < all.len() implies ((#[trigger] all[k]).blocking <==> !review_only_code(all[k].code)) by {
            if k < prev.len() {
                assert(all[k] == prev[k]);
            } else {
                assert(all[k] == cur[k - prev.len()]);
            }
        }
    }
}

proof fn lemma_table_diags_cover(t: HollowTable, o: ObservationView, k: int)
    requires
        k <= table_len(t),
    ensures
        forall|i: int| 0 <= i < k && obs_hits(o, #[trigger] table_pattern(t, i)) ==> table_diags(t, o, k).contains(table_diag(t, o, i)),
    decreases k,
{
    if k > 0 {
        lemma_table_diags_cover(t, o, k - 1);
        let prev = table_diags(t, o, k - 1);
        let all = table_diags(t, o, k);
        assert forall|i: int| 0 <= i < k && obs_hits(o, #[trigger] table_pattern(t, i)) implies all.contains(table_diag(t, o, i)) by {
            if i < k - 1 {
                let m = choose|m: int| 0 <= m < prev.len() && prev[m] == table_diag(t, o, i);
                assert(all[m] == prev[m]);
            } else {
                assert(all[all.len() - 1] == table_diag(t, o, i));
            }
        }
    }
}

/// A diagnostic of `ds` has code `code` and blocking flag `blocking`.
pub open spec fn has_diag(ds: Seq<DiagnosticView>, code: Seq<char>, blocking: bool) -> bool {
    exists|k: int| 0 <= k < ds.len() && (#[trigger] ds[k]).code == code && ds[k].blocking == blocking
}

/// The Rust hollow patterns: an unsuppressed observation of a `.rs` file
/// whose context or construct holds a pattern draws its diagnostic:
/// `unimplemented!()` HOLLOW-001, `todo!()` and `todo!("` HOLLOW-002,
/// `panic!("not implemented")` and `panic!("TODO")` HOLLOW-003, `// TODO:`
/// HOLLOW-004, `// FIXME:` HOLLOW-005, `// PLACEHOLDER` HOLLOW-006,
/// `unreachable!()` HOLLOW-009, `Box::new(|| {})` HOLLOW-010 and `Ok(vec![])`
/// HOLLOW-013, all blocking; `Ok(Some(vec![]))` HOLLOW-007 and HOLLOW-014 and
/// `Ok(None)` HOLLOW-008, for review only.
pub proof fn lemma_rust_hollow_patterns(o: ObservationView, config: AntiLlmConfig)
    requires
        !config.allows_suppression(o.file_path),
        ends_with(o.file_path, ".rs"@),
    ensures
        ({
            let ds = hollow_eval_one(o, config);
            &&& obs_hits(o, "unimplemented!()"@) ==> has_diag(ds, "ANTI-LLM-HOLLOW-001"@, true)
            &&& obs_hits(o, "todo!()"@) ==> has_diag(ds, "ANTI-LLM-HOLLOW-002"@, true)
            &&& obs_hits(o, "todo!(\""@) ==> has_diag(ds, "ANTI-LLM-HOLLOW-002"@, true)
            &&& obs_hits(o, "panic!(\"not implemented\")"@) ==> has_diag(ds, "ANTI-LLM-HOLLOW-003"@, true)
            &&& obs_hits(o, "panic!(\"TODO\")"@) ==> has_diag(ds, "ANTI-LLM-HOLLOW-003"@, true)
            &&& obs_hits(o, "// TODO:"@) ==> has_diag(ds, "ANTI-LLM-HOLLOW-004"@, true)
            &&& obs_hits(o, "// FIXME:"@) ==> has_diag(ds, "ANTI-LLM-HOLLOW-005"@, true)
            &&& obs_hits(o, "// PLACEHOLDER"@) ==> has_diag(ds, "ANTI-LLM-HOLLOW-006"@, true)
            &&& obs_hits(o, "Ok(Some(vec![]))"@) ==> has_diag(ds, "ANTI-LLM-HOLLOW-007"@, false) && has_diag(
                ds,
                "ANTI-LLM-HOLLOW-014"@,
                false,
            )
            &&& obs_hits(o, "Ok(None)"@) ==> has_diag(ds, "ANTI-LLM-HOLLOW-008"@, false)
            &&& obs_hits(o, "unreachable!()"@) ==> has_diag(ds, "ANTI-LLM-HOLLOW-009"@, true)
            &&& obs_hits(o, "Box::new(|| {})"@) ==> has_diag(ds, "ANTI-LLM-HOLLOW-010"@, true)
            &&& obs_hits(o, "Ok(vec![])"@) ==> has_diag(ds, "ANTI-LLM-HOLLOW-013"@, true)
        }),
{
    assert(table_for(o.file_path) == Some(HollowTable::Rust));
    lemma_table_diags_cover(HollowTable::Rust, o, 14);
    let ds = hollow_eval_one(o, config);
    assert(ds == table_diags(HollowTable::Rust, o, 14));
    assert forall|i: int| 0 <= i < 14 && obs_hits(o, #[trigger] rs_pattern(i)) implies has_diag(ds, rs_code(i), rs_blocking(i)) by {
        assert(table_pattern(HollowTable::Rust, i) == rs_pattern(i));
        assert(ds.contains(table_diag(HollowTable::Rust, o, i)));
        let m = choose|m: int| 0 <= m < ds.len() && ds[m] == table_diag(HollowTable::Rust, o, i);
        assert(ds[m].code == rs_code(i) && ds[m].blocking == rs_blocking(i));
    }
    assert(rs_pattern(0) == "unimplemented!()"@);
    assert(rs_pattern(1) == "todo!()"@);
    assert(rs_pattern(2) == "todo!(\""@);
    assert(rs_pattern(3) == "panic!(\"not implemented\")"@);
    assert(rs_pattern(4) == "panic!(\"TODO\")"@);
    assert(rs_pattern(5) == "// TODO:"@);
    assert(rs_pattern(6) == "// FIXME:"@);
    assert(rs_pattern(7) == "// PLACEHOLDER"@);
    assert(rs_pattern(8) == "Ok(Some(vec![]))"@);
    assert(rs_pattern(9) == "Ok(None)"@);
    assert(rs_pattern(10) == "unreachable!()"@);
    assert(rs_pattern(11) == "Box::new(|| {})"@);
    assert(rs_pattern(12) == "Ok(vec![])"@);
    assert(rs_pattern(13) == "Ok(Some(vec![]))"@);
}

} // verus!
