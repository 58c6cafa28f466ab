//! DEAD-ALT-001: a "correct alternative" function (`foo_v2`, `foo_fixed`, ...)
//! that is defined but never referenced, while the broken primary stays in use.
use vstd::prelude::*;

use crate::config::AntiLlmConfig;
use crate::diagnostics::{diag, diag_views, lemma_diag_views_push, AntiLlmDiagnostic, DiagnosticView};
use crate::observations::{lemma_obs_views_push, obs_views, Observation, ObservationView};
use crate::text::{
    chars_of, char_is_ws, eq_text, contains, contains_chars, decimal, ends_with, ends_with_chars, find,
    find_chars, is_ws, lines_chars, lines_of, matches_at, owned, push_decimal, slice_vec,
    starts_with, starts_with_chars, string_of, trim_start, trim_start_chars,
};

verus! {

/// Number of "alternative" suffixes.
pub const ALT_SUFFIX_COUNT: usize = 10;

/// The suffixes that mark a function as a replacement for a primary.
pub open spec fn alt_suffix_spec(i: int) -> Seq<char> {
    if i == 0 {
        "_v2"@
    } else if i == 1 {
        "_v3"@
    } else if i == 2 {
        "_alt"@
    } else if i == 3 {
        "_correct"@
    } else if i == 4 {
        "_real"@
    } else if i == 5 {
        "_proper"@
    } else if i == 6 {
        "_fixed"@
    } else if i == 7 {
        "_working"@
    } else if i == 8 {
        "_new"@
    } else {
        "_better"@
    }
}

pub fn alt_suffix(i: usize) -> (r: &'static str)
    requires
        i < ALT_SUFFIX_COUNT,
    ensures
        r@ == alt_suffix_spec(i as int),
{
    match i {
        0 => "_v2",
        1 => "_v3",
        2 => "_alt",
        3 => "_correct",
        4 => "_real",
        5 => "_proper",
        6 => "_fixed",
        7 => "_working",
        8 => "_new",
        _ => "_better",
    }
}

/// `char::is_alphanumeric` (Unicode `Alphabetic` or `Numeric`).
pub uninterp spec fn unicode_alphanumeric(c: char) -> bool;

/// Calls `char::is_alphanumeric`; the result is `unicode_alphanumeric(c)`. On
/// ASCII it is true exactly for the letters and digits (ASCII has no other
/// alphabetic or numeric characters).
#[verifier::external_body]
fn is_alphanumeric(c: char) -> (b: bool)
    ensures
        b == unicode_alphanumeric(c),
        (c as u32) < 128 ==> (b <==> (('0' <= c && c <= '9') || ('a' <= c && c <= 'z') || ('A' <= c && c <= 'Z'))),
{
    c.is_alphanumeric()
}

pub open spec fn ident_char(c: char) -> bool {
    unicode_alphanumeric(c) || c == '_'
}

/// Length of the identifier prefix of `s`.
pub open spec fn ident_end(s: Seq<char>) -> nat
    decreases s.len(),
{
    if s.len() > 0 && ident_char(s[0]) {
        1 + ident_end(s.drop_first())
    } else {
        0
    }
}

pub open spec fn starts_with_ws(s: Seq<char>) -> bool {
    s.len() > 0 && is_ws(s[0])
}

/// Strips a leading `pub(...)` or `pub`; `None` when `pub(` has no closing paren.
pub open spec fn strip_visibility(s: Seq<char>) -> Option<Seq<char>> {
    if starts_with(s, "pub("@) {
        match find(s, ")"@) {
            Some(c) => Some(trim_start(s.skip(c + 1))),
            None => None,
        }
    } else if starts_with(s, "pub"@) {
        Some(trim_start(s.skip("pub"@.len() as int)))
    } else {
        Some(s)
    }
}

/// Strips up to `n` `async` / `unsafe` / `extern ...` modifiers.
pub open spec fn strip_modifiers(s: Seq<char>, n: nat) -> Option<Seq<char>>
    decreases n,
{
    if n == 0 {
        Some(s)
    } else if starts_with(s, "async"@) && starts_with_ws(s.skip("async"@.len() as int)) {
        strip_modifiers(trim_start(s.skip("async"@.len() as int)), (n - 1) as nat)
    } else if starts_with(s, "unsafe"@) && starts_with_ws(s.skip("unsafe"@.len() as int)) {
        strip_modifiers(trim_start(s.skip("unsafe"@.len() as int)), (n - 1) as nat)
    } else if starts_with(s, "extern"@) {
        match find(s, "fn "@) {
            Some(p) => Some(s.skip(p)),
            None => None,
        }
    } else {
        Some(s)
    }
}

/// The function name declared by a (left-trimmed) line, if it declares one.
pub open spec fn spec_extract_fn_name(t: Seq<char>) -> Option<Seq<char>> {
    match strip_visibility(t) {
        None => None,
        Some(a) => match strip_modifiers(a, 4) {
            None => None,
            Some(b) => if !starts_with(b, "fn "@) {
                None
            } else {
                let c = trim_start(b.skip("fn "@.len() as int));
                let e = ident_end(c);
                if e == 0 {
                    None
                } else {
                    Some(c.take(e as int))
                }
            },
        },
    }
}

pub open spec fn has_alt_suffix(name: Seq<char>) -> bool {
    exists|i: int| 0 <= i < ALT_SUFFIX_COUNT && (name == alt_suffix_spec(i) || ends_with(name, alt_suffix_spec(i)))
}

/// The alternative suffixes: a name marks a replacement for a primary exactly
/// when it ends with `_v2`, `_v3`, `_alt`, `_correct`, `_real`, `_proper`,
/// `_fixed`, `_working`, `_new` or `_better`.
pub proof fn lemma_alt_suffixes(name: Seq<char>)
    ensures
        has_alt_suffix(name) <==> (ends_with(name, "_v2"@) || ends_with(name, "_v3"@) || ends_with(name, "_alt"@)
            || ends_with(name, "_correct"@) || ends_with(name, "_real"@) || ends_with(name, "_proper"@) || ends_with(
            name,
            "_fixed"@,
        ) || ends_with(name, "_working"@) || ends_with(name, "_new"@) || ends_with(name, "_better"@)),
{
    if has_alt_suffix(name) {
        let i = choose|i: int| 0 <= i < ALT_SUFFIX_COUNT && (name == alt_suffix_spec(i) || ends_with(name, alt_suffix_spec(i)));
        if name == alt_suffix_spec(i) {
            assert(name.skip(0) =~= name);
        }
    }
    if ends_with(name, "_v2"@) { assert(alt_suffix_spec(0) == "_v2"@); }
    if ends_with(name, "_v3"@) { assert(alt_suffix_spec(1) == "_v3"@); }
    if ends_with(name, "_alt"@) { assert(alt_suffix_spec(2) == "_alt"@); }
    if ends_with(name, "_correct"@) { assert(alt_suffix_spec(3) == "_correct"@); }
    if ends_with(name, "_real"@) { assert(alt_suffix_spec(4) == "_real"@); }
    if ends_with(name, "_proper"@) { assert(alt_suffix_spec(5) == "_proper"@); }
    if ends_with(name, "_fixed"@) { assert(alt_suffix_spec(6) == "_fixed"@); }
    if ends_with(name, "_working"@) { assert(alt_suffix_spec(7) == "_working"@); }
    if ends_with(name, "_new"@) { assert(alt_suffix_spec(8) == "_new"@); }
    if ends_with(name, "_better"@) { assert(alt_suffix_spec(9) == "_better"@); }
}

/// Some line other than `idx` mentions `name`.
pub open spec fn referenced_elsewhere(lines: Seq<Seq<char>>, idx: int, name: Seq<char>) -> bool {
    exists|j: int| 0 <= j < lines.len() && j != idx && contains(lines[j], name)
}

pub open spec fn dead_alt_message(name: Seq<char>, line: nat) -> Seq<char> {
    "Dead alternative function '"@ + name + "' defined on line "@ + decimal(line) + " but never called"@
}

/// The observation, if any, for line `idx` (0-based) of `lines`.
pub open spec fn dead_alt_line(file: Seq<char>, lines: Seq<Seq<char>>, idx: int) -> Seq<ObservationView> {
    match spec_extract_fn_name(trim_start(lines[idx])) {
        None => Seq::empty(),
        Some(name) => if has_alt_suffix(name) && !referenced_elsewhere(lines, idx, name) {
            seq![ObservationView {
                file_path: file,
                start_byte: 0,
                end_byte: 0,
                line: (idx + 1) as usize,
                column: 1,
                kind: "dead_alt_smell"@,
                construct: name,
                context: lines[idx],
                message: dead_alt_message(name, (idx + 1) as nat),
            }]
        } else {
            Seq::empty()
        },
    }
}

pub open spec fn dead_alt_upto(file: Seq<char>, lines: Seq<Seq<char>>, n: int) -> Seq<ObservationView>
    decreases n,
{
    if n <= 0 {
        Seq::empty()
    } else {
        dead_alt_upto(file, lines, n - 1) + dead_alt_line(file, lines, n - 1)
    }
}

/// Everything `scan_for_dead_alt` reports for `file` with `content`.
pub open spec fn dead_alt_scan(file: Seq<char>, content: Seq<char>) -> Seq<ObservationView> {
    if !ends_with(file, ".rs"@) {
        Seq::empty()
    } else {
        let lines = lines_of(content);
        dead_alt_upto(file, lines, lines.len() as int)
    }
}

fn lit(s: &str) -> (v: Vec<char>)
    ensures
        v@ == s@,
{
    chars_of(s)
}

proof fn lemma_ident_end(s: Seq<char>, k: int)
    requires
        0 <= k <= s.len(),
        forall|j: int| 0 <= j < k ==> ident_char(s[j]),
        k == s.len() || !ident_char(s[k]),
    ensures
        ident_end(s) == k,
    decreases k,
{
    if k > 0 {
        lemma_ident_end(s.drop_first(), k - 1);
    }
}

fn skip_vec(s: &[char], k: usize) -> (r: Vec<char>)
    requires
        k <= s@.len(),
    ensures
        r@ == s@.skip(k as int),
{
    let r = slice_vec(s, k, s.len());
    assert(r@ =~= s@.skip(k as int));
    r
}

fn strip_visibility_exec(s: Vec<char>) -> (r: Option<Vec<char>>)
    ensures
        match r {
            Some(v) => strip_visibility(s@) == Some(v@),
            None => strip_visibility(s@) is None,
        },
{
    let pub_paren = lit("pub(");
    if starts_with_chars(s.as_slice(), pub_paren.as_slice()) {
        let close = lit(")");
        match find_chars(s.as_slice(), close.as_slice()) {
            Some(c) => {
                proof {
                    reveal_strlit(")");
                    assert(close@.len() == 1);
                    assert(c + 1 <= s@.len());
                }
                let n = s.len();
                assert(c + 1 <= n);
                let rest = skip_vec(s.as_slice(), c + 1);
                Some(trim_start_chars(rest.as_slice()))
            },
            None => None,
        }
    } else {
        let pub_kw = lit("pub");
        if starts_with_chars(s.as_slice(), pub_kw.as_slice()) {
            let rest = skip_vec(s.as_slice(), pub_kw.len());
            Some(trim_start_chars(rest.as_slice()))
        } else {
            Some(s)
        }
    }
}

fn first_is_ws(s: &[char], k: usize) -> (b: bool)
    requires
        k <= s@.len(),
    ensures
        b == starts_with_ws(s@.skip(k as int)),
{
    k < s.len() && char_is_ws(s[k])
}

fn strip_modifiers_exec(s: Vec<char>) -> (r: Option<Vec<char>>)
    ensures
        match r {
            Some(v) => strip_modifiers(s@, 4) == Some(v@),
            None => strip_modifiers(s@, 4) is None,
        },
{
    let async_kw = lit("async");
    let unsafe_kw = lit("unsafe");
    let extern_kw = lit("extern");
    let fn_kw = lit("fn ");
    let mut cur = s;
    let mut n: usize = 4;
    while n > 0
        invariant
            n <= 4,
            async_kw@ == "async"@,
            unsafe_kw@ == "unsafe"@,
            extern_kw@ == "extern"@,
            fn_kw@ == "fn "@,
            strip_modifiers(s@, 4) == strip_modifiers(cur@, n as nat),
        decreases n,
    {
        if starts_with_chars(cur.as_slice(), async_kw.as_slice()) && first_is_ws(cur.as_slice(), async_kw.len()) {
            let rest = skip_vec(cur.as_slice(), async_kw.len());
            cur = trim_start_chars(rest.as_slice());
        } else if starts_with_chars(cur.as_slice(), unsafe_kw.as_slice()) && first_is_ws(cur.as_slice(), unsafe_kw.len()) {
            let rest = skip_vec(cur.as_slice(), unsafe_kw.len());
            cur = trim_start_chars(rest.as_slice());
        } else if starts_with_chars(cur.as_slice(), extern_kw.as_slice()) {
            match find_chars(cur.as_slice(), fn_kw.as_slice()) {
                Some(p) => {
                    let rest = skip_vec(cur.as_slice(), p);
                    return Some(rest);
                },
                None => {
                    return None;
                },
            }
        } else {
            return Some(cur);
        }
        n = n - 1;
    }
    Some(cur)
}

/// The name declared by a left-trimmed `fn` line (with any visibility,
/// `async`, `unsafe` or `extern "..."` prefix), or `None` when the line is not
/// a function declaration.
pub fn extract_fn_name(trimmed: &[char]) -> (r: Option<Vec<char>>)
    ensures
        match r {
            Some(v) => spec_extract_fn_name(trimmed@) == Some(v@),
            None => spec_extract_fn_name(trimmed@) is None,
        },
{
    let s = slice_vec(trimmed, 0, trimmed.len());
    assert(s@ =~= trimmed@);
    let a = match strip_visibility_exec(s) {
        Some(a) => a,
        None => return None,
    };
    let b = match strip_modifiers_exec(a) {
        Some(b) => b,
        None => return None,
    };
    let fn_kw = lit("fn ");
    if !starts_with_chars(b.as_slice(), fn_kw.as_slice()) {
        return None;
    }
    let rest = skip_vec(b.as_slice(), fn_kw.len());
    let c = trim_start_chars(rest.as_slice());
    let mut e: usize = 0;
    while e < c.len() && (is_alphanumeric(c[e]) || c[e] == '_')
        invariant
            e <= c@.len(),
            forall|j: int| 0 <= j < e ==> ident_char(c@[j]),
        decreases c@.len() - e,
    {
        e = e + 1;
    }
    proof {
        lemma_ident_end(c@, e as int);
    }
    if e == 0 {
        return None;
    }
    let name = slice_vec(c.as_slice(), 0, e);
    assert(name@ =~= c@.take(e as int));
    Some(name)
}

fn has_alt_suffix_exec(name: &[char]) -> (b: bool)
    ensures
        b == has_alt_suffix(name@),
{
    let mut i: usize = 0;
    while i < ALT_SUFFIX_COUNT
        invariant
            i <= ALT_SUFFIX_COUNT,
            forall|j: int| 0 <= j < i ==> !(name@ == alt_suffix_spec(j) || ends_with(name@, alt_suffix_spec(j))),
        decreases ALT_SUFFIX_COUNT - i,
    {
        let suffix = lit(alt_suffix(i));
        if ends_with_chars(name, suffix.as_slice()) {
            return true;
        }
        assert(name@ != alt_suffix_spec(i as int)) by {
            if name@ == alt_suffix_spec(i as int) {
                assert(name@.skip(0) =~= name@);
            }
        }
        i = i + 1;
    }
    false
}

pub open spec fn line_views(v: Seq<Vec<char>>) -> Seq<Seq<char>> {
    v.map_values(|l: Vec<char>| l@)
}

fn referenced_elsewhere_exec(lines: &Vec<Vec<char>>, idx: usize, name: &[char]) -> (b: bool)
    ensures
        b == referenced_elsewhere(line_views(lines@), idx as int, name@),
{
    let mut j: usize = 0;
    while j < lines.len()
        invariant
            j <= lines@.len(),
            forall|t: int| 0 <= t < j && t != idx ==> !contains(lines@[t]@, name@),
        decreases lines@.len() - j,
    {
        if j != idx && contains_chars(lines[j].as_slice(), name) {
            assert(line_views(lines@)[j as int] == lines@[j as int]@);
            return true;
        }
        j = j + 1;
    }
    assert(!referenced_elsewhere(line_views(lines@), idx as int, name@)) by {
        assert forall|t: int| 0 <= t < line_views(lines@).len() && t != idx implies !contains(line_views(lines@)[t], name@) by {
            assert(line_views(lines@)[t] == lines@[t]@);
        }
    }
    false
}

/// Scans Rust source for alternative-suffixed functions never referenced on another line.
///
/// Non-`.rs` files yield nothing. Each reported function gives one
/// `dead_alt_smell` observation on its definition line.
pub fn scan_for_dead_alt(filepath: &str, content: &str) -> (obs: Vec<Observation>)
    ensures
        obs_views(obs@) == dead_alt_scan(filepath@, content@),
{
    let mut obs: Vec<Observation> = Vec::new();
    let file = lit(filepath);
    let rs = lit(".rs");
    if !ends_with_chars(file.as_slice(), rs.as_slice()) {
        assert(obs_views(obs@) =~= Seq::<ObservationView>::empty());
        return obs;
    }
    let c = lit(content);
    let lines = lines_chars(c.as_slice());
    let ghost ls = lines_of(content@);
    assert(line_views(lines@) == ls);
    let mut i: usize = 0;
    assert(obs_views(obs@) =~= dead_alt_upto(filepath@, ls, 0));
    while i < lines.len()
        invariant
            i <= lines@.len(),
            lines@.len() <= content@.len(),
            line_views(lines@) == ls,
            obs_views(obs@) == dead_alt_upto(filepath@, ls, i as int),
        decreases lines@.len() - i,
    {
        assert(ls[i as int] == lines@[i as int]@);
        let trimmed = trim_start_chars(lines[i].as_slice());
        let ghost before = obs@;
        match extract_fn_name(trimmed.as_slice()) {
            None => {},
            Some(name) => {
                if has_alt_suffix_exec(name.as_slice()) && !referenced_elsewhere_exec(&lines, i, name.as_slice()) {
                    let line_num = i + 1;
                    let name_s = string_of(name.as_slice());
                    let mut message = owned("Dead alternative function '");
                    message.append(name_s.as_str());
                    message.append("' defined on line ");
                    push_decimal(&mut message, line_num);
                    message.append(" but never called");
                    let o = Observation {
                        file_path: owned(filepath),
                        start_byte: 0,
                        end_byte: 0,
                        line: line_num,
                        column: 1,
                        kind: owned("dead_alt_smell"),
                        construct: name_s,
                        context: string_of(lines[i].as_slice()),
                        message,
                    };
                    assert(o@.message =~= dead_alt_message(name@, line_num as nat));
                    obs.push(o);
                    proof {
                        lemma_obs_views_push(before, o);
                    }
                }
            },
        }
        assert(obs_views(obs@) =~= dead_alt_upto(filepath@, ls, i + 1));
        i = i + 1;
    }
    obs
}

/// The DEAD-ALT-001 diagnostic for a `dead_alt_smell` observation.
/// Line `idx` of `lines` declares a function with an alternative suffix that no
/// other line mentions: the dead-alternative condition.
pub open spec fn dead_alt_at(lines: Seq<Seq<char>>, idx: int, name: Seq<char>) -> bool {
    &&& spec_extract_fn_name(trim_start(lines[idx])) == Some(name)
    &&& has_alt_suffix(name)
    &&& !referenced_elsewhere(lines, idx, name)
}

proof fn lemma_dead_alt_upto(file: Seq<char>, lines: Seq<Seq<char>>, n: int)
    requires
        0 <= n <= lines.len(),
        lines.len() <= usize::MAX,
    ensures
        forall|k: int| 0 <= k < dead_alt_upto(file, lines, n).len() ==> {
            let o = #[trigger] dead_alt_upto(file, lines, n)[k];
            &&& 1 <= o.line <= n
            &&& dead_alt_at(lines, o.line - 1, o.construct)
            &&& o.file_path == file && o.kind == "dead_alt_smell"@ && o.column == 1
            &&& o.context == lines[o.line - 1]
        },
        forall|a: int, b: int|
            0 <= a < b < dead_alt_upto(file, lines, n).len() ==> (#[trigger] dead_alt_upto(file, lines, n)[a]).line
                < (#[trigger] dead_alt_upto(file, lines, n)[b]).line,
        forall|idx: int, name: Seq<char>|
            0 <= idx < n && #[trigger] dead_alt_at(lines, idx, name) ==> exists|k: int|
                0 <= k < dead_alt_upto(file, lines, n).len() && (#[trigger] dead_alt_upto(file, lines, n)[k]).line == idx + 1
                    && dead_alt_upto(file, lines, n)[k].construct == name,
    decreases n,
{
    if n > 0 {
        lemma_dead_alt_upto(file, lines, n - 1);
        let prev = dead_alt_upto(file, lines, n - 1);
        let cur = dead_alt_line(file, lines, n - 1);
        let all = dead_alt_upto(file, lines, n);
        assert(all == prev + cur);
        assert forall|k: int| 0 <= k < all.len() implies {
            let o = #[trigger] all[k];
            &&& 1 <= o.line <= n
            &&& dead_alt_at(lines, o.line - 1, o.construct)
            &&& o.file_path == file && o.kind == "dead_alt_smell"@ && o.column == 1
            &&& o.context == lines[o.line - 1]
        } by {
            if k < prev.len() {
                assert(all[k] == prev[k]);
            } else {
                assert(all[k] == cur[k - prev.len()]);
            }
        }
        assert forall|a: int, b: int| 0 <= a < b < all.len() implies (#[trigger] all[a]).line < (#[trigger] all[b]).line by {
            if b < prev.len() {
                assert(all[a] == prev[a] && all[b] == prev[b]);
            } else if a < prev.len() {
                assert(all[a] == prev[a]);
                assert(all[b] == cur[b - prev.len()]);
                assert(prev[a].line <= n - 1);
            } else {
                assert(cur.len() <= 1);
            }
        }
        assert forall|idx: int, name: Seq<char>| 0 <= idx < n && #[trigger] dead_alt_at(lines, idx, name) implies exists|k: int|
            0 <= k < all.len() && (#[trigger] all[k]).line == idx + 1 && all[k].construct == name by {
            if idx < n - 1 {
                let k = choose|k: int| 0 <= k < prev.len() && (#[trigger] prev[k]).line == idx + 1 && prev[k].construct == name;
                assert(all[k] == prev[k]);
            } else {
                assert(cur.len() == 1);
                assert(all[prev.len() as int] == cur[0]);
            }
        }
    }
}

/// The dead-alternative rule: nothing is reported for a file that is not Rust
/// source; in a Rust file the observations are, in line order, exactly the
/// lines that declare a function whose name carries an alternative suffix
/// (`_v2`, `_alt`, `_fixed`, ...) and that no other line mentions, each with the
/// function's name as construct and the raw line as context.
pub proof fn lemma_dead_alt_rule(file: Seq<char>, content: Seq<char>)
    requires
        content.len() <= usize::MAX,
    ensures
        !ends_with(file, ".rs"@) ==> dead_alt_scan(file, content).len() == 0,
        ends_with(file, ".rs"@) ==> {
            let lines = lines_of(content);
            let obs = dead_alt_scan(file, content);
            &&& forall|k: int| 0 <= k < obs.len() ==> {
                let o = #[trigger] obs[k];
                &&& 1 <= o.line <= lines.len()
                &&& dead_alt_at(lines, o.line - 1, o.construct)
                &&& o.file_path == file && o.kind == "dead_alt_smell"@ && o.column == 1
                &&& o.context == lines[o.line - 1]
            }
            &&& forall|a: int, b: int| 0 <= a < b < obs.len() ==> (#[trigger] obs[a]).line < (#[trigger] obs[b]).line
            &&& forall|idx: int, name: Seq<char>|
                0 <= idx < lines.len() && #[trigger] dead_alt_at(lines, idx, name) ==> exists|k: int|
                    0 <= k < obs.len() && (#[trigger] obs[k]).line == idx + 1 && obs[k].construct == name
        },
{
    if ends_with(file, ".rs"@) {
        let lines = lines_of(content);
        crate::text::lemma_lines_len(content);
        lemma_dead_alt_upto(file, lines, lines.len() as int);
        let obs = dead_alt_scan(file, content);
        assert(obs == dead_alt_upto(file, lines, lines.len() as int));
        assert forall|idx: int, name: Seq<char>|
            0 <= idx < lines.len() && #[trigger] dead_alt_at(lines, idx, name) implies exists|k: int|
                0 <= k < obs.len() && (#[trigger] obs[k]).line == idx + 1 && obs[k].construct == name by {
            let k = choose|k: int|
                0 <= k < obs.len() && (#[trigger] dead_alt_upto(file, lines, lines.len() as int)[k]).line == idx + 1
                    && dead_alt_upto(file, lines, lines.len() as int)[k].construct == name;
            assert(obs[k].line == idx + 1);
        }
    }
}

pub open spec fn dead_alt_diag(o: ObservationView) -> DiagnosticView {
    diag(
        "ANTI-LLM-DEAD-ALT-001"@,
        "dead_alternative"@,
        o,
        "Dead alternative function '"@ + o.construct
            + "' — defined but never called; broken primary may be in use"@,
        "DeadAlternative("@ + o.construct + ") => BrokenPrimaryInUse"@,
        true,
        "Either use the correct alternative function or delete it"@,
        "Show that only one version exists and it is the correct one"@,
    )
}

pub open spec fn dead_alt_eval_one(o: ObservationView, config: AntiLlmConfig) -> Seq<DiagnosticView> {
    if o.kind == "dead_alt_smell"@ && !config.allows_suppression(o.file_path) {
        seq![dead_alt_diag(o)]
    } else {
        Seq::empty()
    }
}

pub open spec fn dead_alt_eval_upto(obs: Seq<ObservationView>, config: AntiLlmConfig, n: int) -> Seq<DiagnosticView>
    decreases n,
{
    if n <= 0 {
        Seq::empty()
    } else {
        dead_alt_eval_upto(obs, config, n - 1) + dead_alt_eval_one(obs[n - 1], config)
    }
}

/// One DEAD-ALT-001 diagnostic per unsuppressed `dead_alt_smell` observation.
pub fn evaluate(obs: &[Observation], config: &AntiLlmConfig) -> (diags: Vec<AntiLlmDiagnostic>)
    ensures
        diag_views(diags@) == dead_alt_eval_upto(obs_views(obs@), *config, obs@.len() as int),
{
    let mut diags: Vec<AntiLlmDiagnostic> = Vec::new();
    let ghost ov = obs_views(obs@);
    let mut i: usize = 0;
    assert(diag_views(diags@) =~= dead_alt_eval_upto(ov, *config, 0));
    while i < obs.len()
        invariant
            i <= obs@.len(),
            ov == obs_views(obs@),
            diag_views(diags@) == dead_alt_eval_upto(ov, *config, i as int),
        decreases obs@.len() - i,
    {
        let o = &obs[i];
        assert(ov[i as int] == o@);
        let ghost before = diags@;
        if eq_text(o.kind.as_str(), "dead_alt_smell") && !config.is_suppression_allowed(o.file_path.as_str()) {
            let mut message = owned("Dead alternative function '");
            message.append(o.construct.as_str());
            message.append("' — defined but never called; broken primary may be in use");
            let mut forbidden = owned("DeadAlternative(");
            forbidden.append(o.construct.as_str());
            forbidden.append(") => BrokenPrimaryInUse");
            let d = AntiLlmDiagnostic {
                code: owned("ANTI-LLM-DEAD-ALT-001"),
                category: owned("dead_alternative"),
                file_path: o.file_path.clone(),
                line: o.line,
                column: o.column,
                message,
                forbidden_implication: forbidden,
                blocking: true,
                required_correction: owned("Either use the correct alternative function or delete it"),
                required_next_proof: owned("Show that only one version exists and it is the correct one"),
            };
            assert(d@ == dead_alt_diag(o@));
            diags.push(d);
            proof {
                lemma_diag_views_push(before, d);
            }
        }
        assert(diag_views(diags@) =~= dead_alt_eval_upto(ov, *config, i + 1));
        i = i + 1;
    }
    assert(obs@.len() == ov.len());
    diags
}

/// Findings in a path that the configuration suppresses are never diagnosed.
pub proof fn lemma_dead_alt_respects_suppression(obs: Seq<ObservationView>, config: AntiLlmConfig, n: int)
    ensures
        forall|k: int|
            0 <= k < dead_alt_eval_upto(obs, config, n).len() ==> !config.allows_suppression(
                (#[trigger] dead_alt_eval_upto(obs, config, n)[k]).file_path,
            ),
    decreases n,
{
    if n > 0 {
        lemma_dead_alt_respects_suppression(obs, config, n - 1);
        let prev = dead_alt_eval_upto(obs, config, n - 1);
        let all = dead_alt_eval_upto(obs, config, n);
        assert forall|k: int| 0 <= k < all.len() implies !config.allows_suppression((#[trigger] all[k]).file_path) by {
            if k < prev.len() {
                assert(all[k] == prev[k]);
            }
        }
    }
}

/// Every unsuppressed dead-alternative observation (`dead_alt_smell`) draws exactly one
/// blocking DEAD-ALT-001 diagnostic at its place; any other
/// observation, or one in a suppressed path, draws none.
pub proof fn lemma_dead_alt_diagnostics(o: ObservationView, config: AntiLlmConfig)
    ensures
        (dead_alt_eval_one(o, config).len() == 1) <==> (o.kind == "dead_alt_smell"@ && !config.allows_suppression(o.file_path)),
        dead_alt_eval_one(o, config).len() <= 1,
        dead_alt_eval_one(o, config).len() == 1 ==> dead_alt_eval_one(o, config)[0].code == "ANTI-LLM-DEAD-ALT-001"@ && dead_alt_eval_one(o, config)[0].blocking
            && dead_alt_eval_one(o, config)[0].file_path == o.file_path && dead_alt_eval_one(o, config)[0].line == o.line,
{
}

} // verus!
