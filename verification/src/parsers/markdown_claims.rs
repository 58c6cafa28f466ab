//! Markdown claims: victory vocabulary (delegated to `rules::claims`) and
//! changelog-laundering phrases, for `.md` files.
use vstd::prelude::*;

use crate::matching::{to_lowercase, unicode_lowercase};
use crate::observations::{lemma_obs_views_append, lemma_obs_views_push, obs_views, Observation, ObservationView};
use crate::rules::claims::{scan_for_victory, victory_scan};
use crate::text::{
    byte_len, chars_of, contains, contains_chars, lines_chars, lines_of, owned, string_of, take_at_most,
    take_at_most_chars, trim, trim_chars, utf8_len,
};

verus! {

pub const CHANGELOG_PATTERN_COUNT: usize = 7;

/// Phrases that present a delta changelog as full spec coverage (CHANGELOG-001).
pub open spec fn changelog_pattern(i: int) -> Seq<char> {
    if i == 0 {
        "changelog matrix"@
    } else if i == 1 {
        "changelog coverage"@
    } else if i == 2 {
        "15-row changelog"@
    } else if i == 3 {
        "15 row changelog"@
    } else if i == 4 {
        "changelog as spec coverage"@
    } else if i == 5 {
        "changelog covers"@
    } else {
        "changelog demonstrates"@
    }
}

pub fn changelog_pattern_exec(i: usize) -> (r: &'static str)
    requires
        i < 7,
    ensures
        r@ == changelog_pattern(i as int),
{
    match i {
        0 => "changelog matrix",
        1 => "changelog coverage",
        2 => "15-row changelog",
        3 => "15 row changelog",
        4 => "changelog as spec coverage",
        5 => "changelog covers",
        _ => "changelog demonstrates",
    }
}


/// Index of the first changelog pattern at or after `i` that `lower` contains.
pub open spec fn first_changelog_hit(lower: Seq<char>, i: int) -> Option<int>
    decreases CHANGELOG_PATTERN_COUNT - i,
{
    if i >= CHANGELOG_PATTERN_COUNT || i < 0 {
        None
    } else if contains(lower, changelog_pattern(i)) {
        Some(i)
    } else {
        first_changelog_hit(lower, i + 1)
    }
}

/// The observation, if any, for line `idx` (0-based): the first pattern the
/// lower-cased line contains.
pub open spec fn changelog_line(file: Seq<char>, lines: Seq<Seq<char>>, idx: int) -> Seq<ObservationView> {
    let line = lines[idx];
    match first_changelog_hit(unicode_lowercase(line), 0) {
        None => Seq::empty(),
        Some(k) => seq![ObservationView {
            file_path: file,
            start_byte: 0,
            end_byte: utf8_len(line),
            line: (idx + 1) as usize,
            column: 1,
            kind: "changelog_laundering"@,
            construct: "changelog_laundering"@,
            context: take_at_most(trim(line), 120),
            message: "Changelog laundering pattern '"@ + changelog_pattern(k)
                + "' detected — delta changelog must not be presented as full spec coverage"@,
        }],
    }
}

pub open spec fn changelog_upto(file: Seq<char>, lines: Seq<Seq<char>>, n: int) -> Seq<ObservationView>
    decreases n,
{
    if n <= 0 {
        Seq::empty()
    } else {
        changelog_upto(file, lines, n - 1) + changelog_line(file, lines, n - 1)
    }
}

pub open spec fn changelog_scan(file: Seq<char>, content: Seq<char>) -> Seq<ObservationView> {
    let lines = lines_of(content);
    changelog_upto(file, lines, lines.len() as int)
}

fn first_changelog_hit_exec(lower: &[char]) -> (r: Option<usize>)
    ensures
        match r {
            Some(k) => first_changelog_hit(lower@, 0) == Some(k as int) && k < CHANGELOG_PATTERN_COUNT,
            None => first_changelog_hit(lower@, 0) is None,
        },
{
    let mut i: usize = 0;
    while i < CHANGELOG_PATTERN_COUNT
        invariant
            i <= CHANGELOG_PATTERN_COUNT,
            first_changelog_hit(lower@, 0) == first_changelog_hit(lower@, i as int),
        decreases CHANGELOG_PATTERN_COUNT - i,
    {
        let p = chars_of(changelog_pattern_exec(i));
        if contains_chars(lower, p.as_slice()) {
            return Some(i);
        }
        i = i + 1;
    }
    None
}

/// Scans each line for changelog-laundering phrases: at most one
/// `changelog_laundering` observation per line, naming the first phrase found.
fn scan_for_changelog_laundering(filepath: &str, content: &str) -> (obs: Vec<Observation>)
    ensures
        obs_views(obs@) == changelog_scan(filepath@, content@),
{
    let mut obs: Vec<Observation> = Vec::new();
    let c = chars_of(content);
    let lines = lines_chars(c.as_slice());
    let ghost ls = lines_of(content@);
    let mut i: usize = 0;
    assert(obs_views(obs@) =~= changelog_upto(filepath@, ls, 0));
    while i < lines.len()
        invariant
            i <= lines@.len(),
            lines@.len() <= content@.len(),
            lines@.map_values(|l: Vec<char>| l@) == ls,
            obs_views(obs@) == changelog_upto(filepath@, ls, i as int),
        decreases lines@.len() - i,
    {
        assert(ls[i as int] == lines@[i as int]@);
        let line_s = string_of(lines[i].as_slice());
        let lower = to_lowercase(line_s.as_str());
        let lc = chars_of(lower.as_str());
        let ghost before = obs@;
        match first_changelog_hit_exec(lc.as_slice()) {
            None => {},
            Some(k) => {
                let trimmed = trim_chars(lines[i].as_slice());
                let head = take_at_most_chars(trimmed.as_slice(), 120);
                let mut message = owned("Changelog laundering pattern '");
                message.append(changelog_pattern_exec(k));
                message.append("' detected — delta changelog must not be presented as full spec coverage");
                let o = Observation {
                    file_path: owned(filepath),
                    start_byte: 0,
                    end_byte: byte_len(line_s.as_str()),
                    line: i + 1,
                    column: 1,
                    kind: owned("changelog_laundering"),
                    construct: owned("changelog_laundering"),
                    context: string_of(head.as_slice()),
                    message,
                };
                obs.push(o);
                proof {
                    lemma_obs_views_push(before, o);
                }
            },
        }
        i = i + 1;
        assert(obs_views(obs@) =~= changelog_upto(filepath@, ls, i as int));
    }
    obs
}

/// Victory-language observations (kind `markdown_claim`, no domain exemptions)
/// followed by changelog-laundering observations.
pub fn parse_markdown_claims(filepath: &str, content: &str) -> (obs: Vec<Observation>)
    ensures
        obs_views(obs@) == victory_scan(filepath@, content@, "markdown_claim"@, Seq::empty())
            + changelog_scan(filepath@, content@),
{
    let no_terms: Vec<String> = Vec::new();
    let mut obs = scan_for_victory(filepath, content, "markdown_claim", no_terms.as_slice());
    let mut more = scan_for_changelog_laundering(filepath, content);
    let ghost a = obs@;
    let ghost b = more@;
    obs.append(&mut more);
    proof {
        lemma_obs_views_append(a, b);
        assert(no_terms@ =~= Seq::<String>::empty());
    }
    obs
}

} // verus!
