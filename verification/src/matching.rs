//! The outside text machinery the scanners rely on: `regex` matching and
//! escaping, and Unicode lower-casing from std. Each item names the outside
//! function's result; the scanners are verified against those names.
use vstd::prelude::*;

verus! {

/// One match: byte offsets into the haystack and the matched text.
#[derive(Debug, Clone)]
pub struct RegexMatch {
    pub start: usize,
    pub end: usize,
    pub text: String,
}

impl View for RegexMatch {
    type V = (usize, usize, Seq<char>);

    open spec fn view(&self) -> (usize, usize, Seq<char>) {
        (self.start, self.end, self.text@)
    }
}

pub open spec fn match_views(v: Seq<RegexMatch>) -> Seq<(usize, usize, Seq<char>)> {
    v.map_values(|m: RegexMatch| m@)
}

/// The successive non-overlapping matches that `regex::Regex::new(pattern)`
/// followed by `find_iter(haystack)` yields; empty when `pattern` does not compile.
pub uninterp spec fn regex_find_all(pattern: Seq<char>, haystack: Seq<char>) -> Seq<(usize, usize, Seq<char>)>;

/// Compiles `pattern` with `regex::Regex::new` and collects `find_iter(haystack)`.
///
/// Claims: the result is `regex_find_all(pattern, haystack)`, and each match's
/// byte offsets satisfy `start <= end`, bounded by the haystack's allocation
/// (at most `isize::MAX`). What the matches are is left to the name.
#[verifier::external_body]
pub(crate) fn find_all(pattern: &str, haystack: &str) -> (r: Vec<RegexMatch>)
    ensures
        match_views(r@) == regex_find_all(pattern@, haystack@),
        forall|i: int| 0 <= i < r@.len() ==> #[trigger] r@[i].start <= r@[i].end <= isize::MAX,
{
    match regex::Regex::new(pattern) {
        Ok(re) => re.find_iter(haystack).map(|m| RegexMatch {
            start: m.start(),
            end: m.end(),
            text: m.as_str().to_string(),
        }).collect(),
        Err(_) => Vec::new(),
    }
}

/// One capture set: the whole match and each numbered group (group 1 first).
#[derive(Debug, Clone)]
pub struct RegexCaptures {
    pub whole: String,
    pub groups: Vec<Option<String>>,
}

pub open spec fn opt_view(o: Option<String>) -> Option<Seq<char>> {
    match o {
        Some(s) => Some(s@),
        None => None,
    }
}

impl View for RegexCaptures {
    type V = (Seq<char>, Seq<Option<Seq<char>>>);

    open spec fn view(&self) -> (Seq<char>, Seq<Option<Seq<char>>>) {
        (self.whole@, self.groups@.map_values(|g: Option<String>| opt_view(g)))
    }
}

pub open spec fn captures_views(v: Seq<RegexCaptures>) -> Seq<(Seq<char>, Seq<Option<Seq<char>>>)> {
    v.map_values(|c: RegexCaptures| c@)
}

/// The successive capture sets that `regex::Regex::new(pattern)` followed by
/// `captures_iter(haystack)` yields; empty when `pattern` does not compile.
pub uninterp spec fn regex_captures_all(pattern: Seq<char>, haystack: Seq<char>) -> Seq<(Seq<char>, Seq<Option<Seq<char>>>)>;

/// Compiles `pattern` with `regex::Regex::new` and collects `captures_iter(haystack)`,
/// keeping the whole match and the text of every numbered group.
///
/// Claims only that the result is `regex_captures_all(pattern, haystack)`.
#[verifier::external_body]
pub(crate) fn captures_all(pattern: &str, haystack: &str) -> (r: Vec<RegexCaptures>)
    ensures
        captures_views(r@) == regex_captures_all(pattern@, haystack@),
{
    match regex::Regex::new(pattern) {
        Ok(re) => re.captures_iter(haystack).map(|c| RegexCaptures {
            whole: c[0].to_string(),
            groups: (1..c.len()).map(|i| c.get(i).map(|m| m.as_str().to_string())).collect(),
        }).collect(),
        Err(_) => Vec::new(),
    }
}

/// A character with significance in a regex (`regex_syntax::is_meta_character`).
pub open spec fn regex_meta(c: char) -> bool {
    c == '\\' || c == '.' || c == '+' || c == '*' || c == '?' || c == '(' || c == ')' || c == '|' || c == '['
        || c == ']' || c == '{' || c == '}' || c == '^' || c == '$' || c == '#' || c == '&' || c == '-' || c == '~'
}

/// `s` with a backslash before each regex meta character.
pub open spec fn regex_escaped(s: Seq<char>) -> Seq<char>
    decreases s.len(),
{
    if s.len() == 0 {
        Seq::empty()
    } else {
        regex_escaped(s.drop_last()) + if regex_meta(s.last()) {
            seq!['\\', s.last()]
        } else {
            seq![s.last()]
        }
    }
}

/// Calls `regex::escape`, which puts a backslash before each meta character
/// (`regex_syntax::escape_into`); the result is `regex_escaped(s)`.
#[verifier::external_body]
pub(crate) fn escape(s: &str) -> (r: String)
    ensures
        r@ == regex_escaped(s@),
{
    regex::escape(s)
}

/// What `str::to_lowercase` (full Unicode lower-casing) returns for `s`.
pub uninterp spec fn unicode_lowercase(s: Seq<char>) -> Seq<char>;

/// Calls `str::to_lowercase`; the result is `unicode_lowercase(s)`.
#[verifier::external_body]
pub(crate) fn to_lowercase(s: &str) -> (r: String)
    ensures
        r@ == unicode_lowercase(s@),
{
    s.to_lowercase()
}

} // verus!
