//! AST-first WIP scanning: the admitted Tree-sitter grammars, which paths they
//! own, and the node-level rules (comments, unfinished-implementation
//! sentinels, syntax errors) applied to a parsed file.
use vstd::prelude::*;

use crate::text::{
    ascii_lower, ascii_lower_chars, ascii_upper, ascii_upper_chars, char_is_ws, chars_of, contains,
    contains_chars, ends_with, ends_with_chars, is_ws, leading_ws, owned, slice_vec, starts_with,
    starts_with_chars, string_of, take_at_most_chars, trim, trim_chars, trim_start,
};
use crate::wip::model::{finding_views, FindingView, SourceFinding, Standing, WipKind};
use crate::wip::syntax::{
    grammar_accepted, load_parser, node_at, node_count, parse_source, syntax_nodes, ParsedSource,
};
use crate::wip::source::{finding_id_sound, lemma_dedup_sound,
    dedup_adjacent, finding_id, finding_id_of, opt_classified, sort_and_dedup_findings, sort_stable,
    status_named, status_named_exec, Classified,
};

verus! {

/// A grammar admitted by the scanner.
#[derive(Debug, Clone, Copy, PartialEq, Eq, Structural)]
pub enum SyntaxLanguage {
    Rust,
    TypeScript,
    Tsx,
    JavaScript,
    Python,
    Go,
    Java,
    C,
    Cpp,
    CSharp,
    Bash,
}

pub open spec fn lang_name(l: SyntaxLanguage) -> Seq<char> {
    match l {
        SyntaxLanguage::Rust => "rust"@,
        SyntaxLanguage::TypeScript => "typescript"@,
        SyntaxLanguage::Tsx => "tsx"@,
        SyntaxLanguage::JavaScript => "javascript"@,
        SyntaxLanguage::Python => "python"@,
        SyntaxLanguage::Go => "go"@,
        SyntaxLanguage::Java => "java"@,
        SyntaxLanguage::C => "c"@,
        SyntaxLanguage::Cpp => "cpp"@,
        SyntaxLanguage::CSharp => "csharp"@,
        SyntaxLanguage::Bash => "bash"@,
    }
}

impl SyntaxLanguage {
    /// The language's registry name.
    pub fn name(self) -> (r: &'static str)
        ensures
            r@ == lang_name(self),
    {
        match self {
            SyntaxLanguage::Rust => "rust",
            SyntaxLanguage::TypeScript => "typescript",
            SyntaxLanguage::Tsx => "tsx",
            SyntaxLanguage::JavaScript => "javascript",
            SyntaxLanguage::Python => "python",
            SyntaxLanguage::Go => "go",
            SyntaxLanguage::Java => "java",
            SyntaxLanguage::C => "c",
            SyntaxLanguage::Cpp => "cpp",
            SyntaxLanguage::CSharp => "csharp",
            SyntaxLanguage::Bash => "bash",
        }
    }
}

pub open spec fn supported_names() -> Seq<Seq<char>> {
    seq![
        "rust"@,
        "typescript"@,
        "tsx"@,
        "javascript"@,
        "python"@,
        "go"@,
        "java"@,
        "c"@,
        "cpp"@,
        "csharp"@,
        "bash"@,
    ]
}

/// The admitted Tree-sitter language names.
pub fn supported_tree_sitter_languages() -> (r: Vec<&'static str>)
    ensures
        r@.map_values(|s: &'static str| s@) == supported_names(),
{
    let r = vec!["rust", "typescript", "tsx", "javascript", "python", "go", "java", "c", "cpp", "csharp", "bash"];
    assert(r@.map_values(|s: &'static str| s@) =~= supported_names());
    r
}

// ---------------------------------------------------------------------------
// Which grammars own a path
// ---------------------------------------------------------------------------
/// What `Path::new(p).extension()` gives as text, if anything.
pub uninterp spec fn path_extension(p: Seq<char>) -> Option<Seq<char>>;

/// Calls `std::path::Path::extension` on `p` and takes it as text; the result is `path_extension(p)`.
#[verifier::external_body]
fn extension_text(p: &str) -> (r: Option<String>)
    ensures
        match r {
            Some(e) => path_extension(p@) == Some(e@),
            None => path_extension(p@) is None,
        },
{
    std::path::Path::new(p).extension().and_then(|e| e.to_str()).map(|e| e.to_string())
}

/// The candidate grammars for a lower-cased extension; empty when none is admitted.
pub open spec fn grammars_for(ext: Seq<char>) -> Seq<SyntaxLanguage> {
    if ext == "rs"@ {
        seq![SyntaxLanguage::Rust]
    } else if ext == "ts"@ || ext == "mts"@ || ext == "cts"@ {
        seq![SyntaxLanguage::TypeScript]
    } else if ext == "tsx"@ {
        seq![SyntaxLanguage::Tsx]
    } else if ext == "js"@ || ext == "mjs"@ || ext == "cjs"@ || ext == "jsx"@ {
        seq![SyntaxLanguage::JavaScript]
    } else if ext == "py"@ || ext == "pyw"@ {
        seq![SyntaxLanguage::Python]
    } else if ext == "go"@ {
        seq![SyntaxLanguage::Go]
    } else if ext == "java"@ {
        seq![SyntaxLanguage::Java]
    } else if ext == "c"@ {
        seq![SyntaxLanguage::C]
    } else if ext == "h"@ {
        seq![SyntaxLanguage::C, SyntaxLanguage::Cpp]
    } else if ext == "cc"@ || ext == "cpp"@ || ext == "cxx"@ || ext == "hh"@ || ext == "hpp"@ || ext == "hxx"@ {
        seq![SyntaxLanguage::Cpp]
    } else if ext == "cs"@ {
        seq![SyntaxLanguage::CSharp]
    } else if ext == "sh"@ || ext == "bash"@ {
        seq![SyntaxLanguage::Bash]
    } else {
        Seq::empty()
    }
}

/// The candidate grammars for a path, by its extension; `None` when no grammar is admitted.
pub open spec fn path_grammars(path: Seq<char>) -> Option<Seq<SyntaxLanguage>> {
    match path_extension(path) {
        Some(e) => if grammars_for(ascii_lower(e)).len() > 0 {
            Some(grammars_for(ascii_lower(e)))
        } else {
            None
        },
        None => None,
    }
}

fn is_ext(e: &str, lit: &str) -> (b: bool)
    ensures
        b == (e@ == lit@),
{
    crate::text::eq_text(e, lit)
}

pub fn candidates_for_path(path: &str) -> (r: Option<Vec<SyntaxLanguage>>)
    ensures
        match r {
            Some(v) => path_grammars(path@) == Some(v@),
            None => path_grammars(path@) is None,
        },
{
    let ext = match extension_text(path) {
        Some(e) => e,
        None => return None,
    };
    let lc = chars_of(ext.as_str());
    let lc = ascii_lower_chars(lc.as_slice());
    let e = string_of(lc.as_slice());
    let e = e.as_str();
    let v = if is_ext(e, "rs") {
        vec![SyntaxLanguage::Rust]
    } else if is_ext(e, "ts") || is_ext(e, "mts") || is_ext(e, "cts") {
        vec![SyntaxLanguage::TypeScript]
    } else if is_ext(e, "tsx") {
        vec![SyntaxLanguage::Tsx]
    } else if is_ext(e, "js") || is_ext(e, "mjs") || is_ext(e, "cjs") || is_ext(e, "jsx") {
        vec![SyntaxLanguage::JavaScript]
    } else if is_ext(e, "py") || is_ext(e, "pyw") {
        vec![SyntaxLanguage::Python]
    } else if is_ext(e, "go") {
        vec![SyntaxLanguage::Go]
    } else if is_ext(e, "java") {
        vec![SyntaxLanguage::Java]
    } else if is_ext(e, "c") {
        vec![SyntaxLanguage::C]
    } else if is_ext(e, "h") {
        vec![SyntaxLanguage::C, SyntaxLanguage::Cpp]
    } else if is_ext(e, "cc") || is_ext(e, "cpp") || is_ext(e, "cxx") || is_ext(e, "hh") || is_ext(e, "hpp")
        || is_ext(e, "hxx") {
        vec![SyntaxLanguage::Cpp]
    } else if is_ext(e, "cs") {
        vec![SyntaxLanguage::CSharp]
    } else if is_ext(e, "sh") || is_ext(e, "bash") {
        vec![SyntaxLanguage::Bash]
    } else {
        return None;
    };
    assert(v@ =~= grammars_for(ascii_lower(ext@)));
    Some(v)
}

/// Whether a path has an admitted Tree-sitter grammar.
pub fn is_tree_sitter_path(path: &str) -> (b: bool)
    ensures
        b == (path_grammars(path@) is Some),
{
    candidates_for_path(path).is_some()
}

// ---------------------------------------------------------------------------
// Test paths
// ---------------------------------------------------------------------------
/// Index of the first `c` in `s`, or `s.len()`.
pub open spec fn index_of(s: Seq<char>, c: char) -> nat
    decreases s.len(),
{
    if s.len() == 0 || s[0] == c {
        0
    } else {
        1 + index_of(s.drop_first(), c)
    }
}

/// `s.split(c)`: the pieces between occurrences of `c` (always at least one).
pub open spec fn split_on(s: Seq<char>, c: char) -> Seq<Seq<char>>
    decreases s.len(),
{
    let k = index_of(s, c);
    if k >= s.len() {
        seq![s]
    } else {
        seq![s.take(k as int)] + split_on(s.skip(k + 1int), c)
    }
}

proof fn lemma_index_of(s: Seq<char>, c: char, k: int)
    requires
        0 <= k <= s.len(),
        forall|j: int| 0 <= j < k ==> s[j] != c,
        k == s.len() || s[k] == c,
    ensures
        index_of(s, c) == k,
    decreases k,
{
    if k > 0 {
        lemma_index_of(s.drop_first(), c, k - 1);
    }
}

proof fn lemma_index_of_bound(s: Seq<char>, c: char)
    ensures
        index_of(s, c) <= s.len(),
    decreases s.len(),
{
    if s.len() > 0 && s[0] != c {
        lemma_index_of_bound(s.drop_first(), c);
    }
}

/// `s.split(c)` as character vectors.
fn split_chars(s: &[char], c: char) -> (r: Vec<Vec<char>>)
    ensures
        r@.map_values(|p: Vec<char>| p@) == split_on(s@, c),
{
    let mut r: Vec<Vec<char>> = Vec::new();
    let mut start: usize = 0;
    let mut i: usize = 0;
    proof {
        assert(s@.skip(0) =~= s@);
    }
    while i < s.len()
        invariant
            start <= i <= s@.len(),
            forall|j: int| start <= j < i ==> s@[j] != c,
            r@.map_values(|p: Vec<char>| p@) + split_on(s@.skip(start as int), c) == split_on(s@, c),
        decreases s@.len() - i,
    {
        if s[i] == c {
            let piece = slice_vec(s, start, i);
            let ghost rest = s@.skip(start as int);
            proof {
                lemma_index_of(rest, c, i - start);
                assert(rest.take(i - start) =~= piece@);
                assert(rest.skip(i - start + 1) =~= s@.skip(i + 1));
            }
            let ghost before = r@.map_values(|p: Vec<char>| p@);
            r.push(piece);
            assert(r@.map_values(|p: Vec<char>| p@) =~= before.push(piece@));
            assert(before + split_on(rest, c) =~= before.push(piece@) + split_on(s@.skip(i + 1), c));
            start = i + 1;
        }
        i = i + 1;
    }
    let piece = slice_vec(s, start, s.len());
    let ghost rest = s@.skip(start as int);
    proof {
        lemma_index_of(rest, c, rest.len() as int);
        assert(rest =~= piece@);
    }
    let ghost before = r@.map_values(|p: Vec<char>| p@);
    r.push(piece);
    assert(r@.map_values(|p: Vec<char>| p@) =~= before.push(piece@));
    r
}

/// `s` with every `from` replaced by `to`.
pub open spec fn replace_char(s: Seq<char>, from: char, to: char) -> Seq<char> {
    s.map_values(|ch: char| if ch == from {
        to
    } else {
        ch
    })
}

pub open spec fn test_dir(part: Seq<char>) -> bool {
    part == "test"@ || part == "tests"@ || part == "spec"@ || part == "specs"@ || part == "__tests__"@
}

/// A test file: under a test directory, or named like a test.
pub open spec fn ts_test_path(relative: Seq<char>) -> bool {
    let n = ascii_lower(replace_char(relative, '\\', '/'));
    let parts = split_on(n, '/');
    let file = parts.last();
    (exists|i: int| 0 <= i < parts.len() && test_dir(#[trigger] parts[i])) || starts_with(file, "test_"@)
        || ends_with(file, "_test.go"@) || contains(file, ".test."@) || contains(file, ".spec."@) || ends_with(
        file,
        "test.java"@,
    ) || ends_with(file, "tests.java"@)
}

fn lit_eq(s: &[char], lit: &str) -> (b: bool)
    ensures
        b == (s@ == lit@),
{
    let l = chars_of(lit);
    if s.len() != l.len() {
        assert(s@.len() != lit@.len());
        return false;
    }
    assert(s@.take(s@.len() as int) =~= s@);
    starts_with_chars(s, l.as_slice())
}

fn lit_in(s: &[char], lit: &str) -> (b: bool)
    ensures
        b == contains(s@, lit@),
{
    let l = chars_of(lit);
    contains_chars(s, l.as_slice())
}

fn lit_prefix(s: &[char], lit: &str) -> (b: bool)
    ensures
        b == starts_with(s@, lit@),
{
    let l = chars_of(lit);
    starts_with_chars(s, l.as_slice())
}

fn lit_suffix(s: &[char], lit: &str) -> (b: bool)
    ensures
        b == ends_with(s@, lit@),
{
    let l = chars_of(lit);
    ends_with_chars(s, l.as_slice())
}

pub fn is_test_path(relative: &str) -> (b: bool)
    ensures
        b == ts_test_path(relative@),
{
    let raw = chars_of(relative);
    let mut replaced: Vec<char> = Vec::new();
    let mut i: usize = 0;
    while i < raw.len()
        invariant
            i <= raw@.len(),
            replaced@ == replace_char(raw@.take(i as int), '\\', '/'),
        decreases raw@.len() - i,
    {
        replaced.push(if raw[i] == '\\' {
            '/'
        } else {
            raw[i]
        });
        i = i + 1;
        assert(replaced@ =~= replace_char(raw@.take(i as int), '\\', '/'));
    }
    assert(raw@.take(i as int) =~= raw@);
    let n = ascii_lower_chars(replaced.as_slice());
    let parts = split_chars(n.as_slice(), '/');
    let ghost ps = parts@.map_values(|p: Vec<char>| p@);
    assert(ps.len() == parts@.len());
    assert(ps == split_on(ascii_lower(replace_char(relative@, '\\', '/')), '/'));
    let mut k: usize = 0;
    while k < parts.len()
        invariant
            k <= parts@.len(),
            ps == parts@.map_values(|p: Vec<char>| p@),
            ps == split_on(ascii_lower(replace_char(relative@, '\\', '/')), '/'),
            forall|j: int| 0 <= j < k ==> !test_dir(#[trigger] ps[j]),
        decreases parts@.len() - k,
    {
        let p = parts[k].as_slice();
        if lit_eq(p, "test") || lit_eq(p, "tests") || lit_eq(p, "spec") || lit_eq(p, "specs") || lit_eq(
            p,
            "__tests__",
        ) {
            assert(test_dir(ps[k as int]));
            return true;
        }
        k = k + 1;
    }
    proof {
        lemma_split_nonempty(n@, '/');
    }
    let file = parts[parts.len() - 1].as_slice();
    assert(file@ == ps.last());
    lit_prefix(file, "test_") || lit_suffix(file, "_test.go") || lit_in(file, ".test.") || lit_in(file, ".spec.")
        || lit_suffix(file, "test.java") || lit_suffix(file, "tests.java")
}

proof fn lemma_split_nonempty(s: Seq<char>, c: char)
    ensures
        split_on(s, c).len() >= 1,
    decreases s.len(),
{
    lemma_index_of_bound(s, c);
    let k = index_of(s, c);
    if k < s.len() {
        lemma_split_nonempty(s.skip(k + 1int), c);
    }
}

/// `Test` for test files, `Code` otherwise.
pub open spec fn spec_source_kind(relative: Seq<char>) -> WipKind {
    if ts_test_path(relative) {
        WipKind::Test
    } else {
        WipKind::Code
    }
}

pub fn source_kind(relative: &str) -> (k: WipKind)
    ensures
        k == spec_source_kind(relative@),
{
    if is_test_path(relative) {
        WipKind::Test
    } else {
        WipKind::Code
    }
}

// ---------------------------------------------------------------------------
// Node vocabulary
// ---------------------------------------------------------------------------
pub open spec fn comment_kind(kind: Seq<char>) -> bool {
    kind == "comment"@ || ends_with(kind, "_comment"@)
}

pub fn is_comment_node(kind: &str) -> (b: bool)
    ensures
        b == comment_kind(kind@),
{
    let k = chars_of(kind);
    lit_eq(k.as_slice(), "comment") || lit_suffix(k.as_slice(), "_comment")
}

pub open spec fn string_kind(kind: Seq<char>) -> bool {
    contains(kind, "string"@) || kind == "raw_string_literal"@ || kind == "char_literal"@
}

pub fn is_string_node(kind: &str) -> (b: bool)
    ensures
        b == string_kind(kind@),
{
    let k = chars_of(kind);
    lit_in(k.as_slice(), "string") || lit_eq(k.as_slice(), "raw_string_literal") || lit_eq(k.as_slice(), "char_literal")
}

/// Text that says the implementation is unfinished (case-insensitively).
pub open spec fn unfinished_phrase(text: Seq<char>) -> bool {
    let n = ascii_lower(text);
    contains(n, "not implemented"@) || contains(n, "notimplemented"@) || contains(n, "unimplemented"@)
        || contains(n, "todo"@) || contains(n, "fixme"@) || contains(n, "stub implementation"@)
}

pub fn contains_unfinished_phrase(text: &str) -> (b: bool)
    ensures
        b == unfinished_phrase(text@),
{
    let t = chars_of(text);
    let n = ascii_lower_chars(t.as_slice());
    let n = n.as_slice();
    lit_in(n, "not implemented") || lit_in(n, "notimplemented") || lit_in(n, "unimplemented") || lit_in(n, "todo")
        || lit_in(n, "fixme") || lit_in(n, "stub implementation")
}

/// `s` without its leading `c` characters (`trim_start_matches(c)`).
pub open spec fn strip_leading(s: Seq<char>, c: char) -> Seq<char>
    decreases s.len(),
{
    if s.len() > 0 && s[0] == c {
        strip_leading(s.drop_first(), c)
    } else {
        s
    }
}

fn strip_leading_chars(s: &[char], c: char) -> (r: Vec<char>)
    ensures
        r@ == strip_leading(s@, c),
{
    let mut k: usize = 0;
    assert(s@.skip(0) =~= s@);
    while k < s.len() && s[k] == c
        invariant
            k <= s@.len(),
            strip_leading(s@, c) == strip_leading(s@.skip(k as int), c),
        decreases s@.len() - k,
    {
        assert(s@.skip(k as int).drop_first() =~= s@.skip(k + 1));
        k = k + 1;
    }
    let r = slice_vec(s, k, s.len());
    assert(r@ =~= s@.skip(k as int));
    r
}

/// A comment's text without its delimiters: trimmed, then leading `/`, `*`, `#`, `-` runs removed, trimmed again.
pub open spec fn comment_body(text: Seq<char>) -> Seq<char> {
    trim(strip_leading(strip_leading(strip_leading(strip_leading(trim(text), '/'), '*'), '#'), '-'))
}

pub fn strip_comment_prefix(text: &str) -> (r: String)
    ensures
        r@ == comment_body(text@),
{
    let t = chars_of(text);
    let a = trim_chars(t.as_slice());
    let b = strip_leading_chars(a.as_slice(), '/');
    let c = strip_leading_chars(b.as_slice(), '*');
    let d = strip_leading_chars(c.as_slice(), '#');
    let e = strip_leading_chars(d.as_slice(), '-');
    let f = trim_chars(e.as_slice());
    string_of(f.as_slice())
}

/// A comment that declares a status (`Status:`, `Standing =`, ...).
pub open spec fn comment_status(text: Seq<char>) -> Option<(Seq<char>, WipKind, Standing, Seq<char>)> {
    let n = ascii_upper(comment_body(text));
    if starts_with(n, "STATUS:"@) || starts_with(n, "STANDING:"@) || starts_with(n, "STATUS ="@) || starts_with(
        n,
        "STANDING ="@,
    ) {
        status_named(n)
    } else {
        None
    }
}

pub fn classify_comment_status(text: &str) -> (r: Option<Classified>)
    ensures
        opt_classified(r) == comment_status(text@),
{
    let body = strip_comment_prefix(text);
    let b = chars_of(body.as_str());
    let n = ascii_upper_chars(b.as_slice());
    let n = n.as_slice();
    if lit_prefix(n, "STATUS:") || lit_prefix(n, "STANDING:") || lit_prefix(n, "STATUS =") || lit_prefix(
        n,
        "STANDING =",
    ) {
        status_named_exec(n)
    } else {
        None
    }
}

// ---------------------------------------------------------------------------
// Evidence text
// ---------------------------------------------------------------------------
/// Length of the leading run of non-whitespace characters.
pub open spec fn word_len(s: Seq<char>) -> nat
    decreases s.len(),
{
    if s.len() == 0 || is_ws(s[0]) {
        0
    } else {
        1 + word_len(s.drop_first())
    }
}

proof fn lemma_word_len(s: Seq<char>, k: int)
    requires
        0 <= k <= s.len(),
        forall|j: int| 0 <= j < k ==> !is_ws(s[j]),
        k == s.len() || is_ws(s[k]),
    ensures
        word_len(s) == k,
    decreases k,
{
    if k > 0 {
        lemma_word_len(s.drop_first(), k - 1);
    }
}

pub proof fn lemma_trim_start_len(s: Seq<char>)
    ensures
        trim_start(s).len() <= s.len(),
    decreases s.len(),
{
    if s.len() > 0 && is_ws(s[0]) {
        lemma_trim_start_len(s.drop_first());
    }
}

/// `s.split_whitespace()`: the maximal runs of non-whitespace characters.
pub open spec fn words(s: Seq<char>) -> Seq<Seq<char>>
    decreases s.len(),
{
    let t = trim_start(s);
    if t.len() == 0 {
        Seq::empty()
    } else {
        let k = word_len(t);
        proof {
            lemma_trim_start_len(s);
            lemma_trim_start_head(s);
            lemma_word_pos(t);
        }
        seq![t.take(k as int)] + words(t.skip(k as int))
    }
}

pub proof fn lemma_trim_start_head(s: Seq<char>)
    ensures
        trim_start(s).len() > 0 ==> !is_ws(trim_start(s)[0]),
    decreases s.len(),
{
    if s.len() > 0 && is_ws(s[0]) {
        lemma_trim_start_head(s.drop_first());
    }
}

pub proof fn lemma_word_pos(t: Seq<char>)
    ensures
        word_len(t) <= t.len(),
        t.len() > 0 && !is_ws(t[0]) ==> word_len(t) >= 1,
    decreases t.len(),
{
    if t.len() > 0 && !is_ws(t[0]) {
        lemma_word_pos(t.drop_first());
    }
}

/// The parts joined by single spaces.
pub open spec fn join_spaced(q: Seq<Seq<char>>) -> Seq<char>
    decreases q.len(),
{
    if q.len() == 0 {
        Seq::empty()
    } else if q.len() == 1 {
        q[0]
    } else {
        join_spaced(q.drop_last()) + seq![' '] + q.last()
    }
}

/// `text.split_whitespace().collect::<Vec<_>>().join(" ")`.
pub open spec fn flatten_ws(text: Seq<char>) -> Seq<char> {
    join_spaced(words(text))
}

pub fn compact_whitespace(text: &str) -> (r: String)
    ensures
        r@ == flatten_ws(text@),
{
    let s = chars_of(text);
    let mut out: Vec<char> = Vec::new();
    let mut i: usize = 0;
    let ghost mut done: Seq<Seq<char>> = Seq::empty();
    let mut any_word = false;
    assert(s@.skip(0) =~= s@);
    while i < s.len()
        invariant
            i <= s@.len(),
            any_word == (done.len() > 0),
            words(s@) == done + words(s@.skip(i as int)),
            out@ == join_spaced(done),
        decreases s@.len() - i,
    {
        let rest = slice_vec(s.as_slice(), i, s.len());
        assert(rest@ =~= s@.skip(i as int));
        let lead = leading_ws(rest.as_slice());
        let start = i + lead;
        if start == s.len() {
            proof {
                assert(trim_start(rest@).len() == 0);
                assert(words(s@.skip(i as int)) =~= Seq::<Seq<char>>::empty());
                assert(s@.skip(s@.len() as int) =~= Seq::<char>::empty());
                assert(words(s@.skip(s@.len() as int)) =~= Seq::<Seq<char>>::empty());
            }
            i = start;
        } else {
        let mut end = start;
        while end < s.len() && !char_is_ws(s[end])
            invariant
                start <= end <= s@.len(),
                forall|j: int| start <= j < end ==> !is_ws(s@[j]),
            decreases s@.len() - end,
        {
            end = end + 1;
        }
        let ghost t = s@.skip(start as int);
        proof {
            assert(trim_start(rest@) =~= t);
            lemma_word_len(t, end - start);
            assert(t.take(end - start) =~= s@.subrange(start as int, end as int));
            assert(t.skip(end - start) =~= s@.skip(end as int));
            assert(words(s@.skip(i as int)) =~= seq![t.take(end - start)] + words(s@.skip(end as int)));
        }
        let ghost w = s@.subrange(start as int, end as int);
        if any_word {
            out.push(' ');
        }
        any_word = true;
        let mut j = start;
        let ghost o0 = out@;
        while j < end
            invariant
                start <= j <= end <= s@.len(),
                out@ == o0 + s@.subrange(start as int, j as int),
            decreases end - j,
        {
            out.push(s[j]);
            j = j + 1;
            assert(out@ =~= o0 + s@.subrange(start as int, j as int));
        }
        proof {
            let nd = done.push(w);
            assert(nd.drop_last() =~= done);
            if done.len() == 0 {
                assert(out@ =~= join_spaced(nd));
            } else {
                assert(out@ =~= join_spaced(done) + seq![' '] + w);
            }
            assert(done + (seq![w] + words(s@.skip(end as int))) =~= nd + words(s@.skip(end as int)));
            done = nd;
        }
        i = end;
        }
    }
    proof {
        assert(s@.skip(i as int) =~= Seq::<char>::empty());
        assert(words(Seq::<char>::empty()) =~= Seq::<Seq<char>>::empty());
        assert(done + Seq::<Seq<char>>::empty() =~= done);
    }
    string_of(out.as_slice())
}

/// Evidence flattened to single spaces and cut to 160 characters, with `…` when cut.
pub open spec fn compacted_evidence(text: Seq<char>) -> Seq<char> {
    let f = flatten_ws(text);
    if f.len() <= 160 {
        f
    } else {
        f.take(160).push('…')
    }
}

pub fn compact(text: &str) -> (r: String)
    ensures
        r@ == compacted_evidence(text@),
{
    let flattened = compact_whitespace(text);
    let f = chars_of(flattened.as_str());
    let head = take_at_most_chars(f.as_slice(), 160);
    let mut r = string_of(head.as_slice());
    if f.len() > 160 {
        r.push('…');
    }
    r
}

// ---------------------------------------------------------------------------
// Parsed files
// ---------------------------------------------------------------------------
/// A node of a parsed file, with what the node rules read of it.
#[derive(Debug, Clone)]
pub struct SyntaxNode {
    pub kind: String,
    pub is_error: bool,
    pub is_missing: bool,
    pub is_named: bool,
    /// 0-based row where the node starts.
    pub row: usize,
    /// The node's source text (empty when it is not valid UTF-8).
    pub text: String,
    /// The field name under which the node sits in its parent, if any.
    pub field: Option<String>,
    /// Nodes in the subtree rooted here, this node included.
    pub size: usize,
}

pub struct NodeView {
    pub kind: Seq<char>,
    pub is_error: bool,
    pub is_missing: bool,
    pub is_named: bool,
    pub row: usize,
    pub text: Seq<char>,
    pub field: Option<Seq<char>>,
    pub size: usize,
}

impl View for SyntaxNode {
    type V = NodeView;

    open spec fn view(&self) -> NodeView {
        NodeView {
            kind: self.kind@,
            is_error: self.is_error,
            is_missing: self.is_missing,
            is_named: self.is_named,
            row: self.row,
            text: self.text@,
            field: match self.field {
                Some(f) => Some(f@),
                None => None,
            },
            size: self.size,
        }
    }
}

pub open spec fn node_views(v: Seq<SyntaxNode>) -> Seq<NodeView> {
    v.map_values(|n: SyntaxNode| n@)
}

/// Rows and sizes as the tree stores them (`u32`).
pub open spec fn nodes_bounded(nodes: Seq<NodeView>) -> bool {
    forall|i: int| 0 <= i < nodes.len() ==> (#[trigger] nodes[i]).row < u32::MAX && nodes[i].size <= u32::MAX
}

/// The nodes of a parsed source, in pre-order.
fn tree_nodes(t: &ParsedSource) -> (r: Vec<SyntaxNode>)
    ensures
        node_views(r@) == syntax_nodes(t@.0, t@.1),
        r@.len() >= 1,
        nodes_bounded(node_views(r@)),
{
    let n = node_count(t);
    let ghost all = syntax_nodes(t@.0, t@.1);
    let mut r: Vec<SyntaxNode> = Vec::new();
    let mut i: usize = 0;
    while i < n
        invariant
            i <= n,
            n == all.len(),
            all == syntax_nodes(t@.0, t@.1),
            r@.len() == i,
            node_views(r@) == all.take(i as int),
            nodes_bounded(node_views(r@)),
        decreases n - i,
    {
        let node = node_at(t, i);
        let ghost before = r@;
        r.push(node);
        assert(node_views(r@) =~= node_views(before).push(node@));
        assert(all.take(i + 1) =~= all.take(i as int).push(all[i as int]));
        i = i + 1;
    }
    assert(all.take(n as int) =~= all);
    r
}

/// What parsing a file with one grammar gave.
pub enum ParseOutcome {
    /// The grammar could not be loaded.
    LoadFailed,
    /// The parser returned no tree.
    Unavailable,
    /// The nodes of the tree, in pre-order.
    Parsed(Vec<SyntaxNode>),
}

fn parse_file(lang: SyntaxLanguage, source: &str) -> (r: ParseOutcome)
    ensures
        (r is LoadFailed) == !grammar_accepted(lang),
        grammar_accepted(lang) ==> r is Parsed,
        r matches ParseOutcome::Parsed(nodes) ==> node_views(nodes@) == syntax_nodes(lang, source@),
        r matches ParseOutcome::Parsed(nodes) ==> nodes@.len() >= 1 && nodes_bounded(node_views(nodes@)),
{
    let mut parser = match load_parser(lang) {
        Some(p) => p,
        None => return ParseOutcome::LoadFailed,
    };
    match parse_source(&mut parser, source) {
        Some(t) => ParseOutcome::Parsed(tree_nodes(&t)),
        None => ParseOutcome::Unavailable,
    }
}

// ---------------------------------------------------------------------------
// Traversal
// ---------------------------------------------------------------------------
pub open spec fn step(n: NodeView) -> int {
    if n.size >= 1 {
        n.size as int
    } else {
        1
    }
}

/// Children that start at `j` and end before `end`, each after the previous one's subtree.
pub open spec fn child_walk(nodes: Seq<NodeView>, j: int, end: int) -> Seq<int>
    decreases (if j < end {
        end - j
    } else {
        0
    }),
{
    if j < 0 || j >= end {
        Seq::empty()
    } else {
        seq![j] + child_walk(nodes, j + step(nodes[j]), end)
    }
}

/// The end of node `i`'s subtree, within the node list.
pub open spec fn subtree_end(nodes: Seq<NodeView>, i: int) -> int {
    if i + nodes[i].size <= nodes.len() {
        i + nodes[i].size
    } else {
        nodes.len() as int
    }
}

/// The children of node `i`, in order.
pub open spec fn children(nodes: Seq<NodeView>, i: int) -> Seq<int> {
    child_walk(nodes, i + 1, subtree_end(nodes, i))
}

/// Depth-first visit with an explicit stack: pop a node, then push its
/// children in order (so the last child is visited next), at most `fuel` pops.
pub open spec fn dfs(nodes: Seq<NodeView>, stack: Seq<int>, fuel: nat) -> Seq<int>
    decreases fuel,
{
    if fuel == 0 || stack.len() == 0 {
        Seq::empty()
    } else {
        let i = stack.last();
        seq![i] + dfs(nodes, stack.drop_last() + children(nodes, i), (fuel - 1) as nat)
    }
}

/// The order in which the nodes are visited, from the root.
pub open spec fn visit_order(nodes: Seq<NodeView>) -> Seq<int> {
    if nodes.len() == 0 {
        Seq::empty()
    } else {
        dfs(nodes, seq![0], nodes.len())
    }
}

proof fn lemma_child_walk_bounds(nodes: Seq<NodeView>, j: int, end: int)
    requires
        0 <= j,
        end <= nodes.len(),
    ensures
        forall|k: int| 0 <= k < child_walk(nodes, j, end).len() ==> j <= #[trigger] child_walk(nodes, j, end)[k] < end,
    decreases (if j < end {
        end - j
    } else {
        0
    }),
{
    if j < end {
        lemma_child_walk_bounds(nodes, j + step(nodes[j]), end);
        let w = child_walk(nodes, j, end);
        let rest = child_walk(nodes, j + step(nodes[j]), end);
        assert forall|k: int| 0 <= k < w.len() implies j <= #[trigger] w[k] < end by {
            if k > 0 {
                assert(w[k] == rest[k - 1]);
            }
        }
    }
}

/// The children of node `i`, as `children` lists them.
fn node_children(nodes: &Vec<SyntaxNode>, i: usize) -> (r: Vec<usize>)
    requires
        i < nodes@.len(),
        nodes_bounded(node_views(nodes@)),
    ensures
        r@.map_values(|k: usize| k as int) == children(node_views(nodes@), i as int),
        forall|k: int| 0 <= k < r@.len() ==> i < #[trigger] r@[k] < nodes@.len(),
{
    let ghost nv = node_views(nodes@);
    let end: usize = if nodes[i].size <= nodes.len() - i {
        i + nodes[i].size
    } else {
        nodes.len()
    };
    assert(end == subtree_end(nv, i as int));
    let mut r: Vec<usize> = Vec::new();
    let mut j: usize = i + 1;
    proof {
        lemma_child_walk_bounds(nv, i + 1, end as int);
    }
    while j < end
        invariant
            i < j,
            i < nodes@.len(),
            end <= nodes@.len(),
            nv == node_views(nodes@),
            nodes_bounded(nv),
            end == subtree_end(nv, i as int),
            r@.map_values(|k: usize| k as int) + child_walk(nv, j as int, end as int) == children(nv, i as int),
            forall|k: int| 0 <= k < r@.len() ==> i < #[trigger] r@[k] < nodes@.len(),
        decreases end - j,
    {
        let ghost before = r@.map_values(|k: usize| k as int);
        r.push(j);
        assert(nv[j as int] == nodes@[j as int]@);
        let st: usize = if nodes[j].size >= 1 {
            nodes[j].size
        } else {
            1
        };
        assert(r@.map_values(|k: usize| k as int) =~= before.push(j as int));
        assert(before + child_walk(nv, j as int, end as int) =~= before.push(j as int) + child_walk(
            nv,
            j + st,
            end as int,
        ));
        if st >= end - j {
            assert(child_walk(nv, j + st, end as int) =~= Seq::<int>::empty());
            j = end;
        } else {
            j = j + st;
        }
    }
    assert(child_walk(nv, j as int, end as int) =~= Seq::<int>::empty());
    assert(r@.map_values(|k: usize| k as int) + Seq::<int>::empty() =~= r@.map_values(|k: usize| k as int));
    r
}

/// The indices of the nodes, in visit order.
fn visit_nodes(nodes: &Vec<SyntaxNode>) -> (r: Vec<usize>)
    requires
        nodes_bounded(node_views(nodes@)),
    ensures
        r@.map_values(|k: usize| k as int) == visit_order(node_views(nodes@)),
        forall|k: int| 0 <= k < r@.len() ==> #[trigger] r@[k] < nodes@.len(),
{
    let ghost nv = node_views(nodes@);
    let mut r: Vec<usize> = Vec::new();
    if nodes.len() == 0 {
        assert(r@.map_values(|k: usize| k as int) =~= visit_order(nv));
        return r;
    }
    let mut stack: Vec<usize> = vec![0];
    let mut fuel: usize = nodes.len();
    assert(stack@.map_values(|k: usize| k as int) =~= seq![0int]);
    while fuel > 0 && stack.len() > 0
        invariant
            nv == node_views(nodes@),
            nodes_bounded(nv),
            nodes@.len() > 0,
            forall|k: int| 0 <= k < stack@.len() ==> #[trigger] stack@[k] < nodes@.len(),
            forall|k: int| 0 <= k < r@.len() ==> #[trigger] r@[k] < nodes@.len(),
            r@.map_values(|k: usize| k as int) + dfs(nv, stack@.map_values(|k: usize| k as int), fuel as nat)
                == visit_order(nv),
        decreases fuel,
    {
        let ghost sv = stack@.map_values(|k: usize| k as int);
        let i = stack.pop().unwrap();
        assert(sv.last() == i as int);
        assert(stack@.map_values(|k: usize| k as int) =~= sv.drop_last());
        let cs = node_children(nodes, i);
        let ghost rv = r@.map_values(|k: usize| k as int);
        r.push(i);
        assert(r@.map_values(|k: usize| k as int) =~= rv.push(i as int));
        let mut k: usize = 0;
        let ghost base = stack@.map_values(|k: usize| k as int);
        while k < cs.len()
            invariant
                k <= cs@.len(),
                stack@.map_values(|k: usize| k as int) == base + cs@.map_values(|k: usize| k as int).take(k as int),
                forall|m: int| 0 <= m < stack@.len() ==> #[trigger] stack@[m] < nodes@.len(),
                forall|m: int| 0 <= m < cs@.len() ==> i < #[trigger] cs@[m] < nodes@.len(),
            decreases cs@.len() - k,
        {
            let ghost before = stack@;
            stack.push(cs[k]);
            assert(stack@.map_values(|k: usize| k as int) =~= before.map_values(|k: usize| k as int).push(cs@[k as int] as int));
            k = k + 1;
            assert(cs@.map_values(|k: usize| k as int).take(k as int) =~= cs@.map_values(|k: usize| k as int).take(k - 1).push(cs@[k - 1] as int));
        }
        assert(cs@.map_values(|k: usize| k as int).take(k as int) =~= cs@.map_values(|k: usize| k as int));
        fuel = fuel - 1;
    }
    proof {
        assert(dfs(nv, stack@.map_values(|k: usize| k as int), fuel as nat) =~= Seq::<int>::empty());
        assert(r@.map_values(|k: usize| k as int) + Seq::<int>::empty() =~= r@.map_values(|k: usize| k as int));
    }
    r
}

// ---------------------------------------------------------------------------
// Node rules
// ---------------------------------------------------------------------------
/// A finding on the node starting at `row`: its marker is typed with the language.
pub open spec fn ts_finding(
    lang: SyntaxLanguage,
    relative: Seq<char>,
    row: usize,
    marker: Seq<char>,
    kind: WipKind,
    standing: Standing,
    label: Seq<char>,
    evidence: Seq<char>,
) -> FindingView {
    let line = (row + 1) as usize;
    let typed = "tree-sitter:"@ + lang_name(lang) + ":"@ + marker;
    FindingView {
        id: finding_id_of(relative, line as nat, typed),
        path: relative,
        line: line,
        marker: typed,
        kind: kind,
        standing: standing,
        message: "tree-sitter/"@ + lang_name(lang) + " "@ + label + ": "@ + compacted_evidence(evidence),
    }
}

fn push_finding(
    findings: &mut Vec<SourceFinding>,
    relative: &str,
    row: usize,
    lang: SyntaxLanguage,
    marker: &str,
    kind: WipKind,
    standing: Standing,
    label: &str,
    evidence: &str,
)
    requires
        row < u32::MAX,
    ensures
        finding_views(final(findings)@) == finding_views(old(findings)@).push(
            ts_finding(lang, relative@, row, marker@, kind, standing, label@, evidence@),
        ),
{
    let line = row + 1;
    let mut typed = owned("tree-sitter:");
    typed.append(lang.name());
    typed.append(":");
    typed.append(marker);
    let mut message = owned("tree-sitter/");
    message.append(lang.name());
    message.append(" ");
    message.append(label);
    message.append(": ");
    let c = compact(evidence);
    message.append(c.as_str());
    let f = SourceFinding {
        id: finding_id(relative, line, typed.as_str()),
        path: owned(relative),
        line: line,
        marker: typed,
        kind: kind,
        standing: standing,
        message: message,
    };
    findings.push(f);
    assert(finding_views(findings@) =~= finding_views(old(findings)@).push(f@));
}

pub open spec fn comment_marker(i: int) -> Seq<char> {
    if i == 0 {
        "TODO"@
    } else if i == 1 {
        "FIXME"@
    } else if i == 2 {
        "XXX"@
    } else if i == 3 {
        "HACK"@
    } else {
        "TBD"@
    }
}

fn comment_marker_exec(i: usize) -> (r: &'static str)
    requires
        i < 5,
    ensures
        r@ == comment_marker(i as int),
{
    match i {
        0 => "TODO",
        1 => "FIXME",
        2 => "XXX",
        3 => "HACK",
        _ => "TBD",
    }
}

/// Marker findings among the first `k` comment markers.
pub open spec fn comment_marker_findings(lang: SyntaxLanguage, relative: Seq<char>, n: NodeView, k: int) -> Seq<FindingView>
    decreases k,
{
    if k <= 0 {
        Seq::empty()
    } else {
        let prev = comment_marker_findings(lang, relative, n, k - 1);
        if contains(ascii_upper(n.text), comment_marker(k - 1)) {
            prev.push(
                ts_finding(
                    lang,
                    relative,
                    n.row,
                    comment_marker(k - 1),
                    spec_source_kind(relative),
                    Standing::PartialAlive,
                    "unfinished-work comment"@,
                    n.text,
                ),
            )
        } else {
            prev
        }
    }
}

/// Findings of a comment node: unfinished-work markers, a machine-local pointer, a declared status.
pub open spec fn comment_findings(lang: SyntaxLanguage, relative: Seq<char>, n: NodeView) -> Seq<FindingView> {
    comment_marker_findings(lang, relative, n, 5) + (if contains(n.text, "file:///"@) {
        seq![
            ts_finding(
                lang,
                relative,
                n.row,
                "machine-local-replay"@,
                WipKind::Replay,
                Standing::PartialAlive,
                "machine-local replay pointer"@,
                n.text,
            ),
        ]
    } else {
        Seq::empty()
    }) + match comment_status(n.text) {
        Some(d) => seq![ts_finding(lang, relative, n.row, d.0, d.1, d.2, d.3, n.text)],
        None => Seq::empty(),
    }
}

/// `ascii_lower(flatten_ws(text))`: the form the macro, call and command rules read.
pub open spec fn normalized(text: Seq<char>) -> Seq<char> {
    ascii_lower(flatten_ws(text))
}

/// One finding of a language rule, or none.
pub open spec fn one_if(
    cond: bool,
    lang: SyntaxLanguage,
    relative: Seq<char>,
    n: NodeView,
    marker: Seq<char>,
    standing: Standing,
    label: Seq<char>,
) -> Seq<FindingView> {
    if cond {
        seq![ts_finding(lang, relative, n.row, marker, spec_source_kind(relative), standing, label, n.text)]
    } else {
        Seq::empty()
    }
}

pub open spec fn rust_findings(relative: Seq<char>, n: NodeView) -> Seq<FindingView> {
    let m = normalized(n.text);
    if n.kind != "macro_invocation"@ {
        Seq::empty()
    } else if starts_with(m, "todo!"@) || contains(m, "::todo!"@) {
        one_if(true, SyntaxLanguage::Rust, relative, n, "todo!"@, Standing::PartialAlive, "Rust todo! macro"@)
    } else if starts_with(m, "unimplemented!"@) || contains(m, "::unimplemented!"@) {
        one_if(
            true,
            SyntaxLanguage::Rust,
            relative,
            n,
            "unimplemented!"@,
            Standing::PartialAlive,
            "Rust unimplemented! macro"@,
        )
    } else {
        one_if(
            starts_with(m, "panic!"@) && unfinished_phrase(m),
            SyntaxLanguage::Rust,
            relative,
            n,
            "panic-unfinished"@,
            Standing::PartialAlive,
            "Rust panic! unfinished implementation"@,
        )
    }
}

/// The first child of node `i` that sits under the `body` field.
pub open spec fn body_child_in(nodes: Seq<NodeView>, cs: Seq<int>, k: int) -> Option<int>
    decreases k,
{
    if k <= 0 {
        None
    } else {
        let prev = body_child_in(nodes, cs, k - 1);
        if prev is Some {
            prev
        } else if nodes[cs[k - 1]].field == Some("body"@) {
            Some(cs[k - 1])
        } else {
            None
        }
    }
}

pub open spec fn body_child(nodes: Seq<NodeView>, i: int) -> Option<int> {
    body_child_in(nodes, children(nodes, i), children(nodes, i).len() as int)
}

/// The named nodes among the first `k` of `cs`.
pub open spec fn named_in(nodes: Seq<NodeView>, cs: Seq<int>, k: int) -> Seq<int>
    decreases k,
{
    if k <= 0 {
        Seq::empty()
    } else {
        let prev = named_in(nodes, cs, k - 1);
        if nodes[cs[k - 1]].is_named {
            prev.push(cs[k - 1])
        } else {
            prev
        }
    }
}

pub open spec fn named_children(nodes: Seq<NodeView>, i: int) -> Seq<int> {
    named_in(nodes, children(nodes, i), children(nodes, i).len() as int)
}

/// A Python function whose body is only `pass` or only `...`.
pub open spec fn python_stub(relative: Seq<char>, nodes: Seq<NodeView>, i: int) -> Seq<FindingView> {
    let n = nodes[i];
    if n.kind == "function_definition"@ && body_child(nodes, i) is Some && named_children(
        nodes,
        body_child(nodes, i)->0,
    ).len() == 1 {
        let c = nodes[named_children(nodes, body_child(nodes, i)->0)[0]];
        let ct = trim(c.text);
        if c.kind == "pass_statement"@ {
            seq![
                ts_finding(
                    SyntaxLanguage::Python,
                    relative,
                    c.row,
                    "pass-stub"@,
                    spec_source_kind(relative),
                    Standing::PartialAlive,
                    "Python function body is only pass"@,
                    ct,
                ),
            ]
        } else if c.kind == "expression_statement"@ && ct == "..."@ {
            seq![
                ts_finding(
                    SyntaxLanguage::Python,
                    relative,
                    c.row,
                    "ellipsis-stub"@,
                    spec_source_kind(relative),
                    Standing::PartialAlive,
                    "Python function body is only ellipsis"@,
                    ct,
                ),
            ]
        } else {
            Seq::empty()
        }
    } else {
        Seq::empty()
    }
}

pub open spec fn python_findings(relative: Seq<char>, nodes: Seq<NodeView>, i: int) -> Seq<FindingView> {
    let n = nodes[i];
    python_stub(relative, nodes, i) + one_if(
        n.kind == "raise_statement"@ && (contains(n.text, "NotImplementedError"@) || unfinished_phrase(n.text)),
        SyntaxLanguage::Python,
        relative,
        n,
        "raise-not-implemented"@,
        Standing::PartialAlive,
        "Python raises an unfinished-implementation sentinel"@,
    )
}

/// The language-specific rule for one node.
pub open spec fn language_findings(lang: SyntaxLanguage, relative: Seq<char>, nodes: Seq<NodeView>, i: int) -> Seq<FindingView> {
    let n = nodes[i];
    match lang {
        SyntaxLanguage::Rust => rust_findings(relative, n),
        SyntaxLanguage::Python => python_findings(relative, nodes, i),
        SyntaxLanguage::Go => one_if(
            n.kind == "call_expression"@ && starts_with(normalized(n.text), "panic("@) && unfinished_phrase(
                normalized(n.text),
            ),
            lang,
            relative,
            n,
            "panic-unfinished"@,
            Standing::PartialAlive,
            "Go panic marks unfinished implementation"@,
        ),
        SyntaxLanguage::Java => one_if(
            n.kind == "throw_statement"@ && (contains(n.text, "UnsupportedOperationException"@) || contains(
                n.text,
                "NotImplementedException"@,
            ) || unfinished_phrase(n.text)),
            lang,
            relative,
            n,
            "throw-not-implemented"@,
            Standing::PartialAlive,
            "Java throw marks unfinished implementation"@,
        ),
        SyntaxLanguage::CSharp => one_if(
            (n.kind == "throw_statement"@ || n.kind == "throw_expression"@) && (contains(
                n.text,
                "NotImplementedException"@,
            ) || unfinished_phrase(n.text)),
            lang,
            relative,
            n,
            "throw-not-implemented"@,
            Standing::PartialAlive,
            "C# throw marks unfinished implementation"@,
        ),
        SyntaxLanguage::C | SyntaxLanguage::Cpp => one_if(
            (n.kind == "preproc_call"@ || n.kind == "preproc_def"@) && starts_with(normalized(n.text), "#error"@)
                && unfinished_phrase(normalized(n.text)),
            lang,
            relative,
            n,
            "preprocessor-unfinished"@,
            Standing::BuildBroken,
            "C/C++ preprocessor error marks unfinished implementation"@,
        ),
        SyntaxLanguage::TypeScript | SyntaxLanguage::Tsx | SyntaxLanguage::JavaScript => one_if(
            n.kind == "throw_statement"@ && unfinished_phrase(n.text),
            lang,
            relative,
            n,
            "throw-not-implemented"@,
            Standing::PartialAlive,
            "JavaScript/TypeScript throw marks unfinished implementation"@,
        ),
        SyntaxLanguage::Bash => one_if(
            n.kind == "command"@ && starts_with(normalized(n.text), "exit "@) && unfinished_phrase(
                normalized(n.text),
            ),
            lang,
            relative,
            n,
            "exit-unfinished"@,
            Standing::PartialAlive,
            "Bash command marks unfinished implementation"@,
        ),
    }
}

/// Findings of one node: a syntax error; or a comment's findings; or a
/// machine-local pointer in a string, then the language rule.
pub open spec fn node_findings(lang: SyntaxLanguage, relative: Seq<char>, nodes: Seq<NodeView>, i: int) -> Seq<FindingView> {
    let n = nodes[i];
    if n.is_error || n.is_missing {
        seq![
            ts_finding(
                lang,
                relative,
                n.row,
                "syntax-error"@,
                spec_source_kind(relative),
                Standing::BuildBroken,
                "Tree-sitter syntax error or missing syntax node"@,
                n.text,
            ),
        ]
    } else if comment_kind(n.kind) {
        comment_findings(lang, relative, n)
    } else {
        (if string_kind(n.kind) && contains(n.text, "file:///"@) {
            seq![
                ts_finding(
                    lang,
                    relative,
                    n.row,
                    "machine-local-replay"@,
                    WipKind::Replay,
                    Standing::PartialAlive,
                    "machine-local replay pointer"@,
                    n.text,
                ),
            ]
        } else {
            Seq::empty()
        }) + language_findings(lang, relative, nodes, i)
    }
}

fn kind_is(n: &SyntaxNode, lit: &str) -> (b: bool)
    ensures
        b == (n.kind@ == lit@),
{
    crate::text::eq_text(n.kind.as_str(), lit)
}

fn text_has(n: &SyntaxNode, lit: &str) -> (b: bool)
    ensures
        b == contains(n.text@, lit@),
{
    crate::text::contains_text(n.text.as_str(), lit)
}

fn normalized_exec(text: &str) -> (r: Vec<char>)
    ensures
        r@ == normalized(text@),
{
    let f = compact_whitespace(text);
    let c = chars_of(f.as_str());
    ascii_lower_chars(c.as_slice())
}

fn comment_scan(lang: SyntaxLanguage, relative: &str, n: &SyntaxNode, out: &mut Vec<SourceFinding>)
    requires
        n.row < u32::MAX,
    ensures
        finding_views(final(out)@) == finding_views(old(out)@) + comment_findings(lang, relative@, n@),
{
    let text = n.text.as_str();
    let t = chars_of(text);
    let upper = ascii_upper_chars(t.as_slice());
    let kind = source_kind(relative);
    let ghost base = finding_views(out@);
    let mut k: usize = 0;
    assert(base + comment_marker_findings(lang, relative@, n@, 0) =~= base);
    while k < 5
        invariant
            k <= 5,
            n.row < u32::MAX,
            upper@ == ascii_upper(n.text@),
            text@ == n.text@,
            kind == spec_source_kind(relative@),
            finding_views(out@) == base + comment_marker_findings(lang, relative@, n@, k as int),
        decreases 5 - k,
    {
        let m = comment_marker_exec(k);
        if lit_in(upper.as_slice(), m) {
            let ghost b0 = finding_views(out@);
            push_finding(out, relative, n.row, lang, m, kind, Standing::PartialAlive, "unfinished-work comment", text);
            assert(finding_views(out@) =~= base + comment_marker_findings(lang, relative@, n@, k + 1));
        }
        k = k + 1;
    }
    let ghost mid = finding_views(out@);
    if text_has(n, "file:///") {
        push_finding(
            out,
            relative,
            n.row,
            lang,
            "machine-local-replay",
            WipKind::Replay,
            Standing::PartialAlive,
            "machine-local replay pointer",
            text,
        );
    }
    let ghost mid2 = finding_views(out@);
    match classify_comment_status(text) {
        Some(d) => {
            push_finding(out, relative, n.row, lang, d.0, d.1, d.2, d.3, text);
        },
        None => {},
    }
    assert(finding_views(out@) =~= base + comment_findings(lang, relative@, n@));
}

fn rust_scan(relative: &str, n: &SyntaxNode, out: &mut Vec<SourceFinding>)
    requires
        n.row < u32::MAX,
    ensures
        finding_views(final(out)@) == finding_views(old(out)@) + rust_findings(relative@, n@),
{
    if !kind_is(n, "macro_invocation") {
        assert(finding_views(out@) =~= finding_views(old(out)@) + rust_findings(relative@, n@));
        return;
    }
    let m = normalized_exec(n.text.as_str());
    let m = m.as_slice();
    let kind = source_kind(relative);
    let text = n.text.as_str();
    if lit_prefix(m, "todo!") || lit_in(m, "::todo!") {
        push_finding(out, relative, n.row, SyntaxLanguage::Rust, "todo!", kind, Standing::PartialAlive, "Rust todo! macro", text);
    } else if lit_prefix(m, "unimplemented!") || lit_in(m, "::unimplemented!") {
        push_finding(
            out,
            relative,
            n.row,
            SyntaxLanguage::Rust,
            "unimplemented!",
            kind,
            Standing::PartialAlive,
            "Rust unimplemented! macro",
            text,
        );
    } else {
        let mv = string_of(m);
        if lit_prefix(m, "panic!") && contains_unfinished_phrase(mv.as_str()) {
            assert(ascii_lower(m@) == m@) by {
                lemma_ascii_lower_idem(flatten_ws(n.text@));
            }
            push_finding(
                out,
                relative,
                n.row,
                SyntaxLanguage::Rust,
                "panic-unfinished",
                kind,
                Standing::PartialAlive,
                "Rust panic! unfinished implementation",
                text,
            );
        } else {
            proof {
                lemma_ascii_lower_idem(flatten_ws(n.text@));
            }
        }
    }
    assert(finding_views(out@) =~= finding_views(old(out)@) + rust_findings(relative@, n@));
}

/// Lower-casing twice is lower-casing once.
pub proof fn lemma_ascii_lower_idem(s: Seq<char>)
    ensures
        ascii_lower(ascii_lower(s)) == ascii_lower(s),
{
    assert(ascii_lower(ascii_lower(s)) =~= ascii_lower(s));
}

fn body_child_exec(nodes: &Vec<SyntaxNode>, i: usize) -> (r: Option<usize>)
    requires
        i < nodes@.len(),
        nodes_bounded(node_views(nodes@)),
    ensures
        match r {
            Some(b) => body_child(node_views(nodes@), i as int) == Some(b as int) && b < nodes@.len(),
            None => body_child(node_views(nodes@), i as int) is None,
        },
{
    let ghost nv = node_views(nodes@);
    let cs = node_children(nodes, i);
    let ghost cv = cs@.map_values(|k: usize| k as int);
    let mut k: usize = 0;
    while k < cs.len()
        invariant
            k <= cs@.len(),
            nv == node_views(nodes@),
            cv == cs@.map_values(|k: usize| k as int),
            cv == children(nv, i as int),
            forall|m: int| 0 <= m < cs@.len() ==> i < #[trigger] cs@[m] < nodes@.len(),
            body_child_in(nv, cv, k as int) is None,
        decreases cs@.len() - k,
    {
        let c = cs[k];
        assert(nv[c as int] == nodes@[c as int]@);
        let is_body = match &nodes[c].field {
            Some(f) => crate::text::eq_text(f.as_str(), "body"),
            None => false,
        };
        if is_body {
            assert(body_child_in(nv, cv, k + 1) == Some(c as int));
            proof {
                lemma_body_child_stable(nv, cv, k + 1, cv.len() as int);
            }
            return Some(c);
        }
        k = k + 1;
    }
    None
}

proof fn lemma_body_child_stable(nodes: Seq<NodeView>, cs: Seq<int>, k: int, m: int)
    requires
        0 <= k <= m,
        body_child_in(nodes, cs, k) is Some,
    ensures
        body_child_in(nodes, cs, m) == body_child_in(nodes, cs, k),
    decreases m - k,
{
    if m > k {
        lemma_body_child_stable(nodes, cs, k, m - 1);
    }
}

fn named_children_exec(nodes: &Vec<SyntaxNode>, b: usize) -> (r: Vec<usize>)
    requires
        b < nodes@.len(),
        nodes_bounded(node_views(nodes@)),
    ensures
        r@.map_values(|k: usize| k as int) == named_children(node_views(nodes@), b as int),
        forall|m: int| 0 <= m < r@.len() ==> #[trigger] r@[m] < nodes@.len(),
{
    let ghost nv = node_views(nodes@);
    let cs = node_children(nodes, b);
    let ghost cv = cs@.map_values(|k: usize| k as int);
    let mut r: Vec<usize> = Vec::new();
    let mut k: usize = 0;
    assert(r@.map_values(|k: usize| k as int) =~= named_in(nv, cv, 0));
    while k < cs.len()
        invariant
            k <= cs@.len(),
            nv == node_views(nodes@),
            cv == cs@.map_values(|k: usize| k as int),
            forall|m: int| 0 <= m < cs@.len() ==> b < #[trigger] cs@[m] < nodes@.len(),
            forall|m: int| 0 <= m < r@.len() ==> #[trigger] r@[m] < nodes@.len(),
            r@.map_values(|k: usize| k as int) == named_in(nv, cv, k as int),
        decreases cs@.len() - k,
    {
        let c = cs[k];
        assert(nv[c as int] == nodes@[c as int]@);
        if nodes[c].is_named {
            let ghost before = r@.map_values(|k: usize| k as int);
            r.push(c);
            assert(r@.map_values(|k: usize| k as int) =~= before.push(c as int));
        }
        k = k + 1;
    }
    r
}

fn python_scan(relative: &str, nodes: &Vec<SyntaxNode>, i: usize, out: &mut Vec<SourceFinding>)
    requires
        i < nodes@.len(),
        nodes_bounded(node_views(nodes@)),
    ensures
        finding_views(final(out)@) == finding_views(old(out)@) + python_findings(relative@, node_views(nodes@), i as int),
{
    let ghost nv = node_views(nodes@);
    let n = &nodes[i];
    assert(nv[i as int] == n@);
    let kind = source_kind(relative);
    if kind_is(n, "function_definition") {
        match body_child_exec(nodes, i) {
            Some(b) => {
                let named = named_children_exec(nodes, b);
                if named.len() == 1 {
                    let c = &nodes[named[0]];
                    assert(nv[named@[0] as int] == c@);
                    let ct = trim_chars(chars_of(c.text.as_str()).as_slice());
                    let cts = string_of(ct.as_slice());
                    if kind_is(c, "pass_statement") {
                        push_finding(
                            out,
                            relative,
                            c.row,
                            SyntaxLanguage::Python,
                            "pass-stub",
                            kind,
                            Standing::PartialAlive,
                            "Python function body is only pass",
                            cts.as_str(),
                        );
                    } else if kind_is(c, "expression_statement") && lit_eq(ct.as_slice(), "...") {
                        push_finding(
                            out,
                            relative,
                            c.row,
                            SyntaxLanguage::Python,
                            "ellipsis-stub",
                            kind,
                            Standing::PartialAlive,
                            "Python function body is only ellipsis",
                            cts.as_str(),
                        );
                    }
                }
            },
            None => {},
        }
    }
    let ghost mid = finding_views(out@);
    assert(mid =~= finding_views(old(out)@) + python_stub(relative@, nv, i as int));
    if kind_is(n, "raise_statement") && (text_has(n, "NotImplementedError") || contains_unfinished_phrase(n.text.as_str())) {
        push_finding(
            out,
            relative,
            n.row,
            SyntaxLanguage::Python,
            "raise-not-implemented",
            kind,
            Standing::PartialAlive,
            "Python raises an unfinished-implementation sentinel",
            n.text.as_str(),
        );
    }
    assert(finding_views(out@) =~= finding_views(old(out)@) + python_findings(relative@, nv, i as int));
}

fn rule_if(
    cond: bool,
    lang: SyntaxLanguage,
    relative: &str,
    n: &SyntaxNode,
    marker: &str,
    standing: Standing,
    label: &str,
    out: &mut Vec<SourceFinding>,
)
    requires
        n.row < u32::MAX,
    ensures
        finding_views(final(out)@) == finding_views(old(out)@) + one_if(cond, lang, relative@, n@, marker@, standing, label@),
{
    if cond {
        let kind = source_kind(relative);
        push_finding(out, relative, n.row, lang, marker, kind, standing, label, n.text.as_str());
    }
    assert(finding_views(out@) =~= finding_views(old(out)@) + one_if(cond, lang, relative@, n@, marker@, standing, label@));
}

fn language_scan(lang: SyntaxLanguage, relative: &str, nodes: &Vec<SyntaxNode>, i: usize, out: &mut Vec<SourceFinding>)
    requires
        i < nodes@.len(),
        nodes_bounded(node_views(nodes@)),
    ensures
        finding_views(final(out)@) == finding_views(old(out)@) + language_findings(lang, relative@, node_views(nodes@), i as int),
{
    let ghost nv = node_views(nodes@);
    let n = &nodes[i];
    assert(nv[i as int] == n@);
    match lang {
        SyntaxLanguage::Rust => rust_scan(relative, n, out),
        SyntaxLanguage::Python => python_scan(relative, nodes, i, out),
        SyntaxLanguage::Go => {
            let m = normalized_exec(n.text.as_str());
            let ms = string_of(m.as_slice());
            proof {
                lemma_ascii_lower_idem(flatten_ws(n.text@));
            }
            let cond = kind_is(n, "call_expression") && lit_prefix(m.as_slice(), "panic(") && contains_unfinished_phrase(
                ms.as_str(),
            );
            rule_if(cond, lang, relative, n, "panic-unfinished", Standing::PartialAlive, "Go panic marks unfinished implementation", out);
        },
        SyntaxLanguage::Java => {
            let cond = kind_is(n, "throw_statement") && (text_has(n, "UnsupportedOperationException") || text_has(
                n,
                "NotImplementedException",
            ) || contains_unfinished_phrase(n.text.as_str()));
            rule_if(
                cond,
                lang,
                relative,
                n,
                "throw-not-implemented",
                Standing::PartialAlive,
                "Java throw marks unfinished implementation",
                out,
            );
        },
        SyntaxLanguage::CSharp => {
            let cond = (kind_is(n, "throw_statement") || kind_is(n, "throw_expression")) && (text_has(
                n,
                "NotImplementedException",
            ) || contains_unfinished_phrase(n.text.as_str()));
            rule_if(
                cond,
                lang,
                relative,
                n,
                "throw-not-implemented",
                Standing::PartialAlive,
                "C# throw marks unfinished implementation",
                out,
            );
        },
        SyntaxLanguage::C | SyntaxLanguage::Cpp => {
            let m = normalized_exec(n.text.as_str());
            let ms = string_of(m.as_slice());
            proof {
                lemma_ascii_lower_idem(flatten_ws(n.text@));
            }
            let cond = (kind_is(n, "preproc_call") || kind_is(n, "preproc_def")) && lit_prefix(m.as_slice(), "#error")
                && contains_unfinished_phrase(ms.as_str());
            rule_if(
                cond,
                lang,
                relative,
                n,
                "preprocessor-unfinished",
                Standing::BuildBroken,
                "C/C++ preprocessor error marks unfinished implementation",
                out,
            );
        },
        SyntaxLanguage::TypeScript | SyntaxLanguage::Tsx | SyntaxLanguage::JavaScript => {
            let cond = kind_is(n, "throw_statement") && contains_unfinished_phrase(n.text.as_str());
            rule_if(
                cond,
                lang,
                relative,
                n,
                "throw-not-implemented",
                Standing::PartialAlive,
                "JavaScript/TypeScript throw marks unfinished implementation",
                out,
            );
        },
        SyntaxLanguage::Bash => {
            let m = normalized_exec(n.text.as_str());
            let ms = string_of(m.as_slice());
            proof {
                lemma_ascii_lower_idem(flatten_ws(n.text@));
            }
            let cond = kind_is(n, "command") && lit_prefix(m.as_slice(), "exit ") && contains_unfinished_phrase(ms.as_str());
            rule_if(cond, lang, relative, n, "exit-unfinished", Standing::PartialAlive, "Bash command marks unfinished implementation", out);
        },
    }
}

fn node_scan(lang: SyntaxLanguage, relative: &str, nodes: &Vec<SyntaxNode>, i: usize, out: &mut Vec<SourceFinding>)
    requires
        i < nodes@.len(),
        nodes_bounded(node_views(nodes@)),
    ensures
        finding_views(final(out)@) == finding_views(old(out)@) + node_findings(lang, relative@, node_views(nodes@), i as int),
{
    let ghost nv = node_views(nodes@);
    let n = &nodes[i];
    assert(nv[i as int] == n@);
    if n.is_error || n.is_missing {
        let kind = source_kind(relative);
        push_finding(
            out,
            relative,
            n.row,
            lang,
            "syntax-error",
            kind,
            Standing::BuildBroken,
            "Tree-sitter syntax error or missing syntax node",
            n.text.as_str(),
        );
    } else if is_comment_node(n.kind.as_str()) {
        comment_scan(lang, relative, n, out);
    } else {
        if is_string_node(n.kind.as_str()) && text_has(n, "file:///") {
            push_finding(
                out,
                relative,
                n.row,
                lang,
                "machine-local-replay",
                WipKind::Replay,
                Standing::PartialAlive,
                "machine-local replay pointer",
                n.text.as_str(),
            );
        }
        let ghost mid = finding_views(out@);
        language_scan(lang, relative, nodes, i, out);
    }
    assert(finding_views(out@) =~= finding_views(old(out)@) + node_findings(lang, relative@, nv, i as int));
}

// ---------------------------------------------------------------------------
// Whole files
// ---------------------------------------------------------------------------
/// Findings of the nodes at the first `k` positions of `order`.
pub open spec fn visit_findings(lang: SyntaxLanguage, relative: Seq<char>, nodes: Seq<NodeView>, order: Seq<int>, k: int) -> Seq<FindingView>
    decreases k,
{
    if k <= 0 {
        Seq::empty()
    } else {
        visit_findings(lang, relative, nodes, order, k - 1) + node_findings(lang, relative, nodes, order[k - 1])
    }
}

/// Findings of a parsed file: every node's, in visit order, then sorted by
/// path, line and marker with repeated identities dropped.
pub open spec fn ast_findings(lang: SyntaxLanguage, relative: Seq<char>, nodes: Seq<NodeView>) -> Seq<FindingView> {
    let order = visit_order(nodes);
    dedup_adjacent(sort_stable(visit_findings(lang, relative, nodes, order, order.len() as int)))
}

/// Syntax-error and missing nodes at the first `k` positions of `order`.
pub open spec fn broken_count(nodes: Seq<NodeView>, order: Seq<int>, k: int) -> nat
    decreases k,
{
    if k <= 0 {
        0
    } else {
        broken_count(nodes, order, k - 1) + if nodes[order[k - 1]].is_error || nodes[order[k - 1]].is_missing {
            1nat
        } else {
            0nat
        }
    }
}

/// How many error or missing nodes a parse has.
pub open spec fn error_score(nodes: Seq<NodeView>) -> nat {
    broken_count(nodes, visit_order(nodes), visit_order(nodes).len() as int)
}

/// The findings of a parsed file with one grammar.
pub fn syntax_findings(lang: SyntaxLanguage, relative: &str, nodes: &Vec<SyntaxNode>) -> (r: Vec<SourceFinding>)
    requires
        nodes_bounded(node_views(nodes@)),
    ensures
        finding_views(r@) == ast_findings(lang, relative@, node_views(nodes@)),
{
    let ghost nv = node_views(nodes@);
    let order = visit_nodes(nodes);
    let ghost ov = order@.map_values(|k: usize| k as int);
    let mut found: Vec<SourceFinding> = Vec::new();
    let mut k: usize = 0;
    assert(finding_views(found@) =~= visit_findings(lang, relative@, nv, ov, 0));
    while k < order.len()
        invariant
            k <= order@.len(),
            nv == node_views(nodes@),
            nodes_bounded(nv),
            ov == order@.map_values(|k: usize| k as int),
            forall|m: int| 0 <= m < order@.len() ==> #[trigger] order@[m] < nodes@.len(),
            finding_views(found@) == visit_findings(lang, relative@, nv, ov, k as int),
        decreases order@.len() - k,
    {
        node_scan(lang, relative, nodes, order[k], &mut found);
        k = k + 1;
    }
    sort_and_dedup_findings(&found)
}

fn error_score_exec(nodes: &Vec<SyntaxNode>) -> (r: usize)
    requires
        nodes_bounded(node_views(nodes@)),
    ensures
        r == error_score(node_views(nodes@)),
{
    let ghost nv = node_views(nodes@);
    let order = visit_nodes(nodes);
    let ghost ov = order@.map_values(|k: usize| k as int);
    let mut errors: usize = 0;
    let mut k: usize = 0;
    while k < order.len()
        invariant
            k <= order@.len(),
            nv == node_views(nodes@),
            ov == order@.map_values(|k: usize| k as int),
            forall|m: int| 0 <= m < order@.len() ==> #[trigger] order@[m] < nodes@.len(),
            errors == broken_count(nv, ov, k as int),
            errors <= k,
        decreases order@.len() - k,
    {
        let n = &nodes[order[k]];
        assert(nv[ov[k as int]] == n@);
        if n.is_error || n.is_missing {
            errors = errors + 1;
        }
        k = k + 1;
    }
    errors
}

/// What a parse gave, as values.
pub enum OutcomeView {
    LoadFailed,
    Unavailable,
    Parsed(Seq<NodeView>),
}

pub open spec fn outcome_view(o: ParseOutcome) -> OutcomeView {
    match o {
        ParseOutcome::LoadFailed => OutcomeView::LoadFailed,
        ParseOutcome::Unavailable => OutcomeView::Unavailable,
        ParseOutcome::Parsed(nodes) => OutcomeView::Parsed(node_views(nodes@)),
    }
}

pub open spec fn outcome_views(v: Seq<(SyntaxLanguage, ParseOutcome)>) -> Seq<(SyntaxLanguage, OutcomeView)> {
    v.map_values(|p: (SyntaxLanguage, ParseOutcome)| (p.0, outcome_view(p.1)))
}

/// The first parse with the fewest error nodes among the first `k`, with its score.
pub open spec fn best_parse(outs: Seq<(SyntaxLanguage, OutcomeView)>, k: int) -> Option<(SyntaxLanguage, Seq<NodeView>, nat)>
    decreases k,
{
    if k <= 0 {
        None
    } else {
        let prev = best_parse(outs, k - 1);
        match outs[k - 1].1 {
            OutcomeView::Parsed(nodes) => match prev {
                Some(p) => if error_score(nodes) < p.2 {
                    Some((outs[k - 1].0, nodes, error_score(nodes)))
                } else {
                    prev
                },
                None => Some((outs[k - 1].0, nodes, error_score(nodes))),
            },
            _ => prev,
        }
    }
}

/// Some grammar among the first `k` could not be loaded.
pub open spec fn any_load_failed(outs: Seq<(SyntaxLanguage, OutcomeView)>, k: int) -> bool {
    exists|i: int| 0 <= i < k && (#[trigger] outs[i]).1 is LoadFailed
}

/// The one finding for a file whose admitted grammars all failed to parse it.
pub open spec fn parse_failure(relative: Seq<char>, load_failed: bool) -> FindingView {
    let marker = if load_failed {
        "TREE_SITTER_LANGUAGE_LOAD"@
    } else {
        "TREE_SITTER_PARSE_UNAVAILABLE"@
    };
    FindingView {
        id: finding_id_of(relative, 1, marker),
        path: relative,
        line: 1,
        marker: marker,
        kind: spec_source_kind(relative),
        standing: Standing::Unsupported,
        message: "tree-sitter parser unavailable for admitted extension: "@ + relative,
    }
}

/// Findings of a file from the parses of its candidate grammars: those of the
/// best parse, else the one parser-unavailable finding.
pub open spec fn scan_outcomes(relative: Seq<char>, outs: Seq<(SyntaxLanguage, OutcomeView)>) -> Seq<FindingView> {
    match best_parse(outs, outs.len() as int) {
        Some(b) => ast_findings(b.0, relative, b.1),
        None => seq![parse_failure(relative, any_load_failed(outs, outs.len() as int))],
    }
}

pub open spec fn outcomes_bounded(outs: Seq<(SyntaxLanguage, OutcomeView)>) -> bool {
    forall|i: int| 0 <= i < outs.len() ==> ((#[trigger] outs[i]).1 matches OutcomeView::Parsed(nodes) ==> nodes_bounded(nodes))
}

/// Findings of a file given what each candidate grammar's parse gave.
pub fn scan_parse_outcomes(relative: &str, outs: &Vec<(SyntaxLanguage, ParseOutcome)>) -> (r: Vec<SourceFinding>)
    requires
        outcomes_bounded(outcome_views(outs@)),
    ensures
        finding_views(r@) == scan_outcomes(relative@, outcome_views(outs@)),
{
    let ghost ov = outcome_views(outs@);
    let mut best: Option<(usize, usize)> = None;
    let mut load_failed = false;
    let mut k: usize = 0;
    while k < outs.len()
        invariant
            k <= outs@.len(),
            ov == outcome_views(outs@),
            outcomes_bounded(ov),
            load_failed == any_load_failed(ov, k as int),
            match best {
                Some((b, score)) => {
                    &&& b < k
                    &&& outs@[b as int].1 is Parsed
                    &&& best_parse(ov, k as int) == Some(
                        (outs@[b as int].0, node_views(outs@[b as int].1->Parsed_0@), score as nat),
                    )
                },
                None => best_parse(ov, k as int) is None,
            },
        decreases outs@.len() - k,
    {
        assert(ov[k as int] == (outs@[k as int].0, outcome_view(outs@[k as int].1)));
        match &outs[k].1 {
            ParseOutcome::LoadFailed => {
                load_failed = true;
            },
            ParseOutcome::Unavailable => {},
            ParseOutcome::Parsed(nodes) => {
                assert(nodes_bounded(node_views(nodes@)));
                let score = error_score_exec(nodes);
                let replace = match best {
                    None => true,
                    Some((_, current)) => score < current,
                };
                if replace {
                    best = Some((k, score));
                }
            },
        }
        proof {
            assert forall|i: int| 0 <= i < k + 1 && (#[trigger] ov[i]).1 is LoadFailed implies load_failed by {
                if i == k {
                }
            }
            if load_failed {
                if outs@[k as int].1 is LoadFailed {
                    assert(ov[k as int].1 is LoadFailed);
                }
            }
        }
        k = k + 1;
    }
    match best {
        Some((b, _)) => {
            let lang = outs[b].0;
            match &outs[b].1 {
                ParseOutcome::Parsed(nodes) => {
                    assert(ov[b as int] == (outs@[b as int].0, outcome_view(outs@[b as int].1)));
                    syntax_findings(lang, relative, nodes)
                },
                _ => {
                    assert(false);
                    Vec::new()
                },
            }
        },
        None => {
            let marker = if load_failed {
                "TREE_SITTER_LANGUAGE_LOAD"
            } else {
                "TREE_SITTER_PARSE_UNAVAILABLE"
            };
            let mut message = owned("tree-sitter parser unavailable for admitted extension: ");
            message.append(relative);
            let f = SourceFinding {
                id: finding_id(relative, 1, marker),
                path: owned(relative),
                line: 1,
                marker: owned(marker),
                kind: source_kind(relative),
                standing: Standing::Unsupported,
                message: message,
            };
            let r = vec![f];
            assert(finding_views(r@) =~= scan_outcomes(relative@, ov));
            r
        },
    }
}

/// What parsing `text` with `lang`'s grammar gives: a load failure when
/// tree-sitter refuses the grammar, else the nodes `syntax_nodes(lang, text)`.
pub open spec fn parse_outcome(lang: SyntaxLanguage, text: Seq<char>) -> OutcomeView {
    if grammar_accepted(lang) {
        OutcomeView::Parsed(syntax_nodes(lang, text))
    } else {
        OutcomeView::LoadFailed
    }
}

/// Each candidate grammar with what parsing `text` with it gives.
pub open spec fn parse_outcomes(cands: Seq<SyntaxLanguage>, text: Seq<char>) -> Seq<(SyntaxLanguage, OutcomeView)> {
    cands.map_values(|l: SyntaxLanguage| (l, parse_outcome(l, text)))
}

/// Parses one file with each grammar admitted for its extension and emits its
/// AST findings. `None` means no grammar is admitted for the path (the caller
/// may fall back to the line scanner); `Some` means the grammars owned the scan,
/// parser failures included: the findings are `scan_outcomes` of what parsing
/// `source` with each candidate grammar gives.
pub fn scan_tree_sitter_file(path: &str, relative: &str, source: &str) -> (r: Option<Vec<SourceFinding>>)
    ensures
        r is None <==> path_grammars(path@) is None,
        r matches Some(found) ==> path_grammars(path@) matches Some(cands) && finding_views(found@) == scan_outcomes(
            relative@,
            parse_outcomes(cands, source@),
        ),
{
    let candidates = match candidates_for_path(path) {
        Some(c) => c,
        None => return None,
    };
    let mut outs: Vec<(SyntaxLanguage, ParseOutcome)> = Vec::new();
    let mut k: usize = 0;
    while k < candidates.len()
        invariant
            k <= candidates@.len(),
            outcomes_bounded(outcome_views(outs@)),
            outcome_views(outs@) == parse_outcomes(candidates@.take(k as int), source@),
        decreases candidates@.len() - k,
    {
        let lang = candidates[k];
        let o = parse_file(lang, source);
        let ghost before = outcome_views(outs@);
        outs.push((lang, o));
        proof {
            assert(outcome_views(outs@) =~= before.push((lang, outcome_view(o))));
            assert(outcome_view(o) == parse_outcome(lang, source@));
            assert(candidates@.take(k + 1) =~= candidates@.take(k as int).push(lang));
            assert(parse_outcomes(candidates@.take(k + 1), source@) =~= parse_outcomes(candidates@.take(k as int), source@).push(
                (lang, parse_outcome(lang, source@)),
            ));
        }
        k = k + 1;
    }
    assert(candidates@.take(k as int) =~= candidates@);
    assert(outcomes_bounded(outcome_views(outs@)));
    let found = scan_parse_outcomes(relative, &outs);
    Some(found)
}

/// Every finding of the sequence has the identity derived from its path, line and marker.
pub open spec fn all_sound(s: Seq<FindingView>) -> bool {
    forall|k: int| 0 <= k < s.len() ==> finding_id_sound(#[trigger] s[k])
}

proof fn lemma_ts_finding_sound(
    lang: SyntaxLanguage,
    relative: Seq<char>,
    row: usize,
    marker: Seq<char>,
    kind: WipKind,
    standing: Standing,
    label: Seq<char>,
    evidence: Seq<char>,
)
    ensures
        all_sound(seq![ts_finding(lang, relative, row, marker, kind, standing, label, evidence)]),
{
    reveal(finding_id_sound);
    let f = ts_finding(lang, relative, row, marker, kind, standing, label, evidence);
    assert(finding_id_sound(f));
    assert forall|k: int| 0 <= k < seq![f].len() implies finding_id_sound(#[trigger] seq![f][k]) by {
        assert(seq![f][k] == f);
    }
}

proof fn lemma_sound_add(a: Seq<FindingView>, b: Seq<FindingView>)
    requires
        all_sound(a),
        all_sound(b),
    ensures
        all_sound(a + b),
{
    assert forall|k: int| 0 <= k < (a + b).len() implies finding_id_sound(#[trigger] (a + b)[k]) by {
        if k < a.len() {
            assert((a + b)[k] == a[k]);
        } else {
            assert((a + b)[k] == b[k - a.len()]);
        }
    }
}

proof fn lemma_one_if_sound(
    cond: bool,
    lang: SyntaxLanguage,
    relative: Seq<char>,
    n: NodeView,
    marker: Seq<char>,
    standing: Standing,
    label: Seq<char>,
)
    ensures
        all_sound(one_if(cond, lang, relative, n, marker, standing, label)),
{
    lemma_ts_finding_sound(lang, relative, n.row, marker, spec_source_kind(relative), standing, label, n.text);
}

proof fn lemma_comment_markers_sound(lang: SyntaxLanguage, relative: Seq<char>, n: NodeView, k: int)
    ensures
        all_sound(comment_marker_findings(lang, relative, n, k)),
    decreases k,
{
    if k > 0 {
        lemma_comment_markers_sound(lang, relative, n, k - 1);
        let prev = comment_marker_findings(lang, relative, n, k - 1);
        let f = ts_finding(
            lang,
            relative,
            n.row,
            comment_marker(k - 1),
            spec_source_kind(relative),
            Standing::PartialAlive,
            "unfinished-work comment"@,
            n.text,
        );
        lemma_ts_finding_sound(
            lang,
            relative,
            n.row,
            comment_marker(k - 1),
            spec_source_kind(relative),
            Standing::PartialAlive,
            "unfinished-work comment"@,
            n.text,
        );
        lemma_sound_add(prev, seq![f]);
        assert(prev.push(f) =~= prev + seq![f]);
    }
}

proof fn lemma_node_findings_sound(lang: SyntaxLanguage, relative: Seq<char>, nodes: Seq<NodeView>, i: int)
    ensures
        all_sound(node_findings(lang, relative, nodes, i)),
{
    let n = nodes[i];
    if n.is_error || n.is_missing {
        lemma_ts_finding_sound(
            lang,
            relative,
            n.row,
            "syntax-error"@,
            spec_source_kind(relative),
            Standing::BuildBroken,
            "Tree-sitter syntax error or missing syntax node"@,
            n.text,
        );
    } else if comment_kind(n.kind) {
        lemma_comment_markers_sound(lang, relative, n, 5);
        lemma_ts_finding_sound(lang, relative, n.row, "machine-local-replay"@, WipKind::Replay, Standing::PartialAlive, "machine-local replay pointer"@, n.text);
        let a = comment_marker_findings(lang, relative, n, 5);
        let b: Seq<FindingView> = if contains(n.text, "file:///"@) {
            seq![ts_finding(lang, relative, n.row, "machine-local-replay"@, WipKind::Replay, Standing::PartialAlive, "machine-local replay pointer"@, n.text)]
        } else {
            Seq::empty()
        };
        let c: Seq<FindingView> = match comment_status(n.text) {
            Some(d) => seq![ts_finding(lang, relative, n.row, d.0, d.1, d.2, d.3, n.text)],
            None => Seq::empty(),
        };
        if let Some(d) = comment_status(n.text) {
            lemma_ts_finding_sound(lang, relative, n.row, d.0, d.1, d.2, d.3, n.text);
        }
        lemma_sound_add(a, b);
        lemma_sound_add(a + b, c);
    } else {
        lemma_ts_finding_sound(lang, relative, n.row, "machine-local-replay"@, WipKind::Replay, Standing::PartialAlive, "machine-local replay pointer"@, n.text);
        let a: Seq<FindingView> = if string_kind(n.kind) && contains(n.text, "file:///"@) {
            seq![ts_finding(lang, relative, n.row, "machine-local-replay"@, WipKind::Replay, Standing::PartialAlive, "machine-local replay pointer"@, n.text)]
        } else {
            Seq::empty()
        };
        let b = language_findings(lang, relative, nodes, i);
        assert(all_sound(b)) by {
            match lang {
                SyntaxLanguage::Rust => {
                    let m = normalized(n.text);
                    lemma_one_if_sound(true, SyntaxLanguage::Rust, relative, n, "todo!"@, Standing::PartialAlive, "Rust todo! macro"@);
                    lemma_one_if_sound(true, SyntaxLanguage::Rust, relative, n, "unimplemented!"@, Standing::PartialAlive, "Rust unimplemented! macro"@);
                    lemma_one_if_sound(starts_with(m, "panic!"@) && unfinished_phrase(m), SyntaxLanguage::Rust, relative, n, "panic-unfinished"@, Standing::PartialAlive, "Rust panic! unfinished implementation"@);
                },
                SyntaxLanguage::Python => {
                    lemma_python_sound(relative, nodes, i);
                },
                _ => {
                    lemma_language_one_if_sound(lang, relative, nodes, i);
                },
            }
        }
        lemma_sound_add(a, b);
    }
}

proof fn lemma_language_one_if_sound(lang: SyntaxLanguage, relative: Seq<char>, nodes: Seq<NodeView>, i: int)
    requires
        lang != SyntaxLanguage::Rust,
        lang != SyntaxLanguage::Python,
    ensures
        all_sound(language_findings(lang, relative, nodes, i)),
{
    reveal(finding_id_sound);
}

proof fn lemma_python_sound(relative: Seq<char>, nodes: Seq<NodeView>, i: int)
    ensures
        all_sound(python_findings(relative, nodes, i)),
{
    reveal(finding_id_sound);
    let n = nodes[i];
    let a = python_stub(relative, nodes, i);
    let b = one_if(
        n.kind == "raise_statement"@ && (contains(n.text, "NotImplementedError"@) || unfinished_phrase(n.text)),
        SyntaxLanguage::Python,
        relative,
        n,
        "raise-not-implemented"@,
        Standing::PartialAlive,
        "Python raises an unfinished-implementation sentinel"@,
    );
    assert(all_sound(a));
    lemma_one_if_sound(
        n.kind == "raise_statement"@ && (contains(n.text, "NotImplementedError"@) || unfinished_phrase(n.text)),
        SyntaxLanguage::Python,
        relative,
        n,
        "raise-not-implemented"@,
        Standing::PartialAlive,
        "Python raises an unfinished-implementation sentinel"@,
    );
    lemma_sound_add(a, b);
}

proof fn lemma_visit_findings_sound(lang: SyntaxLanguage, relative: Seq<char>, nodes: Seq<NodeView>, order: Seq<int>, k: int)
    ensures
        all_sound(visit_findings(lang, relative, nodes, order, k)),
    decreases k,
{
    if k > 0 {
        lemma_visit_findings_sound(lang, relative, nodes, order, k - 1);
        lemma_node_findings_sound(lang, relative, nodes, order[k - 1]);
        lemma_sound_add(visit_findings(lang, relative, nodes, order, k - 1), node_findings(lang, relative, nodes, order[k - 1]));
    }
}

/// Every finding of the tree-sitter scan, whatever the parses gave, has the
/// identity derived from its path, line and marker, so that sorting and
/// deduplication leave no two findings with the same path, line and marker.
pub proof fn lemma_scan_outcomes_sound(relative: Seq<char>, outs: Seq<(SyntaxLanguage, OutcomeView)>)
    ensures
        all_sound(scan_outcomes(relative, outs)),
{
    match best_parse(outs, outs.len() as int) {
        Some(b) => {
            let order = visit_order(b.1);
            let v = visit_findings(b.0, relative, b.1, order, order.len() as int);
            lemma_visit_findings_sound(b.0, relative, b.1, order, order.len() as int);
            lemma_dedup_sound(v);
        },
        None => {
            reveal(finding_id_sound);
            let f = parse_failure(relative, any_load_failed(outs, outs.len() as int));
            assert(finding_id_sound(f));
            assert(scan_outcomes(relative, outs) == seq![f]);
            assert forall|k: int| 0 <= k < seq![f].len() implies finding_id_sound(#[trigger] seq![f][k]) by {
                assert(seq![f][k] == f);
            }
        },
    }
}

proof fn lemma_comment_markers_cover(lang: SyntaxLanguage, relative: Seq<char>, n: NodeView, k: int)
    requires
        0 <= k <= 5,
    ensures
        forall|j: int|
            0 <= j < k && contains(ascii_upper(n.text), #[trigger] comment_marker(j)) ==> comment_marker_findings(
                lang,
                relative,
                n,
                k,
            ).contains(
                ts_finding(
                    lang,
                    relative,
                    n.row,
                    comment_marker(j),
                    spec_source_kind(relative),
                    Standing::PartialAlive,
                    "unfinished-work comment"@,
                    n.text,
                ),
            ),
    decreases k,
{
    if k > 0 {
        lemma_comment_markers_cover(lang, relative, n, k - 1);
        let prev = comment_marker_findings(lang, relative, n, k - 1);
        let all = comment_marker_findings(lang, relative, n, k);
        assert forall|j: int| 0 <= j < k && contains(ascii_upper(n.text), #[trigger] comment_marker(j)) implies all.contains(
            ts_finding(
                lang,
                relative,
                n.row,
                comment_marker(j),
                spec_source_kind(relative),
                Standing::PartialAlive,
                "unfinished-work comment"@,
                n.text,
            ),
        ) by {
            let f = ts_finding(
                lang,
                relative,
                n.row,
                comment_marker(j),
                spec_source_kind(relative),
                Standing::PartialAlive,
                "unfinished-work comment"@,
                n.text,
            );
            if j < k - 1 {
                let m = choose|m: int| 0 <= m < prev.len() && prev[m] == f;
                assert(all[m] == prev[m]);
            } else {
                assert(all[all.len() - 1] == f);
            }
        }
    }
}

/// A finding of `fs` at `line` with the typed marker `tree-sitter:<lang>:<marker>`,
/// kind `kind` and standing `standing`.
pub open spec fn ts_reported(
    fs: Seq<FindingView>,
    lang: SyntaxLanguage,
    line: int,
    marker: Seq<char>,
    kind: WipKind,
    standing: Standing,
) -> bool {
    exists|k: int|
        0 <= k < fs.len() && (#[trigger] fs[k]).line == line && fs[k].marker == "tree-sitter:"@ + lang_name(lang) + ":"@
            + marker && fs[k].kind == kind && fs[k].standing == standing
}

/// Node rules: an error or missing node is a build-broken syntax error at its
/// row; otherwise a comment node whose upper-cased text holds TODO, FIXME,
/// XXX, HACK or TBD is reported once for each, as partially alive
/// unfinished work of the file's kind.
pub proof fn lemma_node_rules(lang: SyntaxLanguage, relative: Seq<char>, nodes: Seq<NodeView>, i: int)
    requires
        0 <= i < nodes.len(),
        nodes[i].row < u32::MAX,
    ensures
        ({
            let n = nodes[i];
            let fs = node_findings(lang, relative, nodes, i);
            let line = n.row + 1;
            &&& (n.is_error || n.is_missing) ==> ts_reported(fs, lang, line, "syntax-error"@, spec_source_kind(relative), Standing::BuildBroken)
            &&& !(n.is_error || n.is_missing) && comment_kind(n.kind) ==> {
                &&& contains(ascii_upper(n.text), "TODO"@) ==> ts_reported(fs, lang, line, "TODO"@, spec_source_kind(relative), Standing::PartialAlive)
                &&& contains(ascii_upper(n.text), "FIXME"@) ==> ts_reported(fs, lang, line, "FIXME"@, spec_source_kind(relative), Standing::PartialAlive)
                &&& contains(ascii_upper(n.text), "XXX"@) ==> ts_reported(fs, lang, line, "XXX"@, spec_source_kind(relative), Standing::PartialAlive)
                &&& contains(ascii_upper(n.text), "HACK"@) ==> ts_reported(fs, lang, line, "HACK"@, spec_source_kind(relative), Standing::PartialAlive)
                &&& contains(ascii_upper(n.text), "TBD"@) ==> ts_reported(fs, lang, line, "TBD"@, spec_source_kind(relative), Standing::PartialAlive)
            }
        }),
{
    let n = nodes[i];
    let fs = node_findings(lang, relative, nodes, i);
    if n.is_error || n.is_missing {
        assert(fs[0].line == n.row + 1);
    } else if comment_kind(n.kind) {
        lemma_comment_markers_cover(lang, relative, n, 5);
        let cm = comment_marker_findings(lang, relative, n, 5);
        assert forall|j: int| 0 <= j < 5 && contains(ascii_upper(n.text), #[trigger] comment_marker(j)) implies ts_reported(
            fs,
            lang,
            n.row + 1,
            comment_marker(j),
            spec_source_kind(relative),
            Standing::PartialAlive,
        ) by {
            let f = ts_finding(
                lang,
                relative,
                n.row,
                comment_marker(j),
                spec_source_kind(relative),
                Standing::PartialAlive,
                "unfinished-work comment"@,
                n.text,
            );
            let m = choose|m: int| 0 <= m < cm.len() && cm[m] == f;
            assert(fs[m] == cm[m]);
        }
        assert(comment_marker(0) == "TODO"@);
        assert(comment_marker(1) == "FIXME"@);
        assert(comment_marker(2) == "XXX"@);
        assert(comment_marker(3) == "HACK"@);
        assert(comment_marker(4) == "TBD"@);
    }
}

} // verus!
