//! Receipt files (JSON): required fields, fabricated digests, self-referential
//! paths and admitted digest algorithms.
use vstd::prelude::*;

use crate::matching::{to_lowercase, unicode_lowercase};
use crate::observations::{obs_views, Observation, ObservationView};
use crate::text::{
    chars_of, contains, contains_text, ends_with, ends_with_text, eq_text, owned, slice_vec, starts_with,
    starts_with_text, string_of,
};

verus! {

/// One member of a JSON object: its key, and its text when the value is a string.
pub struct JsonMember {
    pub key: String,
    pub text: Option<String>,
}

impl View for JsonMember {
    type V = (Seq<char>, Option<Seq<char>>);

    open spec fn view(&self) -> (Seq<char>, Option<Seq<char>>) {
        (self.key@, match self.text {
            Some(t) => Some(t@),
            None => None,
        })
    }
}

pub open spec fn member_views(v: Seq<JsonMember>) -> Seq<(Seq<char>, Option<Seq<char>>)> {
    v.map_values(|m: JsonMember| m@)
}

/// What parsing `content` as JSON gives: `None` when it is not valid JSON;
/// otherwise the members of the top-level object (none when it is not an object).
pub uninterp spec fn json_top_members(content: Seq<char>) -> Option<Seq<(Seq<char>, Option<Seq<char>>)>>;

/// Parses `content` with `serde_json::from_str::<serde_json::Value>` and lists the
/// top-level object's members, each with its string value when it is a string.
/// The result is named `json_top_members(content)`; nothing more is claimed of it.
#[verifier::external_body]
fn top_level_members(content: &str) -> (r: Option<Vec<JsonMember>>)
    ensures
        match r {
            Some(v) => json_top_members(content@) == Some(member_views(v@)),
            None => json_top_members(content@) is None,
        },
{
    match serde_json::from_str::<serde_json::Value>(content) {
        Ok(value) => Some(match value.as_object() {
            Some(map) => map.iter().map(|(k, v)| JsonMember { key: k.clone(), text: v.as_str().map(|t| t.to_string()) }).collect(),
            None => Vec::new(),
        }),
        Err(_) => None,
    }
}

/// What `Path::new(p).file_stem()` gives as text, or the empty text when there is none.
pub uninterp spec fn path_file_stem(p: Seq<char>) -> Seq<char>;

/// Calls `std::path::Path::file_stem` on `p`; the result is `path_file_stem(p)`.
#[verifier::external_body]
fn file_stem_text(p: &str) -> (r: String)
    ensures
        r@ == path_file_stem(p@),
{
    std::path::Path::new(p).file_stem().and_then(|s| s.to_str()).unwrap_or("").to_string()
}

/// What `Path::new(p).file_name()` gives as text, or the empty text when there is none.
pub uninterp spec fn path_file_name(p: Seq<char>) -> Seq<char>;

/// Calls `std::path::Path::file_name` on `p`; the result is `path_file_name(p)`.
#[verifier::external_body]
fn file_name_text(p: &str) -> (r: String)
    ensures
        r@ == path_file_name(p@),
{
    std::path::Path::new(p).file_name().and_then(|s| s.to_str()).unwrap_or("").to_string()
}

// ---------------------------------------------------------------------------
// Member lookup
// ---------------------------------------------------------------------------
/// `value.get(key)`: the first member named `key`, if any.
pub open spec fn member(ms: Seq<(Seq<char>, Option<Seq<char>>)>, key: Seq<char>) -> Option<Option<Seq<char>>>
    decreases ms.len(),
{
    if ms.len() == 0 {
        None
    } else if ms[0].0 == key {
        Some(ms[0].1)
    } else {
        member(ms.drop_first(), key)
    }
}

/// `value.get(key).and_then(Value::as_str)`.
pub open spec fn member_text(ms: Seq<(Seq<char>, Option<Seq<char>>)>, key: Seq<char>) -> Option<Seq<char>> {
    match member(ms, key) {
        Some(t) => t,
        None => None,
    }
}

fn find_member(ms: &Vec<JsonMember>, key: &str) -> (r: Option<Option<String>>)
    ensures
        match r {
            Some(Some(t)) => member(member_views(ms@), key@) == Some(Some(t@)),
            Some(None) => member(member_views(ms@), key@) == Some(None::<Seq<char>>),
            None => member(member_views(ms@), key@) is None,
        },
{
    let ghost v = member_views(ms@);
    let mut i: usize = 0;
    assert(v.skip(0) =~= v);
    while i < ms.len()
        invariant
            i <= ms@.len(),
            v == member_views(ms@),
            member(v, key@) == member(v.skip(i as int), key@),
        decreases ms@.len() - i,
    {
        let ghost rest = v.skip(i as int);
        assert(rest[0] == ms@[i as int]@);
        if eq_text(ms[i].key.as_str(), key) {
            return Some(
                match &ms[i].text {
                    Some(t) => Some(t.clone()),
                    None => None,
                },
            );
        }
        assert(rest.drop_first() =~= v.skip(i + 1));
        i = i + 1;
    }
    None
}

// ---------------------------------------------------------------------------
// Digest checks
// ---------------------------------------------------------------------------
/// Bytes a character takes in UTF-8.
pub open spec fn char_width(c: char) -> nat {
    if (c as u32) < 0x80 {
        1
    } else if (c as u32) < 0x800 {
        2
    } else if (c as u32) < 0x10000 {
        3
    } else {
        4
    }
}

/// Bytes a text takes in UTF-8 (`str::len`).
pub open spec fn utf8_width(s: Seq<char>) -> nat
    decreases s.len(),
{
    if s.len() == 0 {
        0
    } else {
        utf8_width(s.drop_last()) + char_width(s.last())
    }
}

/// Every character of `s` is `c`.
pub open spec fn all_chars(s: Seq<char>, c: char) -> bool {
    forall|i: int| 0 <= i < s.len() ==> s[i] == c
}

/// A digest made of zeros only, at least 32 bytes long (this covers 64 zeros).
pub open spec fn all_zero_digest(d: Seq<char>) -> bool {
    all_chars(d, '0') && utf8_width(d) >= 32
}

/// A digest of at least 16 bytes that repeats one character.
pub open spec fn repeated_char_digest(d: Seq<char>) -> bool {
    utf8_width(d) >= 16 && d.len() > 0 && all_chars(d, d[0])
}

/// A digest that starts with a well-known placeholder (case-insensitively).
pub open spec fn placeholder_digest(d: Seq<char>) -> bool {
    let l = unicode_lowercase(d);
    starts_with(l, "deadbeef"@) || starts_with(l, "cafebabe"@) || starts_with(l, "12345678"@) || starts_with(
        l,
        "abcdefab"@,
    )
}

pub open spec fn fabricated_digest(d: Seq<char>) -> bool {
    all_zero_digest(d) || repeated_char_digest(d) || placeholder_digest(d)
}

/// The first `k` characters of `d` take exactly 24 bytes, or `d` takes at most 24.
pub open spec fn cut_at(d: Seq<char>, k: int) -> bool {
    0 <= k <= d.len() && (if utf8_width(d) <= 24 {
        k == d.len()
    } else {
        utf8_width(d.take(k)) == 24
    })
}

/// `&d[..d.len().min(24)]` is a character boundary (else that slice would panic).
pub open spec fn digest_cut_ok(d: Seq<char>) -> bool {
    exists|k: int| cut_at(d, k)
}

/// `&d[..d.len().min(24)]`.
pub open spec fn digest_head(d: Seq<char>) -> Seq<char> {
    d.take(choose|k: int| cut_at(d, k))
}

proof fn lemma_width_take(d: Seq<char>, k: int)
    requires
        0 <= k < d.len(),
    ensures
        utf8_width(d.take(k + 1)) == utf8_width(d.take(k)) + char_width(d[k]),
{
    assert(d.take(k + 1).drop_last() =~= d.take(k));
}

proof fn lemma_width_monotone(d: Seq<char>, j: int, k: int)
    requires
        0 <= j <= k <= d.len(),
    ensures
        utf8_width(d.take(j)) <= utf8_width(d.take(k)),
        j < k ==> utf8_width(d.take(j)) < utf8_width(d.take(k)),
    decreases k - j,
{
    if j < k {
        lemma_width_monotone(d, j, k - 1);
        lemma_width_take(d, k - 1);
    }
}

fn char_width_exec(c: char) -> (w: usize)
    ensures
        w == char_width(c),
{
    let u = c as u32;
    if u < 0x80 {
        1
    } else if u < 0x800 {
        2
    } else if u < 0x10000 {
        3
    } else {
        4
    }
}

/// Where a digest is cut for display: `Some(k)` when `&d[..d.len().min(24)]` is
/// the first `k` characters, `None` when byte 24 falls inside a character.
fn digest_cut(d: &[char]) -> (r: Option<usize>)
    ensures
        match r {
            Some(k) => cut_at(d@, k as int),
            None => !digest_cut_ok(d@),
        },
{
    let mut w: usize = 0;
    let mut k: usize = 0;
    assert(d@.take(0) =~= Seq::<char>::empty());
    while k < d.len() && w < 24
        invariant
            k <= d@.len(),
            w == utf8_width(d@.take(k as int)),
            w < 28,
            k == 0 || utf8_width(d@.take(k - 1)) < 24,
        decreases d@.len() - k,
    {
        proof {
            lemma_width_take(d@, k as int);
        }
        w = w + char_width_exec(d[k]);
        k = k + 1;
    }
    proof {
        lemma_width_monotone(d@, k as int, d@.len() as int);
        assert(d@.take(d@.len() as int) =~= d@);
    }
    if k == d.len() && w <= 24 {
        Some(k)
    } else if w == 24 {
        proof {
            lemma_width_take(d@, k as int);
            lemma_width_monotone(d@, k + 1, d@.len() as int);
        }
        Some(k)
    } else {
        proof {
            assert(w > 24);
            assert forall|m: int| !cut_at(d@, m) by {
                if 0 <= m <= d@.len() {
                    if m < k {
                        lemma_width_monotone(d@, m, k - 1);
                    } else if m > k {
                        lemma_width_monotone(d@, k as int, m);
                    }
                }
            }
        }
        None
    }
}

fn all_chars_exec(d: &[char], c: char) -> (b: bool)
    ensures
        b == all_chars(d@, c),
{
    let mut i: usize = 0;
    while i < d.len()
        invariant
            i <= d@.len(),
            forall|j: int| 0 <= j < i ==> d@[j] == c,
        decreases d@.len() - i,
    {
        if d[i] != c {
            return false;
        }
        i = i + 1;
    }
    true
}

/// `utf8_width(d) >= n`, counting no further than needed.
fn utf8_width_at_least(d: &[char], n: usize) -> (b: bool)
    requires
        n <= 64,
    ensures
        b == (utf8_width(d@) >= n),
{
    let mut w: usize = 0;
    let mut k: usize = 0;
    assert(d@.take(0) =~= Seq::<char>::empty());
    while k < d.len() && w < n
        invariant
            k <= d@.len(),
            n <= 64,
            w == utf8_width(d@.take(k as int)),
            w < n + 4,
        decreases d@.len() - k,
    {
        proof {
            lemma_width_take(d@, k as int);
        }
        w = w + char_width_exec(d[k]);
        k = k + 1;
    }
    if w >= n {
        proof {
            lemma_width_monotone(d@, k as int, d@.len() as int);
            assert(d@.take(d@.len() as int) =~= d@);
        }
        true
    } else {
        assert(d@.take(k as int) =~= d@);
        false
    }
}

fn is_fabricated_digest(digest: &str) -> (b: bool)
    ensures
        b == fabricated_digest(digest@),
{
    let d = chars_of(digest);
    let zeros = all_chars_exec(d.as_slice(), '0') && utf8_width_at_least(d.as_slice(), 32);
    let repeated = utf8_width_at_least(d.as_slice(), 16) && d.len() > 0 && all_chars_exec(d.as_slice(), d[0]);
    let l = to_lowercase(digest);
    let l = l.as_str();
    let placeholder = starts_with_text(l, "deadbeef") || starts_with_text(l, "cafebabe") || starts_with_text(
        l,
        "12345678",
    ) || starts_with_text(l, "abcdefab");
    zeros || repeated || placeholder
}

// ---------------------------------------------------------------------------
// Receipt observations
// ---------------------------------------------------------------------------
pub open spec fn required_field(i: int) -> Seq<char> {
    if i == 0 {
        "digest"@
    } else if i == 1 {
        "digest_algorithm"@
    } else if i == 2 {
        "boundary"@
    } else if i == 3 {
        "checkpoint"@
    } else if i == 4 {
        "raw_command"@
    } else {
        "output_digest"@
    }
}

fn required_field_exec(i: usize) -> (r: &'static str)
    requires
        i < 6,
    ensures
        r@ == required_field(i as int),
{
    match i {
        0 => "digest",
        1 => "digest_algorithm",
        2 => "boundary",
        3 => "checkpoint",
        4 => "raw_command",
        _ => "output_digest",
    }
}

/// An observation of a receipt file: line 1, column 1, empty span.
pub open spec fn receipt_obs(file: Seq<char>, construct: Seq<char>, context: Seq<char>, message: Seq<char>) -> ObservationView {
    ObservationView {
        file_path: file,
        start_byte: 0,
        end_byte: 0,
        line: 1,
        column: 1,
        kind: "receipt_json"@,
        construct: construct,
        context: context,
        message: message,
    }
}

fn make_receipt_obs(file: &str, construct: String, context: String, message: String) -> (o: Observation)
    ensures
        o@ == receipt_obs(file@, construct@, context@, message@),
{
    Observation {
        file_path: owned(file),
        start_byte: 0,
        end_byte: 0,
        line: 1,
        column: 1,
        kind: owned("receipt_json"),
        construct: construct,
        context: context,
        message: message,
    }
}

/// Observations for the required fields among the first `n` that are absent.
pub open spec fn missing_fields(file: Seq<char>, content: Seq<char>, ms: Seq<(Seq<char>, Option<Seq<char>>)>, n: int) -> Seq<ObservationView>
    decreases n,
{
    if n <= 0 {
        Seq::empty()
    } else {
        let prev = missing_fields(file, content, ms, n - 1);
        let f = required_field(n - 1);
        if member(ms, f) is None {
            prev.push(
                receipt_obs(
                    file,
                    "missing "@ + f,
                    content,
                    "Receipt file lacks required field '"@ + f + "'"@,
                ),
            )
        } else {
            prev
        }
    }
}

/// `s` without the suffix `suf` when it ends with it.
pub open spec fn strip_suffix(s: Seq<char>, suf: Seq<char>) -> Seq<char> {
    if ends_with(s, suf) {
        s.take(s.len() - suf.len())
    } else {
        s
    }
}

/// The receipt's `path` names the receipt file itself.
pub open spec fn self_referential(path_val: Seq<char>, filepath: Seq<char>) -> bool {
    let base = strip_suffix(path_file_stem(filepath), ".receipt"@);
    (base.len() > 0 && contains(path_val, base)) || contains(path_val, path_file_name(filepath))
}

/// The digest displays of a receipt's members can be cut without panicking.
pub open spec fn receipt_cut_ok(ms: Seq<(Seq<char>, Option<Seq<char>>)>) -> bool {
    member_text(ms, "digest"@) matches Some(d) ==> (fabricated_digest(d) ==> digest_cut_ok(d))
}

/// Everything a receipt's members yield after a successful parse, in order:
/// missing required fields, a fabricated digest, a self-referential path, an
/// unadmitted digest algorithm.
pub open spec fn receipt_findings(file: Seq<char>, content: Seq<char>, ms: Seq<(Seq<char>, Option<Seq<char>>)>) -> Seq<ObservationView> {
    missing_fields(file, content, ms, 6) + match member_text(ms, "digest"@) {
        Some(d) => if fabricated_digest(d) {
            seq![
                receipt_obs(
                    file,
                    "fabricated_digest"@,
                    "digest="@ + digest_head(d),
                    "Receipt digest is obviously fabricated (all-zeros, repeated char, or well-known placeholder)"@,
                ),
            ]
        } else {
            Seq::empty()
        },
        None => Seq::empty(),
    } + match member_text(ms, "path"@) {
        Some(p) => if self_referential(p, file) {
            seq![
                receipt_obs(
                    file,
                    "self_referential_receipt"@,
                    "path="@ + p,
                    "Receipt 'path' field references the receipt file itself — self-referential receipt"@,
                ),
            ]
        } else {
            Seq::empty()
        },
        None => Seq::empty(),
    } + match member_text(ms, "digest_algorithm"@) {
        Some(a) => if a != "BLAKE3"@ && a != "SHA-256"@ {
            seq![
                receipt_obs(
                    file,
                    "invalid digest_algorithm"@,
                    content,
                    "Receipt uses invalid digest algorithm '"@ + a + "'; expected BLAKE3 or SHA-256"@,
                ),
            ]
        } else {
            Seq::empty()
        },
        None => Seq::empty(),
    }
}

/// What a receipt file yields: its findings when it parsed, else one `invalid json` observation.
pub open spec fn receipt_scan(file: Seq<char>, content: Seq<char>, parsed: Option<Seq<(Seq<char>, Option<Seq<char>>)>>) -> Seq<ObservationView> {
    match parsed {
        Some(ms) => receipt_findings(file, content, ms),
        None => seq![
            receipt_obs(file, "invalid json"@, content, "Receipt file is not valid JSON"@),
        ],
    }
}

/// Some observation of `obs` has construct `c`.
pub open spec fn has_construct(obs: Seq<ObservationView>, c: Seq<char>) -> bool {
    exists|k: int| 0 <= k < obs.len() && (#[trigger] obs[k]).construct == c
}

/// The construct of the observation for a missing required field.
pub open spec fn missing_construct(j: int) -> Seq<char> {
    "missing "@ + required_field(j)
}

proof fn lemma_missing_sound(file: Seq<char>, content: Seq<char>, ms: Seq<(Seq<char>, Option<Seq<char>>)>, n: int)
    requires
        0 <= n <= 6,
    ensures
        forall|k: int| 0 <= k < missing_fields(file, content, ms, n).len() ==> {
            let o = #[trigger] missing_fields(file, content, ms, n)[k];
            &&& o.kind == "receipt_json"@ && o.file_path == file
            &&& exists|j: int| 0 <= j < n && member(ms, required_field(j)) is None && o.construct == #[trigger] missing_construct(j)
        },
    decreases n,
{
    if n > 0 {
        lemma_missing_sound(file, content, ms, n - 1);
        let prev = missing_fields(file, content, ms, n - 1);
        let all = missing_fields(file, content, ms, n);
        assert forall|k: int| 0 <= k < all.len() implies {
            let o = #[trigger] all[k];
            &&& o.kind == "receipt_json"@ && o.file_path == file
            &&& exists|j: int| 0 <= j < n && member(ms, required_field(j)) is None && o.construct == #[trigger] missing_construct(j)
        } by {
            if k < prev.len() {
                assert(all[k] == prev[k]);
                let j = choose|j: int| 0 <= j < n - 1 && member(ms, required_field(j)) is None && prev[k].construct == #[trigger] missing_construct(j);
                assert(all[k].construct == missing_construct(j));
            } else {
                assert(all[k].construct == missing_construct(n - 1));
            }
        }
    }
}

proof fn lemma_missing_complete(file: Seq<char>, content: Seq<char>, ms: Seq<(Seq<char>, Option<Seq<char>>)>, n: int)
    requires
        0 <= n <= 6,
    ensures
        forall|j: int| 0 <= j < n && member(ms, required_field(j)) is None ==> has_construct(missing_fields(file, content, ms, n), #[trigger] missing_construct(j)),
    decreases n,
{
    if n > 0 {
        lemma_missing_complete(file, content, ms, n - 1);
        let prev = missing_fields(file, content, ms, n - 1);
        let all = missing_fields(file, content, ms, n);
        assert forall|j: int| 0 <= j < n && member(ms, required_field(j)) is None implies has_construct(all, #[trigger] missing_construct(j)) by {
            if j < n - 1 {
                assert(has_construct(prev, missing_construct(j)));
                let k = choose|k: int| 0 <= k < prev.len() && (#[trigger] prev[k]).construct == missing_construct(j);
                assert(all[k] == prev[k]);
            } else {
                assert(all[prev.len() as int].construct == missing_construct(n - 1));
            }
        }
    }
}

proof fn lemma_missing_construct_len(j: int)
    requires
        0 <= j < 6,
    ensures
        missing_construct(j).len() == 8 + (if j == 0 {
            6int
        } else if j == 1 {
            16int
        } else if j == 2 {
            8int
        } else if j == 3 {
            10int
        } else if j == 4 {
            11int
        } else {
            13int
        }),
        missing_construct(j)[0] == 'm',
{
    reveal_strlit("missing ");
    reveal_strlit("digest");
    reveal_strlit("digest_algorithm");
    reveal_strlit("boundary");
    reveal_strlit("checkpoint");
    reveal_strlit("raw_command");
    reveal_strlit("output_digest");
    assert(("missing "@)[0] == 'm');
}

proof fn lemma_missing_distinct(file: Seq<char>, content: Seq<char>, ms: Seq<(Seq<char>, Option<Seq<char>>)>, n: int)
    requires
        0 <= n <= 6,
    ensures
        forall|a: int, b: int|
            0 <= a < b < missing_fields(file, content, ms, n).len() ==> (#[trigger] missing_fields(file, content, ms, n)[a]).construct
                != (#[trigger] missing_fields(file, content, ms, n)[b]).construct,
    decreases n,
{
    if n > 0 {
        lemma_missing_distinct(file, content, ms, n - 1);
        lemma_missing_sound(file, content, ms, n - 1);
        let prev = missing_fields(file, content, ms, n - 1);
        let all = missing_fields(file, content, ms, n);
        assert forall|a: int, b: int| 0 <= a < b < all.len() implies (#[trigger] all[a]).construct != (#[trigger] all[b]).construct by {
            if b < prev.len() {
                assert(all[a] == prev[a] && all[b] == prev[b]);
            } else {
                assert(all[a] == prev[a]);
                let j = choose|j: int| 0 <= j < n - 1 && member(ms, required_field(j)) is None && prev[a].construct == #[trigger] missing_construct(j);
                assert(all[b].construct == missing_construct(n - 1));
                lemma_missing_construct_len(j);
                lemma_missing_construct_len(n - 1);
            }
        }
    }
}

/// The findings that follow the missing fields: a fabricated digest, a
/// self-referential path, an unadmitted digest algorithm.
pub open spec fn receipt_extras(file: Seq<char>, content: Seq<char>, ms: Seq<(Seq<char>, Option<Seq<char>>)>) -> Seq<ObservationView> {
    receipt_findings(file, content, ms).skip(missing_fields(file, content, ms, 6).len() as int)
}

/// The words that name the findings after the missing fields.
pub open spec fn extra_word(c: Seq<char>) -> bool {
    c == "fabricated_digest"@ || c == "self_referential_receipt"@ || c == "invalid digest_algorithm"@
}

proof fn lemma_receipt_extras(file: Seq<char>, content: Seq<char>, ms: Seq<(Seq<char>, Option<Seq<char>>)>)
    ensures
        receipt_findings(file, content, ms) == missing_fields(file, content, ms, 6) + receipt_extras(file, content, ms),
        forall|t: int| 0 <= t < receipt_extras(file, content, ms).len() ==> {
            let o = #[trigger] receipt_extras(file, content, ms)[t];
            o.kind == "receipt_json"@ && o.file_path == file && extra_word(o.construct) && o.construct[0] != 'm'
                && o.construct != "invalid json"@
        },
        forall|t: int, u: int| 0 <= t < u < receipt_extras(file, content, ms).len() ==>
            (#[trigger] receipt_extras(file, content, ms)[t]).construct != (#[trigger] receipt_extras(file, content, ms)[u]).construct,
{
    let mf = missing_fields(file, content, ms, 6);
    let all = receipt_findings(file, content, ms);
    let x = receipt_extras(file, content, ms);
    let fab = match member_text(ms, "digest"@) {
        Some(d) => if fabricated_digest(d) {
            seq![
                receipt_obs(
                    file,
                    "fabricated_digest"@,
                    "digest="@ + digest_head(d),
                    "Receipt digest is obviously fabricated (all-zeros, repeated char, or well-known placeholder)"@,
                ),
            ]
        } else {
            Seq::empty()
        },
        None => Seq::empty(),
    };
    let slf = match member_text(ms, "path"@) {
        Some(p) => if self_referential(p, file) {
            seq![
                receipt_obs(
                    file,
                    "self_referential_receipt"@,
                    "path="@ + p,
                    "Receipt 'path' field references the receipt file itself — self-referential receipt"@,
                ),
            ]
        } else {
            Seq::empty()
        },
        None => Seq::empty(),
    };
    let alg = match member_text(ms, "digest_algorithm"@) {
        Some(a) => if a != "BLAKE3"@ && a != "SHA-256"@ {
            seq![
                receipt_obs(
                    file,
                    "invalid digest_algorithm"@,
                    content,
                    "Receipt uses invalid digest algorithm '"@ + a + "'; expected BLAKE3 or SHA-256"@,
                ),
            ]
        } else {
            Seq::empty()
        },
        None => Seq::empty(),
    };
    assert(all == mf + fab + slf + alg);
    assert(x =~= fab + slf + alg);
    assert(all =~= mf + x);
    reveal_strlit("invalid json");
    reveal_strlit("fabricated_digest");
    reveal_strlit("self_referential_receipt");
    reveal_strlit("invalid digest_algorithm");
    let fd = "fabricated_digest"@;
    let sr = "self_referential_receipt"@;
    let ia = "invalid digest_algorithm"@;
    let im = "invalid json"@;
    assert(fd[0] == 'f' && sr[0] == 's' && ia[0] == 'i' && ia[8] == 'd' && im[8] == 'j');
    assert(fd.len() == 17 && sr.len() == 24 && ia.len() == 24 && im.len() == 12);
    assert(fd != sr && fd != ia && sr != ia && im != fd && im != sr && im != ia);
    assert forall|t: int| 0 <= t < x.len() implies {
        let o = #[trigger] x[t];
        o.kind == "receipt_json"@ && o.file_path == file && extra_word(o.construct) && o.construct[0] != 'm'
            && o.construct != "invalid json"@
    } by {
        if t < fab.len() {
            assert(x[t] == fab[t]);
        } else if t < fab.len() + slf.len() {
            assert(x[t] == slf[t - fab.len()]);
        } else {
            assert(x[t] == alg[t - fab.len() - slf.len()]);
        }
    }
    assert forall|t: int, u: int| 0 <= t < u < x.len() implies (#[trigger] x[t]).construct != (#[trigger] x[u]).construct by {
        if t < fab.len() {
            assert(x[t] == fab[t]);
            if u < fab.len() + slf.len() {
                assert(x[u] == slf[u - fab.len()]);
            } else {
                assert(x[u] == alg[u - fab.len() - slf.len()]);
            }
        } else {
            assert(x[t] == slf[t - fab.len()]);
            assert(x[u] == alg[u - fab.len() - slf.len()]);
        }
    }
}

/// What a receipt file yields: invalid JSON gives exactly one `invalid json`
/// observation carrying the content; otherwise no observation is `invalid json`,
/// all are `receipt_json` observations of the file with distinct constructs, and
/// `missing f` appears (once) exactly for the required fields `f` the top-level
/// object lacks.
pub proof fn lemma_receipt_scan_law(file: Seq<char>, content: Seq<char>, parsed: Option<Seq<(Seq<char>, Option<Seq<char>>)>>)
    ensures
        parsed is None ==> receipt_scan(file, content, parsed).len() == 1 && receipt_scan(file, content, parsed)[0].construct
            == "invalid json"@ && receipt_scan(file, content, parsed)[0].context == content,
        parsed matches Some(ms) ==> {
            let obs = receipt_scan(file, content, parsed);
            &&& forall|k: int| 0 <= k < obs.len() ==> (#[trigger] obs[k]).construct != "invalid json"@
                && obs[k].kind == "receipt_json"@ && obs[k].file_path == file
            &&& forall|a: int, b: int| 0 <= a < b < obs.len() ==> (#[trigger] obs[a]).construct != (#[trigger] obs[b]).construct
            &&& forall|j: int| 0 <= j < 6 ==> (member(ms, required_field(j)) is None <==> has_construct(obs, #[trigger] missing_construct(j)))
        },
{
    if let Some(ms) = parsed {
        let obs = receipt_scan(file, content, parsed);
        let mf = missing_fields(file, content, ms, 6);
        let x = receipt_extras(file, content, ms);
        lemma_missing_sound(file, content, ms, 6);
        lemma_missing_complete(file, content, ms, 6);
        lemma_missing_distinct(file, content, ms, 6);
        lemma_receipt_extras(file, content, ms);
        assert(obs == mf + x);
        reveal_strlit("invalid json");
        assert(("invalid json"@)[0] == 'i');
        assert forall|k: int| 0 <= k < obs.len() implies (#[trigger] obs[k]).construct != "invalid json"@
            && obs[k].kind == "receipt_json"@ && obs[k].file_path == file by {
            if k < mf.len() {
                assert(obs[k] == mf[k]);
                let j = choose|j: int| 0 <= j < 6 && member(ms, required_field(j)) is None && mf[k].construct == #[trigger] missing_construct(j);
                lemma_missing_construct_len(j);
            } else {
                assert(obs[k] == x[k - mf.len()]);
            }
        }
        assert forall|a: int, b: int| 0 <= a < b < obs.len() implies (#[trigger] obs[a]).construct != (#[trigger] obs[b]).construct by {
            if b < mf.len() {
                assert(obs[a] == mf[a] && obs[b] == mf[b]);
            } else if a < mf.len() {
                assert(obs[a] == mf[a]);
                assert(obs[b] == x[b - mf.len()]);
                let j = choose|j: int| 0 <= j < 6 && member(ms, required_field(j)) is None && mf[a].construct == #[trigger] missing_construct(j);
                lemma_missing_construct_len(j);
            } else {
                assert(obs[a] == x[a - mf.len()]);
                assert(obs[b] == x[b - mf.len()]);
            }
        }
        assert forall|j: int| 0 <= j < 6 implies (member(ms, required_field(j)) is None <==> has_construct(obs, #[trigger] missing_construct(j))) by {
            if member(ms, required_field(j)) is None {
                assert(has_construct(mf, missing_construct(j)));
                let k = choose|k: int| 0 <= k < mf.len() && (#[trigger] mf[k]).construct == missing_construct(j);
                assert(obs[k] == mf[k]);
            }
            if has_construct(obs, missing_construct(j)) {
                let k = choose|k: int| 0 <= k < obs.len() && (#[trigger] obs[k]).construct == missing_construct(j);
                lemma_missing_construct_len(j);
                if k < mf.len() {
                    assert(obs[k] == mf[k]);
                    let i = choose|i: int| 0 <= i < 6 && member(ms, required_field(i)) is None && mf[k].construct == #[trigger] missing_construct(i);
                    lemma_missing_construct_len(i);
                } else {
                    assert(obs[k] == x[k - mf.len()]);
                }
            }
        }
    }
}

/// The observations of a receipt file, given the parse of its content.
pub fn receipt_observations(filepath: &str, content: &str, parsed: &Option<Vec<JsonMember>>) -> (obs: Vec<Observation>)
    requires
        parsed matches Some(ms) ==> receipt_cut_ok(member_views(ms@)),
    ensures
        obs_views(obs@) == receipt_scan(
            filepath@,
            content@,
            match parsed {
                Some(ms) => Some(member_views(ms@)),
                None => None,
            },
        ),
{
    let mut obs: Vec<Observation> = Vec::new();
    let ms = match parsed {
        Some(ms) => ms,
        None => {
            obs.push(
                make_receipt_obs(
                    filepath,
                    owned("invalid json"),
                    owned(content),
                    owned("Receipt file is not valid JSON"),
                ),
            );
            assert(obs_views(obs@) =~= receipt_scan(filepath@, content@, None));
            return obs;
        },
    };
    let ghost mv = member_views(ms@);
    let mut i: usize = 0;
    assert(obs_views(obs@) =~= missing_fields(filepath@, content@, mv, 0));
    while i < 6
        invariant
            i <= 6,
            mv == member_views(ms@),
            obs_views(obs@) == missing_fields(filepath@, content@, mv, i as int),
        decreases 6 - i,
    {
        let f = required_field_exec(i);
        if find_member(ms, f).is_none() {
            let mut construct = owned("missing ");
            construct.append(f);
            let mut message = owned("Receipt file lacks required field '");
            message.append(f);
            message.append("'");
            let o = make_receipt_obs(filepath, construct, owned(content), message);
            let ghost before = obs@;
            obs.push(o);
            assert(obs_views(obs@) =~= obs_views(before).push(o@));
        }
        i = i + 1;
    }
    let ghost part1 = obs_views(obs@);
    // Fabricated digest.
    let digest = match find_member(ms, "digest") {
        Some(t) => t,
        None => None,
    };
    assert(match digest {
        Some(d) => member_text(mv, "digest"@) == Some(d@),
        None => member_text(mv, "digest"@) is None,
    });
    match &digest {
        Some(d) => {
            if is_fabricated_digest(d.as_str()) {
                let dc = chars_of(d.as_str());
                let cut = digest_cut(dc.as_slice());
                match cut {
                    Some(k) => {
                        proof {
                            let c = choose|m: int| cut_at(d@, m);
                            assert(cut_at(d@, c));
                            if c < k {
                                lemma_width_monotone(d@, c, k as int);
                            } else if c > k {
                                lemma_width_monotone(d@, k as int, c);
                            }
                        }
                        let head = slice_vec(dc.as_slice(), 0, k);
                        let head = string_of(head.as_slice());
                        assert(head@ =~= digest_head(d@));
                        let mut context = owned("digest=");
                        context.append(head.as_str());
                        let o = make_receipt_obs(
                            filepath,
                            owned("fabricated_digest"),
                            context,
                            owned(
                                "Receipt digest is obviously fabricated (all-zeros, repeated char, or well-known placeholder)",
                            ),
                        );
                        let ghost before = obs@;
                        obs.push(o);
                        assert(obs_views(obs@) =~= obs_views(before).push(o@));
                    },
                    None => {
                        assert(false);
                    },
                }
            }
        },
        None => {},
    }
    let ghost part2 = obs_views(obs@);
    // Self-referential path.
    let path_val = match find_member(ms, "path") {
        Some(t) => t,
        None => None,
    };
    assert(match path_val {
        Some(p) => member_text(mv, "path"@) == Some(p@),
        None => member_text(mv, "path"@) is None,
    });
    match &path_val {
        Some(p) => {
            let stem = file_stem_text(filepath);
            let suffix = chars_of(".receipt");
            let base = if ends_with_text(stem.as_str(), ".receipt") {
                let sc = chars_of(stem.as_str());
                let cut = sc.len() - suffix.len();
                let b = slice_vec(sc.as_slice(), 0, cut);
                string_of(b.as_slice())
            } else {
                stem
            };
            assert(base@ =~= strip_suffix(path_file_stem(filepath@), ".receipt"@));
            let name = file_name_text(filepath);
            if (!base.as_str().is_empty() && contains_text(p.as_str(), base.as_str())) || contains_text(
                p.as_str(),
                name.as_str(),
            ) {
                let mut context = owned("path=");
                context.append(p.as_str());
                let o = make_receipt_obs(
                    filepath,
                    owned("self_referential_receipt"),
                    context,
                    owned(
                        "Receipt 'path' field references the receipt file itself — self-referential receipt",
                    ),
                );
                let ghost before = obs@;
                obs.push(o);
                assert(obs_views(obs@) =~= obs_views(before).push(o@));
            }
        },
        None => {},
    }
    let ghost part3 = obs_views(obs@);
    // Digest algorithm.
    let alg = match find_member(ms, "digest_algorithm") {
        Some(t) => t,
        None => None,
    };
    assert(match alg {
        Some(a) => member_text(mv, "digest_algorithm"@) == Some(a@),
        None => member_text(mv, "digest_algorithm"@) is None,
    });
    match &alg {
        Some(a) => {
            if !eq_text(a.as_str(), "BLAKE3") && !eq_text(a.as_str(), "SHA-256") {
                let mut message = owned("Receipt uses invalid digest algorithm '");
                message.append(a.as_str());
                message.append("'; expected BLAKE3 or SHA-256");
                let o = make_receipt_obs(filepath, owned("invalid digest_algorithm"), owned(content), message);
                let ghost before = obs@;
                obs.push(o);
                assert(obs_views(obs@) =~= obs_views(before).push(o@));
            }
        },
        None => {},
    }
    assert(obs_views(obs@) =~= receipt_scan(filepath@, content@, Some(mv)));
    obs
}

/// Scans a receipt file. Its `digest`, when fabricated, must be cut at a
/// character boundary for display (`receipt_cut_ok`); `try_parse_receipt_json`
/// checks that first.
pub fn parse_receipt_json(filepath: &str, content: &str) -> (obs: Vec<Observation>)
    requires
        json_top_members(content@) matches Some(ms) ==> receipt_cut_ok(ms),
    ensures
        obs_views(obs@) == receipt_scan(filepath@, content@, json_top_members(content@)),
{
    let parsed = top_level_members(content);
    receipt_observations(filepath, content, &parsed)
}

/// `Some(parse_receipt_json(..))`, or `None` when a fabricated digest could not be
/// cut at its 24th byte without splitting a character.
pub fn try_parse_receipt_json(filepath: &str, content: &str) -> (r: Option<Vec<Observation>>)
    ensures
        match r {
            Some(obs) => (json_top_members(content@) matches Some(ms) ==> receipt_cut_ok(ms))
                && obs_views(obs@) == receipt_scan(filepath@, content@, json_top_members(content@)),
            None => json_top_members(content@) matches Some(ms) && !receipt_cut_ok(ms),
        },
{
    let parsed = top_level_members(content);
    match &parsed {
        Some(ms) => {
            let digest = match find_member(ms, "digest") {
                Some(t) => t,
                None => None,
            };
            match &digest {
                Some(d) => {
                    if is_fabricated_digest(d.as_str()) {
                        let dc = chars_of(d.as_str());
                        if digest_cut(dc.as_slice()).is_none() {
                            return None;
                        }
                    }
                },
                None => {},
            }
        },
        None => {},
    }
    Some(parse_receipt_json(filepath, content))
}

} // verus!
