//! Markdown-cell escaping for the report tables.
use vstd::prelude::*;

verus! {

pub open spec fn escape_md_char(c: char) -> Seq<char> {
    if c == '|' {
        seq!['\\', '|']
    } else if c == '\n' {
        seq![' ']
    } else {
        seq![c]
    }
}

/// Each `|` becomes `\|` and each newline a space.
pub open spec fn spec_escape_md(s: Seq<char>) -> Seq<char>
    decreases s.len(),
{
    if s.len() == 0 {
        Seq::empty()
    } else {
        spec_escape_md(s.drop_last()) + escape_md_char(s.last())
    }
}

/// Escapes a table cell: `input.replace('|', "\\|").replace('\n', " ")`.
pub fn escape_md(input: &str) -> (r: String)
    ensures
        r@ == spec_escape_md(input@),
{
    let cs = crate::text::chars_of(input);
    let mut r = String::new();
    let mut i: usize = 0;
    while i < cs.len()
        invariant
            i <= cs@.len(),
            cs@ == input@,
            r@ == spec_escape_md(cs@.take(i as int)),
        decreases cs@.len() - i,
    {
        let c = cs[i];
        if c == '|' {
            r.push('\\');
            r.push('|');
        } else if c == '\n' {
            r.push(' ');
        } else {
            r.push(c);
        }
        assert(cs@.take(i + 1).drop_last() =~= cs@.take(i as int));
        i = i + 1;
        assert(r@ =~= spec_escape_md(cs@.take(i as int)));
    }
    assert(cs@.take(i as int) =~= cs@);
    r
}

} // verus!
