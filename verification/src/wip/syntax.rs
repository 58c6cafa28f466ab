//! Tree-sitter parsing of one source text with one admitted grammar.
//!
//! A [`LoadedParser`] is made only by [`load_parser`], which loads the grammar it
//! records, and a [`ParsedSource`] only by [`parse_source`], which records the
//! grammar and the text the tree was parsed from. Their fields are private to
//! this module, so every value of either type carries what it was made from.
use vstd::prelude::*;

use crate::wip::tree_sitter_scan::{NodeView, SyntaxLanguage, SyntaxNode};

verus! {

#[verifier::external_type_specification]
#[verifier::external_body]
pub struct ExParser(tree_sitter::Parser);

#[verifier::external_type_specification]
#[verifier::external_body]
pub struct ExTree(tree_sitter::Tree);

/// `tree_sitter::Parser::new()`.
#[verifier::external_body]
fn new_parser() -> (r: tree_sitter::Parser) {
    tree_sitter::Parser::new()
}

/// Whether tree-sitter accepts the grammar of `lang`: its ABI version lies in the
/// range this tree-sitter supports and the grammar is parseable. Both are data of the
/// grammar crate's `LANGUAGE` constant, so this depends on the language alone.
pub uninterp spec fn grammar_accepted(lang: SyntaxLanguage) -> bool;

/// `Parser::set_language` with the `LANGUAGE` constant of `lang`'s grammar crate:
/// whether it was accepted, which is `grammar_accepted(lang)`.
#[verifier::external_body]
fn set_grammar(parser: &mut tree_sitter::Parser, lang: SyntaxLanguage) -> (ok: bool)
    ensures
        ok == grammar_accepted(lang),
{
    let language: tree_sitter::Language = match lang {
        SyntaxLanguage::Rust => tree_sitter_rust::LANGUAGE.into(),
        SyntaxLanguage::TypeScript => tree_sitter_typescript::LANGUAGE_TYPESCRIPT.into(),
        SyntaxLanguage::Tsx => tree_sitter_typescript::LANGUAGE_TSX.into(),
        SyntaxLanguage::JavaScript => tree_sitter_javascript::LANGUAGE.into(),
        SyntaxLanguage::Python => tree_sitter_python::LANGUAGE.into(),
        SyntaxLanguage::Go => tree_sitter_go::LANGUAGE.into(),
        SyntaxLanguage::Java => tree_sitter_java::LANGUAGE.into(),
        SyntaxLanguage::C => tree_sitter_c::LANGUAGE.into(),
        SyntaxLanguage::Cpp => tree_sitter_cpp::LANGUAGE.into(),
        SyntaxLanguage::CSharp => tree_sitter_c_sharp::LANGUAGE.into(),
        SyntaxLanguage::Bash => tree_sitter_bash::LANGUAGE.into(),
    };
    parser.set_language(&language).is_ok()
}

/// A parser with one admitted grammar loaded; its view is that grammar.
pub struct LoadedParser {
    parser: tree_sitter::Parser,
    lang: SyntaxLanguage,
}

impl View for LoadedParser {
    type V = SyntaxLanguage;

    closed spec fn view(&self) -> SyntaxLanguage {
        self.lang
    }
}

/// A new parser with `lang`'s grammar loaded, when tree-sitter accepts that grammar.
pub fn load_parser(lang: SyntaxLanguage) -> (r: Option<LoadedParser>)
    ensures
        r is Some == grammar_accepted(lang),
        r matches Some(p) ==> p@ == lang,
{
    let mut parser = new_parser();
    if set_grammar(&mut parser, lang) {
        Some(LoadedParser { parser, lang })
    } else {
        None
    }
}

/// The nodes, in pre-order, of the syntax tree that tree-sitter builds for
/// `text` with `lang`'s grammar, each read as a [`SyntaxNode`]. Parsing without
/// an old tree, a timeout or a progress callback depends on the grammar and the
/// text alone.
pub uninterp spec fn syntax_nodes(lang: SyntaxLanguage, text: Seq<char>) -> Seq<NodeView>;

/// A source text and the tree parsed from it; its view is the grammar and the text.
pub struct ParsedSource {
    tree: tree_sitter::Tree,
    lang: SyntaxLanguage,
    text: String,
}

impl View for ParsedSource {
    type V = (SyntaxLanguage, Seq<char>);

    closed spec fn view(&self) -> (SyntaxLanguage, Seq<char>) {
        (self.lang, self.text@)
    }
}

/// `Parser::parse` of the whole text, with no old tree, kept with the parser's
/// grammar and the text. Its documentation says no tree comes back only when no
/// language was assigned; a `LoadedParser` always has one (a native grammar, so
/// no wasm scanner error), and no progress callback is passed that could cancel.
#[verifier::external_body]
pub(crate) fn parse_source(p: &mut LoadedParser, source: &str) -> (r: Option<ParsedSource>)
    ensures
        r is Some,
        r matches Some(t) ==> t@ == (old(p)@, source@),
{
    match p.parser.parse(source, None) {
        Some(tree) => Some(ParsedSource { tree, lang: p.lang, text: source.to_string() }),
        None => None,
    }
}

/// `root_node().descendant_count()`: the number of nodes of the tree, which
/// counts the root itself (so at least one) and is a `u32` in the tree.
#[verifier::external_body]
pub(crate) fn node_count(t: &ParsedSource) -> (n: usize)
    ensures
        n == syntax_nodes(t@.0, t@.1).len(),
        1 <= n <= u32::MAX,
{
    t.tree.root_node().descendant_count()
}

/// The `i`-th node in pre-order (`TreeCursor::goto_descendant(i)`), read as a
/// [`SyntaxNode`] with its text taken from the parsed source; its row and
/// subtree size come from `u32` fields of the tree.
#[verifier::external_body]
pub(crate) fn node_at(t: &ParsedSource, i: usize) -> (r: SyntaxNode)
    requires
        i < syntax_nodes(t@.0, t@.1).len(),
    ensures
        r@ == syntax_nodes(t@.0, t@.1)[i as int],
        r.row < u32::MAX,
        r.size <= u32::MAX,
{
    let mut cursor = t.tree.walk();
    cursor.goto_descendant(i);
    let node = cursor.node();
    SyntaxNode {
        kind: node.kind().to_string(),
        is_error: node.is_error(),
        is_missing: node.is_missing(),
        is_named: node.is_named(),
        row: node.start_position().row,
        text: node.utf8_text(t.text.as_bytes()).unwrap_or("").to_string(),
        field: cursor.field_name().map(|f| f.to_string()),
        size: node.descendant_count(),
    }
}

} // verus!
