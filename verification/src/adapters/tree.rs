//! A tree-sitter parse, read one node at a time.
//!
//! A tree-sitter parse of a whole text, with no earlier tree, depends only
//! on the grammar and the text. So a node of it is fixed by the grammar,
//! the text and the path of steps from the root down to it (a child at a
//! position, or the child in a named field), and what tree-sitter reports
//! of a node (its kind, its position, its text, its children) is a
//! function of that place. The names below stand for those functions; a
//! cursor carries the place of its node, and only the items of this module
//! make cursors.
use vstd::prelude::*;
use tree_sitter::{Language, Node, Parser, Tree};
use crate::adapters::syntax::Grammar;

verus! {

#[verifier::external_type_specification]
#[verifier::external_body]
pub struct ExNode<'a>(Node<'a>);

#[verifier::external_type_specification]
#[verifier::external_body]
pub struct ExTree(Tree);

#[verifier::external_type_specification]
#[verifier::external_body]
pub struct ExParser(Parser);

#[verifier::external_type_specification]
#[verifier::external_body]
pub struct ExLanguage(Language);

/// One step from a node down to another: its child at a position, or its
/// child in a named field.
pub enum Step {
    Child(usize),
    Field(&'static str),
}

/// Where a node stands: the grammar and the text of the parse, and the
/// steps from the root down to the node.
pub struct NodePlace {
    pub grammar: Grammar,
    pub source: Seq<char>,
    pub path: Seq<Step>,
}

impl NodePlace {
    /// The place of the child at position `i`.
    pub open spec fn child(self, i: usize) -> NodePlace {
        NodePlace { grammar: self.grammar, source: self.source, path: self.path.push(Step::Child(i)) }
    }

    /// The place of the child in the field `f`.
    pub open spec fn field(self, f: &'static str) -> NodePlace {
        NodePlace { grammar: self.grammar, source: self.source, path: self.path.push(Step::Field(f)) }
    }
}

/// The root of the parse of `source` with `g`.
pub open spec fn root_place(g: Grammar, source: Seq<char>) -> NodePlace {
    NodePlace { grammar: g, source, path: Seq::empty() }
}

/// Whether `Parser::set_language` accepts the grammar's language (it
/// refuses one built for another tree-sitter ABI version).
pub uninterp spec fn grammar_accepted(g: Grammar) -> bool;

/// `Node::kind` of the node at a place.
pub uninterp spec fn kind_at(p: NodePlace) -> Seq<char>;

/// `Node::start_position` (row, column) of the node at a place.
pub uninterp spec fn start_at(p: NodePlace) -> (usize, usize);

/// `Node::end_position` (row, column) of the node at a place.
pub uninterp spec fn end_at(p: NodePlace) -> (usize, usize);

/// `Node::utf8_text` of the node at a place; `None` where its bytes are not
/// valid UTF-8.
pub uninterp spec fn text_at(p: NodePlace) -> Option<Seq<char>>;

/// `Node::child_count` of the node at a place.
pub uninterp spec fn child_count_at(p: NodePlace) -> usize;

/// Whether `Node::child` finds a node at a place whose last step is a
/// position.
pub uninterp spec fn child_exists(p: NodePlace) -> bool;

/// Whether `Node::child_by_field_name` finds a node at a place whose last
/// step is a field.
pub uninterp spec fn field_exists(p: NodePlace) -> bool;

/// `tree_sitter_rust::language()`, the language of `Grammar::Rust`.
#[verifier::external_body]
fn rust_grammar() -> (r: GrammarLanguage)
    ensures
        r@ == Grammar::Rust,
{
    GrammarLanguage { language: tree_sitter_rust::language(), grammar: Grammar::Rust }
}

/// `tree_sitter_python::language()`, the language of `Grammar::Python`.
#[verifier::external_body]
fn python_grammar() -> (r: GrammarLanguage)
    ensures
        r@ == Grammar::Python,
{
    GrammarLanguage { language: tree_sitter_python::language(), grammar: Grammar::Python }
}

/// `tree_sitter_java::language()`, the language of `Grammar::Java`.
#[verifier::external_body]
fn java_grammar() -> (r: GrammarLanguage)
    ensures
        r@ == Grammar::Java,
{
    GrammarLanguage { language: tree_sitter_java::language(), grammar: Grammar::Java }
}

/// `tree_sitter_go::language()`, the language of `Grammar::Go`.
#[verifier::external_body]
fn go_grammar() -> (r: GrammarLanguage)
    ensures
        r@ == Grammar::Go,
{
    GrammarLanguage { language: tree_sitter_go::language(), grammar: Grammar::Go }
}

/// `tree_sitter_javascript::language()`, the language of `Grammar::JavaScript`.
#[verifier::external_body]
fn javascript_grammar() -> (r: GrammarLanguage)
    ensures
        r@ == Grammar::JavaScript,
{
    GrammarLanguage { language: tree_sitter_javascript::language(), grammar: Grammar::JavaScript }
}

/// A grammar's language, with the grammar it came from.
pub struct GrammarLanguage {
    language: Language,
    grammar: Grammar,
}

impl View for GrammarLanguage {
    type V = Grammar;

    closed spec fn view(&self) -> Grammar {
        self.grammar
    }
}

/// The language of a grammar.
pub fn grammar_language(g: Grammar) -> (r: GrammarLanguage)
    ensures
        r@ == g,
{
    match g {
        Grammar::Rust => rust_grammar(),
        Grammar::Python => python_grammar(),
        Grammar::Java => java_grammar(),
        Grammar::Go => go_grammar(),
        Grammar::JavaScript => javascript_grammar(),
    }
}

/// `Parser::new()`.
#[verifier::external_body]
pub(crate) fn new_parser() -> Parser {
    Parser::new()
}

/// A parser with a grammar, made from a new parser; nothing here sets a
/// timeout or a cancellation flag on it.
pub struct ReadyParser {
    parser: Parser,
    grammar: Grammar,
}

impl View for ReadyParser {
    type V = Grammar;

    closed spec fn view(&self) -> Grammar {
        self.grammar
    }
}

/// `Parser::set_language` on a new parser: the parser, ready to parse, when
/// it accepts the language. Whether it does depends on the language alone
/// (its ABI version), so on the grammar.
#[verifier::external_body]
pub(crate) fn set_parser_language(parser: Parser, language: GrammarLanguage) -> (r: Option<ReadyParser>)
    ensures
        r is Some <==> grammar_accepted(language@),
        r matches Some(p) ==> p@ == language@,
{
    let mut parser = parser;
    match parser.set_language(language.language) {
        Ok(()) => Some(ReadyParser { parser, grammar: language.grammar }),
        Err(_) => None,
    }
}

/// A tree, with the grammar and the text it was parsed from.
pub struct ParsedTree<'a> {
    tree: Tree,
    grammar: Grammar,
    source: &'a str,
}

impl<'a> View for ParsedTree<'a> {
    type V = NodePlace;

    /// The place of the root.
    closed spec fn view(&self) -> NodePlace {
        root_place(self.grammar, self.source@)
    }
}

/// `Parser::parse` of a whole text without an earlier tree. tree-sitter
/// returns no tree only when the parser has no language, a timeout set with
/// `set_timeout_micros` expired, or a cancellation flag was set; a ready
/// parser has a language and neither of the others, so a tree comes back.
#[verifier::external_body]
pub(crate) fn parse_text<'a>(parser: &mut ReadyParser, source: &'a str) -> (r: Option<ParsedTree<'a>>)
    ensures
        r is Some,
        r matches Some(t) ==> t@ == root_place(old(parser)@, source@),
{
    match parser.parser.parse(source, None) {
        Some(tree) => Some(ParsedTree { tree, grammar: parser.grammar, source }),
        None => None,
    }
}

/// A node of a parsed tree, with the text of the parse and its place.
pub struct SyntaxCursor<'a> {
    node: Node<'a>,
    grammar: Grammar,
    source: &'a str,
    path: Ghost<Seq<Step>>,
}

impl<'a> View for SyntaxCursor<'a> {
    type V = NodePlace;

    closed spec fn view(&self) -> NodePlace {
        NodePlace { grammar: self.grammar, source: self.source@, path: self.path@ }
    }
}

/// `Tree::root_node`.
#[verifier::external_body]
pub(crate) fn root_of<'a>(t: &'a ParsedTree<'a>) -> (r: SyntaxCursor<'a>)
    ensures
        r@ == t@,
{
    SyntaxCursor { node: t.tree.root_node(), grammar: t.grammar, source: t.source, path: Ghost(Seq::empty()) }
}

/// `Node::kind`.
#[verifier::external_body]
pub(crate) fn node_kind(c: &SyntaxCursor) -> (r: String)
    ensures
        r@ == kind_at(c@),
{
    c.node.kind().to_owned()
}

/// `Node::start_position`, as row and column.
#[verifier::external_body]
pub(crate) fn node_start(c: &SyntaxCursor) -> (r: (usize, usize))
    ensures
        r == start_at(c@),
{
    let p = c.node.start_position();
    (p.row, p.column)
}

/// `Node::end_position`, as row and column.
#[verifier::external_body]
pub(crate) fn node_end(c: &SyntaxCursor) -> (r: (usize, usize))
    ensures
        r == end_at(c@),
{
    let p = c.node.end_position();
    (p.row, p.column)
}

/// `Node::utf8_text` over the text the tree was parsed from, which holds
/// the node's byte range; `None` where those bytes are not valid UTF-8.
#[verifier::external_body]
pub(crate) fn node_text(c: &SyntaxCursor) -> (r: Option<String>)
    ensures
        r is Some <==> text_at(c@) is Some,
        r matches Some(s) ==> text_at(c@) == Some(s@),
{
    match c.node.utf8_text(c.source.as_bytes()) {
        Ok(t) => Some(t.to_owned()),
        Err(_) => None,
    }
}

/// `Node::child_count`.
#[verifier::external_body]
pub(crate) fn node_child_count(c: &SyntaxCursor) -> (r: usize)
    ensures
        r == child_count_at(c@),
{
    c.node.child_count()
}

/// `Node::child`: the child at position `i`, if there is one; there is one
/// at every position below the count of children.
#[verifier::external_body]
pub(crate) fn node_child<'a>(c: &SyntaxCursor<'a>, i: usize) -> (r: Option<SyntaxCursor<'a>>)
    ensures
        r is Some <==> child_exists(c@.child(i)),
        i < child_count_at(c@) ==> r is Some,
        r matches Some(d) ==> d@ == c@.child(i),
{
    match c.node.child(i) {
        Some(node) => Some(SyntaxCursor { node, grammar: c.grammar, source: c.source, path: Ghost(c.path@.push(Step::Child(i))) }),
        None => None,
    }
}

/// `Node::child_by_field_name`: the child in the field `f`, if there is one.
#[verifier::external_body]
pub(crate) fn node_field<'a>(c: &SyntaxCursor<'a>, f: &'static str) -> (r: Option<SyntaxCursor<'a>>)
    ensures
        r is Some <==> field_exists(c@.field(f)),
        r matches Some(d) ==> d@ == c@.field(f),
{
    match c.node.child_by_field_name(f) {
        Some(node) => Some(SyntaxCursor { node, grammar: c.grammar, source: c.source, path: Ghost(c.path@.push(Step::Field(f))) }),
        None => None,
    }
}

} // verus!
