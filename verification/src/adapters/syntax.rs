//! The syntax tree that the adapters read, built from a tree-sitter parse.
//!
//! Each node keeps what the extraction reads: its kind, its position, its
//! text, the texts of its `name`, `left` and `function` fields, the kind of
//! its `type` field, and its children in order. `syntax_of` states the
//! tree that `parse_syntax` builds, node by node, over what tree-sitter
//! reports of each place of the parse.
use vstd::prelude::*;
use crate::adapters::tree::{
    NodePlace, SyntaxCursor, child_count_at, child_exists, end_at, field_exists, grammar_accepted,
    grammar_language, kind_at, new_parser, node_child, node_child_count, node_end, node_field, node_kind,
    node_start, node_text, parse_text, root_of, root_place, set_parser_language, start_at, text_at,
};

verus! {

/// A node of a syntax tree.
pub struct SyntaxNode {
    pub kind: String,
    pub start_row: usize,
    pub start_col: usize,
    pub end_row: usize,
    pub end_col: usize,
    /// The node's source text, when it is valid UTF-8.
    pub text: Option<String>,
    /// The text of the child in the `name` field, if any.
    pub name_text: Option<String>,
    /// The text of the child in the `left` field, if any.
    pub left_text: Option<String>,
    /// Whether there is a child in the `function` field, and its text.
    pub function_text: Option<Option<String>>,
    /// The kind of the child in the `type` field, if any.
    pub type_kind: Option<String>,
    pub children: Vec<SyntaxNode>,
}

/// The mathematical value of a syntax node.
pub struct SyntaxView {
    pub kind: Seq<char>,
    pub start_row: int,
    pub start_col: int,
    pub end_row: int,
    pub end_col: int,
    pub text: Option<Seq<char>>,
    pub name_text: Option<Seq<char>>,
    pub left_text: Option<Seq<char>>,
    pub function_text: Option<Option<Seq<char>>>,
    pub type_kind: Option<Seq<char>>,
    pub children: Seq<SyntaxView>,
}

/// The characters of an optional string.
pub open spec fn opt_chars(o: Option<String>) -> Option<Seq<char>> {
    match o {
        Some(s) => Some(s@),
        None => None,
    }
}

/// The value of a node.
pub open spec fn node_view(n: SyntaxNode) -> SyntaxView
    decreases n, 1int,
{
    proof {
        assert(decreases_to!(n => n.children));
        assert(decreases_to!(n.children => n.children@));
    }
    SyntaxView {
        kind: n.kind@,
        start_row: n.start_row as int,
        start_col: n.start_col as int,
        end_row: n.end_row as int,
        end_col: n.end_col as int,
        text: opt_chars(n.text),
        name_text: opt_chars(n.name_text),
        left_text: opt_chars(n.left_text),
        function_text: match n.function_text {
            Some(t) => Some(opt_chars(t)),
            None => None,
        },
        type_kind: opt_chars(n.type_kind),
        children: nodes_view(n.children@),
    }
}

/// The values of a list of nodes.
pub open spec fn nodes_view(cs: Seq<SyntaxNode>) -> Seq<SyntaxView>
    decreases cs, 0int,
{
    if cs.len() == 0 {
        Seq::empty()
    } else {
        proof {
            assert(decreases_to!(cs => cs[cs.len() - 1]));
        }
        nodes_view(cs.drop_last()).push(node_view(cs[cs.len() - 1]))
    }
}

impl View for SyntaxNode {
    type V = SyntaxView;

    open spec fn view(&self) -> SyntaxView {
        node_view(*self)
    }
}

/// The grammars the adapters parse with.
#[derive(Debug, Clone, Copy, PartialEq, Eq, Structural)]
pub enum Grammar {
    Rust,
    Python,
    Java,
    Go,
    JavaScript,
}

/// Why a source could not be read.
#[derive(Debug, Clone, PartialEq, Eq, Structural)]
pub enum AdapterError {
    /// The parser refused the grammar.
    LanguageRejected,
    /// The parser produced no tree.
    ParseFailed,
}

impl AdapterError {
    /// The message of the error.
    pub fn message(&self) -> (r: String)
        ensures
            *self == AdapterError::LanguageRejected ==> r@ == "set_language failed"@,
            *self == AdapterError::ParseFailed ==> r@ == "parse failed"@,
    {
        match self {
            AdapterError::LanguageRejected => "set_language failed".to_owned(),
            AdapterError::ParseFailed => "parse failed".to_owned(),
        }
    }
}

/// The text of the child in the field `f` of the node at a place.
pub open spec fn field_text_at(p: NodePlace, f: &'static str) -> Option<Seq<char>> {
    if field_exists(p.field(f)) {
        text_at(p.field(f))
    } else {
        None
    }
}

/// The syntax tree of the node at a place, its descendants down to `depth`
/// levels.
pub open spec fn syntax_at(p: NodePlace, depth: nat) -> SyntaxView
    decreases depth, 1nat, 0nat,
{
    SyntaxView {
        kind: kind_at(p),
        start_row: start_at(p).0 as int,
        start_col: start_at(p).1 as int,
        end_row: end_at(p).0 as int,
        end_col: end_at(p).1 as int,
        text: text_at(p),
        name_text: field_text_at(p, "name"),
        left_text: field_text_at(p, "left"),
        function_text: if field_exists(p.field("function")) {
            Some(text_at(p.field("function")))
        } else {
            None
        },
        type_kind: if field_exists(p.field("type")) {
            Some(kind_at(p.field("type")))
        } else {
            None
        },
        children: if depth == 0 {
            Seq::empty()
        } else {
            children_upto(p, (depth - 1) as nat, child_count_at(p) as nat)
        },
    }
}

/// The syntax trees of the children at positions below `n` of the node at a
/// place (those that tree-sitter finds), each down to `depth` levels.
pub open spec fn children_upto(p: NodePlace, depth: nat, n: nat) -> Seq<SyntaxView>
    decreases depth + 1, 0nat, n,
{
    if n == 0 {
        Seq::empty()
    } else {
        let before = children_upto(p, depth, (n - 1) as nat);
        let i = (n - 1) as usize;
        if child_exists(p.child(i)) {
            before.push(syntax_at(p.child(i), depth))
        } else {
            before
        }
    }
}

/// The syntax tree of the parse of `source` with the grammar `g`.
pub open spec fn syntax_of(g: Grammar, source: Seq<char>) -> SyntaxView {
    syntax_at(root_place(g, source), usize::MAX as nat)
}

fn field_text(c: &SyntaxCursor, f: &'static str) -> (r: Option<String>)
    ensures
        opt_chars(r) == field_text_at(c@, f),
{
    match node_field(c, f) {
        Some(d) => node_text(&d),
        None => None,
    }
}

/// The syntax tree of a node, its descendants down to `depth` levels.
fn convert(c: &SyntaxCursor, depth: usize) -> (r: SyntaxNode)
    ensures
        r@ == syntax_at(c@, depth as nat),
    decreases depth,
{
    let kind = node_kind(c);
    let (start_row, start_col) = node_start(c);
    let (end_row, end_col) = node_end(c);
    let text = node_text(c);
    let name_text = field_text(c, "name");
    let left_text = field_text(c, "left");
    let function_text = match node_field(c, "function") {
        Some(d) => Some(node_text(&d)),
        None => None,
    };
    let type_kind = match node_field(c, "type") {
        Some(d) => Some(node_kind(&d)),
        None => None,
    };
    let mut children: Vec<SyntaxNode> = Vec::new();
    if depth > 0 {
        let n = node_child_count(c);
        let mut i: usize = 0;
        while i < n
            invariant
                i <= n,
                depth > 0,
                n == child_count_at(c@),
                nodes_view(children@) == children_upto(c@, (depth - 1) as nat, i as nat),
            decreases n - i,
        {
            match node_child(c, i) {
                Some(d) => {
                    let x = convert(&d, depth - 1);
                    proof {
                        assert(children@.push(x).drop_last() =~= children@);
                    }
                    children.push(x);
                },
                None => {},
            }
            i += 1;
        }
    }
    let r = SyntaxNode { kind, start_row, start_col, end_row, end_col, text, name_text, left_text, function_text, type_kind, children };
    proof {
        assert(r@.function_text == syntax_at(c@, depth as nat).function_text);
        assert(r@.type_kind == syntax_at(c@, depth as nat).type_kind);
        assert(r@.children == syntax_at(c@, depth as nat).children);
    }
    r
}

/// Parses a source with a grammar into its syntax tree (the root node). It
/// fails only where the parser refuses the grammar.
pub fn parse_syntax(g: Grammar, source: &str) -> (r: Result<SyntaxNode, AdapterError>)
    ensures
        r is Ok <==> grammar_accepted(g),
        r matches Err(e) ==> e == AdapterError::LanguageRejected,
        r matches Ok(t) ==> t@ == syntax_of(g, source@),
{
    let parser = new_parser();
    let mut ready = match set_parser_language(parser, grammar_language(g)) {
        None => {
            return Err(AdapterError::LanguageRejected);
        },
        Some(p) => p,
    };
    match parse_text(&mut ready, source) {
        None => Err(AdapterError::ParseFailed),
        Some(tree) => {
            let root = root_of(&tree);
            Ok(convert(&root, usize::MAX))
        },
    }
}

} // verus!
