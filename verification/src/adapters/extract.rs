//! What the adapters read from a syntax tree: the symbols each grammar
//! declares, the import statements and the calls, in document order.
use vstd::prelude::*;
use crate::adapters::syntax::{Grammar, SyntaxNode, nodes_view, opt_chars};
use crate::domain::normalize::opt_view;
use crate::domain::types::{
    CallEdge, CallView, ImportEdge, ImportView, Location, Symbol, SymbolView, call_views, import_views,
    symbol_views,
};
use crate::text::{
    append_chars, append_decimal, append_str, chars_of, contains, decimal, find, seq_eq, slice_range, string_of,
    trim, trim_chars,
};

verus! {

// ---------------------------------------------------------------------------
// Node kinds
// ---------------------------------------------------------------------------

/// The symbol kind a grammar's node kind declares, if any.
pub open spec fn node_type(g: Grammar, k: Seq<char>) -> Option<Seq<char>> {
    match g {
        Grammar::Rust => if k == "function_item"@ {
            Some("function"@)
        } else if k == "struct_item"@ {
            Some("struct"@)
        } else if k == "enum_item"@ {
            Some("enum"@)
        } else if k == "impl_item"@ {
            Some("impl"@)
        } else if k == "trait_item"@ {
            Some("trait"@)
        } else if k == "mod_item"@ {
            Some("mod"@)
        } else if k == "use_declaration"@ {
            Some("use"@)
        } else if k == "const_item"@ {
            Some("const"@)
        } else if k == "static_item"@ {
            Some("static"@)
        } else {
            None
        },
        Grammar::Python => if k == "function_definition"@ || k == "lambda"@ || k == "async_function_definition"@ {
            Some("function"@)
        } else if k == "class_definition"@ {
            Some("class"@)
        } else if k == "decorated_definition"@ {
            Some("decorated"@)
        } else if k == "assignment"@ {
            Some("variable"@)
        } else if k == "import_statement"@ || k == "import_from_statement"@ {
            Some("import"@)
        } else {
            None
        },
        Grammar::Java => if k == "method_declaration"@ {
            Some("method"@)
        } else if k == "class_declaration"@ {
            Some("class"@)
        } else if k == "enum_declaration"@ {
            Some("enum"@)
        } else if k == "interface_declaration"@ {
            Some("interface"@)
        } else if k == "annotation_type_declaration"@ {
            Some("annotation"@)
        } else if k == "constructor_declaration"@ {
            Some("constructor"@)
        } else if k == "import_declaration"@ {
            Some("import"@)
        } else if k == "field_declaration"@ {
            Some("field"@)
        } else {
            None
        },
        Grammar::Go => if k == "function_declaration"@ {
            Some("function"@)
        } else if k == "method_declaration"@ {
            Some("method"@)
        } else if k == "import_declaration"@ {
            Some("import"@)
        } else if k == "var_declaration"@ {
            Some("var"@)
        } else if k == "const_declaration"@ {
            Some("const"@)
        } else {
            None
        },
        Grammar::JavaScript => if k == "function_declaration"@ || k == "arrow_function"@ || k == "function_expression"@ {
            Some("function"@)
        } else if k == "class_declaration"@ {
            Some("class"@)
        } else if k == "enum_declaration"@ {
            Some("enum"@)
        } else if k == "interface_declaration"@ {
            Some("interface"@)
        } else if k == "type_alias_declaration"@ {
            Some("type"@)
        } else if k == "import_statement"@ || k == "import_declaration"@ {
            Some("import"@)
        } else if k == "export_statement"@ {
            Some("export"@)
        } else if k == "lexical_declaration"@ || k == "variable_declaration"@ {
            Some("variable"@)
        } else if k == "method_definition"@ {
            Some("method"@)
        } else {
            None
        },
    }
}

fn is_lit(a: &[char], b: &str) -> (r: bool)
    ensures
        r == (a@ == b@),
{
    let bc = chars_of(b);
    seq_eq(a, bc.as_slice())
}

/// `node_type`.
pub fn node_type_exec(g: Grammar, kind: &str) -> (r: Option<&'static str>)
    ensures
        match r { Some(s) => Some(s@), None => None::<Seq<char>> } == node_type(g, kind@),
{
    let k = chars_of(kind);
    let k = k.as_slice();
    match g {
        Grammar::Rust => if is_lit(k, "function_item") {
            Some("function")
        } else if is_lit(k, "struct_item") {
            Some("struct")
        } else if is_lit(k, "enum_item") {
            Some("enum")
        } else if is_lit(k, "impl_item") {
            Some("impl")
        } else if is_lit(k, "trait_item") {
            Some("trait")
        } else if is_lit(k, "mod_item") {
            Some("mod")
        } else if is_lit(k, "use_declaration") {
            Some("use")
        } else if is_lit(k, "const_item") {
            Some("const")
        } else if is_lit(k, "static_item") {
            Some("static")
        } else {
            None
        },
        Grammar::Python => if is_lit(k, "function_definition") || is_lit(k, "lambda") || is_lit(k, "async_function_definition") {
            Some("function")
        } else if is_lit(k, "class_definition") {
            Some("class")
        } else if is_lit(k, "decorated_definition") {
            Some("decorated")
        } else if is_lit(k, "assignment") {
            Some("variable")
        } else if is_lit(k, "import_statement") || is_lit(k, "import_from_statement") {
            Some("import")
        } else {
            None
        },
        Grammar::Java => if is_lit(k, "method_declaration") {
            Some("method")
        } else if is_lit(k, "class_declaration") {
            Some("class")
        } else if is_lit(k, "enum_declaration") {
            Some("enum")
        } else if is_lit(k, "interface_declaration") {
            Some("interface")
        } else if is_lit(k, "annotation_type_declaration") {
            Some("annotation")
        } else if is_lit(k, "constructor_declaration") {
            Some("constructor")
        } else if is_lit(k, "import_declaration") {
            Some("import")
        } else if is_lit(k, "field_declaration") {
            Some("field")
        } else {
            None
        },
        Grammar::Go => if is_lit(k, "function_declaration") {
            Some("function")
        } else if is_lit(k, "method_declaration") {
            Some("method")
        } else if is_lit(k, "import_declaration") {
            Some("import")
        } else if is_lit(k, "var_declaration") {
            Some("var")
        } else if is_lit(k, "const_declaration") {
            Some("const")
        } else {
            None
        },
        Grammar::JavaScript => if is_lit(k, "function_declaration") || is_lit(k, "arrow_function") || is_lit(k, "function_expression") {
            Some("function")
        } else if is_lit(k, "class_declaration") {
            Some("class")
        } else if is_lit(k, "enum_declaration") {
            Some("enum")
        } else if is_lit(k, "interface_declaration") {
            Some("interface")
        } else if is_lit(k, "type_alias_declaration") {
            Some("type")
        } else if is_lit(k, "import_statement") || is_lit(k, "import_declaration") {
            Some("import")
        } else if is_lit(k, "export_statement") {
            Some("export")
        } else if is_lit(k, "lexical_declaration") || is_lit(k, "variable_declaration") {
            Some("variable")
        } else if is_lit(k, "method_definition") {
            Some("method")
        } else {
            None
        },
    }
}

/// Whether a node is a Go type specification (`type T ...` or `type T = ...`
/// inside a `type` declaration).
pub open spec fn is_go_type_spec(g: Grammar, n: SyntaxNode) -> bool {
    g == Grammar::Go && (n.kind@ == "type_spec"@ || n.kind@ == "type_alias"@)
}

/// The kind of symbol a Go type specification declares, by the kind of the
/// type it names: a struct, an interface, or another type.
pub open spec fn go_type_kind(type_kind: Option<Seq<char>>) -> Seq<char> {
    if type_kind == Some("struct_type"@) {
        "struct"@
    } else if type_kind == Some("interface_type"@) {
        "interface"@
    } else {
        "type"@
    }
}

/// The symbol kind a node declares, if any.
pub open spec fn symbol_kind(g: Grammar, n: SyntaxNode) -> Option<Seq<char>> {
    if is_go_type_spec(g, n) {
        Some(go_type_kind(opt_view(n.type_kind)))
    } else {
        node_type(g, n.kind@)
    }
}

/// `symbol_kind`.
pub fn symbol_kind_exec(g: Grammar, n: &SyntaxNode) -> (r: Option<&'static str>)
    ensures
        match r { Some(s) => Some(s@), None => None::<Seq<char>> } == symbol_kind(g, *n),
{
    let k = chars_of(n.kind.as_str());
    if g == Grammar::Go && (is_lit(k.as_slice(), "type_spec") || is_lit(k.as_slice(), "type_alias")) {
        let t = match &n.type_kind {
            Some(t) => chars_of(t.as_str()),
            None => Vec::new(),
        };
        let known = n.type_kind.is_some();
        proof {
            reveal_strlit("struct");
            reveal_strlit("interface");
            reveal_strlit("type");
        }
        if known && is_lit(t.as_slice(), "struct_type") {
            Some("struct")
        } else if known && is_lit(t.as_slice(), "interface_type") {
            Some("interface")
        } else {
            Some("type")
        }
    } else {
        node_type_exec(g, n.kind.as_str())
    }
}

// ---------------------------------------------------------------------------
// Names
// ---------------------------------------------------------------------------

/// The text of the first child of kind `k1` or `k2` whose text is known.
pub open spec fn first_text_of_kind(cs: Seq<SyntaxNode>, k1: Seq<char>, k2: Seq<char>) -> Option<Seq<char>>
    decreases cs.len(),
{
    if cs.len() == 0 {
        None
    } else if (cs[0].kind@ == k1 || cs[0].kind@ == k2) && cs[0].text is Some {
        Some(cs[0].text->0@)
    } else {
        first_text_of_kind(cs.drop_first(), k1, k2)
    }
}

/// The `name` of the first `variable_declarator` child that has one.
pub open spec fn first_declarator_name(cs: Seq<SyntaxNode>) -> Option<Seq<char>>
    decreases cs.len(),
{
    if cs.len() == 0 {
        None
    } else if cs[0].kind@ == "variable_declarator"@ && cs[0].name_text is Some {
        Some(cs[0].name_text->0@)
    } else {
        first_declarator_name(cs.drop_first())
    }
}

/// The name most nodes have: the `name` field's text, else the first
/// identifier child's, else the node's kind.
pub open spec fn standard_name(n: SyntaxNode) -> Seq<char> {
    match n.name_text {
        Some(t) => t@,
        None => match first_text_of_kind(n.children@, "identifier"@, "identifier"@) {
            Some(t) => t,
            None => n.kind@,
        },
    }
}

/// A text, or a default when there is none.
pub open spec fn text_or(o: Option<Seq<char>>, d: Seq<char>) -> Seq<char> {
    match o {
        Some(t) => t,
        None => d,
    }
}

/// The name of a symbol node in a grammar.
pub open spec fn node_name(g: Grammar, n: SyntaxNode) -> Seq<char>
    decreases n, 1int,
{
    let k = n.kind@;
    match g {
        Grammar::Rust => text_or(opt_view(n.name_text), "unknown"@),
        Grammar::Python => if k == "decorated_definition"@ {
            proof {
                assert(decreases_to!(n => n.children));
                assert(decreases_to!(n.children => n.children@));
            }
            decorated_name(n.children@)
        } else if k == "import_statement"@ || k == "import_from_statement"@ {
            text_or(first_text_of_kind(n.children@, "dotted_name"@, "relative_import"@), "import"@)
        } else if k == "assignment"@ {
            text_or(opt_view(n.left_text), "variable"@)
        } else {
            standard_name(n)
        },
        Grammar::Java => if k == "field_declaration"@ {
            text_or(first_declarator_name(n.children@), "field"@)
        } else {
            standard_name(n)
        },
        Grammar::Go => if k == "var_declaration"@ || k == "const_declaration"@ {
            text_or(first_text_of_kind(n.children@, "identifier"@, "identifier"@), "variable"@)
        } else {
            standard_name(n)
        },
        Grammar::JavaScript => if k == "lexical_declaration"@ || k == "variable_declaration"@ {
            text_or(first_declarator_name(n.children@), "variable"@)
        } else if k == "import_statement"@ || k == "import_declaration"@ {
            text_or(first_text_of_kind(n.children@, "string"@, "identifier"@), "import"@)
        } else {
            standard_name(n)
        },
    }
}

/// The name of a decorated Python definition: the name of the last child
/// whose name is neither `decorated` nor `decorator`.
pub open spec fn decorated_name(cs: Seq<SyntaxNode>) -> Seq<char>
    decreases cs, 0int,
{
    if cs.len() == 0 {
        "decorated"@
    } else {
        proof {
            assert(decreases_to!(cs => cs[cs.len() - 1]));
        }
        let nm = node_name(Grammar::Python, cs[cs.len() - 1]);
        if nm != "decorated"@ && nm != "decorator"@ {
            nm
        } else {
            decorated_name(cs.subrange(0, cs.len() - 1))
        }
    }
}

fn opt_string_chars(o: &Option<String>) -> (r: Option<Vec<char>>)
    ensures
        match r { Some(v) => Some(v@), None => None::<Seq<char>> } == opt_view(*o),
{
    match o {
        Some(s) => Some(chars_of(s.as_str())),
        None => None,
    }
}

fn or_lit(o: Option<Vec<char>>, d: &str) -> (r: Vec<char>)
    ensures
        r@ == text_or(match o { Some(v) => Some(v@), None => None::<Seq<char>> }, d@),
{
    match o {
        Some(v) => v,
        None => chars_of(d),
    }
}

fn first_text_of_kind_exec(cs: &Vec<SyntaxNode>, k1: &str, k2: &str) -> (r: Option<Vec<char>>)
    ensures
        match r { Some(v) => Some(v@), None => None::<Seq<char>> } == first_text_of_kind(cs@, k1@, k2@),
{
    let mut i: usize = 0;
    assert(cs@.skip(0) == cs@);
    while i < cs.len()
        invariant
            i <= cs.len(),
            first_text_of_kind(cs@, k1@, k2@) == first_text_of_kind(cs@.skip(i as int), k1@, k2@),
        decreases cs.len() - i,
    {
        let ghost t = cs@.skip(i as int);
        assert(t[0] == cs@[i as int]);
        assert(t.drop_first() == cs@.skip(i + 1));
        let c = &cs[i];
        let k = chars_of(c.kind.as_str());
        if is_lit(k.as_slice(), k1) || is_lit(k.as_slice(), k2) {
            match &c.text {
                Some(t) => {
                    return Some(chars_of(t.as_str()));
                },
                None => {},
            }
        }
        i += 1;
    }
    None
}

fn first_declarator_name_exec(cs: &Vec<SyntaxNode>) -> (r: Option<Vec<char>>)
    ensures
        match r { Some(v) => Some(v@), None => None::<Seq<char>> } == first_declarator_name(cs@),
{
    let mut i: usize = 0;
    assert(cs@.skip(0) == cs@);
    while i < cs.len()
        invariant
            i <= cs.len(),
            first_declarator_name(cs@) == first_declarator_name(cs@.skip(i as int)),
        decreases cs.len() - i,
    {
        let ghost t = cs@.skip(i as int);
        assert(t[0] == cs@[i as int]);
        assert(t.drop_first() == cs@.skip(i + 1));
        let c = &cs[i];
        let k = chars_of(c.kind.as_str());
        if is_lit(k.as_slice(), "variable_declarator") {
            match &c.name_text {
                Some(t) => {
                    return Some(chars_of(t.as_str()));
                },
                None => {},
            }
        }
        i += 1;
    }
    None
}

fn standard_name_exec(n: &SyntaxNode) -> (r: Vec<char>)
    ensures
        r@ == standard_name(*n),
{
    match &n.name_text {
        Some(t) => chars_of(t.as_str()),
        None => match first_text_of_kind_exec(&n.children, "identifier", "identifier") {
            Some(t) => t,
            None => chars_of(n.kind.as_str()),
        },
    }
}

/// `extract_name`: the name of a symbol node.
pub fn node_name_exec(g: Grammar, n: &SyntaxNode) -> (r: Vec<char>)
    ensures
        r@ == node_name(g, *n),
    decreases n,
{
    let k = chars_of(n.kind.as_str());
    let k = k.as_slice();
    match g {
        Grammar::Rust => or_lit(opt_string_chars(&n.name_text), "unknown"),
        Grammar::Python => if is_lit(k, "decorated_definition") {
            assert(node_name(Grammar::Python, *n) == decorated_name(n.children@));
            let mut i: usize = n.children.len();
            assert(n.children@.subrange(0, i as int) == n.children@);
            while i > 0
                invariant
                    i <= n.children.len(),
                    node_name(g, *n) == decorated_name(n.children@),
                    decorated_name(n.children@) == decorated_name(n.children@.subrange(0, i as int)),
                decreases i,
            {
                proof {
                    assert(decreases_to!(*n => n.children));
                    assert(decreases_to!(n.children => n.children@));
                    assert(decreases_to!(n.children@ => n.children@[i - 1]));
                }
                let ghost t = n.children@.subrange(0, i as int);
                assert(t[t.len() - 1] == n.children@[i - 1]);
                assert(t.subrange(0, t.len() - 1) == n.children@.subrange(0, i - 1));
                let nm = node_name_exec(Grammar::Python, &n.children[i - 1]);
                if !is_lit(nm.as_slice(), "decorated") && !is_lit(nm.as_slice(), "decorator") {
                    assert(decorated_name(t) == nm@);
                    return nm;
                }
                i -= 1;
            }
            chars_of("decorated")
        } else if is_lit(k, "import_statement") || is_lit(k, "import_from_statement") {
            or_lit(first_text_of_kind_exec(&n.children, "dotted_name", "relative_import"), "import")
        } else if is_lit(k, "assignment") {
            or_lit(opt_string_chars(&n.left_text), "variable")
        } else {
            standard_name_exec(n)
        },
        Grammar::Java => if is_lit(k, "field_declaration") {
            or_lit(first_declarator_name_exec(&n.children), "field")
        } else {
            standard_name_exec(n)
        },
        Grammar::Go => if is_lit(k, "var_declaration") || is_lit(k, "const_declaration") {
            or_lit(first_text_of_kind_exec(&n.children, "identifier", "identifier"), "variable")
        } else {
            standard_name_exec(n)
        },
        Grammar::JavaScript => if is_lit(k, "lexical_declaration") || is_lit(k, "variable_declaration") {
            or_lit(first_declarator_name_exec(&n.children), "variable")
        } else if is_lit(k, "import_statement") || is_lit(k, "import_declaration") {
            or_lit(first_text_of_kind_exec(&n.children, "string", "identifier"), "import")
        } else {
            standard_name_exec(n)
        },
    }
}

// ---------------------------------------------------------------------------
// Symbols
// ---------------------------------------------------------------------------

/// Whether a grammar's walk skips `ERROR` nodes with all they contain.
pub open spec fn skips_errors(g: Grammar) -> bool {
    g == Grammar::Java || g == Grammar::Go || g == Grammar::JavaScript
}

/// Whether a symbol becomes the scope of the symbols inside it.
pub open spec fn scopes_nest(g: Grammar) -> bool {
    g != Grammar::Rust
}

/// The symbol a node declares.
pub open spec fn symbol_of(n: SyntaxNode, kind: Seq<char>, name: Seq<char>, scope: Option<Seq<char>>, file_path: Seq<char>) -> SymbolView {
    SymbolView {
        id: file_path + ":"@ + name,
        name,
        kind,
        scope,
        file_path,
        start_line: n.start_row as int,
        end_line: n.end_row as int,
        signature: opt_view(n.text),
    }
}

/// The symbols of a node and its descendants, in document order.
pub open spec fn node_symbols(g: Grammar, n: SyntaxNode, scope: Option<Seq<char>>, file_path: Seq<char>) -> Seq<SymbolView>
    decreases n, 1int,
{
    proof {
        assert(decreases_to!(n => n.children));
        assert(decreases_to!(n.children => n.children@));
    }
    if skips_errors(g) && n.kind@ == "ERROR"@ {
        Seq::empty()
    } else {
        match symbol_kind(g, n) {
            Some(k) => {
                let name = node_name(g, n);
                let inner = if scopes_nest(g) { Some(name) } else { scope };
                seq![symbol_of(n, k, name, scope, file_path)] + symbols_in(g, n.children@, inner, file_path)
            },
            None => symbols_in(g, n.children@, scope, file_path),
        }
    }
}

/// The symbols of a list of sibling nodes and their descendants.
pub open spec fn symbols_in(g: Grammar, cs: Seq<SyntaxNode>, scope: Option<Seq<char>>, file_path: Seq<char>) -> Seq<SymbolView>
    decreases cs, 0int,
{
    if cs.len() == 0 {
        Seq::empty()
    } else {
        proof {
            assert(decreases_to!(cs => cs[0]));
        }
        node_symbols(g, cs[0], scope, file_path) + symbols_in(g, cs.drop_first(), scope, file_path)
    }
}

/// The symbols of a whole tree.
pub open spec fn tree_symbols(g: Grammar, root: SyntaxNode, file_path: Seq<char>) -> Seq<SymbolView> {
    node_symbols(g, root, None, file_path)
}

fn visit_symbols(g: Grammar, n: &SyntaxNode, scope: &Option<String>, file_path: &str, out: &mut Vec<Symbol>)
    ensures
        symbol_views(final(out)@) == symbol_views(old(out)@) + node_symbols(g, *n, opt_view(*scope), file_path@),
    decreases *n, 1int,
{
    proof {
        assert(decreases_to!(*n => n.children));
        assert(decreases_to!(n.children => n.children@));
    }
    let ghost sc = opt_view(*scope);
    let ghost fp = file_path@;
    let ghost before = symbol_views(out@);
    let kc = chars_of(n.kind.as_str());
    let skip = (g == Grammar::Java || g == Grammar::Go || g == Grammar::JavaScript) && is_lit(kc.as_slice(), "ERROR");
    if skip {
        assert(symbol_views(out@) =~= before + Seq::<SymbolView>::empty());
        return;
    }
    match symbol_kind_exec(g, n) {
        Some(k) => {
            let name = node_name_exec(g, n);
            let mut id: Vec<char> = Vec::new();
            append_str(&mut id, file_path);
            append_str(&mut id, ":");
            append_chars(&mut id, name.as_slice());
            let sym = Symbol {
                id: string_of(id.as_slice()),
                name: string_of(name.as_slice()),
                kind: k.to_owned(),
                scope: crate::text::copy_opt_string(scope),
                file_path: file_path.to_owned(),
                start_line: n.start_row,
                end_line: n.end_row,
                signature: crate::text::copy_opt_string(&n.text),
            };
            let ghost here = symbol_of(*n, k@, name@, sc, fp);
            assert(sym@ == here);
            out.push(sym);
            assert(symbol_views(out@) =~= before.push(here));
            let inner: Option<String> = if g != Grammar::Rust {
                Some(string_of(name.as_slice()))
            } else {
                crate::text::copy_opt_string(scope)
            };
            collect_symbols(g, &n.children, &inner, file_path, out);
            assert(symbol_views(out@) =~= before + node_symbols(g, *n, sc, fp));
        },
        None => {
            collect_symbols(g, &n.children, scope, file_path, out);
        },
    }
}

fn collect_symbols(g: Grammar, cs: &Vec<SyntaxNode>, scope: &Option<String>, file_path: &str, out: &mut Vec<Symbol>)
    ensures
        symbol_views(final(out)@) == symbol_views(old(out)@) + symbols_in(g, cs@, opt_view(*scope), file_path@),
    decreases cs@, 0int,
{
    let ghost base = symbol_views(out@);
    let ghost sc = opt_view(*scope);
    let ghost fp = file_path@;
    let mut i: usize = 0;
    assert(cs@.skip(0) == cs@);
    assert(base + symbols_in(g, cs@, sc, fp) =~= symbol_views(out@) + symbols_in(g, cs@.skip(0), sc, fp));
    while i < cs.len()
        invariant
            i <= cs.len(),
            sc == opt_view(*scope),
            fp == file_path@,
            base + symbols_in(g, cs@, sc, fp) == symbol_views(out@) + symbols_in(g, cs@.skip(i as int), sc, fp),
        decreases cs.len() - i,
    {
        proof {
            assert(decreases_to!(cs@ => cs@[i as int]));
        }
        let ghost t = cs@.skip(i as int);
        assert(t[0] == cs@[i as int]);
        assert(t.drop_first() == cs@.skip(i + 1));
        let ghost before = symbol_views(out@);
        visit_symbols(g, &cs[i], scope, file_path, out);
        assert(symbol_views(out@) + symbols_in(g, cs@.skip(i + 1), sc, fp) =~= before + symbols_in(g, t, sc, fp));
        i += 1;
    }
    assert(cs@.skip(cs.len() as int) =~= Seq::<SyntaxNode>::empty());
    assert(symbol_views(out@) =~= base + symbols_in(g, cs@, sc, fp));
}

/// The symbols of a tree, as the grammar's adapter reads them.
pub fn symbols_of_tree(g: Grammar, root: &SyntaxNode, file_path: &str) -> (r: Vec<Symbol>)
    ensures
        symbol_views(r@) == tree_symbols(g, *root, file_path@),
{
    let mut out: Vec<Symbol> = Vec::new();
    visit_symbols(g, root, &None, file_path, &mut out);
    assert(symbol_views(out@) =~= tree_symbols(g, *root, file_path@));
    out
}

// ---------------------------------------------------------------------------
// Imports
// ---------------------------------------------------------------------------

/// Whether a node kind is an import statement of the grammar.
pub open spec fn is_import_kind(g: Grammar, k: Seq<char>) -> bool {
    match g {
        Grammar::Rust => k == "use_declaration"@,
        Grammar::Python => k == "import_statement"@ || k == "import_from_statement"@,
        Grammar::Java => k == "import_declaration"@,
        Grammar::Go => k == "import_declaration"@,
        Grammar::JavaScript => false,
    }
}

/// Where a node lies.
pub open spec fn location_of(n: SyntaxNode) -> Location {
    Location { start_line: n.start_row, start_col: n.start_col, end_line: n.end_row, end_col: n.end_col }
}

/// An id of the form `prefix:file:row:col`.
pub open spec fn edge_id(prefix: Seq<char>, file_path: Seq<char>, n: SyntaxNode) -> Seq<char> {
    prefix + ":"@ + file_path + ":"@ + decimal(n.start_row as nat) + ":"@ + decimal(n.start_col as nat)
}

/// The raw import edge of an import node: the statement's trimmed text as
/// the module, not yet refined.
pub open spec fn import_of(n: SyntaxNode, file_path: Seq<char>) -> ImportView {
    ImportView {
        id: edge_id("ie"@, file_path, n),
        from_file: file_path,
        to_module: trim(text_or(opt_view(n.text), Seq::empty())),
        imported_symbol: None,
        alias: None,
        import_kind: "named"@,
        location: location_of(n),
        resolved: false,
    }
}

/// The import edges of a node and its descendants, in document order.
pub open spec fn node_imports(g: Grammar, n: SyntaxNode, file_path: Seq<char>) -> Seq<ImportView>
    decreases n, 1int,
{
    proof {
        assert(decreases_to!(n => n.children));
        assert(decreases_to!(n.children => n.children@));
    }
    (if is_import_kind(g, n.kind@) { seq![import_of(n, file_path)] } else { Seq::empty() })
        + imports_in(g, n.children@, file_path)
}

/// The import edges of a list of sibling nodes and their descendants.
pub open spec fn imports_in(g: Grammar, cs: Seq<SyntaxNode>, file_path: Seq<char>) -> Seq<ImportView>
    decreases cs, 0int,
{
    if cs.len() == 0 {
        Seq::empty()
    } else {
        proof {
            assert(decreases_to!(cs => cs[0]));
        }
        node_imports(g, cs[0], file_path) + imports_in(g, cs.drop_first(), file_path)
    }
}

fn is_import_kind_exec(g: Grammar, kind: &[char]) -> (r: bool)
    ensures
        r == is_import_kind(g, kind@),
{
    match g {
        Grammar::Rust => is_lit(kind, "use_declaration"),
        Grammar::Python => is_lit(kind, "import_statement") || is_lit(kind, "import_from_statement"),
        Grammar::Java => is_lit(kind, "import_declaration"),
        Grammar::Go => is_lit(kind, "import_declaration"),
        Grammar::JavaScript => false,
    }
}

fn edge_id_exec(prefix: &str, file_path: &str, n: &SyntaxNode) -> (r: String)
    ensures
        r@ == edge_id(prefix@, file_path@, *n),
{
    let mut id: Vec<char> = Vec::new();
    append_str(&mut id, prefix);
    append_str(&mut id, ":");
    append_str(&mut id, file_path);
    append_str(&mut id, ":");
    append_decimal(&mut id, n.start_row);
    append_str(&mut id, ":");
    append_decimal(&mut id, n.start_col);
    string_of(id.as_slice())
}

fn visit_imports(g: Grammar, n: &SyntaxNode, file_path: &str, out: &mut Vec<ImportEdge>)
    ensures
        import_views(final(out)@) == import_views(old(out)@) + node_imports(g, *n, file_path@),
    decreases *n, 1int,
{
    proof {
        assert(decreases_to!(*n => n.children));
        assert(decreases_to!(n.children => n.children@));
    }
    let ghost before = import_views(out@);
    let kc = chars_of(n.kind.as_str());
    if is_import_kind_exec(g, kc.as_slice()) {
        let text: Vec<char> = match &n.text {
            Some(t) => chars_of(t.as_str()),
            None => Vec::new(),
        };
        let module = trim_chars(text.as_slice());
        let e = ImportEdge {
            id: edge_id_exec("ie", file_path, n),
            from_file: file_path.to_owned(),
            to_module: string_of(module.as_slice()),
            imported_symbol: None,
            alias: None,
            import_kind: "named".to_owned(),
            location: Location { start_line: n.start_row, start_col: n.start_col, end_line: n.end_row, end_col: n.end_col },
            resolved: false,
        };
        assert(e@ == import_of(*n, file_path@));
        out.push(e);
        assert(import_views(out@) =~= before.push(import_of(*n, file_path@)));
    }
    let ghost mid = import_views(out@);
    collect_imports(g, &n.children, file_path, out);
    assert(import_views(out@) =~= before + node_imports(g, *n, file_path@));
}

fn collect_imports(g: Grammar, cs: &Vec<SyntaxNode>, file_path: &str, out: &mut Vec<ImportEdge>)
    ensures
        import_views(final(out)@) == import_views(old(out)@) + imports_in(g, cs@, file_path@),
    decreases cs@, 0int,
{
    let ghost base = import_views(out@);
    let ghost fp = file_path@;
    let mut i: usize = 0;
    assert(cs@.skip(0) == cs@);
    assert(base + imports_in(g, cs@, fp) =~= import_views(out@) + imports_in(g, cs@.skip(0), fp));
    while i < cs.len()
        invariant
            i <= cs.len(),
            fp == file_path@,
            base + imports_in(g, cs@, fp) == import_views(out@) + imports_in(g, cs@.skip(i as int), fp),
        decreases cs.len() - i,
    {
        proof {
            assert(decreases_to!(cs@ => cs@[i as int]));
        }
        let ghost t = cs@.skip(i as int);
        assert(t[0] == cs@[i as int]);
        assert(t.drop_first() == cs@.skip(i + 1));
        let ghost before = import_views(out@);
        visit_imports(g, &cs[i], file_path, out);
        assert(import_views(out@) + imports_in(g, cs@.skip(i + 1), fp) =~= before + imports_in(g, t, fp));
        i += 1;
    }
    assert(cs@.skip(cs.len() as int) =~= Seq::<SyntaxNode>::empty());
    assert(import_views(out@) =~= base + imports_in(g, cs@, fp));
}

/// The raw import edges of a tree, as the grammar's adapter reads them.
pub fn imports_of_tree(g: Grammar, root: &SyntaxNode, file_path: &str) -> (r: Vec<ImportEdge>)
    ensures
        import_views(r@) == node_imports(g, *root, file_path@),
{
    let mut out: Vec<ImportEdge> = Vec::new();
    visit_imports(g, root, file_path, &mut out);
    assert(import_views(out@) =~= node_imports(g, *root, file_path@));
    out
}

// ---------------------------------------------------------------------------
// Calls
// ---------------------------------------------------------------------------

/// Whether a node kind is a call of the grammar.
pub open spec fn is_call_kind(g: Grammar, k: Seq<char>) -> bool {
    match g {
        Grammar::Rust => k == "call_expression"@ || k == "macro_invocation"@,
        Grammar::Python => k == "call"@,
        Grammar::Java => k == "method_invocation"@,
        Grammar::Go => k == "call_expression"@,
        Grammar::JavaScript => false,
    }
}

/// ASCII letters, digits and `_`.
pub open spec fn is_ident_char(c: char) -> bool {
    ('a' <= c <= 'z') || ('A' <= c <= 'Z') || ('0' <= c <= '9') || c == '_'
}

/// The position of the last identifier character before `i`, or -1.
pub open spec fn last_ident_at(s: Seq<char>, i: int) -> int
    decreases i,
{
    if i <= 0 { -1 } else if is_ident_char(s[i - 1]) { i - 1 } else { last_ident_at(s, i - 1) }
}

/// The start of the run of identifier characters that ends at `j`.
pub open spec fn run_start(s: Seq<char>, j: int) -> int
    decreases j,
{
    if j > 0 && is_ident_char(s[j - 1]) { run_start(s, j - 1) } else { j }
}

/// The last run of identifier characters in a text, or nothing.
pub open spec fn last_ident_run(s: Seq<char>) -> Seq<char> {
    let e = last_ident_at(s, s.len() as int);
    if e < 0 { Seq::empty() } else { s.subrange(run_start(s, e), e + 1) }
}

/// The position of the last `.` or `:` before `i`, or -1.
pub open spec fn last_sep_at(s: Seq<char>, i: int) -> int
    decreases i,
{
    if i <= 0 { -1 } else if s[i - 1] == '.' || s[i - 1] == ':' { i - 1 } else { last_sep_at(s, i - 1) }
}

/// The name a Java method invocation calls: the last identifier before the
/// first `(`; failing that, the trimmed text after the last `.` or `:`, or
/// the whole trimmed text.
pub open spec fn java_callee(text: Seq<char>) -> Seq<char> {
    let before = match find(text, "("@) { Some(p) => text.take(p), None => text };
    let run = last_ident_run(before);
    let sep = last_sep_at(before, before.len() as int);
    let c = if run.len() > 0 {
        run
    } else if sep >= 0 {
        trim(before.skip(sep + 1))
    } else {
        trim(before)
    };
    trim(c)
}

/// The text of a node's first child, if it has one.
pub open spec fn first_child_text(n: SyntaxNode) -> Option<Option<Seq<char>>> {
    if n.children@.len() > 0 { Some(opt_view(n.children@[0].text)) } else { None }
}

/// The name a call node calls.
pub open spec fn callee_of(g: Grammar, n: SyntaxNode) -> Seq<char> {
    let own = text_or(opt_view(n.text), Seq::empty());
    match g {
        Grammar::Rust => match first_child_text(n) {
            Some(Some(t)) => t,
            _ => own,
        },
        Grammar::Go => match first_child_text(n) {
            Some(t) => text_or(t, Seq::empty()),
            None => own,
        },
        Grammar::Python => match n.function_text {
            Some(t) => text_or(opt_view(t), Seq::empty()),
            None => match first_child_text(n) {
                Some(t) => text_or(t, Seq::empty()),
                None => Seq::empty(),
            },
        },
        Grammar::Java => java_callee(own),
        Grammar::JavaScript => own,
    }
}

/// `dynamic` or `static`, by the characters the callee holds.
pub open spec fn call_kind_of(g: Grammar, callee: Seq<char>) -> Seq<char> {
    let dynamic = match g {
        Grammar::Rust => contains(callee, "["@) || contains(callee, "{"@),
        Grammar::Go => contains(callee, "["@) || contains(callee, "&"@) || contains(callee, "*"@),
        Grammar::Python => contains(callee, "."@),
        _ => false,
    };
    if dynamic { "dynamic"@ } else { "static"@ }
}

/// The call edge of a call node inside the symbol `caller`.
pub open spec fn call_of(g: Grammar, n: SyntaxNode, caller: Option<Seq<char>>, file_path: Seq<char>) -> CallView {
    let callee = callee_of(g, n);
    CallView {
        id: edge_id("ce"@, file_path, n),
        caller_symbol_id: caller,
        callee_name: callee,
        callee_symbol_id: None,
        call_kind: call_kind_of(g, callee),
        location: location_of(n),
        resolved: false,
    }
}

/// The caller id for the descendants of a node: the node's own symbol id
/// when it declares a symbol, else the one it inherits.
pub open spec fn caller_below(g: Grammar, n: SyntaxNode, caller: Option<Seq<char>>, file_path: Seq<char>) -> Option<Seq<char>> {
    if symbol_kind(g, n) is Some { Some(file_path + ":"@ + node_name(g, n)) } else { caller }
}

/// The call edges of a node and its descendants, in document order; each
/// call's caller is the nearest enclosing symbol.
pub open spec fn node_calls(g: Grammar, n: SyntaxNode, caller: Option<Seq<char>>, file_path: Seq<char>) -> Seq<CallView>
    decreases n, 1int,
{
    proof {
        assert(decreases_to!(n => n.children));
        assert(decreases_to!(n.children => n.children@));
    }
    (if is_call_kind(g, n.kind@) { seq![call_of(g, n, caller, file_path)] } else { Seq::empty() })
        + calls_in(g, n.children@, caller_below(g, n, caller, file_path), file_path)
}

/// The call edges of a list of sibling nodes and their descendants.
pub open spec fn calls_in(g: Grammar, cs: Seq<SyntaxNode>, caller: Option<Seq<char>>, file_path: Seq<char>) -> Seq<CallView>
    decreases cs, 0int,
{
    if cs.len() == 0 {
        Seq::empty()
    } else {
        proof {
            assert(decreases_to!(cs => cs[0]));
        }
        node_calls(g, cs[0], caller, file_path) + calls_in(g, cs.drop_first(), caller, file_path)
    }
}

fn is_call_kind_exec(g: Grammar, kind: &[char]) -> (r: bool)
    ensures
        r == is_call_kind(g, kind@),
{
    match g {
        Grammar::Rust => is_lit(kind, "call_expression") || is_lit(kind, "macro_invocation"),
        Grammar::Python => is_lit(kind, "call"),
        Grammar::Java => is_lit(kind, "method_invocation"),
        Grammar::Go => is_lit(kind, "call_expression"),
        Grammar::JavaScript => false,
    }
}

fn is_ident_char_exec(c: char) -> (r: bool)
    ensures
        r == is_ident_char(c),
{
    ('a' <= c && c <= 'z') || ('A' <= c && c <= 'Z') || ('0' <= c && c <= '9') || c == '_'
}

fn last_ident_run_exec(s: &[char]) -> (r: Vec<char>)
    ensures
        r@ == last_ident_run(s@),
{
    let mut i: usize = s.len();
    while i > 0 && !is_ident_char_exec(s[i - 1])
        invariant
            i <= s.len(),
            last_ident_at(s@, s@.len() as int) == last_ident_at(s@, i as int),
        decreases i,
    {
        i -= 1;
    }
    if i == 0 {
        return Vec::new();
    }
    let e = i - 1;
    let mut st: usize = e;
    while st > 0 && is_ident_char_exec(s[st - 1])
        invariant
            st <= e,
            e < s.len(),
            run_start(s@, e as int) == run_start(s@, st as int),
        decreases st,
    {
        st -= 1;
    }
    slice_range(s, st, e + 1)
}

fn last_sep_index(s: &[char]) -> (r: Option<usize>)
    ensures
        match r { Some(k) => k as int == last_sep_at(s@, s@.len() as int) && k < s@.len(), None => last_sep_at(s@, s@.len() as int) < 0 },
{
    let mut i: usize = s.len();
    while i > 0 && !(s[i - 1] == '.' || s[i - 1] == ':')
        invariant
            i <= s.len(),
            last_sep_at(s@, s@.len() as int) == last_sep_at(s@, i as int),
        decreases i,
    {
        i -= 1;
    }
    if i == 0 { None } else { Some(i - 1) }
}

/// The name a Java method invocation calls.
pub fn java_callee_exec(text: &[char]) -> (r: Vec<char>)
    ensures
        r@ == java_callee(text@),
{
    let paren = chars_of("(");
    let before = match crate::text::find_exec(text, paren.as_slice()) {
        Some(p) => {
            proof {
                crate::text::lemma_find_is_match(text@, paren@);
            }
            assert(text@.subrange(0, p as int) == text@.take(p as int));
            slice_range(text, 0, p)
        },
        None => {
            assert(text@.subrange(0, text@.len() as int) == text@);
            slice_range(text, 0, text.len())
        },
    };
    let run = last_ident_run_exec(before.as_slice());
    let c = if run.len() > 0 {
        run
    } else {
        match last_sep_index(before.as_slice()) {
            Some(k) => {
                let tail = slice_range(before.as_slice(), k + 1, before.len());
                assert(tail@ == before@.skip(k + 1));
                trim_chars(tail.as_slice())
            },
            None => trim_chars(before.as_slice()),
        }
    };
    trim_chars(c.as_slice())
}

fn text_chars(o: &Option<String>) -> (r: Vec<char>)
    ensures
        r@ == text_or(opt_view(*o), Seq::empty()),
{
    match o {
        Some(t) => chars_of(t.as_str()),
        None => Vec::new(),
    }
}

fn callee_exec(g: Grammar, n: &SyntaxNode) -> (r: Vec<char>)
    ensures
        r@ == callee_of(g, *n),
{
    let own = text_chars(&n.text);
    match g {
        Grammar::Rust => {
            if n.children.len() > 0 {
                match &n.children[0].text {
                    Some(t) => {
                        return chars_of(t.as_str());
                    },
                    None => {},
                }
            }
            own
        },
        Grammar::Go => {
            if n.children.len() > 0 {
                text_chars(&n.children[0].text)
            } else {
                own
            }
        },
        Grammar::Python => match &n.function_text {
            Some(t) => text_chars(t),
            None => if n.children.len() > 0 {
                text_chars(&n.children[0].text)
            } else {
                Vec::new()
            },
        },
        Grammar::Java => java_callee_exec(own.as_slice()),
        Grammar::JavaScript => own,
    }
}

fn has(s: &[char], lit: &str) -> (r: bool)
    ensures
        r == contains(s@, lit@),
{
    let p = chars_of(lit);
    crate::text::contains_exec(s, p.as_slice())
}

fn call_kind_exec(g: Grammar, callee: &[char]) -> (r: &'static str)
    ensures
        r@ == call_kind_of(g, callee@),
{
    let dynamic = match g {
        Grammar::Rust => has(callee, "[") || has(callee, "{"),
        Grammar::Go => has(callee, "[") || has(callee, "&") || has(callee, "*"),
        Grammar::Python => has(callee, "."),
        _ => false,
    };
    if dynamic { "dynamic" } else { "static" }
}

fn caller_below_exec(g: Grammar, n: &SyntaxNode, caller: &Option<String>, file_path: &str) -> (r: Option<String>)
    ensures
        opt_view(r) == caller_below(g, *n, opt_view(*caller), file_path@),
{
    match symbol_kind_exec(g, n) {
        Some(_) => {
            let name = node_name_exec(g, n);
            let mut id: Vec<char> = Vec::new();
            append_str(&mut id, file_path);
            append_str(&mut id, ":");
            append_chars(&mut id, name.as_slice());
            Some(string_of(id.as_slice()))
        },
        None => crate::text::copy_opt_string(caller),
    }
}

fn visit_calls(g: Grammar, n: &SyntaxNode, caller: &Option<String>, file_path: &str, out: &mut Vec<CallEdge>)
    ensures
        call_views(final(out)@) == call_views(old(out)@) + node_calls(g, *n, opt_view(*caller), file_path@),
    decreases *n, 1int,
{
    proof {
        assert(decreases_to!(*n => n.children));
        assert(decreases_to!(n.children => n.children@));
    }
    let ghost before = call_views(out@);
    let kc = chars_of(n.kind.as_str());
    if is_call_kind_exec(g, kc.as_slice()) {
        let callee = callee_exec(g, n);
        let kind = call_kind_exec(g, callee.as_slice());
        let e = CallEdge {
            id: edge_id_exec("ce", file_path, n),
            caller_symbol_id: crate::text::copy_opt_string(caller),
            callee_name: string_of(callee.as_slice()),
            callee_symbol_id: None,
            call_kind: kind.to_owned(),
            location: Location { start_line: n.start_row, start_col: n.start_col, end_line: n.end_row, end_col: n.end_col },
            resolved: false,
        };
        assert(e@ == call_of(g, *n, opt_view(*caller), file_path@));
        out.push(e);
        assert(call_views(out@) =~= before.push(call_of(g, *n, opt_view(*caller), file_path@)));
    }
    let inner = caller_below_exec(g, n, caller, file_path);
    collect_calls(g, &n.children, &inner, file_path, out);
    assert(call_views(out@) =~= before + node_calls(g, *n, opt_view(*caller), file_path@));
}

fn collect_calls(g: Grammar, cs: &Vec<SyntaxNode>, caller: &Option<String>, file_path: &str, out: &mut Vec<CallEdge>)
    ensures
        call_views(final(out)@) == call_views(old(out)@) + calls_in(g, cs@, opt_view(*caller), file_path@),
    decreases cs@, 0int,
{
    let ghost base = call_views(out@);
    let ghost cl = opt_view(*caller);
    let ghost fp = file_path@;
    let mut i: usize = 0;
    assert(cs@.skip(0) == cs@);
    assert(base + calls_in(g, cs@, cl, fp) =~= call_views(out@) + calls_in(g, cs@.skip(0), cl, fp));
    while i < cs.len()
        invariant
            i <= cs.len(),
            cl == opt_view(*caller),
            fp == file_path@,
            base + calls_in(g, cs@, cl, fp) == call_views(out@) + calls_in(g, cs@.skip(i as int), cl, fp),
        decreases cs.len() - i,
    {
        proof {
            assert(decreases_to!(cs@ => cs@[i as int]));
        }
        let ghost t = cs@.skip(i as int);
        assert(t[0] == cs@[i as int]);
        assert(t.drop_first() == cs@.skip(i + 1));
        let ghost before = call_views(out@);
        visit_calls(g, &cs[i], caller, file_path, out);
        assert(call_views(out@) + calls_in(g, cs@.skip(i + 1), cl, fp) =~= before + calls_in(g, t, cl, fp));
        i += 1;
    }
    assert(cs@.skip(cs.len() as int) =~= Seq::<SyntaxNode>::empty());
    assert(call_views(out@) =~= base + calls_in(g, cs@, cl, fp));
}

/// The call edges of a tree, as the grammar's adapter reads them.
pub fn calls_of_tree(g: Grammar, root: &SyntaxNode, file_path: &str) -> (r: Vec<CallEdge>)
    ensures
        call_views(r@) == node_calls(g, *root, None, file_path@),
{
    let mut out: Vec<CallEdge> = Vec::new();
    visit_calls(g, root, &None, file_path, &mut out);
    assert(call_views(out@) =~= node_calls(g, *root, None, file_path@));
    out
}

// ---------------------------------------------------------------------------
// What is read depends on the tree's value alone
// ---------------------------------------------------------------------------

/// Two lists of nodes with the same values, position by position.
pub open spec fn same_views(a: Seq<SyntaxNode>, b: Seq<SyntaxNode>) -> bool {
    a.len() == b.len() && forall|i: int| 0 <= i < a.len() ==> #[trigger] a[i]@ == b[i]@
}

proof fn lemma_nodes_view(cs: Seq<SyntaxNode>)
    ensures
        nodes_view(cs).len() == cs.len(),
        forall|i: int| 0 <= i < cs.len() ==> #[trigger] nodes_view(cs)[i] == cs[i]@,
    decreases cs.len(),
{
    if cs.len() > 0 {
        lemma_nodes_view(cs.drop_last());
    }
}

proof fn lemma_fields(a: SyntaxNode, b: SyntaxNode)
    requires
        a@ == b@,
    ensures
        a.kind@ == b.kind@,
        a.start_row == b.start_row,
        a.start_col == b.start_col,
        a.end_row == b.end_row,
        a.end_col == b.end_col,
        opt_view(a.text) == opt_view(b.text),
        opt_view(a.name_text) == opt_view(b.name_text),
        opt_view(a.left_text) == opt_view(b.left_text),
        a.function_text is Some <==> b.function_text is Some,
        a.function_text is Some ==> opt_view(a.function_text->0) == opt_view(b.function_text->0),
        opt_view(a.type_kind) == opt_view(b.type_kind),
        same_views(a.children@, b.children@),
{
    lemma_nodes_view(a.children@);
    lemma_nodes_view(b.children@);
    assert(nodes_view(a.children@) == nodes_view(b.children@));
    assert forall|i: int| 0 <= i < a.children@.len() implies #[trigger] a.children@[i]@ == b.children@[i]@ by {
        assert(nodes_view(a.children@)[i] == nodes_view(b.children@)[i]);
    }
    assert(opt_view(a.text) == opt_chars(a.text));
    assert(opt_view(b.text) == opt_chars(b.text));
    assert(opt_view(a.name_text) == opt_chars(a.name_text));
    assert(opt_view(b.name_text) == opt_chars(b.name_text));
    assert(opt_view(a.left_text) == opt_chars(a.left_text));
    assert(opt_view(b.left_text) == opt_chars(b.left_text));
    assert(opt_view(a.type_kind) == opt_chars(a.type_kind));
    assert(opt_view(b.type_kind) == opt_chars(b.type_kind));
    if a.function_text is Some {
        assert(opt_view(a.function_text->0) == opt_chars(a.function_text->0));
        assert(opt_view(b.function_text->0) == opt_chars(b.function_text->0));
    }
}

proof fn lemma_same_views_rest(a: Seq<SyntaxNode>, b: Seq<SyntaxNode>)
    requires
        same_views(a, b),
        a.len() > 0,
    ensures
        a[0]@ == b[0]@,
        same_views(a.drop_first(), b.drop_first()),
        a[a.len() - 1]@ == b[b.len() - 1]@,
        same_views(a.subrange(0, a.len() - 1), b.subrange(0, b.len() - 1)),
{
    assert(a[0]@ == b[0]@);
    assert(a[a.len() - 1]@ == b[b.len() - 1]@);
    assert forall|i: int| 0 <= i < a.drop_first().len() implies #[trigger] a.drop_first()[i]@ == b.drop_first()[i]@ by {
        assert(a[i + 1]@ == b[i + 1]@);
    }
    assert forall|i: int| 0 <= i < a.len() - 1 implies #[trigger] a.subrange(0, a.len() - 1)[i]@ == b.subrange(0, b.len() - 1)[i]@ by {
        assert(a[i]@ == b[i]@);
    }
}

proof fn lemma_first_text_of_kind(a: Seq<SyntaxNode>, b: Seq<SyntaxNode>, k1: Seq<char>, k2: Seq<char>)
    requires
        same_views(a, b),
    ensures
        first_text_of_kind(a, k1, k2) == first_text_of_kind(b, k1, k2),
    decreases a.len(),
{
    if a.len() > 0 {
        lemma_same_views_rest(a, b);
        lemma_fields(a[0], b[0]);
        lemma_first_text_of_kind(a.drop_first(), b.drop_first(), k1, k2);
    }
}

proof fn lemma_first_declarator_name(a: Seq<SyntaxNode>, b: Seq<SyntaxNode>)
    requires
        same_views(a, b),
    ensures
        first_declarator_name(a) == first_declarator_name(b),
    decreases a.len(),
{
    if a.len() > 0 {
        lemma_same_views_rest(a, b);
        lemma_fields(a[0], b[0]);
        lemma_first_declarator_name(a.drop_first(), b.drop_first());
    }
}

proof fn lemma_node_name(g: Grammar, a: SyntaxNode, b: SyntaxNode)
    requires
        a@ == b@,
    ensures
        node_name(g, a) == node_name(g, b),
        symbol_kind(g, a) == symbol_kind(g, b),
    decreases a, 1int,
{
        assert(decreases_to!(a => a.children));
        assert(decreases_to!(a.children => a.children@));
    lemma_fields(a, b);
    lemma_first_text_of_kind(a.children@, b.children@, "identifier"@, "identifier"@);
    lemma_first_text_of_kind(a.children@, b.children@, "dotted_name"@, "relative_import"@);
    lemma_first_text_of_kind(a.children@, b.children@, "string"@, "identifier"@);
    lemma_first_declarator_name(a.children@, b.children@);
    lemma_decorated_name(a.children@, b.children@);
}

proof fn lemma_decorated_name(a: Seq<SyntaxNode>, b: Seq<SyntaxNode>)
    requires
        same_views(a, b),
    ensures
        decorated_name(a) == decorated_name(b),
    decreases a, 0int,
{
    if a.len() > 0 {
            assert(decreases_to!(a => a[a.len() - 1]));
        lemma_same_views_rest(a, b);
        lemma_node_name(Grammar::Python, a[a.len() - 1], b[b.len() - 1]);
        lemma_decorated_name(a.subrange(0, a.len() - 1), b.subrange(0, b.len() - 1));
    }
}

proof fn lemma_node_symbols(g: Grammar, a: SyntaxNode, b: SyntaxNode, scope: Option<Seq<char>>, file_path: Seq<char>)
    requires
        a@ == b@,
    ensures
        node_symbols(g, a, scope, file_path) == node_symbols(g, b, scope, file_path),
    decreases a, 1int,
{
        assert(decreases_to!(a => a.children));
        assert(decreases_to!(a.children => a.children@));
    lemma_fields(a, b);
    lemma_node_name(g, a, b);
    let inner = if scopes_nest(g) { Some(node_name(g, a)) } else { scope };
    lemma_symbols_in(g, a.children@, b.children@, scope, file_path);
    lemma_symbols_in(g, a.children@, b.children@, inner, file_path);
}

proof fn lemma_symbols_in(g: Grammar, a: Seq<SyntaxNode>, b: Seq<SyntaxNode>, scope: Option<Seq<char>>, file_path: Seq<char>)
    requires
        same_views(a, b),
    ensures
        symbols_in(g, a, scope, file_path) == symbols_in(g, b, scope, file_path),
    decreases a, 0int,
{
    if a.len() > 0 {
            assert(decreases_to!(a => a[0]));
        lemma_same_views_rest(a, b);
        lemma_node_symbols(g, a[0], b[0], scope, file_path);
        lemma_symbols_in(g, a.drop_first(), b.drop_first(), scope, file_path);
    }
}

proof fn lemma_node_imports(g: Grammar, a: SyntaxNode, b: SyntaxNode, file_path: Seq<char>)
    requires
        a@ == b@,
    ensures
        node_imports(g, a, file_path) == node_imports(g, b, file_path),
    decreases a, 1int,
{
        assert(decreases_to!(a => a.children));
        assert(decreases_to!(a.children => a.children@));
    lemma_fields(a, b);
    assert(import_of(a, file_path) == import_of(b, file_path));
    lemma_imports_in(g, a.children@, b.children@, file_path);
}

proof fn lemma_imports_in(g: Grammar, a: Seq<SyntaxNode>, b: Seq<SyntaxNode>, file_path: Seq<char>)
    requires
        same_views(a, b),
    ensures
        imports_in(g, a, file_path) == imports_in(g, b, file_path),
    decreases a, 0int,
{
    if a.len() > 0 {
            assert(decreases_to!(a => a[0]));
        lemma_same_views_rest(a, b);
        lemma_node_imports(g, a[0], b[0], file_path);
        lemma_imports_in(g, a.drop_first(), b.drop_first(), file_path);
    }
}

proof fn lemma_node_calls(g: Grammar, a: SyntaxNode, b: SyntaxNode, caller: Option<Seq<char>>, file_path: Seq<char>)
    requires
        a@ == b@,
    ensures
        node_calls(g, a, caller, file_path) == node_calls(g, b, caller, file_path),
    decreases a, 1int,
{
        assert(decreases_to!(a => a.children));
        assert(decreases_to!(a.children => a.children@));
    lemma_fields(a, b);
    lemma_node_name(g, a, b);
    if a.children@.len() > 0 {
        lemma_same_views_rest(a.children@, b.children@);
        lemma_fields(a.children@[0], b.children@[0]);
    }
    assert(first_child_text(a) == first_child_text(b));
    assert(callee_of(g, a) == callee_of(g, b));
    assert(call_of(g, a, caller, file_path) == call_of(g, b, caller, file_path));
    assert(caller_below(g, a, caller, file_path) == caller_below(g, b, caller, file_path));
    lemma_calls_in(g, a.children@, b.children@, caller_below(g, a, caller, file_path), file_path);
}

proof fn lemma_calls_in(g: Grammar, a: Seq<SyntaxNode>, b: Seq<SyntaxNode>, caller: Option<Seq<char>>, file_path: Seq<char>)
    requires
        same_views(a, b),
    ensures
        calls_in(g, a, caller, file_path) == calls_in(g, b, caller, file_path),
    decreases a, 0int,
{
    if a.len() > 0 {
            assert(decreases_to!(a => a[0]));
        lemma_same_views_rest(a, b);
        lemma_node_calls(g, a[0], b[0], caller, file_path);
        lemma_calls_in(g, a.drop_first(), b.drop_first(), caller, file_path);
    }
}

/// The symbols read from a tree depend on the tree's value alone: two trees
/// with the same value give the same symbols.
pub proof fn law_tree_symbols_by_value(g: Grammar, a: SyntaxNode, b: SyntaxNode, file_path: Seq<char>)
    requires
        a@ == b@,
    ensures
        tree_symbols(g, a, file_path) == tree_symbols(g, b, file_path),
{
    lemma_node_symbols(g, a, b, None, file_path);
}

/// The import edges read from a tree depend on the tree's value alone.
pub proof fn law_tree_imports_by_value(g: Grammar, a: SyntaxNode, b: SyntaxNode, file_path: Seq<char>)
    requires
        a@ == b@,
    ensures
        node_imports(g, a, file_path) == node_imports(g, b, file_path),
{
    lemma_node_imports(g, a, b, file_path);
}

/// The call edges read from a tree depend on the tree's value alone.
pub proof fn law_tree_calls_by_value(g: Grammar, a: SyntaxNode, b: SyntaxNode, caller: Option<Seq<char>>, file_path: Seq<char>)
    requires
        a@ == b@,
    ensures
        node_calls(g, a, caller, file_path) == node_calls(g, b, caller, file_path),
{
    lemma_node_calls(g, a, b, caller, file_path);
}

// ---------------------------------------------------------------------------
// The symbol kinds each grammar declares
// ---------------------------------------------------------------------------

/// The kind of the first symbol read from a node (its own, when it declares
/// one), if any.
pub open spec fn first_symbol_kind(g: Grammar, n: SyntaxNode, scope: Option<Seq<char>>, file_path: Seq<char>) -> Option<Seq<char>> {
    let ss = node_symbols(g, n, scope, file_path);
    if ss.len() > 0 { Some(ss[0].kind) } else { None }
}

proof fn lemma_first_kind(g: Grammar, n: SyntaxNode, scope: Option<Seq<char>>, file_path: Seq<char>, k: Seq<char>)
    requires
        n.kind@ != "ERROR"@,
        symbol_kind(g, n) == Some(k),
    ensures
        first_symbol_kind(g, n, scope, file_path) == Some(k),
{
}

/// The Rust declarations that are symbols, and their kinds: functions, structs, enums, impls, traits, modules, `use` imports, constants and statics.
pub proof fn law_rust_symbol_kinds(n: SyntaxNode, scope: Option<Seq<char>>, file_path: Seq<char>)
    ensures
        n.kind@ == "function_item"@ ==> first_symbol_kind(Grammar::Rust, n, scope, file_path) == Some("function"@),
        n.kind@ == "struct_item"@ ==> first_symbol_kind(Grammar::Rust, n, scope, file_path) == Some("struct"@),
        n.kind@ == "enum_item"@ ==> first_symbol_kind(Grammar::Rust, n, scope, file_path) == Some("enum"@),
        n.kind@ == "impl_item"@ ==> first_symbol_kind(Grammar::Rust, n, scope, file_path) == Some("impl"@),
        n.kind@ == "trait_item"@ ==> first_symbol_kind(Grammar::Rust, n, scope, file_path) == Some("trait"@),
        n.kind@ == "mod_item"@ ==> first_symbol_kind(Grammar::Rust, n, scope, file_path) == Some("mod"@),
        n.kind@ == "use_declaration"@ ==> first_symbol_kind(Grammar::Rust, n, scope, file_path) == Some("use"@),
        n.kind@ == "const_item"@ ==> first_symbol_kind(Grammar::Rust, n, scope, file_path) == Some("const"@),
        n.kind@ == "static_item"@ ==> first_symbol_kind(Grammar::Rust, n, scope, file_path) == Some("static"@),
{
    reveal_strlit("ERROR");
    reveal_strlit("const");
    reveal_strlit("const_item");
    reveal_strlit("enum");
    reveal_strlit("enum_item");
    reveal_strlit("function");
    reveal_strlit("function_item");
    reveal_strlit("impl");
    reveal_strlit("impl_item");
    reveal_strlit("mod");
    reveal_strlit("mod_item");
    reveal_strlit("static");
    reveal_strlit("static_item");
    reveal_strlit("struct");
    reveal_strlit("struct_item");
    reveal_strlit("trait");
    reveal_strlit("trait_item");
    reveal_strlit("type_alias");
    reveal_strlit("type_spec");
    reveal_strlit("use");
    reveal_strlit("use_declaration");
    if n.kind@ == "function_item"@ {
        assert(n.kind@[0] != "ERROR"@[0]);
        assert("function_item"@ != "struct_item"@) by { assert("function_item"@.len() != "struct_item"@.len()); }
        assert("function_item"@ != "enum_item"@) by { assert("function_item"@.len() != "enum_item"@.len()); }
        assert("function_item"@ != "impl_item"@) by { assert("function_item"@.len() != "impl_item"@.len()); }
        assert("function_item"@ != "trait_item"@) by { assert("function_item"@.len() != "trait_item"@.len()); }
        assert("function_item"@ != "mod_item"@) by { assert("function_item"@.len() != "mod_item"@.len()); }
        assert("function_item"@ != "use_declaration"@) by { assert("function_item"@.len() != "use_declaration"@.len()); }
        assert("function_item"@ != "const_item"@) by { assert("function_item"@.len() != "const_item"@.len()); }
        assert("function_item"@ != "static_item"@) by { assert("function_item"@.len() != "static_item"@.len()); }
        assert("function_item"@ != "type_spec"@) by { assert("function_item"@.len() != "type_spec"@.len()); }
        assert("function_item"@ != "type_alias"@) by { assert("function_item"@.len() != "type_alias"@.len()); }
        lemma_first_kind(Grammar::Rust, n, scope, file_path, "function"@);
    }
    if n.kind@ == "struct_item"@ {
        assert(n.kind@[0] != "ERROR"@[0]);
        assert("struct_item"@ != "function_item"@) by { assert("struct_item"@.len() != "function_item"@.len()); }
        assert("struct_item"@ != "enum_item"@) by { assert("struct_item"@.len() != "enum_item"@.len()); }
        assert("struct_item"@ != "impl_item"@) by { assert("struct_item"@.len() != "impl_item"@.len()); }
        assert("struct_item"@ != "trait_item"@) by { assert("struct_item"@.len() != "trait_item"@.len()); }
        assert("struct_item"@ != "mod_item"@) by { assert("struct_item"@.len() != "mod_item"@.len()); }
        assert("struct_item"@ != "use_declaration"@) by { assert("struct_item"@.len() != "use_declaration"@.len()); }
        assert("struct_item"@ != "const_item"@) by { assert("struct_item"@.len() != "const_item"@.len()); }
        assert("struct_item"@ != "static_item"@) by { assert("struct_item"@[2] != "static_item"@[2]); }
        assert("struct_item"@ != "type_spec"@) by { assert("struct_item"@.len() != "type_spec"@.len()); }
        assert("struct_item"@ != "type_alias"@) by { assert("struct_item"@.len() != "type_alias"@.len()); }
        lemma_first_kind(Grammar::Rust, n, scope, file_path, "struct"@);
    }
    if n.kind@ == "enum_item"@ {
        assert(n.kind@[0] != "ERROR"@[0]);
        assert("enum_item"@ != "function_item"@) by { assert("enum_item"@.len() != "function_item"@.len()); }
        assert("enum_item"@ != "struct_item"@) by { assert("enum_item"@.len() != "struct_item"@.len()); }
        assert("enum_item"@ != "impl_item"@) by { assert("enum_item"@[0] != "impl_item"@[0]); }
        assert("enum_item"@ != "trait_item"@) by { assert("enum_item"@.len() != "trait_item"@.len()); }
        assert("enum_item"@ != "mod_item"@) by { assert("enum_item"@.len() != "mod_item"@.len()); }
        assert("enum_item"@ != "use_declaration"@) by { assert("enum_item"@.len() != "use_declaration"@.len()); }
        assert("enum_item"@ != "const_item"@) by { assert("enum_item"@.len() != "const_item"@.len()); }
        assert("enum_item"@ != "static_item"@) by { assert("enum_item"@.len() != "static_item"@.len()); }
        assert("enum_item"@ != "type_spec"@) by { assert("enum_item"@[0] != "type_spec"@[0]); }
        assert("enum_item"@ != "type_alias"@) by { assert("enum_item"@.len() != "type_alias"@.len()); }
        lemma_first_kind(Grammar::Rust, n, scope, file_path, "enum"@);
    }
    if n.kind@ == "impl_item"@ {
        assert(n.kind@[0] != "ERROR"@[0]);
        assert("impl_item"@ != "function_item"@) by { assert("impl_item"@.len() != "function_item"@.len()); }
        assert("impl_item"@ != "struct_item"@) by { assert("impl_item"@.len() != "struct_item"@.len()); }
        assert("impl_item"@ != "enum_item"@) by { assert("impl_item"@[0] != "enum_item"@[0]); }
        assert("impl_item"@ != "trait_item"@) by { assert("impl_item"@.len() != "trait_item"@.len()); }
        assert("impl_item"@ != "mod_item"@) by { assert("impl_item"@.len() != "mod_item"@.len()); }
        assert("impl_item"@ != "use_declaration"@) by { assert("impl_item"@.len() != "use_declaration"@.len()); }
        assert("impl_item"@ != "const_item"@) by { assert("impl_item"@.len() != "const_item"@.len()); }
        assert("impl_item"@ != "static_item"@) by { assert("impl_item"@.len() != "static_item"@.len()); }
        assert("impl_item"@ != "type_spec"@) by { assert("impl_item"@[0] != "type_spec"@[0]); }
        assert("impl_item"@ != "type_alias"@) by { assert("impl_item"@.len() != "type_alias"@.len()); }
        lemma_first_kind(Grammar::Rust, n, scope, file_path, "impl"@);
    }
    if n.kind@ == "trait_item"@ {
        assert(n.kind@[0] != "ERROR"@[0]);
        assert("trait_item"@ != "function_item"@) by { assert("trait_item"@.len() != "function_item"@.len()); }
        assert("trait_item"@ != "struct_item"@) by { assert("trait_item"@.len() != "struct_item"@.len()); }
        assert("trait_item"@ != "enum_item"@) by { assert("trait_item"@.len() != "enum_item"@.len()); }
        assert("trait_item"@ != "impl_item"@) by { assert("trait_item"@.len() != "impl_item"@.len()); }
        assert("trait_item"@ != "mod_item"@) by { assert("trait_item"@.len() != "mod_item"@.len()); }
        assert("trait_item"@ != "use_declaration"@) by { assert("trait_item"@.len() != "use_declaration"@.len()); }
        assert("trait_item"@ != "const_item"@) by { assert("trait_item"@[0] != "const_item"@[0]); }
        assert("trait_item"@ != "static_item"@) by { assert("trait_item"@.len() != "static_item"@.len()); }
        assert("trait_item"@ != "type_spec"@) by { assert("trait_item"@.len() != "type_spec"@.len()); }
        assert("trait_item"@ != "type_alias"@) by { assert("trait_item"@[1] != "type_alias"@[1]); }
        lemma_first_kind(Grammar::Rust, n, scope, file_path, "trait"@);
    }
    if n.kind@ == "mod_item"@ {
        assert(n.kind@[0] != "ERROR"@[0]);
        assert("mod_item"@ != "function_item"@) by { assert("mod_item"@.len() != "function_item"@.len()); }
        assert("mod_item"@ != "struct_item"@) by { assert("mod_item"@.len() != "struct_item"@.len()); }
        assert("mod_item"@ != "enum_item"@) by { assert("mod_item"@.len() != "enum_item"@.len()); }
        assert("mod_item"@ != "impl_item"@) by { assert("mod_item"@.len() != "impl_item"@.len()); }
        assert("mod_item"@ != "trait_item"@) by { assert("mod_item"@.len() != "trait_item"@.len()); }
        assert("mod_item"@ != "use_declaration"@) by { assert("mod_item"@.len() != "use_declaration"@.len()); }
        assert("mod_item"@ != "const_item"@) by { assert("mod_item"@.len() != "const_item"@.len()); }
        assert("mod_item"@ != "static_item"@) by { assert("mod_item"@.len() != "static_item"@.len()); }
        assert("mod_item"@ != "type_spec"@) by { assert("mod_item"@.len() != "type_spec"@.len()); }
        assert("mod_item"@ != "type_alias"@) by { assert("mod_item"@.len() != "type_alias"@.len()); }
        lemma_first_kind(Grammar::Rust, n, scope, file_path, "mod"@);
    }
    if n.kind@ == "use_declaration"@ {
        assert(n.kind@[0] != "ERROR"@[0]);
        assert("use_declaration"@ != "function_item"@) by { assert("use_declaration"@.len() != "function_item"@.len()); }
        assert("use_declaration"@ != "struct_item"@) by { assert("use_declaration"@.len() != "struct_item"@.len()); }
        assert("use_declaration"@ != "enum_item"@) by { assert("use_declaration"@.len() != "enum_item"@.len()); }
        assert("use_declaration"@ != "impl_item"@) by { assert("use_declaration"@.len() != "impl_item"@.len()); }
        assert("use_declaration"@ != "trait_item"@) by { assert("use_declaration"@.len() != "trait_item"@.len()); }
        assert("use_declaration"@ != "mod_item"@) by { assert("use_declaration"@.len() != "mod_item"@.len()); }
        assert("use_declaration"@ != "const_item"@) by { assert("use_declaration"@.len() != "const_item"@.len()); }
        assert("use_declaration"@ != "static_item"@) by { assert("use_declaration"@.len() != "static_item"@.len()); }
        assert("use_declaration"@ != "type_spec"@) by { assert("use_declaration"@.len() != "type_spec"@.len()); }
        assert("use_declaration"@ != "type_alias"@) by { assert("use_declaration"@.len() != "type_alias"@.len()); }
        lemma_first_kind(Grammar::Rust, n, scope, file_path, "use"@);
    }
    if n.kind@ == "const_item"@ {
        assert(n.kind@[0] != "ERROR"@[0]);
        assert("const_item"@ != "function_item"@) by { assert("const_item"@.len() != "function_item"@.len()); }
        assert("const_item"@ != "struct_item"@) by { assert("const_item"@.len() != "struct_item"@.len()); }
        assert("const_item"@ != "enum_item"@) by { assert("const_item"@.len() != "enum_item"@.len()); }
        assert("const_item"@ != "impl_item"@) by { assert("const_item"@.len() != "impl_item"@.len()); }
        assert("const_item"@ != "trait_item"@) by { assert("const_item"@[0] != "trait_item"@[0]); }
        assert("const_item"@ != "mod_item"@) by { assert("const_item"@.len() != "mod_item"@.len()); }
        assert("const_item"@ != "use_declaration"@) by { assert("const_item"@.len() != "use_declaration"@.len()); }
        assert("const_item"@ != "static_item"@) by { assert("const_item"@.len() != "static_item"@.len()); }
        assert("const_item"@ != "type_spec"@) by { assert("const_item"@.len() != "type_spec"@.len()); }
        assert("const_item"@ != "type_alias"@) by { assert("const_item"@[0] != "type_alias"@[0]); }
        lemma_first_kind(Grammar::Rust, n, scope, file_path, "const"@);
    }
    if n.kind@ == "static_item"@ {
        assert(n.kind@[0] != "ERROR"@[0]);
        assert("static_item"@ != "function_item"@) by { assert("static_item"@.len() != "function_item"@.len()); }
        assert("static_item"@ != "struct_item"@) by { assert("static_item"@[2] != "struct_item"@[2]); }
        assert("static_item"@ != "enum_item"@) by { assert("static_item"@.len() != "enum_item"@.len()); }
        assert("static_item"@ != "impl_item"@) by { assert("static_item"@.len() != "impl_item"@.len()); }
        assert("static_item"@ != "trait_item"@) by { assert("static_item"@.len() != "trait_item"@.len()); }
        assert("static_item"@ != "mod_item"@) by { assert("static_item"@.len() != "mod_item"@.len()); }
        assert("static_item"@ != "use_declaration"@) by { assert("static_item"@.len() != "use_declaration"@.len()); }
        assert("static_item"@ != "const_item"@) by { assert("static_item"@.len() != "const_item"@.len()); }
        assert("static_item"@ != "type_spec"@) by { assert("static_item"@.len() != "type_spec"@.len()); }
        assert("static_item"@ != "type_alias"@) by { assert("static_item"@.len() != "type_alias"@.len()); }
        lemma_first_kind(Grammar::Rust, n, scope, file_path, "static"@);
    }
}

/// The Python declarations that are symbols, and their kinds: functions (plain and `async`), classes, decorated definitions, module variables and imports.
pub proof fn law_python_symbol_kinds(n: SyntaxNode, scope: Option<Seq<char>>, file_path: Seq<char>)
    ensures
        n.kind@ == "function_definition"@ ==> first_symbol_kind(Grammar::Python, n, scope, file_path) == Some("function"@),
        n.kind@ == "async_function_definition"@ ==> first_symbol_kind(Grammar::Python, n, scope, file_path) == Some("function"@),
        n.kind@ == "class_definition"@ ==> first_symbol_kind(Grammar::Python, n, scope, file_path) == Some("class"@),
        n.kind@ == "decorated_definition"@ ==> first_symbol_kind(Grammar::Python, n, scope, file_path) == Some("decorated"@),
        n.kind@ == "assignment"@ ==> first_symbol_kind(Grammar::Python, n, scope, file_path) == Some("variable"@),
        n.kind@ == "import_statement"@ ==> first_symbol_kind(Grammar::Python, n, scope, file_path) == Some("import"@),
        n.kind@ == "import_from_statement"@ ==> first_symbol_kind(Grammar::Python, n, scope, file_path) == Some("import"@),
{
    reveal_strlit("ERROR");
    reveal_strlit("assignment");
    reveal_strlit("async_function_definition");
    reveal_strlit("class");
    reveal_strlit("class_definition");
    reveal_strlit("decorated");
    reveal_strlit("decorated_definition");
    reveal_strlit("function");
    reveal_strlit("function_definition");
    reveal_strlit("import");
    reveal_strlit("import_from_statement");
    reveal_strlit("import_statement");
    reveal_strlit("lambda");
    reveal_strlit("type_alias");
    reveal_strlit("type_spec");
    reveal_strlit("variable");
    if n.kind@ == "function_definition"@ {
        assert(n.kind@[0] != "ERROR"@[0]);
        assert("function_definition"@ != "lambda"@) by { assert("function_definition"@.len() != "lambda"@.len()); }
        assert("function_definition"@ != "async_function_definition"@) by { assert("function_definition"@.len() != "async_function_definition"@.len()); }
        assert("function_definition"@ != "class_definition"@) by { assert("function_definition"@.len() != "class_definition"@.len()); }
        assert("function_definition"@ != "decorated_definition"@) by { assert("function_definition"@.len() != "decorated_definition"@.len()); }
        assert("function_definition"@ != "assignment"@) by { assert("function_definition"@.len() != "assignment"@.len()); }
        assert("function_definition"@ != "import_statement"@) by { assert("function_definition"@.len() != "import_statement"@.len()); }
        assert("function_definition"@ != "import_from_statement"@) by { assert("function_definition"@.len() != "import_from_statement"@.len()); }
        assert("function_definition"@ != "type_spec"@) by { assert("function_definition"@.len() != "type_spec"@.len()); }
        assert("function_definition"@ != "type_alias"@) by { assert("function_definition"@.len() != "type_alias"@.len()); }
        lemma_first_kind(Grammar::Python, n, scope, file_path, "function"@);
    }
    if n.kind@ == "async_function_definition"@ {
        assert(n.kind@[0] != "ERROR"@[0]);
        assert("async_function_definition"@ != "function_definition"@) by { assert("async_function_definition"@.len() != "function_definition"@.len()); }
        assert("async_function_definition"@ != "lambda"@) by { assert("async_function_definition"@.len() != "lambda"@.len()); }
        assert("async_function_definition"@ != "class_definition"@) by { assert("async_function_definition"@.len() != "class_definition"@.len()); }
        assert("async_function_definition"@ != "decorated_definition"@) by { assert("async_function_definition"@.len() != "decorated_definition"@.len()); }
        assert("async_function_definition"@ != "assignment"@) by { assert("async_function_definition"@.len() != "assignment"@.len()); }
        assert("async_function_definition"@ != "import_statement"@) by { assert("async_function_definition"@.len() != "import_statement"@.len()); }
        assert("async_function_definition"@ != "import_from_statement"@) by { assert("async_function_definition"@.len() != "import_from_statement"@.len()); }
        assert("async_function_definition"@ != "type_spec"@) by { assert("async_function_definition"@.len() != "type_spec"@.len()); }
        assert("async_function_definition"@ != "type_alias"@) by { assert("async_function_definition"@.len() != "type_alias"@.len()); }
        lemma_first_kind(Grammar::Python, n, scope, file_path, "function"@);
    }
    if n.kind@ == "class_definition"@ {
        assert(n.kind@[0] != "ERROR"@[0]);
        assert("class_definition"@ != "function_definition"@) by { assert("class_definition"@.len() != "function_definition"@.len()); }
        assert("class_definition"@ != "lambda"@) by { assert("class_definition"@.len() != "lambda"@.len()); }
        assert("class_definition"@ != "async_function_definition"@) by { assert("class_definition"@.len() != "async_function_definition"@.len()); }
        assert("class_definition"@ != "decorated_definition"@) by { assert("class_definition"@.len() != "decorated_definition"@.len()); }
        assert("class_definition"@ != "assignment"@) by { assert("class_definition"@.len() != "assignment"@.len()); }
        assert("class_definition"@ != "import_statement"@) by { assert("class_definition"@[0] != "import_statement"@[0]); }
        assert("class_definition"@ != "import_from_statement"@) by { assert("class_definition"@.len() != "import_from_statement"@.len()); }
        assert("class_definition"@ != "type_spec"@) by { assert("class_definition"@.len() != "type_spec"@.len()); }
        assert("class_definition"@ != "type_alias"@) by { assert("class_definition"@.len() != "type_alias"@.len()); }
        lemma_first_kind(Grammar::Python, n, scope, file_path, "class"@);
    }
    if n.kind@ == "decorated_definition"@ {
        assert(n.kind@[0] != "ERROR"@[0]);
        assert("decorated_definition"@ != "function_definition"@) by { assert("decorated_definition"@.len() != "function_definition"@.len()); }
        assert("decorated_definition"@ != "lambda"@) by { assert("decorated_definition"@.len() != "lambda"@.len()); }
        assert("decorated_definition"@ != "async_function_definition"@) by { assert("decorated_definition"@.len() != "async_function_definition"@.len()); }
        assert("decorated_definition"@ != "class_definition"@) by { assert("decorated_definition"@.len() != "class_definition"@.len()); }
        assert("decorated_definition"@ != "assignment"@) by { assert("decorated_definition"@.len() != "assignment"@.len()); }
        assert("decorated_definition"@ != "import_statement"@) by { assert("decorated_definition"@.len() != "import_statement"@.len()); }
        assert("decorated_definition"@ != "import_from_statement"@) by { assert("decorated_definition"@.len() != "import_from_statement"@.len()); }
        assert("decorated_definition"@ != "type_spec"@) by { assert("decorated_definition"@.len() != "type_spec"@.len()); }
        assert("decorated_definition"@ != "type_alias"@) by { assert("decorated_definition"@.len() != "type_alias"@.len()); }
        lemma_first_kind(Grammar::Python, n, scope, file_path, "decorated"@);
    }
    if n.kind@ == "assignment"@ {
        assert(n.kind@[0] != "ERROR"@[0]);
        assert("assignment"@ != "function_definition"@) by { assert("assignment"@.len() != "function_definition"@.len()); }
        assert("assignment"@ != "lambda"@) by { assert("assignment"@.len() != "lambda"@.len()); }
        assert("assignment"@ != "async_function_definition"@) by { assert("assignment"@.len() != "async_function_definition"@.len()); }
        assert("assignment"@ != "class_definition"@) by { assert("assignment"@.len() != "class_definition"@.len()); }
        assert("assignment"@ != "decorated_definition"@) by { assert("assignment"@.len() != "decorated_definition"@.len()); }
        assert("assignment"@ != "import_statement"@) by { assert("assignment"@.len() != "import_statement"@.len()); }
        assert("assignment"@ != "import_from_statement"@) by { assert("assignment"@.len() != "import_from_statement"@.len()); }
        assert("assignment"@ != "type_spec"@) by { assert("assignment"@.len() != "type_spec"@.len()); }
        assert("assignment"@ != "type_alias"@) by { assert("assignment"@[0] != "type_alias"@[0]); }
        lemma_first_kind(Grammar::Python, n, scope, file_path, "variable"@);
    }
    if n.kind@ == "import_statement"@ {
        assert(n.kind@[0] != "ERROR"@[0]);
        assert("import_statement"@ != "function_definition"@) by { assert("import_statement"@.len() != "function_definition"@.len()); }
        assert("import_statement"@ != "lambda"@) by { assert("import_statement"@.len() != "lambda"@.len()); }
        assert("import_statement"@ != "async_function_definition"@) by { assert("import_statement"@.len() != "async_function_definition"@.len()); }
        assert("import_statement"@ != "class_definition"@) by { assert("import_statement"@[0] != "class_definition"@[0]); }
        assert("import_statement"@ != "decorated_definition"@) by { assert("import_statement"@.len() != "decorated_definition"@.len()); }
        assert("import_statement"@ != "assignment"@) by { assert("import_statement"@.len() != "assignment"@.len()); }
        assert("import_statement"@ != "import_from_statement"@) by { assert("import_statement"@.len() != "import_from_statement"@.len()); }
        assert("import_statement"@ != "type_spec"@) by { assert("import_statement"@.len() != "type_spec"@.len()); }
        assert("import_statement"@ != "type_alias"@) by { assert("import_statement"@.len() != "type_alias"@.len()); }
        lemma_first_kind(Grammar::Python, n, scope, file_path, "import"@);
    }
    if n.kind@ == "import_from_statement"@ {
        assert(n.kind@[0] != "ERROR"@[0]);
        assert("import_from_statement"@ != "function_definition"@) by { assert("import_from_statement"@.len() != "function_definition"@.len()); }
        assert("import_from_statement"@ != "lambda"@) by { assert("import_from_statement"@.len() != "lambda"@.len()); }
        assert("import_from_statement"@ != "async_function_definition"@) by { assert("import_from_statement"@.len() != "async_function_definition"@.len()); }
        assert("import_from_statement"@ != "class_definition"@) by { assert("import_from_statement"@.len() != "class_definition"@.len()); }
        assert("import_from_statement"@ != "decorated_definition"@) by { assert("import_from_statement"@.len() != "decorated_definition"@.len()); }
        assert("import_from_statement"@ != "assignment"@) by { assert("import_from_statement"@.len() != "assignment"@.len()); }
        assert("import_from_statement"@ != "import_statement"@) by { assert("import_from_statement"@.len() != "import_statement"@.len()); }
        assert("import_from_statement"@ != "type_spec"@) by { assert("import_from_statement"@.len() != "type_spec"@.len()); }
        assert("import_from_statement"@ != "type_alias"@) by { assert("import_from_statement"@.len() != "type_alias"@.len()); }
        lemma_first_kind(Grammar::Python, n, scope, file_path, "import"@);
    }
}

/// The Java declarations that are symbols, and their kinds: methods, classes, enums, interfaces, annotations, constructors, imports and fields.
pub proof fn law_java_symbol_kinds(n: SyntaxNode, scope: Option<Seq<char>>, file_path: Seq<char>)
    ensures
        n.kind@ == "method_declaration"@ ==> first_symbol_kind(Grammar::Java, n, scope, file_path) == Some("method"@),
        n.kind@ == "class_declaration"@ ==> first_symbol_kind(Grammar::Java, n, scope, file_path) == Some("class"@),
        n.kind@ == "enum_declaration"@ ==> first_symbol_kind(Grammar::Java, n, scope, file_path) == Some("enum"@),
        n.kind@ == "interface_declaration"@ ==> first_symbol_kind(Grammar::Java, n, scope, file_path) == Some("interface"@),
        n.kind@ == "annotation_type_declaration"@ ==> first_symbol_kind(Grammar::Java, n, scope, file_path) == Some("annotation"@),
        n.kind@ == "constructor_declaration"@ ==> first_symbol_kind(Grammar::Java, n, scope, file_path) == Some("constructor"@),
        n.kind@ == "import_declaration"@ ==> first_symbol_kind(Grammar::Java, n, scope, file_path) == Some("import"@),
        n.kind@ == "field_declaration"@ ==> first_symbol_kind(Grammar::Java, n, scope, file_path) == Some("field"@),
{
    reveal_strlit("ERROR");
    reveal_strlit("annotation");
    reveal_strlit("annotation_type_declaration");
    reveal_strlit("class");
    reveal_strlit("class_declaration");
    reveal_strlit("constructor");
    reveal_strlit("constructor_declaration");
    reveal_strlit("enum");
    reveal_strlit("enum_declaration");
    reveal_strlit("field");
    reveal_strlit("field_declaration");
    reveal_strlit("import");
    reveal_strlit("import_declaration");
    reveal_strlit("interface");
    reveal_strlit("interface_declaration");
    reveal_strlit("method");
    reveal_strlit("method_declaration");
    reveal_strlit("type_alias");
    reveal_strlit("type_spec");
    if n.kind@ == "method_declaration"@ {
        assert(n.kind@[0] != "ERROR"@[0]);
        assert("method_declaration"@ != "class_declaration"@) by { assert("method_declaration"@.len() != "class_declaration"@.len()); }
        assert("method_declaration"@ != "enum_declaration"@) by { assert("method_declaration"@.len() != "enum_declaration"@.len()); }
        assert("method_declaration"@ != "interface_declaration"@) by { assert("method_declaration"@.len() != "interface_declaration"@.len()); }
        assert("method_declaration"@ != "annotation_type_declaration"@) by { assert("method_declaration"@.len() != "annotation_type_declaration"@.len()); }
        assert("method_declaration"@ != "constructor_declaration"@) by { assert("method_declaration"@.len() != "constructor_declaration"@.len()); }
        assert("method_declaration"@ != "import_declaration"@) by { assert("method_declaration"@[0] != "import_declaration"@[0]); }
        assert("method_declaration"@ != "field_declaration"@) by { assert("method_declaration"@.len() != "field_declaration"@.len()); }
        assert("method_declaration"@ != "type_spec"@) by { assert("method_declaration"@.len() != "type_spec"@.len()); }
        assert("method_declaration"@ != "type_alias"@) by { assert("method_declaration"@.len() != "type_alias"@.len()); }
        lemma_first_kind(Grammar::Java, n, scope, file_path, "method"@);
    }
    if n.kind@ == "class_declaration"@ {
        assert(n.kind@[0] != "ERROR"@[0]);
        assert("class_declaration"@ != "method_declaration"@) by { assert("class_declaration"@.len() != "method_declaration"@.len()); }
        assert("class_declaration"@ != "enum_declaration"@) by { assert("class_declaration"@.len() != "enum_declaration"@.len()); }
        assert("class_declaration"@ != "interface_declaration"@) by { assert("class_declaration"@.len() != "interface_declaration"@.len()); }
        assert("class_declaration"@ != "annotation_type_declaration"@) by { assert("class_declaration"@.len() != "annotation_type_declaration"@.len()); }
        assert("class_declaration"@ != "constructor_declaration"@) by { assert("class_declaration"@.len() != "constructor_declaration"@.len()); }
        assert("class_declaration"@ != "import_declaration"@) by { assert("class_declaration"@.len() != "import_declaration"@.len()); }
        assert("class_declaration"@ != "field_declaration"@) by { assert("class_declaration"@[0] != "field_declaration"@[0]); }
        assert("class_declaration"@ != "type_spec"@) by { assert("class_declaration"@.len() != "type_spec"@.len()); }
        assert("class_declaration"@ != "type_alias"@) by { assert("class_declaration"@.len() != "type_alias"@.len()); }
        lemma_first_kind(Grammar::Java, n, scope, file_path, "class"@);
    }
    if n.kind@ == "enum_declaration"@ {
        assert(n.kind@[0] != "ERROR"@[0]);
        assert("enum_declaration"@ != "method_declaration"@) by { assert("enum_declaration"@.len() != "method_declaration"@.len()); }
        assert("enum_declaration"@ != "class_declaration"@) by { assert("enum_declaration"@.len() != "class_declaration"@.len()); }
        assert("enum_declaration"@ != "interface_declaration"@) by { assert("enum_declaration"@.len() != "interface_declaration"@.len()); }
        assert("enum_declaration"@ != "annotation_type_declaration"@) by { assert("enum_declaration"@.len() != "annotation_type_declaration"@.len()); }
        assert("enum_declaration"@ != "constructor_declaration"@) by { assert("enum_declaration"@.len() != "constructor_declaration"@.len()); }
        assert("enum_declaration"@ != "import_declaration"@) by { assert("enum_declaration"@.len() != "import_declaration"@.len()); }
        assert("enum_declaration"@ != "field_declaration"@) by { assert("enum_declaration"@.len() != "field_declaration"@.len()); }
        assert("enum_declaration"@ != "type_spec"@) by { assert("enum_declaration"@.len() != "type_spec"@.len()); }
        assert("enum_declaration"@ != "type_alias"@) by { assert("enum_declaration"@.len() != "type_alias"@.len()); }
        lemma_first_kind(Grammar::Java, n, scope, file_path, "enum"@);
    }
    if n.kind@ == "interface_declaration"@ {
        assert(n.kind@[0] != "ERROR"@[0]);
        assert("interface_declaration"@ != "method_declaration"@) by { assert("interface_declaration"@.len() != "method_declaration"@.len()); }
        assert("interface_declaration"@ != "class_declaration"@) by { assert("interface_declaration"@.len() != "class_declaration"@.len()); }
        assert("interface_declaration"@ != "enum_declaration"@) by { assert("interface_declaration"@.len() != "enum_declaration"@.len()); }
        assert("interface_declaration"@ != "annotation_type_declaration"@) by { assert("interface_declaration"@.len() != "annotation_type_declaration"@.len()); }
        assert("interface_declaration"@ != "constructor_declaration"@) by { assert("interface_declaration"@.len() != "constructor_declaration"@.len()); }
        assert("interface_declaration"@ != "import_declaration"@) by { assert("interface_declaration"@.len() != "import_declaration"@.len()); }
        assert("interface_declaration"@ != "field_declaration"@) by { assert("interface_declaration"@.len() != "field_declaration"@.len()); }
        assert("interface_declaration"@ != "type_spec"@) by { assert("interface_declaration"@.len() != "type_spec"@.len()); }
        assert("interface_declaration"@ != "type_alias"@) by { assert("interface_declaration"@.len() != "type_alias"@.len()); }
        lemma_first_kind(Grammar::Java, n, scope, file_path, "interface"@);
    }
    if n.kind@ == "annotation_type_declaration"@ {
        assert(n.kind@[0] != "ERROR"@[0]);
        assert("annotation_type_declaration"@ != "method_declaration"@) by { assert("annotation_type_declaration"@.len() != "method_declaration"@.len()); }
        assert("annotation_type_declaration"@ != "class_declaration"@) by { assert("annotation_type_declaration"@.len() != "class_declaration"@.len()); }
        assert("annotation_type_declaration"@ != "enum_declaration"@) by { assert("annotation_type_declaration"@.len() != "enum_declaration"@.len()); }
        assert("annotation_type_declaration"@ != "interface_declaration"@) by { assert("annotation_type_declaration"@.len() != "interface_declaration"@.len()); }
        assert("annotation_type_declaration"@ != "constructor_declaration"@) by { assert("annotation_type_declaration"@.len() != "constructor_declaration"@.len()); }
        assert("annotation_type_declaration"@ != "import_declaration"@) by { assert("annotation_type_declaration"@.len() != "import_declaration"@.len()); }
        assert("annotation_type_declaration"@ != "field_declaration"@) by { assert("annotation_type_declaration"@.len() != "field_declaration"@.len()); }
        assert("annotation_type_declaration"@ != "type_spec"@) by { assert("annotation_type_declaration"@.len() != "type_spec"@.len()); }
        assert("annotation_type_declaration"@ != "type_alias"@) by { assert("annotation_type_declaration"@.len() != "type_alias"@.len()); }
        lemma_first_kind(Grammar::Java, n, scope, file_path, "annotation"@);
    }
    if n.kind@ == "constructor_declaration"@ {
        assert(n.kind@[0] != "ERROR"@[0]);
        assert("constructor_declaration"@ != "method_declaration"@) by { assert("constructor_declaration"@.len() != "method_declaration"@.len()); }
        assert("constructor_declaration"@ != "class_declaration"@) by { assert("constructor_declaration"@.len() != "class_declaration"@.len()); }
        assert("constructor_declaration"@ != "enum_declaration"@) by { assert("constructor_declaration"@.len() != "enum_declaration"@.len()); }
        assert("constructor_declaration"@ != "interface_declaration"@) by { assert("constructor_declaration"@.len() != "interface_declaration"@.len()); }
        assert("constructor_declaration"@ != "annotation_type_declaration"@) by { assert("constructor_declaration"@.len() != "annotation_type_declaration"@.len()); }
        assert("constructor_declaration"@ != "import_declaration"@) by { assert("constructor_declaration"@.len() != "import_declaration"@.len()); }
        assert("constructor_declaration"@ != "field_declaration"@) by { assert("constructor_declaration"@.len() != "field_declaration"@.len()); }
        assert("constructor_declaration"@ != "type_spec"@) by { assert("constructor_declaration"@.len() != "type_spec"@.len()); }
        assert("constructor_declaration"@ != "type_alias"@) by { assert("constructor_declaration"@.len() != "type_alias"@.len()); }
        lemma_first_kind(Grammar::Java, n, scope, file_path, "constructor"@);
    }
    if n.kind@ == "import_declaration"@ {
        assert(n.kind@[0] != "ERROR"@[0]);
        assert("import_declaration"@ != "method_declaration"@) by { assert("import_declaration"@[0] != "method_declaration"@[0]); }
        assert("import_declaration"@ != "class_declaration"@) by { assert("import_declaration"@.len() != "class_declaration"@.len()); }
        assert("import_declaration"@ != "enum_declaration"@) by { assert("import_declaration"@.len() != "enum_declaration"@.len()); }
        assert("import_declaration"@ != "interface_declaration"@) by { assert("import_declaration"@.len() != "interface_declaration"@.len()); }
        assert("import_declaration"@ != "annotation_type_declaration"@) by { assert("import_declaration"@.len() != "annotation_type_declaration"@.len()); }
        assert("import_declaration"@ != "constructor_declaration"@) by { assert("import_declaration"@.len() != "constructor_declaration"@.len()); }
        assert("import_declaration"@ != "field_declaration"@) by { assert("import_declaration"@.len() != "field_declaration"@.len()); }
        assert("import_declaration"@ != "type_spec"@) by { assert("import_declaration"@.len() != "type_spec"@.len()); }
        assert("import_declaration"@ != "type_alias"@) by { assert("import_declaration"@.len() != "type_alias"@.len()); }
        lemma_first_kind(Grammar::Java, n, scope, file_path, "import"@);
    }
    if n.kind@ == "field_declaration"@ {
        assert(n.kind@[0] != "ERROR"@[0]);
        assert("field_declaration"@ != "method_declaration"@) by { assert("field_declaration"@.len() != "method_declaration"@.len()); }
        assert("field_declaration"@ != "class_declaration"@) by { assert("field_declaration"@[0] != "class_declaration"@[0]); }
        assert("field_declaration"@ != "enum_declaration"@) by { assert("field_declaration"@.len() != "enum_declaration"@.len()); }
        assert("field_declaration"@ != "interface_declaration"@) by { assert("field_declaration"@.len() != "interface_declaration"@.len()); }
        assert("field_declaration"@ != "annotation_type_declaration"@) by { assert("field_declaration"@.len() != "annotation_type_declaration"@.len()); }
        assert("field_declaration"@ != "constructor_declaration"@) by { assert("field_declaration"@.len() != "constructor_declaration"@.len()); }
        assert("field_declaration"@ != "import_declaration"@) by { assert("field_declaration"@.len() != "import_declaration"@.len()); }
        assert("field_declaration"@ != "type_spec"@) by { assert("field_declaration"@.len() != "type_spec"@.len()); }
        assert("field_declaration"@ != "type_alias"@) by { assert("field_declaration"@.len() != "type_alias"@.len()); }
        lemma_first_kind(Grammar::Java, n, scope, file_path, "field"@);
    }
}

/// The Go declarations that are symbols, and their kinds: functions, methods, imports, variables, constants, and type specifications of structs and interfaces.
pub proof fn law_go_symbol_kinds(n: SyntaxNode, scope: Option<Seq<char>>, file_path: Seq<char>)
    ensures
        n.kind@ == "function_declaration"@ ==> first_symbol_kind(Grammar::Go, n, scope, file_path) == Some("function"@),
        n.kind@ == "method_declaration"@ ==> first_symbol_kind(Grammar::Go, n, scope, file_path) == Some("method"@),
        n.kind@ == "import_declaration"@ ==> first_symbol_kind(Grammar::Go, n, scope, file_path) == Some("import"@),
        n.kind@ == "var_declaration"@ ==> first_symbol_kind(Grammar::Go, n, scope, file_path) == Some("var"@),
        n.kind@ == "const_declaration"@ ==> first_symbol_kind(Grammar::Go, n, scope, file_path) == Some("const"@),
        n.kind@ == "type_spec"@ && opt_view(n.type_kind) == Some("struct_type"@) ==> first_symbol_kind(Grammar::Go, n, scope, file_path) == Some("struct"@),
        n.kind@ == "type_spec"@ && opt_view(n.type_kind) == Some("interface_type"@) ==> first_symbol_kind(Grammar::Go, n, scope, file_path) == Some("interface"@),
{
    reveal_strlit("ERROR");
    reveal_strlit("const");
    reveal_strlit("const_declaration");
    reveal_strlit("function");
    reveal_strlit("function_declaration");
    reveal_strlit("import");
    reveal_strlit("import_declaration");
    reveal_strlit("method");
    reveal_strlit("method_declaration");
    reveal_strlit("type_alias");
    reveal_strlit("type_spec");
    reveal_strlit("var");
    reveal_strlit("var_declaration");
    if n.kind@ == "function_declaration"@ {
        assert(n.kind@[0] != "ERROR"@[0]);
        assert("function_declaration"@ != "method_declaration"@) by { assert("function_declaration"@.len() != "method_declaration"@.len()); }
        assert("function_declaration"@ != "import_declaration"@) by { assert("function_declaration"@.len() != "import_declaration"@.len()); }
        assert("function_declaration"@ != "var_declaration"@) by { assert("function_declaration"@.len() != "var_declaration"@.len()); }
        assert("function_declaration"@ != "const_declaration"@) by { assert("function_declaration"@.len() != "const_declaration"@.len()); }
        assert("function_declaration"@ != "type_spec"@) by { assert("function_declaration"@.len() != "type_spec"@.len()); }
        assert("function_declaration"@ != "type_alias"@) by { assert("function_declaration"@.len() != "type_alias"@.len()); }
        lemma_first_kind(Grammar::Go, n, scope, file_path, "function"@);
    }
    if n.kind@ == "method_declaration"@ {
        assert(n.kind@[0] != "ERROR"@[0]);
        assert("method_declaration"@ != "function_declaration"@) by { assert("method_declaration"@.len() != "function_declaration"@.len()); }
        assert("method_declaration"@ != "import_declaration"@) by { assert("method_declaration"@[0] != "import_declaration"@[0]); }
        assert("method_declaration"@ != "var_declaration"@) by { assert("method_declaration"@.len() != "var_declaration"@.len()); }
        assert("method_declaration"@ != "const_declaration"@) by { assert("method_declaration"@.len() != "const_declaration"@.len()); }
        assert("method_declaration"@ != "type_spec"@) by { assert("method_declaration"@.len() != "type_spec"@.len()); }
        assert("method_declaration"@ != "type_alias"@) by { assert("method_declaration"@.len() != "type_alias"@.len()); }
        lemma_first_kind(Grammar::Go, n, scope, file_path, "method"@);
    }
    if n.kind@ == "import_declaration"@ {
        assert(n.kind@[0] != "ERROR"@[0]);
        assert("import_declaration"@ != "function_declaration"@) by { assert("import_declaration"@.len() != "function_declaration"@.len()); }
        assert("import_declaration"@ != "method_declaration"@) by { assert("import_declaration"@[0] != "method_declaration"@[0]); }
        assert("import_declaration"@ != "var_declaration"@) by { assert("import_declaration"@.len() != "var_declaration"@.len()); }
        assert("import_declaration"@ != "const_declaration"@) by { assert("import_declaration"@.len() != "const_declaration"@.len()); }
        assert("import_declaration"@ != "type_spec"@) by { assert("import_declaration"@.len() != "type_spec"@.len()); }
        assert("import_declaration"@ != "type_alias"@) by { assert("import_declaration"@.len() != "type_alias"@.len()); }
        lemma_first_kind(Grammar::Go, n, scope, file_path, "import"@);
    }
    if n.kind@ == "var_declaration"@ {
        assert(n.kind@[0] != "ERROR"@[0]);
        assert("var_declaration"@ != "function_declaration"@) by { assert("var_declaration"@.len() != "function_declaration"@.len()); }
        assert("var_declaration"@ != "method_declaration"@) by { assert("var_declaration"@.len() != "method_declaration"@.len()); }
        assert("var_declaration"@ != "import_declaration"@) by { assert("var_declaration"@.len() != "import_declaration"@.len()); }
        assert("var_declaration"@ != "const_declaration"@) by { assert("var_declaration"@.len() != "const_declaration"@.len()); }
        assert("var_declaration"@ != "type_spec"@) by { assert("var_declaration"@.len() != "type_spec"@.len()); }
        assert("var_declaration"@ != "type_alias"@) by { assert("var_declaration"@.len() != "type_alias"@.len()); }
        lemma_first_kind(Grammar::Go, n, scope, file_path, "var"@);
    }
    if n.kind@ == "const_declaration"@ {
        assert(n.kind@[0] != "ERROR"@[0]);
        assert("const_declaration"@ != "function_declaration"@) by { assert("const_declaration"@.len() != "function_declaration"@.len()); }
        assert("const_declaration"@ != "method_declaration"@) by { assert("const_declaration"@.len() != "method_declaration"@.len()); }
        assert("const_declaration"@ != "import_declaration"@) by { assert("const_declaration"@.len() != "import_declaration"@.len()); }
        assert("const_declaration"@ != "var_declaration"@) by { assert("const_declaration"@.len() != "var_declaration"@.len()); }
        assert("const_declaration"@ != "type_spec"@) by { assert("const_declaration"@.len() != "type_spec"@.len()); }
        assert("const_declaration"@ != "type_alias"@) by { assert("const_declaration"@.len() != "type_alias"@.len()); }
        lemma_first_kind(Grammar::Go, n, scope, file_path, "const"@);
    }
    reveal_strlit("struct_type");
    reveal_strlit("interface_type");
    assert("interface_type"@ != "struct_type"@) by { assert("interface_type"@.len() != "struct_type"@.len()); }
    assert("type_spec"@ != "ERROR"@) by { assert("type_spec"@[0] != "ERROR"@[0]); }
    if n.kind@ == "type_spec"@ && opt_view(n.type_kind) == Some("struct_type"@) {
        assert(n.kind@[0] != "ERROR"@[0]);
        lemma_first_kind(Grammar::Go, n, scope, file_path, "struct"@);
    }
    if n.kind@ == "type_spec"@ && opt_view(n.type_kind) == Some("interface_type"@) {
        assert(n.kind@[0] != "ERROR"@[0]);
        lemma_first_kind(Grammar::Go, n, scope, file_path, "interface"@);
    }
}

/// The JavaScript declarations that are symbols, and their kinds: functions (declared, arrow and expressions), classes, methods, imports, exports and variables.
pub proof fn law_javascript_symbol_kinds(n: SyntaxNode, scope: Option<Seq<char>>, file_path: Seq<char>)
    ensures
        n.kind@ == "function_declaration"@ ==> first_symbol_kind(Grammar::JavaScript, n, scope, file_path) == Some("function"@),
        n.kind@ == "arrow_function"@ ==> first_symbol_kind(Grammar::JavaScript, n, scope, file_path) == Some("function"@),
        n.kind@ == "function_expression"@ ==> first_symbol_kind(Grammar::JavaScript, n, scope, file_path) == Some("function"@),
        n.kind@ == "class_declaration"@ ==> first_symbol_kind(Grammar::JavaScript, n, scope, file_path) == Some("class"@),
        n.kind@ == "method_definition"@ ==> first_symbol_kind(Grammar::JavaScript, n, scope, file_path) == Some("method"@),
        n.kind@ == "import_statement"@ ==> first_symbol_kind(Grammar::JavaScript, n, scope, file_path) == Some("import"@),
        n.kind@ == "export_statement"@ ==> first_symbol_kind(Grammar::JavaScript, n, scope, file_path) == Some("export"@),
        n.kind@ == "lexical_declaration"@ ==> first_symbol_kind(Grammar::JavaScript, n, scope, file_path) == Some("variable"@),
        n.kind@ == "variable_declaration"@ ==> first_symbol_kind(Grammar::JavaScript, n, scope, file_path) == Some("variable"@),
{
    reveal_strlit("ERROR");
    reveal_strlit("arrow_function");
    reveal_strlit("class");
    reveal_strlit("class_declaration");
    reveal_strlit("enum_declaration");
    reveal_strlit("export");
    reveal_strlit("export_statement");
    reveal_strlit("function");
    reveal_strlit("function_declaration");
    reveal_strlit("function_expression");
    reveal_strlit("import");
    reveal_strlit("import_declaration");
    reveal_strlit("import_statement");
    reveal_strlit("interface_declaration");
    reveal_strlit("lexical_declaration");
    reveal_strlit("method");
    reveal_strlit("method_definition");
    reveal_strlit("type_alias");
    reveal_strlit("type_alias_declaration");
    reveal_strlit("type_spec");
    reveal_strlit("variable");
    reveal_strlit("variable_declaration");
    if n.kind@ == "function_declaration"@ {
        assert(n.kind@[0] != "ERROR"@[0]);
        assert("function_declaration"@ != "arrow_function"@) by { assert("function_declaration"@.len() != "arrow_function"@.len()); }
        assert("function_declaration"@ != "function_expression"@) by { assert("function_declaration"@.len() != "function_expression"@.len()); }
        assert("function_declaration"@ != "class_declaration"@) by { assert("function_declaration"@.len() != "class_declaration"@.len()); }
        assert("function_declaration"@ != "enum_declaration"@) by { assert("function_declaration"@.len() != "enum_declaration"@.len()); }
        assert("function_declaration"@ != "interface_declaration"@) by { assert("function_declaration"@.len() != "interface_declaration"@.len()); }
        assert("function_declaration"@ != "type_alias_declaration"@) by { assert("function_declaration"@.len() != "type_alias_declaration"@.len()); }
        assert("function_declaration"@ != "import_statement"@) by { assert("function_declaration"@.len() != "import_statement"@.len()); }
        assert("function_declaration"@ != "import_declaration"@) by { assert("function_declaration"@.len() != "import_declaration"@.len()); }
        assert("function_declaration"@ != "export_statement"@) by { assert("function_declaration"@.len() != "export_statement"@.len()); }
        assert("function_declaration"@ != "lexical_declaration"@) by { assert("function_declaration"@.len() != "lexical_declaration"@.len()); }
        assert("function_declaration"@ != "variable_declaration"@) by { assert("function_declaration"@[0] != "variable_declaration"@[0]); }
        assert("function_declaration"@ != "method_definition"@) by { assert("function_declaration"@.len() != "method_definition"@.len()); }
        assert("function_declaration"@ != "type_spec"@) by { assert("function_declaration"@.len() != "type_spec"@.len()); }
        assert("function_declaration"@ != "type_alias"@) by { assert("function_declaration"@.len() != "type_alias"@.len()); }
        lemma_first_kind(Grammar::JavaScript, n, scope, file_path, "function"@);
    }
    if n.kind@ == "arrow_function"@ {
        assert(n.kind@[0] != "ERROR"@[0]);
        assert("arrow_function"@ != "function_declaration"@) by { assert("arrow_function"@.len() != "function_declaration"@.len()); }
        assert("arrow_function"@ != "function_expression"@) by { assert("arrow_function"@.len() != "function_expression"@.len()); }
        assert("arrow_function"@ != "class_declaration"@) by { assert("arrow_function"@.len() != "class_declaration"@.len()); }
        assert("arrow_function"@ != "enum_declaration"@) by { assert("arrow_function"@.len() != "enum_declaration"@.len()); }
        assert("arrow_function"@ != "interface_declaration"@) by { assert("arrow_function"@.len() != "interface_declaration"@.len()); }
        assert("arrow_function"@ != "type_alias_declaration"@) by { assert("arrow_function"@.len() != "type_alias_declaration"@.len()); }
        assert("arrow_function"@ != "import_statement"@) by { assert("arrow_function"@.len() != "import_statement"@.len()); }
        assert("arrow_function"@ != "import_declaration"@) by { assert("arrow_function"@.len() != "import_declaration"@.len()); }
        assert("arrow_function"@ != "export_statement"@) by { assert("arrow_function"@.len() != "export_statement"@.len()); }
        assert("arrow_function"@ != "lexical_declaration"@) by { assert("arrow_function"@.len() != "lexical_declaration"@.len()); }
        assert("arrow_function"@ != "variable_declaration"@) by { assert("arrow_function"@.len() != "variable_declaration"@.len()); }
        assert("arrow_function"@ != "method_definition"@) by { assert("arrow_function"@.len() != "method_definition"@.len()); }
        assert("arrow_function"@ != "type_spec"@) by { assert("arrow_function"@.len() != "type_spec"@.len()); }
        assert("arrow_function"@ != "type_alias"@) by { assert("arrow_function"@.len() != "type_alias"@.len()); }
        lemma_first_kind(Grammar::JavaScript, n, scope, file_path, "function"@);
    }
    if n.kind@ == "function_expression"@ {
        assert(n.kind@[0] != "ERROR"@[0]);
        assert("function_expression"@ != "function_declaration"@) by { assert("function_expression"@.len() != "function_declaration"@.len()); }
        assert("function_expression"@ != "arrow_function"@) by { assert("function_expression"@.len() != "arrow_function"@.len()); }
        assert("function_expression"@ != "class_declaration"@) by { assert("function_expression"@.len() != "class_declaration"@.len()); }
        assert("function_expression"@ != "enum_declaration"@) by { assert("function_expression"@.len() != "enum_declaration"@.len()); }
        assert("function_expression"@ != "interface_declaration"@) by { assert("function_expression"@.len() != "interface_declaration"@.len()); }
        assert("function_expression"@ != "type_alias_declaration"@) by { assert("function_expression"@.len() != "type_alias_declaration"@.len()); }
        assert("function_expression"@ != "import_statement"@) by { assert("function_expression"@.len() != "import_statement"@.len()); }
        assert("function_expression"@ != "import_declaration"@) by { assert("function_expression"@.len() != "import_declaration"@.len()); }
        assert("function_expression"@ != "export_statement"@) by { assert("function_expression"@.len() != "export_statement"@.len()); }
        assert("function_expression"@ != "lexical_declaration"@) by { assert("function_expression"@[0] != "lexical_declaration"@[0]); }
        assert("function_expression"@ != "variable_declaration"@) by { assert("function_expression"@.len() != "variable_declaration"@.len()); }
        assert("function_expression"@ != "method_definition"@) by { assert("function_expression"@.len() != "method_definition"@.len()); }
        assert("function_expression"@ != "type_spec"@) by { assert("function_expression"@.len() != "type_spec"@.len()); }
        assert("function_expression"@ != "type_alias"@) by { assert("function_expression"@.len() != "type_alias"@.len()); }
        lemma_first_kind(Grammar::JavaScript, n, scope, file_path, "function"@);
    }
    if n.kind@ == "class_declaration"@ {
        assert(n.kind@[0] != "ERROR"@[0]);
        assert("class_declaration"@ != "function_declaration"@) by { assert("class_declaration"@.len() != "function_declaration"@.len()); }
        assert("class_declaration"@ != "arrow_function"@) by { assert("class_declaration"@.len() != "arrow_function"@.len()); }
        assert("class_declaration"@ != "function_expression"@) by { assert("class_declaration"@.len() != "function_expression"@.len()); }
        assert("class_declaration"@ != "enum_declaration"@) by { assert("class_declaration"@.len() != "enum_declaration"@.len()); }
        assert("class_declaration"@ != "interface_declaration"@) by { assert("class_declaration"@.len() != "interface_declaration"@.len()); }
        assert("class_declaration"@ != "type_alias_declaration"@) by { assert("class_declaration"@.len() != "type_alias_declaration"@.len()); }
        assert("class_declaration"@ != "import_statement"@) by { assert("class_declaration"@.len() != "import_statement"@.len()); }
        assert("class_declaration"@ != "import_declaration"@) by { assert("class_declaration"@.len() != "import_declaration"@.len()); }
        assert("class_declaration"@ != "export_statement"@) by { assert("class_declaration"@.len() != "export_statement"@.len()); }
        assert("class_declaration"@ != "lexical_declaration"@) by { assert("class_declaration"@.len() != "lexical_declaration"@.len()); }
        assert("class_declaration"@ != "variable_declaration"@) by { assert("class_declaration"@.len() != "variable_declaration"@.len()); }
        assert("class_declaration"@ != "method_definition"@) by { assert("class_declaration"@[0] != "method_definition"@[0]); }
        assert("class_declaration"@ != "type_spec"@) by { assert("class_declaration"@.len() != "type_spec"@.len()); }
        assert("class_declaration"@ != "type_alias"@) by { assert("class_declaration"@.len() != "type_alias"@.len()); }
        lemma_first_kind(Grammar::JavaScript, n, scope, file_path, "class"@);
    }
    if n.kind@ == "method_definition"@ {
        assert(n.kind@[0] != "ERROR"@[0]);
        assert("method_definition"@ != "function_declaration"@) by { assert("method_definition"@.len() != "function_declaration"@.len()); }
        assert("method_definition"@ != "arrow_function"@) by { assert("method_definition"@.len() != "arrow_function"@.len()); }
        assert("method_definition"@ != "function_expression"@) by { assert("method_definition"@.len() != "function_expression"@.len()); }
        assert("method_definition"@ != "class_declaration"@) by { assert("method_definition"@[0] != "class_declaration"@[0]); }
        assert("method_definition"@ != "enum_declaration"@) by { assert("method_definition"@.len() != "enum_declaration"@.len()); }
        assert("method_definition"@ != "interface_declaration"@) by { assert("method_definition"@.len() != "interface_declaration"@.len()); }
        assert("method_definition"@ != "type_alias_declaration"@) by { assert("method_definition"@.len() != "type_alias_declaration"@.len()); }
        assert("method_definition"@ != "import_statement"@) by { assert("method_definition"@.len() != "import_statement"@.len()); }
        assert("method_definition"@ != "import_declaration"@) by { assert("method_definition"@.len() != "import_declaration"@.len()); }
        assert("method_definition"@ != "export_statement"@) by { assert("method_definition"@.len() != "export_statement"@.len()); }
        assert("method_definition"@ != "lexical_declaration"@) by { assert("method_definition"@.len() != "lexical_declaration"@.len()); }
        assert("method_definition"@ != "variable_declaration"@) by { assert("method_definition"@.len() != "variable_declaration"@.len()); }
        assert("method_definition"@ != "type_spec"@) by { assert("method_definition"@.len() != "type_spec"@.len()); }
        assert("method_definition"@ != "type_alias"@) by { assert("method_definition"@.len() != "type_alias"@.len()); }
        lemma_first_kind(Grammar::JavaScript, n, scope, file_path, "method"@);
    }
    if n.kind@ == "import_statement"@ {
        assert(n.kind@[0] != "ERROR"@[0]);
        assert("import_statement"@ != "function_declaration"@) by { assert("import_statement"@.len() != "function_declaration"@.len()); }
        assert("import_statement"@ != "arrow_function"@) by { assert("import_statement"@.len() != "arrow_function"@.len()); }
        assert("import_statement"@ != "function_expression"@) by { assert("import_statement"@.len() != "function_expression"@.len()); }
        assert("import_statement"@ != "class_declaration"@) by { assert("import_statement"@.len() != "class_declaration"@.len()); }
        assert("import_statement"@ != "enum_declaration"@) by { assert("import_statement"@[0] != "enum_declaration"@[0]); }
        assert("import_statement"@ != "interface_declaration"@) by { assert("import_statement"@.len() != "interface_declaration"@.len()); }
        assert("import_statement"@ != "type_alias_declaration"@) by { assert("import_statement"@.len() != "type_alias_declaration"@.len()); }
        assert("import_statement"@ != "import_declaration"@) by { assert("import_statement"@.len() != "import_declaration"@.len()); }
        assert("import_statement"@ != "export_statement"@) by { assert("import_statement"@[0] != "export_statement"@[0]); }
        assert("import_statement"@ != "lexical_declaration"@) by { assert("import_statement"@.len() != "lexical_declaration"@.len()); }
        assert("import_statement"@ != "variable_declaration"@) by { assert("import_statement"@.len() != "variable_declaration"@.len()); }
        assert("import_statement"@ != "method_definition"@) by { assert("import_statement"@.len() != "method_definition"@.len()); }
        assert("import_statement"@ != "type_spec"@) by { assert("import_statement"@.len() != "type_spec"@.len()); }
        assert("import_statement"@ != "type_alias"@) by { assert("import_statement"@.len() != "type_alias"@.len()); }
        lemma_first_kind(Grammar::JavaScript, n, scope, file_path, "import"@);
    }
    if n.kind@ == "export_statement"@ {
        assert(n.kind@[0] != "ERROR"@[0]);
        assert("export_statement"@ != "function_declaration"@) by { assert("export_statement"@.len() != "function_declaration"@.len()); }
        assert("export_statement"@ != "arrow_function"@) by { assert("export_statement"@.len() != "arrow_function"@.len()); }
        assert("export_statement"@ != "function_expression"@) by { assert("export_statement"@.len() != "function_expression"@.len()); }
        assert("export_statement"@ != "class_declaration"@) by { assert("export_statement"@.len() != "class_declaration"@.len()); }
        assert("export_statement"@ != "enum_declaration"@) by { assert("export_statement"@[1] != "enum_declaration"@[1]); }
        assert("export_statement"@ != "interface_declaration"@) by { assert("export_statement"@.len() != "interface_declaration"@.len()); }
        assert("export_statement"@ != "type_alias_declaration"@) by { assert("export_statement"@.len() != "type_alias_declaration"@.len()); }
        assert("export_statement"@ != "import_statement"@) by { assert("export_statement"@[0] != "import_statement"@[0]); }
        assert("export_statement"@ != "import_declaration"@) by { assert("export_statement"@.len() != "import_declaration"@.len()); }
        assert("export_statement"@ != "lexical_declaration"@) by { assert("export_statement"@.len() != "lexical_declaration"@.len()); }
        assert("export_statement"@ != "variable_declaration"@) by { assert("export_statement"@.len() != "variable_declaration"@.len()); }
        assert("export_statement"@ != "method_definition"@) by { assert("export_statement"@.len() != "method_definition"@.len()); }
        assert("export_statement"@ != "type_spec"@) by { assert("export_statement"@.len() != "type_spec"@.len()); }
        assert("export_statement"@ != "type_alias"@) by { assert("export_statement"@.len() != "type_alias"@.len()); }
        lemma_first_kind(Grammar::JavaScript, n, scope, file_path, "export"@);
    }
    if n.kind@ == "lexical_declaration"@ {
        assert(n.kind@[0] != "ERROR"@[0]);
        assert("lexical_declaration"@ != "function_declaration"@) by { assert("lexical_declaration"@.len() != "function_declaration"@.len()); }
        assert("lexical_declaration"@ != "arrow_function"@) by { assert("lexical_declaration"@.len() != "arrow_function"@.len()); }
        assert("lexical_declaration"@ != "function_expression"@) by { assert("lexical_declaration"@[0] != "function_expression"@[0]); }
        assert("lexical_declaration"@ != "class_declaration"@) by { assert("lexical_declaration"@.len() != "class_declaration"@.len()); }
        assert("lexical_declaration"@ != "enum_declaration"@) by { assert("lexical_declaration"@.len() != "enum_declaration"@.len()); }
        assert("lexical_declaration"@ != "interface_declaration"@) by { assert("lexical_declaration"@.len() != "interface_declaration"@.len()); }
        assert("lexical_declaration"@ != "type_alias_declaration"@) by { assert("lexical_declaration"@.len() != "type_alias_declaration"@.len()); }
        assert("lexical_declaration"@ != "import_statement"@) by { assert("lexical_declaration"@.len() != "import_statement"@.len()); }
        assert("lexical_declaration"@ != "import_declaration"@) by { assert("lexical_declaration"@.len() != "import_declaration"@.len()); }
        assert("lexical_declaration"@ != "export_statement"@) by { assert("lexical_declaration"@.len() != "export_statement"@.len()); }
        assert("lexical_declaration"@ != "variable_declaration"@) by { assert("lexical_declaration"@.len() != "variable_declaration"@.len()); }
        assert("lexical_declaration"@ != "method_definition"@) by { assert("lexical_declaration"@.len() != "method_definition"@.len()); }
        assert("lexical_declaration"@ != "type_spec"@) by { assert("lexical_declaration"@.len() != "type_spec"@.len()); }
        assert("lexical_declaration"@ != "type_alias"@) by { assert("lexical_declaration"@.len() != "type_alias"@.len()); }
        lemma_first_kind(Grammar::JavaScript, n, scope, file_path, "variable"@);
    }
    if n.kind@ == "variable_declaration"@ {
        assert(n.kind@[0] != "ERROR"@[0]);
        assert("variable_declaration"@ != "function_declaration"@) by { assert("variable_declaration"@[0] != "function_declaration"@[0]); }
        assert("variable_declaration"@ != "arrow_function"@) by { assert("variable_declaration"@.len() != "arrow_function"@.len()); }
        assert("variable_declaration"@ != "function_expression"@) by { assert("variable_declaration"@.len() != "function_expression"@.len()); }
        assert("variable_declaration"@ != "class_declaration"@) by { assert("variable_declaration"@.len() != "class_declaration"@.len()); }
        assert("variable_declaration"@ != "enum_declaration"@) by { assert("variable_declaration"@.len() != "enum_declaration"@.len()); }
        assert("variable_declaration"@ != "interface_declaration"@) by { assert("variable_declaration"@.len() != "interface_declaration"@.len()); }
        assert("variable_declaration"@ != "type_alias_declaration"@) by { assert("variable_declaration"@.len() != "type_alias_declaration"@.len()); }
        assert("variable_declaration"@ != "import_statement"@) by { assert("variable_declaration"@.len() != "import_statement"@.len()); }
        assert("variable_declaration"@ != "import_declaration"@) by { assert("variable_declaration"@.len() != "import_declaration"@.len()); }
        assert("variable_declaration"@ != "export_statement"@) by { assert("variable_declaration"@.len() != "export_statement"@.len()); }
        assert("variable_declaration"@ != "lexical_declaration"@) by { assert("variable_declaration"@.len() != "lexical_declaration"@.len()); }
        assert("variable_declaration"@ != "method_definition"@) by { assert("variable_declaration"@.len() != "method_definition"@.len()); }
        assert("variable_declaration"@ != "type_spec"@) by { assert("variable_declaration"@.len() != "type_spec"@.len()); }
        assert("variable_declaration"@ != "type_alias"@) by { assert("variable_declaration"@.len() != "type_alias"@.len()); }
        lemma_first_kind(Grammar::JavaScript, n, scope, file_path, "variable"@);
    }
}

} // verus!
