//! Finding the symbol definitions of a source file in its syntax tree.
use vstd::prelude::*;
use crate::index::Symbol;
use crate::index::SymbolKind;
use crate::index::SourceLanguage;
use crate::index::kind_of_node;
use crate::index::classify;
use crate::index::language_for_ext;
use crate::markdown::lines_of;
use crate::markdown::text_lines;
use crate::text::string_from_chars;
use crate::text::to_owned_string;

verus! {

/// A node of a syntax tree, as the index reads it: its kind, the text of
/// its `name` field (`None` when it has none, `Some(None)` when that text
/// is not UTF-8), its own text (`None` when not UTF-8), the rows it starts
/// and ends on (from zero), and its children in order.
pub struct SyntaxNode {
    pub kind: String,
    pub name: Option<Option<String>>,
    pub text: Option<String>,
    pub start_row: usize,
    pub end_row: usize,
    pub children: Vec<SyntaxNode>,
}

/// The syntax tree that tree-sitter builds for a source text with the
/// grammar of `lang`; `None` when the grammar cannot be set or parsing fails.
pub uninterp spec fn parsed_tree(lang: SourceLanguage, source: Seq<char>) -> Option<SyntaxNode>;

/// Every row of a tree is at most `bound`.
pub open spec fn rows_within(n: SyntaxNode, bound: nat) -> bool
    decreases n, 1int,
{
    &&& n.start_row <= bound
    &&& n.end_row <= bound
    &&& forest_rows_within(n.children@, bound)
}

/// Every row of several trees is at most `bound`.
pub open spec fn forest_rows_within(ns: Seq<SyntaxNode>, bound: nat) -> bool
    decreases ns, 0int,
{
    if ns.len() == 0 {
        true
    } else {
        forest_rows_within(ns.drop_last(), bound) && rows_within(ns.last(), bound)
    }
}

#[verifier::external_type_specification]
#[verifier::external_body]
pub struct ExNode<'a>(tree_sitter::Node<'a>);

/// Turns a tree-sitter node into a `SyntaxNode`: its `kind`, the
/// `utf8_text` of its `name` field child and of itself, the rows of its
/// start and end positions, and its children in order.
#[verifier::external_body]
fn from_node(node: tree_sitter::Node, source: &[u8]) -> SyntaxNode {
    let mut cursor = node.walk();
    SyntaxNode {
        kind: node.kind().to_string(),
        name: node.child_by_field_name("name").map(|n| n.utf8_text(source).ok().map(|t| t.to_string())),
        text: node.utf8_text(source).ok().map(|t| t.to_string()),
        start_row: node.start_position().row,
        end_row: node.end_position().row,
        children: node.children(&mut cursor).map(|c| from_node(c, source)).collect(),
    }
}

/// Parses a source text with tree-sitter's `Parser`, set to the grammar
/// of `lang`. Claimed: the result is `parsed_tree` of the language and the
/// text; and rows count lines, so no row exceeds the text's length.
#[verifier::external_body]
fn parse_source(lang: SourceLanguage, source: &str) -> (r: Option<SyntaxNode>)
    ensures
        r matches Some(t) ==> parsed_tree(lang, source@) == Some(t) && rows_within(t, source@.len()),
        r is None ==> parsed_tree(lang, source@) is None,
{
    let language: tree_sitter::Language = match lang {
        SourceLanguage::Rust => tree_sitter_rust::LANGUAGE.into(),
        SourceLanguage::Python => tree_sitter_python::LANGUAGE.into(),
        SourceLanguage::JavaScript => tree_sitter_javascript::LANGUAGE.into(),
        SourceLanguage::TypeScript => tree_sitter_typescript::LANGUAGE_TYPESCRIPT.into(),
        SourceLanguage::Tsx => tree_sitter_typescript::LANGUAGE_TSX.into(),
        SourceLanguage::Go => tree_sitter_go::LANGUAGE.into(),
    };
    let mut parser = tree_sitter::Parser::new();
    parser.set_language(&language).ok()?;
    let tree = parser.parse(source.as_bytes(), None)?;
    Some(from_node(tree.root_node(), source.as_bytes()))
}

/// A symbol as data.
pub ghost struct SymbolView {
    pub name: Seq<char>,
    pub kind: SymbolKind,
    pub file: Seq<char>,
    pub line: u32,
    pub end_line: u32,
    pub signature: Seq<char>,
}

/// A symbol's view.
pub open spec fn symbol_view(s: Symbol) -> SymbolView {
    SymbolView { name: s.name@, kind: s.kind, file: s.file@, line: s.line, end_line: s.end_line, signature: s.signature@ }
}

/// The views of a list of symbols.
pub open spec fn symbol_views(v: Seq<Symbol>) -> Seq<SymbolView> {
    v.map_values(|s: Symbol| symbol_view(s))
}

/// The first line of a text, or nothing.
pub open spec fn first_line(t: Seq<char>) -> Seq<char> {
    if lines_of(t).len() > 0 {
        lines_of(t)[0]
    } else {
        Seq::empty()
    }
}

/// The symbol a node defines, if any: a node of a defining kind with a
/// non-empty name; its lines count from one and its signature is the
/// first line of its text.
pub open spec fn node_symbol(n: SyntaxNode, file: Seq<char>) -> Option<SymbolView> {
    match kind_of_node(n.kind@) {
        Some(k) => match n.name {
            Some(Some(nm)) => if nm@.len() > 0 {
                Some(
                    SymbolView {
                        name: nm@,
                        kind: k,
                        file,
                        line: (n.start_row + 1) as u32,
                        end_line: (n.end_row + 1) as u32,
                        signature: first_line(match n.text {
                            Some(t) => t@,
                            None => Seq::empty(),
                        }),
                    },
                )
            } else {
                None
            },
            _ => None,
        },
        None => None,
    }
}

/// The symbols of a tree, node before children, children in order.
pub open spec fn tree_symbols(n: SyntaxNode, file: Seq<char>) -> Seq<SymbolView>
    decreases n, 1int,
{
    (match node_symbol(n, file) {
        Some(s) => seq![s],
        None => Seq::empty(),
    }) + forest_symbols(n.children@, file)
}

/// The symbols of several trees, one after another.
pub open spec fn forest_symbols(ns: Seq<SyntaxNode>, file: Seq<char>) -> Seq<SymbolView>
    decreases ns, 0int,
{
    if ns.len() == 0 {
        Seq::empty()
    } else {
        forest_symbols(ns.drop_last(), file) + tree_symbols(ns.last(), file)
    }
}

/// The first line of a text (see `first_line`).
fn first_line_of(t: &str) -> (r: String)
    ensures
        r@ == first_line(t@),
{
    let ls = text_lines(t);
    if ls.len() > 0 {
        string_from_chars(&ls[0])
    } else {
        String::new()
    }
}

/// Adds the symbols of a tree to `out` (see `tree_symbols`).
fn walk(node: &SyntaxNode, file: &str, out: &mut Vec<Symbol>)
    requires
        rows_within(*node, (u32::MAX - 1) as nat),
    ensures
        symbol_views(final(out)@) == symbol_views(old(out)@) + tree_symbols(*node, file@),
    decreases node,
{
    let ghost start = symbol_views(out@);
    let mut own: Option<Symbol> = None;
    match classify(node.kind.as_str()) {
        Some(k) => match &node.name {
            Some(Some(nm)) => {
                if !nm.as_str().is_empty() {
                    let sig = match &node.text {
                        Some(t) => first_line_of(t.as_str()),
                        None => String::new(),
                    };
                    own = Some(Symbol {
                        name: nm.clone(),
                        kind: k,
                        file: to_owned_string(file),
                        line: (node.start_row as u32) + 1,
                        end_line: (node.end_row as u32) + 1,
                        signature: sig,
                    });
                }
            },
            _ => {},
        },
        None => {},
    }
    match own {
        Some(s) => {
            let ghost sv = symbol_view(s);
            out.push(s);
            assert(symbol_views(out@) =~= start.push(sv));
        },
        None => {},
    }
    let ghost mid = symbol_views(out@);
    assert(mid == start + (match node_symbol(*node, file@) {
        Some(s) => seq![s],
        None => Seq::<SymbolView>::empty(),
    }));
    let ghost kids = node.children@;
    proof {
        lemma_rows_within_children(kids, (u32::MAX - 1) as nat);
    }
    let mut i: usize = 0;
    assert(kids.take(0) =~= Seq::<SyntaxNode>::empty());
    while i < node.children.len()
        invariant
            i <= node.children.len(),
            kids == node.children@,
            forall|j: int| 0 <= j < kids.len() ==> #[trigger] rows_within(kids[j], (u32::MAX - 1) as nat),
            symbol_views(out@) == mid + forest_symbols(kids.take(i as int), file@),
        decreases node.children.len() - i,
    {
        proof {
            assert(decreases_to!(node => node.children));
            assert(decreases_to!(node.children => node.children[i as int]));
            assert(rows_within(kids[i as int], (u32::MAX - 1) as nat));
        }
        walk(&node.children[i], file, out);
        assert(kids.take(i + 1).drop_last() =~= kids.take(i as int));
        i = i + 1;
    }
    assert(kids.take(i as int) =~= kids);
}

/// The symbols a source file defines: none when its extension has no
/// grammar or parsing fails; else those of its syntax tree.
pub open spec fn file_symbols(path: Seq<char>, source: Seq<char>, ext: Seq<char>) -> Seq<SymbolView> {
    match crate::index::language_of_ext(ext) {
        None => Seq::empty(),
        Some(lang) => match parsed_tree(lang, source) {
            None => Seq::empty(),
            Some(t) => tree_symbols(t, path),
        },
    }
}

/// The symbols a source file defines (see `file_symbols`).
pub fn parse_file(path: &str, source: &str, ext: &str) -> (r: Vec<Symbol>)
    requires
        source@.len() < u32::MAX,
    ensures
        symbol_views(r@) == file_symbols(path@, source@, ext@),
{
    let mut out: Vec<Symbol> = Vec::new();
    match language_for_ext(ext) {
        None => {
            assert(symbol_views(out@) =~= Seq::<SymbolView>::empty());
            out
        },
        Some(lang) => match parse_source(lang, source) {
            None => {
                assert(symbol_views(out@) =~= Seq::<SymbolView>::empty());
                out
            },
            Some(tree) => {
                proof {
                    lemma_rows_within_weaken(tree, source@.len(), (u32::MAX - 1) as nat);
                }
                assert(symbol_views(out@) =~= Seq::<SymbolView>::empty());
                walk(&tree, path, &mut out);
                assert(symbol_views(out@) =~= Seq::<SymbolView>::empty() + tree_symbols(tree, path@));
                out
            },
        },
    }
}

/// Each of several trees whose rows are within a bound has its rows within it.
proof fn lemma_rows_within_children(ns: Seq<SyntaxNode>, a: nat)
    requires
        forest_rows_within(ns, a),
    ensures
        forall|i: int| 0 <= i < ns.len() ==> #[trigger] rows_within(ns[i], a),
    decreases ns.len(),
{
    if ns.len() > 0 {
        lemma_rows_within_children(ns.drop_last(), a);
        assert forall|i: int| 0 <= i < ns.len() implies #[trigger] rows_within(ns[i], a) by {
            if i < ns.len() - 1 {
                assert(ns.drop_last()[i] == ns[i]);
            }
        }
    }
}

/// Rows within a bound are within any larger one.
proof fn lemma_rows_within_weaken(n: SyntaxNode, a: nat, b: nat)
    requires
        rows_within(n, a),
        a <= b,
    ensures
        rows_within(n, b),
    decreases n, 1int,
{
    lemma_forest_weaken(n.children@, a, b);
}

proof fn lemma_forest_weaken(ns: Seq<SyntaxNode>, a: nat, b: nat)
    requires
        forest_rows_within(ns, a),
        a <= b,
    ensures
        forest_rows_within(ns, b),
    decreases ns, 0int,
{
    if ns.len() > 0 {
        lemma_forest_weaken(ns.drop_last(), a, b);
        lemma_rows_within_weaken(ns.last(), a, b);
    }
}

} // verus!
