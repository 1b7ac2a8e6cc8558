//! Syntax trees: what the analyzer reads of a parsed source file, held as
//! plain values, and the tree-sitter parse that produces them.

use vstd::prelude::*;

use crate::language::{name_of, Language};

verus! {

#[verifier::external_type_specification]
#[verifier::external_body]
pub struct ExParser(tree_sitter::Parser);

#[verifier::external_type_specification]
#[verifier::external_body]
pub struct ExTree(tree_sitter::Tree);

#[verifier::external_type_specification]
#[verifier::external_body]
pub struct ExTreeCursor<'a>(tree_sitter::TreeCursor<'a>);

/// One node of a syntax tree, in the order of a preorder walk.
#[derive(Debug, Clone, PartialEq, Eq)]
pub struct SyntaxNode {
    /// The grammar's name for the node, such as `call_expression`.
    pub kind: String,
    /// Whether the node is named (not punctuation or a keyword).
    pub named: bool,
    /// The field of its parent under which the node stands, if any.
    pub field: Option<String>,
    /// Distance from the root; the root is at depth 0.
    pub depth: usize,
    /// Zero-based row of the node's first character.
    pub start_row: usize,
    /// Zero-based row of the node's last character.
    pub end_row: usize,
    /// Byte offset where the node starts in the source.
    pub start_byte: usize,
    /// Byte offset where the node ends in the source.
    pub end_byte: usize,
}

/// A syntax tree: its nodes in preorder, and for each node the index just
/// past its subtree.
#[derive(Debug, Clone)]
pub struct SyntaxTree {
    pub nodes: Vec<SyntaxNode>,
    pub ends: Vec<usize>,
}

/// Why a source could not be turned into a syntax tree.
#[derive(Debug, Clone, Copy, PartialEq, Eq, Structural)]
pub enum SyntaxError {
    /// The parser refused the language's grammar.
    GrammarUnavailable,
    /// The parser produced no tree.
    ParseFailed,
    /// The tree holds syntax errors.
    SyntaxErrors,
    /// The parser's tree had no nodes, or a row number at the limit of `usize`.
    Malformed,
}

impl SyntaxError {
    /// The message for this error on the file at `path`, of `language`.
    pub fn message(self, language: Language, path: &str) -> (r: String)
        ensures
            r@ == match self {
                SyntaxError::GrammarUnavailable => "failed to load "@ + name_of(language) + " grammar"@,
                SyntaxError::ParseFailed => "tree-sitter failed to parse "@ + path@,
                SyntaxError::SyntaxErrors => "syntax errors found in "@ + path@,
                SyntaxError::Malformed => "tree-sitter gave an unusable tree for "@ + path@,
            },
    {
        let mut r = String::new();
        match self {
            SyntaxError::GrammarUnavailable => {
                r.append("failed to load ");
                r.append(language.as_str());
                r.append(" grammar");
            },
            SyntaxError::ParseFailed => {
                r.append("tree-sitter failed to parse ");
                r.append(path);
            },
            SyntaxError::SyntaxErrors => {
                r.append("syntax errors found in ");
                r.append(path);
            },
            SyntaxError::Malformed => {
                r.append("tree-sitter gave an unusable tree for ");
                r.append(path);
            },
        }
        r
    }
}

/// `ends` holds, for each node, the index of the first later node that is no
/// deeper than it, or the number of nodes when there is none.
pub open spec fn ends_follow_depths(nodes: Seq<SyntaxNode>, ends: Seq<usize>) -> bool {
    &&& ends.len() == nodes.len()
    &&& forall|i: int|
        #![trigger ends[i]]
        0 <= i < nodes.len() ==> {
            &&& i < ends[i] <= nodes.len()
            &&& (forall|k: int| i < k < ends[i] ==> nodes[k].depth > nodes[i].depth)
            &&& (ends[i] < nodes.len() ==> nodes[ends[i] as int].depth <= nodes[i].depth)
        }
}

impl SyntaxTree {
    /// The tree has a root; each node's subtree is a range that starts at the
    /// node and holds the subtrees of the nodes inside it; rows leave room for
    /// one-based line numbers.
    pub open spec fn wf(self) -> bool {
        &&& self.nodes@.len() > 0
        &&& self.ends@.len() == self.nodes@.len()
        &&& forall|i: int|
            #![trigger self.ends@[i]]
            0 <= i < self.nodes@.len() ==> i < self.ends@[i] <= self.nodes@.len()
        &&& forall|i: int, j: int|
            #![trigger self.ends@[i], self.ends@[j]]
            0 <= i < j < self.ends@[i] && i < self.nodes@.len() ==> self.ends@[j] <= self.ends@[i]
        &&& forall|i: int|
            #![trigger self.nodes@[i]]
            0 <= i < self.nodes@.len() ==> self.nodes@[i].start_row < usize::MAX
                && self.nodes@[i].end_row < usize::MAX
    }

    /// Builds a tree from nodes in preorder with their depths; `None` when
    /// there are no nodes or a row is `usize::MAX`.
    pub fn from_nodes(nodes: Vec<SyntaxNode>) -> (r: Option<SyntaxTree>)
        ensures
            match r {
                Some(t) => t.wf() && t.nodes@ == nodes@ && ends_follow_depths(nodes@, t.ends@),
                None => nodes@.len() == 0 || exists|i: int|
                    0 <= i < nodes@.len() && (nodes@[i].start_row == usize::MAX
                        || nodes@[i].end_row == usize::MAX),
            },
    {
        let n = nodes.len();
        if n == 0 {
            return None;
        }
        let mut ends: Vec<usize> = Vec::new();
        let mut i: usize = 0;
        while i < n
            invariant
                n == nodes@.len(),
                i <= n,
                ends@.len() == i,
                forall|a: int|
                    #![trigger ends@[a]]
                    0 <= a < i ==> {
                        &&& a < ends@[a] <= n
                        &&& (forall|k: int| a < k < ends@[a] ==> nodes@[k].depth > nodes@[a].depth)
                        &&& (ends@[a] < n ==> nodes@[ends@[a] as int].depth <= nodes@[a].depth)
                    },
                forall|a: int| 0 <= a < i ==> nodes@[a].start_row < usize::MAX && nodes@[a].end_row < usize::MAX,
            decreases n - i,
        {
            if nodes[i].start_row == usize::MAX || nodes[i].end_row == usize::MAX {
                return None;
            }
            let d = nodes[i].depth;
            let mut j = i + 1;
            while j < n && nodes[j].depth > d
                invariant
                    n == nodes@.len(),
                    i < j <= n,
                    d == nodes@[i as int].depth,
                    forall|k: int| i < k < j ==> nodes@[k].depth > d,
                decreases n - j,
            {
                j = j + 1;
            }
            ends.push(j);
            i = i + 1;
        }
        let t = SyntaxTree { nodes, ends };
        assert forall|a: int, b: int|
            #![trigger t.ends@[a], t.ends@[b]]
            0 <= a < b < t.ends@[a] && a < t.nodes@.len() implies t.ends@[b] <= t.ends@[a] by {
            assert(t.nodes@[b].depth > t.nodes@[a].depth);
            if t.ends@[b] > t.ends@[a] && t.ends@[a] < n {
                assert(t.nodes@[t.ends@[a] as int].depth > t.nodes@[b].depth);
            }
        }
        assert forall|a: int|
            #![trigger t.nodes@[a]]
            0 <= a < t.nodes@.len() implies t.nodes@[a].start_row < usize::MAX
                && t.nodes@[a].end_row < usize::MAX by {}
        Some(t)
    }
}

/// Whether tree-sitter's parser accepts the grammar of `language`
/// (`Parser::set_language` with the grammar of tree-sitter-go or
/// tree-sitter-rust).
pub uninterp spec fn grammar_loads(language: Language) -> bool;

/// The nodes of tree-sitter's syntax tree for `source` under the grammar of
/// `language`, all of them (named or not) in preorder, read as
/// [`SyntaxNode`]s; `None` where the parser gives no tree.
pub uninterp spec fn parsed_nodes(language: Language, source: Seq<u8>) -> Option<Seq<SyntaxNode>>;

/// Whether tree-sitter's syntax tree for `source` under the grammar of
/// `language` holds a syntax error anywhere.
pub uninterp spec fn parse_has_error(language: Language, source: Seq<u8>) -> bool;

/// A tree-sitter parser together with the grammar it was given. Only
/// `set_grammar` builds one.
pub struct SourceParser {
    parser: tree_sitter::Parser,
    language: Language,
}

impl SourceParser {
    /// The language whose grammar the parser holds.
    pub closed spec fn grammar(&self) -> Language {
        self.language
    }
}

/// A tree-sitter syntax tree together with the grammar and the bytes it was
/// parsed from. Only `parse_bytes` builds one.
pub struct SourceTree {
    tree: tree_sitter::Tree,
    language: Language,
    source: Vec<u8>,
}

impl SourceTree {
    /// The language whose grammar the tree was parsed with.
    pub closed spec fn language(&self) -> Language {
        self.language
    }

    /// The bytes the tree was parsed from.
    pub closed spec fn source(&self) -> Seq<u8> {
        self.source@
    }
}

/// A tree-sitter cursor on a [`SourceTree`], rooted at the tree's root. Only
/// `tree_cursor` builds one.
pub struct SourceCursor<'a> {
    cursor: tree_sitter::TreeCursor<'a>,
    tree: &'a SourceTree,
}

impl<'a> SourceCursor<'a> {
    /// The language of the tree under the cursor.
    pub closed spec fn language(&self) -> Language {
        self.tree.language
    }

    /// The bytes of the tree under the cursor.
    pub closed spec fn source(&self) -> Seq<u8> {
        self.tree.source@
    }
}

/// A new tree-sitter parser (`tree_sitter::Parser::new`). The parser is
/// opaque here: nothing is stated of it.
#[verifier::external_body]
fn new_parser() -> tree_sitter::Parser {
    tree_sitter::Parser::new()
}

/// Gives the parser the grammar of `language` (`Parser::set_language`, with
/// the grammars of tree-sitter-go and tree-sitter-rust); `None` where the
/// parser refuses the grammar.
#[verifier::external_body]
fn set_grammar(parser: tree_sitter::Parser, language: Language) -> (r: Option<SourceParser>)
    ensures
        r is Some <==> grammar_loads(language),
        r matches Some(p) ==> p.grammar() == language,
{
    let mut parser = parser;
    let grammar: tree_sitter::Language = match language {
        Language::Go => tree_sitter_go::LANGUAGE.into(),
        Language::Rust => tree_sitter_rust::LANGUAGE.into(),
    };
    match parser.set_language(&grammar) {
        Ok(()) => Some(SourceParser { parser, language }),
        Err(_) => None,
    }
}

/// Parses source bytes (`Parser::parse` with no old tree); `None` where the
/// parser produces no tree. The tree keeps the grammar and the bytes.
#[verifier::external_body]
fn parse_bytes(parser: &mut SourceParser, source: &[u8]) -> (r: Option<SourceTree>)
    ensures
        r is Some <==> parsed_nodes(old(parser).grammar(), source@) is Some,
        r matches Some(t) ==> t.language() == old(parser).grammar() && t.source() == source@,
        final(parser).grammar() == old(parser).grammar(),
{
    match parser.parser.parse(source, None) {
        Some(tree) => Some(SourceTree { tree, language: parser.language, source: source.to_vec() }),
        None => None,
    }
}

/// Whether the tree holds a syntax error anywhere (`Node::has_error` of the
/// root).
#[verifier::external_body]
fn tree_has_error(tree: &SourceTree) -> (r: bool)
    ensures
        r == parse_has_error(tree.language(), tree.source()),
{
    tree.tree.root_node().has_error()
}

/// The number of nodes of the tree, the root included
/// (`Node::descendant_count` of the root).
#[verifier::external_body]
fn tree_node_count(tree: &SourceTree) -> (r: usize)
    ensures
        parsed_nodes(tree.language(), tree.source()) matches Some(ns) ==> r == ns.len(),
{
    tree.tree.root_node().descendant_count()
}

/// A cursor at the root of the tree (`Tree::walk`).
#[verifier::external_body]
fn tree_cursor<'a>(tree: &'a SourceTree) -> (r: SourceCursor<'a>)
    ensures
        r.language() == tree.language(),
        r.source() == tree.source(),
{
    SourceCursor { cursor: tree.tree.walk(), tree }
}

/// The node at `index` in preorder (`TreeCursor::goto_descendant`), as plain
/// values (`TreeCursor::node`, `field_name` and `depth`; `Node::kind`,
/// `is_named`, `start_position`, `end_position`, `start_byte` and
/// `end_byte`).
#[verifier::external_body]
fn cursor_node(cursor: &mut SourceCursor, index: usize) -> (r: SyntaxNode)
    requires
        parsed_nodes(old(cursor).language(), old(cursor).source()) matches Some(ns) && index < ns.len(),
    ensures
        r == parsed_nodes(old(cursor).language(), old(cursor).source())->0[index as int],
        final(cursor).language() == old(cursor).language(),
        final(cursor).source() == old(cursor).source(),
{
    cursor.cursor.goto_descendant(index);
    let node = cursor.cursor.node();
    SyntaxNode {
        kind: node.kind().to_string(),
        named: node.is_named(),
        field: cursor.cursor.field_name().map(String::from),
        depth: cursor.cursor.depth() as usize,
        start_row: node.start_position().row,
        end_row: node.end_position().row,
        start_byte: node.start_byte(),
        end_byte: node.end_byte(),
    }
}

/// The nodes leave room for a tree: there is at least one, and no row is
/// at the limit of `usize`.
pub open spec fn usable_nodes(ns: Seq<SyntaxNode>) -> bool {
    &&& ns.len() > 0
    &&& forall|i: int| 0 <= i < ns.len() ==> ns[i].start_row < usize::MAX && ns[i].end_row < usize::MAX
}

/// What parsing `source` with the grammar of `language` gives: the parser's
/// nodes, or why there is no usable tree.
pub open spec fn parse_outcome(language: Language, source: Seq<u8>) -> Result<Seq<SyntaxNode>, SyntaxError> {
    if !grammar_loads(language) {
        Err(SyntaxError::GrammarUnavailable)
    } else {
        match parsed_nodes(language, source) {
            None => Err(SyntaxError::ParseFailed),
            Some(ns) => if parse_has_error(language, source) {
                Err(SyntaxError::SyntaxErrors)
            } else if !usable_nodes(ns) {
                Err(SyntaxError::Malformed)
            } else {
                Ok(ns)
            },
        }
    }
}

/// Parses a source file with the grammar of its language. The tree is the
/// parser's, node for node in preorder; it is refused where the grammar
/// does not load, the parser gives no tree, or the tree holds a syntax
/// error.
pub fn parse_syntax(language: Language, source: &[u8]) -> (r: Result<SyntaxTree, SyntaxError>)
    ensures
        match parse_outcome(language, source@) {
            Ok(ns) => r matches Ok(t) && t.wf() && t.nodes@ == ns && ends_follow_depths(ns, t.ends@),
            Err(e) => r == Err::<SyntaxTree, SyntaxError>(e),
        },
{
    let mut parser = match set_grammar(new_parser(), language) {
        Some(p) => p,
        None => {
            return Err(SyntaxError::GrammarUnavailable);
        },
    };
    let tree = match parse_bytes(&mut parser, source) {
        Some(tree) => tree,
        None => {
            return Err(SyntaxError::ParseFailed);
        },
    };
    if tree_has_error(&tree) {
        return Err(SyntaxError::SyntaxErrors);
    }
    let count = tree_node_count(&tree);
    let ghost ns = parsed_nodes(language, source@)->0;
    let mut cursor = tree_cursor(&tree);
    let mut nodes: Vec<SyntaxNode> = Vec::new();
    let mut i: usize = 0;
    while i < count
        invariant
            i <= count,
            count == ns.len(),
            parsed_nodes(language, source@) == Some(ns),
            cursor.language() == language,
            cursor.source() == source@,
            nodes@ == ns.take(i as int),
        decreases count - i,
    {
        let node = cursor_node(&mut cursor, i);
        nodes.push(node);
        i = i + 1;
        assert(nodes@ =~= ns.take(i as int));
    }
    assert(nodes@ =~= ns);
    match SyntaxTree::from_nodes(nodes) {
        Some(t) => Ok(t),
        None => Err(SyntaxError::Malformed),
    }
}

} // verus!
