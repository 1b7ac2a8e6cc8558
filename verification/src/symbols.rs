//! What a syntax tree holds for the call graph: function definitions and
//! call sites, with the name that each call refers to.

use vstd::prelude::*;

use crate::analysis_options::AnalysisOptions;
use crate::language::Language;
use crate::model::CallKind;
use crate::syntax::{SyntaxNode, SyntaxTree};
use crate::text::{chars_of, contains_text, text_contains, text_equals, utf8_str};

verus! {

/// A function definition: the file, the one-based line and the name.
pub struct KeyModel {
    pub file: Seq<char>,
    pub line: int,
    pub name: Seq<char>,
}

/// A call site: the function it stands in, the simple name it calls, where
/// it is, and its syntax category.
pub struct SiteModel {
    pub caller: KeyModel,
    pub callee_name: Seq<char>,
    pub file: Seq<char>,
    pub line: int,
    pub kind: CallKind,
}

/// A function definition found in a file.
#[derive(Debug, Clone, PartialEq, Eq)]
pub struct FunctionKey {
    pub file: String,
    pub line: usize,
    pub name: String,
}

impl View for FunctionKey {
    type V = KeyModel;

    open spec fn view(&self) -> KeyModel {
        KeyModel { file: self.file@, line: self.line as int, name: self.name@ }
    }
}

impl FunctionKey {
    /// A copy of the key.
    pub fn duplicate(&self) -> (r: FunctionKey)
        ensures
            r@ == self@,
    {
        FunctionKey { file: self.file.clone(), line: self.line, name: self.name.clone() }
    }
}

/// A call found in a file, not yet resolved to a function.
#[derive(Debug, Clone, PartialEq, Eq)]
pub struct CallSite {
    pub caller: FunctionKey,
    pub callee_name: String,
    pub file: String,
    pub line: usize,
    pub kind: CallKind,
}

impl View for CallSite {
    type V = SiteModel;

    open spec fn view(&self) -> SiteModel {
        SiteModel {
            caller: self.caller@,
            callee_name: self.callee_name@,
            file: self.file@,
            line: self.line as int,
            kind: self.kind,
        }
    }
}

/// The definitions and call sites of one file, in the order of a preorder
/// walk of its syntax tree.
#[derive(Debug, Clone, PartialEq, Eq)]
pub struct ParsedFile {
    pub definitions: Vec<FunctionKey>,
    pub call_sites: Vec<CallSite>,
}

/// The views of a list of definitions.
pub open spec fn key_models(keys: Seq<FunctionKey>) -> Seq<KeyModel> {
    keys.map_values(|k: FunctionKey| k@)
}

/// The views of a list of call sites.
pub open spec fn site_models(sites: Seq<CallSite>) -> Seq<SiteModel> {
    sites.map_values(|s: CallSite| s@)
}

/// Node `i` of a tree.
pub open spec fn node(t: SyntaxTree, i: usize) -> SyntaxNode {
    t.nodes@[i as int]
}

/// The index just past the subtree of node `i`.
pub open spec fn end(t: SyntaxTree, i: usize) -> usize {
    t.ends@[i as int]
}

/// Node `c` is a descendant of node `i`: its subtree starts inside that of
/// `i` and ends there too.
pub open spec fn within(t: SyntaxTree, i: usize, c: usize) -> bool {
    &&& i < t.nodes@.len()
    &&& t.ends@.len() == t.nodes@.len()
    &&& i < c < end(t, i) <= t.nodes@.len()
    &&& c < end(t, c) <= end(t, i)
}

/// The named children of `parent` from child `c` on.
pub open spec fn named_run(t: SyntaxTree, parent: usize, c: usize) -> Seq<usize>
    decreases end(t, parent) - c,
{
    if within(t, parent, c) {
        (if node(t, c).named {
            seq![c]
        } else {
            seq![]
        }) + named_run(t, parent, end(t, c))
    } else {
        seq![]
    }
}

/// The named children of node `i`, in order.
pub open spec fn named_children(t: SyntaxTree, i: usize) -> Seq<usize> {
    named_run(t, i, (i + 1) as usize)
}

/// The first child of `parent`, from child `c` on, that stands under field `f`.
pub open spec fn field_run(t: SyntaxTree, parent: usize, c: usize, f: Seq<char>) -> Option<usize>
    decreases end(t, parent) - c,
{
    if within(t, parent, c) {
        if node(t, c).field matches Some(x) && x@ == f {
            Some(c)
        } else {
            field_run(t, parent, end(t, c), f)
        }
    } else {
        None
    }
}

/// The first child of node `i` under field `f`.
pub open spec fn field_child(t: SyntaxTree, i: usize, f: Seq<char>) -> Option<usize> {
    field_run(t, i, (i + 1) as usize, f)
}

/// The source text of a node, where its bytes are valid UTF-8.
pub open spec fn node_text(t: SyntaxTree, src: Seq<u8>, i: usize) -> Option<Seq<char>> {
    let n = node(t, i);
    if n.start_byte <= n.end_byte <= src.len() && vstd::utf8::valid_utf8(
        src.subrange(n.start_byte as int, n.end_byte as int),
    ) {
        Some(vstd::utf8::decode_utf8(src.subrange(n.start_byte as int, n.end_byte as int)))
    } else {
        None
    }
}

/// The node's kind is `k`.
pub open spec fn kind_is(t: SyntaxTree, i: usize, k: &str) -> bool {
    node(t, i).kind@ == k@
}

/// The simple name that an expression ends in: an identifier itself; the
/// function of a generic function; the name of a path; the field of a field
/// access (for paths and fields, the last named child where the field has
/// none); the only named child of anything else.
pub open spec fn terminal_name(t: SyntaxTree, src: Seq<u8>, i: usize) -> Option<Seq<char>>
    decreases end(t, i) - i,
{
    if !(i < t.nodes@.len()) {
        None
    } else if kind_is(t, i, "identifier") || kind_is(t, i, "field_identifier") {
        node_text(t, src, i)
    } else if kind_is(t, i, "generic_function") {
        match field_child(t, i, "function"@) {
            Some(c) => if within(t, i, c) {
                terminal_name(t, src, c)
            } else {
                None
            },
            None => None,
        }
    } else if kind_is(t, i, "scoped_identifier") || kind_is(t, i, "selector_expression")
        || kind_is(t, i, "field_expression") {
        let f = if kind_is(t, i, "scoped_identifier") {
            "name"@
        } else {
            "field"@
        };
        let via_field = match field_child(t, i, f) {
            Some(c) => if within(t, i, c) {
                terminal_name(t, src, c)
            } else {
                None
            },
            None => None,
        };
        match via_field {
            Some(name) => Some(name),
            None => {
                let nc = named_children(t, i);
                if nc.len() > 0 && within(t, i, nc.last()) {
                    terminal_name(t, src, nc.last())
                } else {
                    None
                }
            },
        }
    } else {
        let nc = named_children(t, i);
        if nc.len() == 1 && within(t, i, nc[0]) {
            terminal_name(t, src, nc[0])
        } else {
            None
        }
    }
}

/// The syntax category of the callee expression of a call.
pub open spec fn function_kind(t: SyntaxTree, c: usize) -> CallKind {
    if kind_is(t, c, "identifier") {
        CallKind::Direct
    } else if kind_is(t, c, "selector_expression") || kind_is(t, c, "field_expression") {
        CallKind::Method
    } else if kind_is(t, c, "scoped_identifier") {
        CallKind::Associated
    } else if kind_is(t, c, "generic_function") {
        match field_child(t, c, "function"@) {
            Some(g) => if kind_is(t, g, "identifier") {
                CallKind::Direct
            } else if kind_is(t, g, "scoped_identifier") {
                CallKind::Associated
            } else {
                CallKind::Unknown
            },
            None => CallKind::Unknown,
        }
    } else {
        CallKind::Unknown
    }
}

/// The syntax category of a call expression.
pub open spec fn call_kind(t: SyntaxTree, i: usize) -> CallKind {
    match field_child(t, i, "function"@) {
        Some(c) => function_kind(t, c),
        None => CallKind::Unknown,
    }
}

/// The simple name that a call expression calls.
pub open spec fn call_name(t: SyntaxTree, src: Seq<u8>, i: usize) -> Option<Seq<char>> {
    match field_child(t, i, "function"@) {
        Some(c) => terminal_name(t, src, c),
        None => None,
    }
}

/// The node defines a function or method in `language`.
pub open spec fn is_function_definition(language: Language, t: SyntaxTree, i: usize) -> bool {
    match language {
        Language::Go => kind_is(t, i, "function_declaration") || kind_is(t, i, "method_declaration"),
        Language::Rust => kind_is(t, i, "function_item"),
    }
}

/// The name of a definition: the text of its `name` field.
pub open spec fn definition_name(t: SyntaxTree, src: Seq<u8>, i: usize) -> Option<Seq<char>> {
    match field_child(t, i, "name"@) {
        Some(c) => node_text(t, src, c),
        None => None,
    }
}

/// The node is an attribute whose text mentions `cfg(test)`.
pub open spec fn is_test_attribute(t: SyntaxTree, src: Seq<u8>, i: usize) -> bool {
    &&& kind_is(t, i, "attribute_item")
    &&& node_text(t, src, i) matches Some(text) && contains_text(text, "cfg(test)"@)
}

/// Among the leading attributes in `cs` (the run of attribute items it
/// starts with), one mentions `cfg(test)`.
pub open spec fn leading_test_attribute(t: SyntaxTree, src: Seq<u8>, cs: Seq<usize>) -> bool
    decreases cs.len(),
{
    if cs.len() == 0 {
        false
    } else if is_test_attribute(t, src, cs[0]) {
        true
    } else if !kind_is(t, cs[0], "attribute_item") {
        false
    } else {
        leading_test_attribute(t, src, cs.drop_first())
    }
}

/// The node is a comment.
pub open spec fn is_comment(t: SyntaxTree, i: usize) -> bool {
    kind_is(t, i, "line_comment") || kind_is(t, i, "block_comment")
}

/// Among the attribute items right before a node (its previous named
/// siblings `prevs`, nearest first, up to the first that is neither an
/// attribute item nor a comment), one mentions `cfg(test)`.
pub open spec fn preceding_test_attribute(t: SyntaxTree, src: Seq<u8>, prevs: Seq<usize>) -> bool
    decreases prevs.len(),
{
    if prevs.len() == 0 {
        false
    } else if is_test_attribute(t, src, prevs[0]) {
        true
    } else if !kind_is(t, prevs[0], "attribute_item") && !is_comment(t, prevs[0]) {
        false
    } else {
        preceding_test_attribute(t, src, prevs.drop_first())
    }
}

/// The node carries a `cfg(test)` attribute, inside it or right before it.
pub open spec fn has_test_attribute(t: SyntaxTree, src: Seq<u8>, i: usize, prevs: Seq<usize>) -> bool {
    leading_test_attribute(t, src, named_children(t, i)) || preceding_test_attribute(t, src, prevs)
}

/// The definitions and call sites found under node `i`, whose previous
/// named siblings are `prevs` (nearest first), inside function `current`.
/// Rust items under `cfg(test)` are left out when tests are excluded.
pub open spec fn node_symbols(
    t: SyntaxTree,
    src: Seq<u8>,
    language: Language,
    file: Seq<char>,
    include_tests: bool,
    i: usize,
    prevs: Seq<usize>,
    current: Option<KeyModel>,
) -> (Seq<KeyModel>, Seq<SiteModel>)
    decreases end(t, i) - i, 1int, 0int,
{
    if !(i < t.nodes@.len()) {
        (seq![], seq![])
    } else if !include_tests && language == Language::Rust && has_test_attribute(t, src, i, prevs) {
        (seq![], seq![])
    } else {
        let line = node(t, i).start_row + 1;
        let def = if is_function_definition(language, t, i) {
            match definition_name(t, src, i) {
                Some(name) => Some(KeyModel { file, line, name }),
                None => None,
            }
        } else {
            None
        };
        let active = match def {
            Some(k) => Some(k),
            None => current,
        };
        let own_defs = match def {
            Some(k) => seq![k],
            None => seq![],
        };
        let own_sites = if kind_is(t, i, "call_expression") {
            match (active, call_name(t, src, i)) {
                (Some(caller), Some(callee_name)) => seq![
                    SiteModel { caller, callee_name, file, line, kind: call_kind(t, i) },
                ],
                _ => seq![],
            }
        } else {
            seq![]
        };
        let rest = children_symbols(
            t,
            src,
            language,
            file,
            include_tests,
            i,
            named_children(t, i),
            0,
            active,
        );
        (own_defs + rest.0, own_sites + rest.1)
    }
}

/// The definitions and call sites under the named children `named[k..]` of
/// `parent`, inside function `active`.
pub open spec fn children_symbols(
    t: SyntaxTree,
    src: Seq<u8>,
    language: Language,
    file: Seq<char>,
    include_tests: bool,
    parent: usize,
    named: Seq<usize>,
    k: int,
    active: Option<KeyModel>,
) -> (Seq<KeyModel>, Seq<SiteModel>)
    decreases end(t, parent) - parent, 0int, named.len() - k,
{
    if !(0 <= k < named.len()) {
        (seq![], seq![])
    } else if !within(t, parent, named[k]) {
        (seq![], seq![])
    } else {
        let first = node_symbols(
            t,
            src,
            language,
            file,
            include_tests,
            named[k],
            named.take(k).reverse(),
            active,
        );
        let rest = children_symbols(t, src, language, file, include_tests, parent, named, k + 1, active);
        (first.0 + rest.0, first.1 + rest.1)
    }
}

/// The definitions and call sites of a whole file.
pub open spec fn file_symbols(
    t: SyntaxTree,
    src: Seq<u8>,
    language: Language,
    file: Seq<char>,
    include_tests: bool,
) -> (Seq<KeyModel>, Seq<SiteModel>) {
    node_symbols(t, src, language, file, include_tests, 0, seq![], None)
}

/// The view of the function that a node stands in.
pub open spec fn current_model(current: Option<&FunctionKey>) -> Option<KeyModel> {
    match current {
        Some(k) => Some(k@),
        None => None,
    }
}

fn is_within(t: &SyntaxTree, i: usize, c: usize) -> (r: bool)
    ensures
        r == within(*t, i, c),
{
    i < t.nodes.len() && t.ends.len() == t.nodes.len() && i < c && c < t.ends[i] && t.ends[i]
        <= t.nodes.len() && c < t.ends[c] && t.ends[c] <= t.ends[i]
}

fn kind_is_of(t: &SyntaxTree, i: usize, k: &str) -> (r: bool)
    requires
        i < t.nodes@.len(),
    ensures
        r == kind_is(*t, i, k),
{
    text_equals(t.nodes[i].kind.as_str(), k)
}

/// The named children of node `i`.
pub fn named_children_of(t: &SyntaxTree, i: usize) -> (r: Vec<usize>)
    requires
        i < t.nodes@.len(),
    ensures
        r@ == named_children(*t, i),
{
    let mut out: Vec<usize> = Vec::new();
    let n = t.nodes.len();
    assert(i < n);
    let mut c = i + 1;
    while is_within(t, i, c)
        invariant
            i < t.nodes@.len(),
            i < c,
            out@ + named_run(*t, i, c) == named_children(*t, i),
        decreases end(*t, i) - c,
    {
        if t.nodes[c].named {
            out.push(c);
            assert(out@ + named_run(*t, i, t.ends@[c as int]) =~= named_children(*t, i));
        } else {
            assert(out@ + named_run(*t, i, t.ends@[c as int]) =~= named_children(*t, i));
        }
        c = t.ends[c];
    }
    assert(out@ =~= named_children(*t, i));
    out
}

/// The first child of node `i` under field `f`.
pub fn field_child_of(t: &SyntaxTree, i: usize, f: &str) -> (r: Option<usize>)
    requires
        i < t.nodes@.len(),
    ensures
        r == field_child(*t, i, f@),
{
    let n = t.nodes.len();
    assert(i < n);
    let mut c = i + 1;
    while is_within(t, i, c)
        invariant
            i < t.nodes@.len(),
            i < c,
            field_run(*t, i, c, f@) == field_child(*t, i, f@),
        decreases end(*t, i) - c,
    {
        let matches = match &t.nodes[c].field {
            Some(x) => text_equals(x.as_str(), f),
            None => false,
        };
        if matches {
            return Some(c);
        }
        c = t.ends[c];
    }
    None
}

/// The source text of node `i`, where its bytes are valid UTF-8.
pub fn node_text_of(t: &SyntaxTree, src: &[u8], i: usize) -> (r: Option<String>)
    requires
        i < t.nodes@.len(),
    ensures
        match r {
            Some(s) => node_text(*t, src@, i) == Some(s@),
            None => node_text(*t, src@, i) is None,
        },
{
    let from = t.nodes[i].start_byte;
    let to = t.nodes[i].end_byte;
    if !(from <= to && to <= src.len()) {
        return None;
    }
    let mut bytes: Vec<u8> = Vec::new();
    let mut k = from;
    while k < to
        invariant
            from <= k <= to <= src@.len(),
            bytes@ == src@.subrange(from as int, k as int),
        decreases to - k,
    {
        bytes.push(src[k]);
        k = k + 1;
        assert(bytes@ =~= src@.subrange(from as int, k as int));
    }
    match utf8_str(bytes.as_slice()) {
        Some(text) => Some(String::from_str(text)),
        None => None,
    }
}

fn text_field_child(t: &SyntaxTree, src: &[u8], i: usize, f: &str) -> (r: Option<String>)
    requires
        i < t.nodes@.len(),
    ensures
        match r {
            Some(s) => field_child(*t, i, f@) matches Some(c) && terminal_name(*t, src@, c) == Some(s@)
                && within(*t, i, c),
            None => field_child(*t, i, f@) matches Some(c) ==> (!within(*t, i, c) || terminal_name(
                *t,
                src@,
                c,
            ) is None),
        },
    decreases end(*t, i) - i, 0int,
{
    match field_child_of(t, i, f) {
        Some(c) => if is_within(t, i, c) {
            terminal_name_of(t, src, c)
        } else {
            None
        },
        None => None,
    }
}

/// The simple name that the expression at node `i` ends in.
pub fn terminal_name_of(t: &SyntaxTree, src: &[u8], i: usize) -> (r: Option<String>)
    ensures
        match r {
            Some(s) => terminal_name(*t, src@, i) == Some(s@),
            None => terminal_name(*t, src@, i) is None,
        },
    decreases end(*t, i) - i, 1int,
{
    if i >= t.nodes.len() {
        return None;
    }
    if kind_is_of(t, i, "identifier") || kind_is_of(t, i, "field_identifier") {
        return node_text_of(t, src, i);
    }
    if kind_is_of(t, i, "generic_function") {
        return text_field_child(t, src, i, "function");
    }
    let scoped = kind_is_of(t, i, "scoped_identifier");
    if scoped || kind_is_of(t, i, "selector_expression") || kind_is_of(t, i, "field_expression") {
        let via_field = if scoped {
            text_field_child(t, src, i, "name")
        } else {
            text_field_child(t, src, i, "field")
        };
        match via_field {
            Some(name) => {
                return Some(name);
            },
            None => {
                let nc = named_children_of(t, i);
                if nc.len() > 0 && is_within(t, i, nc[nc.len() - 1]) {
                    return terminal_name_of(t, src, nc[nc.len() - 1]);
                }
                return None;
            },
        }
    }
    let nc = named_children_of(t, i);
    if nc.len() == 1 && is_within(t, i, nc[0]) {
        terminal_name_of(t, src, nc[0])
    } else {
        None
    }
}

/// The syntax category of a call expression.
pub fn call_kind_of(t: &SyntaxTree, i: usize) -> (r: CallKind)
    requires
        i < t.nodes@.len(),
    ensures
        r == call_kind(*t, i),
{
    let c = match field_child_of(t, i, "function") {
        Some(c) => c,
        None => {
            return CallKind::Unknown;
        },
    };
    proof {
        lemma_field_run_inside(*t, i, (i + 1) as usize, "function"@);
    }
    if kind_is_of(t, c, "identifier") {
        CallKind::Direct
    } else if kind_is_of(t, c, "selector_expression") || kind_is_of(t, c, "field_expression") {
        CallKind::Method
    } else if kind_is_of(t, c, "scoped_identifier") {
        CallKind::Associated
    } else if kind_is_of(t, c, "generic_function") {
        match field_child_of(t, c, "function") {
            Some(g) => {
                proof {
                    lemma_field_run_inside(*t, c, (c + 1) as usize, "function"@);
                }
                if kind_is_of(t, g, "identifier") {
                    CallKind::Direct
                } else if kind_is_of(t, g, "scoped_identifier") {
                    CallKind::Associated
                } else {
                    CallKind::Unknown
                }
            },
            None => CallKind::Unknown,
        }
    } else {
        CallKind::Unknown
    }
}

/// A child found under a field is a node of the tree.
pub proof fn lemma_field_run_inside(t: SyntaxTree, parent: usize, c: usize, f: Seq<char>)
    ensures
        field_run(t, parent, c, f) matches Some(x) ==> within(t, parent, x) && x < t.nodes@.len(),
    decreases end(t, parent) - c,
{
    if within(t, parent, c) {
        lemma_field_run_inside(t, parent, end(t, c), f);
    }
}

/// The simple name that a call expression calls.
pub fn call_name_of(t: &SyntaxTree, src: &[u8], i: usize) -> (r: Option<String>)
    requires
        i < t.nodes@.len(),
    ensures
        match r {
            Some(s) => call_name(*t, src@, i) == Some(s@),
            None => call_name(*t, src@, i) is None,
        },
{
    match field_child_of(t, i, "function") {
        Some(c) => terminal_name_of(t, src, c),
        None => None,
    }
}

/// The name of a definition.
pub fn definition_name_of(t: &SyntaxTree, src: &[u8], i: usize) -> (r: Option<String>)
    requires
        i < t.nodes@.len(),
    ensures
        match r {
            Some(s) => definition_name(*t, src@, i) == Some(s@),
            None => definition_name(*t, src@, i) is None,
        },
{
    match field_child_of(t, i, "name") {
        Some(c) => {
            proof {
                lemma_field_run_inside(*t, i, (i + 1) as usize, "name"@);
            }
            node_text_of(t, src, c)
        },
        None => None,
    }
}

/// Whether node `i` defines a function or method in `language`.
pub fn is_function_definition_of(language: Language, t: &SyntaxTree, i: usize) -> (r: bool)
    requires
        i < t.nodes@.len(),
    ensures
        r == is_function_definition(language, *t, i),
{
    match language {
        Language::Go => kind_is_of(t, i, "function_declaration") || kind_is_of(t, i, "method_declaration"),
        Language::Rust => kind_is_of(t, i, "function_item"),
    }
}

fn is_test_attribute_of(t: &SyntaxTree, src: &[u8], i: usize) -> (r: bool)
    requires
        i < t.nodes@.len(),
    ensures
        r == is_test_attribute(*t, src@, i),
{
    if !kind_is_of(t, i, "attribute_item") {
        return false;
    }
    match node_text_of(t, src, i) {
        Some(text) => {
            let hay = chars_of(text.as_str());
            let needle = chars_of("cfg(test)");
            text_contains(&hay, &needle)
        },
        None => false,
    }
}

/// Whether node `i`, whose previous named siblings are `named[..k]`, carries
/// a `cfg(test)` attribute inside it or right before it.
fn has_test_attribute_of(t: &SyntaxTree, src: &[u8], i: usize, named: &Vec<usize>, k: usize) -> (r: bool)
    requires
        t.wf(),
        i < t.nodes@.len(),
        k <= named@.len(),
        forall|j: int| 0 <= j < named@.len() ==> named@[j] < t.nodes@.len(),
    ensures
        r == has_test_attribute(*t, src@, i, named@.take(k as int).reverse()),
{
    let children = named_children_of(t, i);
    proof {
        lemma_named_run_inside(*t, i, (i + 1) as usize);
    }
    let mut a: usize = 0;
    assert(children@.skip(0) =~= children@);
    while a < children.len()
        invariant
            t.wf(),
            k <= named@.len(),
            forall|x: int| 0 <= x < named@.len() ==> named@[x] < t.nodes@.len(),
            i < t.nodes@.len(),
            children@ == named_children(*t, i),
            forall|j: int| 0 <= j < children@.len() ==> children@[j] < t.nodes@.len(),
            a <= children.len(),
            leading_test_attribute(*t, src@, children@) == leading_test_attribute(*t, src@, children@.skip(a as int)),
        decreases children.len() - a,
    {
        let c = children[a];
        assert(children@.skip(a as int)[0] == c);
        if is_test_attribute_of(t, src, c) {
            return true;
        }
        if !kind_is_of(t, c, "attribute_item") {
            return preceding_test_attribute_of(t, src, named, k);
        }
        assert(children@.skip(a as int).drop_first() =~= children@.skip(a + 1));
        a = a + 1;
    }
    assert(children@.skip(a as int) =~= Seq::<usize>::empty());
    preceding_test_attribute_of(t, src, named, k)
}

fn preceding_test_attribute_of(t: &SyntaxTree, src: &[u8], named: &Vec<usize>, k: usize) -> (r: bool)
    requires
        t.wf(),
        k <= named@.len(),
        forall|j: int| 0 <= j < named@.len() ==> named@[j] < t.nodes@.len(),
    ensures
        r == preceding_test_attribute(*t, src@, named@.take(k as int).reverse()),
{
    let mut j = k;
    while j > 0
        invariant
            t.wf(),
            j <= k <= named@.len(),
            forall|x: int| 0 <= x < named@.len() ==> named@[x] < t.nodes@.len(),
            preceding_test_attribute(*t, src@, named@.take(k as int).reverse())
                == preceding_test_attribute(*t, src@, named@.take(j as int).reverse()),
        decreases j,
    {
        let s = named[j - 1];
        let ghost prevs = named@.take(j as int).reverse();
        assert(prevs[0] == s);
        assert(prevs.drop_first() =~= named@.take(j - 1).reverse());
        if is_test_attribute_of(t, src, s) {
            return true;
        }
        if !kind_is_of(t, s, "attribute_item") && !kind_is_of(t, s, "line_comment") && !kind_is_of(t, s, "block_comment") {
            return false;
        }
        j = j - 1;
    }
    assert(named@.take(0).reverse() =~= Seq::<usize>::empty());
    false
}

/// Every named child is a node of the tree, inside its parent.
pub proof fn lemma_named_run_inside(t: SyntaxTree, parent: usize, c: usize)
    ensures
        forall|j: int| 0 <= j < named_run(t, parent, c).len() ==> within(t, parent, #[trigger] named_run(t, parent, c)[j])
            && named_run(t, parent, c)[j] < t.nodes@.len(),
    decreases end(t, parent) - c,
{
    if within(t, parent, c) {
        lemma_named_run_inside(t, parent, end(t, c));
        let rest = named_run(t, parent, end(t, c));
        let head: Seq<usize> = if node(t, c).named { seq![c] } else { seq![] };
        assert forall|j: int| 0 <= j < named_run(t, parent, c).len() implies within(t, parent, #[trigger] named_run(t, parent, c)[j])
            && named_run(t, parent, c)[j] < t.nodes@.len() by {
            if j >= head.len() {
                assert(named_run(t, parent, c)[j] == rest[j - head.len()]);
            }
        }
    }
}

/// Collects the definitions and call sites under node `i`, whose previous
/// named siblings are `siblings[..k]`, inside function `current`.
fn collect_node(
    t: &SyntaxTree,
    src: &[u8],
    language: Language,
    file: &str,
    include_tests: bool,
    i: usize,
    siblings: &Vec<usize>,
    k: usize,
    current: Option<&FunctionKey>,
    parsed: &mut ParsedFile,
)
    requires
        t.wf(),
        k <= siblings@.len(),
        forall|x: int| 0 <= x < siblings@.len() ==> siblings@[x] < t.nodes@.len(),
    ensures
        key_models(final(parsed).definitions@) == key_models(old(parsed).definitions@) + node_symbols(
            *t,
            src@,
            language,
            file@,
            include_tests,
            i,
            siblings@.take(k as int).reverse(),
            current_model(current),
        ).0,
        site_models(final(parsed).call_sites@) == site_models(old(parsed).call_sites@) + node_symbols(
            *t,
            src@,
            language,
            file@,
            include_tests,
            i,
            siblings@.take(k as int).reverse(),
            current_model(current),
        ).1,
    decreases end(*t, i) - i, 1int, 0int,
{
    let ghost prevs = siblings@.take(k as int).reverse();
    let ghost spec = node_symbols(*t, src@, language, file@, include_tests, i, prevs, current_model(current));
    if i >= t.nodes.len() {
        assert(key_models(parsed.definitions@) + spec.0 =~= key_models(parsed.definitions@));
        assert(site_models(parsed.call_sites@) + spec.1 =~= site_models(parsed.call_sites@));
        return;
    }
    if !include_tests && language == Language::Rust && has_test_attribute_of(t, src, i, siblings, k) {
        assert(key_models(parsed.definitions@) + spec.0 =~= key_models(parsed.definitions@));
        assert(site_models(parsed.call_sites@) + spec.1 =~= site_models(parsed.call_sites@));
        return;
    }
    let ghost old_defs = key_models(parsed.definitions@);
    let ghost old_sites = site_models(parsed.call_sites@);
    let line = t.nodes[i].start_row + 1;
    let def: Option<FunctionKey> = if is_function_definition_of(language, t, i) {
        match definition_name_of(t, src, i) {
            Some(name) => Some(FunctionKey { file: String::from_str(file), line, name }),
            None => None,
        }
    } else {
        None
    };
    let ghost def_model: Option<KeyModel> = match &def {
        Some(d) => Some(d@),
        None => None,
    };
    let ghost own_defs: Seq<KeyModel> = match def_model {
        Some(d) => seq![d],
        None => seq![],
    };
    match &def {
        Some(d) => {
            parsed.definitions.push(d.duplicate());
        },
        None => {},
    }
    assert(key_models(parsed.definitions@) =~= old_defs + own_defs);
    let active: Option<&FunctionKey> = match &def {
        Some(d) => Some(d),
        None => current,
    };
    let ghost active_model = current_model(active);
    assert(active_model == match def_model {
        Some(d) => Some(d),
        None => current_model(current),
    });
    if kind_is_of(t, i, "call_expression") {
        match active {
            Some(caller) => match call_name_of(t, src, i) {
                Some(callee_name) => {
                    let site = CallSite {
                        caller: caller.duplicate(),
                        callee_name,
                        file: String::from_str(file),
                        line,
                        kind: call_kind_of(t, i),
                    };
                    parsed.call_sites.push(site);
                },
                None => {},
            },
            None => {},
        }
    }
    let ghost own_sites = site_models(parsed.call_sites@).subrange(old_sites.len() as int, site_models(parsed.call_sites@).len() as int);
    assert(site_models(parsed.call_sites@) =~= old_sites + own_sites);
    let named = named_children_of(t, i);
    proof {
        lemma_named_run_inside(*t, i, (i + 1) as usize);
    }
    let ghost all = children_symbols(*t, src@, language, file@, include_tests, i, named@, 0, active_model);
    assert(spec.0 == own_defs + all.0);
    assert(spec.1 == own_sites + all.1);
    let mut a: usize = 0;
    while a < named.len()
        invariant
            t.wf(),
            i < t.nodes@.len(),
            named@ == named_children(*t, i),
            forall|j: int| 0 <= j < named@.len() ==> within(*t, i, #[trigger] named@[j]) && named@[j] < t.nodes@.len(),
            a <= named@.len(),
            active_model == current_model(active),
            key_models(parsed.definitions@) + children_symbols(*t, src@, language, file@, include_tests, i, named@, a as int, active_model).0
                == old_defs + own_defs + all.0,
            site_models(parsed.call_sites@) + children_symbols(*t, src@, language, file@, include_tests, i, named@, a as int, active_model).1
                == old_sites + own_sites + all.1,
        decreases named@.len() - a,
    {
        let c = named[a];
        assert(within(*t, i, named@[a as int]));
        let ghost here = children_symbols(*t, src@, language, file@, include_tests, i, named@, a as int, active_model);
        let ghost next = children_symbols(*t, src@, language, file@, include_tests, i, named@, a + 1, active_model);
        let ghost first = node_symbols(*t, src@, language, file@, include_tests, c, named@.take(a as int).reverse(), active_model);
        assert(here.0 == first.0 + next.0);
        assert(here.1 == first.1 + next.1);
        let ghost defs_before = key_models(parsed.definitions@);
        let ghost sites_before = site_models(parsed.call_sites@);
        collect_node(t, src, language, file, include_tests, c, &named, a, active, parsed);
        assert(key_models(parsed.definitions@) + next.0 =~= defs_before + here.0);
        assert(site_models(parsed.call_sites@) + next.1 =~= sites_before + here.1);
        a = a + 1;
    }
    let ghost done = children_symbols(*t, src@, language, file@, include_tests, i, named@, a as int, active_model);
    assert(done.0 =~= Seq::<KeyModel>::empty());
    assert(done.1 =~= Seq::<SiteModel>::empty());
    assert(key_models(parsed.definitions@) =~= old_defs + spec.0);
    assert(site_models(parsed.call_sites@) =~= old_sites + spec.1);
}

/// The definitions and call sites of a file, from its syntax tree.
pub fn collect_file_symbols(
    t: &SyntaxTree,
    src: &[u8],
    language: Language,
    file: &str,
    options: AnalysisOptions,
) -> (r: ParsedFile)
    requires
        t.wf(),
    ensures
        key_models(r.definitions@) == file_symbols(*t, src@, language, file@, options.include_tests).0,
        site_models(r.call_sites@) == file_symbols(*t, src@, language, file@, options.include_tests).1,
{
    let mut parsed = ParsedFile { definitions: Vec::new(), call_sites: Vec::new() };
    let siblings: Vec<usize> = Vec::new();
    assert(siblings@.take(0).reverse() =~= Seq::<usize>::empty());
    assert(key_models(parsed.definitions@) =~= Seq::<KeyModel>::empty());
    assert(site_models(parsed.call_sites@) =~= Seq::<SiteModel>::empty());
    collect_node(t, src, language, file, options.include_tests, 0, &siblings, 0, None, &mut parsed);
    parsed
}

/// Found symbols all lie in `file`, and each call site stands in `current`
/// or in one of the definitions found.
pub open spec fn symbols_in_file(
    r: (Seq<KeyModel>, Seq<SiteModel>),
    file: Seq<char>,
    current: Option<KeyModel>,
) -> bool {
    &&& forall|k: int| 0 <= k < r.0.len() ==> (#[trigger] r.0[k]).file == file
    &&& forall|k: int|
        0 <= k < r.1.len() ==> (#[trigger] r.1[k]).file == file && (current == Some(r.1[k].caller)
            || r.0.contains(r.1[k].caller))
}

proof fn lemma_children_symbols_in_file(
    t: SyntaxTree,
    src: Seq<u8>,
    language: Language,
    file: Seq<char>,
    include_tests: bool,
    parent: usize,
    named: Seq<usize>,
    k: int,
    active: Option<KeyModel>,
)
    ensures
        symbols_in_file(
            children_symbols(t, src, language, file, include_tests, parent, named, k, active),
            file,
            active,
        ),
    decreases end(t, parent) - parent, 0int, named.len() - k,
{
    if 0 <= k < named.len() && within(t, parent, named[k]) {
        let first = node_symbols(t, src, language, file, include_tests, named[k], named.take(k).reverse(), active);
        let rest = children_symbols(t, src, language, file, include_tests, parent, named, k + 1, active);
        lemma_node_symbols_in_file(t, src, language, file, include_tests, named[k], named.take(k).reverse(), active);
        lemma_children_symbols_in_file(t, src, language, file, include_tests, parent, named, k + 1, active);
        let all = (first.0 + rest.0, first.1 + rest.1);
        assert forall|j: int| 0 <= j < all.1.len() implies (#[trigger] all.1[j]).file == file && (active == Some(
            all.1[j].caller,
        ) || all.0.contains(all.1[j].caller)) by {
            if j < first.1.len() {
                assert(all.1[j] == first.1[j]);
                if first.0.contains(first.1[j].caller) {
                    let x = choose|x: int| 0 <= x < first.0.len() && first.0[x] == first.1[j].caller;
                    assert(all.0[x] == first.0[x]);
                }
            } else {
                assert(all.1[j] == rest.1[j - first.1.len()]);
                if rest.0.contains(rest.1[j - first.1.len()].caller) {
                    let x = choose|x: int| 0 <= x < rest.0.len() && rest.0[x] == rest.1[j - first.1.len()].caller;
                    assert(all.0[x + first.0.len()] == rest.0[x]);
                }
            }
        }
        assert forall|j: int| 0 <= j < all.0.len() implies (#[trigger] all.0[j]).file == file by {
            if j < first.0.len() {
                assert(all.0[j] == first.0[j]);
            } else {
                assert(all.0[j] == rest.0[j - first.0.len()]);
            }
        }
    }
}

proof fn lemma_node_symbols_in_file(
    t: SyntaxTree,
    src: Seq<u8>,
    language: Language,
    file: Seq<char>,
    include_tests: bool,
    i: usize,
    prevs: Seq<usize>,
    current: Option<KeyModel>,
)
    ensures
        symbols_in_file(node_symbols(t, src, language, file, include_tests, i, prevs, current), file, current),
    decreases end(t, i) - i, 1int, 0int,
{
    if i < t.nodes@.len() && !(!include_tests && language == Language::Rust && has_test_attribute(t, src, i, prevs)) {
        let line = node(t, i).start_row + 1;
        let def = if is_function_definition(language, t, i) {
            match definition_name(t, src, i) {
                Some(name) => Some(KeyModel { file, line, name }),
                None => None,
            }
        } else {
            None
        };
        let active = match def {
            Some(k) => Some(k),
            None => current,
        };
        let own_defs = match def {
            Some(k) => seq![k],
            None => seq![],
        };
        let own_sites = if kind_is(t, i, "call_expression") {
            match (active, call_name(t, src, i)) {
                (Some(caller), Some(callee_name)) => seq![
                    SiteModel { caller, callee_name, file, line, kind: call_kind(t, i) },
                ],
                _ => seq![],
            }
        } else {
            seq![]
        };
        let rest = children_symbols(t, src, language, file, include_tests, i, named_children(t, i), 0, active);
        lemma_children_symbols_in_file(t, src, language, file, include_tests, i, named_children(t, i), 0, active);
        let all = (own_defs + rest.0, own_sites + rest.1);
        assert(node_symbols(t, src, language, file, include_tests, i, prevs, current) == all);
        assert forall|j: int| 0 <= j < all.0.len() implies (#[trigger] all.0[j]).file == file by {
            if j >= own_defs.len() {
                assert(all.0[j] == rest.0[j - own_defs.len()]);
            }
        }
        assert forall|j: int| 0 <= j < all.1.len() implies (#[trigger] all.1[j]).file == file && (current == Some(
            all.1[j].caller,
        ) || all.0.contains(all.1[j].caller)) by {
            if j < own_sites.len() {
                if def is Some {
                    assert(all.0[0] == def->0);
                }
            } else {
                let r = rest.1[j - own_sites.len()];
                assert(all.1[j] == r);
                if rest.0.contains(r.caller) {
                    let x = choose|x: int| 0 <= x < rest.0.len() && rest.0[x] == r.caller;
                    assert(all.0[x + own_defs.len()] == rest.0[x]);
                } else if def is Some {
                    assert(all.0[0] == def->0);
                }
            }
        }
    }
}

/// Every definition and call site found in a file lies in that file, and
/// every call site stands in one of the definitions found there.
pub proof fn law_file_symbols(t: SyntaxTree, src: Seq<u8>, language: Language, file: Seq<char>, include_tests: bool)
    ensures
        symbols_in_file(file_symbols(t, src, language, file, include_tests), file, None),
{
    lemma_node_symbols_in_file(t, src, language, file, include_tests, 0, seq![], None);
}

/// The nodes of a tree start on rows in preorder: no node starts on a row
/// before that of a node earlier in the walk.
pub open spec fn rows_in_preorder(t: SyntaxTree) -> bool {
    forall|i: int, j: int|
        0 <= i < j < t.nodes@.len() ==> #[trigger] t.nodes@[i].start_row <= #[trigger] t.nodes@[j].start_row
}

/// Found definitions and call sites are on lines from one on; where rows
/// follow the walk, each call site's caller starts on its line or before.
pub open spec fn lines_in_order(r: (Seq<KeyModel>, Seq<SiteModel>), ordered: bool) -> bool {
    &&& forall|k: int| 0 <= k < r.0.len() ==> (#[trigger] r.0[k]).line >= 1
    &&& forall|k: int|
        0 <= k < r.1.len() ==> (#[trigger] r.1[k]).line >= 1 && (ordered ==> r.1[k].caller.line <= r.1[k].line)
}

/// What the caller of the call sites under node `i` may be: a function
/// starting on the node's line or before.
pub open spec fn caller_before(t: SyntaxTree, i: usize, current: Option<KeyModel>) -> bool {
    current matches Some(k) ==> k.line <= node(t, i).start_row + 1
}

proof fn lemma_node_lines(
    t: SyntaxTree,
    src: Seq<u8>,
    language: Language,
    file: Seq<char>,
    include_tests: bool,
    i: usize,
    prevs: Seq<usize>,
    current: Option<KeyModel>,
)
    requires
        i < t.nodes@.len() && rows_in_preorder(t) ==> caller_before(t, i, current),
    ensures
        lines_in_order(node_symbols(t, src, language, file, include_tests, i, prevs, current), rows_in_preorder(t)),
    decreases end(t, i) - i, 1int, 0int,
{
    if i < t.nodes@.len() && !(!include_tests && language == Language::Rust && has_test_attribute(t, src, i, prevs)) {
        let line = node(t, i).start_row + 1;
        let def = if is_function_definition(language, t, i) {
            match definition_name(t, src, i) {
                Some(name) => Some(KeyModel { file, line, name }),
                None => None,
            }
        } else {
            None
        };
        let active = match def {
            Some(k) => Some(k),
            None => current,
        };
        let own_defs = match def {
            Some(k) => seq![k],
            None => seq![],
        };
        let own_sites = if kind_is(t, i, "call_expression") {
            match (active, call_name(t, src, i)) {
                (Some(caller), Some(callee_name)) => seq![
                    SiteModel { caller, callee_name, file, line, kind: call_kind(t, i) },
                ],
                _ => seq![],
            }
        } else {
            seq![]
        };
        let rest = children_symbols(t, src, language, file, include_tests, i, named_children(t, i), 0, active);
        lemma_children_lines(t, src, language, file, include_tests, i, named_children(t, i), 0, active);
        let all = (own_defs + rest.0, own_sites + rest.1);
        assert(node_symbols(t, src, language, file, include_tests, i, prevs, current) == all);
        assert forall|j: int| 0 <= j < all.0.len() implies (#[trigger] all.0[j]).line >= 1 by {
            if j >= own_defs.len() {
                assert(all.0[j] == rest.0[j - own_defs.len()]);
            }
        }
        assert forall|j: int| 0 <= j < all.1.len() implies (#[trigger] all.1[j]).line >= 1 && (rows_in_preorder(t)
            ==> all.1[j].caller.line <= all.1[j].line) by {
            if j >= own_sites.len() {
                assert(all.1[j] == rest.1[j - own_sites.len()]);
            }
        }
    }
}

proof fn lemma_children_lines(
    t: SyntaxTree,
    src: Seq<u8>,
    language: Language,
    file: Seq<char>,
    include_tests: bool,
    parent: usize,
    named: Seq<usize>,
    k: int,
    active: Option<KeyModel>,
)
    requires
        parent < t.nodes@.len() && rows_in_preorder(t) ==> caller_before(t, parent, active),
    ensures
        lines_in_order(
            children_symbols(t, src, language, file, include_tests, parent, named, k, active),
            rows_in_preorder(t),
        ),
    decreases end(t, parent) - parent, 0int, named.len() - k,
{
    if 0 <= k < named.len() && within(t, parent, named[k]) {
        let c = named[k];
        if rows_in_preorder(t) {
            assert(t.nodes@[parent as int].start_row <= t.nodes@[c as int].start_row);
        }
        let first = node_symbols(t, src, language, file, include_tests, c, named.take(k).reverse(), active);
        let rest = children_symbols(t, src, language, file, include_tests, parent, named, k + 1, active);
        lemma_node_lines(t, src, language, file, include_tests, c, named.take(k).reverse(), active);
        lemma_children_lines(t, src, language, file, include_tests, parent, named, k + 1, active);
        let all = (first.0 + rest.0, first.1 + rest.1);
        assert forall|j: int| 0 <= j < all.0.len() implies (#[trigger] all.0[j]).line >= 1 by {
            if j < first.0.len() {
                assert(all.0[j] == first.0[j]);
            } else {
                assert(all.0[j] == rest.0[j - first.0.len()]);
            }
        }
        assert forall|j: int| 0 <= j < all.1.len() implies (#[trigger] all.1[j]).line >= 1 && (rows_in_preorder(t)
            ==> all.1[j].caller.line <= all.1[j].line) by {
            if j < first.1.len() {
                assert(all.1[j] == first.1[j]);
            } else {
                assert(all.1[j] == rest.1[j - first.1.len()]);
            }
        }
    }
}

/// The lines of a file's symbols: every definition and call site is on a
/// line from one on; where the tree's nodes start on rows in walk order (as
/// a parser's do), each call site's caller starts on the call's line or
/// before.
pub proof fn law_file_symbol_lines(
    t: SyntaxTree,
    src: Seq<u8>,
    language: Language,
    file: Seq<char>,
    include_tests: bool,
)
    ensures
        lines_in_order(file_symbols(t, src, language, file, include_tests), rows_in_preorder(t)),
{
    lemma_node_lines(t, src, language, file, include_tests, 0, seq![], None);
}

/// Every definition and call site of `a` is one of `b`.
pub open spec fn symbols_within(a: (Seq<KeyModel>, Seq<SiteModel>), b: (Seq<KeyModel>, Seq<SiteModel>)) -> bool {
    &&& forall|k: int| 0 <= k < a.0.len() ==> b.0.contains(#[trigger] a.0[k])
    &&& forall|k: int| 0 <= k < a.1.len() ==> b.1.contains(#[trigger] a.1[k])
}

proof fn lemma_symbols_within_concat(
    a1: (Seq<KeyModel>, Seq<SiteModel>),
    a2: (Seq<KeyModel>, Seq<SiteModel>),
    b1: (Seq<KeyModel>, Seq<SiteModel>),
    b2: (Seq<KeyModel>, Seq<SiteModel>),
)
    requires
        symbols_within(a1, b1),
        symbols_within(a2, b2),
    ensures
        symbols_within((a1.0 + a2.0, a1.1 + a2.1), (b1.0 + b2.0, b1.1 + b2.1)),
{
    let a = (a1.0 + a2.0, a1.1 + a2.1);
    let b = (b1.0 + b2.0, b1.1 + b2.1);
    assert forall|k: int| 0 <= k < a.0.len() implies b.0.contains(#[trigger] a.0[k]) by {
        if k < a1.0.len() {
            assert(a.0[k] == a1.0[k]);
            assert(b1.0.contains(a1.0[k]));
            let m = choose|m: int| 0 <= m < b1.0.len() && b1.0[m] == a1.0[k];
            assert(b.0[m] == b1.0[m]);
        } else {
            assert(a.0[k] == a2.0[k - a1.0.len()]);
            assert(b2.0.contains(a2.0[k - a1.0.len()]));
            let m = choose|m: int| 0 <= m < b2.0.len() && b2.0[m] == a2.0[k - a1.0.len()];
            assert(b.0[m + b1.0.len()] == b2.0[m]);
        }
    }
    assert forall|k: int| 0 <= k < a.1.len() implies b.1.contains(#[trigger] a.1[k]) by {
        if k < a1.1.len() {
            assert(a.1[k] == a1.1[k]);
            assert(b1.1.contains(a1.1[k]));
            let m = choose|m: int| 0 <= m < b1.1.len() && b1.1[m] == a1.1[k];
            assert(b.1[m] == b1.1[m]);
        } else {
            assert(a.1[k] == a2.1[k - a1.1.len()]);
            assert(b2.1.contains(a2.1[k - a1.1.len()]));
            let m = choose|m: int| 0 <= m < b2.1.len() && b2.1[m] == a2.1[k - a1.1.len()];
            assert(b.1[m + b1.1.len()] == b2.1[m]);
        }
    }
}

proof fn lemma_node_within(
    t: SyntaxTree,
    src: Seq<u8>,
    language: Language,
    file: Seq<char>,
    i: usize,
    prevs: Seq<usize>,
    current: Option<KeyModel>,
)
    ensures
        symbols_within(
            node_symbols(t, src, language, file, false, i, prevs, current),
            node_symbols(t, src, language, file, true, i, prevs, current),
        ),
    decreases end(t, i) - i, 1int, 0int,
{
    let without = node_symbols(t, src, language, file, false, i, prevs, current);
    let with = node_symbols(t, src, language, file, true, i, prevs, current);
    if i < t.nodes@.len() && !(language == Language::Rust && has_test_attribute(t, src, i, prevs)) {
        let line = node(t, i).start_row + 1;
        let def = if is_function_definition(language, t, i) {
            match definition_name(t, src, i) {
                Some(name) => Some(KeyModel { file, line, name }),
                None => None,
            }
        } else {
            None
        };
        let active = match def {
            Some(k) => Some(k),
            None => current,
        };
        let own_defs = match def {
            Some(k) => seq![k],
            None => seq![],
        };
        let own_sites = if kind_is(t, i, "call_expression") {
            match (active, call_name(t, src, i)) {
                (Some(caller), Some(callee_name)) => seq![
                    SiteModel { caller, callee_name, file, line, kind: call_kind(t, i) },
                ],
                _ => seq![],
            }
        } else {
            seq![]
        };
        let named = named_children(t, i);
        lemma_children_within(t, src, language, file, i, named, 0, active);
        let own = (own_defs, own_sites);
        assert(symbols_within(own, own)) by {
            assert forall|k: int| 0 <= k < own.0.len() implies own.0.contains(#[trigger] own.0[k]) by {}
            assert forall|k: int| 0 <= k < own.1.len() implies own.1.contains(#[trigger] own.1[k]) by {}
        }
        lemma_symbols_within_concat(
            own,
            children_symbols(t, src, language, file, false, i, named, 0, active),
            own,
            children_symbols(t, src, language, file, true, i, named, 0, active),
        );
    } else if i < t.nodes@.len() {
        assert(without.0.len() == 0 && without.1.len() == 0);
    }
}

proof fn lemma_children_within(
    t: SyntaxTree,
    src: Seq<u8>,
    language: Language,
    file: Seq<char>,
    parent: usize,
    named: Seq<usize>,
    k: int,
    active: Option<KeyModel>,
)
    ensures
        symbols_within(
            children_symbols(t, src, language, file, false, parent, named, k, active),
            children_symbols(t, src, language, file, true, parent, named, k, active),
        ),
    decreases end(t, parent) - parent, 0int, named.len() - k,
{
    if 0 <= k < named.len() && within(t, parent, named[k]) {
        let c = named[k];
        lemma_node_within(t, src, language, file, c, named.take(k).reverse(), active);
        lemma_children_within(t, src, language, file, parent, named, k + 1, active);
        lemma_symbols_within_concat(
            node_symbols(t, src, language, file, false, c, named.take(k).reverse(), active),
            children_symbols(t, src, language, file, false, parent, named, k + 1, active),
            node_symbols(t, src, language, file, true, c, named.take(k).reverse(), active),
            children_symbols(t, src, language, file, true, parent, named, k + 1, active),
        );
    }
}

/// Leaving tests out only leaves symbols out: every definition and call
/// site found without tests is found with them.
pub proof fn law_symbols_without_tests(t: SyntaxTree, src: Seq<u8>, language: Language, file: Seq<char>)
    ensures
        symbols_within(file_symbols(t, src, language, file, false), file_symbols(t, src, language, file, true)),
{
    lemma_node_within(t, src, language, file, 0, seq![], None);
}

/// The named children of a node come one after another: each starts after
/// the subtree of the one before.
proof fn lemma_named_run_order(t: SyntaxTree, parent: usize, c: usize)
    ensures
        forall|j: int| 0 <= j < named_run(t, parent, c).len() ==> #[trigger] named_run(t, parent, c)[j] >= c,
        forall|j: int, k: int|
            0 <= j < k < named_run(t, parent, c).len() ==> #[trigger] named_run(t, parent, c)[k] >= end(
                t,
                #[trigger] named_run(t, parent, c)[j],
            ),
    decreases end(t, parent) - c,
{
    if within(t, parent, c) {
        lemma_named_run_order(t, parent, end(t, c));
        let rest = named_run(t, parent, end(t, c));
        let head: Seq<usize> = if node(t, c).named {
            seq![c]
        } else {
            seq![]
        };
        let run = named_run(t, parent, c);
        assert(run == head + rest);
        assert forall|j: int| 0 <= j < run.len() implies #[trigger] run[j] >= c by {
            if j >= head.len() {
                assert(run[j] == rest[j - head.len()]);
            }
        }
        assert forall|j: int, k: int| 0 <= j < k < run.len() implies #[trigger] run[k] >= end(t, #[trigger] run[j]) by {
            assert(run[k] == rest[k - head.len()]);
            if j >= head.len() {
                assert(run[j] == rest[j - head.len()]);
            }
        }
    }
}

/// The lines of found symbols lie between `lo` and `hi`, definitions in
/// order of line and call sites in order of line.
pub open spec fn lines_between(r: (Seq<KeyModel>, Seq<SiteModel>), lo: int, hi: int) -> bool {
    &&& forall|k: int| 0 <= k < r.0.len() ==> lo <= (#[trigger] r.0[k]).line <= hi
    &&& forall|k: int| 0 <= k < r.1.len() ==> lo <= (#[trigger] r.1[k]).line <= hi
    &&& forall|j: int, k: int| 0 <= j < k < r.0.len() ==> (#[trigger] r.0[j]).line <= (#[trigger] r.0[k]).line
    &&& forall|j: int, k: int| 0 <= j < k < r.1.len() ==> (#[trigger] r.1[j]).line <= (#[trigger] r.1[k]).line
}

proof fn lemma_lines_between_concat(
    a: (Seq<KeyModel>, Seq<SiteModel>),
    b: (Seq<KeyModel>, Seq<SiteModel>),
    lo: int,
    mid: int,
    hi: int,
)
    requires
        lo <= mid <= hi,
        lines_between(a, lo, mid),
        lines_between(b, mid, hi),
    ensures
        lines_between((a.0 + b.0, a.1 + b.1), lo, hi),
{
    let r = (a.0 + b.0, a.1 + b.1);
    assert forall|k: int| 0 <= k < r.0.len() implies lo <= (#[trigger] r.0[k]).line <= hi by {
        if k < a.0.len() {
            assert(r.0[k] == a.0[k]);
        } else {
            assert(r.0[k] == b.0[k - a.0.len()]);
        }
    }
    assert forall|k: int| 0 <= k < r.1.len() implies lo <= (#[trigger] r.1[k]).line <= hi by {
        if k < a.1.len() {
            assert(r.1[k] == a.1[k]);
        } else {
            assert(r.1[k] == b.1[k - a.1.len()]);
        }
    }
    assert forall|j: int, k: int| 0 <= j < k < r.0.len() implies (#[trigger] r.0[j]).line <= (#[trigger] r.0[k]).line by {
        if k < a.0.len() {
            assert(r.0[j] == a.0[j] && r.0[k] == a.0[k]);
        } else if j >= a.0.len() {
            assert(r.0[j] == b.0[j - a.0.len()] && r.0[k] == b.0[k - a.0.len()]);
        } else {
            assert(r.0[j] == a.0[j] && r.0[k] == b.0[k - a.0.len()]);
        }
    }
    assert forall|j: int, k: int| 0 <= j < k < r.1.len() implies (#[trigger] r.1[j]).line <= (#[trigger] r.1[k]).line by {
        if k < a.1.len() {
            assert(r.1[j] == a.1[j] && r.1[k] == a.1[k]);
        } else if j >= a.1.len() {
            assert(r.1[j] == b.1[j - a.1.len()] && r.1[k] == b.1[k - a.1.len()]);
        } else {
            assert(r.1[j] == a.1[j] && r.1[k] == b.1[k - a.1.len()]);
        }
    }
}

proof fn lemma_node_sorted(
    t: SyntaxTree,
    src: Seq<u8>,
    language: Language,
    file: Seq<char>,
    include_tests: bool,
    i: usize,
    prevs: Seq<usize>,
    current: Option<KeyModel>,
)
    requires
        t.wf(),
        rows_in_preorder(t),
        i < t.nodes@.len(),
    ensures
        lines_between(
            node_symbols(t, src, language, file, include_tests, i, prevs, current),
            node(t, i).start_row + 1,
            node(t, (end(t, i) - 1) as usize).start_row + 1,
        ),
    decreases end(t, i) - i, 1int, 0int,
{
    assert(i < t.ends@[i as int]);
    let lo = node(t, i).start_row + 1;
    let hi = node(t, (end(t, i) - 1) as usize).start_row + 1;
    assert(t.nodes@[i as int].start_row <= t.nodes@[end(t, i) - 1].start_row);
    if !(!include_tests && language == Language::Rust && has_test_attribute(t, src, i, prevs)) {
        let line = node(t, i).start_row + 1;
        let def = if is_function_definition(language, t, i) {
            match definition_name(t, src, i) {
                Some(name) => Some(KeyModel { file, line, name }),
                None => None,
            }
        } else {
            None
        };
        let active = match def {
            Some(k) => Some(k),
            None => current,
        };
        let own_defs = match def {
            Some(k) => seq![k],
            None => seq![],
        };
        let own_sites = if kind_is(t, i, "call_expression") {
            match (active, call_name(t, src, i)) {
                (Some(caller), Some(callee_name)) => seq![
                    SiteModel { caller, callee_name, file, line, kind: call_kind(t, i) },
                ],
                _ => seq![],
            }
        } else {
            seq![]
        };
        let named = named_children(t, i);
        lemma_named_run_order(t, i, (i + 1) as usize);
        lemma_named_run_inside(t, i, (i + 1) as usize);
        if named.len() > 0 {
            assert(named[0] >= i + 1);
            assert(t.nodes@[i as int].start_row <= t.nodes@[named[0] as int].start_row);
        }
        lemma_children_sorted(t, src, language, file, include_tests, i, named, 0, active, lo);
        let own = (own_defs, own_sites);
        assert(lines_between(own, lo, lo));
        lemma_lines_between_concat(own, children_symbols(t, src, language, file, include_tests, i, named, 0, active), lo, lo, hi);
    }
}

proof fn lemma_children_sorted(
    t: SyntaxTree,
    src: Seq<u8>,
    language: Language,
    file: Seq<char>,
    include_tests: bool,
    parent: usize,
    named: Seq<usize>,
    k: int,
    active: Option<KeyModel>,
    lo: int,
)
    requires
        t.wf(),
        rows_in_preorder(t),
        parent < t.nodes@.len(),
        named == named_children(t, parent),
        0 <= k,
        k < named.len() ==> lo <= node(t, named[k]).start_row + 1,
        lo <= node(t, (end(t, parent) - 1) as usize).start_row + 1,
    ensures
        lines_between(
            children_symbols(t, src, language, file, include_tests, parent, named, k, active),
            lo,
            node(t, (end(t, parent) - 1) as usize).start_row + 1,
        ),
    decreases end(t, parent) - parent, 0int, named.len() - k,
{
    let hi = node(t, (end(t, parent) - 1) as usize).start_row + 1;
    if 0 <= k < named.len() && within(t, parent, named[k]) {
        let c = named[k];
        lemma_named_run_order(t, parent, (parent + 1) as usize);
        lemma_named_run_inside(t, parent, (parent + 1) as usize);
        let mid = node(t, (end(t, c) - 1) as usize).start_row + 1;
        assert(t.nodes@[end(t, c) - 1].start_row <= t.nodes@[end(t, parent) - 1].start_row) by {
            if end(t, c) < end(t, parent) {
                assert(end(t, c) - 1 < end(t, parent) - 1);
            }
        }
        if k + 1 < named.len() {
            assert(named[k + 1] >= end(t, named[k]));
            assert(named[k + 1] < t.nodes@.len());
            if end(t, c) - 1 < named[k + 1] {
                assert(t.nodes@[end(t, c) - 1].start_row <= t.nodes@[named[k + 1] as int].start_row);
            }
        }
        lemma_node_sorted(t, src, language, file, include_tests, c, named.take(k).reverse(), active);
        lemma_children_sorted(t, src, language, file, include_tests, parent, named, k + 1, active, mid);
        let first = node_symbols(t, src, language, file, include_tests, c, named.take(k).reverse(), active);
        assert(t.nodes@[c as int].start_row <= t.nodes@[end(t, c) - 1].start_row);
        assert(lines_between(first, lo, mid));
        lemma_lines_between_concat(
            first,
            children_symbols(t, src, language, file, include_tests, parent, named, k + 1, active),
            lo,
            mid,
            hi,
        );
    }
}

/// For a parser's tree (nodes starting on rows in walk order), a file's
/// definitions come in order of line, and so do its call sites: the search
/// takes them in walk order.
pub proof fn law_file_symbols_in_order(
    t: SyntaxTree,
    src: Seq<u8>,
    language: Language,
    file: Seq<char>,
    include_tests: bool,
)
    requires
        t.wf(),
        rows_in_preorder(t),
    ensures
        forall|j: int, k: int|
            0 <= j < k < file_symbols(t, src, language, file, include_tests).0.len() ==> (#[trigger] file_symbols(
                t,
                src,
                language,
                file,
                include_tests,
            ).0[j]).line <= (#[trigger] file_symbols(t, src, language, file, include_tests).0[k]).line,
        forall|j: int, k: int|
            0 <= j < k < file_symbols(t, src, language, file, include_tests).1.len() ==> (#[trigger] file_symbols(
                t,
                src,
                language,
                file,
                include_tests,
            ).1[j]).line <= (#[trigger] file_symbols(t, src, language, file, include_tests).1[k]).line,
{
    lemma_node_sorted(t, src, language, file, include_tests, 0, seq![], None);
}

/// What one node gives: nothing at all for a Rust item under `cfg(test)`
/// when tests are excluded; otherwise a definition where it is a named
/// function, a call site where it is a named call, whose caller is the
/// innermost function around it (the node itself where it is one), and
/// then what its named children give, in order.
pub proof fn law_node_symbols(
    t: SyntaxTree,
    src: Seq<u8>,
    language: Language,
    file: Seq<char>,
    include_tests: bool,
    i: usize,
    prevs: Seq<usize>,
    current: Option<KeyModel>,
)
    requires
        i < t.nodes@.len(),
    ensures
        !include_tests && language == Language::Rust && has_test_attribute(t, src, i, prevs) ==> node_symbols(
            t,
            src,
            language,
            file,
            include_tests,
            i,
            prevs,
            current,
        ).0.len() == 0 && node_symbols(t, src, language, file, include_tests, i, prevs, current).1.len() == 0,
        !(!include_tests && language == Language::Rust && has_test_attribute(t, src, i, prevs)) ==> {
            let r = node_symbols(t, src, language, file, include_tests, i, prevs, current);
            let line = node(t, i).start_row + 1;
            let def = if is_function_definition(language, t, i) {
                match definition_name(t, src, i) {
                    Some(name) => Some(KeyModel { file, line, name }),
                    None => None,
                }
            } else {
                None
            };
            let active = if def is Some {
                def
            } else {
                current
            };
            &&& def matches Some(d) ==> r.0.len() > 0 && r.0[0] == d
            &&& (kind_is(t, i, "call_expression") && active is Some && call_name(t, src, i) is Some) ==> r.1.len() > 0
                && r.1[0].caller == active->0 && r.1[0].line == line
        },
{
}

/// Which nodes define functions: in Rust exactly the `function_item`s (so a
/// trait's bodiless `function_signature_item` is none), in Go exactly the
/// `function_declaration`s and `method_declaration`s.
pub proof fn law_function_definitions(t: SyntaxTree, i: usize)
    ensures
        is_function_definition(Language::Rust, t, i) <==> node(t, i).kind@ == "function_item"@,
        is_function_definition(Language::Go, t, i) <==> (node(t, i).kind@ == "function_declaration"@
            || node(t, i).kind@ == "method_declaration"@),
        node(t, i).kind@ == "function_signature_item"@ ==> !is_function_definition(Language::Rust, t, i),
{
    reveal_strlit("function_item");
    reveal_strlit("function_signature_item");
    assert("function_item"@.len() != "function_signature_item"@.len());
}

/// The kind of a call comes from the expression it calls: a plain
/// identifier is a direct call, a field or selector access a method call, a
/// path an associated call; a generic function (`f::<T>()`) is direct or
/// associated as the function it wraps is an identifier or a path; anything
/// else, or no called expression, is unknown.
pub proof fn law_call_kinds(t: SyntaxTree, i: usize)
    ensures
        field_child(t, i, "function"@) is None ==> call_kind(t, i) == CallKind::Unknown,
        field_child(t, i, "function"@) matches Some(c) ==> {
            let k = node(t, c).kind@;
            &&& k == "identifier"@ ==> call_kind(t, i) == CallKind::Direct
            &&& (k == "selector_expression"@ || k == "field_expression"@) ==> call_kind(t, i) == CallKind::Method
            &&& k == "scoped_identifier"@ ==> call_kind(t, i) == CallKind::Associated
            &&& (k == "generic_function"@ && field_child(t, c, "function"@) is None) ==> call_kind(t, i)
                == CallKind::Unknown
            &&& (k == "generic_function"@ && field_child(t, c, "function"@) is Some && node(
                t,
                field_child(t, c, "function"@)->0,
            ).kind@ == "identifier"@) ==> call_kind(t, i) == CallKind::Direct
            &&& (k == "generic_function"@ && field_child(t, c, "function"@) is Some && node(
                t,
                field_child(t, c, "function"@)->0,
            ).kind@ == "scoped_identifier"@) ==> call_kind(t, i) == CallKind::Associated
            &&& (k != "identifier"@ && k != "selector_expression"@ && k != "field_expression"@ && k
                != "scoped_identifier"@ && k != "generic_function"@) ==> call_kind(t, i) == CallKind::Unknown
        },
{
    reveal_strlit("identifier");
    reveal_strlit("selector_expression");
    reveal_strlit("field_expression");
    reveal_strlit("scoped_identifier");
    reveal_strlit("generic_function");
    let id = "identifier"@;
    let sel = "selector_expression"@;
    let fld = "field_expression"@;
    let sc = "scoped_identifier"@;
    let gf = "generic_function"@;
    assert(id.len() == 10 && sel.len() == 19 && fld.len() == 16 && sc.len() == 17 && gf.len() == 16);
    assert(fld != gf) by {
        assert(fld[0] != gf[0]);
    }
}

/// Previous sibling `k` (nearest first) is an attribute item mentioning
/// `cfg(test)`, and only attribute items and comments stand before it.
pub open spec fn cfg_test_reached(t: SyntaxTree, src: Seq<u8>, prevs: Seq<usize>, k: int) -> bool {
    &&& 0 <= k < prevs.len()
    &&& node(t, prevs[k] as usize).kind@ == "attribute_item"@
    &&& node_text(t, src, prevs[k] as usize) matches Some(text) && contains_text(text, "cfg(test)"@)
    &&& forall|j: int|
        0 <= j < k ==> {
            let kind = #[trigger] node(t, prevs[j] as usize).kind@;
            kind == "attribute_item"@ || kind == "line_comment"@ || kind == "block_comment"@
        }
}

/// The attributes that stand before a node: a `cfg(test)` one counts
/// exactly when only attributes and comments stand between it and the
/// node; any other item in between (such as an earlier `mod tests;`) ends
/// the search.
pub proof fn law_preceding_test_attribute(t: SyntaxTree, src: Seq<u8>, prevs: Seq<usize>)
    ensures
        prevs.len() > 0 && node(t, prevs[0] as usize).kind@ != "attribute_item"@ && node(t, prevs[0] as usize).kind@
            != "line_comment"@ && node(t, prevs[0] as usize).kind@ != "block_comment"@ ==> !preceding_test_attribute(
            t,
            src,
            prevs,
        ),
        preceding_test_attribute(t, src, prevs) <==> exists|k: int| #[trigger] cfg_test_reached(t, src, prevs, k),
    decreases prevs.len(),
{
    if prevs.len() > 0 {
        let d = prevs.drop_first();
        law_preceding_test_attribute(t, src, d);
        if preceding_test_attribute(t, src, prevs) {
            if is_test_attribute(t, src, prevs[0]) {
                assert(cfg_test_reached(t, src, prevs, 0));
            } else {
                assert(preceding_test_attribute(t, src, d));
                let k = choose|k: int| #[trigger] cfg_test_reached(t, src, d, k);
                assert forall|j: int| 0 <= j < k + 1 implies {
                    let kind = #[trigger] node(t, prevs[j] as usize).kind@;
                    kind == "attribute_item"@ || kind == "line_comment"@ || kind == "block_comment"@
                } by {
                    if j > 0 {
                        assert(prevs[j] == d[j - 1]);
                    }
                }
                assert(prevs[k + 1] == d[k]);
                assert(cfg_test_reached(t, src, prevs, k + 1));
            }
        } else {
            if exists|k: int| #[trigger] cfg_test_reached(t, src, prevs, k) {
                let k = choose|k: int| #[trigger] cfg_test_reached(t, src, prevs, k);
                if k == 0 {
                    assert(is_test_attribute(t, src, prevs[0]));
                } else {
                    let kind0 = node(t, prevs[0] as usize).kind@;
                    assert(kind0 == "attribute_item"@ || kind0 == "line_comment"@ || kind0 == "block_comment"@);
                    assert(prevs[k] == d[k - 1]);
                    assert forall|j: int| 0 <= j < k - 1 implies {
                        let kind = #[trigger] node(t, d[j] as usize).kind@;
                        kind == "attribute_item"@ || kind == "line_comment"@ || kind == "block_comment"@
                    } by {
                        assert(d[j] == prevs[j + 1]);
                    }
                    assert(cfg_test_reached(t, src, d, k - 1));
                }
            }
        }
    }
}

} // verus!
