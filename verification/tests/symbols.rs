use coviz::symbols::{
    call_kind_of, collect_file_symbols, named_children_of, node_text_of, terminal_name_of,
};
use coviz::syntax::{parse_syntax, SyntaxNode, SyntaxTree};
use coviz::{AnalysisOptions, CallKind, Language};

fn node(kind: &str, named: bool, field: Option<&str>, depth: usize, bytes: (usize, usize)) -> SyntaxNode {
    SyntaxNode {
        kind: kind.to_string(),
        named,
        field: field.map(String::from),
        depth,
        start_row: 0,
        end_row: 0,
        start_byte: bytes.0,
        end_byte: bytes.1,
    }
}

#[test]
fn builds_subtrees_from_depths() {
    let tree = SyntaxTree::from_nodes(vec![
        node("root", true, None, 0, (0, 0)),
        node("a", true, None, 1, (0, 0)),
        node("b", true, None, 2, (0, 0)),
        node("(", false, None, 1, (0, 0)),
        node("c", true, None, 1, (0, 0)),
    ])
    .unwrap();
    assert_eq!(tree.ends, vec![5, 3, 3, 4, 5]);
    assert_eq!(named_children_of(&tree, 0), vec![1, 4]);
    assert!(SyntaxTree::from_nodes(Vec::new()).is_none());
}

#[test]
fn node_text_needs_valid_utf8() {
    let source: &[u8] = b"abc\xffdef";
    let tree = SyntaxTree::from_nodes(vec![
        node("root", true, None, 0, (0, 7)),
        node("identifier", true, None, 1, (0, 3)),
        node("identifier", true, None, 1, (3, 7)),
        node("identifier", true, None, 1, (5, 9)),
    ])
    .unwrap();
    assert_eq!(node_text_of(&tree, source, 1), Some("abc".to_string()));
    assert_eq!(node_text_of(&tree, source, 2), None);
    assert_eq!(node_text_of(&tree, source, 3), None);
    assert_eq!(terminal_name_of(&tree, source, 1), Some("abc".to_string()));
}

#[test]
fn finds_call_names_and_kinds() {
    let source = "fn f() { a::b::<T>(x); self.g(); (h)(); }";
    let tree = parse_syntax(Language::Rust, source.as_bytes()).unwrap();
    let calls: Vec<usize> =
        (0..tree.nodes.len()).filter(|&i| tree.nodes[i].kind == "call_expression").collect();
    assert_eq!(calls.len(), 3);
    let names: Vec<_> = calls
        .iter()
        .map(|&i| {
            let function = (i + 1..tree.ends[i]).find(|&c| tree.nodes[c].field.as_deref() == Some("function"));
            function.and_then(|c| terminal_name_of(&tree, source.as_bytes(), c))
        })
        .collect();
    assert_eq!(names, [Some("b".to_string()), Some("g".to_string()), Some("h".to_string())]);
    let kinds: Vec<_> = calls.iter().map(|&i| call_kind_of(&tree, i)).collect();
    assert_eq!(kinds, [CallKind::Associated, CallKind::Method, CallKind::Unknown]);
}

#[test]
fn attributes_calls_to_enclosing_functions() {
    let source = "fn outer() {\n    fn inner() { leaf(); }\n    leaf();\n}\n#[cfg(test)]\nfn tested() { leaf(); }\n";
    let tree = parse_syntax(Language::Rust, source.as_bytes()).unwrap();
    let all = collect_file_symbols(&tree, source.as_bytes(), Language::Rust, "lib.rs", AnalysisOptions::default());
    let names: Vec<_> = all.definitions.iter().map(|d| d.name.as_str()).collect();
    assert_eq!(names, ["outer", "inner", "tested"]);
    let callers: Vec<_> = all.call_sites.iter().map(|s| (s.caller.name.as_str(), s.line)).collect();
    assert_eq!(callers, [("inner", 2), ("outer", 3), ("tested", 6)]);
    let kept = collect_file_symbols(&tree, source.as_bytes(), Language::Rust, "lib.rs", AnalysisOptions::without_tests());
    let names: Vec<_> = kept.definitions.iter().map(|d| d.name.as_str()).collect();
    assert_eq!(names, ["outer", "inner"]);
    assert!(kept.call_sites.iter().all(|s| s.file == "lib.rs"));
}

#[test]
fn go_methods_and_selectors() {
    let source = "package p\n\ntype T struct{}\n\nfunc (t T) Run() {\n\tt.helper()\n\tfmt.Println()\n}\n";
    let tree = parse_syntax(Language::Go, source.as_bytes()).unwrap();
    let all = collect_file_symbols(&tree, source.as_bytes(), Language::Go, "p.go", AnalysisOptions::default());
    let names: Vec<_> = all.definitions.iter().map(|d| (d.name.as_str(), d.line)).collect();
    assert_eq!(names, [("Run", 5)]);
    let sites: Vec<_> = all.call_sites.iter().map(|s| (s.callee_name.as_str(), s.kind)).collect();
    assert_eq!(sites, [("helper", CallKind::Method), ("Println", CallKind::Method)]);
}
