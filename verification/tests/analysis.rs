use coviz::analyzer::resolve_calls;
use coviz::sources::{parse_source_file, select_sources, AnalyzeError, SourceEntry, SourceFile};
use coviz::syntax::{parse_syntax, SyntaxError};
use coviz::{Analysis, AnalysisOptions, CallKind, Language};

const RUST_LIB: &str = "fn entry() {\n    helper();\n    nested::target();\n}\n\nfn helper() {\n    target();\n}\n\nfn target() {}\n\nmod nested {\n    pub fn target() {}\n}\n";

const RUST_FILTERED: &str = "pub fn production() {\n    shared();\n}\n\nfn shared() {}\n\n#[cfg(test)]\nmod tests {\n    fn hidden_test() {\n        shared();\n    }\n}\n";

const GO_MAIN: &str = "package main\n\nfunc main() {\n\tserve()\n\tworker()\n}\n\nfunc serve() {\n\tworker()\n}\n\nfunc worker() {}\n";

const GO_OTHER: &str = "package main\n\nimport \"fmt\"\n\nfunc ignored() {\n\tfmt.Println(\"unused\")\n}\n";

const GO_FILTER_MAIN: &str = "package main\n\nfunc main() {\n\thelper()\n}\n\nfunc helper() {}\n";

const GO_FILTER_TEST: &str = "package main\n\nfunc TestHelper() {\n\thelper()\n}\n";

fn entry(path: &str) -> SourceEntry {
    SourceEntry { path: path.to_string(), display_path: Some(path.to_string()), is_file: true }
}

fn analyze(files: &[(&str, &str)], language: Option<Language>, options: AnalysisOptions) -> Analysis {
    let entries: Vec<SourceEntry> = files.iter().map(|(path, _)| entry(path)).collect();
    let chosen = select_sources(&entries, false, language, options).unwrap();
    let parsed: Vec<_> = chosen
        .iter()
        .map(|file: &SourceFile| parse_source_file(file, files[file.entry].1.as_bytes(), options).unwrap())
        .collect();
    resolve_calls(&parsed)
}

fn function_name<'a>(analysis: &'a Analysis, id: &str) -> &'a str {
    analysis.functions.iter().find(|f| f.id == id).map(|f| f.name.as_str()).unwrap()
}

fn call_names(analysis: &Analysis) -> Vec<(&str, &str, usize, CallKind)> {
    analysis
        .calls
        .iter()
        .map(|call| {
            (function_name(analysis, &call.caller), function_name(analysis, &call.callee), call.line, call.kind)
        })
        .collect()
}

#[test]
fn analyzes_rust_fixture() {
    let analysis = analyze(&[("lib.rs", RUST_LIB)], Some(Language::Rust), AnalysisOptions::default());
    let names: Vec<_> = analysis.functions.iter().map(|f| f.name.as_str()).collect();
    assert_eq!(names, ["entry", "helper", "target", "target"]);
    assert_eq!(
        call_names(&analysis),
        [
            ("entry", "helper", 2, CallKind::Direct),
            ("entry", "target", 3, CallKind::Associated),
            ("helper", "target", 7, CallKind::Direct),
        ]
    );
}

#[test]
fn analyzes_go_fixture() {
    let analysis = analyze(
        &[("go/main.go", GO_MAIN), ("go/other.go", GO_OTHER)],
        Some(Language::Go),
        AnalysisOptions::default(),
    );
    let names: Vec<_> = analysis.functions.iter().map(|f| f.name.as_str()).collect();
    assert_eq!(names, ["main", "serve", "worker", "ignored"]);
    assert_eq!(
        call_names(&analysis),
        [
            ("main", "serve", 4, CallKind::Direct),
            ("main", "worker", 5, CallKind::Direct),
            ("serve", "worker", 9, CallKind::Direct),
        ]
    );
}

#[test]
fn renders_outputs_from_analysis() {
    let analysis = analyze(
        &[("go/main.go", GO_MAIN), ("go/other.go", GO_OTHER)],
        Some(Language::Go),
        AnalysisOptions::default(),
    );
    let dot = coviz::render_dot(&analysis);
    assert!(dot.starts_with("digraph coviz {\n"));
    assert!(dot.contains("\"f0\" -> \"f1\""));
}

#[test]
fn analyzes_mixed_directory_when_language_is_unspecified() {
    let analysis = analyze(
        &[
            ("filter-tests/go/main.go", GO_FILTER_MAIN),
            ("filter-tests/go/main_test.go", GO_FILTER_TEST),
            ("filter-tests/rust/lib.rs", RUST_FILTERED),
            ("go/main.go", GO_MAIN),
            ("go/other.go", GO_OTHER),
            ("rust/lib.rs", RUST_LIB),
        ],
        None,
        AnalysisOptions::default(),
    );
    assert_eq!(analysis.functions.len(), 14);
    assert_eq!(analysis.calls.len(), 10);
}

#[test]
fn can_exclude_test_files_and_cfg_test_code() {
    let analysis = analyze(
        &[
            ("go/main.go", GO_FILTER_MAIN),
            ("go/main_test.go", GO_FILTER_TEST),
            ("rust/lib.rs", RUST_FILTERED),
        ],
        None,
        AnalysisOptions::without_tests(),
    );
    let names: Vec<_> = analysis.functions.iter().map(|f| f.name.as_str()).collect();
    assert_eq!(names, ["main", "helper", "production", "shared"]);
    assert!(analysis.functions.iter().all(|f| !f.file.ends_with("_test.go")));
    assert!(analysis.functions.iter().all(|f| f.name != "hidden_test"));
}

#[test]
fn keeps_cfg_test_code_by_default() {
    let analysis = analyze(&[("rust/lib.rs", RUST_FILTERED)], None, AnalysisOptions::default());
    let names: Vec<_> = analysis.functions.iter().map(|f| f.name.as_str()).collect();
    assert_eq!(names, ["production", "shared", "hidden_test"]);
    assert_eq!(analysis.calls.len(), 2);
    assert_eq!(analysis.functions[0].id, "f0");
    assert_eq!(analysis.functions[2].id, "f2");
}

#[test]
fn syntax_errors_are_reported() {
    let file = SourceFile { entry: 3, display_path: "bad.rs".to_string(), language: Language::Rust };
    let result = parse_source_file(&file, b"fn broken( {", AnalysisOptions::default());
    assert_eq!(
        result,
        Err(AnalyzeError::Syntax { entry: 3, language: Language::Rust, error: SyntaxError::SyntaxErrors })
    );
}

#[test]
fn callee_resolves_to_first_definition_with_the_name() {
    let analysis = analyze(&[("lib.rs", RUST_LIB)], Some(Language::Rust), AnalysisOptions::default());
    let ids: Vec<_> = analysis.calls.iter().map(|c| (c.caller.as_str(), c.callee.as_str(), c.line)).collect();
    assert_eq!(ids, [("f0", "f1", 2), ("f0", "f2", 3), ("f1", "f2", 7)]);
    assert_eq!(analysis.functions[2].line, 10);
    assert_eq!(analysis.functions[3].line, 13);
}

#[test]
fn calls_sort_by_id_text() {
    let mut source = String::new();
    for i in 0..12 {
        source.push_str(&format!("fn n{i:02}() {{ n00(); }}\n"));
    }
    let analysis = analyze(&[("many.rs", source.as_str())], None, AnalysisOptions::default());
    let ids: Vec<_> = analysis.functions.iter().map(|f| f.id.as_str()).collect();
    assert_eq!(ids, ["f0", "f1", "f2", "f3", "f4", "f5", "f6", "f7", "f8", "f9", "f10", "f11"]);
    let callers: Vec<_> = analysis.calls.iter().map(|c| c.caller.as_str()).collect();
    assert_eq!(callers, ["f0", "f1", "f10", "f11", "f2", "f3", "f4", "f5", "f6", "f7", "f8", "f9"]);
    assert!(analysis.calls.iter().all(|c| c.callee == "f0"));
}

#[test]
fn unknown_callees_are_dropped() {
    let analysis = analyze(&[("lib.rs", "fn a() {\n    missing();\n    b();\n}\n\nfn b() {}\n")], None, AnalysisOptions::default());
    let ids: Vec<_> = analysis.calls.iter().map(|c| (c.caller.as_str(), c.callee.as_str(), c.line)).collect();
    assert_eq!(ids, [("f0", "f1", 3)]);
}

#[test]
fn cfg_test_modules_are_excluded_whatever_stands_between() {
    let source = "pub fn kept() {}\n\n#[cfg(test)]\n#[allow(dead_code)]\nmod tests {\n    fn first() {}\n}\n\n#[cfg(test)]\n\nmod spaced {\n    fn second() {}\n}\n\n#[cfg(test)]\n// a comment\nmod commented {\n    fn third() {}\n}\n";
    let without = analyze(&[("rust/lib.rs", source)], None, AnalysisOptions::without_tests());
    let names: Vec<_> = without.functions.iter().map(|f| f.name.as_str()).collect();
    assert_eq!(names, ["kept"]);
    let with = analyze(&[("rust/lib.rs", source)], None, AnalysisOptions::default());
    let names: Vec<_> = with.functions.iter().map(|f| f.name.as_str()).collect();
    assert_eq!(names, ["kept", "first", "second", "third"]);
}

#[test]
fn syntax_error_messages_name_the_file() {
    assert_eq!(SyntaxError::SyntaxErrors.message(Language::Rust, "x.rs"), "syntax errors found in x.rs");
    assert_eq!(SyntaxError::ParseFailed.message(Language::Go, "m.go"), "tree-sitter failed to parse m.go");
    assert_eq!(SyntaxError::GrammarUnavailable.message(Language::Rust, "x.rs"), "failed to load rust grammar");
    assert_eq!(parse_syntax(Language::Rust, b"fn main( {").err(), Some(SyntaxError::SyntaxErrors));
    assert!(parse_syntax(Language::Go, b"package main\nfunc main() {}\n").is_ok());
}
