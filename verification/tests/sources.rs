use coviz::sources::{
    forward_slashes_of, is_test_file, select_sources, should_skip_entry, AnalyzeError, SourceEntry,
};
use coviz::{AnalysisOptions, Language};

fn entry(path: &str, is_file: bool) -> SourceEntry {
    SourceEntry { path: path.to_string(), display_path: Some(path.to_string()), is_file }
}

#[test]
fn display_paths_use_forward_slashes() {
    assert_eq!(forward_slashes_of("go\\main.go"), "go/main.go");
    assert_eq!(forward_slashes_of("a/b"), "a/b");
}

#[test]
fn recognises_test_files() {
    assert!(is_test_file("pkg/main_test.go", Language::Go));
    assert!(!is_test_file("pkg/main_test.go", Language::Rust));
    assert!(is_test_file("src/tests.rs", Language::Rust));
    assert!(is_test_file("tests/integration.rs", Language::Rust));
    assert!(is_test_file("a/tests/b.go", Language::Go));
    assert!(!is_test_file("src/attests.rs", Language::Rust));
    assert!(!is_test_file("tests.rs", Language::Rust));
    assert!(is_test_file("x_tests.rs", Language::Rust));
}

#[test]
fn skips_build_and_test_directories_without_tests() {
    let without = AnalysisOptions::without_tests();
    assert!(should_skip_entry(&Some("target/debug/x.rs".to_string()), without));
    assert!(should_skip_entry(&Some(".git".to_string()), without));
    assert!(should_skip_entry(&Some("a/tests".to_string()), without));
    assert!(!should_skip_entry(&Some("a/tests2/x.rs".to_string()), without));
    assert!(!should_skip_entry(&None, without));
    assert!(!should_skip_entry(&Some("target/x.rs".to_string()), AnalysisOptions::default()));
}

#[test]
fn selects_and_sorts_sources() {
    let entries = vec![
        entry("", false),
        entry("z.go", true),
        entry("b/lib.rs", true),
        entry("README.md", true),
        entry("a.rs", true),
        entry("dir.go", false),
    ];
    let all = select_sources(&entries, false, None, AnalysisOptions::default()).unwrap();
    let paths: Vec<_> = all.iter().map(|f| f.display_path.as_str()).collect();
    assert_eq!(paths, ["a.rs", "b/lib.rs", "z.go"]);
    assert_eq!(all[0].entry, 4);
    assert_eq!(all[2].language, Language::Go);
    let rust = select_sources(&entries, false, Some(Language::Rust), AnalysisOptions::default()).unwrap();
    let paths: Vec<_> = rust.iter().map(|f| f.display_path.as_str()).collect();
    assert_eq!(paths, ["a.rs", "b/lib.rs"]);
}

#[test]
fn reports_non_utf8_source_paths() {
    let entries = vec![
        entry("a.rs", true),
        SourceEntry { path: "bad\u{fffd}.rs".to_string(), display_path: None, is_file: true },
        SourceEntry { path: "bad\u{fffd}.txt".to_string(), display_path: None, is_file: true },
    ];
    assert_eq!(
        select_sources(&entries, false, None, AnalysisOptions::default()),
        Err(AnalyzeError::NonUtf8Path { entry: 1 })
    );
    assert!(select_sources(&entries[2..].to_vec(), false, None, AnalysisOptions::default()).unwrap().is_empty());
}

#[test]
fn single_file_input_is_never_skipped() {
    let entries = vec![entry("tests/a_test.go", true)];
    let files = select_sources(&entries, true, None, AnalysisOptions::default()).unwrap();
    assert_eq!(files.len(), 1);
    let files = select_sources(&entries, true, None, AnalysisOptions::without_tests()).unwrap();
    assert!(files.is_empty());
}
