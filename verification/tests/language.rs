use coviz::language::CliLanguage;
use coviz::language::UnsupportedLanguage;
use coviz::Language;
use std::str::FromStr;

#[test]
fn detects_language_from_extension() {
    assert_eq!(Language::from_extension("main.go"), Some(Language::Go));
    assert_eq!(Language::from_extension("lib.rs"), Some(Language::Rust));
    assert_eq!(Language::from_extension("README.md"), None);
}

#[test]
fn language_filter_ignores_mismatched_files() {
    assert!(
        Language::from_extension("main.go").is_some_and(|language| language != Language::Rust)
    );
}

#[test]
fn extension_follows_path_rules() {
    assert_eq!(Language::from_extension("src/dir.rs/"), Some(Language::Rust));
    assert_eq!(Language::from_extension("src/main.go/."), Some(Language::Go));
    assert_eq!(Language::from_extension(".go"), None);
    assert_eq!(Language::from_extension("..go"), Some(Language::Go));
    assert_eq!(Language::from_extension("a/.."), None);
    assert_eq!(Language::from_extension("archive.tar.rs"), Some(Language::Rust));
    assert_eq!(Language::from_extension("main.GO"), None);
    assert_eq!(Language::from_extension(""), None);
}

#[test]
fn names_of_languages() {
    assert_eq!(Language::Go.extension(), "go");
    assert_eq!(Language::Rust.extension(), "rs");
    assert_eq!(Language::Go.as_str(), "go");
    assert_eq!(Language::Rust.as_str(), "rust");
    assert_eq!(Language::from_name("GoLang"), Some(Language::Go));
    assert_eq!(Language::from_name("RS"), Some(Language::Rust));
    assert_eq!(Language::from_name("python"), None);
    assert_eq!("Rust".parse::<Language>(), Ok(Language::Rust));
    assert!("cobol".parse::<Language>().is_err());
}

#[test]
fn cli_language_choices() {
    assert_eq!(CliLanguage::Auto.into_analysis_language(), None);
    assert_eq!(CliLanguage::Go.into_analysis_language(), Some(Language::Go));
    assert_eq!(CliLanguage::Rust.into_analysis_language(), Some(Language::Rust));
}

#[test]
fn unsupported_language_error_names_the_value() {
    let error: UnsupportedLanguage = Language::from_str("python").unwrap_err();
    assert_eq!(error.message(), "unsupported language: python");
    assert_eq!(Language::from_str("PYTHON").unwrap_err().message(), "unsupported language: PYTHON");
    assert!(Language::from_str(" go").is_err());
    assert!(Language::from_str("").is_err());
    assert!(Language::from_str("auto").is_err());
}

#[test]
fn language_names_ignore_ascii_case() {
    assert_eq!(Language::from_str("GOLANG"), Ok(Language::Go));
    assert_eq!(Language::from_str("Rust"), Ok(Language::Rust));
    assert_eq!(Language::from_str("RS"), Ok(Language::Rust));
    assert_eq!(Language::from_str(Language::Rust.as_str()), Ok(Language::Rust));
    assert_eq!(Language::from_str(Language::Go.extension()), Ok(Language::Go));
}
