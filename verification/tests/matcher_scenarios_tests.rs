use catnip::file_collector::{admits_file, max_size_bytes, should_include_file, should_skip_directory};
use catnip::pattern_matcher::PatternMatcher;
use catnip::patterns::{build_exclude_patterns, build_include_patterns};

fn single(pattern: &str) -> PatternMatcher {
    PatternMatcher::new(&[pattern.to_string()])
}

#[test]
fn test_advanced_pattern_match() {
    assert!(single("*.rs").matches_path("test.rs"));
    assert!(single("src/*.rs").matches_path("src/main.rs"));
    assert!(single("test.?y").matches_path("test.py"));
    assert!(!single("*.py").matches_path("test.rs"));
    assert!(!single("src/*.rs").matches_path("test.rs"));
}

#[test]
fn test_matches_any_pattern() {
    let path = "src/main.rs";
    let matcher = PatternMatcher::new(&["*.rs".to_string(), "*.py".to_string()]);
    assert!(matcher.matches_path(path));

    let matcher = PatternMatcher::new(&["*.py".to_string(), "*.js".to_string()]);
    assert!(!matcher.matches_path(path));
}

#[test]
fn test_matches_any_pattern_directory() {
    let path = "target/debug/main";
    let matcher = PatternMatcher::new(&["target/*".to_string()]);
    assert!(matcher.matches_path(path));
}

#[test]
fn test_extension_scenario() {
    let matcher = single("*.rs");
    assert!(matcher.matches_path("src/main.rs"));
    assert!(!matcher.matches_path("main.py"));
}

#[test]
fn test_directory_scenario() {
    let matcher = single("target");
    assert!(matcher.matches_path("project/target/debug/build"));
}

#[test]
fn test_single_level_glob_scenario() {
    let matcher = single("src/*.rs");
    assert!(matcher.matches_path("src/main.rs"));
    assert!(!matcher.matches_path("src/nested/deep.rs"));
}

#[test]
fn test_double_star_glob_scenario() {
    let matcher = single("src/**/*.rs");
    assert!(matcher.matches_path("src/nested/deep.rs"));
}

#[test]
fn test_question_scenario() {
    let matcher = single("*.?s");
    assert!(matcher.matches_path("main.rs"));
    assert!(matcher.matches_path("main.js"));
    assert!(matcher.matches_path("main.ts"));
    assert!(!matcher.matches_path("main.txt"));
    assert!(!matcher.matches_path("main.s"));
}

#[test]
fn test_union_of_two_patterns() {
    // The combined matcher accepts exactly what either single matcher accepts.
    let a = single("*.rs");
    let b = single("target");
    let both = PatternMatcher::new(&["*.rs".to_string(), "target".to_string()]);
    for path in [
        "main.rs",
        "target/debug/main",
        "src/lib.rs",
        "notes.txt",
        "target",
        "a/target/b.py",
    ] {
        assert_eq!(
            both.matches_path(path),
            a.matches_path(path) || b.matches_path(path),
            "union mismatch for {}",
            path
        );
    }
}

#[test]
fn test_pattern_trimming() {
    let matcher = single("  *.rs\n");
    assert!(matcher.matches_path("main.rs"));
    assert!(!matcher.matches_path("main.py"));
}

#[test]
fn test_nul_byte_exclusion_scenario() {
    // A file whose first bytes contain a NUL byte is rejected even though it
    // matches an include pattern and is under the size limit.
    let exclude = PatternMatcher::new(&[]);
    let included = single("*.rs");
    let max = max_size_bytes(10);
    assert!(admits_file("src/main.rs", &exclude, &included, 100, max, b"fn main() {}"));
    assert!(!admits_file("src/main.rs", &exclude, &included, 100, max, b"fn\x00main"));
}

#[test]
fn test_size_limits() {
    let exclude = PatternMatcher::new(&[]);
    let included = single("*.rs");
    assert!(should_include_file("a.rs", &exclude, &included, 1, 10));
    assert!(should_include_file("a.rs", &exclude, &included, 10, 10));
    assert!(!should_include_file("a.rs", &exclude, &included, 11, 10));
    assert!(!should_include_file("a.rs", &exclude, &included, 0, 10));
    assert!(!should_include_file("a.py", &exclude, &included, 5, 10));
    let exclude = single("*.rs");
    assert!(!should_include_file("a.rs", &exclude, &included, 5, 10));
}

#[test]
fn test_max_size_bytes_conversion() {
    assert_eq!(max_size_bytes(1), 1024 * 1024);
    assert_eq!(max_size_bytes(10), 10 * 1024 * 1024);
    assert_eq!(max_size_bytes(0), 0);
}

#[test]
fn test_directory_pruning_decision() {
    // Built-in skip names prune regardless of the exclude patterns.
    let exclude = PatternMatcher::new(&[]);
    assert!(should_skip_directory("project/.git", &exclude));
    assert!(should_skip_directory("node_modules", &exclude));
    assert!(should_skip_directory("deep/nested/target", &exclude));
    assert!(!should_skip_directory("project/src", &exclude));

    // Excluded names prune too.
    let exclude = single("generated");
    assert!(should_skip_directory("src/generated", &exclude));
    assert!(!should_skip_directory("src/handwritten", &exclude));
}

#[test]
fn test_dotfile_extension() {
    // The extension is everything after the last dot of the filename, so a
    // dotfile's whole tail counts as its extension.
    let matcher = single("*.gitignore");
    assert!(matcher.matches_path(".gitignore"));
    assert!(matcher.matches_path("project/.gitignore"));
    assert!(!matcher.matches_path("gitignore"));
}

#[test]
fn test_empty_pattern_matches_nothing() {
    let matcher = single("");
    assert!(!matcher.matches_path("file"));
    assert!(!matcher.matches_path(""));
    assert!(!matcher.matches_path("a/b"));
}

#[test]
fn test_build_exclude_patterns_additive() {
    let extra = vec!["custom.tmp".to_string()];
    let patterns = build_exclude_patterns(&extra);
    // Defaults stay, the extra pattern is appended.
    assert!(patterns.iter().any(|p| p == "*.log"));
    assert_eq!(patterns.last().unwrap(), "custom.tmp");
}

#[test]
fn test_build_include_patterns_replacing() {
    // Without user patterns the defaults are used.
    let patterns = build_include_patterns(&[]);
    assert!(patterns.iter().any(|p| p == "*.rs"));

    // User patterns replace the defaults entirely.
    let user = vec!["*.frm".to_string()];
    let patterns = build_include_patterns(&user);
    assert_eq!(patterns, vec!["*.frm".to_string()]);
}
