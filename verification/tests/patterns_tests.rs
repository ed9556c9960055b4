use catnip::patterns::{default_exclude_patterns, default_include_patterns};

#[test]
fn test_default_exclude_patterns_not_empty() {
    let patterns = default_exclude_patterns();
    assert!(!patterns.is_empty());
    assert!(
        patterns.len() > 50,
        "Should have a reasonable number of exclusion patterns"
    );
}

#[test]
fn test_default_include_patterns_not_empty() {
    let patterns = default_include_patterns();
    assert!(!patterns.is_empty());
    assert!(
        patterns.len() > 30,
        "Should have a reasonable number of inclusion patterns"
    );
}

#[test]
fn patterns_tests_test_common_exclusion_patterns() {
    let patterns = default_exclude_patterns();

    // Compiled files
    assert!(patterns.contains(&"*.pyc"));
    assert!(patterns.contains(&"*.o"));
    assert!(patterns.contains(&"*.so"));
    assert!(patterns.contains(&"*.dll"));
    assert!(patterns.contains(&"*.exe"));

    // Version control
    assert!(patterns.contains(&".git/*"));
    assert!(patterns.contains(&".svn/*"));

    // Development artifacts
    assert!(patterns.contains(&"node_modules/*"));
    assert!(patterns.contains(&"__pycache__/*"));
    assert!(patterns.contains(&"target/*"));

    // System files
    assert!(patterns.contains(&".DS_Store"));
    assert!(patterns.contains(&"Thumbs.db"));

    // Media files
    assert!(patterns.contains(&"*.jpg"));
    assert!(patterns.contains(&"*.png"));
    assert!(patterns.contains(&"*.mp4"));

    // Archives
    assert!(patterns.contains(&"*.zip"));
    assert!(patterns.contains(&"*.tar"));

    // Logs
    assert!(patterns.contains(&"*.log"));
    assert!(patterns.contains(&"logs/*"));
}

#[test]
fn test_common_inclusion_patterns() {
    let patterns = default_include_patterns();

    // Programming languages
    assert!(patterns.contains(&"*.rs"));
    assert!(patterns.contains(&"*.py"));
    assert!(patterns.contains(&"*.js"));
    assert!(patterns.contains(&"*.ts"));
    assert!(patterns.contains(&"*.java"));
    assert!(patterns.contains(&"*.cpp"));
    assert!(patterns.contains(&"*.c"));
    assert!(patterns.contains(&"*.go"));

    // Web technologies
    assert!(patterns.contains(&"*.html"));
    assert!(patterns.contains(&"*.css"));
    assert!(patterns.contains(&"*.scss"));

    // Configuration files
    assert!(patterns.contains(&"*.json"));
    assert!(patterns.contains(&"*.yaml"));
    assert!(patterns.contains(&"*.yml"));
    assert!(patterns.contains(&"*.toml"));

    // Documentation
    assert!(patterns.contains(&"*.md"));
    assert!(patterns.contains(&"*.txt"));
    assert!(patterns.contains(&"README*"));

    // Build files
    assert!(patterns.contains(&"Makefile"));
    assert!(patterns.contains(&"Cargo.toml"));
    assert!(patterns.contains(&"package.json"));
    assert!(patterns.contains(&"Dockerfile*"));

    // Scripts
    assert!(patterns.contains(&"*.sh"));
    assert!(patterns.contains(&"*.bash"));

    // Database
    assert!(patterns.contains(&"*.sql"));
}

#[test]
fn test_no_duplicate_patterns() {
    // Check exclude patterns for duplicates
    let mut exclude_set = std::collections::HashSet::new();
    for pattern in default_exclude_patterns() {
        assert!(
            exclude_set.insert(pattern),
            "Duplicate exclude pattern: {}",
            pattern
        );
    }

    // Check include patterns for duplicates
    let mut include_set = std::collections::HashSet::new();
    for pattern in default_include_patterns() {
        assert!(
            include_set.insert(pattern),
            "Duplicate include pattern: {}",
            pattern
        );
    }
}

#[test]
fn test_patterns_are_glob_format() {
    // All patterns should be valid glob patterns (no regex syntax)
    for pattern in default_exclude_patterns() {
        assert!(
            !pattern.contains('\\'),
            "Pattern should not contain backslashes: {}",
            pattern
        );
        assert!(
            !pattern.contains('^'),
            "Pattern should not contain regex anchors: {}",
            pattern
        );
        assert!(
            !pattern.contains('$'),
            "Pattern should not contain regex anchors: {}",
            pattern
        );
        assert!(
            !pattern.contains('('),
            "Pattern should not contain regex groups: {}",
            pattern
        );
        assert!(
            !pattern.contains(')'),
            "Pattern should not contain regex groups: {}",
            pattern
        );
        assert!(
            !pattern.contains('+'),
            "Pattern should not contain regex quantifiers: {}",
            pattern
        );
        assert!(
            !pattern.contains('|'),
            "Pattern should not contain regex alternation: {}",
            pattern
        );
    }

    for pattern in default_include_patterns() {
        assert!(
            !pattern.contains('\\'),
            "Pattern should not contain backslashes: {}",
            pattern
        );
        assert!(
            !pattern.contains('^'),
            "Pattern should not contain regex anchors: {}",
            pattern
        );
        assert!(
            !pattern.contains('$'),
            "Pattern should not contain regex anchors: {}",
            pattern
        );
        assert!(
            !pattern.contains('('),
            "Pattern should not contain regex groups: {}",
            pattern
        );
        assert!(
            !pattern.contains(')'),
            "Pattern should not contain regex groups: {}",
            pattern
        );
        assert!(
            !pattern.contains('+'),
            "Pattern should not contain regex quantifiers: {}",
            pattern
        );
        assert!(
            !pattern.contains('|'),
            "Pattern should not contain regex alternation: {}",
            pattern
        );
    }
}

#[test]
fn test_exclude_include_overlap() {
    let excludes = default_exclude_patterns();
    let includes = default_include_patterns();
    let exclude_set: std::collections::HashSet<_> = excludes.iter().collect();
    let include_set: std::collections::HashSet<_> = includes.iter().collect();

    // There shouldn't be exact overlaps between exclude and include patterns
    let overlap: Vec<_> = exclude_set.intersection(&include_set).collect();
    assert!(
        overlap.is_empty(),
        "Found overlapping patterns: {:?}",
        overlap
    );
}

#[test]
fn test_pattern_consistency() {
    // Test that patterns follow consistent conventions

    // Extension patterns should start with *.
    let excludes = default_exclude_patterns();
    let includes = default_include_patterns();
    let extension_exclude: Vec<_> = excludes.iter().filter(|p| p.starts_with("*.")).collect();
    let extension_include: Vec<_> = includes.iter().filter(|p| p.starts_with("*.")).collect();

    assert!(
        !extension_exclude.is_empty(),
        "Should have extension exclusion patterns"
    );
    assert!(
        !extension_include.is_empty(),
        "Should have extension inclusion patterns"
    );

    // Directory patterns should end with /* or contain /
    let dir_patterns: Vec<_> = excludes.iter().filter(|p| p.contains('/')).collect();

    assert!(!dir_patterns.is_empty(), "Should have directory patterns");
}

#[test]
fn test_language_coverage() {
    // Test that major programming languages are covered
    let languages = [
        "rs", "py", "js", "ts", "java", "cpp", "c", "go", "php", "rb", "swift", "kt", "scala",
        "clj", "cs", "fs", "dart", "lua", "pl", "r",
    ];

    let patterns = default_include_patterns();
    for lang in &languages {
        let pattern = format!("*.{}", lang);
        assert!(
            patterns.contains(&pattern.as_str()),
            "Missing include pattern for language: {}",
            lang
        );
    }
}

#[test]
fn test_build_tool_coverage() {
    // Test that major build tools and config files are covered
    let build_files = [
        "Cargo.toml",
        "package.json",
        "pom.xml",
        "build.gradle",
        "Makefile",
        "CMakeLists.txt",
        "setup.py",
        "pyproject.toml",
        "Gemfile",
        "go.mod",
    ];

    let patterns = default_include_patterns();
    for file in &build_files {
        assert!(
            patterns.contains(file) || patterns.iter().any(|p| p.contains(file)),
            "Missing include pattern for build file: {}",
            file
        );
    }
}

#[test]
fn test_default_exclude_patterns() {
    let patterns = default_exclude_patterns();
    assert!(!patterns.is_empty());
    assert!(patterns.contains(&"*.pyc"));
    assert!(patterns.contains(&".git/*"));
    assert!(patterns.contains(&"*/node_modules*"));
    assert!(patterns.contains(&"*.log"));
}

#[test]
fn test_default_include_patterns() {
    let patterns = default_include_patterns();
    assert!(!patterns.is_empty());
    assert!(patterns.contains(&"*.rs"));
    assert!(patterns.contains(&"*.py"));
    assert!(patterns.contains(&"*.js"));
    assert!(patterns.contains(&"Cargo.toml"));
}
