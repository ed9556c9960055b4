use catnip::file_collector::is_binary_file;
use catnip::language_detection::get_language_from_extension;

#[test]
fn test_get_language_from_extension() {
    assert_eq!(get_language_from_extension("main.rs"), "rust");
    assert_eq!(get_language_from_extension("script.py"), "python");
    assert_eq!(get_language_from_extension("app.js"), "javascript");
    assert_eq!(get_language_from_extension("component.tsx"), "jsx");
    assert_eq!(get_language_from_extension("Dockerfile"), "dockerfile");
    assert_eq!(get_language_from_extension("Makefile"), "makefile");
    assert_eq!(get_language_from_extension("unknown.xyz"), "text");
}

#[test]
fn test_is_binary_file() {
    let text_content = b"Hello, world!\nThis is text.";
    assert!(!is_binary_file(text_content));

    let binary_content = b"Hello\x00\x01\x02World";
    assert!(is_binary_file(binary_content));

    let empty_content = b"";
    assert!(!is_binary_file(empty_content));

    let utf8_content = "Hello \u{4e16}\u{754c}".as_bytes();
    assert!(!is_binary_file(utf8_content));
}

#[test]
fn test_language_special_filenames() {
    assert_eq!(get_language_from_extension("project/Jenkinsfile"), "groovy");
    assert_eq!(get_language_from_extension("sub/dir/makefile"), "makefile");
    assert_eq!(get_language_from_extension("query.sql"), "sql");
    assert_eq!(get_language_from_extension("setup.sh"), "bash");
    assert_eq!(get_language_from_extension("doc.md"), "markdown");
    assert_eq!(get_language_from_extension("conf.yaml"), "yaml");
    assert_eq!(get_language_from_extension("conf.yml"), "yaml");
    assert_eq!(get_language_from_extension(""), "text");
}

#[test]
fn test_binary_sniff_limit() {
    // A NUL byte beyond the first 1024 bytes does not make a file binary.
    let mut late_nul = vec![b'a'; 1024];
    late_nul.push(0u8);
    assert!(!is_binary_file(&late_nul));

    // A NUL byte at position 1023 is still within the sniffed prefix.
    let mut edge_nul = vec![b'a'; 1023];
    edge_nul.push(0u8);
    assert!(is_binary_file(&edge_nul));
}
