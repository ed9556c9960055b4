use catnip::patch::{
    apply_code_update, apply_updates, contains_str, creation_content, is_file_creation,
    replace_all, CodeUpdate,
};

fn update(old: &str, new: &str) -> CodeUpdate {
    CodeUpdate {
        old_content: old.to_string(),
        new_content: new.to_string(),
        description: None,
    }
}

#[test]
fn test_contains_str() {
    assert!(contains_str("fn main() {}", "main"));
    assert!(contains_str("fn main() {}", ""));
    assert!(contains_str("abc", "abc"));
    assert!(!contains_str("abc", "abcd"));
    assert!(!contains_str("fn main() {}", "Main"));
    assert!(!contains_str("", "x"));
    assert!(contains_str("", ""));
}

#[test]
fn test_replace_all_exact() {
    assert_eq!(replace_all("aaa", "a", "b"), "bbb");
    assert_eq!(replace_all("banana", "na", "NA"), "baNANA");
    assert_eq!(replace_all("hello", "world", "x"), "hello");
    assert_eq!(replace_all("", "a", "b"), "");
    // Non-overlapping, left to right.
    assert_eq!(replace_all("aaaa", "aa", "b"), "bb");
    assert_eq!(replace_all("aaa", "aa", "b"), "ba");
    // The empty fragment is replaced before every character and at the end.
    assert_eq!(replace_all("aa", "", "b"), "babab");
}

#[test]
fn test_apply_code_update() {
    let updated = apply_code_update("let x = 1;", "1", "2").unwrap();
    assert_eq!(updated, "let x = 2;");
    assert!(apply_code_update("let x = 1;", "y", "z").is_none());
}

#[test]
fn test_apply_updates_in_order() {
    let updates = vec![update("one", "two"), update("two", "three")];
    let result = apply_updates("one", &updates).unwrap();
    assert_eq!(result, "three");

    // The first update whose old fragment is absent fails the whole list.
    let updates = vec![update("one", "two"), update("missing", "x")];
    assert!(apply_updates("one", &updates).is_none());

    let updates: Vec<CodeUpdate> = vec![];
    assert_eq!(apply_updates("keep", &updates).unwrap(), "keep");
}

#[test]
fn test_is_file_creation() {
    assert!(is_file_creation(&vec![update("", "line 1\n"), update("", "line 2\n")]));
    assert!(!is_file_creation(&vec![update("", "a"), update("old", "b")]));
    assert!(is_file_creation(&vec![]));
}

#[test]
fn test_creation_content() {
    let updates = vec![update("", "line 1\n"), update("", "line 2\n")];
    assert_eq!(creation_content(&updates), "line 1\nline 2\n");
    let updates: Vec<CodeUpdate> = vec![];
    assert_eq!(creation_content(&updates), "");
}
