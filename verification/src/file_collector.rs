//! Admission rules for the file-collection walk: binary sniffing, directory
//! pruning and per-file admission checks.  The walk itself does the reading;
//! every decision it takes is made here, on plain values.

use vstd::prelude::*;
use crate::pattern_matcher::{PatternMatcher, matcher_matches};
use crate::paths::{filename_of, path_components};
use crate::text::str_eq;

verus! {

/// How many leading bytes of a file the binary sniff inspects.
pub const BINARY_SNIFF_LEN: usize = 1024;

/// A byte sequence counts as binary when a NUL byte occurs among its first
/// `BINARY_SNIFF_LEN` bytes.
pub open spec fn is_binary_spec(content: Seq<u8>) -> bool {
    exists|i: int| 0 <= i < content.len() && i < BINARY_SNIFF_LEN && content[i] == 0u8
}

/// Content sniff: report whether the first `BINARY_SNIFF_LEN` bytes contain a
/// NUL byte, the heuristic that classifies a file as binary.
pub fn is_binary_file(content: &[u8]) -> (r: bool)
    ensures
        r == is_binary_spec(content@),
{
    let check_len = if content.len() < BINARY_SNIFF_LEN {
        content.len()
    } else {
        BINARY_SNIFF_LEN
    };
    let mut i: usize = 0;
    while i < check_len
        invariant
            0 <= i <= check_len,
            check_len <= content@.len(),
            check_len == if content@.len() < BINARY_SNIFF_LEN as int {
                content@.len() as int
            } else {
                BINARY_SNIFF_LEN as int
            },
            forall|j: int| 0 <= j < i ==> content@[j] != 0u8,
        decreases check_len - i,
    {
        if *vstd::slice::slice_index_get(content, i) == 0u8 {
            return true;
        }
        i = i + 1;
    }
    false
}

/// Directory names that every walk prunes, whatever the exclude patterns
/// say: version-control stores and dependency or build caches.
pub open spec fn is_builtin_skip_name(name: Seq<char>) -> bool {
    ||| name == ".git"@
    ||| name == ".svn"@
    ||| name == ".hg"@
    ||| name == ".bzr"@
    ||| name == "node_modules"@
    ||| name == "__pycache__"@
    ||| name == ".mypy_cache"@
    ||| name == ".pytest_cache"@
    ||| name == ".vscode"@
    ||| name == ".idea"@
    ||| name == "target"@
    ||| name == "build"@
    ||| name == "dist"@
    ||| name == "out"@
}

/// Directory pruning: a directory is never entered when its own name is on
/// the built-in skip list or the whole path matches the exclude matcher.
/// Skipping before descent is what keeps an excluded subtree's size and
/// readability from ever mattering.
pub fn should_skip_directory(path: &str, exclude_matcher: &PatternMatcher) -> (r: bool)
    ensures
        r == (is_builtin_skip_name(filename_of(path@)) || matcher_matches(
            exclude_matcher@,
            path@,
        )),
{
    let comps = path_components(path);
    if comps.len() == 0 {
        proof {
            reveal_strlit(".git");
            reveal_strlit(".svn");
            reveal_strlit(".hg");
            reveal_strlit(".bzr");
            reveal_strlit("node_modules");
            reveal_strlit("__pycache__");
            reveal_strlit(".mypy_cache");
            reveal_strlit(".pytest_cache");
            reveal_strlit(".vscode");
            reveal_strlit(".idea");
            reveal_strlit("target");
            reveal_strlit("build");
            reveal_strlit("dist");
            reveal_strlit("out");
            assert(filename_of(path@).len() == 0);
            assert(!is_builtin_skip_name(filename_of(path@)));
        }
    } else {
        let name: &str = comps[comps.len() - 1];
        proof {
            assert(crate::paths::views_of(comps@)[comps@.len() - 1] == name@);
            assert(filename_of(path@) == name@);
        }
        if str_eq(name, ".git") || str_eq(name, ".svn") || str_eq(name, ".hg") || str_eq(
            name,
            ".bzr",
        ) || str_eq(name, "node_modules") || str_eq(name, "__pycache__") || str_eq(
            name,
            ".mypy_cache",
        ) || str_eq(name, ".pytest_cache") || str_eq(name, ".vscode") || str_eq(name, ".idea")
            || str_eq(name, "target") || str_eq(name, "build") || str_eq(name, "dist") || str_eq(
            name,
            "out",
        ) {
            return true;
        }
    }
    exclude_matcher.matches_path(path)
}

/// Pattern and size admission: the path is not excluded, is included, and
/// the file is neither empty nor over the size limit.
pub fn should_include_file(
    path: &str,
    exclude_matcher: &PatternMatcher,
    include_matcher: &PatternMatcher,
    size_bytes: u64,
    max_size_bytes: u64,
) -> (r: bool)
    ensures
        r == (!matcher_matches(exclude_matcher@, path@) && matcher_matches(include_matcher@, path@)
            && 0 < size_bytes <= max_size_bytes),
{
    if exclude_matcher.matches_path(path) {
        return false;
    }
    if !include_matcher.matches_path(path) {
        return false;
    }
    size_bytes > 0 && size_bytes <= max_size_bytes
}

/// Full file admission: the pattern and size rules hold and the first bytes
/// of the content carry no NUL byte.
pub fn admits_file(
    path: &str,
    exclude_matcher: &PatternMatcher,
    include_matcher: &PatternMatcher,
    size_bytes: u64,
    max_size_bytes: u64,
    head: &[u8],
) -> (r: bool)
    ensures
        r == (!matcher_matches(exclude_matcher@, path@) && matcher_matches(include_matcher@, path@)
            && 0 < size_bytes <= max_size_bytes && !is_binary_spec(head@)),
{
    should_include_file(path, exclude_matcher, include_matcher, size_bytes, max_size_bytes)
        && !is_binary_file(head)
}

/// The size limit in bytes for a limit given in whole mebibytes.
pub fn max_size_bytes(max_size_mb: u64) -> (r: u64)
    requires
        max_size_mb * 1024 * 1024 <= u64::MAX,
    ensures
        r == max_size_mb * 1024 * 1024,
{
    max_size_mb * 1024 * 1024
}

} // verus!
