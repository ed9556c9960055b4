//! The pattern matcher.  Raw pattern strings are classified once into four
//! buckets — exact filenames, exact extensions, exact directory names and
//! compiled globs — and a path matches when any bucket accepts it.
//!
//! Classification of a trimmed pattern, first rule wins:
//! 1. `*.` followed by a suffix free of `*`, `?`, `/`: an exact extension.
//! 2. no `*`, `?`, `/` at all: an exact name, matched against every path
//!    component.
//! 3. after stripping an optional trailing `/*`, no `*`, `?`, `/`, `.`: an
//!    exact directory name, matched against every path component.  This
//!    makes `dir` and `dir/*` equivalent inputs.
//! 4. anything else: a compiled glob, matched against the whole path.

use vstd::prelude::*;
use vstd::hash_set::StringHashSet;
use crate::glob::{
    GPart,
    GlobPattern,
    glob_match,
    parse_glob_spec,
    parse_glob_pattern,
    matches_glob,
};
use crate::paths::{components_of, extension_of, views_of, path_components, path_extension};
use crate::text::{trim_spec, trimmed, chars_of};

verus! {

/// Whether `c` occurs in `p`.
pub open spec fn contains_char(p: Seq<char>, c: char) -> bool {
    exists|i: int| 0 <= i < p.len() && p[i] == c
}

/// Rule 1: `*.` plus a suffix that holds no wildcard and no separator.
pub open spec fn is_extension_pattern(p: Seq<char>) -> bool {
    &&& p.len() >= 2
    &&& p[0] == '*'
    &&& p[1] == '.'
    &&& !contains_char(p.skip(2), '*')
    &&& !contains_char(p.skip(2), '?')
    &&& !contains_char(p.skip(2), '/')
}

/// Rule 2: no wildcard and no separator anywhere.
pub open spec fn is_filename_pattern(p: Seq<char>) -> bool {
    &&& !contains_char(p, '*')
    &&& !contains_char(p, '?')
    &&& !contains_char(p, '/')
}

/// Whether `p` ends in `/*`.
pub open spec fn ends_slash_star(p: Seq<char>) -> bool {
    p.len() >= 2 && p[p.len() - 2] == '/' && p[p.len() - 1] == '*'
}

/// `p` with a trailing `/*` stripped, when it has one.
pub open spec fn dir_stem(p: Seq<char>) -> Seq<char> {
    if ends_slash_star(p) {
        p.take(p.len() - 2)
    } else {
        p
    }
}

/// Rule 3: after stripping an optional trailing `/*`, no wildcard, no
/// separator and no dot.
pub open spec fn is_directory_pattern(p: Seq<char>) -> bool {
    &&& !contains_char(dir_stem(p), '*')
    &&& !contains_char(dir_stem(p), '?')
    &&& !contains_char(dir_stem(p), '/')
    &&& !contains_char(dir_stem(p), '.')
}

/// The bucket a trimmed pattern falls into.
pub enum PatternClass {
    Extension(Seq<char>),
    Filename(Seq<char>),
    Directory(Seq<char>),
    Glob(Seq<GPart>),
}

/// Classify a trimmed pattern, first rule that fits wins.  Every string is
/// classified; classification cannot fail.
pub open spec fn classify(p: Seq<char>) -> PatternClass {
    if is_extension_pattern(p) {
        PatternClass::Extension(p.skip(2))
    } else if is_filename_pattern(p) {
        PatternClass::Filename(p)
    } else if is_directory_pattern(p) {
        PatternClass::Directory(dir_stem(p))
    } else {
        PatternClass::Glob(parse_glob_spec(p))
    }
}

/// The mathematical content of a compiled matcher: three sets of exact keys
/// and the ordered compiled globs.
pub struct MatcherView {
    pub filenames: Set<Seq<char>>,
    pub extensions: Set<Seq<char>>,
    pub directories: Set<Seq<char>>,
    pub globs: Seq<Seq<GPart>>,
}

/// The matcher that accepts nothing.
pub open spec fn empty_matcher() -> MatcherView {
    MatcherView {
        filenames: Set::empty(),
        extensions: Set::empty(),
        directories: Set::empty(),
        globs: Seq::empty(),
    }
}

/// `m` extended with one trimmed pattern, according to its bucket.
pub open spec fn matcher_insert(m: MatcherView, p: Seq<char>) -> MatcherView {
    match classify(p) {
        PatternClass::Extension(e) => MatcherView { extensions: m.extensions.insert(e), ..m },
        PatternClass::Filename(f) => MatcherView { filenames: m.filenames.insert(f), ..m },
        PatternClass::Directory(d) => MatcherView { directories: m.directories.insert(d), ..m },
        PatternClass::Glob(g) => MatcherView { globs: m.globs.push(g), ..m },
    }
}

/// The matcher compiled from a list of raw pattern strings: each is trimmed
/// and inserted into its bucket, in order.
pub open spec fn compile_spec(pats: Seq<Seq<char>>) -> MatcherView
    decreases pats.len(),
{
    if pats.len() == 0 {
        empty_matcher()
    } else {
        matcher_insert(compile_spec(pats.drop_last()), trim_spec(pats.last()))
    }
}

/// Whether a path matches the matcher: some component is a registered exact
/// name, or the extension is registered, or some component is a registered
/// directory name, or some compiled glob matches the whole path.
pub open spec fn matcher_matches(m: MatcherView, path: Seq<char>) -> bool {
    ||| exists|i: int|
        0 <= i < components_of(path).len() && m.filenames.contains(components_of(path)[i])
    ||| (extension_of(path) is Some && m.extensions.contains(extension_of(path)->0))
    ||| exists|i: int|
        0 <= i < components_of(path).len() && m.directories.contains(components_of(path)[i])
    ||| exists|i: int| 0 <= i < m.globs.len() && glob_match(path, m.globs[i])
}

/// Views of a sequence of compiled glob patterns.
pub open spec fn globs_view(gs: Seq<GlobPattern>) -> Seq<Seq<GPart>> {
    gs.map_values(|g: GlobPattern| g@)
}

/// An immutable pattern matcher, compiled once from raw pattern strings and
/// then queried only.
pub struct PatternMatcher {
    exact_filenames: StringHashSet,
    exact_extensions: StringHashSet,
    exact_directories: StringHashSet,
    glob_patterns: Vec<GlobPattern>,
}

impl View for PatternMatcher {
    type V = MatcherView;

    closed spec fn view(&self) -> MatcherView {
        MatcherView {
            filenames: self.exact_filenames@,
            extensions: self.exact_extensions@,
            directories: self.exact_directories@,
            globs: globs_view(self.glob_patterns@),
        }
    }
}

/// Whether `c` occurs in `cs` between `from` and `to`.
fn chars_contain(cs: &Vec<char>, from: usize, to: usize, c: char) -> (r: bool)
    requires
        from <= to <= cs@.len(),
    ensures
        r == contains_char(cs@.subrange(from as int, to as int), c),
{
    let mut i: usize = from;
    while i < to
        invariant
            from <= i <= to <= cs@.len(),
            forall|j: int| from <= j < i ==> cs@[j] != c,
        decreases to - i,
    {
        if cs[i] == c {
            proof {
                assert(cs@.subrange(from as int, to as int)[i - from] == c);
            }
            return true;
        }
        i = i + 1;
    }
    proof {
        assert forall|j: int|
            0 <= j < to - from implies cs@.subrange(from as int, to as int)[j] != c by {
            assert(cs@.subrange(from as int, to as int)[j] == cs@[from + j]);
        }
    }
    false
}

impl PatternMatcher {
    /// Classify one trimmed pattern string and insert it into its bucket.
    pub fn categorize_pattern(
        pattern: &str,
        exact_filenames: &mut StringHashSet,
        exact_extensions: &mut StringHashSet,
        exact_directories: &mut StringHashSet,
        glob_patterns: &mut Vec<GlobPattern>,
    )
        ensures
            ({
                let before = MatcherView {
                    filenames: old(exact_filenames)@,
                    extensions: old(exact_extensions)@,
                    directories: old(exact_directories)@,
                    globs: globs_view(old(glob_patterns)@),
                };
                let after = matcher_insert(before, pattern@);
                &&& final(exact_filenames)@ == after.filenames
                &&& final(exact_extensions)@ == after.extensions
                &&& final(exact_directories)@ == after.directories
                &&& globs_view(final(glob_patterns)@) == after.globs
            }),
    {
        let cs = chars_of(pattern);
        let n = cs.len();

        // Rule 1: extension patterns such as `*.rs`.
        if n >= 2 && cs[0] == '*' && cs[1] == '.' {
            let star_after = chars_contain(&cs, 2, n, '*');
            let question_after = chars_contain(&cs, 2, n, '?');
            let slash_after = chars_contain(&cs, 2, n, '/');
            proof {
                assert(cs@.subrange(2, n as int) =~= pattern@.skip(2));
            }
            if !star_after && !question_after && !slash_after {
                let key = pattern.substring_char(2, n);
                proof {
                    assert(key@ =~= pattern@.skip(2));
                }
                exact_extensions.insert(key.to_owned());
                return ;
            }
        }

        // Rule 2: exact names such as `Cargo.toml`.
        let star_any = chars_contain(&cs, 0, n, '*');
        let question_any = chars_contain(&cs, 0, n, '?');
        let slash_any = chars_contain(&cs, 0, n, '/');
        proof {
            assert(cs@.subrange(0, n as int) =~= pattern@);
        }
        if !star_any && !question_any && !slash_any {
            exact_filenames.insert(pattern.to_owned());
            return ;
        }

        // Rule 3: directory names, `dir` and `dir/*` alike.
        let stem_len: usize = if n >= 2 && cs[n - 2] == '/' && cs[n - 1] == '*' {
            n - 2
        } else {
            n
        };
        proof {
            assert(cs@.subrange(0, stem_len as int) =~= dir_stem(pattern@));
        }
        let stem_star = chars_contain(&cs, 0, stem_len, '*');
        let stem_question = chars_contain(&cs, 0, stem_len, '?');
        let stem_slash = chars_contain(&cs, 0, stem_len, '/');
        let stem_dot = chars_contain(&cs, 0, stem_len, '.');
        if !stem_star && !stem_question && !stem_slash && !stem_dot {
            let stem = pattern.substring_char(0, stem_len);
            proof {
                assert(stem@ =~= dir_stem(pattern@));
            }
            exact_directories.insert(stem.to_owned());
            return ;
        }

        // Rule 4: everything else compiles to a glob.
        let ghost old_globs = globs_view(glob_patterns@);
        let compiled = parse_glob_pattern(pattern);
        glob_patterns.push(compiled);
        proof {
            assert(globs_view(glob_patterns@) =~= old_globs.push(parse_glob_spec(pattern@)));
        }
    }

    /// Compile a matcher from raw pattern strings.  Each pattern is trimmed
    /// and classified into exactly one bucket; compilation cannot fail.
    pub fn new(patterns: &[String]) -> (r: Self)
        ensures
            r@ == compile_spec(patterns@.map_values(|s: String| s@)),
    {
        let ghost pat_views = patterns@.map_values(|s: String| s@);
        let mut exact_filenames = StringHashSet::new();
        let mut exact_extensions = StringHashSet::new();
        let mut exact_directories = StringHashSet::new();
        let mut glob_patterns: Vec<GlobPattern> = Vec::new();
        let n = patterns.len();
        let mut i: usize = 0;
        proof {
            assert(globs_view(glob_patterns@) =~= Seq::<Seq<GPart>>::empty());
            assert(pat_views.take(0) =~= Seq::<Seq<char>>::empty());
        }
        while i < n
            invariant
                0 <= i <= n,
                n == patterns@.len(),
                pat_views == patterns@.map_values(|s: String| s@),
                exact_filenames@ == compile_spec(pat_views.take(i as int)).filenames,
                exact_extensions@ == compile_spec(pat_views.take(i as int)).extensions,
                exact_directories@ == compile_spec(pat_views.take(i as int)).directories,
                globs_view(glob_patterns@) == compile_spec(pat_views.take(i as int)).globs,
            decreases n - i,
        {
            let p: &String = vstd::slice::slice_index_get(patterns, i);
            let t = trimmed(p.as_str());
            Self::categorize_pattern(
                t,
                &mut exact_filenames,
                &mut exact_extensions,
                &mut exact_directories,
                &mut glob_patterns,
            );
            proof {
                assert(pat_views.take(i + 1).drop_last() =~= pat_views.take(i as int));
                assert(pat_views.take(i + 1).last() == patterns@[i as int]@);
            }
            i = i + 1;
        }
        proof {
            assert(pat_views.take(n as int) =~= pat_views);
        }
        PatternMatcher { exact_filenames, exact_extensions, exact_directories, glob_patterns }
    }

    /// Whether the path matches any registered pattern: an exact name among
    /// its components, a registered extension, a registered directory name
    /// among its components, or a compiled glob over the whole path.
    pub fn matches_path(&self, path: &str) -> (r: bool)
        ensures
            r == matcher_matches(self@, path@),
    {
        let comps = path_components(path);
        let ncomp = comps.len();

        // Fast exact name check, against every component.
        let mut i: usize = 0;
        while i < ncomp
            invariant
                0 <= i <= ncomp,
                ncomp == comps@.len(),
                views_of(comps@) == components_of(path@),
                forall|j: int| 0 <= j < i ==> !self@.filenames.contains(components_of(path@)[j]),
            decreases ncomp - i,
        {
            if self.exact_filenames.contains(comps[i]) {
                proof {
                    assert(components_of(path@)[i as int] == comps@[i as int]@);
                }
                return true;
            }
            proof {
                assert(components_of(path@)[i as int] == comps@[i as int]@);
            }
            i = i + 1;
        }

        // Fast extension check.
        match path_extension(path) {
            Some(ext) => {
                if self.exact_extensions.contains(ext) {
                    return true;
                }
            },
            None => {},
        }

        // Fast directory check, against every component.
        let mut i: usize = 0;
        while i < ncomp
            invariant
                0 <= i <= ncomp,
                ncomp == comps@.len(),
                views_of(comps@) == components_of(path@),
                forall|j: int| 0 <= j < i ==> !self@.directories.contains(components_of(path@)[j]),
            decreases ncomp - i,
        {
            if self.exact_directories.contains(comps[i]) {
                proof {
                    assert(components_of(path@)[i as int] == comps@[i as int]@);
                }
                return true;
            }
            proof {
                assert(components_of(path@)[i as int] == comps@[i as int]@);
            }
            i = i + 1;
        }

        // Glob patterns over the whole path, in registration order.
        let cs = chars_of(path);
        let nglob = self.glob_patterns.len();
        let mut i: usize = 0;
        while i < nglob
            invariant
                0 <= i <= nglob,
                nglob == self.glob_patterns@.len(),
                cs@ == path@,
                forall|j: int| 0 <= j < i ==> !glob_match(path@, self@.globs[j]),
            decreases nglob - i,
        {
            if matches_glob(&cs, &self.glob_patterns[i]) {
                proof {
                    assert(self@.globs[i as int] == self.glob_patterns@[i as int]@);
                }
                return true;
            }
            proof {
                assert(self@.globs[i as int] == self.glob_patterns@[i as int]@);
            }
            i = i + 1;
        }
        proof {
            assert(self@.globs.len() == self.glob_patterns@.len());
        }
        false
    }
}

/// Looking a path's components up in `s.insert(x)` succeeds exactly when
/// the lookup in `s` succeeds or some component is `x`.
proof fn lemma_component_lookup_insert(path: Seq<char>, s: Set<Seq<char>>, x: Seq<char>)
    ensures
        (exists|i: int|
            0 <= i < components_of(path).len() && s.insert(x).contains(components_of(path)[i]))
            <==> ((exists|i: int|
            0 <= i < components_of(path).len() && s.contains(components_of(path)[i])) || (
        exists|i: int|
            0 <= i < components_of(path).len() && components_of(path)[i] == x)),
{
    let comps = components_of(path);
    if exists|i: int| 0 <= i < comps.len() && s.insert(x).contains(comps[i]) {
        let i = choose|i: int| 0 <= i < comps.len() && s.insert(x).contains(comps[i]);
        if s.contains(comps[i]) {
        } else {
            assert(comps[i] == x);
        }
    }
    if exists|i: int| 0 <= i < comps.len() && s.contains(comps[i]) {
        let i = choose|i: int| 0 <= i < comps.len() && s.contains(comps[i]);
        assert(s.insert(x).contains(comps[i]));
    }
    if exists|i: int| 0 <= i < comps.len() && comps[i] == x {
        let i = choose|i: int| 0 <= i < comps.len() && comps[i] == x;
        assert(s.insert(x).contains(comps[i]));
    }
}

/// Extending a matcher with one more trimmed pattern accepts exactly the
/// paths the old matcher accepted plus those the pattern alone accepts.
proof fn lemma_insert_matches(m: MatcherView, q: Seq<char>, path: Seq<char>)
    ensures
        matcher_matches(matcher_insert(m, q), path) <==> (matcher_matches(m, path)
            || matcher_matches(matcher_insert(empty_matcher(), q), path)),
{
    let m1 = matcher_insert(m, q);
    let s1 = matcher_insert(empty_matcher(), q);
    match classify(q) {
        PatternClass::Extension(e) => {
            assert(m1.extensions == m.extensions.insert(e));
            assert(m1.filenames == m.filenames);
            assert(m1.directories == m.directories);
            assert(m1.globs == m.globs);
            assert(s1.extensions == Set::<Seq<char>>::empty().insert(e));
            assert(s1.filenames == Set::<Seq<char>>::empty());
            assert(s1.globs == Seq::<Seq<GPart>>::empty());
            assert(matcher_matches(m1, path) <==> (matcher_matches(m, path) || matcher_matches(s1, path)));
        },
        PatternClass::Filename(f) => {
            assert(m1.filenames == m.filenames.insert(f));
            assert(m1.extensions == m.extensions);
            assert(m1.directories == m.directories);
            assert(m1.globs == m.globs);
            assert(s1.filenames == Set::<Seq<char>>::empty().insert(f));
            assert(s1.extensions == Set::<Seq<char>>::empty());
            assert(s1.directories == Set::<Seq<char>>::empty());
            assert(s1.globs == Seq::<Seq<GPart>>::empty());
            lemma_component_lookup_insert(path, m.filenames, f);
            lemma_component_lookup_insert(path, Set::empty(), f);
            assert(matcher_matches(m1, path) <==> (matcher_matches(m, path) || matcher_matches(s1, path)));
        },
        PatternClass::Directory(d) => {
            assert(m1.directories == m.directories.insert(d));
            assert(m1.extensions == m.extensions);
            assert(m1.filenames == m.filenames);
            assert(m1.globs == m.globs);
            assert(s1.directories == Set::<Seq<char>>::empty().insert(d));
            assert(s1.extensions == Set::<Seq<char>>::empty());
            assert(s1.filenames == Set::<Seq<char>>::empty());
            assert(s1.globs == Seq::<Seq<GPart>>::empty());
            lemma_component_lookup_insert(path, m.directories, d);
            lemma_component_lookup_insert(path, Set::empty(), d);
            assert(matcher_matches(m1, path) <==> (matcher_matches(m, path) || matcher_matches(s1, path)));
        },
        PatternClass::Glob(g) => {
            assert(m1.globs == m.globs.push(g));
            assert(s1.globs =~= seq![g]);
            if matcher_matches(m1, path) {
                if exists|i: int| 0 <= i < m1.globs.len() && glob_match(path, m1.globs[i]) {
                    let i = choose|i: int|
                        0 <= i < m1.globs.len() && glob_match(path, m1.globs[i]);
                    if i < m.globs.len() {
                        assert(glob_match(path, m.globs[i]));
                    } else {
                        assert(glob_match(path, s1.globs[0]));
                    }
                }
            }
            if matcher_matches(m, path) {
                if exists|i: int| 0 <= i < m.globs.len() && glob_match(path, m.globs[i]) {
                    let i = choose|i: int| 0 <= i < m.globs.len() && glob_match(path, m.globs[i]);
                    assert(glob_match(path, m1.globs[i]));
                }
            }
            if matcher_matches(s1, path) {
                if glob_match(path, s1.globs[0]) {
                    assert(glob_match(path, m1.globs[m.globs.len() as int]));
                }
            }
        },
    }
}

/// Union law over whole pattern lists: the matcher compiled from the
/// concatenation of two lists accepts a path exactly when one of the two
/// separately compiled matchers accepts it.
pub proof fn lemma_union(pats1: Seq<Seq<char>>, pats2: Seq<Seq<char>>, path: Seq<char>)
    ensures
        matcher_matches(compile_spec(pats1 + pats2), path) <==> (matcher_matches(
            compile_spec(pats1),
            path,
        ) || matcher_matches(compile_spec(pats2), path)),
    decreases pats2.len(),
{
    if pats2.len() == 0 {
        assert(pats1 + pats2 =~= pats1);
    } else {
        let q = pats2.last();
        let rest2 = pats2.drop_last();
        assert((pats1 + pats2).drop_last() =~= pats1 + rest2);
        assert((pats1 + pats2).last() == q);
        lemma_union(pats1, rest2, path);
        lemma_insert_matches(compile_spec(pats1 + rest2), trim_spec(q), path);
        lemma_insert_matches(compile_spec(rest2), trim_spec(q), path);
    }
}

/// Union law for two single patterns: the matcher compiled from both accepts
/// a path exactly when one of the single-pattern matchers does.
pub proof fn lemma_union_pair(a: Seq<char>, b: Seq<char>, path: Seq<char>)
    ensures
        matcher_matches(compile_spec(seq![a, b]), path) <==> (matcher_matches(
            compile_spec(seq![a]),
            path,
        ) || matcher_matches(compile_spec(seq![b]), path)),
{
    assert(seq![a] + seq![b] =~= seq![a, b]);
    lemma_union(seq![a], seq![b], path);
}

/// The accepted path set does not depend on the order in which two pattern
/// lists are registered.
pub proof fn lemma_order_independent(pats1: Seq<Seq<char>>, pats2: Seq<Seq<char>>, path: Seq<char>)
    ensures
        matcher_matches(compile_spec(pats1 + pats2), path) == matcher_matches(
            compile_spec(pats2 + pats1),
            path,
        ),
{
    lemma_union(pats1, pats2, path);
    lemma_union(pats2, pats1, path);
}

/// A matcher compiled from one extension pattern `*.<e>` accepts a path
/// exactly when the path's extension is `e`, compared character for
/// character.
pub proof fn lemma_extension_pattern_exact(p: Seq<char>, path: Seq<char>)
    requires
        is_extension_pattern(trim_spec(p)),
    ensures
        matcher_matches(compile_spec(seq![p]), path) <==> extension_of(path) == Some(
            trim_spec(p).skip(2),
        ),
{
    let m = compile_spec(seq![p]);
    assert(seq![p].drop_last() =~= Seq::<Seq<char>>::empty());
    assert(compile_spec(Seq::<Seq<char>>::empty()) == empty_matcher());
    assert(seq![p].last() == p);
    assert(m.extensions == Set::<Seq<char>>::empty().insert(trim_spec(p).skip(2)));
}

/// A matcher compiled from one exact-name pattern `f` (no wildcard, no
/// separator) accepts a path exactly when `f` is one of the path's
/// components.
pub proof fn lemma_name_pattern_exact(f: Seq<char>, path: Seq<char>)
    requires
        trim_spec(f) == f,
        !contains_char(f, '*'),
        !contains_char(f, '?'),
        !contains_char(f, '/'),
    ensures
        matcher_matches(compile_spec(seq![f]), path) <==> components_of(path).contains(f),
{
    let m = compile_spec(seq![f]);
    assert(seq![f].drop_last() =~= Seq::<Seq<char>>::empty());
    assert(compile_spec(Seq::<Seq<char>>::empty()) == empty_matcher());
    assert(seq![f].last() == f);
    assert(!is_extension_pattern(f));
    assert(m.filenames == Set::<Seq<char>>::empty().insert(f));
    if matcher_matches(m, path) {
        let i = choose|i: int|
            0 <= i < components_of(path).len() && m.filenames.contains(components_of(path)[i]);
        assert(components_of(path)[i] == f);
    }
    if components_of(path).contains(f) {
        let i = choose|i: int| 0 <= i < components_of(path).len() && components_of(path)[i] == f;
        assert(m.filenames.contains(components_of(path)[i]));
    }
}

/// A matcher compiled from one directory pattern `d` (no wildcard, no
/// separator, no dot) accepts a path exactly when `d` is one of the path's
/// components.
pub proof fn lemma_directory_pattern_exact(d: Seq<char>, path: Seq<char>)
    requires
        trim_spec(d) == d,
        !contains_char(d, '*'),
        !contains_char(d, '?'),
        !contains_char(d, '/'),
        !contains_char(d, '.'),
    ensures
        matcher_matches(compile_spec(seq![d]), path) <==> components_of(path).contains(d),
{
    lemma_name_pattern_exact(d, path);
}

/// The patterns `d` and `d/*` compile to matchers that agree on every path:
/// both accept exactly the paths with `d` among their components.
pub proof fn lemma_directory_slash_star_equivalent(d: Seq<char>, path: Seq<char>)
    requires
        trim_spec(d) == d,
        !contains_char(d, '*'),
        !contains_char(d, '?'),
        !contains_char(d, '/'),
        !contains_char(d, '.'),
    ensures
        matcher_matches(compile_spec(seq![d + seq!['/', '*']]), path) == matcher_matches(
            compile_spec(seq![d]),
            path,
        ),
        matcher_matches(compile_spec(seq![d + seq!['/', '*']]), path) <==> components_of(
            path,
        ).contains(d),
{
    lemma_directory_pattern_exact(d, path);
    crate::text::lemma_trimmed_slash_star(d);
    let p2 = d + seq!['/', '*'];
    let m2 = compile_spec(seq![p2]);
    assert(seq![p2].drop_last() =~= Seq::<Seq<char>>::empty());
    assert(compile_spec(Seq::<Seq<char>>::empty()) == empty_matcher());
    assert(seq![p2].last() == p2);
    assert(p2[d.len() as int] == '/');
    assert(!is_extension_pattern(p2)) by {
        if p2.len() >= 2 && p2[0] == '*' {
            assert(d.len() > 0 ==> p2[0] == d[0] && contains_char(d, '*'));
        }
    }
    assert(contains_char(p2, '/'));
    assert(ends_slash_star(p2));
    assert(dir_stem(p2) =~= d);
    assert(m2.directories == Set::<Seq<char>>::empty().insert(d));
    if matcher_matches(m2, path) {
        let i = choose|i: int|
            0 <= i < components_of(path).len() && m2.directories.contains(components_of(path)[i]);
        assert(components_of(path)[i] == d);
        assert(components_of(path).contains(d));
    }
    if components_of(path).contains(d) {
        let i = choose|i: int| 0 <= i < components_of(path).len() && components_of(path)[i] == d;
        assert(m2.directories.contains(components_of(path)[i]));
    }
}

} // verus!
