//! Compiled glob patterns: the part list produced from a raw pattern string
//! and the backtracking matcher over it.
//!
//! `*` consumes any run of characters within one path segment, `**` consumes
//! any run of characters including separators, and `?` consumes exactly one
//! non-separator character.  Matching is exponential in the worst case; the
//! patterns this crate meets are short.

use vstd::prelude::*;
use crate::text::chars_of;

verus! {

/// One element of a compiled glob, as the specification sees it.
pub enum GPart {
    Literal(Seq<char>),
    Star,
    DoubleStar,
    Question,
}

/// One element of a compiled glob pattern.
pub enum GlobPart {
    Literal(Vec<char>),
    Star,
    DoubleStar,
    Question,
}

impl View for GlobPart {
    type V = GPart;

    open spec fn view(&self) -> GPart {
        match self {
            GlobPart::Literal(l) => GPart::Literal(l@),
            GlobPart::Star => GPart::Star,
            GlobPart::DoubleStar => GPart::DoubleStar,
            GlobPart::Question => GPart::Question,
        }
    }
}

/// Views of a sequence of glob parts.
pub open spec fn parts_view(parts: Seq<GlobPart>) -> Seq<GPart> {
    parts.map_values(|p: GlobPart| p@)
}

/// A compiled glob pattern: the ordered parts obtained from one raw pattern
/// string.
pub struct GlobPattern {
    pub parts: Vec<GlobPart>,
}

impl View for GlobPattern {
    type V = Seq<GPart>;

    open spec fn view(&self) -> Seq<GPart> {
        parts_view(self.parts@)
    }
}

/// No character of `p` is the path separator.
pub open spec fn no_slash(p: Seq<char>) -> bool {
    forall|i: int| 0 <= i < p.len() ==> p[i] != '/'
}

/// Whether `parts` matches exactly the whole of `path`.
///
/// A literal consumes exactly its own characters; `?` consumes one character
/// other than `/`; `*` consumes any run of characters that contains no `/`;
/// `**` consumes any run of characters at all.
pub open spec fn glob_match(path: Seq<char>, parts: Seq<GPart>) -> bool
    decreases parts.len(),
{
    if parts.len() == 0 {
        path.len() == 0
    } else {
        match parts[0] {
            GPart::Literal(l) => l.len() <= path.len() && path.take(l.len() as int) == l
                && glob_match(path.skip(l.len() as int), parts.skip(1)),
            GPart::Question => path.len() >= 1 && path[0] != '/' && glob_match(
                path.skip(1),
                parts.skip(1),
            ),
            GPart::Star => exists|k: int|
                0 <= k <= path.len() && no_slash(path.take(k)) && glob_match(
                    path.skip(k),
                    parts.skip(1),
                ),
            GPart::DoubleStar => exists|k: int|
                0 <= k <= path.len() && glob_match(path.skip(k), parts.skip(1)),
        }
    }
}

/// The pending literal run as a part list: nothing when empty, else one
/// literal part.
pub open spec fn flush(acc: Seq<char>) -> Seq<GPart> {
    if acc.len() == 0 {
        Seq::empty()
    } else {
        seq![GPart::Literal(acc)]
    }
}

/// Parts compiled from the rest of a pattern, with `acc` the literal run
/// read so far.  `**` takes a following `/` with it, so that `**/` can also
/// stand for "nothing".
pub open spec fn parse_acc(p: Seq<char>, acc: Seq<char>) -> Seq<GPart>
    decreases p.len(),
{
    if p.len() == 0 {
        flush(acc)
    } else if p[0] == '*' {
        if p.len() >= 2 && p[1] == '*' {
            if p.len() >= 3 && p[2] == '/' {
                flush(acc) + seq![GPart::DoubleStar] + parse_acc(p.skip(3), Seq::empty())
            } else {
                flush(acc) + seq![GPart::DoubleStar] + parse_acc(p.skip(2), Seq::empty())
            }
        } else {
            flush(acc) + seq![GPart::Star] + parse_acc(p.skip(1), Seq::empty())
        }
    } else if p[0] == '?' {
        flush(acc) + seq![GPart::Question] + parse_acc(p.skip(1), Seq::empty())
    } else {
        parse_acc(p.skip(1), acc.push(p[0]))
    }
}

/// The part list compiled from a whole pattern string.  Every string
/// compiles; pattern compilation cannot fail.
pub open spec fn parse_glob_spec(p: Seq<char>) -> Seq<GPart> {
    parse_acc(p, Seq::empty())
}

/// Compile a raw pattern string into its part list: literal runs are
/// coalesced, `**` (with one following `/`, if any) becomes a double star,
/// a lone `*` a star, and `?` a question part.
pub fn parse_glob_pattern(pattern: &str) -> (r: GlobPattern)
    ensures
        r@ == parse_glob_spec(pattern@),
{
    let cs = chars_of(pattern);
    let n = cs.len();
    let mut parts: Vec<GlobPart> = Vec::new();
    let mut lit: Vec<char> = Vec::new();
    let mut i: usize = 0;
    proof {
        assert(pattern@.skip(0) =~= pattern@);
        assert(parts_view(parts@) + parse_glob_spec(pattern@) =~= parse_glob_spec(pattern@));
    }
    while i < n
        invariant
            0 <= i <= n,
            n == pattern@.len(),
            cs@ == pattern@,
            parse_glob_spec(pattern@) == parts_view(parts@) + parse_acc(
                pattern@.skip(i as int),
                lit@,
            ),
        decreases n - i,
    {
        let c = cs[i];
        proof {
            assert(pattern@.skip(i as int)[0] == pattern@[i as int]);
        }
        if c == '*' {
            let ghost old_parts = parts_view(parts@);
            let ghost old_lit = lit@;
            if lit.len() > 0 {
                let run = lit;
                lit = Vec::new();
                parts.push(GlobPart::Literal(run));
            }
            proof {
                assert(lit@ =~= Seq::<char>::empty());
            }
            if i + 1 < n && cs[i + 1] == '*' {
                parts.push(GlobPart::DoubleStar);
                proof {
                    assert(parts_view(parts@) =~= old_parts + flush(old_lit) + seq![
                        GPart::DoubleStar,
                    ]);
                }
                if i + 2 < n && cs[i + 2] == '/' {
                    let ghost tail = parse_acc(pattern@.skip(i + 3), Seq::empty());
                    proof {
                        assert(pattern@.skip(i as int).skip(3) =~= pattern@.skip(i + 3));
                        assert(pattern@.skip(i as int)[1] == pattern@[i + 1]);
                        assert(pattern@.skip(i as int)[2] == pattern@[i + 2]);
                        assert(parse_acc(pattern@.skip(i as int), old_lit) == flush(old_lit)
                            + seq![GPart::DoubleStar] + tail);
                        assert(old_parts + (flush(old_lit) + seq![GPart::DoubleStar] + tail)
                            =~= parts_view(parts@) + tail);
                    }
                    i = i + 3;
                } else {
                    let ghost tail = parse_acc(pattern@.skip(i + 2), Seq::empty());
                    proof {
                        assert(pattern@.skip(i as int).skip(2) =~= pattern@.skip(i + 2));
                        assert(pattern@.skip(i as int)[1] == pattern@[i + 1]);
                        if i + 2 < n {
                            assert(pattern@.skip(i as int)[2] == pattern@[i + 2]);
                        }
                        assert(parse_acc(pattern@.skip(i as int), old_lit) == flush(old_lit)
                            + seq![GPart::DoubleStar] + tail);
                        assert(old_parts + (flush(old_lit) + seq![GPart::DoubleStar] + tail)
                            =~= parts_view(parts@) + tail);
                    }
                    i = i + 2;
                }
            } else {
                parts.push(GlobPart::Star);
                let ghost tail = parse_acc(pattern@.skip(i + 1), Seq::empty());
                proof {
                    assert(parts_view(parts@) =~= old_parts + flush(old_lit) + seq![GPart::Star]);
                    assert(pattern@.skip(i as int).skip(1) =~= pattern@.skip(i + 1));
                    if i + 1 < n {
                        assert(pattern@.skip(i as int)[1] == pattern@[i + 1]);
                    }
                    assert(parse_acc(pattern@.skip(i as int), old_lit) == flush(old_lit) + seq![
                        GPart::Star,
                    ] + tail);
                    assert(old_parts + (flush(old_lit) + seq![GPart::Star] + tail) =~= parts_view(
                        parts@,
                    ) + tail);
                }
                i = i + 1;
            }
        } else if c == '?' {
            let ghost old_parts = parts_view(parts@);
            let ghost old_lit = lit@;
            if lit.len() > 0 {
                let run = lit;
                lit = Vec::new();
                parts.push(GlobPart::Literal(run));
            }
            proof {
                assert(lit@ =~= Seq::<char>::empty());
            }
            parts.push(GlobPart::Question);
            let ghost tail = parse_acc(pattern@.skip(i + 1), Seq::empty());
            proof {
                assert(parts_view(parts@) =~= old_parts + flush(old_lit) + seq![GPart::Question]);
                assert(pattern@.skip(i as int).skip(1) =~= pattern@.skip(i + 1));
                assert(parse_acc(pattern@.skip(i as int), old_lit) == flush(old_lit) + seq![
                    GPart::Question,
                ] + tail);
                assert(old_parts + (flush(old_lit) + seq![GPart::Question] + tail) =~= parts_view(
                    parts@,
                ) + tail);
            }
            i = i + 1;
        } else {
            let ghost old_lit = lit@;
            lit.push(c);
            proof {
                assert(pattern@.skip(i as int).skip(1) =~= pattern@.skip(i + 1));
                assert(lit@ == old_lit.push(pattern@[i as int]));
            }
            i = i + 1;
        }
    }
    let ghost old_parts = parts_view(parts@);
    let ghost old_lit = lit@;
    if lit.len() > 0 {
        let run = lit;
        parts.push(GlobPart::Literal(run));
    }
    proof {
        assert(pattern@.skip(n as int).len() == 0);
        assert(parts_view(parts@) =~= old_parts + flush(old_lit));
        assert(parse_glob_spec(pattern@) =~= parts_view(parts@));
    }
    GlobPattern { parts }
}

/// Whether `lit` occurs in `path` starting at `pos`.
pub(crate) fn starts_with_at(path: &Vec<char>, lit: &Vec<char>, pos: usize) -> (r: bool)
    requires
        pos <= path@.len(),
    ensures
        r == (pos + lit@.len() <= path@.len() && path@.subrange(pos as int, pos + lit@.len())
            == lit@),
{
    let m = lit.len();
    let plen = path.len();
    if m > plen - pos {
        return false;
    }
    let mut j: usize = 0;
    while j < m
        invariant
            0 <= j <= m,
            m == lit@.len(),
            plen == path@.len(),
            pos + m <= plen,
            forall|t: int| 0 <= t < j ==> path@[pos + t] == lit@[t],
        decreases m - j,
    {
        if path[pos + j] != lit[j] {
            proof {
                assert(path@.subrange(pos as int, pos + lit@.len())[j as int] == path@[pos + j]);
            }
            return false;
        }
        j = j + 1;
    }
    proof {
        assert(path@.subrange(pos as int, pos + lit@.len()) =~= lit@);
    }
    true
}

/// Backtracking matcher: whether the parts from `part_idx` on match exactly
/// the characters of `path` from `path_pos` on.  Wildcards try the empty
/// consumption first, then longer ones.
pub fn match_parts(path: &Vec<char>, parts: &Vec<GlobPart>, path_pos: usize, part_idx: usize) -> (r:
    bool)
    requires
        path_pos <= path@.len(),
        part_idx <= parts@.len(),
    ensures
        r == glob_match(path@.skip(path_pos as int), parts_view(parts@).skip(part_idx as int)),
    decreases parts@.len() - part_idx,
{
    let n = path.len();
    let m = parts.len();
    let ghost rest = path@.skip(path_pos as int);
    let ghost rparts = parts_view(parts@).skip(part_idx as int);
    if part_idx >= m {
        proof {
            assert(rparts.len() == 0);
        }
        return path_pos >= n;
    }
    proof {
        assert(rparts[0] == parts@[part_idx as int]@);
        assert(rparts.skip(1) =~= parts_view(parts@).skip(part_idx + 1));
    }
    match &parts[part_idx] {
        GlobPart::Literal(lit) => {
            if starts_with_at(path, lit, path_pos) {
                proof {
                    assert(rest.take(lit@.len() as int) =~= path@.subrange(
                        path_pos as int,
                        path_pos + lit@.len(),
                    ));
                    assert(rest.skip(lit@.len() as int) =~= path@.skip(path_pos + lit@.len()));
                }
                match_parts(path, parts, path_pos + lit.len(), part_idx + 1)
            } else {
                proof {
                    if lit@.len() <= rest.len() {
                        assert(rest.take(lit@.len() as int) =~= path@.subrange(
                            path_pos as int,
                            path_pos + lit@.len(),
                        ));
                    }
                }
                false
            }
        },
        GlobPart::Question => {
            if path_pos < n && path[path_pos] != '/' {
                proof {
                    assert(rest[0] == path@[path_pos as int]);
                    assert(rest.skip(1) =~= path@.skip(path_pos + 1));
                }
                match_parts(path, parts, path_pos + 1, part_idx + 1)
            } else {
                proof {
                    if rest.len() >= 1 {
                        assert(rest[0] == path@[path_pos as int]);
                    }
                }
                false
            }
        },
        GlobPart::Star => {
            if match_parts(path, parts, path_pos, part_idx + 1) {
                proof {
                    assert(rest.take(0) =~= Seq::<char>::empty());
                    assert(rest.skip(0) =~= rest);
                }
                return true;
            }
            proof {
                assert(rest.skip(0) =~= rest);
                assert(rest.take(0) =~= Seq::<char>::empty());
            }
            let mut i: usize = path_pos;
            while i < n
                invariant
                    path_pos <= i <= n,
                    n == path@.len(),
                    m == parts@.len(),
                    part_idx < m,
                    rest == path@.skip(path_pos as int),
                    rparts == parts_view(parts@).skip(part_idx as int),
                    rparts[0] == parts@[part_idx as int]@,
                    parts@[part_idx as int] is Star,
                    rparts.skip(1) == parts_view(parts@).skip(part_idx + 1),
                    forall|j: int| path_pos <= j < i ==> #[trigger] path@[j] != '/',
                    forall|k: int|
                        0 <= k <= i - path_pos ==> !(no_slash(rest.take(k)) && glob_match(
                            rest.skip(k),
                            parts_view(parts@).skip(part_idx + 1),
                        )),
                decreases n - i,
            {
                if path[i] == '/' {
                    proof {
                        assert forall|k: int|
                            0 <= k <= rest.len() implies !(no_slash(rest.take(k)) && glob_match(
                            rest.skip(k),
                            parts_view(parts@).skip(part_idx + 1),
                        )) by {
                            if k > i - path_pos {
                                assert(rest.take(k)[i - path_pos] == path@[i as int]);
                                assert(!no_slash(rest.take(k)));
                            }
                        }
                        assert(!glob_match(rest, rparts));
                    }
                    return false;
                }
                i = i + 1;
                if match_parts(path, parts, i, part_idx + 1) {
                    proof {
                        let k = i - path_pos;
                        assert forall|t: int| 0 <= t < k implies rest.take(k)[t] != '/' by {
                            assert(rest.take(k)[t] == path@[path_pos + t]);
                        }
                        assert(no_slash(rest.take(k)));
                        assert(rest.skip(k) =~= path@.skip(i as int));
                    }
                    return true;
                }
                proof {
                    assert(rest.skip(i - path_pos) =~= path@.skip(i as int));
                }
            }
            proof {
                assert forall|k: int|
                    0 <= k <= rest.len() implies !(no_slash(rest.take(k)) && glob_match(
                    rest.skip(k),
                    parts_view(parts@).skip(part_idx + 1),
                )) by {
                    assert(k <= i - path_pos);
                }
                assert(!glob_match(rest, rparts));
            }
            false
        },
        GlobPart::DoubleStar => {
            if match_parts(path, parts, path_pos, part_idx + 1) {
                proof {
                    assert(rest.skip(0) =~= rest);
                }
                return true;
            }
            proof {
                assert(rest.skip(0) =~= rest);
            }
            let mut i: usize = path_pos;
            while i < n
                invariant
                    path_pos <= i <= n,
                    n == path@.len(),
                    m == parts@.len(),
                    part_idx < m,
                    rest == path@.skip(path_pos as int),
                    rparts == parts_view(parts@).skip(part_idx as int),
                    rparts[0] == parts@[part_idx as int]@,
                    parts@[part_idx as int] is DoubleStar,
                    rparts.skip(1) == parts_view(parts@).skip(part_idx + 1),
                    forall|k: int|
                        0 <= k <= i - path_pos ==> !glob_match(
                            rest.skip(k),
                            parts_view(parts@).skip(part_idx + 1),
                        ),
                decreases n - i,
            {
                i = i + 1;
                if match_parts(path, parts, i, part_idx + 1) {
                    proof {
                        assert(rest.skip(i - path_pos) =~= path@.skip(i as int));
                    }
                    return true;
                }
                proof {
                    assert(rest.skip(i - path_pos) =~= path@.skip(i as int));
                }
            }
            proof {
                assert forall|k: int|
                    0 <= k <= rest.len() implies !glob_match(
                    rest.skip(k),
                    parts_view(parts@).skip(part_idx + 1),
                ) by {
                    assert(k <= i - path_pos);
                }
                assert(!glob_match(rest, rparts));
            }
            false
        },
    }
}

/// Whether the compiled glob matches the whole path.
pub fn matches_glob(path: &Vec<char>, glob: &GlobPattern) -> (r: bool)
    ensures
        r == glob_match(path@, glob@),
{
    proof {
        assert(path@.skip(0) =~= path@);
        assert(parts_view(glob.parts@).skip(0) =~= parts_view(glob.parts@));
    }
    match_parts(path, &glob.parts, 0, 0)
}

/// A single `*` matches a path exactly when the path contains no separator:
/// `*` never matches across a `/`.
pub proof fn lemma_star_never_crosses_separator(path: Seq<char>)
    ensures
        glob_match(path, seq![GPart::Star]) <==> no_slash(path),
{
    let parts = seq![GPart::Star];
    assert(parts.skip(1) =~= Seq::<GPart>::empty());
    if no_slash(path) {
        let k = path.len() as int;
        assert(path.take(k) =~= path);
        assert(path.skip(k).len() == 0);
        assert(glob_match(path.skip(k), parts.skip(1)));
        assert(glob_match(path, parts));
    }
    if glob_match(path, parts) {
        let k = choose|k: int|
            0 <= k <= path.len() && no_slash(path.take(k)) && glob_match(
                path.skip(k),
                parts.skip(1),
            );
        assert(path.skip(k).len() == 0);
        assert(path.take(k) =~= path);
    }
}

/// A single `**` matches every path: `**` always may cross a `/`.
pub proof fn lemma_double_star_matches_all(path: Seq<char>)
    ensures
        glob_match(path, seq![GPart::DoubleStar]),
{
    let parts = seq![GPart::DoubleStar];
    assert(parts.skip(1) =~= Seq::<GPart>::empty());
    let k = path.len() as int;
    assert(path.skip(k).len() == 0);
    assert(glob_match(path.skip(k), parts.skip(1)));
}

/// A single `?` matches a path exactly when it is one character that is not
/// a separator: `?` matches exactly one non-`/` character.
pub proof fn lemma_question_matches_one(path: Seq<char>)
    ensures
        glob_match(path, seq![GPart::Question]) <==> (path.len() == 1 && path[0] != '/'),
{
    let parts = seq![GPart::Question];
    assert(parts.skip(1) =~= Seq::<GPart>::empty());
    assert(parts[0] == GPart::Question);
    if path.len() == 1 && path[0] != '/' {
        assert(path.skip(1).len() == 0);
        assert(glob_match(path.skip(1), parts.skip(1)));
        assert(glob_match(path, parts));
    }
    if glob_match(path, parts) {
        assert(glob_match(path.skip(1), parts.skip(1)));
        assert(path.skip(1).len() == path.len() - 1);
    }
}

} // verus!
