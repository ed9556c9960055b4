//! The path model.  A path is a string of characters; its components are the
//! maximal nonempty runs of non-`/` characters, its filename is its last
//! component, and its extension is the part of the filename after the last
//! `.`, when the filename has one.

use vstd::prelude::*;
use crate::text::chars_of;

verus! {

/// Components of `p` still to be scanned, with `cur` the run of non-`/`
/// characters read so far for the component in progress.
pub open spec fn components_acc(p: Seq<char>, cur: Seq<char>) -> Seq<Seq<char>>
    decreases p.len(),
{
    if p.len() == 0 {
        if cur.len() == 0 {
            Seq::empty()
        } else {
            seq![cur]
        }
    } else if p[0] == '/' {
        if cur.len() == 0 {
            components_acc(p.skip(1), Seq::empty())
        } else {
            seq![cur] + components_acc(p.skip(1), Seq::empty())
        }
    } else {
        components_acc(p.skip(1), cur.push(p[0]))
    }
}

/// The components of a path: its maximal nonempty runs of non-`/` characters.
pub open spec fn components_of(p: Seq<char>) -> Seq<Seq<char>> {
    components_acc(p, Seq::empty())
}

/// The filename of a path: its last component, or the empty string for a
/// path without components.
pub open spec fn filename_of(p: Seq<char>) -> Seq<char> {
    if components_of(p).len() == 0 {
        Seq::empty()
    } else {
        components_of(p).last()
    }
}

/// Index of the last `.` in `f`, or `-1` when `f` has none.
pub open spec fn last_dot(f: Seq<char>) -> int
    decreases f.len(),
{
    if f.len() == 0 {
        -1
    } else if f[f.len() - 1] == '.' {
        f.len() - 1
    } else {
        last_dot(f.drop_last())
    }
}

/// The extension of a path: the part of its filename after the last `.`,
/// or nothing when the filename contains no `.`.
pub open spec fn extension_of(p: Seq<char>) -> Option<Seq<char>> {
    let f = filename_of(p);
    if last_dot(f) >= 0 {
        Some(f.skip(last_dot(f) + 1))
    } else {
        None
    }
}

/// The views of a sequence of string slices.
pub open spec fn views_of(r: Seq<&str>) -> Seq<Seq<char>> {
    r.map_values(|t: &str| t@)
}

/// Split a path into its components, each a slice of the input.
pub fn path_components<'a>(path: &'a str) -> (r: Vec<&'a str>)
    ensures
        views_of(r@) == components_of(path@),
{
    let cs = chars_of(path);
    let n = cs.len();
    let mut r: Vec<&'a str> = Vec::new();
    let mut i: usize = 0;
    proof {
        assert(path@.skip(0) =~= path@);
        assert(views_of(r@) + components_of(path@) =~= components_of(path@));
    }
    while i < n
        invariant
            0 <= i <= n,
            n == path@.len(),
            cs@ == path@,
            components_of(path@) == views_of(r@) + components_acc(
                path@.skip(i as int),
                Seq::empty(),
            ),
        decreases n - i,
    {
        if cs[i] == '/' {
            proof {
                assert(path@.skip(i as int).skip(1) =~= path@.skip(i + 1));
            }
            i = i + 1;
        } else {
            let start = i;
            proof {
                assert(path@.subrange(start as int, i as int) =~= Seq::<char>::empty());
            }
            while i < n && cs[i] != '/'
                invariant
                    start <= i <= n,
                    start < n,
                    n == path@.len(),
                    cs@ == path@,
                    path@[start as int] != '/',
                    components_acc(path@.skip(start as int), Seq::empty()) == components_acc(
                        path@.skip(i as int),
                        path@.subrange(start as int, i as int),
                    ),
                decreases n - i,
            {
                proof {
                    assert(path@.skip(i as int).skip(1) =~= path@.skip(i + 1));
                    assert(path@.subrange(start as int, i as int).push(path@[i as int])
                        =~= path@.subrange(start as int, i + 1));
                }
                i = i + 1;
            }
            let piece = path.substring_char(start, i);
            proof {
                assert(i > start);
                assert(piece@ =~= path@.subrange(start as int, i as int));
                assert(piece@.len() > 0);
            }
            let ghost old_views = views_of(r@);
            r.push(piece);
            proof {
                assert(views_of(r@) =~= old_views + seq![piece@]);
                if i < n {
                    assert(path@.skip(i as int).skip(1) =~= path@.skip(i + 1));
                    assert(components_acc(path@.skip(i as int), piece@) =~= seq![piece@]
                        + components_acc(path@.skip(i as int), Seq::empty()));
                } else {
                    assert(path@.skip(i as int).len() == 0);
                    assert(components_acc(path@.skip(i as int), piece@) =~= seq![piece@]
                        + components_acc(path@.skip(i as int), Seq::empty()));
                }
                assert(views_of(r@) + components_acc(path@.skip(i as int), Seq::empty())
                    =~= old_views + components_acc(path@.skip(start as int), Seq::empty()));
            }
        }
    }
    proof {
        assert(components_of(path@) =~= views_of(r@));
    }
    r
}

/// Extract the extension of `path`: the part of its filename after the last
/// `.`, when the filename has one.
pub fn path_extension<'a>(path: &'a str) -> (r: Option<&'a str>)
    ensures
        match r {
            Some(e) => extension_of(path@) == Some(e@),
            None => extension_of(path@) is None,
        },
{
    let comps = path_components(path);
    if comps.len() == 0 {
        proof {
            assert(last_dot(filename_of(path@)) == -1);
        }
        return None;
    }
    let filename: &str = comps[comps.len() - 1];
    proof {
        assert(views_of(comps@)[comps@.len() - 1] == filename@);
    }
    let fcs = chars_of(filename);
    let m = fcs.len();
    let ghost f = filename@;
    proof {
        assert(f.take(m as int) =~= f);
    }
    let mut j: usize = m;
    while j > 0 && fcs[j - 1] != '.'
        invariant
            0 <= j <= m,
            m == f.len(),
            fcs@ == f,
            last_dot(f) == last_dot(f.take(j as int)),
        decreases j,
    {
        proof {
            assert(f.take(j as int).drop_last() =~= f.take(j - 1));
            assert(f.take(j as int)[j - 1] == f[j - 1]);
        }
        j = j - 1;
    }
    if j == 0 {
        proof {
            assert(last_dot(f.take(0)) == -1);
        }
        None
    } else {
        proof {
            assert(f.take(j as int)[j - 1] == f[j - 1]);
            assert(last_dot(f.take(j as int)) == j - 1);
        }
        let ext = filename.substring_char(j, m);
        proof {
            assert(ext@ =~= f.skip(j as int));
        }
        Some(ext)
    }
}

} // verus!
