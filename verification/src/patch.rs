//! Applying textual code updates: each update replaces every occurrence of
//! an old fragment with a new one, and an update whose old fragment is
//! absent fails.  A request whose updates all carry an empty old fragment
//! creates a new file from the new fragments joined together.

use vstd::prelude::*;
use crate::glob::starts_with_at;
use crate::text::chars_of;

verus! {

/// One find-and-replace step: the exact old fragment, its replacement, and
/// an optional note.
pub struct CodeUpdate {
    pub old_content: String,
    pub new_content: String,
    pub description: Option<String>,
}

/// The updates for one file.
pub struct FileUpdate {
    pub path: String,
    pub updates: Vec<CodeUpdate>,
}

/// A whole update request: a short analysis and the files to change.
pub struct UpdateRequest {
    pub analysis: String,
    pub files: Vec<FileUpdate>,
}

/// Whether `pat` occurs in `c` at position `i`.
pub open spec fn occurs_at(c: Seq<char>, pat: Seq<char>, i: int) -> bool {
    0 <= i && i + pat.len() <= c.len() && c.subrange(i, i + pat.len()) == pat
}

/// Whether `pat` occurs anywhere in `c`.  The empty fragment occurs in
/// every string.
pub open spec fn spec_contains(c: Seq<char>, pat: Seq<char>) -> bool {
    exists|i: int| occurs_at(c, pat, i)
}

/// `c` with every occurrence of `old` replaced by `new`, scanning left to
/// right without overlap.  An empty `old` matches at every position, so
/// `new` is put before every character and at the end.
pub open spec fn spec_replace(c: Seq<char>, old: Seq<char>, new: Seq<char>) -> Seq<char>
    decreases c.len(),
{
    if old.len() == 0 {
        if c.len() == 0 {
            new
        } else {
            new + seq![c[0]] + spec_replace(c.skip(1), old, new)
        }
    } else if c.len() < old.len() {
        c
    } else if c.take(old.len() as int) == old {
        new + spec_replace(c.skip(old.len() as int), old, new)
    } else {
        seq![c[0]] + spec_replace(c.skip(1), old, new)
    }
}

/// Whether `pat` occurs anywhere in `content`.
pub fn contains_str(content: &str, pat: &str) -> (r: bool)
    ensures
        r == spec_contains(content@, pat@),
{
    let cc = chars_of(content);
    let pc = chars_of(pat);
    let n = cc.len();
    let m = pc.len();
    if m > n {
        proof {
            assert forall|i: int| !occurs_at(content@, pat@, i) by {}
        }
        return false;
    }
    if m == 0 {
        proof {
            assert(content@.subrange(0, 0) =~= pat@);
            assert(occurs_at(content@, pat@, 0));
        }
        return true;
    }
    let mut i: usize = 0;
    while n - i >= m
        invariant
            0 <= i <= n,
            0 < m <= n,
            n == content@.len(),
            m == pat@.len(),
            cc@ == content@,
            pc@ == pat@,
            forall|j: int| 0 <= j < i ==> !occurs_at(content@, pat@, j),
        decreases n - i,
    {
        if starts_with_at(&cc, &pc, i) {
            proof {
                assert(occurs_at(content@, pat@, i as int));
            }
            return true;
        }
        i = i + 1;
    }
    proof {
        assert forall|j: int| !occurs_at(content@, pat@, j) by {
            if 0 <= j < i {
            } else if j >= i {
                assert(j + pat@.len() > content@.len());
            }
        }
    }
    false
}

/// `content` with every occurrence of `old` replaced by `new`, scanning
/// left to right without overlap.
pub fn replace_all(content: &str, old: &str, new: &str) -> (r: String)
    ensures
        r@ == spec_replace(content@, old@, new@),
{
    let cc = chars_of(content);
    let oc = chars_of(old);
    let n = cc.len();
    let m = oc.len();
    let mut r = String::new();
    let mut i: usize = 0;
    proof {
        assert(content@.skip(0) =~= content@);
        assert(r@ + spec_replace(content@, old@, new@) =~= spec_replace(content@, old@, new@));
    }
    if m == 0 {
        while i < n
            invariant
                0 <= i <= n,
                n == content@.len(),
                old@.len() == 0,
                cc@ == content@,
                r@ + spec_replace(content@.skip(i as int), old@, new@) == spec_replace(
                    content@,
                    old@,
                    new@,
                ),
            decreases n - i,
        {
            r.append(new);
            let piece = content.substring_char(i, i + 1);
            proof {
                assert(piece@ =~= seq![content@[i as int]]);
                assert(content@.skip(i as int)[0] == content@[i as int]);
                assert(content@.skip(i as int).skip(1) =~= content@.skip(i + 1));
            }
            r.append(piece);
            proof {
                assert(r@ + spec_replace(content@.skip(i + 1), old@, new@) =~= spec_replace(
                    content@,
                    old@,
                    new@,
                ));
            }
            i = i + 1;
        }
        r.append(new);
        proof {
            assert(content@.skip(n as int).len() == 0);
            assert(r@ =~= spec_replace(content@, old@, new@));
        }
        return r;
    }
    while i < n
        invariant
            0 <= i <= n,
            n == content@.len(),
            m == old@.len(),
            m > 0,
            cc@ == content@,
            oc@ == old@,
            r@ + spec_replace(content@.skip(i as int), old@, new@) == spec_replace(
                content@,
                old@,
                new@,
            ),
        decreases n - i,
    {
        if starts_with_at(&cc, &oc, i) {
            proof {
                assert(content@.skip(i as int).take(m as int) =~= content@.subrange(
                    i as int,
                    i + m,
                ));
                assert(content@.skip(i as int).skip(m as int) =~= content@.skip(i + m));
            }
            r.append(new);
            proof {
                assert(r@ + spec_replace(content@.skip(i + m), old@, new@) =~= spec_replace(
                    content@,
                    old@,
                    new@,
                ));
            }
            i = i + m;
        } else {
            let piece = content.substring_char(i, i + 1);
            proof {
                if m <= content@.skip(i as int).len() {
                    assert(content@.skip(i as int).take(m as int) =~= content@.subrange(
                        i as int,
                        i + m,
                    ));
                }
                assert(piece@ =~= seq![content@[i as int]]);
                assert(content@.skip(i as int)[0] == content@[i as int]);
                assert(content@.skip(i as int).skip(1) =~= content@.skip(i + 1));
            }
            r.append(piece);
            proof {
                assert(r@ + spec_replace(content@.skip(i + 1), old@, new@) =~= spec_replace(
                    content@,
                    old@,
                    new@,
                ));
            }
            i = i + 1;
        }
    }
    proof {
        assert(content@.skip(n as int).len() == 0);
        assert(r@ =~= spec_replace(content@, old@, new@));
    }
    r
}

/// Apply one update: the content with every occurrence of the old fragment
/// replaced, or nothing when the old fragment is absent.
pub fn apply_code_update(content: &str, old: &str, new: &str) -> (r: Option<String>)
    ensures
        r is Some <==> spec_contains(content@, old@),
        match r {
            Some(s) => s@ == spec_replace(content@, old@, new@),
            None => true,
        },
{
    if contains_str(content, old) {
        Some(replace_all(content, old, new))
    } else {
        None
    }
}

/// The pairs (old fragment, new fragment) of a list of updates.
pub open spec fn update_views(us: Seq<CodeUpdate>) -> Seq<(Seq<char>, Seq<char>)> {
    us.map_values(|u: CodeUpdate| (u.old_content@, u.new_content@))
}

/// The content after applying each update in order, or nothing as soon as
/// one update's old fragment is absent from the content it meets.
pub open spec fn apply_updates_spec(c: Seq<char>, us: Seq<(Seq<char>, Seq<char>)>) -> Option<
    Seq<char>,
>
    decreases us.len(),
{
    if us.len() == 0 {
        Some(c)
    } else if !spec_contains(c, us[0].0) {
        None
    } else {
        apply_updates_spec(spec_replace(c, us[0].0, us[0].1), us.skip(1))
    }
}

/// Apply a list of updates to a content string in order.  The result is the
/// fully updated content, or nothing as soon as an update's old fragment is
/// absent — exactly when the sequential application fails.
pub fn apply_updates(content: &str, updates: &Vec<CodeUpdate>) -> (r: Option<String>)
    ensures
        match r {
            Some(s) => apply_updates_spec(content@, update_views(updates@)) == Some(s@),
            None => apply_updates_spec(content@, update_views(updates@)) is None,
        },
{
    let n = updates.len();
    let mut cur: String = content.to_owned();
    let mut i: usize = 0;
    proof {
        assert(update_views(updates@).skip(0) =~= update_views(updates@));
    }
    while i < n
        invariant
            0 <= i <= n,
            n == updates@.len(),
            apply_updates_spec(content@, update_views(updates@)) == apply_updates_spec(
                cur@,
                update_views(updates@).skip(i as int),
            ),
        decreases n - i,
    {
        let u = &updates[i];
        proof {
            assert(update_views(updates@).skip(i as int)[0] == (
                updates@[i as int].old_content@,
                updates@[i as int].new_content@,
            ));
            assert(update_views(updates@).skip(i as int).skip(1) =~= update_views(updates@).skip(
                i + 1,
            ));
        }
        match apply_code_update(cur.as_str(), u.old_content.as_str(), u.new_content.as_str()) {
            Some(next) => {
                cur = next;
            },
            None => {
                return None;
            },
        }
        i = i + 1;
    }
    proof {
        assert(update_views(updates@).skip(n as int).len() == 0);
    }
    Some(cur)
}

/// Whether a file update stands for the creation of a new file: every one
/// of its updates has an empty old fragment.  A file update without updates
/// counts as a creation.
pub fn is_file_creation(updates: &Vec<CodeUpdate>) -> (r: bool)
    ensures
        r == (forall|i: int|
            0 <= i < updates@.len() ==> #[trigger] updates@[i].old_content@.len() == 0),
{
    let n = updates.len();
    let mut i: usize = 0;
    while i < n
        invariant
            0 <= i <= n,
            n == updates@.len(),
            forall|j: int| 0 <= j < i ==> #[trigger] updates@[j].old_content@.len() == 0,
        decreases n - i,
    {
        if !updates[i].old_content.as_str().is_empty() {
            return false;
        }
        i = i + 1;
    }
    true
}

/// The new fragments of a list of updates, joined in order.
pub open spec fn concat_new_content(us: Seq<CodeUpdate>) -> Seq<char>
    decreases us.len(),
{
    if us.len() == 0 {
        Seq::empty()
    } else {
        concat_new_content(us.drop_last()) + us.last().new_content@
    }
}

/// The content of a newly created file: every update's new fragment, joined
/// in order.
pub fn creation_content(updates: &Vec<CodeUpdate>) -> (r: String)
    ensures
        r@ == concat_new_content(updates@),
{
    let n = updates.len();
    let mut r = String::new();
    let mut i: usize = 0;
    proof {
        assert(updates@.take(0) =~= Seq::<CodeUpdate>::empty());
    }
    while i < n
        invariant
            0 <= i <= n,
            n == updates@.len(),
            r@ == concat_new_content(updates@.take(i as int)),
        decreases n - i,
    {
        let u = &updates[i];
        r.append(u.new_content.as_str());
        proof {
            assert(updates@.take(i + 1).drop_last() =~= updates@.take(i as int));
            assert(updates@.take(i + 1).last() == updates@[i as int]);
        }
        i = i + 1;
    }
    proof {
        assert(updates@.take(n as int) =~= updates@);
    }
    r
}

} // verus!
