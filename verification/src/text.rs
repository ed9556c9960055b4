//! Character-level utilities shared by the pattern compiler and the path
//! model: extracting the characters of a string and trimming whitespace.

use vstd::prelude::*;
use vstd::std_specs::iter::IteratorSpec;

verus! {

broadcast use vstd::string::axiom_spec_iter, vstd::string::next_postcondition;

/// The whitespace characters that `trimmed` removes from the edges of a
/// pattern string.
pub open spec fn is_space_char(c: char) -> bool {
    c == ' ' || c == '\t' || c == '\n' || c == '\r'
}

/// Executable test for `is_space_char`.
pub fn is_space(c: char) -> (r: bool)
    ensures
        r == is_space_char(c),
{
    c == ' ' || c == '\t' || c == '\n' || c == '\r'
}

/// Collect the characters of a string into a vector whose view is the
/// string's view.
pub fn chars_of(s: &str) -> (r: Vec<char>)
    ensures
        r@ == s@,
{
    let mut it = s.chars();
    let mut r: Vec<char> = Vec::new();
    loop
        invariant
            r@ + it.remaining() == s@,
            it.decrease() is Some,
        ensures
            r@ == s@,
        decreases it.decrease()->0,
    {
        match it.next() {
            Some(c) => {
                r.push(c);
                proof {
                    assert(r@ + it.remaining() =~= s@);
                }
            },
            None => {
                proof {
                    assert(r@ =~= s@);
                }
                break ;
            },
        }
    }
    r
}

/// `s` with its maximal all-whitespace prefix removed.
pub open spec fn trim_start_spec(s: Seq<char>) -> Seq<char>
    decreases s.len(),
{
    if s.len() > 0 && is_space_char(s[0]) {
        trim_start_spec(s.skip(1))
    } else {
        s
    }
}

/// `s` with its maximal all-whitespace suffix removed.
pub open spec fn trim_end_spec(s: Seq<char>) -> Seq<char>
    decreases s.len(),
{
    if s.len() > 0 && is_space_char(s[s.len() - 1]) {
        trim_end_spec(s.drop_last())
    } else {
        s
    }
}

/// `s` with whitespace removed from both edges.
pub open spec fn trim_spec(s: Seq<char>) -> Seq<char> {
    trim_end_spec(trim_start_spec(s))
}

/// Whether two character vectors hold the same characters.
pub fn eq_chars(a: &Vec<char>, b: &Vec<char>) -> (r: bool)
    ensures
        r == (a@ == b@),
{
    let n = a.len();
    if n != b.len() {
        return false;
    }
    let mut i: usize = 0;
    while i < n
        invariant
            0 <= i <= n,
            n == a@.len(),
            n == b@.len(),
            forall|j: int| 0 <= j < i ==> a@[j] == b@[j],
        decreases n - i,
    {
        if a[i] != b[i] {
            return false;
        }
        i = i + 1;
    }
    proof {
        assert(a@ =~= b@);
    }
    true
}

/// Whether two strings hold the same characters.
pub fn str_eq(a: &str, b: &str) -> (r: bool)
    ensures
        r == (a@ == b@),
{
    let ca = chars_of(a);
    let cb = chars_of(b);
    eq_chars(&ca, &cb)
}

/// Strict lexicographic order on character sequences, by code point.
pub open spec fn lex_lt(a: Seq<char>, b: Seq<char>) -> bool
    decreases a.len(),
{
    if b.len() == 0 {
        false
    } else if a.len() == 0 {
        true
    } else if a[0] != b[0] {
        (a[0] as u32) < (b[0] as u32)
    } else {
        lex_lt(a.skip(1), b.skip(1))
    }
}

/// Whether `a` sorts strictly before `b`, comparing code points left to
/// right, the shorter prefix first.
pub fn str_lt(a: &str, b: &str) -> (r: bool)
    ensures
        r == lex_lt(a@, b@),
{
    let ca = chars_of(a);
    let cb = chars_of(b);
    let na = ca.len();
    let nb = cb.len();
    proof {
        assert(a@.skip(0) =~= a@);
        assert(b@.skip(0) =~= b@);
    }
    let mut i: usize = 0;
    loop
        invariant
            0 <= i <= na,
            0 <= i <= nb,
            na == a@.len(),
            nb == b@.len(),
            ca@ == a@,
            cb@ == b@,
            lex_lt(a@, b@) == lex_lt(a@.skip(i as int), b@.skip(i as int)),
        ensures
            lex_lt(a@, b@) == (if i >= nb {
                false
            } else if i >= na {
                true
            } else {
                (a@[i as int] as u32) < (b@[i as int] as u32)
            }),
        decreases na - i,
    {
        if i >= nb {
            break ;
        }
        if i >= na {
            break ;
        }
        if ca[i] != cb[i] {
            proof {
                assert(a@.skip(i as int)[0] == a@[i as int]);
                assert(b@.skip(i as int)[0] == b@[i as int]);
            }
            break ;
        }
        proof {
            assert(a@.skip(i as int)[0] == a@[i as int]);
            assert(b@.skip(i as int)[0] == b@[i as int]);
            assert(a@.skip(i as int).skip(1) =~= a@.skip(i + 1));
            assert(b@.skip(i as int).skip(1) =~= b@.skip(i + 1));
        }
        i = i + 1;
    }
    if i >= nb {
        false
    } else if i >= na {
        true
    } else {
        (ca[i] as u32) < (cb[i] as u32)
    }
}

/// Trimming the front never lengthens a string.
pub proof fn lemma_trim_start_len(s: Seq<char>)
    ensures
        trim_start_spec(s).len() <= s.len(),
    decreases s.len(),
{
    if s.len() > 0 && is_space_char(s[0]) {
        lemma_trim_start_len(s.skip(1));
    }
}

/// Trimming the back never lengthens a string.
pub proof fn lemma_trim_end_len(s: Seq<char>)
    ensures
        trim_end_spec(s).len() <= s.len(),
    decreases s.len(),
{
    if s.len() > 0 && is_space_char(s[s.len() - 1]) {
        lemma_trim_end_len(s.drop_last());
    }
}

/// A string is its own trim exactly when it is empty or has non-whitespace
/// characters at both edges.
pub proof fn lemma_trim_fixpoint(s: Seq<char>)
    ensures
        trim_spec(s) == s <==> (s.len() == 0 || (!is_space_char(s[0]) && !is_space_char(
            s[s.len() - 1],
        ))),
{
    if s.len() == 0 {
        assert(trim_start_spec(s) == s);
        assert(trim_end_spec(s) == s);
    } else {
        if !is_space_char(s[0]) && !is_space_char(s[s.len() - 1]) {
            assert(trim_start_spec(s) == s);
            assert(trim_end_spec(s) == s);
        }
        if is_space_char(s[0]) {
            lemma_trim_start_len(s.skip(1));
            lemma_trim_end_len(trim_start_spec(s));
            assert(trim_spec(s).len() < s.len());
        } else if is_space_char(s[s.len() - 1]) {
            assert(trim_start_spec(s) == s);
            lemma_trim_end_len(s.drop_last());
            assert(trim_spec(s).len() < s.len());
        }
    }
}

/// Appending `/*` to a trimmed string keeps it trimmed.
pub proof fn lemma_trimmed_slash_star(d: Seq<char>)
    requires
        trim_spec(d) == d,
    ensures
        trim_spec(d + seq!['/', '*']) == d + seq!['/', '*'],
{
    lemma_trim_fixpoint(d);
    let d2 = d + seq!['/', '*'];
    assert(d2[d2.len() - 1] == '*');
    if d.len() > 0 {
        assert(d2[0] == d[0]);
    } else {
        assert(d2[0] == '/');
    }
    lemma_trim_fixpoint(d2);
}

/// Return the slice of `s` with leading and trailing whitespace removed.
pub fn trimmed(s: &str) -> (r: &str)
    ensures
        r@ == trim_spec(s@),
{
    let cs = chars_of(s);
    let n = cs.len();
    proof {
        assert(s@.skip(0) =~= s@);
    }
    let mut a: usize = 0;
    while a < n && is_space(cs[a])
        invariant
            0 <= a <= n,
            n == s@.len(),
            cs@ == s@,
            trim_start_spec(s@) == trim_start_spec(s@.skip(a as int)),
        decreases n - a,
    {
        proof {
            assert(s@.skip(a as int).skip(1) =~= s@.skip(a + 1));
        }
        a = a + 1;
    }
    proof {
        assert(trim_start_spec(s@.skip(a as int)) == s@.skip(a as int));
    }
    let ghost t = s@.skip(a as int);
    proof {
        assert(t.take(n - a) =~= t);
    }
    let mut b: usize = n;
    while b > a && is_space(cs[b - 1])
        invariant
            a <= b <= n,
            n == s@.len(),
            cs@ == s@,
            t == s@.skip(a as int),
            trim_end_spec(t) == trim_end_spec(t.take(b - a)),
        decreases b,
    {
        proof {
            assert(t.take(b - a).drop_last() =~= t.take(b - 1 - a));
            assert(t.take(b - a)[b - 1 - a] == s@[b - 1]);
        }
        b = b - 1;
    }
    proof {
        assert(trim_end_spec(t.take(b - a)) == t.take(b - a));
    }
    let r = s.substring_char(a, b);
    proof {
        assert(r@ =~= t.take(b - a));
    }
    r
}

} // verus!
