//! Path-string manipulation: the final component of a slash-separated
//! path and the parent prefix in front of it.
//!
//! Checks that ask the filesystem about a path (existence, writability)
//! live outside the verified library; these functions only rearrange
//! text.
use vstd::prelude::*;

verus! {

/// The characters after the last occurrence of `sep` in `s`; all of `s`
/// when `sep` does not occur, empty when `s` ends with it.
pub open spec fn suffix_after_last(s: Seq<char>, sep: char) -> Seq<char>
    decreases s.len(),
{
    if s.len() == 0 {
        Seq::empty()
    } else if s.last() == sep {
        Seq::empty()
    } else {
        suffix_after_last(s.drop_last(), sep).push(s.last())
    }
}

/// The characters after the last `/` of `s`; all of `s` when it has no
/// slash, empty when it ends with one.
pub open spec fn after_last_slash(s: Seq<char>) -> Seq<char> {
    suffix_after_last(s, '/')
}

/// `s` without its trailing run of `/` characters.
pub open spec fn strip_trailing_slashes(s: Seq<char>) -> Seq<char>
    decreases s.len(),
{
    if s.len() > 0 && s.last() == '/' {
        strip_trailing_slashes(s.drop_last())
    } else {
        s
    }
}

/// The parent of a path: the text before its final component, with the
/// separator run removed, kept as a single slash for children of the
/// root, and empty for a bare filename.
pub open spec fn parent_of(s: Seq<char>) -> Seq<char> {
    let k = s.len() - after_last_slash(s).len();
    let q = strip_trailing_slashes(s.subrange(0, k));
    if q.len() == 0 && k > 0 && s[0] == '/' {
        seq!['/']
    } else {
        q
    }
}

/// A path is plain when it is nonempty, does not end in a separator, and
/// its final component is a real name rather than a dot reference.
pub open spec fn plain_path(s: Seq<char>) -> bool {
    &&& s.len() > 0
    &&& s.last() != '/'
    &&& after_last_slash(s) != seq!['.']
    &&& after_last_slash(s) != seq!['.', '.']
}

/// When `sep` does not occur at or after `p`, and `p` sits just after an
/// occurrence of `sep` (or at the start), the suffix after the last `sep`
/// is exactly the text from `p` on.
pub proof fn lemma_suffix_after_last_split(s: Seq<char>, sep: char, p: int)
    requires
        0 <= p <= s.len(),
        forall|j: int| p <= j < s.len() ==> s[j] != sep,
        p == 0 || s[p - 1] == sep,
    ensures
        suffix_after_last(s, sep) == s.subrange(p, s.len() as int),
    decreases s.len(),
{
    if p == s.len() {
        if s.len() == 0 {
            assert(suffix_after_last(s, sep) =~= s.subrange(p, s.len() as int));
        } else {
            assert(s.last() == sep);
            assert(suffix_after_last(s, sep) =~= s.subrange(p, s.len() as int));
        }
    } else {
        assert(s.last() != sep);
        let t = s.drop_last();
        assert(forall|j: int| p <= j < t.len() ==> t[j] == s[j] && s[j] != sep);
        lemma_suffix_after_last_split(t, sep, p);
        assert(t.subrange(p, t.len() as int).push(s.last()) =~= s.subrange(p, s.len() as int));
    }
}

/// When positions `j <= t < p` all hold slashes and `j` sits just after a
/// non-slash (or at the start), stripping the trailing slashes of the
/// first `p` characters leaves the first `j`.
pub proof fn lemma_strip_trailing_split(s: Seq<char>, j: int, p: int)
    requires
        0 <= j <= p <= s.len(),
        forall|t: int| j <= t < p ==> s[t] == '/',
        j == 0 || s[j - 1] != '/',
    ensures
        strip_trailing_slashes(s.subrange(0, p)) == s.subrange(0, j),
    decreases p - j,
{
    let raw = s.subrange(0, p);
    if j == p {
        if p == 0 {
            assert(strip_trailing_slashes(raw) =~= s.subrange(0, j));
        } else {
            assert(raw.last() == s[p - 1]);
            assert(raw.last() != '/');
            assert(strip_trailing_slashes(raw) =~= s.subrange(0, j));
        }
    } else {
        assert(raw.last() == s[p - 1]);
        assert(raw.last() == '/');
        assert(raw.drop_last() =~= s.subrange(0, p - 1));
        lemma_strip_trailing_split(s, j, p - 1);
    }
}

/// The final component of the path: the text after its last separator.
pub fn basename(chk_path: &str) -> (r: String)
    requires
        plain_path(chk_path@),
    ensures
        r@ == after_last_slash(chk_path@),
{
    let n: usize = chk_path.unicode_len();
    let mut p: usize = n;
    while p > 0 && chk_path.get_char(p - 1) != '/'
        invariant
            p <= n,
            n == chk_path@.len(),
            forall|j: int| p <= j < n ==> chk_path@[j] != '/',
        decreases p,
    {
        p -= 1;
    }
    proof {
        lemma_suffix_after_last_split(chk_path@, '/', p as int);
    }
    let piece: &str = chk_path.substring_char(p, n);
    piece.to_owned()
}

/// The path with its final component and the separators before it
/// removed: the directory that contains it.
pub fn get_parent(chk_path: &str) -> (r: String)
    requires
        plain_path(chk_path@),
    ensures
        r@ == parent_of(chk_path@),
{
    let n: usize = chk_path.unicode_len();
    let mut p: usize = n;
    while p > 0 && chk_path.get_char(p - 1) != '/'
        invariant
            p <= n,
            n == chk_path@.len(),
            forall|j: int| p <= j < n ==> chk_path@[j] != '/',
        decreases p,
    {
        p -= 1;
    }
    proof {
        lemma_suffix_after_last_split(chk_path@, '/', p as int);
        assert(after_last_slash(chk_path@).len() == n - p);
    }
    if p == 0 {
        proof {
            assert(chk_path@.subrange(0, 0) =~= Seq::empty());
            assert(strip_trailing_slashes(Seq::<char>::empty()) =~= Seq::<char>::empty());
        }
        return String::new();
    }
    let mut j: usize = p;
    while j > 0 && chk_path.get_char(j - 1) == '/'
        invariant
            j <= p,
            p <= n,
            n == chk_path@.len(),
            forall|t: int| j <= t < p ==> chk_path@[t] == '/',
        decreases j,
    {
        j -= 1;
    }
    proof {
        lemma_strip_trailing_split(chk_path@, j as int, p as int);
    }
    if j == 0 {
        proof {
            reveal_strlit("/");
            assert(chk_path@.subrange(0, 0) =~= Seq::empty());
            assert(chk_path@[0] == '/');
            assert("/"@ =~= seq!['/']);
        }
        let root: &str = "/";
        return root.to_owned();
    }
    let piece: &str = chk_path.substring_char(0, j);
    piece.to_owned()
}

} // verus!
