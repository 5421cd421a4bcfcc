//! Slash-separated path arithmetic used by synchronization planning.

use vstd::prelude::*;
use crate::text::{concat2, concat3, owned, seq_starts_with, substring, text_equals, text_starts_with};

verus! {

/// Text without its trailing slashes (`trim_end_matches('/')`).
pub open spec fn trim_trailing_slashes(s: Seq<char>) -> Seq<char>
    decreases s.len(),
{
    if s.len() > 0 && s.last() == '/' {
        trim_trailing_slashes(s.drop_last())
    } else {
        s
    }
}

/// Removes trailing slashes.
pub fn trim_end_slashes(s: &str) -> (r: &str)
    ensures
        r@ == trim_trailing_slashes(s@),
{
    let mut n = s.unicode_len();
    assert(s@.subrange(0, n as int) =~= s@);
    while n > 0 && s.get_char(n - 1) == '/'
        invariant
            n <= s@.len(),
            trim_trailing_slashes(s@) == trim_trailing_slashes(s@.subrange(0, n as int)),
        decreases n,
    {
        proof {
            let t = s@.subrange(0, n as int);
            assert(t.drop_last() =~= s@.subrange(0, n - 1));
        }
        n = n - 1;
    }
    proof {
        let t = s@.subrange(0, n as int);
        assert(!(t.len() > 0 && t.last() == '/'));
    }
    substring(s, 0, n)
}

/// Whether position `i` starts a non-empty segment.
pub open spec fn starts_segment(s: Seq<char>, i: int) -> bool {
    s[i] != '/' && (i == 0 || s[i - 1] == '/')
}

/// Number of non-empty segments that start before position `n`.
pub open spec fn segments_before(s: Seq<char>, n: nat) -> nat
    decreases n,
{
    if n == 0 {
        0
    } else {
        segments_before(s, (n - 1) as nat) + if starts_segment(s, n - 1) { 1nat } else { 0nat }
    }
}

/// Number of non-empty slash-separated segments of a path.
pub open spec fn path_depth(s: Seq<char>) -> nat {
    segments_before(s, s.len())
}

/// Counts the non-empty slash-separated segments of a path.
pub fn depth(path: &str) -> (r: usize)
    ensures
        r == path_depth(path@),
{
    let n = path.unicode_len();
    let mut count: usize = 0;
    let mut i: usize = 0;
    while i < n
        invariant
            n == path@.len(),
            i <= n,
            count == segments_before(path@, i as nat),
            count <= i,
        decreases n - i,
    {
        let c = path.get_char(i);
        if c != '/' && (i == 0 || path.get_char(i - 1) == '/') {
            count = count + 1;
        }
        i = i + 1;
    }
    count
}

/// Lexicographic order by code point (the order of `String::cmp`).
pub open spec fn lex_less(a: Seq<char>, b: Seq<char>) -> bool {
    exists|k: int|
        0 <= k <= a.len() && k <= b.len() && a.subrange(0, k) == b.subrange(0, k) && ((k == a.len()
            && k < b.len()) || (k < a.len() && k < b.len() && (a[k] as u32) < (b[k] as u32)))
}

/// Lexicographic order is transitive.
pub proof fn lemma_lex_less_transitive(a: Seq<char>, b: Seq<char>, c: Seq<char>)
    requires
        lex_less(a, b),
        lex_less(b, c),
    ensures
        lex_less(a, c),
{
    let k1 = choose|k: int|
        0 <= k <= a.len() && k <= b.len() && a.subrange(0, k) == b.subrange(0, k) && ((k == a.len()
            && k < b.len()) || (k < a.len() && k < b.len() && (a[k] as u32) < (b[k] as u32)));
    let k2 = choose|k: int|
        0 <= k <= b.len() && k <= c.len() && b.subrange(0, k) == c.subrange(0, k) && ((k == b.len()
            && k < c.len()) || (k < b.len() && k < c.len() && (b[k] as u32) < (c[k] as u32)));
    let k = if k1 < k2 { k1 } else { k2 };
    assert forall|t: int| 0 <= t < k implies a[t] == c[t] by {
        assert(a.subrange(0, k1)[t] == b.subrange(0, k1)[t]);
        assert(b.subrange(0, k2)[t] == c.subrange(0, k2)[t]);
    }
    assert(a.subrange(0, k) =~= c.subrange(0, k));
    if k1 < k2 {
        assert(b.subrange(0, k2)[k1] == c.subrange(0, k2)[k1]);
    } else if k2 < k1 {
        assert(a.subrange(0, k1)[k2] == b.subrange(0, k1)[k2]);
    }
}

/// Compares two texts lexicographically by code point.
pub fn text_less(a: &str, b: &str) -> (r: bool)
    ensures
        r == lex_less(a@, b@),
{
    let n = a.unicode_len();
    let m = b.unicode_len();
    let mut k: usize = 0;
    while k < n && k < m && a.get_char(k) == b.get_char(k)
        invariant
            n == a@.len(),
            m == b@.len(),
            k <= n,
            k <= m,
            a@.subrange(0, k as int) == b@.subrange(0, k as int),
        decreases n - k,
    {
        proof {
            assert(a@.subrange(0, k + 1) =~= a@.subrange(0, k as int).push(a@[k as int]));
            assert(b@.subrange(0, k + 1) =~= b@.subrange(0, k as int).push(b@[k as int]));
        }
        k = k + 1;
    }
    let r = if k < n && k < m {
        (a.get_char(k) as u32) < (b.get_char(k) as u32)
    } else {
        k == n && k < m
    };
    proof {
        if r {
            assert(0 <= k <= a@.len() && k <= b@.len() && a@.subrange(0, k as int) == b@.subrange(0, k as int));
        } else {
            assert forall|j: int|
                0 <= j <= a@.len() && j <= b@.len() && a@.subrange(0, j) == b@.subrange(0, j) implies !((j
                    == a@.len() && j < b@.len()) || (j < a@.len() && j < b@.len() && (a@[j] as u32) < (b@[j] as u32))) by {
                if j < k {
                    assert(a@[j] == a@.subrange(0, k as int)[j]);
                    assert(b@[j] == b@.subrange(0, k as int)[j]);
                } else if j > k {
                    assert(a@[k as int] == a@.subrange(0, j)[k as int]);
                    assert(b@[k as int] == b@.subrange(0, j)[k as int]);
                }
            }
        }
    }
    r
}

/// Path of `child` relative to `root` (`""` for the root itself), when the
/// child lies inside the root.
pub open spec fn relative_text(root: Seq<char>, child: Seq<char>) -> Option<Seq<char>> {
    let base = trim_trailing_slashes(root);
    if child == base {
        Some(seq![])
    } else if seq_starts_with(child, base + "/"@) {
        Some(child.subrange(base.len() + 1int, child.len() as int))
    } else {
        None
    }
}

/// Computes a child path relative to a root.
pub fn relative_to(root: &str, child: &str) -> (r: Option<String>)
    ensures
        r is None <==> relative_text(root@, child@) is None,
        r matches Some(t) ==> relative_text(root@, child@) == Some(t@),
{
    let base = trim_end_slashes(root);
    if text_equals(child, base) {
        proof {
            reveal_strlit("");
        }
        return Some(owned(""));
    }
    let prefix = concat2(base, "/");
    if text_starts_with(child, prefix.as_str()) {
        proof {
            reveal_strlit("/");
        }
        let n = child.unicode_len();
        let k = prefix.as_str().unicode_len();
        Some(owned(substring(child, k, n)))
    } else {
        None
    }
}

/// `root/relative` with the root's trailing slashes removed; an all-slash
/// root joins as `/relative`.
pub open spec fn joined_text(root: Seq<char>, relative: Seq<char>) -> Seq<char> {
    let base = trim_trailing_slashes(root);
    if base.len() == 0 {
        "/"@ + relative
    } else {
        base + "/"@ + relative
    }
}

/// Joins a relative path onto a root.
pub fn join_text(root: &str, relative: &str) -> (r: String)
    ensures
        r@ == joined_text(root@, relative@),
        r@.len() > 0,
{
    proof {
        reveal_strlit("/");
    }
    let base = trim_end_slashes(root);
    if base.unicode_len() == 0 {
        concat2("/", relative)
    } else {
        concat3(base, "/", relative)
    }
}

} // verus!
