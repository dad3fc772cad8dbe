//! Verified text helpers: substring containment and extraction of the last
//! `/`-separated segment of a path.

use vstd::prelude::*;

verus! {

use vstd::string::StrSliceExecFns;

/// `pat` occurs in `s` as a contiguous run starting at position `i`.
pub open spec fn matches_at(s: Seq<char>, pat: Seq<char>, i: int) -> bool {
    0 <= i && i + pat.len() <= s.len() && s.subrange(i, i + pat.len() as int) == pat
}

/// `pat` occurs somewhere in `s` as a contiguous substring.
pub open spec fn contains_seq(s: Seq<char>, pat: Seq<char>) -> bool {
    exists|i: int| matches_at(s, pat, i)
}

/// Whether `pat` occurs in `s` starting exactly at position `i`.
fn match_at(s: &str, pat: &str, i: usize, m: usize) -> (r: bool)
    requires
        m == pat@.len(),
        i + m <= s@.len(),
        s@.len() <= usize::MAX,
    ensures
        r == matches_at(s@, pat@, i as int),
{
    let mut j: usize = 0;
    while j < m
        invariant
            m == pat@.len(),
            i + m <= s@.len(),
            s@.len() <= usize::MAX,
            j <= m,
            forall|k: int| 0 <= k < j ==> s@[i + k] == pat@[k],
        decreases m - j,
    {
        if s.get_char(i + j) != pat.get_char(j) {
            assert(s@.subrange(i as int, i + m as int)[j as int] == s@[i + j]);
            return false;
        }
        j += 1;
    }
    assert(s@.subrange(i as int, i + m as int) =~= pat@);
    true
}

/// Substring search: whether `pat` occurs anywhere in `s`.
pub fn contains_substr(s: &str, pat: &str) -> (r: bool)
    ensures
        r == contains_seq(s@, pat@),
{
    let n = s.unicode_len();
    let m = pat.unicode_len();
    if m > n {
        assert(forall|i: int| !matches_at(s@, pat@, i));
        return false;
    }
    let end = n - m;
    let mut i: usize = 0;
    loop
        invariant
            n == s@.len(),
            m == pat@.len(),
            m <= n,
            end == n - m,
            i <= end,
            forall|k: int| 0 <= k < i ==> !matches_at(s@, pat@, k),
        ensures
            forall|k: int| 0 <= k <= end ==> !matches_at(s@, pat@, k),
        decreases end - i,
    {
        if match_at(s, pat, i, m) {
            return true;
        }
        if i == end {
            break;
        }
        i += 1;
    }
    assert forall|k: int| !matches_at(s@, pat@, k) by {
        if 0 <= k <= end {
            assert(!matches_at(s@, pat@, k));
        }
    }
    false
}

/// The suffix of `p` after its last `/`; all of `p` when it has none.
pub open spec fn last_segment_of(p: Seq<char>) -> Seq<char>
    decreases p.len(),
{
    if p.len() == 0 {
        p
    } else if p.last() == '/' {
        Seq::<char>::empty()
    } else {
        last_segment_of(p.drop_last()).push(p.last())
    }
}

/// When the last `/` of `p` stands at `j`, the last segment is what follows it.
proof fn lemma_last_segment_after_slash(p: Seq<char>, j: int)
    requires
        0 <= j < p.len(),
        p[j] == '/',
        forall|k: int| j < k < p.len() ==> p[k] != '/',
    ensures
        last_segment_of(p) == p.subrange(j + 1, p.len() as int),
    decreases p.len(),
{
    if j == p.len() - 1 {
        assert(p.last() == '/');
        assert(p.subrange(j + 1, p.len() as int) =~= Seq::<char>::empty());
    } else {
        let q = p.drop_last();
        assert(p.last() != '/');
        assert(forall|k: int| j < k < q.len() ==> q[k] != '/');
        lemma_last_segment_after_slash(q, j);
        assert(q.subrange(j + 1, q.len() as int).push(p.last()) =~= p.subrange(
            j + 1,
            p.len() as int,
        ));
    }
}

/// When `p` has no `/` at all, the last segment is `p` itself.
proof fn lemma_last_segment_no_slash(p: Seq<char>)
    requires
        forall|k: int| 0 <= k < p.len() ==> p[k] != '/',
    ensures
        last_segment_of(p) == p,
    decreases p.len(),
{
    if p.len() > 0 {
        lemma_last_segment_no_slash(p.drop_last());
        assert(p.drop_last().push(p.last()) =~= p);
    }
}

/// Extracts the suffix of `p` after its last `/`, or all of `p` without one.
pub fn last_segment(p: &str) -> (r: String)
    ensures
        r@ == last_segment_of(p@),
{
    let n = p.unicode_len();
    let mut i: usize = n;
    while i > 0
        invariant
            n == p@.len(),
            i <= n,
            forall|k: int| i <= k < n ==> p@[k] != '/',
        decreases i,
    {
        if p.get_char(i - 1) == '/' {
            let seg = p.substring_char(i, n);
            proof {
                lemma_last_segment_after_slash(p@, i - 1);
            }
            return seg.to_owned();
        }
        i -= 1;
    }
    proof {
        lemma_last_segment_no_slash(p@);
    }
    p.to_owned()
}

} // verus!
