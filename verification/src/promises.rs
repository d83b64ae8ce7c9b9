//! Promise strings for the capability-restriction call: a space-separated
//! list of capability keywords.  The keyword vocabulary itself is owned by
//! the kernel and treated as opaque; what matters here is which set of
//! keywords a string denotes, since the kernel compares requested sets
//! against the set currently held.

use vstd::prelude::*;
use vstd::slice::slice_subrange;
use vstd::slice::slice_to_vec;

verus! {

/// Whether `b` separates keywords in a promise string.
pub open spec fn is_sep(b: u8) -> bool {
    b == 32
}

/// Length of the maximal keyword at the front of `s`: the number of bytes
/// before the first separator.
pub open spec fn keyword_prefix_len(s: Seq<u8>) -> int
    decreases s.len(),
{
    if s.len() == 0 || is_sep(s[0]) {
        0
    } else {
        1 + keyword_prefix_len(s.skip(1))
    }
}

proof fn lemma_keyword_prefix_len_bounds(s: Seq<u8>)
    ensures
        0 <= keyword_prefix_len(s) <= s.len(),
    decreases s.len(),
{
    if s.len() == 0 || is_sep(s[0]) {
    } else {
        lemma_keyword_prefix_len_bounds(s.skip(1));
    }
}

/// The keywords of a promise string: its maximal separator-free runs, in
/// order of appearance.
pub open spec fn keywords_of(s: Seq<u8>) -> Seq<Seq<u8>>
    decreases s.len(),
    via keywords_of_decreases
{
    if s.len() == 0 {
        Seq::empty()
    } else if is_sep(s[0]) {
        keywords_of(s.skip(1))
    } else {
        seq![s.take(keyword_prefix_len(s))] + keywords_of(s.skip(keyword_prefix_len(s)))
    }
}

#[via_fn]
proof fn keywords_of_decreases(s: Seq<u8>) {
    lemma_keyword_prefix_len_bounds(s);
    if s.len() > 0 && !is_sep(s[0]) {
        lemma_keyword_prefix_len_bounds(s.skip(1));
    }
}

/// The set of keywords a keyword list denotes; order and repetition do not
/// matter to the kernel.
pub open spec fn keyword_set(toks: Seq<Seq<u8>>) -> Set<Seq<u8>> {
    Set::new(|t: Seq<u8>| toks.contains(t))
}

proof fn lemma_keyword_prefix_len_exact(s: Seq<u8>, j: int)
    requires
        0 <= j <= s.len(),
        forall|m: int| 0 <= m < j ==> !is_sep(s[m]),
        j == s.len() || is_sep(s[j]),
    ensures
        keyword_prefix_len(s) == j,
    decreases j,
{
    if j == 0 {
    } else {
        assert(!is_sep(s[0]));
        assert(forall|m: int| 0 <= m < j - 1 ==> s.skip(1)[m] == s[m + 1]);
        lemma_keyword_prefix_len_exact(s.skip(1), j - 1);
    }
}

proof fn lemma_keywords_at_sep(s: Seq<u8>, i: int)
    requires
        0 <= i < s.len(),
        is_sep(s[i]),
    ensures
        keywords_of(s.skip(i)) == keywords_of(s.skip(i + 1)),
{
    let t = s.skip(i);
    assert(t[0] == s[i]);
    assert(t.skip(1) =~= s.skip(i + 1));
}

proof fn lemma_keywords_at_token(s: Seq<u8>, i: int, j: int)
    requires
        0 <= i < j <= s.len(),
        forall|m: int| i <= m < j ==> !is_sep(s[m]),
        j == s.len() || is_sep(s[j]),
    ensures
        keywords_of(s.skip(i)) == seq![s.subrange(i, j)] + keywords_of(s.skip(j)),
{
    let t = s.skip(i);
    assert(forall|m: int| 0 <= m < t.len() ==> t[m] == s[m + i]);
    assert(forall|m: int| 0 <= m < j - i ==> !is_sep(t[m]));
    lemma_keyword_prefix_len_exact(t, j - i);
    assert(t.take(j - i) =~= s.subrange(i, j));
    assert(t.skip(j - i) =~= s.skip(j));
    assert(!is_sep(t[0]));
}

/// Splits the content of a promise string (terminator already removed)
/// into its keywords.
pub fn split_keywords(s: &[u8]) -> (r: Vec<Vec<u8>>)
    ensures
        r.deep_view() == keywords_of(s@),
{
    let n = s.len();
    let mut out: Vec<Vec<u8>> = Vec::new();
    let mut i: usize = 0;
    proof {
        assert(s@.skip(0) =~= s@);
        assert(out.deep_view() =~= Seq::<Seq<u8>>::empty());
        assert(out.deep_view() + keywords_of(s@) =~= keywords_of(s@));
    }
    while i < n
        invariant
            n == s@.len(),
            0 <= i <= n,
            keywords_of(s@) == out.deep_view() + keywords_of(s@.skip(i as int)),
        decreases n - i,
    {
        if s[i] == 32 {
            proof {
                lemma_keywords_at_sep(s@, i as int);
            }
            i += 1;
        } else {
            let start = i;
            let mut j: usize = i + 1;
            while j < n && s[j] != 32
                invariant
                    n == s@.len(),
                    start < j <= n,
                    forall|m: int| start <= m < j ==> !is_sep(s@[m]),
                decreases n - j,
            {
                j += 1;
            }
            let tok = slice_to_vec(slice_subrange(s, start, j));
            proof {
                lemma_keywords_at_token(s@, start as int, j as int);
                assert(tok.deep_view() =~= s@.subrange(start as int, j as int));
                let dv = out.deep_view();
                assert(dv.push(tok.deep_view()) + keywords_of(s@.skip(j as int))
                    =~= dv + (seq![s@.subrange(start as int, j as int)]
                        + keywords_of(s@.skip(j as int))));
            }
            let ghost old_dv = out.deep_view();
            out.push(tok);
            proof {
                assert(out.deep_view() =~~= old_dv.push(s@.subrange(start as int, j as int)));
            }
            i = j;
        }
    }
    proof {
        assert(s@.skip(n as int) =~= Seq::<u8>::empty());
        assert(out.deep_view() + keywords_of(Seq::<u8>::empty()) =~= out.deep_view());
    }
    out
}

/// Whether two byte strings are equal.
pub fn bytes_eq(a: &[u8], b: &[u8]) -> (r: bool)
    ensures
        r == (a@ == b@),
{
    if a.len() != b.len() {
        return false;
    }
    let n = a.len();
    let mut i: usize = 0;
    while i < n
        invariant
            n == a@.len(),
            n == b@.len(),
            0 <= i <= n,
            forall|k: int| 0 <= k < i ==> a@[k] == b@[k],
        decreases n - i,
    {
        if a[i] != b[i] {
            return false;
        }
        i += 1;
    }
    proof {
        assert(a@ =~= b@);
    }
    true
}

/// Whether `tok` occurs in a keyword list.
pub fn list_contains(list: &Vec<Vec<u8>>, tok: &[u8]) -> (r: bool)
    ensures
        r == list.deep_view().contains(tok@),
{
    let n = list.len();
    let mut i: usize = 0;
    while i < n
        invariant
            n == list@.len(),
            0 <= i <= n,
            forall|k: int| 0 <= k < i ==> list.deep_view()[k] != tok@,
        decreases n - i,
    {
        if bytes_eq(list[i].as_slice(), tok) {
            proof {
                assert(list.deep_view()[i as int] =~= tok@);
            }
            return true;
        }
        proof {
            assert(list.deep_view()[i as int] =~= list@[i as int]@);
        }
        i += 1;
    }
    false
}

/// Whether every keyword of `a` also occurs in `b`, as sets.
pub fn keywords_subset(a: &Vec<Vec<u8>>, b: &Vec<Vec<u8>>) -> (r: bool)
    ensures
        r == keyword_set(a.deep_view()).subset_of(keyword_set(b.deep_view())),
{
    let n = a.len();
    let mut i: usize = 0;
    while i < n
        invariant
            n == a@.len(),
            0 <= i <= n,
            forall|k: int| 0 <= k < i ==> b.deep_view().contains(#[trigger] a.deep_view()[k]),
        decreases n - i,
    {
        if !list_contains(b, a[i].as_slice()) {
            proof {
                assert(a.deep_view()[i as int] =~= a@[i as int]@);
                assert(a.deep_view().contains(a.deep_view()[i as int]));
                assert(keyword_set(a.deep_view()).contains(a.deep_view()[i as int]));
            }
            return false;
        }
        proof {
            assert(a.deep_view()[i as int] =~= a@[i as int]@);
        }
        i += 1;
    }
    proof {
        assert forall|t: Seq<u8>| keyword_set(a.deep_view()).contains(t)
            implies keyword_set(b.deep_view()).contains(t) by {
            let k = choose|k: int|
                0 <= k < a.deep_view().len() && a.deep_view()[k] == t;
            assert(b.deep_view().contains(a.deep_view()[k]));
        }
    }
    true
}

} // verus!
