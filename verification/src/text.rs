//! Verified text searching: substring and prefix tests over character
//! sequences, used to recognize links and to classify resolver output.

use vstd::prelude::*;

verus! {

/// The needle occurs in the haystack at position `i`.
pub open spec fn occurs_at(h: Seq<char>, n: Seq<char>, i: int) -> bool {
    0 <= i && i + n.len() <= h.len() && h.subrange(i, i + n.len()) == n
}

/// The needle occurs somewhere in the haystack.
pub open spec fn spec_contains_sub(h: Seq<char>, n: Seq<char>) -> bool {
    exists|i: int| occurs_at(h, n, i)
}

/// The needle is a prefix of the haystack.
pub open spec fn spec_starts_with(h: Seq<char>, n: Seq<char>) -> bool {
    n.len() <= h.len() && h.subrange(0, n.len() as int) == n
}

/// Whether the needle's characters appear at position `at` of the haystack.
fn matches_at(h: &str, h_len: usize, n: &str, n_len: usize, at: usize) -> (r: bool)
    requires
        h_len == h@.len(),
        n_len == n@.len(),
        at + n_len <= h_len,
    ensures
        r == occurs_at(h@, n@, at as int),
{
    let mut j: usize = 0;
    while j < n_len
        invariant
            h_len == h@.len(),
            n_len == n@.len(),
            at + n_len <= h_len,
            j <= n_len,
            forall|q: int| 0 <= q < j ==> h@[at + q] == n@[q],
        decreases n_len - j,
    {
        if h.get_char(at + j) != n.get_char(j) {
            proof {
                assert(h@.subrange(at as int, at + n@.len())[j as int] != n@[j as int]);
            }
            return false;
        }
        j += 1;
    }
    proof {
        assert(h@.subrange(at as int, at + n@.len()) =~= n@);
    }
    true
}

/// Substring search; quadratic, which the short needles here never notice.
pub fn contains_sub(h: &str, n: &str) -> (r: bool)
    ensures
        r == spec_contains_sub(h@, n@),
{
    let h_len = h.unicode_len();
    let n_len = n.unicode_len();
    if n_len > h_len {
        proof {
            assert forall|i: int| !occurs_at(h@, n@, i) by {}
        }
        return false;
    }
    if n_len == 0 {
        proof {
            assert(h@.subrange(0, 0) =~= n@);
            assert(occurs_at(h@, n@, 0));
        }
        return true;
    }
    let mut i: usize = 0;
    while i <= h_len - n_len
        invariant
            h_len == h@.len(),
            n_len == n@.len(),
            1 <= n_len <= h_len,
            i <= h_len - n_len + 1,
            forall|q: int| 0 <= q < i ==> !occurs_at(h@, n@, q),
        decreases h_len - n_len - i + 1,
    {
        if matches_at(h, h_len, n, n_len, i) {
            return true;
        }
        i += 1;
    }
    proof {
        assert forall|q: int| !occurs_at(h@, n@, q) by {
            if q >= i {
                assert(q + n@.len() > h@.len());
            }
        }
    }
    false
}

/// Prefix test.
pub fn starts_with(h: &str, n: &str) -> (r: bool)
    ensures
        r == spec_starts_with(h@, n@),
{
    let h_len = h.unicode_len();
    let n_len = n.unicode_len();
    if n_len > h_len {
        return false;
    }
    matches_at(h, h_len, n, n_len, 0)
}

} // verus!
