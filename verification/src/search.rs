use vstd::prelude::*;

verus! {

/// `i` is the first index in `lo..hi` at which `p` holds.
pub open spec fn is_first_in(lo: int, hi: int, p: spec_fn(int) -> bool, i: int) -> bool {
    &&& lo <= i < hi
    &&& p(i)
    &&& forall|j: int| lo <= j < i ==> !#[trigger] p(j)
}

/// The first index in `lo..hi` at which `p` holds, if there is one.
pub open spec fn first_in(lo: int, hi: int, p: spec_fn(int) -> bool) -> Option<int> {
    if exists|i: int| is_first_in(lo, hi, p, i) {
        Some(choose|i: int| is_first_in(lo, hi, p, i))
    } else {
        None
    }
}

/// The first index is unique: once one is known, `first_in` names it.
pub proof fn lemma_first_in_found(lo: int, hi: int, p: spec_fn(int) -> bool, i: int)
    requires
        is_first_in(lo, hi, p, i),
    ensures
        first_in(lo, hi, p) == Some(i),
{
    let k = choose|k: int| is_first_in(lo, hi, p, k);
    assert(is_first_in(lo, hi, p, k));
    if k < i {
        assert(!p(k));
    }
    if i < k {
        assert(!p(i));
    }
}

/// Where `p` holds nowhere in `lo..hi`, there is no first index.
pub proof fn lemma_first_in_absent(lo: int, hi: int, p: spec_fn(int) -> bool)
    requires
        forall|j: int| lo <= j < hi ==> !#[trigger] p(j),
    ensures
        first_in(lo, hi, p) is None,
{
}

/// Character-wise equality of two texts.
pub fn text_equals(a: &str, b: &str) -> (r: bool)
    ensures
        r == (a@ == b@),
{
    let n = a.unicode_len();
    let m = b.unicode_len();
    if n != m {
        return false;
    }
    let mut i: usize = 0;
    while i < n
        invariant
            n == a@.len(),
            m == b@.len(),
            n == m,
            i <= n,
            forall|j: int| 0 <= j < i ==> a@[j] == b@[j],
        decreases n - i,
    {
        if a.get_char(i) != b.get_char(i) {
            return false;
        }
        i = i + 1;
    }
    assert(a@ =~= b@);
    true
}

} // verus!
