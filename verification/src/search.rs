//! Searching sequences: the position of the first occurrence of an item.

use vstd::prelude::*;

verus! {

/// The index of the first occurrence of `b` in `s`, or `s.len()` when `b`
/// does not occur.
pub open spec fn first_index_of<T>(s: Seq<T>, b: T) -> int
    decreases s.len(),
{
    if s.len() == 0 {
        0
    } else if s[0] == b {
        0
    } else {
        1 + first_index_of(s.drop_first(), b)
    }
}

/// `first_index_of` lies within `0..=len`, nothing before it equals `b`,
/// and where it is below `len` the byte there is `b`.
pub proof fn lemma_first_index_of<T>(s: Seq<T>, b: T)
    ensures
        0 <= first_index_of(s, b) <= s.len(),
        forall|j: int| 0 <= j < first_index_of(s, b) ==> s[j] != b,
        first_index_of(s, b) < s.len() ==> s[first_index_of(s, b)] == b,
    decreases s.len(),
{
    if s.len() != 0 && s[0] != b {
        let t = s.drop_first();
        lemma_first_index_of(t, b);
        assert forall|j: int| 0 <= j < first_index_of(s, b) implies s[j] != b by {
            if j > 0 {
                assert(s[j] == t[j - 1]);
            }
        }
    }
}

/// A position that holds `b`, or the length, before which `b` does not
/// occur is the first one.
pub proof fn lemma_first_index_of_is<T>(s: Seq<T>, b: T, i: int)
    requires
        0 <= i <= s.len(),
        forall|j: int| 0 <= j < i ==> s[j] != b,
        i < s.len() ==> s[i] == b,
    ensures
        first_index_of(s, b) == i,
{
    lemma_first_index_of(s, b);
}

/// The position of the first `b` in `bytes[from..]`, relative to `from`.
pub fn find_byte(bytes: &[u8], from: usize, b: u8) -> (end: usize)
    requires
        from <= bytes@.len(),
    ensures
        from <= end <= bytes@.len(),
        end - from == first_index_of(bytes@.skip(from as int), b),
{
    let n = bytes.len();
    let mut end = from;
    while end < n && bytes[end] != b
        invariant
            n == bytes@.len(),
            from <= end <= n,
            forall|j: int| from <= j < end ==> bytes@[j] != b,
        decreases n - end,
    {
        end += 1;
    }
    proof {
        lemma_first_index_of_is(bytes@.skip(from as int), b, end - from);
    }
    end
}

} // verus!
