//! Byte-slice helpers.

use vstd::prelude::*;

verus! {

/// `data[lo..hi]` as a new vector.
pub fn slice_bytes(data: &[u8], lo: usize, hi: usize) -> (r: Vec<u8>)
    requires
        lo <= hi <= data@.len(),
    ensures
        r@ == data@.subrange(lo as int, hi as int),
{
    let mut r: Vec<u8> = Vec::new();
    let mut i = lo;
    while i < hi
        invariant
            lo <= i <= hi <= data@.len(),
            r@ == data@.subrange(lo as int, i as int),
        decreases hi - i,
    {
        r.push(data[i]);
        i += 1;
        assert(r@ =~= data@.subrange(lo as int, i as int));
    }
    r
}

/// `p` occurs in `s` starting at index `i`.
pub open spec fn bytes_at(s: Seq<u8>, p: Seq<u8>, i: int) -> bool {
    0 <= i && i + p.len() <= s.len() && s.subrange(i, i + p.len()) == p
}

/// First index, at or after `i`, of a window of `s` equal to the non-empty
/// pattern `p` (`slice::windows(p.len()).position(|w| w == p)` from `i`).
pub open spec fn find_bytes_from(s: Seq<u8>, p: Seq<u8>, i: int) -> Option<int>
    decreases s.len() - i,
{
    if i < 0 || p.len() == 0 || i + p.len() > s.len() {
        None
    } else if bytes_at(s, p, i) {
        Some(i)
    } else {
        find_bytes_from(s, p, i + 1)
    }
}

fn bytes_at_exec(s: &[u8], p: &[u8], i: usize) -> (r: bool)
    requires
        i + p@.len() <= s@.len(),
    ensures
        r == bytes_at(s@, p@, i as int),
{
    let mut j: usize = 0;
    while j < p.len()
        invariant
            i + p@.len() <= s@.len(),
            i + p.len() <= s.len(),
            j <= p.len(),
            forall|k: int| 0 <= k < j ==> s@[i + k] == p@[k],
        decreases p.len() - j,
    {
        if s[i + j] != p[j] {
            assert(s@.subrange(i as int, i + p@.len())[j as int] != p@[j as int]);
            return false;
        }
        j += 1;
    }
    assert(s@.subrange(i as int, i + p@.len()) =~= p@);
    true
}

/// First index of a window of `s` equal to `p`; `None` for an empty `p`.
pub fn find_bytes(s: &[u8], p: &[u8]) -> (r: Option<usize>)
    ensures
        match r {
            Some(i) => find_bytes_from(s@, p@, 0) == Some(i as int),
            None => find_bytes_from(s@, p@, 0) is None,
        },
        r matches Some(i) ==> bytes_at(s@, p@, i as int),
{
    if p.len() == 0 || p.len() > s.len() {
        return None;
    }
    let mut i: usize = 0;
    while i <= s.len() - p.len()
        invariant
            0 < p@.len() <= s@.len(),
            i <= s@.len() - p@.len() + 1,
            find_bytes_from(s@, p@, 0) == find_bytes_from(s@, p@, i as int),
        decreases s.len() - p.len() + 1 - i,
    {
        if bytes_at_exec(s, p, i) {
            return Some(i);
        }
        i += 1;
    }
    None
}

} // verus!
