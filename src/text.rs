//! Splitting text at a separator character.

use vstd::prelude::*;

verus! {

/// Positions of the character `c` in `s`, in increasing order.
pub open spec fn positions(s: Seq<char>, c: char) -> Seq<int>
    decreases s.len(),
{
    if s.len() == 0 {
        Seq::empty()
    } else if s.last() == c {
        positions(s.drop_last(), c).push(s.len() - 1)
    } else {
        positions(s.drop_last(), c)
    }
}

/// Number of pieces that splitting `s` at every `c` gives.
pub open spec fn piece_count(s: Seq<char>, c: char) -> nat {
    positions(s, c).len() + 1
}

/// The `k`-th piece of `s` split at every `c`.
pub open spec fn piece(s: Seq<char>, c: char, k: int) -> Seq<char> {
    let d = positions(s, c);
    let start = if k == 0 {
        0
    } else {
        d[k - 1] + 1
    };
    let end = if k == d.len() {
        s.len() as int
    } else {
        d[k]
    };
    s.subrange(start, end)
}

/// Where `c` occurs in `s`.
pub fn positions_of(s: &str, c: char) -> (r: Vec<usize>)
    ensures
        r@.len() == positions(s@, c).len(),
        forall|k: int| 0 <= k < r@.len() ==> #[trigger] r@[k] as int == positions(s@, c)[k],
        forall|k: int| 0 <= k < r@.len() ==> #[trigger] r@[k] < s@.len(),
        forall|a: int, b: int| 0 <= a < b < r@.len() ==> r@[a] < r@[b],
{
    let n = s.unicode_len();
    let mut r: Vec<usize> = Vec::new();
    let mut i: usize = 0;
    while i < n
        invariant
            n == s@.len(),
            0 <= i <= n,
            r@.len() == positions(s@.take(i as int), c).len(),
            forall|k: int|
                0 <= k < r@.len() ==> #[trigger] r@[k] as int == positions(s@.take(i as int), c)[k],
            forall|k: int| 0 <= k < r@.len() ==> #[trigger] r@[k] < i,
            forall|a: int, b: int| 0 <= a < b < r@.len() ==> r@[a] < r@[b],
        decreases n - i,
    {
        assert(s@.take(i as int + 1).drop_last() =~= s@.take(i as int));
        if s.get_char(i) == c {
            r.push(i);
        }
        i = i + 1;
    }
    assert(s@.take(i as int) =~= s@);
    r
}

/// The `k`-th piece of `s` split at the positions `ends` of `c`.
pub fn piece_at(s: &str, c: char, ends: &Vec<usize>, k: usize) -> (r: String)
    requires
        k <= ends@.len(),
        ends@.len() == positions(s@, c).len(),
        forall|j: int| 0 <= j < ends@.len() ==> #[trigger] ends@[j] as int == positions(s@, c)[j],
        forall|j: int| 0 <= j < ends@.len() ==> #[trigger] ends@[j] < s@.len(),
        forall|a: int, b: int| 0 <= a < b < ends@.len() ==> ends@[a] < ends@[b],
    ensures
        r@ == piece(s@, c, k as int),
{
    let n = s.unicode_len();
    let start = if k == 0 {
        0
    } else {
        ends[k - 1] + 1
    };
    let end = if k == ends.len() {
        n
    } else {
        ends[k]
    };
    String::from_str(s.substring_char(start, end))
}

} // verus!
