//! Exact sums of 64-bit amounts.
//!
//! Conservation is stated over mathematical sums, which no machine integer
//! bounds; the executable engine therefore sums with an explicit overflow
//! guard and treats a sum beyond `u64::MAX` as unrepresentable.

use vstd::prelude::*;

verus! {

/// The mathematical sum of a sequence of 64-bit amounts.
pub open spec fn sum64(s: Seq<u64>) -> int
    decreases s.len(),
{
    if s.len() == 0 {
        0
    } else {
        sum64(s.drop_last()) + s.last()
    }
}

/// A sum of unsigned amounts is never negative.
pub proof fn lemma_sum64_nonneg(s: Seq<u64>)
    ensures
        sum64(s) >= 0,
    decreases s.len(),
{
    if s.len() > 0 {
        lemma_sum64_nonneg(s.drop_last());
    }
}

/// A sum splits at any cut point.
pub proof fn lemma_sum64_split(s: Seq<u64>, i: int)
    requires
        0 <= i <= s.len(),
    ensures
        sum64(s) == sum64(s.take(i)) + sum64(s.skip(i)),
    decreases s.len() - i,
{
    if i == s.len() {
        assert(s.take(i) =~= s);
        assert(s.skip(i) =~= Seq::<u64>::empty());
    } else {
        lemma_sum64_split(s.drop_last(), i);
        assert(s.drop_last().take(i) =~= s.take(i));
        assert(s.skip(i).drop_last() =~= s.drop_last().skip(i));
        assert(s.skip(i).last() == s.last());
    }
}

/// Sums the amounts in `v`, or reports that the exact sum does not fit in
/// 64 bits.
pub fn checked_sum(v: &Vec<u64>) -> (r: Option<u64>)
    ensures
        (match r {
            Some(total) => total as int == sum64(v@),
            None => sum64(v@) > u64::MAX,
        }),
{
    let mut acc: u64 = 0;
    let mut i: usize = 0;
    assert(v@.take(0) =~= Seq::<u64>::empty());
    while i < v.len()
        invariant
            i <= v.len(),
            acc as int == sum64(v@.take(i as int)),
        decreases v.len() - i,
    {
        let x = v[i];
        proof {
            assert(v@.take(i + 1).drop_last() =~= v@.take(i as int));
            assert(v@.take(i + 1).last() == v@[i as int]);
        }
        if x > u64::MAX - acc {
            proof {
                lemma_sum64_split(v@, i + 1);
                lemma_sum64_nonneg(v@.skip(i + 1));
            }
            return None;
        }
        acc = acc + x;
        i = i + 1;
    }
    assert(v@.take(v@.len() as int) =~= v@);
    Some(acc)
}

} // verus!
