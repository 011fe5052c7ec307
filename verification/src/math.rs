//! Checked arithmetic over lists of emission values.
use vstd::prelude::*;

verus! {

/// The mathematical sum of a sequence of 64-bit values.
pub open spec fn sum_seq(s: Seq<u64>) -> int
    decreases s.len(),
{
    if s.len() == 0 {
        0
    } else {
        sum_seq(s.drop_last()) + s.last()
    }
}

/// Sums the values, reporting overflow of the 64-bit range as `None`.
pub fn checked_sum(vals: &Vec<u64>) -> (r: Option<u64>)
    ensures
        match r {
            Some(t) => t == sum_seq(vals@),
            None => sum_seq(vals@) > u64::MAX,
        },
{
    let len = vals.len();
    let mut acc: u64 = 0;
    let mut i: usize = 0;
    while i < len
        invariant
            i <= len,
            len == vals@.len(),
            acc == sum_seq(vals@.take(i as int)),
        decreases len - i,
    {
        proof {
            assert(vals@.take(i + 1).drop_last() =~= vals@.take(i as int));
            assert(vals@.take(i + 1).last() == vals@[i as int]);
        }
        let v = vals[i];
        if acc > u64::MAX - v {
            proof {
                assert(sum_seq(vals@.take(i + 1)) == acc + v);
                lemma_sum_take_monotone(vals@, i + 1, vals@.len() as int);
                assert(vals@.take(vals@.len() as int) =~= vals@);
            }
            return None;
        }
        acc = acc + v;
        i += 1;
    }
    proof {
        assert(vals@.take(len as int) =~= vals@);
    }
    Some(acc)
}

/// Extending a prefix of nonnegative values never shrinks the sum.
proof fn lemma_sum_take_monotone(s: Seq<u64>, i: int, j: int)
    requires
        0 <= i <= j <= s.len(),
    ensures
        sum_seq(s.take(i)) <= sum_seq(s.take(j)),
    decreases j - i,
{
    if i < j {
        lemma_sum_take_monotone(s, i, j - 1);
        assert(s.take(j).drop_last() =~= s.take(j - 1));
        assert(sum_seq(s.take(j)) == sum_seq(s.take(j - 1)) + s.take(j).last());
    }
}

} // verus!
