//! The simple stateless entry points: formatting a sum as text and summing a
//! sequence of unsigned integers. Overflow is rejected, never wrapped: both
//! operations return `None` exactly when the mathematical result does not fit
//! the machine type.

use vstd::prelude::*;
use crate::decimal::dec_digits;
use crate::decimal::u64_to_decimal;

verus! {

/// The mathematical sum of a sequence of unsigned integers.
pub open spec fn sum_of(s: Seq<u32>) -> int
    decreases s.len(),
{
    if s.len() == 0 {
        0
    } else {
        sum_of(s.drop_last()) + s.last()
    }
}

/// The sum of any prefix never exceeds the sum of the whole sequence.
pub proof fn lemma_sum_of_prefix(s: Seq<u32>, i: int)
    requires
        0 <= i <= s.len(),
    ensures
        0 <= sum_of(s.subrange(0, i)) <= sum_of(s),
    decreases s.len() - i,
{
    if i == s.len() {
        assert(s.subrange(0, i) =~= s);
        lemma_sum_of_nonneg(s);
    } else {
        lemma_sum_of_prefix(s, i + 1);
        lemma_sum_of_nonneg(s.subrange(0, i));
        assert(s.subrange(0, i + 1).drop_last() =~= s.subrange(0, i));
        assert(sum_of(s.subrange(0, i + 1)) == sum_of(s.subrange(0, i)) + s[i]);
    }
}

/// The sum of a sequence of unsigned integers is never negative.
pub proof fn lemma_sum_of_nonneg(s: Seq<u32>)
    ensures
        sum_of(s) >= 0,
    decreases s.len(),
{
    if s.len() > 0 {
        lemma_sum_of_nonneg(s.drop_last());
    }
}

/// Renders `a + b` as its exact decimal string.
///
/// Overflow policy: an addition that does not fit `usize` is rejected with
/// `None` rather than wrapped or saturated.
pub fn sum_as_string(a: usize, b: usize) -> (r: Option<String>)
    ensures
        r is Some <==> a + b <= usize::MAX,
        r matches Some(s) ==> s@ == dec_digits((a + b) as nat),
{
    if a <= usize::MAX - b {
        let total: usize = a + b;
        Some(u64_to_decimal(total as u64))
    } else {
        None
    }
}

/// Sums a sequence of unsigned integers.
///
/// Takes no exclusivity token and reads no shared state, so a host may run it
/// with any global lock released. Overflow policy: a sum that does not fit
/// `u32` is rejected with `None`.
pub fn sum_numbers(numbers: &Vec<u32>) -> (r: Option<u32>)
    ensures
        r is Some <==> sum_of(numbers@) <= u32::MAX,
        r matches Some(total) ==> total == sum_of(numbers@),
{
    let mut running: u32 = 0;
    let mut i: usize = 0;
    while i < numbers.len()
        invariant
            0 <= i <= numbers@.len(),
            running == sum_of(numbers@.subrange(0, i as int)),
        decreases numbers@.len() - i,
    {
        proof {
            assert(numbers@.subrange(0, i + 1).drop_last() =~= numbers@.subrange(0, i as int));
            assert(numbers@.subrange(0, i + 1).last() == numbers@[i as int]);
        }
        let x = numbers[i];
        if running > u32::MAX - x {
            proof {
                lemma_sum_of_prefix(numbers@, i + 1);
            }
            return None;
        }
        running = running + x;
        i = i + 1;
    }
    proof {
        assert(numbers@.subrange(0, numbers@.len() as int) =~= numbers@);
    }
    Some(running)
}

} // verus!
