//! Keeping the peers' frame clocks together.
//!
//! Every frame yields a measure of how far we are off. The measures of a window
//! of frames are averaged, the extremes left out, and the average decides how
//! hard the frame clock is pulled.
use crate::words;
use vstd::prelude::*;

verus! {

/// How many frames are averaged at a time.
pub const TIME_SYNC_MEDIAN_INTERVAL: usize = 50;

/// How many measures are left out at either end.
pub const OUTLIERS: usize = 3;

/// The sum of some measures.
pub open spec fn total(s: Seq<i32>) -> int
    decreases s.len(),
{
    if s.len() == 0 {
        0
    } else {
        total(s.drop_last()) + s.last()
    }
}

/// The measures in order, without the extremes.
pub open spec fn middle(window: Seq<i32>) -> Seq<i32> {
    window.sort_by(|a: i32, b: i32| a <= b).subrange(3, 47)
}

/// The average of the measures without the extremes, rounded toward zero.
pub open spec fn trimmed_mean(window: Seq<i32>) -> int {
    words::quotient(words::wrap_i32(total(middle(window))) as int, 44)
}

/// How hard the frame clock is pulled for an average.
pub open spec fn pull(average: int) -> int {
    let size = if average >= 0 {
        average
    } else {
        -average
    };
    if size > 20000 {
        words::quotient(average, 700)
    } else if size > 10000 {
        words::quotient(average, 1400)
    } else if size > 2000 {
        words::quotient(average, 2000)
    } else if size > 500 {
        if average > 0 {
            1
        } else {
            -1
        }
    } else {
        0
    }
}

/// Puts `x` in its place among sorted measures.
fn insert_sorted(v: &mut Vec<i32>, x: i32)
    requires
        old(v)@.len() < usize::MAX,
        vstd::relations::sorted_by(old(v)@, |a: i32, b: i32| a <= b),
    ensures
        vstd::relations::sorted_by(final(v)@, |a: i32, b: i32| a <= b),
        final(v)@.len() == old(v)@.len() + 1,
        final(v)@.to_multiset() == old(v)@.to_multiset().insert(x),
{
    let mut at: usize = 0;
    let ghost leq = |a: i32, b: i32| a <= b;
    while at < v.len() && v[at] <= x
        invariant
            v@ == old(v)@,
            at <= v@.len(),
            forall|j: int| 0 <= j < at ==> v@[j] <= x,
        decreases v@.len() - at,
    {
        at += 1;
    }
    assert forall|j: int| at <= j < v@.len() implies x <= #[trigger] v@[j] by {
        if at < j {
            assert(leq(v@[at as int], v@[j]));
        }
    }
    v.insert(at, x);
    proof {
        broadcast use vstd::seq_lib::group_to_multiset_ensures;

        let before = old(v)@;
        assert forall|i: int, j: int| 0 <= i < j < v@.len() implies #[trigger] leq(v@[i], v@[j]) by {
            let oi = if i < at {
                i
            } else {
                i - 1
            };
            let oj = if j < at {
                j
            } else {
                j - 1
            };
            if i != at && j != at {
                assert(leq(before[oi], before[oj]));
            }
        }
        assert(v@.remove(at as int) =~= before);
    }
}

/// Averages a window of measures.
pub fn average(window: &Vec<i32>) -> (r: i32)
    requires
        window@.len() == TIME_SYNC_MEDIAN_INTERVAL,
    ensures
        r == trimmed_mean(window@),
{
    let ghost leq = |a: i32, b: i32| a <= b;
    let mut sorted: Vec<i32> = Vec::new();
    let mut i: usize = 0;
    proof {
        broadcast use vstd::seq_lib::group_to_multiset_ensures;

        assert(window@.take(0) =~= sorted@);
    }
    while i < window.len()
        invariant
            window@.len() == TIME_SYNC_MEDIAN_INTERVAL,
            i <= window@.len(),
            sorted@.len() == i,
            vstd::relations::sorted_by(sorted@, |a: i32, b: i32| a <= b),
            sorted@.to_multiset() == window@.take(i as int).to_multiset(),
        decreases window@.len() - i,
    {
        insert_sorted(&mut sorted, window[i]);
        proof {
            broadcast use vstd::seq_lib::group_to_multiset_ensures;

            assert(window@.take(i + 1) =~= window@.take(i as int).push(window@[i as int]));
        }
        i += 1;
    }
    proof {
        assert(window@.take(i as int) =~= window@);
        assert(vstd::relations::total_ordering(leq));
        window@.lemma_sort_by_ensures(leq);
        vstd::seq_lib::lemma_sorted_unique(sorted@, window@.sort_by(leq), leq);
    }
    let mut sum: i64 = 0;
    let mut k: usize = OUTLIERS;
    let ghost mid = middle(window@);
    assert(mid =~= sorted@.subrange(3, 47));
    while k < TIME_SYNC_MEDIAN_INTERVAL - OUTLIERS
        invariant
            3 <= k <= 47,
            sorted@.len() == 50,
            mid == sorted@.subrange(3, 47),
            sum == total(mid.take(k - 3)),
            -0x8000_0000 * (k - 3) <= sum <= 0x8000_0000 * (k - 3),
        decreases 47 - k,
    {
        assert(mid.take(k - 2).drop_last() =~= mid.take(k - 3));
        sum += sorted[k] as i64;
        k += 1;
    }
    assert(mid.take(44) =~= mid);
    words::divide(words::narrow_signed(sum), 44)
}

/// How hard to pull the frame clock.
pub fn correction(average: i32) -> (r: i32)
    ensures
        r == pull(average as int),
{
    if average > 20000 || average < -20000 {
        words::divide(average, 700)
    } else if average > 10000 || average < -10000 {
        words::divide(average, 1400)
    } else if average > 2000 || average < -2000 {
        words::divide(average, 2000)
    } else if average > 500 {
        1
    } else if average < -500 {
        -1
    } else {
        0
    }
}

/// The clock is pulled the same way for being early as for being late, never
/// against the average, and the harder the further off we are.
pub proof fn pull_is_fair(average: int, further: int)
    requires
        0 <= average <= further,
    ensures
        pull(-average) == -pull(average),
        0 <= pull(average) <= pull(further),
        average <= 500 ==> pull(average) == 0,
        average > 500 ==> pull(average) > 0,
{
}

/// The clock is pulled in proportion, and the less the closer we are: by one
/// 700th of what we are off above 20 ms, one 1400th above 10 ms, one 2000th
/// above 2 ms, and otherwise by one or not at all.
pub proof fn pull_is_proportional(average: int)
    requires
        0 <= average,
    ensures
        average > 20000 ==> 700 * pull(average) <= average < 700 * pull(average) + 700,
        10000 < average <= 20000 ==> 1400 * pull(average) <= average < 1400 * pull(average) + 1400,
        2000 < average <= 10000 ==> 2000 * pull(average) <= average < 2000 * pull(average) + 2000,
        500 < average <= 2000 ==> pull(average) == 1,
        average <= 500 ==> pull(average) == 0,
        pull(-average) == -pull(average),
{
}

/// The order in which measures were taken does not matter.
pub proof fn averages_ignore_order(a: Seq<i32>, b: Seq<i32>)
    requires
        a.to_multiset() == b.to_multiset(),
    ensures
        trimmed_mean(a) == trimmed_mean(b),
{
    let leq = |x: i32, y: i32| x <= y;
    assert(vstd::relations::total_ordering(leq));
    a.lemma_sort_by_ensures(leq);
    b.lemma_sort_by_ensures(leq);
    vstd::seq_lib::lemma_sorted_unique(a.sort_by(leq), b.sort_by(leq), leq);
}

proof fn total_is_a_sum(s: Seq<i32>)
    ensures
        total(s) == s.fold_left(0int, |sum: int, x: i32| sum + x),
    decreases s.len(),
{
    if s.len() > 0 {
        total_is_a_sum(s.drop_last());
    }
}

/// The average of measures in order is the sum of all but the three least and
/// the three largest, shared out among the 44 that are left and rounded toward
/// zero, as long as the sum is a 32-bit word.
pub proof fn averages_leave_out_three_at_either_end(window: Seq<i32>)
    requires
        window.len() == 50,
        forall|i: int, j: int| 0 <= i < j < 50 ==> window[i] <= window[j],
    ensures
        ({
            let sum = window.subrange(3, 47).fold_left(0int, |sum: int, x: i32| sum + x);
            let mean = trimmed_mean(window);
            &&& 0 <= sum <= i32::MAX ==> 44 * mean <= sum < 44 * mean + 44
            &&& i32::MIN <= sum <= 0 ==> 44 * mean - 44 < sum <= 44 * mean
        }),
{
    let leq = |x: i32, y: i32| x <= y;
    assert(vstd::relations::total_ordering(leq));
    assert(vstd::relations::sorted_by(window, leq));
    window.lemma_sort_by_ensures(leq);
    vstd::seq_lib::lemma_sorted_unique(window, window.sort_by(leq), leq);
    assert(middle(window) =~= window.subrange(3, 47));
    total_is_a_sum(window.subrange(3, 47));
    words::narrowing_keeps_the_low_bits(total(middle(window)));
}

proof fn equal_measures_add_up(s: Seq<i32>, x: i32)
    requires
        forall|i: int| 0 <= i < s.len() ==> s[i] == x,
    ensures
        total(s) == s.len() * x,
    decreases s.len(),
{
    if s.len() > 0 {
        equal_measures_add_up(s.drop_last(), x);
        let n = s.len() as int;
        assert((n - 1) * x + x == n * x) by (nonlinear_arith);
    }
}

/// Measures that are all the same average to just that.
pub proof fn equal_measures_average_to_themselves(window: Seq<i32>, x: i32)
    requires
        window.len() == 50,
        forall|i: int| 0 <= i < 50 ==> window[i] == x,
        i32::MIN <= 44 * x <= i32::MAX,
    ensures
        trimmed_mean(window) == x,
{
    let leq = |a: i32, b: i32| a <= b;
    assert(vstd::relations::total_ordering(leq));
    assert(vstd::relations::sorted_by(window, leq));
    window.lemma_sort_by_ensures(leq);
    vstd::seq_lib::lemma_sorted_unique(window, window.sort_by(leq), leq);
    equal_measures_add_up(middle(window), x);
    words::narrowing_keeps_the_low_bits(44 * x);
}

} // verus!
