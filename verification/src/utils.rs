//! Wrap-around constants of RTP, and the running average that the statistics use.

use vstd::prelude::*;

verus! {

/// The number of distinct RTP sequence numbers.
pub const U16_WRAP: u32 = 0x1_0000;

/// The number of distinct RTP timestamps.
pub const U32_WRAP: u64 = 0x1_0000_0000;

/// The largest magnitude (exclusive) of a value that an average is taken of: every `i64`
/// and every `u64` is below it.
pub const VALUE_BOUND: i128 = 0x1_0000_0000_0000_0000;

/// The sum of a sequence of integers.
pub open spec fn sum_of(s: Seq<int>) -> int
    decreases s.len(),
{
    if s.len() == 0 {
        0
    } else {
        sum_of(s.drop_last()) + s.last()
    }
}

/// Integer division that truncates toward zero, as Rust's `/` does.
pub open spec fn trunc_div(a: int, n: int) -> int {
    if a >= 0 {
        a / n
    } else {
        -((-a) / n)
    }
}

/// The average of a non-empty sequence, truncated toward zero.
pub open spec fn average(s: Seq<int>) -> int {
    trunc_div(sum_of(s), s.len() as int)
}

/// Whether every value of `s` lies in `lo..=hi`.
pub open spec fn all_within(s: Seq<int>, lo: int, hi: int) -> bool {
    forall|i: int| 0 <= i < s.len() ==> lo <= #[trigger] s[i] <= hi
}

/// The sum of values in `lo..=hi` lies between `len * lo` and `len * hi`.
pub proof fn lemma_sum_within(s: Seq<int>, lo: int, hi: int)
    requires
        all_within(s, lo, hi),
    ensures
        s.len() * lo <= sum_of(s) <= s.len() * hi,
    decreases s.len(),
{
    if s.len() > 0 {
        let t = s.drop_last();
        assert(all_within(t, lo, hi)) by {
            assert forall|i: int| 0 <= i < t.len() implies lo <= #[trigger] t[i] <= hi by {
                assert(t[i] == s[i]);
            }
        }
        lemma_sum_within(t, lo, hi);
        assert(sum_of(s) == sum_of(t) + s[s.len() - 1]);
        assert(lo <= s[s.len() - 1] <= hi);
        assert(s.len() * lo == t.len() * lo + lo) by (nonlinear_arith)
            requires
                s.len() == t.len() + 1,
        ;
        assert(s.len() * hi == t.len() * hi + hi) by (nonlinear_arith)
            requires
                s.len() == t.len() + 1,
        ;
    } else {
        assert(s.len() * lo == 0 && s.len() * hi == 0) by (nonlinear_arith)
            requires
                s.len() == 0,
        ;
    }
}

/// The average of values in `lo..=hi`, where `lo <= 0 <= hi`, lies in `lo..=hi` too.
pub proof fn lemma_average_within(s: Seq<int>, lo: int, hi: int)
    requires
        s.len() > 0,
        lo <= 0 <= hi,
        all_within(s, lo, hi),
    ensures
        lo <= average(s) <= hi,
{
    lemma_sum_within(s, lo, hi);
    let n = s.len() as int;
    let a = sum_of(s);
    if a >= 0 {
        assert(a / n <= hi) by (nonlinear_arith)
            requires
                0 <= a <= n * hi,
                n > 0,
        ;
        assert(a / n >= 0) by (nonlinear_arith)
            requires
                a >= 0,
                n > 0,
        ;
    } else {
        assert((-a) / n <= -lo) by (nonlinear_arith)
            requires
                n * lo <= a,
                a < 0,
                n > 0,
        ;
        assert((-a) / n >= 0) by (nonlinear_arith)
            requires
                -a > 0,
                n > 0,
        ;
    }
}

/// Collects values and, each time a window of `capacity` values is complete, gives their
/// average and starts a new window.
pub struct AverageCalculationBuffer {
    sum: i128,
    count: usize,
    capacity: usize,
    window: Ghost<Seq<int>>,
}

impl AverageCalculationBuffer {
    /// The values of the window that is being filled.
    pub closed spec fn window(&self) -> Seq<int> {
        self.window@
    }

    /// The number of values in a window.
    pub closed spec fn capacity(&self) -> nat {
        self.capacity as nat
    }

    /// The running sum is that of the window, which is never full, and the values are
    /// bounded so that the sum fits.
    pub closed spec fn wf(&self) -> bool {
        &&& 0 < self.capacity <= u32::MAX
        &&& self.count == self.window@.len()
        &&& self.count < self.capacity
        &&& self.sum == sum_of(self.window@)
        &&& all_within(self.window@, -VALUE_BOUND + 1, VALUE_BOUND - 1)
    }

    /// An empty buffer for windows of `capacity` values; the capacity is bounded so that a
    /// window's sum fits in 128 bits.
    pub fn new(capacity: usize) -> (r: Self)
        requires
            0 < capacity <= u32::MAX,
        ensures
            r.wf(),
            r.window() == Seq::<int>::empty(),
            r.capacity() == capacity,
    {
        AverageCalculationBuffer { sum: 0, count: 0, capacity, window: Ghost(Seq::empty()) }
    }

    /// Adds a value. Where it completes the window, the window's average (truncated toward
    /// zero) is returned and the window starts afresh.
    pub fn update(&mut self, value: i128) -> (r: Option<i128>)
        requires
            old(self).wf(),
            -VALUE_BOUND < value < VALUE_BOUND,
        ensures
            final(self).wf(),
            final(self).capacity() == old(self).capacity(),
            if old(self).window().len() + 1 == old(self).capacity() {
                &&& r == Some(average(old(self).window().push(value as int)) as i128)
                &&& final(self).window() == Seq::<int>::empty()
            } else {
                &&& r is None
                &&& final(self).window() == old(self).window().push(value as int)
            },
    {
        let ghost w = self.window@.push(value as int);
        proof {
            assert(w.drop_last() =~= self.window@);
            assert(all_within(w, -VALUE_BOUND + 1, VALUE_BOUND - 1)) by {
                assert forall|i: int| 0 <= i < w.len() implies -VALUE_BOUND + 1 <= #[trigger] w[i]
                    <= VALUE_BOUND - 1 by {
                    if i < w.len() - 1 {
                        assert(w[i] == self.window@[i]);
                    }
                }
            }
            lemma_sum_within(w, -VALUE_BOUND + 1, VALUE_BOUND - 1);
            assert(w.len() * (VALUE_BOUND - 1) <= 0x1_0000_0000 * 0x1_0000_0000_0000_0000)
                by (nonlinear_arith)
                requires
                    w.len() <= 0x1_0000_0000,
            ;
            assert(w.len() * (-VALUE_BOUND + 1) >= -0x1_0000_0000 * 0x1_0000_0000_0000_0000)
                by (nonlinear_arith)
                requires
                    w.len() <= 0x1_0000_0000,
            ;
        }
        let sum = self.sum + value;
        let count = self.count + 1;
        if count == self.capacity {
            let n = self.capacity as i128;
            let avg = if sum >= 0 {
                sum / n
            } else {
                let neg = -sum;
                proof {
                    assert(neg / n <= neg) by (nonlinear_arith)
                        requires
                            neg > 0,
                            n > 0,
                    ;
                }
                -(neg / n)
            };
            proof {
                lemma_average_within(w, -VALUE_BOUND + 1, VALUE_BOUND - 1);
            }
            self.sum = 0;
            self.count = 0;
            self.window = Ghost(Seq::empty());
            Some(avg)
        } else {
            self.sum = sum;
            self.count = count;
            self.window = Ghost(w);
            None
        }
    }
}

} // verus!
