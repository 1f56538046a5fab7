//! Windowed average smoothing of sensor samples.
//!
//! A `Filter` keeps the last three samples of one axis in a fixed-capacity
//! history buffer and reports the arithmetic mean of whatever it holds.
//! `TriAxialFilter` runs one independent filter per axis.

use vstd::prelude::*;
use vstd::arithmetic::div_mod::{lemma_div_is_ordered, lemma_div_multiples_vanish};

verus! {

/// heapless::HistoryBuffer, the fixed-capacity window behind each filter;
/// opaque here, described only through `window_contents`.
#[verifier::external_type_specification]
#[verifier::external_body]
#[verifier::reject_recursive_types(T)]
pub struct ExHistoryBuffer<T, const N: usize>(heapless::HistoryBuffer<T, N>);

/// What a filter window holds, oldest sample first.
pub uninterp spec fn window_contents(buf: &heapless::HistoryBuffer<i32, 3>) -> Seq<i32>;

/// Relies on heapless::HistoryBuffer::new: a fresh buffer holds nothing.
#[verifier::external_body]
fn window_new() -> (b: heapless::HistoryBuffer<i32, 3>)
    ensures
        window_contents(&b) == Seq::<i32>::empty(),
{
    heapless::HistoryBuffer::new()
}

/// Relies on heapless::HistoryBuffer::write: appends the sample, overwriting
/// the oldest one once the buffer is full.
#[verifier::external_body]
fn window_write(b: &mut heapless::HistoryBuffer<i32, 3>, v: i32)
    ensures
        window_contents(final(b)) == (if window_contents(old(b)).len() < 3 {
            window_contents(old(b)).push(v)
        } else {
            window_contents(old(b)).drop_first().push(v)
        }),
{
    b.write(v)
}

/// Relies on heapless::HistoryBuffer::oldest_ordered: yields the stored
/// samples from oldest to newest.
#[verifier::external_body]
fn window_items(b: &heapless::HistoryBuffer<i32, 3>) -> (v: Vec<i32>)
    ensures
        v@ == window_contents(b),
{
    b.oldest_ordered().copied().collect()
}

/// Sum of a sequence of samples.
pub open spec fn sum_of(s: Seq<i32>) -> int
    decreases s.len(),
{
    if s.len() == 0 {
        0
    } else {
        s[0] + sum_of(s.drop_first())
    }
}

/// Division truncating toward zero, as the hardware divides.
pub open spec fn trunc_div(a: int, b: int) -> int {
    if a >= 0 {
        a / b
    } else {
        -((-a) / b)
    }
}

/// Arithmetic mean of the samples, truncated toward zero; zero of nothing.
pub open spec fn mean_of(s: Seq<i32>) -> int {
    if s.len() == 0 {
        0
    } else {
        trunc_div(sum_of(s), s.len() as int)
    }
}

/// One update step of the window: append, evicting the oldest when full.
pub open spec fn evict_push(w: Seq<i32>, v: i32) -> Seq<i32> {
    if w.len() < 3 {
        w.push(v)
    } else {
        w.drop_first().push(v)
    }
}

/// The window after feeding a whole sample history from a fresh filter.
pub open spec fn run_window(samples: Seq<i32>) -> Seq<i32>
    decreases samples.len(),
{
    if samples.len() == 0 {
        Seq::<i32>::empty()
    } else {
        evict_push(run_window(samples.drop_last()), samples.last())
    }
}

/// The last samples a depth-three window retains: all of them while three or
/// fewer have been fed, only the newest three afterwards.
pub open spec fn retained(samples: Seq<i32>) -> Seq<i32> {
    if samples.len() <= 3 {
        samples
    } else {
        samples.skip(samples.len() - 3)
    }
}

/// Feeding a sample history from a fresh filter retains exactly the last
/// window of it.
pub proof fn lemma_run_window(samples: Seq<i32>)
    ensures
        run_window(samples) == retained(samples),
    decreases samples.len(),
{
    if samples.len() > 0 {
        lemma_run_window(samples.drop_last());
        if samples.len() <= 3 {
            assert(evict_push(samples.drop_last(), samples.last()) =~= samples);
        } else {
            assert(retained(samples.drop_last()).drop_first().push(samples.last())
                =~= retained(samples));
        }
    }
}

/// Sums of bounded samples stay within `len` times the sample bounds.
proof fn lemma_sum_bounds(s: Seq<i32>)
    ensures
        s.len() * (i32::MIN as int) <= sum_of(s) <= s.len() * (i32::MAX as int),
    decreases s.len(),
{
    if s.len() == 0 {
    } else {
        lemma_sum_bounds(s.drop_first());
        assert(s.len() * (i32::MIN as int) == (s.len() - 1) * (i32::MIN as int) + i32::MIN)
            by (nonlinear_arith);
        assert(s.len() * (i32::MAX as int) == (s.len() - 1) * (i32::MAX as int) + i32::MAX)
            by (nonlinear_arith);
    }
}

/// A truncated mean of samples lies within the sample bounds.
proof fn lemma_mean_bounds(s: Seq<i32>)
    ensures
        i32::MIN <= mean_of(s) <= i32::MAX,
{
    if s.len() > 0 {
        let k = s.len() as int;
        let sum = sum_of(s);
        lemma_sum_bounds(s);
        if sum >= 0 {
            lemma_div_is_ordered(sum, k * (i32::MAX as int), k);
            lemma_div_multiples_vanish(i32::MAX as int, k);
            assert((i32::MAX as int) * k == k * (i32::MAX as int)) by (nonlinear_arith);
        } else {
            lemma_div_is_ordered(-sum, k * (-(i32::MIN as int)), k);
            lemma_div_multiples_vanish(-(i32::MIN as int), k);
            assert((-(i32::MIN as int)) * k == k * (-(i32::MIN as int))) by (nonlinear_arith);
            assert(-sum <= k * (-(i32::MIN as int))) by (nonlinear_arith)
                requires
                    sum >= k * (i32::MIN as int),
            ;
        }
    }
}

/// Simple windowed average filter
pub struct Filter {
    buf: heapless::HistoryBuffer<i32, 3>,
}

impl View for Filter {
    type V = Seq<i32>;

    closed spec fn view(&self) -> Seq<i32> {
        window_contents(&self.buf)
    }
}

impl Filter {
    /// The window never holds more than its depth.
    pub open spec fn wf(&self) -> bool {
        self@.len() <= 3
    }

    pub fn new() -> (r: Filter)
        ensures
            r@ == Seq::<i32>::empty(),
            r.wf(),
    {
        Filter { buf: window_new() }
    }

    /// Pushes one sample, evicting the oldest once at capacity.
    pub fn update(&mut self, value: i32)
        requires
            old(self).wf(),
        ensures
            final(self).wf(),
            final(self)@ == evict_push(old(self)@, value),
    {
        window_write(&mut self.buf, value);
    }

    /// Mean of the current window contents: of however many samples are
    /// present before warm-up, of the last three afterwards.
    pub fn value(&self) -> (r: i32)
        requires
            self.wf(),
        ensures
            r == mean_of(self@),
    {
        let items = window_items(&self.buf);
        let n = items.len();
        if n == 0 {
            return 0;
        }
        let mut sum: i64 = 0;
        let mut i: usize = 0;
        while i < n
            invariant
                i <= n,
                n == items@.len(),
                n <= 3,
                sum == sum_of(items@.take(i as int)),
                -3 * 0x8000_0000i64 <= sum <= 3 * 0x7fff_ffffi64,
            decreases n - i,
        {
            proof {
                assert(items@.take(i + 1).drop_last() =~= items@.take(i as int));
                lemma_sum_of_take_step(items@, i as int);
                lemma_sum_bounds(items@.take(i + 1));
            }
            sum = sum + items[i] as i64;
            i = i + 1;
        }
        proof {
            assert(items@.take(n as int) =~= items@);
            lemma_mean_bounds(items@);
        }
        let k = n as u64;
        if sum >= 0 {
            (((sum as u64) / k) as i64) as i32
        } else {
            (-((((-sum) as u64) / k) as i64)) as i32
        }
    }
}

/// Extending a prefix by one sample adds that sample to its sum.
proof fn lemma_sum_of_take_step(s: Seq<i32>, i: int)
    requires
        0 <= i < s.len(),
    ensures
        sum_of(s.take(i + 1)) == sum_of(s.take(i)) + s[i],
    decreases i,
{
    lemma_sum_snoc(s.take(i + 1));
    assert(s.take(i + 1).drop_last() =~= s.take(i));
}

/// The sum of a nonempty sequence is the sum of its front plus its last.
proof fn lemma_sum_snoc(s: Seq<i32>)
    requires
        s.len() > 0,
    ensures
        sum_of(s) == sum_of(s.drop_last()) + s.last(),
    decreases s.len(),
{
    if s.len() == 1 {
        assert(s.drop_last() =~= Seq::<i32>::empty());
        assert(s.drop_first() =~= Seq::<i32>::empty());
        assert(sum_of(Seq::<i32>::empty()) == 0);
        assert(sum_of(s) == s[0] + sum_of(s.drop_first()));
    } else {
        lemma_sum_snoc(s.drop_first());
        assert(s.drop_first().drop_last() =~= s.drop_last().drop_first());
        assert(s.drop_first().last() == s.last());
        assert(s.drop_last()[0] == s[0]);
        assert(s.drop_last().len() > 0);
        assert(sum_of(s.drop_last()) == s.drop_last()[0] + sum_of(s.drop_last().drop_first()));
        assert(sum_of(s) == s[0] + sum_of(s.drop_first()));
    }
}

impl core::default::Default for Filter {
    fn default() -> (r: Self)
        ensures
            r@ == Seq::<i32>::empty(),
            r.wf(),
    {
        Filter::new()
    }
}

/// Filter for a tri-axial sensor: one independent window per axis.
pub struct TriAxialFilter {
    x_filter: Filter,
    y_filter: Filter,
    z_filter: Filter,
}

impl TriAxialFilter {
    pub closed spec fn wf(&self) -> bool {
        self.x_filter.wf() && self.y_filter.wf() && self.z_filter.wf()
    }

    pub closed spec fn x_window(&self) -> Seq<i32> {
        self.x_filter@
    }

    pub closed spec fn y_window(&self) -> Seq<i32> {
        self.y_filter@
    }

    pub closed spec fn z_window(&self) -> Seq<i32> {
        self.z_filter@
    }

    pub fn new() -> (r: TriAxialFilter)
        ensures
            r.wf(),
            r.x_window() == Seq::<i32>::empty(),
            r.y_window() == Seq::<i32>::empty(),
            r.z_window() == Seq::<i32>::empty(),
    {
        TriAxialFilter { x_filter: Filter::new(), y_filter: Filter::new(), z_filter: Filter::new() }
    }

    /// Feeds one tri-axial sample, each component into its own axis window.
    pub fn update(&mut self, data: (i32, i32, i32))
        requires
            old(self).wf(),
        ensures
            final(self).wf(),
            final(self).x_window() == evict_push(old(self).x_window(), data.0),
            final(self).y_window() == evict_push(old(self).y_window(), data.1),
            final(self).z_window() == evict_push(old(self).z_window(), data.2),
    {
        let (x, y, z) = data;
        self.x_filter.update(x);
        self.y_filter.update(y);
        self.z_filter.update(z);
    }

    /// The three axis means, each read from its own axis window.
    pub fn value(&self) -> (r: (i32, i32, i32))
        requires
            self.wf(),
        ensures
            r.0 == mean_of(self.x_window()),
            r.1 == mean_of(self.y_window()),
            r.2 == mean_of(self.z_window()),
    {
        (self.get_x(), self.get_y(), self.get_z())
    }

    pub fn get_x(&self) -> (r: i32)
        requires
            self.wf(),
        ensures
            r == mean_of(self.x_window()),
    {
        self.x_filter.value()
    }

    pub fn get_y(&self) -> (r: i32)
        requires
            self.wf(),
        ensures
            r == mean_of(self.y_window()),
    {
        self.y_filter.value()
    }

    pub fn get_z(&self) -> (r: i32)
        requires
            self.wf(),
        ensures
            r == mean_of(self.z_window()),
    {
        self.z_filter.value()
    }
}

impl core::default::Default for TriAxialFilter {
    fn default() -> (r: Self)
        ensures
            r.wf(),
            r.x_window() == Seq::<i32>::empty(),
            r.y_window() == Seq::<i32>::empty(),
            r.z_window() == Seq::<i32>::empty(),
    {
        TriAxialFilter::new()
    }
}

/// The windowed-filter law: after feeding `k` samples from a fresh filter,
/// the reported value is the mean of those `k` samples while `k` is at most
/// the window depth, and the mean of only the last three samples beyond it.
pub proof fn lemma_windowed_mean(samples: Seq<i32>)
    ensures
        samples.len() <= 3 ==> mean_of(run_window(samples)) == mean_of(samples),
        samples.len() > 3 ==> mean_of(run_window(samples)) == mean_of(
            samples.skip(samples.len() - 3),
        ),
{
    lemma_run_window(samples);
}

} // verus!
