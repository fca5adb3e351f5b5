use vstd::prelude::*;
use crate::PricePoint;
use crate::clock::now_secs;

verus! {

broadcast use vstd::seq_lib::group_filter_ensures;

/// Seconds in a 365-day year, the horizon that volatility is annualized to.
pub const SECONDS_PER_YEAR: u64 = 31536000;

/// The eviction threshold: samples strictly older than this instant leave the window.
pub open spec fn cutoff_of(now_secs: int, window_secs: int) -> int {
    now_secs - window_secs
}

pub open spec fn in_window(p: PricePoint, cutoff: int) -> bool {
    p.timestamp_secs >= cutoff
}

/// The samples that survive an eviction pass: exactly those whose timestamp is
/// at or after the cutoff, kept in arrival order.
pub open spec fn retained(s: Seq<PricePoint>, cutoff: int) -> Seq<PricePoint> {
    s.filter(|p: PricePoint| in_window(p, cutoff))
}

/// Sliding-window estimator state: a fixed window length in seconds and the
/// samples of the current window, in arrival order.
pub struct VolatilityCalculator {
    pub window_secs: i64,
    pub history: Vec<PricePoint>,
}

/// The exact ingredients of the annualized volatility figure, over the current
/// window of n samples:
/// - `ratios[i] == (history[i+1].price_e8, history[i].price_e8)`, the i-th
///   per-step price ratio, whose natural logarithm is the i-th log return
///   (the common 1e-8 scale of numerator and denominator cancels);
/// - `time_span_secs`, the distance from the first to the last sample, so the
///   empirically observed average sampling interval is
///   `time_span_secs / ratios.len()` and the annualization factor is
///   `SECONDS_PER_YEAR * ratios.len() / time_span_secs`.
///
/// The annualized volatility is the square root of the Bessel-corrected sample
/// variance of the log returns, times the square root of the annualization
/// factor. That final real-valued step is left to the caller.
pub struct VolatilityTerms {
    pub ratios: Vec<(u64, u64)>,
    pub time_span_secs: u64,
}

impl VolatilityCalculator {
    /// Every held sample has a strictly positive price, and the window length
    /// is non-negative.
    pub open spec fn wf(self) -> bool {
        &&& self.window_secs >= 0
        &&& forall|i: int| 0 <= i < self.history@.len() ==> (#[trigger] self.history@[i]).valid()
    }

    pub fn new(window_secs: i64) -> (r: Self)
        requires
            window_secs >= 0,
        ensures
            r.wf(),
            r.window_secs == window_secs,
            r.history@ =~= Seq::<PricePoint>::empty(),
    {
        VolatilityCalculator { window_secs, history: Vec::new() }
    }

    /// Appends the sample, then evicts every sample older than
    /// `now_secs - window_secs`, in arrival order.
    pub fn add_price_at(&mut self, price: PricePoint, now_secs: i64)
        requires
            old(self).wf(),
            price.valid(),
        ensures
            final(self).wf(),
            final(self).window_secs == old(self).window_secs,
            final(self).history@ == retained(
                old(self).history@.push(price),
                cutoff_of(now_secs as int, old(self).window_secs as int),
            ),
    {
        self.history.push(price);
        let ghost all = self.history@;
        let ghost cut = cutoff_of(now_secs as int, self.window_secs as int);
        let cutoff: i128 = now_secs as i128 - self.window_secs as i128;
        let mut kept: Vec<PricePoint> = Vec::new();
        let mut i: usize = 0;
        while i < self.history.len()
            invariant
                self.history@ == all,
                0 <= i <= all.len(),
                cutoff == cut,
                kept@ == retained(all.take(i as int), cut),
                self.window_secs == old(self).window_secs,
            decreases all.len() - i,
        {
            let p = self.history[i];
            if p.timestamp_secs as i128 >= cutoff {
                kept.push(p);
            }
            proof {
                assert(all.take(i as int + 1) =~= all.take(i as int).push(all[i as int]));
                all.take(i as int).lemma_filter_push(all[i as int], |q: PricePoint| in_window(q, cut));
            }
            i += 1;
        }
        proof {
            assert(all.take(all.len() as int) =~= all);
        }
        self.history = kept;
        proof {
            lemma_retained_valid(all, cut);
        }
    }

    /// Appends a sample at the current wall-clock time, then evicts stale
    /// samples. The eviction cutoff is the clock reading at the moment of the
    /// call, of which nothing more is known.
    pub fn add_price(&mut self, price: PricePoint)
        requires
            old(self).wf(),
            price.valid(),
        ensures
            final(self).wf(),
            final(self).window_secs == old(self).window_secs,
            exists|now: int|
                final(self).history@ == retained(
                    old(self).history@.push(price),
                    cutoff_of(now, old(self).window_secs as int),
                ),
    {
        let now = now_secs();
        self.add_price_at(price, now);
    }

    /// The exact inputs of the annualized volatility figure over the current
    /// window, or `None` while the window cannot support one: a Bessel-corrected
    /// sample variance needs at least two log returns, hence at least three
    /// samples, and annualization needs a strictly positive time span.
    pub fn calculate_volatility(&self) -> (r: Option<VolatilityTerms>)
        requires
            self.wf(),
        ensures
            r is Some <==> (self.history@.len() >= 3
                && self.history@.first().timestamp_secs < self.history@.last().timestamp_secs),
            r matches Some(t) ==> {
                &&& t.ratios@.len() == self.history@.len() - 1
                &&& forall|j: int| 0 <= j < t.ratios@.len()
                    ==> #[trigger] t.ratios@[j]
                        == ((self.history@[j + 1].price_e8, self.history@[j].price_e8))
                &&& forall|j: int| 0 <= j < t.ratios@.len()
                    ==> (#[trigger] t.ratios@[j]).0 > 0 && t.ratios@[j].1 > 0
                &&& t.time_span_secs == self.history@.last().timestamp_secs
                    - self.history@.first().timestamp_secs
            },
    {
        let n = self.history.len();
        if n < 3 {
            return None;
        }
        let first = self.history[0];
        let last = self.history[n - 1];
        if last.timestamp_secs <= first.timestamp_secs {
            return None;
        }
        let span128: i128 = last.timestamp_secs as i128 - first.timestamp_secs as i128;
        let span: u64 = span128 as u64;
        let mut ratios: Vec<(u64, u64)> = Vec::new();
        let mut i: usize = 1;
        while i < n
            invariant
                self.wf(),
                n == self.history@.len(),
                1 <= i <= n,
                ratios@.len() == i - 1,
                forall|j: int| 0 <= j < i - 1
                    ==> #[trigger] ratios@[j]
                        == ((self.history@[j + 1].price_e8, self.history@[j].price_e8)),
            decreases n - i,
        {
            ratios.push((self.history[i].price_e8, self.history[i - 1].price_e8));
            i += 1;
        }
        Some(VolatilityTerms { ratios, time_span_secs: span })
    }
}

/// Retention keeps only valid samples when all inputs are valid.
proof fn lemma_retained_valid(s: Seq<PricePoint>, cutoff: int)
    requires
        forall|i: int| 0 <= i < s.len() ==> (#[trigger] s[i]).valid(),
    ensures
        forall|i: int| 0 <= i < retained(s, cutoff).len() ==> (#[trigger] retained(s, cutoff)[i]).valid(),
{
    let pred = |p: PricePoint| in_window(p, cutoff);
    assert forall|i: int| 0 <= i < retained(s, cutoff).len()
        implies (#[trigger] retained(s, cutoff)[i]).valid() by {
        let p = retained(s, cutoff)[i];
        assert(s.filter(pred).contains(p));
        s.lemma_filter_contains_rev(pred, p);
        let k = choose|k: int| 0 <= k < s.len() && s[k] == p;
        assert(s[k].valid());
    }
}

/// Window retention law: after any mutation, every retained sample is still
/// inside the window, eviction never keeps a stale sample, and never drops a
/// sample that is still within the window.
pub proof fn lemma_window_retention(s: Seq<PricePoint>, cutoff: int)
    ensures
        forall|i: int| 0 <= i < retained(s, cutoff).len()
            ==> (#[trigger] retained(s, cutoff)[i]).timestamp_secs >= cutoff,
        forall|i: int| 0 <= i < s.len() && (#[trigger] s[i]).timestamp_secs >= cutoff
            ==> retained(s, cutoff).contains(s[i]),
{
    let pred = |p: PricePoint| in_window(p, cutoff);
    assert(retained(s, cutoff) == s.filter(pred));
}

} // verus!
