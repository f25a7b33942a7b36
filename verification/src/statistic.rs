use crate::results::SCALE;
use vstd::prelude::*;

verus! {

/// The significance level of interval estimates, held as the table of
/// two-sided critical values of Student's t distribution at that level.
///
/// Entry `i` is the critical value for `i + 1` degrees of freedom, as a
/// fixed-point number; beyond the table the last entry applies.
#[derive(Clone, Debug, PartialEq, Eq)]
pub struct StatsConfig {
    pub critical_values: Vec<u64>,
}

impl StatsConfig {
    /// The table has at least one entry.
    pub open spec fn well_formed(self) -> bool {
        self.critical_values@.len() > 0
    }

    /// The critical value for `freedom` degrees of freedom.
    pub open spec fn critical(self, freedom: int) -> int {
        if freedom <= self.critical_values@.len() {
            self.critical_values@[freedom - 1] as int
        } else {
            self.critical_values@[self.critical_values@.len() - 1] as int
        }
    }

    /// Tells whether the table has at least one entry.
    pub fn is_valid(&self) -> (answer: bool)
        ensures
            answer == self.well_formed(),
    {
        self.critical_values.len() > 0
    }

    /// The critical value for `freedom` degrees of freedom.
    pub fn critical_value(&self, freedom: usize) -> (value: u64)
        requires
            self.well_formed(),
            freedom >= 1,
        ensures
            value == self.critical(freedom as int),
    {
        if freedom <= self.critical_values.len() {
            self.critical_values[freedom - 1]
        } else {
            self.critical_values[self.critical_values.len() - 1]
        }
    }
}

/// Why an estimate could not be computed.
#[derive(Clone, Copy, Debug, PartialEq, Eq, Structural)]
pub enum StatsError {
    /// The sample has fewer than two observations.
    InsufficientSample,
    /// The sum of squares of the sample, times its size, leaves the 128-bit
    /// range.
    Overflow,
}

/// The sum of the observations.
pub open spec fn total(sample: Seq<u128>) -> int
    decreases sample.len(),
{
    if sample.len() == 0 {
        0
    } else {
        total(sample.drop_last()) + sample.last()
    }
}

/// The sum of the squares of the observations.
pub open spec fn total_of_squares(sample: Seq<u128>) -> int
    decreases sample.len(),
{
    if sample.len() == 0 {
        0
    } else {
        total_of_squares(sample.drop_last()) + sample.last() * sample.last()
    }
}

/// The sum of the squared deviations from the mean, times the size of the
/// sample: `n * sum(x^2) - sum(x)^2`.
pub open spec fn spread(sample: Seq<u128>) -> int {
    sample.len() * total_of_squares(sample) - total(sample) * total(sample)
}

/// The sample mean, rounded down.
pub open spec fn mean_of(sample: Seq<u128>) -> int {
    total(sample) / (sample.len() as int)
}

/// The sample variance with Bessel's correction, rounded down: the sum of the
/// squared deviations from the mean over `n - 1`.
pub open spec fn variance_of(sample: Seq<u128>) -> int {
    spread(sample) / (sample.len() * (sample.len() - 1))
}

/// `root` is the square root of `x`, rounded down.
pub open spec fn is_floor_sqrt(root: int, x: int) -> bool {
    0 <= root && root * root <= x < (root + 1) * (root + 1)
}

/// The square root of `x`, rounded down.
pub open spec fn floor_sqrt(x: int) -> int {
    choose|root: int| is_floor_sqrt(root, x)
}

/// The sample standard deviation, rounded down.
pub open spec fn deviation_of(sample: Seq<u128>) -> int {
    floor_sqrt(variance_of(sample))
}

/// The margin `multiplier * deviation / sqrt(size)` of an interval estimate,
/// where `multiplier` is a fixed-point number and the result is in the unit of
/// `deviation`.
pub open spec fn margin_of(multiplier: int, deviation: int, size: int) -> int {
    multiplier * deviation / floor_sqrt(size * SCALE * SCALE)
}

/// Only one number is the rounded-down square root of `x`.
pub proof fn lemma_floor_sqrt_unique(root: int, x: int)
    requires
        is_floor_sqrt(root, x),
    ensures
        floor_sqrt(x) == root,
{
    let other = floor_sqrt(x);
    assert(is_floor_sqrt(other, x));
    if other < root {
        assert((other + 1) * (other + 1) <= root * root) by (nonlinear_arith)
            requires
                0 <= other + 1 <= root,
        ;
    }
    if root < other {
        assert((root + 1) * (root + 1) <= other * other) by (nonlinear_arith)
            requires
                0 <= root + 1 <= other,
        ;
    }
}

/// The sums of a longer prefix are no smaller, and the sum never exceeds the
/// sum of squares.
pub proof fn lemma_totals_grow(sample: Seq<u128>, k: int)
    requires
        0 <= k <= sample.len(),
    ensures
        0 <= total(sample.take(k)) <= total(sample),
        0 <= total_of_squares(sample.take(k)) <= total_of_squares(sample),
        total(sample) <= total_of_squares(sample),
    decreases sample.len(),
{
    if sample.len() == 0 {
        assert(sample.take(k) =~= sample);
    } else {
        let shorter = sample.drop_last();
        let x = sample.last() as int;
        assert(x <= x * x) by (nonlinear_arith)
            requires
                x >= 0,
        ;
        if k == sample.len() {
            assert(sample.take(k) =~= sample);
            lemma_totals_grow(shorter, k - 1);
        } else {
            lemma_totals_grow(shorter, k);
            assert(sample.take(k) =~= shorter.take(k));
        }
    }
}

/// The square of the sum is at most the size times the sum of squares, so
/// the spread is never negative.
pub proof fn lemma_spread_is_natural(sample: Seq<u128>)
    ensures
        total(sample) * total(sample) <= sample.len() * total_of_squares(sample),
        spread(sample) >= 0,
    decreases sample.len(),
{
    if sample.len() > 0 {
        let shorter = sample.drop_last();
        lemma_spread_is_natural(shorter);
        lemma_totals_grow(shorter, 0);
        let s = total(shorter);
        let q = total_of_squares(shorter);
        let n = shorter.len() as int;
        let x = sample.last() as int;
        let d = s - n * x;
        assert(d * d >= 0) by (nonlinear_arith);
        assert((s + x) * (s + x) <= (n + 1) * (q + x * x)) by (nonlinear_arith)
            requires
                s * s <= n * q,
                n >= 0,
                q >= 0,
                d * d >= 0,
                d == s - n * x,
                n == 0 ==> s == 0,
        ;
    } else {
        assert(total(sample) * total(sample) == 0);
    }
}

/// The square root of `x`, rounded down.
pub fn isqrt(x: u128) -> (root: u128)
    ensures
        is_floor_sqrt(root as int, x as int),
        root == floor_sqrt(x as int),
        root <= u64::MAX,
{
    let mut low: u128 = 0;
    let mut high: u128 = 0x1_0000_0000_0000_0000;
    while high - low > 1
        invariant
            low < high <= 0x1_0000_0000_0000_0000,
            low * low <= x < high * high,
        decreases high - low,
    {
        let middle: u128 = low + (high - low) / 2;
        assert(middle * middle <= 0xffff_ffff_ffff_ffff * 0xffff_ffff_ffff_ffff) by (
            nonlinear_arith)
            requires
                0 <= middle <= 0xffff_ffff_ffff_ffff,
        ;
        if middle * middle <= x {
            low = middle;
        } else {
            high = middle;
        }
    }
    proof {
        lemma_floor_sqrt_unique(low as int, x as int);
    }
    low
}

/// Point and interval estimates from a sample of observations.
///
/// The observations are fixed-point numbers; mean and standard deviation are
/// in their unit, rounded down.
#[derive(Clone, Copy, Debug, PartialEq, Eq)]
pub struct Stats {
    /// The sample mean.
    pub mean: u128,
    /// The sample standard deviation with Bessel's correction.
    pub std_dev: u128,
    /// The two-sided critical t-value for `size - 1` degrees of freedom.
    pub t_stat: u64,
    /// The number of observations.
    pub size: usize,
}

impl Stats {
    /// The estimates that `sample` gives at the significance level of
    /// `config`.
    pub open spec fn describes(self, sample: Seq<u128>, config: StatsConfig) -> bool {
        &&& self.size == sample.len()
        &&& self.mean == mean_of(sample)
        &&& self.std_dev == deviation_of(sample)
        &&& self.t_stat == config.critical(sample.len() - 1)
    }

    /// Estimates mean and standard deviation of `sample` and looks up the
    /// critical value for its size. A sample of fewer than two observations
    /// is refused, and so is one whose squares cannot be summed in 128 bits.
    pub fn new(sample: &Vec<u128>, config: &StatsConfig) -> (outcome: Result<Stats, StatsError>)
        requires
            config.well_formed(),
        ensures
            match outcome {
                Ok(stats) => {
                    &&& sample@.len() >= 2
                    &&& sample@.len() * total_of_squares(sample@) <= u128::MAX
                    &&& stats.describes(sample@, *config)
                    &&& stats.std_dev <= u64::MAX
                },
                Err(StatsError::InsufficientSample) => sample@.len() < 2,
                Err(StatsError::Overflow) => {
                    &&& sample@.len() >= 2
                    &&& sample@.len() * total_of_squares(sample@) > u128::MAX
                },
            },
    {
        let n = sample.len();
        if n < 2 {
            return Err(StatsError::InsufficientSample);
        }
        let mut sum: u128 = 0;
        let mut squares: u128 = 0;
        let mut i: usize = 0;
        while i < n
            invariant
                n == sample@.len(),
                n >= 2,
                i <= n,
                sum == total(sample@.take(i as int)),
                squares == total_of_squares(sample@.take(i as int)),
                sum <= squares,
            decreases n - i,
        {
            let x = sample[i];
            proof {
                assert(sample@.take(i + 1).drop_last() =~= sample@.take(i as int));
                lemma_totals_grow(sample@, i + 1);
                assert(x <= x * x) by (nonlinear_arith)
                    requires
                        x >= 0,
                ;
                assert(sample@.len() * total_of_squares(sample@) >= total_of_squares(sample@))
                    by (nonlinear_arith)
                    requires
                        sample@.len() >= 1,
                        total_of_squares(sample@) >= 0,
                ;
            }
            let square = match x.checked_mul(x) {
                Some(square) => square,
                None => {
                    return Err(StatsError::Overflow);
                },
            };
            squares = match squares.checked_add(square) {
                Some(more) => more,
                None => {
                    return Err(StatsError::Overflow);
                },
            };
            sum = sum + x;
            i = i + 1;
        }
        proof {
            assert(sample@.take(n as int) =~= sample@);
            lemma_spread_is_natural(sample@);
        }
        let scaled = match (n as u128).checked_mul(squares) {
            Some(scaled) => scaled,
            None => {
                return Err(StatsError::Overflow);
            },
        };
        let spread_value: u128 = scaled - sum * sum;
        assert(n * (n - 1) <= 0xffff_ffff_ffff_ffff * 0xffff_ffff_ffff_ffff) by (nonlinear_arith)
            requires
                2 <= n <= 0xffff_ffff_ffff_ffff,
        ;
        assert(n * (n - 1) >= 2) by (nonlinear_arith)
            requires
                2 <= n,
        ;
        let divisor: u128 = (n as u128) * ((n - 1) as u128);
        let variance: u128 = spread_value / divisor;
        let std_dev = isqrt(variance);
        let mean: u128 = sum / (n as u128);
        let t_stat = config.critical_value(n - 1);
        Ok(Stats { mean, std_dev, t_stat, size: n })
    }

    /// The margin `multiplier * std_dev / sqrt(size)` around the mean, where
    /// `multiplier` is a fixed-point number. `None` when there is no
    /// observation or the product leaves the 128-bit range.
    pub fn margin(&self, multiplier: u64) -> (width: Option<u128>)
        ensures
            width is Some <==> self.size > 0 && multiplier * self.std_dev <= u128::MAX,
            width is Some ==> width.unwrap() == margin_of(
                multiplier as int,
                self.std_dev as int,
                self.size as int,
            ),
    {
        if self.size == 0 {
            return None;
        }
        assert(self.size * SCALE * SCALE <= 0xffff_ffff_ffff_ffff * 1_000_000 * 1_000_000
            && self.size * SCALE * SCALE >= 1) by (nonlinear_arith)
            requires
                1 <= self.size <= 0xffff_ffff_ffff_ffff,
                SCALE == 1_000_000,
        ;
        let root = isqrt((self.size as u128) * SCALE * SCALE);
        assert(root >= 1) by {
            if root == 0 {
                assert((root + 1) * (root + 1) == 1);
            }
        }
        match (multiplier as u128).checked_mul(self.std_dev) {
            Some(product) => Some(product / root),
            None => None,
        }
    }

    /// The half-width `t * std_dev / sqrt(size)` of the confidence interval
    /// for the mean at the configured significance level.
    pub fn half_width(&self) -> (width: Option<u128>)
        ensures
            width is Some <==> self.size > 0 && self.t_stat * self.std_dev <= u128::MAX,
            width is Some ==> width.unwrap() == margin_of(
                self.t_stat as int,
                self.std_dev as int,
                self.size as int,
            ),
    {
        self.margin(self.t_stat)
    }
}

} // verus!
