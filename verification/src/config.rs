use crate::experiment::ExperimentConfig;
use crate::scenario::ScenarioConfig;
use crate::statistic::StatsConfig;
use vstd::prelude::*;

verus! {

/// A half-open range of whole numbers, from `start` up to but not including
/// `end`.
#[derive(Clone, Copy, Debug, PartialEq, Eq, Structural)]
pub struct Span {
    pub start: u32,
    pub end: u32,
}

impl Span {
    /// The range holds at least one value.
    pub open spec fn is_nonempty(self) -> bool {
        self.start < self.end
    }

    /// `value` lies in the range.
    pub open spec fn contains(self, value: u32) -> bool {
        self.start <= value < self.end
    }

    pub fn new(start: u32, end: u32) -> (range: Span)
        ensures
            range.start == start,
            range.end == end,
    {
        Span { start, end }
    }

    /// Tells whether the range holds at least one value.
    pub fn nonempty(&self) -> (answer: bool)
        ensures
            answer == self.is_nonempty(),
    {
        self.start < self.end
    }
}

/// A probability, held as the ratio `numerator / denominator`.
#[derive(Clone, Copy, Debug, PartialEq, Eq, Structural)]
pub struct Chance {
    pub numerator: u32,
    pub denominator: u32,
}

impl Chance {
    /// The ratio is a probability: it lies between zero and one.
    pub open spec fn well_formed(self) -> bool {
        0 < self.denominator && self.numerator <= self.denominator
    }

    /// The event happens every time.
    pub open spec fn is_certain(self) -> bool {
        self.numerator == self.denominator
    }

    /// The event never happens.
    pub open spec fn is_impossible(self) -> bool {
        self.numerator == 0
    }

    pub fn new(numerator: u32, denominator: u32) -> (chance: Chance)
        ensures
            chance.numerator == numerator,
            chance.denominator == denominator,
    {
        Chance { numerator, denominator }
    }

    /// The probability one.
    pub fn always() -> (chance: Chance)
        ensures
            chance == (Chance { numerator: 1, denominator: 1 }),
            chance.well_formed(),
            chance.is_certain(),
    {
        Chance { numerator: 1, denominator: 1 }
    }

    /// The probability zero.
    pub fn never() -> (chance: Chance)
        ensures
            chance == (Chance { numerator: 0, denominator: 1 }),
            chance.well_formed(),
            chance.is_impossible(),
    {
        Chance { numerator: 0, denominator: 1 }
    }

    /// Tells whether the ratio is a probability.
    pub fn is_valid(&self) -> (answer: bool)
        ensures
            answer == self.well_formed(),
    {
        0 < self.denominator && self.numerator <= self.denominator
    }
}

/// The patience of a client who waits to place a first order, unless
/// configured otherwise.
pub open spec fn default_patience() -> Span {
    Span { start: 5, end: 10 }
}

/// The patience of a client who waits to order again, unless configured
/// otherwise.
pub open spec fn default_repeat_patience() -> Span {
    Span { start: 1, end: 3 }
}

/// The probability that a client who has finished eating orders again, unless
/// configured otherwise.
pub open spec fn default_repeat_ratio() -> Chance {
    Chance { numerator: 1, denominator: 5 }
}

/// The parameters of one simulation run.
#[derive(Clone, Copy, Debug, PartialEq, Eq, Structural)]
pub struct SimulationConfig {
    /// The number of ticks that one run advances the clock.
    pub max_time: u32,
    pub tables: u32,
    pub workers: u32,
    /// The probability that a client arrives in a tick.
    pub client_ratio: Chance,
    /// How long an order takes to prepare.
    pub production_time: Span,
    /// How long a worker is unavailable after taking an order.
    pub dancing_time: Span,
    /// How long a client eats.
    pub consumption_time: Span,
    /// Whether a run records a snapshot after every tick.
    pub use_logs: bool,
    /// How long a newly seated client waits for a worker before leaving.
    pub patience_time: Span,
    /// How long a client who orders again waits for a worker before leaving.
    pub repeat_patience_time: Span,
    /// The probability that a client who has finished eating orders again.
    pub repeat_ratio: Chance,
}

/// The larger of two ticks.
pub open spec fn later(a: int, b: int) -> int {
    if a >= b {
        a
    } else {
        b
    }
}

impl SimulationConfig {
    /// Every range can be drawn from and every ratio is a probability.
    pub open spec fn well_formed(self) -> bool {
        &&& self.client_ratio.well_formed()
        &&& self.repeat_ratio.well_formed()
        &&& self.production_time.is_nonempty()
        &&& self.dancing_time.is_nonempty()
        &&& self.consumption_time.is_nonempty()
        &&& self.patience_time.is_nonempty()
        &&& self.repeat_patience_time.is_nonempty()
    }

    /// An upper bound on every duration that can be drawn: the largest end of
    /// the five ranges.
    pub open spec fn longest_delay(self) -> int {
        later(
            later(
                later(self.production_time.end as int, self.dancing_time.end as int),
                later(self.consumption_time.end as int, self.patience_time.end as int),
            ),
            self.repeat_patience_time.end as int,
        )
    }

    /// A run of `runs` successive horizons that starts at tick `start` stays on
    /// the 32-bit clock, together with every tick an event can be scheduled
    /// for.
    pub open spec fn fits_clock(self, start: int, runs: int) -> bool {
        start + runs * self.max_time + self.longest_delay() <= u32::MAX
    }

    /// A configuration with the given parameters and the default patience and
    /// repeat-order settings.
    pub fn new(
        max_time: u32,
        tables: u32,
        workers: u32,
        client_ratio: Chance,
        production_time: Span,
        dancing_time: Span,
        consumption_time: Span,
        use_logs: bool,
    ) -> (config: SimulationConfig)
        ensures
            config == (SimulationConfig {
                max_time,
                tables,
                workers,
                client_ratio,
                production_time,
                dancing_time,
                consumption_time,
                use_logs,
                patience_time: default_patience(),
                repeat_patience_time: default_repeat_patience(),
                repeat_ratio: default_repeat_ratio(),
            }),
    {
        SimulationConfig {
            max_time,
            tables,
            workers,
            client_ratio,
            production_time,
            dancing_time,
            consumption_time,
            use_logs,
            patience_time: Span { start: 5, end: 10 },
            repeat_patience_time: Span { start: 1, end: 3 },
            repeat_ratio: Chance { numerator: 1, denominator: 5 },
        }
    }

    /// Tells whether the configuration is well formed.
    pub fn is_valid(&self) -> (answer: bool)
        ensures
            answer == self.well_formed(),
    {
        self.client_ratio.is_valid() && self.repeat_ratio.is_valid()
            && self.production_time.nonempty() && self.dancing_time.nonempty()
            && self.consumption_time.nonempty() && self.patience_time.nonempty()
            && self.repeat_patience_time.nonempty()
    }

    /// The largest end of the five ranges.
    pub fn max_delay(&self) -> (delay: u32)
        ensures
            delay == self.longest_delay(),
    {
        let mut delay: u32 = self.production_time.end;
        if self.dancing_time.end > delay {
            delay = self.dancing_time.end;
        }
        let mut other: u32 = self.consumption_time.end;
        if self.patience_time.end > other {
            other = self.patience_time.end;
        }
        if other > delay {
            delay = other;
        }
        if self.repeat_patience_time.end > delay {
            delay = self.repeat_patience_time.end;
        }
        delay
    }

    /// Tells whether `runs` successive horizons from tick `start` stay on the
    /// clock.
    pub fn has_room(&self, start: u32, runs: u32) -> (answer: bool)
        ensures
            answer == self.fits_clock(start as int, runs as int),
    {
        let delay: u64 = self.max_delay() as u64;
        assert(runs * self.max_time <= 0xffff_ffff * 0xffff_ffff) by (nonlinear_arith)
            requires
                runs <= 0xffff_ffff,
                self.max_time <= 0xffff_ffff,
        ;
        let span: u64 = (runs as u64) * (self.max_time as u64);
        start as u64 + span + delay <= u32::MAX as u64
    }
}

/// The parameters of an estimation study: the simulation, the experiment
/// that replicates it, the significance level of the estimates and, for a
/// sweep, its parameters.
#[derive(Clone, Debug, PartialEq, Eq)]
pub struct EstimationConfig {
    pub simulation: SimulationConfig,
    pub experiment: ExperimentConfig,
    pub stats: StatsConfig,
    pub scenario: Option<ScenarioConfig>,
}

} // verus!
