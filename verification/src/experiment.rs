use crate::config::SimulationConfig;
use crate::history::{series_quotient, series_sum, Log};
use crate::model::{State, Turn};
use crate::results::{measure_sum, quotient_of, sum_of, zero_measures, Results, SCALE};
use crate::simulation::{recorded, Simulation};
use rayon::iter::{IntoParallelRefIterator, ParallelIterator};
use vstd::prelude::*;

verus! {

/// How many replications an experiment runs, and in which way.
#[derive(Clone, Copy, Debug, PartialEq, Eq, Structural)]
pub struct ExperimentConfig {
    /// The number of replications.
    pub total: u32,
    /// Whether the replications are successive segments of one simulation
    /// rather than independent simulations.
    pub continous: bool,
}

/// The measures and the time series of one run, or the mean of those of
/// several runs.
#[derive(Clone, Debug, PartialEq, Eq)]
pub struct Outcome {
    pub results: Results,
    pub log: Log,
}

impl Outcome {
    /// The outcome is what a run of `config` reports that started in state
    /// `from` with fresh metrics and went as `turns` says.
    pub open spec fn reports_course(
        self,
        config: SimulationConfig,
        from: State,
        turns: Seq<Turn>,
    ) -> bool {
        let after = from.course(turns);
        &&& from.idle()
        &&& from.config == config
        &&& from.reset() == from
        &&& recorded(from, turns, after, self.log@)
        &&& self.results@ == after.outcome()
        &&& self.log@.len() == if config.use_logs {
            config.max_time as int
        } else {
            0
        }
        &&& after.idle()
        &&& after.busy_tables.count == config.max_time
        &&& after.free_workers.count == config.max_time
        &&& 0 <= after.immediately_left <= config.max_time
        &&& config.tables == 0 && config.client_ratio.is_certain() ==> after.immediately_left
            == config.max_time
    }

    /// The outcome is what some run of `config` reports that started in state
    /// `from` with fresh metrics.
    pub open spec fn reports_from(self, config: SimulationConfig, from: State) -> bool {
        exists|turns: Seq<Turn>| self.reports_course(config, from, turns)
    }

    /// The outcome is what some run of a new simulation of `config` reports.
    pub open spec fn reports_fresh(self, config: SimulationConfig) -> bool {
        self.reports_from(config, State::initial(config))
    }

    /// The outcome is what some run of `config` reports that started with
    /// fresh metrics.
    pub open spec fn reports(self, config: SimulationConfig) -> bool {
        exists|from: State| self.reports_from(config, from)
    }
}

/// The state in which segment `k` of a continuous experiment starts, where
/// the segments went as `courses` says: the first starts in `from`, every
/// other where the one before it ended, with the metrics reset.
pub open spec fn start_of(from: State, courses: Seq<Seq<Turn>>, k: int) -> State
    decreases k,
{
    if k <= 0 {
        from
    } else {
        start_of(from, courses, k - 1).course(courses[k - 1]).reset()
    }
}

/// `runs` are the outcomes of successive segments of one new simulation of
/// `config`, which went as `courses` says.
pub open spec fn is_chain(config: SimulationConfig, runs: Seq<Outcome>, courses: Seq<Seq<Turn>>)
    -> bool {
    &&& courses.len() == runs.len()
    &&& forall|k: int|
        0 <= k < runs.len() ==> (#[trigger] runs[k]).reports_course(
            config,
            start_of(State::initial(config), courses, k),
            courses[k],
        )
}

/// `runs` are the outcomes of successive segments of one new simulation of
/// `config`.
pub open spec fn continues(config: SimulationConfig, runs: Seq<Outcome>) -> bool {
    exists|courses: Seq<Seq<Turn>>| is_chain(config, runs, courses)
}

/// The start of a segment depends only on the segments before it.
pub proof fn lemma_start_of_prefix(
    from: State,
    courses: Seq<Seq<Turn>>,
    course: Seq<Turn>,
    k: int,
)
    requires
        0 <= k <= courses.len(),
    ensures
        start_of(from, courses.push(course), k) == start_of(from, courses, k),
    decreases k,
{
    if k > 0 {
        lemma_start_of_prefix(from, courses, course, k - 1);
        assert(courses.push(course)[k - 1] == courses[k - 1]);
    }
}

/// The sum of the measures of the first `k` outcomes, accumulated from zero in
/// their order.
pub open spec fn results_total(runs: Seq<Outcome>, k: int) -> Seq<Option<int>>
    decreases k,
{
    if k <= 0 {
        zero_measures()
    } else {
        sum_of(results_total(runs, k - 1), runs[k - 1].results@)
    }
}

/// The sum of the time series of the first `k` outcomes, accumulated from the
/// empty series in their order.
pub open spec fn logs_total(runs: Seq<Outcome>, k: int) -> Seq<Seq<Option<int>>>
    decreases k,
{
    if k <= 0 {
        Seq::empty()
    } else {
        series_sum(logs_total(runs, k - 1), runs[k - 1].log@)
    }
}

/// The mean of the measures of the outcomes.
pub open spec fn mean_results(runs: Seq<Outcome>) -> Seq<Option<int>> {
    quotient_of(results_total(runs, runs.len() as int), runs.len() as int)
}

/// The mean of the time series of the outcomes.
pub open spec fn mean_log(runs: Seq<Outcome>) -> Seq<Seq<Option<int>>> {
    series_quotient(logs_total(runs, runs.len() as int), runs.len() as int)
}

/// `summary` is the mean of `runs`, which are the outcomes of as many runs of
/// `simulation` as `experiment` asks for.
pub open spec fn is_summary_of(
    simulation: SimulationConfig,
    experiment: ExperimentConfig,
    summary: Outcome,
    runs: Seq<Outcome>,
) -> bool {
    &&& runs.len() == experiment.total
    &&& forall|i: int| 0 <= i < runs.len() ==> (#[trigger] runs[i]).reports(simulation)
    &&& !experiment.continous ==> forall|i: int|
        0 <= i < runs.len() ==> (#[trigger] runs[i]).reports_fresh(simulation)
    &&& experiment.continous ==> continues(simulation, runs)
    &&& summary.results@ == mean_results(runs)
    &&& summary.log@ == mean_log(runs)
}

/// `summary` is the mean of the outcomes of as many runs of `simulation` as
/// `experiment` asks for.
pub open spec fn summarizes(
    simulation: SimulationConfig,
    experiment: ExperimentConfig,
    summary: Outcome,
) -> bool {
    exists|runs: Seq<Outcome>| is_summary_of(simulation, experiment, summary, runs)
}

/// The seed of replication `index` of an experiment seeded with `seed`.
pub open spec fn seed_of(seed: u64, index: int) -> u64 {
    ((seed + index) % 0x1_0000_0000_0000_0000) as u64
}

/// One independent replication: a new simulation of `config`, seeded with
/// `seed`, run once.
pub fn replicate(config: &SimulationConfig, seed: u64) -> (run: Outcome)
    requires
        config.well_formed(),
        config.fits_clock(0, 1),
    ensures
        run.reports_fresh(*config),
        run.reports(*config),
{
    let mut simulation = Simulation::with_seed(*config, seed);
    let ghost from = simulation@;
    assert(from.reset() == from);
    let (results, log) = simulation.run();
    let run = Outcome { results, log };
    proof {
        let turns = choose|turns: Seq<Turn>| #[trigger] recorded(from, turns, simulation@, log@);
        assert(run.reports_course(*config, from, turns));
        assert(run.reports_from(*config, from));
    }
    run
}

/// The seeds of `total` replications: `seed`, `seed + 1` and so on, wrapping
/// around at the end of the 64-bit range.
pub fn seeds_from(seed: u64, total: u32) -> (seeds: Vec<u64>)
    ensures
        seeds@.len() == total,
        forall|i: int| 0 <= i < total ==> seeds@[i] == seed_of(seed, i),
{
    let mut seeds: Vec<u64> = Vec::new();
    let mut i: u32 = 0;
    while i < total
        invariant
            i <= total,
            seeds@.len() == i,
            forall|j: int| 0 <= j < i ==> seeds@[j] == seed_of(seed, j),
        decreases total - i,
    {
        seeds.push(seed.wrapping_add(i as u64));
        i = i + 1;
    }
    seeds
}

/// rayon's `par_iter().map(..).collect()` over the seeds: one replication of
/// `config` per seed, possibly on several threads. The claim is that the
/// result holds, in the order of the seeds, what the calls of `replicate`
/// returned, so that each entry is the outcome of a run.
#[verifier::external_body]
pub(crate) fn replicate_each(config: &SimulationConfig, seeds: &Vec<u64>) -> (runs: Vec<Outcome>)
    requires
        config.well_formed(),
        config.fits_clock(0, 1),
    ensures
        runs@.len() == seeds@.len(),
        forall|i: int| 0 <= i < runs@.len() ==> (#[trigger] runs@[i]).reports(*config),
        forall|i: int| 0 <= i < runs@.len() ==> (#[trigger] runs@[i]).reports_fresh(*config),
{
    seeds.par_iter().map(|seed| replicate(config, *seed)).collect()
}

/// One independent replication per seed, one after the other.
pub fn replicate_in_turn(config: &SimulationConfig, seeds: &Vec<u64>) -> (runs: Vec<Outcome>)
    requires
        config.well_formed(),
        config.fits_clock(0, 1),
    ensures
        runs@.len() == seeds@.len(),
        forall|i: int| 0 <= i < runs@.len() ==> (#[trigger] runs@[i]).reports(*config),
        forall|i: int| 0 <= i < runs@.len() ==> (#[trigger] runs@[i]).reports_fresh(*config),
{
    let mut runs: Vec<Outcome> = Vec::new();
    let mut i: usize = 0;
    while i < seeds.len()
        invariant
            config.well_formed(),
            config.fits_clock(0, 1),
            i <= seeds@.len(),
            runs@.len() == i,
            forall|j: int| 0 <= j < runs@.len() ==> (#[trigger] runs@[j]).reports(*config),
            forall|j: int| 0 <= j < runs@.len() ==> (#[trigger] runs@[j]).reports_fresh(*config),
        decreases seeds@.len() - i,
    {
        let run = replicate(config, seeds[i]);
        runs.push(run);
        i = i + 1;
    }
    runs
}

/// Successive segments of one simulation of `config`, seeded with `seed`:
/// `total` runs, each continuing where the one before ended, with the metrics
/// reset between them.
pub fn continue_each(config: &SimulationConfig, total: u32, seed: u64) -> (runs: Vec<Outcome>)
    requires
        config.well_formed(),
        config.fits_clock(0, total as int),
    ensures
        runs@.len() == total,
        forall|i: int| 0 <= i < runs@.len() ==> (#[trigger] runs@[i]).reports(*config),
        continues(*config, runs@),
{
    let mut simulation = Simulation::with_seed(*config, seed);
    let mut runs: Vec<Outcome> = Vec::new();
    let mut k: u32 = 0;
    let ghost mut courses: Seq<Seq<Turn>> = Seq::empty();
    while k < total
        invariant
            is_chain(*config, runs@, courses),
            simulation@ == start_of(State::initial(*config), courses, k as int),
            k <= total,
            config.well_formed(),
            config.fits_clock(0, total as int),
            simulation@.idle(),
            simulation@.config == *config,
            simulation@.world_time == k * config.max_time,
            simulation@.reset() == simulation@,
            runs@.len() == k,
            forall|i: int| 0 <= i < runs@.len() ==> (#[trigger] runs@[i]).reports(*config),
        decreases total - k,
    {
        proof {
            assert((k + 1) * config.max_time <= total * config.max_time) by (nonlinear_arith)
                requires
                    k + 1 <= total,
                    config.max_time >= 0,
            ;
            assert((k + 1) * config.max_time == k * config.max_time + config.max_time) by (
                nonlinear_arith);
            assert(1 * config.max_time == config.max_time as int);
        }
        let ghost from = simulation@;
        let (results, log) = simulation.run();
        let run = Outcome { results, log };
        let ghost turns = choose|turns: Seq<Turn>| #[trigger]
            recorded(from, turns, simulation@, log@);
        let ghost earlier_runs = runs@;
        proof {
            assert(run.reports_course(*config, from, turns));
            assert(run.reports_from(*config, from));
        }
        runs.push(run);
        simulation.reset_metrics();
        proof {
            let longer = courses.push(turns);
            assert forall|j: int| 0 <= j < runs@.len() implies (#[trigger] runs@[j]).reports_course(
                *config,
                start_of(State::initial(*config), longer, j),
                longer[j],
            ) by {
                lemma_start_of_prefix(State::initial(*config), courses, turns, j);
                if j < k {
                    assert(runs@[j] == earlier_runs[j]);
                    assert(longer[j] == courses[j]);
                }
            }
            lemma_start_of_prefix(State::initial(*config), courses, turns, k as int);
            courses = longer;
        }
        k = k + 1;
    }
    runs
}

/// The mean of the outcomes: their measures and their time series are added
/// up in order and divided by their number.
pub fn aggregate(runs: &Vec<Outcome>) -> (summary: Outcome)
    ensures
        summary.results@ == mean_results(runs@),
        summary.log@ == mean_log(runs@),
{
    let mut total_results = Results::zeros();
    let mut total_logs = Log::empty();
    let mut i: usize = 0;
    while i < runs.len()
        invariant
            i <= runs@.len(),
            total_results@ == results_total(runs@, i as int),
            total_logs@ == logs_total(runs@, i as int),
        decreases runs@.len() - i,
    {
        total_results.add_mut(runs[i].results);
        total_logs.add_ref(&runs[i].log);
        i = i + 1;
    }
    total_results.norm_mut(runs.len());
    total_logs.norm_mut(runs.len());
    Outcome { results: total_results, log: total_logs }
}

/// Where every outcome has the same defined value of one measure, and the
/// multiples of that value stay in the 128-bit range, the total of the measure
/// is the multiple and its mean is the value.
pub proof fn lemma_mean_of_equal_measure(runs: Seq<Outcome>, index: int, value: int, k: int)
    requires
        0 <= k <= runs.len(),
        0 <= index < 8,
        0 <= value,
        k * value <= u128::MAX,
        forall|i: int| 0 <= i < runs.len() ==> (#[trigger] runs[i]).results@[index] == Some(value),
    ensures
        results_total(runs, k).len() == 8,
        results_total(runs, k)[index] == Some(k * value),
        k == runs.len() && k > 0 ==> mean_results(runs)[index] == Some(value),
    decreases k,
{
    if k > 0 {
        assert((k - 1) * value <= k * value && k * value == (k - 1) * value + value) by (
            nonlinear_arith)
            requires
                value >= 0,
        ;
        lemma_mean_of_equal_measure(runs, index, value, k - 1);
        assert(runs[k - 1].results@[index] == Some(value));
        assert(results_total(runs, k)[index] == measure_sum(
            results_total(runs, k - 1)[index],
            runs[k - 1].results@[index],
        ));
        assert((k * value) / k == value) by (nonlinear_arith)
            requires
                k > 0,
        ;
    } else {
        assert(k * value == 0) by (nonlinear_arith)
            requires
                k == 0,
        ;
    }
}

/// Where every outcome has a time series of the same length, so has their
/// total, unless there is no outcome at all.
pub proof fn lemma_length_of_logs_total(runs: Seq<Outcome>, length: nat, k: int)
    requires
        0 <= k <= runs.len(),
        forall|i: int| 0 <= i < runs.len() ==> (#[trigger] runs[i]).log@.len() == length,
    ensures
        logs_total(runs, k).len() == if k > 0 {
            length
        } else {
            0
        },
    decreases k,
{
    if k > 0 {
        lemma_length_of_logs_total(runs, length, k - 1);
        assert(runs[k - 1].log@.len() == length);
    }
}

/// What every report of a run tells: the length of its time series, and the
/// number of clients turned away where there is no table and a client
/// arrives in every tick.
pub proof fn lemma_report_facts(run: Outcome, config: SimulationConfig)
    requires
        run.reports(config),
    ensures
        run.log@.len() == if config.use_logs {
            config.max_time as int
        } else {
            0
        },
        config.tables == 0 && config.client_ratio.is_certain() ==> run.results@[7] == Some(
            config.max_time * SCALE,
        ),
{
    let from = choose|from: State| run.reports_from(config, from);
    let turns = choose|turns: Seq<Turn>| run.reports_course(config, from, turns);
    assert(run.reports_course(config, from, turns));
}

/// Runs the replications that `experiment` asks for and returns the mean of
/// their outcomes.
///
/// Independent replications are simulations of their own, seeded one after
/// the other from `seed`, and may run on several threads. Continuous
/// replications are successive segments of one simulation seeded with `seed`.
pub fn run(simulation: &SimulationConfig, experiment: &ExperimentConfig, seed: u64) -> (summary:
    Outcome)
    requires
        simulation.well_formed(),
        simulation.fits_clock(
            0,
            if experiment.continous {
                experiment.total as int
            } else {
                1
            },
        ),
    ensures
        summarizes(*simulation, *experiment, summary),
        summary.log@.len() == if simulation.use_logs && experiment.total > 0 {
            simulation.max_time as int
        } else {
            0
        },
        experiment.total > 0 && simulation.tables == 0 && simulation.client_ratio.is_certain()
            ==> summary.results.immediately_left_clients_count == Some(
            (simulation.max_time * SCALE) as u128,
        ),
        experiment.total == 0 ==> summary.results@ == Seq::new(8, |i: int| None::<int>),
{
    let runs = if experiment.continous {
        continue_each(simulation, experiment.total, seed)
    } else {
        let seeds = seeds_from(seed, experiment.total);
        replicate_each(simulation, &seeds)
    };
    let summary = aggregate(&runs);
    proof {
        assert(is_summary_of(*simulation, *experiment, summary, runs@));
        let length: nat = if simulation.use_logs {
            simulation.max_time as nat
        } else {
            0
        };
        assert forall|i: int| 0 <= i < runs@.len() implies (#[trigger] runs@[i]).log@.len()
            == length by {
            lemma_report_facts(runs@[i], *simulation);
        }
        lemma_length_of_logs_total(runs@, length, runs@.len() as int);
        if experiment.total > 0 && simulation.tables == 0 && simulation.client_ratio.is_certain() {
            let value = simulation.max_time * SCALE;
            assert forall|i: int| 0 <= i < runs@.len() implies (#[trigger] runs@[i]).results@[7]
                == Some(value) by {
                lemma_report_facts(runs@[i], *simulation);
            }
            assert(runs@.len() * value <= 0xffff_ffff * (0xffff_ffff * 1_000_000)) by (
                nonlinear_arith)
                requires
                    0 <= runs@.len() <= 0xffff_ffff,
                    0 <= value <= 0xffff_ffff * 1_000_000,
            ;
            lemma_mean_of_equal_measure(runs@, 7, value, runs@.len() as int);
            assert(summary.results@[7] == Some(value));
        }
        if experiment.total == 0 {
            assert(summary.results@ =~= Seq::new(8, |i: int| None::<int>));
        }
    }
    summary
}

} // verus!
