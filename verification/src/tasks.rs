use crate::chart::{positions, Chart, ChartKind, ChartView};
use crate::config::{EstimationConfig, SimulationConfig, Span};
use crate::experiment::{
    aggregate, mean_log, mean_results, replicate_each, replicate_in_turn, seeds_from, summarizes,
    ExperimentConfig, Outcome,
};
use crate::results::{Measure, Results, SCALE};
use crate::scenario::{
    combinations, feasible, is_entry_of, lemma_level_count_bounded, ParameterKind, ScenarioConfig,
    ScenarioEntry, ScenarioParameter,
};
use crate::statistic::{
    deviation_of, margin_of, total_of_squares, Stats, StatsConfig, StatsError,
};
use vstd::prelude::*;

verus! {

/// `runs` are the outcomes of `size` independent runs of `config`, each on a
/// new simulation that starts at tick zero.
pub open spec fn is_sample(config: SimulationConfig, size: int, runs: Seq<Outcome>) -> bool {
    &&& runs.len() == size
    &&& forall|i: int| 0 <= i < runs.len() ==> (#[trigger] runs[i]).reports_fresh(config)
}

/// One measure of every outcome, in the order of the outcomes.
pub open spec fn column(runs: Seq<Outcome>, which: Measure) -> Seq<Option<u128>> {
    Seq::new(runs.len(), |i: int| runs[i].results.pick(which))
}

/// The charts as mathematical values.
pub open spec fn views(charts: Seq<Chart>) -> Seq<ChartView> {
    Seq::new(charts.len(), |i: int| charts[i]@)
}

/// The histogram of a sample.
pub open spec fn histogram_of(title: Seq<char>, file_name: Seq<char>, y: Seq<Option<u128>>)
    -> ChartView {
    ChartView { kind: ChartKind::Histogram, title, file_name, x_data: Seq::empty(), y_data: y }
}

/// The line through values at the positions `0, 1, ..`.
pub open spec fn line_of(title: Seq<char>, file_name: Seq<char>, y: Seq<Option<u128>>)
    -> ChartView {
    ChartView { kind: ChartKind::Line, title, file_name, x_data: positions(y.len()), y_data: y }
}

/// The bar chart of a few values.
pub open spec fn bars_of(title: Seq<char>, file_name: Seq<char>, y: Seq<Option<u128>>)
    -> ChartView {
    ChartView { kind: ChartKind::Bar, title, file_name, x_data: Seq::empty(), y_data: y }
}

/// One measure of every outcome, in the order of the outcomes.
pub fn column_of(runs: &Vec<Outcome>, which: Measure) -> (values: Vec<Option<u128>>)
    ensures
        values@ == column(runs@, which),
{
    let mut values: Vec<Option<u128>> = Vec::new();
    let mut i: usize = 0;
    while i < runs.len()
        invariant
            i <= runs@.len(),
            values@.len() == i,
            forall|j: int| 0 <= j < i ==> values@[j] == runs@[j].results.pick(which),
        decreases runs@.len() - i,
    {
        values.push(runs[i].results.measure(which));
        i = i + 1;
    }
    assert(values@ =~= column(runs@, which));
    values
}

/// The histograms of the normality study: free workers, served clients and
/// waiting time over the replications.
pub open spec fn normality_charts(runs: Seq<Outcome>) -> Seq<ChartView> {
    seq![
        histogram_of(
            "Среднее кол-во свободных работников"@,
            "stats/3_1/average_free_workers"@,
            column(runs, Measure::FreeWorkers),
        ),
        histogram_of(
            "Кол-во обслуженных клиентов"@,
            "stats/3_1/dispatched_clients"@,
            column(runs, Measure::DispatchedClients),
        ),
        histogram_of(
            "Время ожидания работника"@,
            "stats/3_1/waiting_time"@,
            column(runs, Measure::WorkerWaitingTime),
        ),
    ]
}

/// The histograms of the normality study for the given outcomes.
pub fn normality(runs: &Vec<Outcome>) -> (charts: Vec<Chart>)
    ensures
        views(charts@) == normality_charts(runs@),
{
    let mut charts: Vec<Chart> = Vec::new();
    charts.push(
        Chart::histogram(
            "Среднее кол-во свободных работников",
            "stats/3_1/average_free_workers",
            column_of(runs, Measure::FreeWorkers),
        ),
    );
    charts.push(
        Chart::histogram(
            "Кол-во обслуженных клиентов",
            "stats/3_1/dispatched_clients",
            column_of(runs, Measure::DispatchedClients),
        ),
    );
    charts.push(
        Chart::histogram(
            "Время ожидания работника",
            "stats/3_1/waiting_time",
            column_of(runs, Measure::WorkerWaitingTime),
        ),
    );
    assert(views(charts@) =~= normality_charts(runs@));
    charts
}

/// The normality study: runs the configured number of independent
/// replications, possibly on several threads, and returns their mean together
/// with the histograms of three measures over the replications.
pub fn task_3_1(config: &EstimationConfig, seed: u64) -> (output: (Outcome, Vec<Chart>))
    requires
        config.simulation.well_formed(),
        config.simulation.fits_clock(0, 1),
    ensures
        exists|runs: Seq<Outcome>|
            {
                &&& #[trigger] is_sample(config.simulation, config.experiment.total as int, runs)
                &&& output.0.results@ == mean_results(runs)
                &&& output.0.log@ == mean_log(runs)
                &&& views(output.1@) == normality_charts(runs)
            },
{
    let seeds = seeds_from(seed, config.experiment.total);
    let runs = replicate_each(&config.simulation, &seeds);
    let summary = aggregate(&runs);
    let charts = normality(&runs);
    assert(is_sample(config.simulation, config.experiment.total as int, runs@));
    (summary, charts)
}

/// The line charts of the estimation study: free workers, served clients and
/// waiting time against the number of the run.
pub open spec fn estimate_charts(runs: Seq<Outcome>) -> Seq<ChartView> {
    seq![
        line_of(
            "Свободные работники от времени симуляции"@,
            "stats/3_2/free_workers"@,
            column(runs, Measure::FreeWorkers),
        ),
        line_of(
            "Кол-во обслуженных клиентов"@,
            "stats/3_2/dispatched_clients"@,
            column(runs, Measure::DispatchedClients),
        ),
        line_of(
            "Среднее время ожидания работника"@,
            "stats/3_2/waiting_time"@,
            column(runs, Measure::WorkerWaitingTime),
        ),
    ]
}

/// The line charts of the estimation study for the given outcomes.
pub fn estimates(runs: &Vec<Outcome>) -> (charts: Vec<Chart>)
    requires
        runs@.len() <= u32::MAX,
    ensures
        views(charts@) == estimate_charts(runs@),
{
    let mut charts: Vec<Chart> = Vec::new();
    charts.push(
        Chart::over_positions(
            "Свободные работники от времени симуляции",
            "stats/3_2/free_workers",
            column_of(runs, Measure::FreeWorkers),
        ),
    );
    charts.push(
        Chart::over_positions(
            "Кол-во обслуженных клиентов",
            "stats/3_2/dispatched_clients",
            column_of(runs, Measure::DispatchedClients),
        ),
    );
    charts.push(
        Chart::over_positions(
            "Среднее время ожидания работника",
            "stats/3_2/waiting_time",
            column_of(runs, Measure::WorkerWaitingTime),
        ),
    );
    assert(views(charts@) =~= estimate_charts(runs@));
    charts
}

/// The estimation study: ten independent replications, one after the other,
/// and the line charts of three measures against the number of the run.
pub fn task_3_2(config: &EstimationConfig, seed: u64) -> (charts: Vec<Chart>)
    requires
        config.simulation.well_formed(),
        config.simulation.fits_clock(0, 1),
    ensures
        exists|runs: Seq<Outcome>|
            {
                &&& #[trigger] is_sample(config.simulation, 10, runs)
                &&& views(charts@) == estimate_charts(runs)
            },
{
    let total: u32 = 10;
    let seeds = seeds_from(seed, total);
    let runs = replicate_in_turn(&config.simulation, &seeds);
    let charts = estimates(&runs);
    assert(is_sample(config.simulation, 10, runs@));
    charts
}

/// Every observation of the window is defined.
pub open spec fn all_defined(window: Seq<Option<u128>>) -> bool {
    forall|i: int| 0 <= i < window.len() ==> (#[trigger] window[i]) is Some
}

/// The observations of a window in which every observation is defined.
pub open spec fn values_of(window: Seq<Option<u128>>) -> Seq<u128> {
    Seq::new(window.len(), |i: int| window[i].unwrap())
}

/// The width of the band around the mean of a window of observations: twice
/// the standard deviation over the square root of the size of the window.
///
/// A window of fewer than two observations has no estimate, whatever it
/// holds. The band of a larger window with an undefined observation is
/// undefined, and a window whose squares cannot be summed in 128 bits has no
/// estimate either.
pub open spec fn band_of(window: Seq<Option<u128>>) -> Result<Option<u128>, StatsError> {
    if window.len() < 2 {
        Err(StatsError::InsufficientSample)
    } else if !all_defined(window) {
        Ok(None)
    } else if window.len() * total_of_squares(values_of(window)) > u128::MAX {
        Err(StatsError::Overflow)
    } else {
        Ok(
            Some(
                margin_of(
                    2 * SCALE,
                    deviation_of(values_of(window)),
                    window.len() as int,
                ) as u128,
            ),
        )
    }
}

/// The bands of the first `count` windows of a column, where the windows are
/// prefixes of the column and the first has `smallest` observations. The
/// first window without an estimate decides the error.
pub open spec fn bands_of(column: Seq<Option<u128>>, smallest: int, count: int) -> Result<
    Seq<Option<u128>>,
    StatsError,
>
    decreases count,
{
    if count <= 0 {
        Ok(Seq::empty())
    } else {
        match bands_of(column, smallest, count - 1) {
            Err(error) => Err(error),
            Ok(earlier) => match band_of(column.take(smallest + count - 1)) {
                Err(error) => Err(error),
                Ok(band) => Ok(earlier.push(band)),
            },
        }
    }
}

/// The band of a window of observations.
pub fn band(window: &Vec<Option<u128>>, stats: &StatsConfig) -> (outcome: Result<
    Option<u128>,
    StatsError,
>)
    requires
        stats.well_formed(),
    ensures
        outcome == band_of(window@),
{
    if window.len() < 2 {
        return Err(StatsError::InsufficientSample);
    }
    let mut values: Vec<u128> = Vec::new();
    let mut i: usize = 0;
    while i < window.len()
        invariant
            window@.len() >= 2,
            i <= window@.len(),
            values@.len() == i,
            forall|j: int| 0 <= j < i ==> (#[trigger] window@[j]) is Some,
            forall|j: int| 0 <= j < i ==> values@[j] == window@[j].unwrap(),
        decreases window@.len() - i,
    {
        match window[i] {
            Some(value) => {
                values.push(value);
            },
            None => {
                assert(!all_defined(window@));
                return Ok(None);
            },
        }
        i = i + 1;
    }
    assert(all_defined(window@));
    assert(values@ =~= values_of(window@));
    match Stats::new(&values, stats) {
        Err(error) => Err(error),
        Ok(estimate) => {
            assert(2 * SCALE * estimate.std_dev <= 2 * 1_000_000 * 0xffff_ffff_ffff_ffff) by (
                nonlinear_arith)
                requires
                    SCALE == 1_000_000,
                    0 <= estimate.std_dev <= 0xffff_ffff_ffff_ffff,
            ;
            let width = estimate.margin((2 * SCALE) as u64);
            Ok(Some(width.unwrap()))
        },
    }
}

/// The first `length` observations of a column.
pub fn prefix(column: &Vec<Option<u128>>, length: usize) -> (window: Vec<Option<u128>>)
    requires
        length <= column@.len(),
    ensures
        window@ == column@.take(length as int),
{
    let mut window: Vec<Option<u128>> = Vec::new();
    let mut i: usize = 0;
    while i < length
        invariant
            i <= length <= column@.len(),
            window@.len() == i,
            forall|j: int| 0 <= j < i ==> window@[j] == column@[j],
        decreases length - i,
    {
        window.push(column[i]);
        i = i + 1;
    }
    assert(window@ =~= column@.take(length as int));
    window
}

/// The bands of the first `count` windows of a column.
pub fn bands(column: &Vec<Option<u128>>, smallest: usize, count: usize, stats: &StatsConfig) -> (outcome:
    Result<Vec<Option<u128>>, StatsError>)
    requires
        stats.well_formed(),
        smallest + count <= column@.len() + 1,
    ensures
        match outcome {
            Ok(widths) => bands_of(column@, smallest as int, count as int) == Ok::<
                Seq<Option<u128>>,
                StatsError,
            >(widths@),
            Err(error) => bands_of(column@, smallest as int, count as int) == Err::<
                Seq<Option<u128>>,
                StatsError,
            >(error),
        },
{
    let mut widths: Vec<Option<u128>> = Vec::new();
    let mut k: usize = 0;
    while k < count
        invariant
            stats.well_formed(),
            k <= count,
            smallest + count <= column.len() + 1,
            bands_of(column@, smallest as int, k as int) == Ok::<Seq<Option<u128>>, StatsError>(
                widths@,
            ),
        decreases count - k,
    {
        let window = prefix(column, smallest + k);
        match band(&window, stats) {
            Ok(width) => {
                widths.push(width);
            },
            Err(error) => {
                proof {
                    lemma_bands_fail(column@, smallest as int, k as int + 1, count as int);
                }
                return Err(error);
            },
        }
        k = k + 1;
    }
    Ok(widths)
}

/// Once a window has no estimate, no longer series of bands has one, and the
/// error stays that of the first such window.
pub proof fn lemma_bands_fail(column: Seq<Option<u128>>, smallest: int, failed: int, count: int)
    requires
        0 < failed <= count,
        bands_of(column, smallest, failed) is Err,
    ensures
        bands_of(column, smallest, count) == bands_of(column, smallest, failed),
    decreases count - failed,
{
    if failed < count {
        lemma_bands_fail(column, smallest, failed, count - 1);
    }
}

/// The line charts of the convergence study: for each of three measures the
/// band of the first 2, 3, .., 101 runs.
pub open spec fn convergence_charts(runs: Seq<Outcome>) -> Result<Seq<ChartView>, StatsError> {
    match bands_of(column(runs, Measure::FreeWorkers), 2, 100) {
        Err(error) => Err(error),
        Ok(free) => match bands_of(column(runs, Measure::DispatchedClients), 2, 100) {
            Err(error) => Err(error),
            Ok(served) => match bands_of(column(runs, Measure::WorkerWaitingTime), 2, 100) {
                Err(error) => Err(error),
                Ok(waiting) => Ok(
                    seq![
                        line_of(
                            "Свободные работники от времени симуляции"@,
                            "stats/3_3/free_workers"@,
                            free,
                        ),
                        line_of(
                            "Кол-во обслуженных клиентов over Time"@,
                            "stats/3_3/DispatchedClients"@,
                            served,
                        ),
                        line_of("Waiting time"@, "stats/3_3/waiting_time"@, waiting),
                    ],
                ),
            },
        },
    }
}

/// The charts of a study that may fail, as mathematical values.
pub open spec fn outcome_views(outcome: Result<Vec<Chart>, StatsError>) -> Result<
    Seq<ChartView>,
    StatsError,
> {
    match outcome {
        Ok(charts) => Ok(views(charts@)),
        Err(error) => Err(error),
    }
}

/// The bands of the hundred windows of a column of at least 101 observations
/// have a hundred entries.
pub proof fn lemma_bands_length(column: Seq<Option<u128>>, smallest: int, count: int)
    requires
        0 <= count,
    ensures
        bands_of(column, smallest, count) is Ok ==> bands_of(
            column,
            smallest,
            count,
        ).unwrap().len() == count,
    decreases count,
{
    if count > 0 {
        lemma_bands_length(column, smallest, count - 1);
    }
}

/// The line charts of the convergence study for the given outcomes.
pub fn convergence(runs: &Vec<Outcome>, stats: &StatsConfig) -> (outcome: Result<
    Vec<Chart>,
    StatsError,
>)
    requires
        stats.well_formed(),
        runs@.len() >= 101,
    ensures
        outcome_views(outcome) == convergence_charts(runs@),
{
    let free_column = column_of(runs, Measure::FreeWorkers);
    let served_column = column_of(runs, Measure::DispatchedClients);
    let waiting_column = column_of(runs, Measure::WorkerWaitingTime);
    let free = match bands(&free_column, 2, 100, stats) {
        Ok(widths) => widths,
        Err(error) => {
            return Err(error);
        },
    };
    let served = match bands(&served_column, 2, 100, stats) {
        Ok(widths) => widths,
        Err(error) => {
            return Err(error);
        },
    };
    let waiting = match bands(&waiting_column, 2, 100, stats) {
        Ok(widths) => widths,
        Err(error) => {
            return Err(error);
        },
    };
    proof {
        lemma_bands_length(free_column@, 2, 100);
        lemma_bands_length(served_column@, 2, 100);
        lemma_bands_length(waiting_column@, 2, 100);
    }
    let mut charts: Vec<Chart> = Vec::new();
    charts.push(
        Chart::over_positions(
            "Свободные работники от времени симуляции",
            "stats/3_3/free_workers",
            free,
        ),
    );
    charts.push(
        Chart::over_positions(
            "Кол-во обслуженных клиентов over Time",
            "stats/3_3/DispatchedClients",
            served,
        ),
    );
    charts.push(Chart::over_positions("Waiting time", "stats/3_3/waiting_time", waiting));
    assert(views(charts@) =~= convergence_charts(runs@).unwrap());
    Ok(charts)
}

/// The convergence study: 102 independent replications, one after the
/// other, and for each of three measures the band of the first 2, 3, .., 101
/// of them, which shows how the accuracy grows with the number of runs.
pub fn task_3_3(config: &EstimationConfig, seed: u64) -> (outcome: Result<Vec<Chart>, StatsError>)
    requires
        config.simulation.well_formed(),
        config.simulation.fits_clock(0, 1),
        config.stats.well_formed(),
    ensures
        exists|runs: Seq<Outcome>|
            {
                &&& #[trigger] is_sample(config.simulation, 102, runs)
                &&& outcome_views(outcome) == convergence_charts(runs)
            },
{
    let total: u32 = 100;
    let window_size: u32 = 2;
    let seeds = seeds_from(seed, total + window_size);
    let runs = replicate_in_turn(&config.simulation, &seeds);
    let outcome = convergence(&runs, &config.stats);
    assert(is_sample(config.simulation, 102, runs@));
    outcome
}

/// The parameters of a sweep of one parameter in steps of one.
pub open spec fn sweep(kind: ParameterKind, start: u32, end: u32) -> Seq<ScenarioParameter> {
    seq![ScenarioParameter { kind, values: Span { start, end }, step: 1 }]
}

/// A parameter swept in steps of one has as many levels as its range has
/// values.
pub proof fn lemma_unit_steps(parameter: ScenarioParameter)
    requires
        parameter.step == 1,
        parameter.values.start <= parameter.values.end,
    ensures
        parameter.level_count() == parameter.values.end - parameter.values.start,
        forall|i: int| #[trigger] parameter.level(i) == parameter.values.start + i,
{
    assert forall|i: int| #[trigger] parameter.level(i) == parameter.values.start + i by {
        assert(i * 1 == i);
    }
}

/// Sweeps one parameter of the simulation in steps of one over
/// `start..end`, with one experiment per level.
pub fn sweep_one(
    config: &EstimationConfig,
    kind: ParameterKind,
    start: u32,
    end: u32,
    seed: u64,
) -> (entries: Vec<ScenarioEntry>)
    requires
        start <= end,
    ensures
        entries@.len() == end - start,
        forall|i: int|
            0 <= i < entries@.len() ==> {
                &&& (#[trigger] entries@[i]).first == start + i
                &&& entries@[i].second is None
                &&& is_entry_of(
                    sweep(kind, start, end),
                    config.simulation,
                    config.experiment,
                    i,
                    entries@[i],
                )
            },
{
    let parameter = ScenarioParameter { kind, values: Span { start, end }, step: 1 };
    let mut parameters: Vec<ScenarioParameter> = Vec::new();
    parameters.push(parameter);
    let scenario = ScenarioConfig { parameters };
    proof {
        assert(scenario@ =~= sweep(kind, start, end));
        lemma_unit_steps(parameter);
        assert(combinations(scenario@) == (end - start) * 1);
    }
    let entries = crate::scenario::run(&config.simulation, &config.experiment, &scenario, seed);
    proof {
        assert forall|i: int| 0 <= i < entries@.len() implies {
            &&& (#[trigger] entries@[i]).first == start + i
            &&& entries@[i].second is None
        } by {
            assert(is_entry_of(scenario@, config.simulation, config.experiment, i, entries@[i]));
            assert(i / 1 == i);
        }
    }
    entries
}

/// The sensitivity study: the response to the arrival probability, swept
/// from 30 to 79 per cent.
pub fn task_3_4(config: &EstimationConfig, seed: u64) -> (entries: Vec<ScenarioEntry>)
    ensures
        entries@.len() == 50,
        forall|i: int|
            0 <= i < 50 ==> {
                &&& (#[trigger] entries@[i]).first == 30 + i
                &&& entries@[i].second is None
                &&& is_entry_of(
                    sweep(ParameterKind::Clients, 30, 80),
                    config.simulation,
                    config.experiment,
                    i,
                    entries@[i],
                )
            },
{
    sweep_one(config, ParameterKind::Clients, 30, 80, seed)
}

/// The experiment of ten thousand independent replications.
pub open spec fn long_independent() -> ExperimentConfig {
    ExperimentConfig { total: 10_000, continous: false }
}

/// The experiment of ten thousand successive segments of one simulation.
pub open spec fn long_continuous() -> ExperimentConfig {
    ExperimentConfig { total: 10_000, continous: true }
}

/// The transient study: the mean outcome of ten thousand independent
/// replications, whose time series shows the response in simulated time.
pub fn task_3_5(config: &EstimationConfig, seed: u64) -> (summary: Outcome)
    requires
        feasible(config.simulation, long_independent()),
    ensures
        summarizes(config.simulation, long_independent(), summary),
        summary.log@.len() == if config.simulation.use_logs {
            config.simulation.max_time as int
        } else {
            0
        },
{
    let experiment = ExperimentConfig { total: 10_000, continous: false };
    crate::experiment::run(&config.simulation, &experiment, seed)
}

/// The continuous-run study: the mean outcome of ten thousand successive
/// segments of one simulation.
pub fn task_3_6(config: &EstimationConfig, seed: u64) -> (summary: Outcome)
    requires
        feasible(config.simulation, long_continuous()),
    ensures
        summarizes(config.simulation, long_continuous(), summary),
        summary.log@.len() == if config.simulation.use_logs {
            config.simulation.max_time as int
        } else {
            0
        },
{
    let experiment = ExperimentConfig { total: 10_000, continous: true };
    crate::experiment::run(&config.simulation, &experiment, seed)
}

/// The response curve: the response to the start of the production-time
/// range, swept from 3 to 14.
pub fn task_4_1(config: &EstimationConfig, seed: u64) -> (entries: Vec<ScenarioEntry>)
    ensures
        entries@.len() == 12,
        forall|i: int|
            0 <= i < 12 ==> {
                &&& (#[trigger] entries@[i]).first == 3 + i
                &&& entries@[i].second is None
                &&& is_entry_of(
                    sweep(ParameterKind::Production, 3, 15),
                    config.simulation,
                    config.experiment,
                    i,
                    entries@[i],
                )
            },
{
    sweep_one(config, ParameterKind::Production, 3, 15, seed)
}

/// One of the alternatives that are compared: the base configuration with
/// another number of workers and another dancing-time range.
pub open spec fn alternative(base: SimulationConfig, workers: u32, dancing_time: Span)
    -> SimulationConfig {
    SimulationConfig { workers, dancing_time, ..base }
}

/// The experiment of the comparison: the configured number of independent
/// replications.
pub open spec fn independent(config: EstimationConfig) -> ExperimentConfig {
    ExperimentConfig { total: config.experiment.total, continous: false }
}

/// The bar charts of the comparison: one chart per measure, one bar per
/// alternative.
pub open spec fn comparison_charts(first: Results, second: Results, third: Results) -> Seq<
    ChartView,
> {
    seq![
        bars_of(
            "BusyTables"@,
            "stats/4_2/BusyTables"@,
            seq![
                first.average_busy_tables,
                second.average_busy_tables,
                third.average_busy_tables,
            ],
        ),
        bars_of(
            "FreeWorkers"@,
            "stats/4_2/FreeWorkers"@,
            seq![
                first.average_free_workers,
                second.average_free_workers,
                third.average_free_workers,
            ],
        ),
        bars_of(
            "WaitingTime"@,
            "stats/4_2/WaitingTime"@,
            seq![
                first.average_worker_waiting_time,
                second.average_worker_waiting_time,
                third.average_worker_waiting_time,
            ],
        ),
        bars_of(
            "DispatchedClients"@,
            "stats/4_2/DispatchedClients"@,
            seq![first.dispatched_clients, second.dispatched_clients, third.dispatched_clients],
        ),
    ]
}

/// The bar charts that compare the results of three alternatives.
pub fn compare(first: &Results, second: &Results, third: &Results) -> (charts: Vec<Chart>)
    ensures
        views(charts@) == comparison_charts(*first, *second, *third),
        charts@.len() == 4,
        forall|k: int|
            0 <= k < 4 ==> (#[trigger] charts@[k])@ == comparison_charts(
                *first,
                *second,
                *third,
            )[k],
{
    let mut charts: Vec<Chart> = Vec::new();
    charts.push(
        Chart::bar(
            "BusyTables",
            "stats/4_2/BusyTables",
            vec![first.average_busy_tables, second.average_busy_tables, third.average_busy_tables],
        ),
    );
    charts.push(
        Chart::bar(
            "FreeWorkers",
            "stats/4_2/FreeWorkers",
            vec![
                first.average_free_workers,
                second.average_free_workers,
                third.average_free_workers,
            ],
        ),
    );
    charts.push(
        Chart::bar(
            "WaitingTime",
            "stats/4_2/WaitingTime",
            vec![
                first.average_worker_waiting_time,
                second.average_worker_waiting_time,
                third.average_worker_waiting_time,
            ],
        ),
    );
    charts.push(
        Chart::bar(
            "DispatchedClients",
            "stats/4_2/DispatchedClients",
            vec![first.dispatched_clients, second.dispatched_clients, third.dispatched_clients],
        ),
    );
    assert(views(charts@) =~= comparison_charts(*first, *second, *third));
    assert forall|k: int| 0 <= k < 4 implies (#[trigger] charts@[k])@ == comparison_charts(
        *first,
        *second,
        *third,
    )[k] by {
        assert(views(charts@)[k] == charts@[k]@);
    }
    charts
}

/// The comparison of three alternatives: 2 workers who dance 1 to 3 ticks, 5
/// workers who dance 2 to 7 ticks, and 10 workers who dance 4 to 11 ticks.
/// An experiment of independent replications is run on each. The task
/// returns the three mean outcomes in that order, and the bar charts that set
/// their measures side by side.
pub fn task_4_2(config: &EstimationConfig, seed: u64) -> (output: (Vec<Outcome>, Vec<Chart>))
    requires
        feasible(
            alternative(config.simulation, 2, Span { start: 1, end: 4 }),
            independent(*config),
        ),
        feasible(
            alternative(config.simulation, 5, Span { start: 2, end: 8 }),
            independent(*config),
        ),
        feasible(
            alternative(config.simulation, 10, Span { start: 4, end: 12 }),
            independent(*config),
        ),
    ensures
        output.0@.len() == 3,
        summarizes(
            alternative(config.simulation, 2, Span { start: 1, end: 4 }),
            independent(*config),
            output.0@[0],
        ),
        summarizes(
            alternative(config.simulation, 5, Span { start: 2, end: 8 }),
            independent(*config),
            output.0@[1],
        ),
        summarizes(
            alternative(config.simulation, 10, Span { start: 4, end: 12 }),
            independent(*config),
            output.0@[2],
        ),
        forall|k: int|
            0 <= k < 3 ==> (#[trigger] output.0@[k]).log@.len() == if config.simulation.use_logs
                && config.experiment.total > 0 {
                config.simulation.max_time as int
            } else {
                0
            },
        views(output.1@) == comparison_charts(
            output.0@[0].results,
            output.0@[1].results,
            output.0@[2].results,
        ),
        output.1@.len() == 4,
        forall|k: int|
            0 <= k < 4 ==> (#[trigger] output.1@[k])@ == comparison_charts(
                output.0@[0].results,
                output.0@[1].results,
                output.0@[2].results,
            )[k],
{
    let experiment = ExperimentConfig { total: config.experiment.total, continous: false };
    let mut simulation = config.simulation;

    simulation.workers = 2;
    simulation.dancing_time = Span { start: 1, end: 4 };
    let r1 = crate::experiment::run(&simulation, &experiment, seed);

    simulation.workers = 5;
    simulation.dancing_time = Span { start: 2, end: 8 };
    let r2 = crate::experiment::run(&simulation, &experiment, seed);

    simulation.workers = 10;
    simulation.dancing_time = Span { start: 4, end: 12 };
    let r3 = crate::experiment::run(&simulation, &experiment, seed);

    let charts = compare(&r1.results, &r2.results, &r3.results);
    let mut outcomes: Vec<Outcome> = Vec::new();
    outcomes.push(r1);
    outcomes.push(r2);
    outcomes.push(r3);
    (outcomes, charts)
}

/// The parameters of the two-factor sweep: the start of the production-time
/// range from 2 to 5 and the start of the dancing-time range from 2 to 7.
pub open spec fn surface() -> Seq<ScenarioParameter> {
    seq![
        ScenarioParameter {
            kind: ParameterKind::Production,
            values: Span { start: 2, end: 6 },
            step: 1,
        },
        ScenarioParameter {
            kind: ParameterKind::Dancing,
            values: Span { start: 2, end: 8 },
            step: 1,
        },
    ]
}

/// The response surface: one experiment for each of the 4 x 6 combinations
/// of the two factors, row by row.
pub fn task_4_3(config: &EstimationConfig, seed: u64) -> (entries: Vec<ScenarioEntry>)
    ensures
        entries@.len() == 24,
        forall|i: int|
            0 <= i < 24 ==> {
                &&& (#[trigger] entries@[i]).first == 2 + i / 6
                &&& entries@[i].second == Some((2 + i % 6) as u32)
                &&& is_entry_of(surface(), config.simulation, config.experiment, i, entries@[i])
            },
{
    let production = ScenarioParameter {
        kind: ParameterKind::Production,
        values: Span { start: 2, end: 6 },
        step: 1,
    };
    let dancing = ScenarioParameter {
        kind: ParameterKind::Dancing,
        values: Span { start: 2, end: 8 },
        step: 1,
    };
    let mut parameters: Vec<ScenarioParameter> = Vec::new();
    parameters.push(production);
    parameters.push(dancing);
    let scenario = ScenarioConfig { parameters };
    proof {
        assert(scenario@ =~= surface());
        lemma_unit_steps(production);
        lemma_unit_steps(dancing);
        lemma_level_count_bounded(production);
        assert(combinations(scenario@) == 4 * 6);
    }
    let entries = crate::scenario::run(&config.simulation, &config.experiment, &scenario, seed);
    proof {
        assert forall|i: int| 0 <= i < 24 implies {
            &&& (#[trigger] entries@[i]).first == 2 + i / 6
            &&& entries@[i].second == Some((2 + i % 6) as u32)
        } by {
            assert(is_entry_of(scenario@, config.simulation, config.experiment, i, entries@[i]));
        }
    }
    entries
}

} // verus!
