use crate::config::{Chance, SimulationConfig, Span};
use crate::experiment::{summarizes, ExperimentConfig, Outcome};
use crate::results::Results;
use rayon::iter::{IntoParallelIterator, ParallelIterator};
use vstd::prelude::*;

verus! {

/// The simulation parameter that a sweep varies.
#[derive(Clone, Copy, Debug, PartialEq, Eq, Structural)]
pub enum ParameterKind {
    /// The probability that a client arrives in a tick, in per cent.
    Clients,
    /// The start of the production-time range, which keeps its width.
    Production,
    /// The start of the dancing-time range, which keeps its width.
    Dancing,
    /// The start of the consumption-time range, which keeps its width.
    Consumption,
    /// The number of tables.
    Tables,
    /// The number of workers.
    Workers,
}

/// One swept parameter: the levels are `values.start`, `values.start + step`
/// and so on, as long as they stay below `values.end`.
#[derive(Clone, Copy, Debug, PartialEq, Eq, Structural)]
pub struct ScenarioParameter {
    pub kind: ParameterKind,
    pub values: Span,
    pub step: u32,
}

/// The parameters of a sweep: one for a response curve, two for a response
/// surface.
#[derive(Clone, Debug, PartialEq, Eq)]
pub struct ScenarioConfig {
    pub parameters: Vec<ScenarioParameter>,
}

/// Why a combination of levels gave no results.
#[derive(Clone, Copy, Debug, PartialEq, Eq, Structural)]
pub enum ScenarioError {
    /// A level is not a value that its parameter can take.
    LevelOutOfRange,
    /// With the levels set, the configuration is not well formed or its runs
    /// do not fit on the clock.
    Infeasible,
}

/// The results of one combination of levels.
#[derive(Clone, Copy, Debug, PartialEq, Eq)]
pub struct ScenarioEntry {
    /// The level of the first parameter.
    pub first: u32,
    /// The level of the second parameter, if there is one.
    pub second: Option<u32>,
    pub outcome: Result<Results, ScenarioError>,
}

/// `range` moved so that it starts at `start`; `None` if its end would leave
/// the 32-bit range or the range is reversed.
pub open spec fn shifted(range: Span, start: u32) -> Option<Span> {
    if range.start <= range.end && start + (range.end - range.start) <= u32::MAX {
        Some(Span { start, end: (start + (range.end - range.start)) as u32 })
    } else {
        None
    }
}

/// `config` with the parameter `kind` set to `level`; `None` if the parameter
/// cannot take that level.
pub open spec fn adjusted(config: SimulationConfig, kind: ParameterKind, level: u32) -> Option<
    SimulationConfig,
> {
    match kind {
        ParameterKind::Clients => if level <= 100 {
            Some(
                SimulationConfig {
                    client_ratio: Chance { numerator: level, denominator: 100 },
                    ..config
                },
            )
        } else {
            None
        },
        ParameterKind::Production => match shifted(config.production_time, level) {
            Some(range) => Some(SimulationConfig { production_time: range, ..config }),
            None => None,
        },
        ParameterKind::Dancing => match shifted(config.dancing_time, level) {
            Some(range) => Some(SimulationConfig { dancing_time: range, ..config }),
            None => None,
        },
        ParameterKind::Consumption => match shifted(config.consumption_time, level) {
            Some(range) => Some(SimulationConfig { consumption_time: range, ..config }),
            None => None,
        },
        ParameterKind::Tables => Some(SimulationConfig { tables: level, ..config }),
        ParameterKind::Workers => Some(SimulationConfig { workers: level, ..config }),
    }
}

/// The number of horizons that an experiment needs on the clock.
pub open spec fn horizons(experiment: ExperimentConfig) -> int {
    if experiment.continous {
        experiment.total as int
    } else {
        1
    }
}

/// An experiment can be run on `config`.
pub open spec fn feasible(config: SimulationConfig, experiment: ExperimentConfig) -> bool {
    config.well_formed() && config.fits_clock(0, horizons(experiment))
}

impl ScenarioParameter {
    /// The number of levels.
    pub open spec fn level_count(self) -> int {
        if self.values.start < self.values.end && self.step > 0 {
            (self.values.end - self.values.start + self.step - 1) / (self.step as int)
        } else {
            0
        }
    }

    /// The level at position `index`.
    pub open spec fn level(self, index: int) -> int {
        self.values.start + index * self.step
    }

    /// The number of levels.
    pub fn count(&self) -> (n: u32)
        requires
            self.step > 0,
        ensures
            n == self.level_count(),
    {
        if self.values.start < self.values.end {
            let width: u64 = (self.values.end - self.values.start) as u64;
            let n: u64 = (width + self.step as u64 - 1) / (self.step as u64);
            assert(n <= width) by (nonlinear_arith)
                requires
                    n == (width + self.step - 1) / (self.step as int),
                    self.step >= 1,
                    width >= 1,
            ;
            n as u32
        } else {
            0
        }
    }

    /// The level at position `index`.
    pub fn level_at(&self, index: u32) -> (level: u32)
        requires
            index < self.level_count(),
        ensures
            level == self.level(index as int),
            self.values.contains(level),
    {
        proof {
            lemma_level_in_range(*self, index as int);
        }
        let level: u64 = self.values.start as u64 + (index as u64) * (self.step as u64);
        level as u32
    }
}

/// There are no more levels than values in the range.
pub proof fn lemma_level_count_bounded(parameter: ScenarioParameter)
    ensures
        0 <= parameter.level_count() <= u32::MAX,
        parameter.values.start < parameter.values.end && parameter.step > 0
            ==> parameter.level_count() >= 1,
{
    if parameter.values.start < parameter.values.end && parameter.step > 0 {
        let step = parameter.step as int;
        let width = parameter.values.end - parameter.values.start;
        assert(1 <= (width + step - 1) / step <= width) by (nonlinear_arith)
            requires
                step >= 1,
                width >= 1,
        ;
    }
}

/// Every level lies in the range of values.
pub proof fn lemma_level_in_range(parameter: ScenarioParameter, index: int)
    requires
        0 <= index < parameter.level_count(),
    ensures
        parameter.values.start <= parameter.level(index) < parameter.values.end,
        0 <= index * parameter.step <= u32::MAX,
{
    let step = parameter.step as int;
    let width = parameter.values.end - parameter.values.start;
    let n = parameter.level_count();
    assert(n == (width + step - 1) / step);
    assert(n * step <= width + step - 1) by (nonlinear_arith)
        requires
            n == (width + step - 1) / step,
            step > 0,
    ;
    assert(index * step <= (n - 1) * step && 0 <= index * step && (n - 1) * step == n * step
        - step) by (nonlinear_arith)
        requires
            0 <= index <= n - 1,
            step > 0,
    ;
}

impl View for ScenarioConfig {
    type V = Seq<ScenarioParameter>;

    /// The parameters in their order.
    open spec fn view(&self) -> Seq<ScenarioParameter> {
        self.parameters@
    }
}

/// There are one or two parameters, each with a positive step.
pub open spec fn well_formed(parameters: Seq<ScenarioParameter>) -> bool {
    &&& 1 <= parameters.len() <= 2
    &&& forall|i: int| 0 <= i < parameters.len() ==> (#[trigger] parameters[i]).step > 0
}

/// The number of levels of the second parameter; one if there is none.
pub open spec fn columns(parameters: Seq<ScenarioParameter>) -> int {
    if parameters.len() == 2 {
        parameters[1].level_count()
    } else {
        1
    }
}

/// The number of combinations of levels.
pub open spec fn combinations(parameters: Seq<ScenarioParameter>) -> int {
    parameters[0].level_count() * columns(parameters)
}

/// The configuration of the combination at position `index`, counted row by
/// row: the first parameter at level `index / columns`, the second, if there
/// is one, at level `index % columns`. `None` if a parameter cannot take its
/// level.
pub open spec fn target(
    parameters: Seq<ScenarioParameter>,
    simulation: SimulationConfig,
    index: int,
) -> Option<SimulationConfig> {
    let first = parameters[0];
    let row = adjusted(simulation, first.kind, first.level(index / columns(parameters)) as u32);
    if parameters.len() == 2 {
        let second = parameters[1];
        match row {
            Some(config) => adjusted(
                config,
                second.kind,
                second.level(index % columns(parameters)) as u32,
            ),
            None => None,
        }
    } else {
        row
    }
}

/// `entry` is the entry of the combination at position `index`: it carries
/// the levels, and results exactly when the configuration of the combination
/// exists and an experiment can be run on it; the results are then those of
/// such an experiment.
pub open spec fn is_entry_of(
    parameters: Seq<ScenarioParameter>,
    simulation: SimulationConfig,
    experiment: ExperimentConfig,
    index: int,
    entry: ScenarioEntry,
) -> bool {
    &&& entry.first == parameters[0].level(index / columns(parameters))
    &&& entry.second == if parameters.len() == 2 {
        Some(parameters[1].level(index % columns(parameters)) as u32)
    } else {
        None
    }
    &&& match entry.outcome {
        Ok(results) => {
            &&& target(parameters, simulation, index) is Some
            &&& feasible(target(parameters, simulation, index).unwrap(), experiment)
            &&& exists|summary: Outcome|
                summary.results == results && #[trigger] summarizes(
                    target(parameters, simulation, index).unwrap(),
                    experiment,
                    summary,
                )
        },
        Err(ScenarioError::LevelOutOfRange) => target(parameters, simulation, index) is None,
        Err(ScenarioError::Infeasible) => {
            &&& target(parameters, simulation, index) is Some
            &&& !feasible(target(parameters, simulation, index).unwrap(), experiment)
        },
    }
}

impl ScenarioConfig {
    /// Tells whether there are one or two parameters, each with a positive
    /// step.
    pub fn is_valid(&self) -> (answer: bool)
        ensures
            answer == well_formed(self@),
    {
        let n = self.parameters.len();
        if n < 1 || n > 2 {
            return false;
        }
        if self.parameters[0].step == 0 {
            return false;
        }
        if n == 2 && self.parameters[1].step == 0 {
            return false;
        }
        true
    }

    /// The number of levels of the second parameter; one if there is none.
    pub fn column_count(&self) -> (n: u32)
        requires
            well_formed(self@),
        ensures
            n == columns(self@),
    {
        if self.parameters.len() == 2 {
            self.parameters[1].count()
        } else {
            1
        }
    }

    /// The number of combinations of levels.
    pub fn combination_count(&self) -> (n: u64)
        requires
            well_formed(self@),
        ensures
            n == combinations(self@),
    {
        let rows = self.parameters[0].count();
        let columns = self.column_count();
        assert(rows * columns <= 0xffff_ffff * 0xffff_ffff) by (nonlinear_arith)
            requires
                0 <= rows <= 0xffff_ffff,
                0 <= columns <= 0xffff_ffff,
        ;
        (rows as u64) * (columns as u64)
    }
}

/// Moves `range` so that it starts at `start`.
pub fn shift(range: Span, start: u32) -> (moved: Option<Span>)
    ensures
        moved == shifted(range, start),
{
    if range.start <= range.end {
        match start.checked_add(range.end - range.start) {
            Some(end) => Some(Span { start, end }),
            None => None,
        }
    } else {
        None
    }
}

/// Sets the parameter `kind` of `config` to `level`.
pub fn adjust(config: SimulationConfig, kind: ParameterKind, level: u32) -> (changed: Option<
    SimulationConfig,
>)
    ensures
        changed == adjusted(config, kind, level),
{
    let mut changed = config;
    match kind {
        ParameterKind::Clients => {
            if level > 100 {
                return None;
            }
            changed.client_ratio = Chance { numerator: level, denominator: 100 };
        },
        ParameterKind::Production => {
            match shift(config.production_time, level) {
                Some(range) => {
                    changed.production_time = range;
                },
                None => {
                    return None;
                },
            }
        },
        ParameterKind::Dancing => {
            match shift(config.dancing_time, level) {
                Some(range) => {
                    changed.dancing_time = range;
                },
                None => {
                    return None;
                },
            }
        },
        ParameterKind::Consumption => {
            match shift(config.consumption_time, level) {
                Some(range) => {
                    changed.consumption_time = range;
                },
                None => {
                    return None;
                },
            }
        },
        ParameterKind::Tables => {
            changed.tables = level;
        },
        ParameterKind::Workers => {
            changed.workers = level;
        },
    }
    Some(changed)
}

/// Tells whether an experiment can be run on `config`.
pub fn is_feasible(config: &SimulationConfig, experiment: &ExperimentConfig) -> (answer: bool)
    ensures
        answer == feasible(*config, *experiment),
{
    let runs: u32 = if experiment.continous {
        experiment.total
    } else {
        1
    };
    config.is_valid() && config.has_room(0, runs)
}

/// Runs the experiment of the combination at position `index` and returns its
/// entry.
pub fn evaluate_at(
    simulation: &SimulationConfig,
    experiment: &ExperimentConfig,
    scenario: &ScenarioConfig,
    index: usize,
    seed: u64,
) -> (entry: ScenarioEntry)
    requires
        well_formed(scenario@),
        index < combinations(scenario@),
    ensures
        is_entry_of(scenario@, *simulation, *experiment, index as int, entry),
{
    let columns = scenario.column_count();
    let first = scenario.parameters[0];
    proof {
        let rows = first.level_count();
        assert(columns > 0) by {
            if columns == 0 {
                assert(rows * columns == 0) by (nonlinear_arith)
                    requires
                        columns == 0,
                ;
            }
        }
        lemma_level_count_bounded(first);
        let i = index as int;
        let c = columns as int;
        assert(0 <= i / c < rows && 0 <= i % c < c) by (nonlinear_arith)
            requires
                0 <= i < rows * c,
                c > 0,
        ;
    }
    let row = (index / (columns as usize)) as u32;
    let column = (index % (columns as usize)) as u32;
    let first_level = first.level_at(row);
    let mut chosen = adjust(*simulation, first.kind, first_level);
    let mut second_level: Option<u32> = None;
    if scenario.parameters.len() == 2 {
        let second = scenario.parameters[1];
        let level = second.level_at(column);
        second_level = Some(level);
        chosen =
        match chosen {
            Some(config) => adjust(config, second.kind, level),
            None => None,
        };
    }
    assert(chosen == target(scenario@, *simulation, index as int));
    let outcome = match chosen {
        None => Err(ScenarioError::LevelOutOfRange),
        Some(config) => {
            if is_feasible(&config, experiment) {
                let summary = crate::experiment::run(&config, experiment, seed);
                Ok(summary.results)
            } else {
                Err(ScenarioError::Infeasible)
            }
        },
    };
    ScenarioEntry { first: first_level, second: second_level, outcome }
}

/// rayon's `into_par_iter().map(..).collect()` over the positions
/// `0..combinations`: one call of `evaluate_at` per combination, possibly on
/// several threads. The claim is that the result holds, in the order of the
/// positions, what those calls returned.
#[verifier::external_body]
fn evaluate_each(
    simulation: &SimulationConfig,
    experiment: &ExperimentConfig,
    scenario: &ScenarioConfig,
    count: usize,
    seed: u64,
) -> (entries: Vec<ScenarioEntry>)
    requires
        well_formed(scenario@),
        count == combinations(scenario@),
    ensures
        entries@.len() == count,
        forall|i: int|
            0 <= i < entries@.len() ==> is_entry_of(
                scenario@,
                *simulation,
                *experiment,
                i,
                #[trigger] entries@[i],
            ),
{
    (0..count).into_par_iter().map(
        |index| evaluate_at(simulation, experiment, scenario, index, seed),
    ).collect()
}

/// Sweeps the parameters of `scenario`: for every combination of levels the
/// base configuration is copied, the parameters are set, and an experiment
/// seeded with `seed` is run on the result. The entries come row by row, one
/// per combination; a combination that fails does not stop the others.
pub fn run(
    simulation: &SimulationConfig,
    experiment: &ExperimentConfig,
    scenario: &ScenarioConfig,
    seed: u64,
) -> (entries: Vec<ScenarioEntry>)
    requires
        well_formed(scenario@),
        combinations(scenario@) <= usize::MAX,
    ensures
        entries@.len() == combinations(scenario@),
        forall|i: int|
            0 <= i < entries@.len() ==> is_entry_of(
                scenario@,
                *simulation,
                *experiment,
                i,
                #[trigger] entries@[i],
            ),
{
    let count = scenario.combination_count() as usize;
    evaluate_each(simulation, experiment, scenario, count, seed)
}

} // verus!
