use saimod::config::{Chance, SimulationConfig, Span};
use saimod::experiment::ExperimentConfig;
use saimod::scenario::{
    adjust, evaluate_at, is_feasible, run, shift, ParameterKind, ScenarioConfig, ScenarioEntry,
    ScenarioError, ScenarioParameter,
};

fn fixed(value: u32) -> Span {
    Span { start: value, end: value + 1 }
}

fn deterministic(max_time: u32, tables: u32, workers: u32) -> SimulationConfig {
    SimulationConfig {
        max_time,
        tables,
        workers,
        client_ratio: Chance::always(),
        production_time: fixed(2),
        dancing_time: fixed(1),
        consumption_time: fixed(3),
        use_logs: false,
        patience_time: fixed(5),
        repeat_patience_time: fixed(1),
        repeat_ratio: Chance::never(),
    }
}

fn random() -> SimulationConfig {
    SimulationConfig {
        max_time: 50,
        tables: 3,
        workers: 2,
        client_ratio: Chance { numerator: 1, denominator: 2 },
        production_time: Span { start: 1, end: 9 },
        dancing_time: Span { start: 1, end: 4 },
        consumption_time: Span { start: 2, end: 7 },
        use_logs: false,
        patience_time: Span { start: 5, end: 10 },
        repeat_patience_time: Span { start: 1, end: 3 },
        repeat_ratio: Chance { numerator: 1, denominator: 5 },
    }
}

fn parameter(kind: ParameterKind, start: u32, end: u32, step: u32) -> ScenarioParameter {
    ScenarioParameter { kind, values: Span { start, end }, step }
}

fn twice() -> ExperimentConfig {
    ExperimentConfig { total: 2, continous: false }
}

#[test]
fn levels_are_counted_by_steps() {
    assert_eq!(parameter(ParameterKind::Tables, 3, 15, 1).count(), 12);
    assert_eq!(parameter(ParameterKind::Tables, 3, 15, 5).count(), 3);
    assert_eq!(parameter(ParameterKind::Tables, 3, 13, 5).count(), 2);
    assert_eq!(parameter(ParameterKind::Tables, 3, 4, 100).count(), 1);
    assert_eq!(parameter(ParameterKind::Tables, 3, 3, 1).count(), 0);
    assert_eq!(parameter(ParameterKind::Tables, 5, 3, 1).count(), 0);
    assert_eq!(parameter(ParameterKind::Tables, 0, u32::MAX, 1).count(), u32::MAX);
    assert_eq!(parameter(ParameterKind::Tables, 3, 15, 5).level_at(0), 3);
    assert_eq!(parameter(ParameterKind::Tables, 3, 15, 5).level_at(2), 13);
    assert_eq!(parameter(ParameterKind::Tables, 0, u32::MAX, 1).level_at(u32::MAX - 1), u32::MAX - 1);
}

#[test]
fn scenario_needs_one_or_two_parameters_with_steps() {
    let one = parameter(ParameterKind::Tables, 0, 3, 1);
    let still = parameter(ParameterKind::Tables, 0, 3, 0);
    assert!(ScenarioConfig { parameters: vec![one] }.is_valid());
    assert!(ScenarioConfig { parameters: vec![one, one] }.is_valid());
    assert!(!ScenarioConfig { parameters: vec![] }.is_valid());
    assert!(!ScenarioConfig { parameters: vec![one, one, one] }.is_valid());
    assert!(!ScenarioConfig { parameters: vec![still] }.is_valid());
    assert!(!ScenarioConfig { parameters: vec![one, still] }.is_valid());
    let surface = ScenarioConfig {
        parameters: vec![
            parameter(ParameterKind::Production, 2, 6, 1),
            parameter(ParameterKind::Dancing, 2, 8, 1),
        ],
    };
    assert_eq!(surface.column_count(), 6);
    assert_eq!(surface.combination_count(), 24);
    assert_eq!(ScenarioConfig { parameters: vec![one] }.column_count(), 1);
    assert_eq!(ScenarioConfig { parameters: vec![one] }.combination_count(), 3);
}

#[test]
fn shift_moves_a_range_and_keeps_its_width() {
    assert_eq!(shift(Span { start: 3, end: 6 }, 10), Some(Span { start: 10, end: 13 }));
    assert_eq!(shift(Span { start: 3, end: 6 }, 0), Some(Span { start: 0, end: 3 }));
    assert_eq!(shift(Span { start: 3, end: 3 }, 7), Some(Span { start: 7, end: 7 }));
    assert_eq!(shift(Span { start: 3, end: 6 }, u32::MAX - 3), Some(Span { start: u32::MAX - 3, end: u32::MAX }));
    assert_eq!(shift(Span { start: 3, end: 6 }, u32::MAX - 2), None);
    assert_eq!(shift(Span { start: 6, end: 3 }, 1), None);
}

#[test]
fn adjust_sets_the_named_parameter() {
    let base = random();
    let clients = adjust(base, ParameterKind::Clients, 30).unwrap();
    assert_eq!(clients.client_ratio, Chance { numerator: 30, denominator: 100 });
    assert_eq!(SimulationConfig { client_ratio: base.client_ratio, ..clients }, base);
    assert_eq!(adjust(base, ParameterKind::Clients, 100).unwrap().client_ratio, Chance { numerator: 100, denominator: 100 });
    assert_eq!(adjust(base, ParameterKind::Clients, 101), None);

    let production = adjust(base, ParameterKind::Production, 4).unwrap();
    assert_eq!(production.production_time, Span { start: 4, end: 12 });
    assert_eq!(SimulationConfig { production_time: base.production_time, ..production }, base);
    assert_eq!(adjust(base, ParameterKind::Production, u32::MAX), None);

    let dancing = adjust(base, ParameterKind::Dancing, 7).unwrap();
    assert_eq!(dancing.dancing_time, Span { start: 7, end: 10 });
    assert_eq!(SimulationConfig { dancing_time: base.dancing_time, ..dancing }, base);

    let consumption = adjust(base, ParameterKind::Consumption, 0).unwrap();
    assert_eq!(consumption.consumption_time, Span { start: 0, end: 5 });
    assert_eq!(SimulationConfig { consumption_time: base.consumption_time, ..consumption }, base);

    let tables = adjust(base, ParameterKind::Tables, 11).unwrap();
    assert_eq!(tables, SimulationConfig { tables: 11, ..base });
    let workers = adjust(base, ParameterKind::Workers, 0).unwrap();
    assert_eq!(workers, SimulationConfig { workers: 0, ..base });
}

#[test]
fn feasibility_asks_for_a_valid_configuration_that_fits_the_clock() {
    let base = random();
    assert!(is_feasible(&base, &twice()));
    let mut broken = base;
    broken.dancing_time = Span { start: 2, end: 2 };
    assert!(!is_feasible(&broken, &twice()));
    let mut long = base;
    long.max_time = u32::MAX - 9;
    assert!(!is_feasible(&long, &twice()));
    long.max_time = u32::MAX - 10;
    assert!(is_feasible(&long, &ExperimentConfig { total: 1000, continous: false }));
    assert!(!is_feasible(&long, &ExperimentConfig { total: 2, continous: true }));
    assert!(is_feasible(&long, &ExperimentConfig { total: 1, continous: true }));
    assert!(is_feasible(&base, &ExperimentConfig { total: 10_000, continous: true }));
}

#[test]
fn sweep_of_seven_levels_gives_seven_entries() {
    let scenario = ScenarioConfig { parameters: vec![parameter(ParameterKind::Production, 2, 9, 1)] };
    let entries = run(&deterministic(30, 2, 1), &twice(), &scenario, 5);
    assert_eq!(entries.len(), 7);
    let served = [8u128, 6, 6, 4, 4, 4, 4];
    let free = [700_000u128, 733_333, 733_333, 800_000, 800_000, 800_000, 800_000];
    let turned_away = [20u128, 22, 22, 24, 24, 24, 24];
    for (i, entry) in entries.iter().enumerate() {
        assert_eq!(entry.first, 2 + i as u32);
        assert_eq!(entry.second, None);
        let results = entry.outcome.unwrap();
        assert_eq!(results.average_order_time, Some((2 + i as u128) * 1_000_000));
        assert_eq!(results.average_busy_tables, Some(1_966_666));
        assert_eq!(results.average_free_workers, Some(free[i]));
        assert_eq!(results.dispatched_clients, Some(served[i] * 1_000_000));
        assert_eq!(results.immediately_left_clients_count, Some(turned_away[i] * 1_000_000));
    }
}

#[test]
fn sweep_with_the_same_seed_is_reproduced() {
    let scenario = ScenarioConfig { parameters: vec![parameter(ParameterKind::Production, 1, 15, 2)] };
    let experiment = ExperimentConfig { total: 5, continous: false };
    let first = run(&random(), &experiment, &scenario, 77);
    let second = run(&random(), &experiment, &scenario, 77);
    assert_eq!(first.len(), 7);
    assert_eq!(first, second);
    for (i, entry) in first.iter().enumerate() {
        assert_eq!(entry.first, 1 + 2 * i as u32);
        let order = entry.outcome.unwrap().average_order_time.unwrap();
        let low = (1 + 2 * i as u128) * 1_000_000;
        assert!(low <= order && order <= low + 7_000_000);
    }
}

#[test]
fn sweep_of_tables() {
    let scenario = ScenarioConfig { parameters: vec![parameter(ParameterKind::Tables, 0, 4, 1)] };
    let entries = run(&deterministic(20, 1, 1), &twice(), &scenario, 5);
    let busy = [0u128, 1_000_000, 1_950_000, 2_850_000];
    let turned_away = [20u128, 17, 14, 11];
    assert_eq!(entries.len(), 4);
    for (i, entry) in entries.iter().enumerate() {
        assert_eq!(entry.first, i as u32);
        let results = entry.outcome.unwrap();
        assert_eq!(results.average_busy_tables, Some(busy[i]));
        assert_eq!(results.immediately_left_clients_count, Some(turned_away[i] * 1_000_000));
    }
}

#[test]
fn surface_comes_row_by_row() {
    let scenario = ScenarioConfig {
        parameters: vec![
            parameter(ParameterKind::Production, 2, 6, 1),
            parameter(ParameterKind::Dancing, 2, 8, 1),
        ],
    };
    let entries = run(&deterministic(30, 2, 1), &twice(), &scenario, 5);
    assert_eq!(entries.len(), 24);
    let served: [[u128; 6]; 4] =
        [[6, 5, 4, 4, 3, 3], [6, 4, 4, 3, 3, 3], [4, 4, 4, 3, 3, 2], [4, 4, 3, 3, 2, 2]];
    for (i, entry) in entries.iter().enumerate() {
        assert_eq!(entry.first, 2 + (i / 6) as u32);
        assert_eq!(entry.second, Some(2 + (i % 6) as u32));
        let results = entry.outcome.unwrap();
        assert_eq!(results.average_order_time, Some((2 + (i / 6) as u128) * 1_000_000));
        assert_eq!(results.average_busy_tables, Some(1_966_666));
        assert_eq!(results.dispatched_clients, Some(served[i / 6][i % 6] * 1_000_000));
    }
}

#[test]
fn a_failed_combination_does_not_stop_the_others() {
    let scenario = ScenarioConfig { parameters: vec![parameter(ParameterKind::Clients, 90, 111, 10)] };
    let entries = run(&deterministic(20, 0, 1), &twice(), &scenario, 5);
    assert_eq!(entries.len(), 3);
    assert_eq!(entries[0].first, 90);
    assert!(entries[0].outcome.is_ok());
    assert_eq!(entries[1].first, 100);
    assert_eq!(entries[1].outcome.unwrap().immediately_left_clients_count, Some(20_000_000));
    assert_eq!(entries[2].first, 110);
    assert_eq!(entries[2].outcome, Err(ScenarioError::LevelOutOfRange));
}

#[test]
fn a_combination_that_cannot_run_is_infeasible() {
    let mut base = deterministic(20, 1, 1);
    base.production_time = Span { start: 4, end: 4 };
    let scenario = ScenarioConfig { parameters: vec![parameter(ParameterKind::Tables, 1, 3, 1)] };
    let entries = run(&base, &twice(), &scenario, 5);
    assert_eq!(
        entries,
        vec![
            ScenarioEntry { first: 1, second: None, outcome: Err(ScenarioError::Infeasible) },
            ScenarioEntry { first: 2, second: None, outcome: Err(ScenarioError::Infeasible) },
        ]
    );
    let far = ScenarioConfig {
        parameters: vec![parameter(ParameterKind::Dancing, u32::MAX - 22, u32::MAX - 19, 1)],
    };
    let entries = run(&deterministic(20, 1, 1), &twice(), &far, 5);
    assert_eq!(entries.len(), 3);
    assert!(entries[0].outcome.is_ok());
    assert!(entries[1].outcome.is_ok());
    assert_eq!(entries[2].outcome, Err(ScenarioError::Infeasible));
}

#[test]
fn an_empty_range_gives_no_entries() {
    let scenario = ScenarioConfig { parameters: vec![parameter(ParameterKind::Tables, 4, 4, 1)] };
    assert_eq!(run(&random(), &twice(), &scenario, 5), Vec::new());
    let surface = ScenarioConfig {
        parameters: vec![
            parameter(ParameterKind::Tables, 1, 4, 1),
            parameter(ParameterKind::Workers, 4, 4, 1),
        ],
    };
    assert_eq!(run(&random(), &twice(), &surface, 5), Vec::new());
}

#[test]
fn evaluate_at_runs_one_combination() {
    let scenario = ScenarioConfig {
        parameters: vec![
            parameter(ParameterKind::Production, 2, 6, 1),
            parameter(ParameterKind::Dancing, 2, 8, 1),
        ],
    };
    let entry = evaluate_at(&deterministic(30, 2, 1), &twice(), &scenario, 17, 5);
    assert_eq!(entry.first, 4);
    assert_eq!(entry.second, Some(7));
    assert_eq!(entry.outcome.unwrap().dispatched_clients, Some(2_000_000));
}
