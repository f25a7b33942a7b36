use saimod::config::{Chance, SimulationConfig, Span};
use saimod::event::Event;
use saimod::model::Need;
use saimod::simulation::{result_of, Simulation, Tally};

fn fixed(value: u32) -> Span {
    Span { start: value, end: value + 1 }
}

/// A configuration whose draws are all fixed: every range holds one value,
/// clients always arrive and never order again.
fn deterministic(max_time: u32, tables: u32, workers: u32) -> SimulationConfig {
    SimulationConfig {
        max_time,
        tables,
        workers,
        client_ratio: Chance::always(),
        production_time: fixed(2),
        dancing_time: fixed(1),
        consumption_time: fixed(3),
        use_logs: true,
        patience_time: fixed(5),
        repeat_patience_time: fixed(1),
        repeat_ratio: Chance::never(),
    }
}

fn queue_of(simulation: &Simulation) -> Vec<Event> {
    (0..simulation.queue_len()).map(|i| simulation.queued(i).unwrap()).collect()
}

fn pending_of(simulation: &Simulation) -> Vec<Event> {
    (0..simulation.pending_len()).map(|i| simulation.pending(i).unwrap()).collect()
}

fn occupied(events: &[Event]) -> u32 {
    events.iter().filter(|e| !matches!(e, Event::Enter(_))).count() as u32
}

fn dancing(events: &[Event]) -> u32 {
    events.iter().filter(|e| matches!(e, Event::WorkerWalkingDance(_))).count() as u32
}

#[test]
fn new_simulation_is_empty() {
    let config = deterministic(20, 3, 2);
    let simulation = Simulation::with_config(config);
    assert_eq!(simulation.config(), config);
    assert_eq!(simulation.available_tables(), 3);
    assert_eq!(simulation.available_workers(), 2);
    assert_eq!(simulation.world_time(), 0);
    assert_eq!(simulation.queue_len(), 0);
    assert_eq!(simulation.pending_len(), 0);
    assert_eq!(simulation.queued(0), None);
    assert_eq!(simulation.next_need(), None);
    assert_eq!(simulation.immediately_left_clients_count(), 0);
    assert_eq!(simulation.dispatched_clients_count(), 0);
    assert_eq!(simulation.not_dispatched_clients(), 0);
    let results = simulation.partial_result();
    assert_eq!(results.average_worker_waiting_time, None);
    assert_eq!(results.average_busy_tables, None);
    assert_eq!(results.dispatched_clients, Some(0));
}

#[test]
fn default_settings_of_patience_and_repeat_orders() {
    let config = SimulationConfig::new(
        10,
        2,
        1,
        Chance::new(1, 2),
        Span::new(3, 6),
        Span::new(1, 4),
        Span::new(5, 9),
        false,
    );
    assert_eq!(config.patience_time, Span { start: 5, end: 10 });
    assert_eq!(config.repeat_patience_time, Span { start: 1, end: 3 });
    assert_eq!(config.repeat_ratio, Chance { numerator: 1, denominator: 5 });
    assert_eq!(config.max_time, 10);
    assert_eq!(config.production_time, Span { start: 3, end: 6 });
    assert!(config.is_valid());
    assert_eq!(config.max_delay(), 10);
    assert!(config.has_room(0, 1));
    assert!(config.has_room(u32::MAX - 20, 1));
    assert!(!config.has_room(u32::MAX - 19, 1));
    assert!(!config.has_room(0, u32::MAX));
}

#[test]
fn malformed_configurations_are_told() {
    let good = deterministic(5, 1, 1);
    assert!(good.is_valid());
    let mut empty_range = good;
    empty_range.dancing_time = Span { start: 4, end: 4 };
    assert!(!empty_range.is_valid());
    let mut above_one = good;
    above_one.client_ratio = Chance { numerator: 3, denominator: 2 };
    assert!(!above_one.is_valid());
    let mut no_denominator = good;
    no_denominator.repeat_ratio = Chance { numerator: 0, denominator: 0 };
    assert!(!no_denominator.is_valid());
    assert!(Chance::always().is_valid());
    assert!(Chance::never().is_valid());
    assert!(Span::new(1, 2).nonempty());
    assert!(!Span::new(2, 2).nonempty());
}

#[test]
fn first_client_is_seated() {
    let mut simulation = Simulation::with_seed(deterministic(20, 1, 1), 42);
    simulation.generate_new_events(0);
    assert_eq!(queue_of(&simulation), vec![Event::Enter(0)]);
    simulation.process_tick(0);
    assert_eq!(simulation.immediately_left_clients_count(), 0);
    assert_eq!(simulation.available_tables(), 0);
    assert_eq!(queue_of(&simulation), vec![Event::WaitingForWorker(0, 5, true)]);
    assert_eq!(simulation.world_time(), 1);
    simulation.generate_new_events(1);
    simulation.process_tick(1);
    assert_eq!(simulation.immediately_left_clients_count(), 1);
    assert_eq!(queue_of(&simulation), vec![Event::WorkerWalkingDance(2)]);
    assert_eq!(simulation.available_workers(), 0);
}

#[test]
fn one_table_one_worker_twenty_ticks() {
    let mut simulation = Simulation::with_seed(deterministic(20, 1, 1), 7);
    let (results, log) = simulation.run();
    assert_eq!(results.average_worker_waiting_time, Some(1_000_000));
    assert_eq!(results.average_order_time, Some(2_000_000));
    assert_eq!(results.average_consumption_time, Some(3_000_000));
    assert_eq!(results.average_busy_tables, Some(1_000_000));
    assert_eq!(results.average_free_workers, Some(850_000));
    assert_eq!(results.dispatched_clients, Some(2_000_000));
    assert_eq!(results.not_dispatched_clients, Some(0));
    assert_eq!(results.immediately_left_clients_count, Some(17_000_000));
    assert_eq!(simulation.world_time(), 20);
    assert_eq!(queue_of(&simulation), vec![Event::ConsumeFood(21)]);
    assert_eq!(simulation.available_tables(), 0);
    assert_eq!(simulation.available_workers(), 1);

    assert_eq!(log.len(), 20);
    let first = log.snapshot(0).unwrap();
    assert_eq!(first.immediately_left_clients_count, Some(0));
    assert_eq!(first.average_worker_waiting_time, None);
    assert_eq!(first.average_busy_tables, Some(1_000_000));
    assert_eq!(first.average_free_workers, Some(1_000_000));
    let second = log.snapshot(1).unwrap();
    assert_eq!(second.immediately_left_clients_count, Some(1_000_000));
    assert_eq!(second.average_free_workers, Some(500_000));
    let eighth = log.snapshot(7).unwrap();
    assert_eq!(eighth.dispatched_clients, Some(1_000_000));
    assert_eq!(eighth.immediately_left_clients_count, Some(6_000_000));
    assert_eq!(eighth.average_free_workers, Some(875_000));
    assert_eq!(log.snapshot(19), Some(results));
}

#[test]
fn no_table_turns_every_client_away() {
    for horizon in [0u32, 1, 20, 137] {
        let mut simulation = Simulation::with_seed(deterministic(horizon, 0, 1), 3);
        let (results, _log) = simulation.run();
        assert_eq!(results.immediately_left_clients_count, Some(horizon as u128 * 1_000_000));
        assert_eq!(simulation.immediately_left_clients_count(), horizon as u64);
        assert_eq!(results.dispatched_clients, Some(0));
        assert_eq!(results.average_worker_waiting_time, None);
        assert_eq!(simulation.queue_len(), 0);
        if horizon > 0 {
            assert_eq!(results.average_busy_tables, Some(0));
            assert_eq!(results.average_free_workers, Some(1_000_000));
        } else {
            assert_eq!(results.average_busy_tables, None);
        }
    }
}

#[test]
fn no_worker_lets_clients_wait_in_vain() {
    let mut simulation = Simulation::with_seed(deterministic(12, 2, 0), 3);
    let (results, _log) = simulation.run();
    assert_eq!(results.average_worker_waiting_time, Some(5_000_000));
    assert_eq!(results.average_order_time, None);
    assert_eq!(results.average_consumption_time, None);
    assert_eq!(results.average_busy_tables, Some(1_916_666));
    assert_eq!(results.average_free_workers, Some(0));
    assert_eq!(results.dispatched_clients, Some(0));
    assert_eq!(results.not_dispatched_clients, Some(4_000_000));
    assert_eq!(results.immediately_left_clients_count, Some(6_000_000));
    assert_eq!(
        queue_of(&simulation),
        vec![Event::WaitingForWorker(10, 15, true), Event::WaitingForWorker(11, 16, true)]
    );
}

#[test]
fn repeated_orders_keep_the_table() {
    let mut config = deterministic(30, 1, 1);
    config.repeat_ratio = Chance::always();
    let mut simulation = Simulation::with_seed(config, 3);
    let (results, _log) = simulation.run();
    assert_eq!(results.average_worker_waiting_time, Some(1_000_000));
    assert_eq!(results.average_order_time, Some(2_000_000));
    assert_eq!(results.average_consumption_time, Some(3_000_000));
    assert_eq!(results.average_busy_tables, Some(1_000_000));
    assert_eq!(results.average_free_workers, Some(866_666));
    assert_eq!(results.dispatched_clients, Some(0));
    assert_eq!(results.not_dispatched_clients, Some(0));
    assert_eq!(results.immediately_left_clients_count, Some(26_000_000));
    assert_eq!(queue_of(&simulation), vec![Event::ConsumeFood(31)]);
}

#[test]
fn three_tables_two_workers_forty_ticks() {
    let mut simulation = Simulation::with_seed(deterministic(40, 3, 2), 11);
    let (results, _log) = simulation.run();
    assert_eq!(results.average_worker_waiting_time, Some(1_000_000));
    assert_eq!(results.average_busy_tables, Some(2_925_000));
    assert_eq!(results.average_free_workers, Some(1_550_000));
    assert_eq!(results.dispatched_clients, Some(15_000_000));
    assert_eq!(results.immediately_left_clients_count, Some(22_000_000));
    assert_eq!(
        queue_of(&simulation),
        vec![Event::WaitingForFood(40), Event::ConsumeFood(42), Event::WaitingForFood(41)]
    );
    assert_eq!(simulation.available_tables(), 0);
    assert_eq!(simulation.available_workers(), 2);
}

#[test]
fn no_arrivals_leave_everything_at_rest() {
    let mut config = deterministic(15, 2, 2);
    config.client_ratio = Chance::never();
    let mut simulation = Simulation::with_seed(config, 5);
    let (results, log) = simulation.run();
    assert_eq!(results.immediately_left_clients_count, Some(0));
    assert_eq!(results.dispatched_clients, Some(0));
    assert_eq!(results.average_worker_waiting_time, None);
    assert_eq!(results.average_busy_tables, Some(0));
    assert_eq!(results.average_free_workers, Some(2_000_000));
    assert_eq!(simulation.queue_len(), 0);
    assert_eq!(simulation.available_tables(), 2);
    assert_eq!(log.len(), 15);
}

#[test]
fn logs_are_recorded_only_on_request() {
    let mut config = deterministic(9, 1, 1);
    config.use_logs = false;
    let mut simulation = Simulation::with_seed(config, 5);
    let (_results, log) = simulation.run();
    assert_eq!(log.len(), 0);
}

#[test]
fn enter_takes_a_table_or_leaves() {
    let mut simulation = Simulation::with_seed(deterministic(20, 1, 1), 1);
    simulation.admit_client();
    assert_eq!(queue_of(&simulation), vec![Event::Enter(0)]);
    assert_eq!(simulation.next_need(), Some(Need::Patience));
    simulation.handle_next(7, false);
    assert_eq!(simulation.available_tables(), 0);
    assert_eq!(pending_of(&simulation), vec![Event::WaitingForWorker(0, 7, true)]);
    assert_eq!(simulation.queue_len(), 0);
    simulation.finish_tick();
    assert_eq!(simulation.world_time(), 1);
    assert_eq!(queue_of(&simulation), vec![Event::WaitingForWorker(0, 7, true)]);
    assert_eq!(simulation.pending_len(), 0);

    // the only table is taken: the next client leaves at once
    simulation.admit_client();
    assert_eq!(simulation.next_need(), Some(Need::Dancing));
    simulation.handle_next(3, false);
    assert_eq!(simulation.next_need(), Some(Need::Nothing));
    simulation.handle_next(0, false);
    assert_eq!(simulation.immediately_left_clients_count(), 1);
    assert_eq!(pending_of(&simulation), vec![Event::WorkerWalkingDance(4)]);
    assert_eq!(simulation.available_workers(), 0);
    let results = simulation.partial_result();
    assert_eq!(results.average_worker_waiting_time, Some(1_000_000));
}

#[test]
fn a_client_without_patience_left_leaves_unserved() {
    let mut simulation = Simulation::with_seed(deterministic(20, 2, 0), 1);
    simulation.admit_client();
    simulation.handle_next(2, false);
    simulation.finish_tick();
    // tick 1: no worker, the client keeps waiting at the back
    assert_eq!(simulation.next_need(), Some(Need::Nothing));
    simulation.handle_next(0, false);
    assert_eq!(pending_of(&simulation), vec![Event::WaitingForWorker(0, 2, true)]);
    simulation.finish_tick();
    // tick 2: the deadline has come
    assert_eq!(simulation.next_need(), Some(Need::Nothing));
    simulation.handle_next(0, false);
    assert_eq!(simulation.pending_len(), 0);
    assert_eq!(simulation.available_tables(), 2);
    assert_eq!(simulation.not_dispatched_clients(), 1);
    simulation.finish_tick();
    let results = result_of(&simulation);
    assert_eq!(results.average_worker_waiting_time, Some(2_000_000));
    assert_eq!(results.not_dispatched_clients, Some(1_000_000));
    // busy tables sampled 1, 1, 0 over three ticks
    assert_eq!(results.average_busy_tables, Some(666_666));
}

#[test]
fn events_in_progress_return_to_the_front() {
    let mut simulation = Simulation::with_seed(deterministic(50, 3, 3), 1);
    // tick 0: a client sits down
    simulation.admit_client();
    simulation.handle_next(9, false);
    simulation.finish_tick();
    // tick 1: the worker takes the order and dances until tick 4; a second client sits down
    simulation.admit_client();
    assert_eq!(simulation.next_need(), Some(Need::Dancing));
    simulation.handle_next(3, false);
    assert_eq!(simulation.next_need(), Some(Need::Patience));
    simulation.handle_next(9, false);
    assert_eq!(
        pending_of(&simulation),
        vec![Event::WorkerWalkingDance(4), Event::WaitingForWorker(1, 10, true)]
    );
    simulation.finish_tick();
    // tick 2: the dance goes on and returns to the front; the second order is taken
    assert_eq!(simulation.next_need(), Some(Need::Nothing));
    simulation.handle_next(0, false);
    assert_eq!(pending_of(&simulation), vec![Event::WorkerWalkingDance(4)]);
    assert_eq!(simulation.next_need(), Some(Need::Dancing));
    simulation.handle_next(1, false);
    assert_eq!(
        pending_of(&simulation),
        vec![Event::WorkerWalkingDance(4), Event::WorkerWalkingDance(3)]
    );
    simulation.finish_tick();
    // tick 3: the first dance is not over and goes to the front; the second is over
    simulation.handle_next(0, false);
    assert_eq!(simulation.next_need(), Some(Need::Production));
    simulation.handle_next(4, false);
    assert_eq!(
        pending_of(&simulation),
        vec![Event::WorkerWalkingDance(4), Event::WaitingForFood(7)]
    );
    assert_eq!(simulation.available_workers(), 2);
    simulation.finish_tick();
    // tick 4: the first worker is free; the food of the second client is not ready and is
    // put in front of what was queued before it
    assert_eq!(simulation.next_need(), Some(Need::Production));
    simulation.handle_next(1, false);
    assert_eq!(simulation.available_workers(), 3);
    assert_eq!(pending_of(&simulation), vec![Event::WaitingForFood(5)]);
    assert_eq!(simulation.next_need(), Some(Need::Nothing));
    simulation.handle_next(0, false);
    assert_eq!(pending_of(&simulation), vec![Event::WaitingForFood(7), Event::WaitingForFood(5)]);
    simulation.finish_tick();
    // tick 5: the first is still cooking, the second is served and eats until tick 7
    simulation.handle_next(0, false);
    assert_eq!(simulation.next_need(), Some(Need::Consumption));
    simulation.handle_next(2, false);
    assert_eq!(pending_of(&simulation), vec![Event::WaitingForFood(7), Event::ConsumeFood(7)]);
    simulation.finish_tick();
    // tick 6: neither is due; the eating client goes to the back
    simulation.handle_next(0, false);
    assert_eq!(simulation.next_need(), Some(Need::Nothing));
    simulation.handle_next(0, false);
    assert_eq!(pending_of(&simulation), vec![Event::WaitingForFood(7), Event::ConsumeFood(7)]);
    simulation.finish_tick();
    // tick 7: one starts to eat, the other has finished and orders again
    assert_eq!(simulation.next_need(), Some(Need::Consumption));
    simulation.handle_next(5, false);
    assert_eq!(simulation.next_need(), Some(Need::Appetite));
    simulation.handle_next(2, true);
    assert_eq!(
        pending_of(&simulation),
        vec![Event::ConsumeFood(12), Event::WaitingForWorker(7, 9, false)]
    );
    assert_eq!(simulation.dispatched_clients_count(), 0);
    assert_eq!(simulation.available_tables(), 1);
    simulation.finish_tick();
    // tick 8: the repeated order is taken
    simulation.handle_next(0, false);
    simulation.handle_next(1, false);
    simulation.finish_tick();
    let results = simulation.partial_result();
    // waits of 1, 1 and 1 ticks
    assert_eq!(results.average_worker_waiting_time, Some(1_000_000));
    // production times 4 and 1
    assert_eq!(results.average_order_time, Some(2_500_000));
    // consumption times 2 and 5
    assert_eq!(results.average_consumption_time, Some(3_500_000));
    assert_eq!(results.not_dispatched_clients, Some(0));
}

#[test]
fn a_repeated_wait_that_times_out_is_not_counted_as_unserved() {
    let mut simulation = Simulation::with_seed(deterministic(50, 1, 1), 1);
    simulation.admit_client();
    simulation.handle_next(9, false); // seated
    simulation.finish_tick();
    simulation.handle_next(0, false); // order taken, dance ends at once
    simulation.finish_tick();
    simulation.handle_next(0, false); // food ready at once
    simulation.finish_tick();
    simulation.handle_next(0, false); // eaten at once
    simulation.finish_tick();
    assert_eq!(simulation.next_need(), Some(Need::Appetite));
    simulation.handle_next(0, true); // orders again, gives up at this very tick
    assert_eq!(pending_of(&simulation), vec![Event::WaitingForWorker(4, 4, false)]);
    simulation.finish_tick();
    assert_eq!(simulation.next_need(), Some(Need::Nothing));
    simulation.handle_next(0, false);
    assert_eq!(simulation.not_dispatched_clients(), 0);
    assert_eq!(simulation.dispatched_clients_count(), 0);
    assert_eq!(simulation.available_tables(), 1);
    assert_eq!(simulation.pending_len(), 0);
}

#[test]
fn a_finished_client_frees_the_table() {
    let mut simulation = Simulation::with_seed(deterministic(50, 1, 1), 1);
    simulation.admit_client();
    simulation.handle_next(9, false);
    simulation.finish_tick();
    simulation.handle_next(0, false);
    simulation.finish_tick();
    simulation.handle_next(0, false);
    simulation.finish_tick();
    simulation.handle_next(0, false);
    simulation.finish_tick();
    simulation.handle_next(0, false);
    assert_eq!(simulation.dispatched_clients_count(), 1);
    assert_eq!(simulation.available_tables(), 1);
    assert_eq!(simulation.available_workers(), 1);
    assert_eq!(simulation.pending_len(), 0);
}

#[test]
fn tables_and_workers_are_conserved_under_random_draws() {
    for seed in 0..40u64 {
        let config = SimulationConfig {
            max_time: 1,
            tables: 1 + (seed % 4) as u32,
            workers: 1 + (seed % 3) as u32,
            client_ratio: Chance { numerator: 3, denominator: 4 },
            production_time: Span { start: 1, end: 6 },
            dancing_time: Span { start: 1, end: 4 },
            consumption_time: Span { start: 1, end: 5 },
            use_logs: false,
            patience_time: Span { start: 1, end: 4 },
            repeat_patience_time: Span { start: 1, end: 3 },
            repeat_ratio: Chance { numerator: 1, denominator: 2 },
        };
        let mut simulation = Simulation::with_seed(config, seed);
        for tick in 0..200u32 {
            simulation.run();
            assert_eq!(simulation.world_time(), tick + 1);
            let queue = queue_of(&simulation);
            assert_eq!(simulation.available_tables() + occupied(&queue), config.tables);
            assert_eq!(simulation.available_workers() + dancing(&queue), config.workers);
            assert!(simulation.available_workers() <= config.workers);
            assert!(simulation.available_tables() <= config.tables);
            assert_eq!(occupied(&queue) as usize, queue.len());
        }
        let results = simulation.partial_result();
        assert!(results.average_busy_tables.unwrap() <= config.tables as u128 * 1_000_000);
        assert!(results.average_free_workers.unwrap() <= config.workers as u128 * 1_000_000);
    }
}

#[test]
fn drawn_durations_lie_in_their_ranges() {
    let config = SimulationConfig {
        max_time: 300,
        tables: 4,
        workers: 4,
        client_ratio: Chance::always(),
        production_time: Span { start: 10, end: 13 },
        dancing_time: Span { start: 1, end: 3 },
        consumption_time: Span { start: 20, end: 22 },
        use_logs: false,
        patience_time: Span { start: 50, end: 60 },
        repeat_patience_time: Span { start: 50, end: 60 },
        repeat_ratio: Chance { numerator: 1, denominator: 5 },
    };
    for seed in 0..10u64 {
        let mut simulation = Simulation::with_seed(config, seed);
        let (results, _log) = simulation.run();
        let order = results.average_order_time.unwrap();
        assert!(10_000_000 <= order && order <= 12_000_000);
        let consumption = results.average_consumption_time.unwrap();
        assert!(20_000_000 <= consumption && consumption <= 21_000_000);
        // among dozens of draws not all are the least or the greatest value
        assert!(10_000_000 < order && order < 12_000_000);
        assert!(20_000_000 < consumption && consumption < 21_000_000);
    }
}

#[test]
fn arrivals_follow_the_configured_chance() {
    let mut config = deterministic(400, 0, 1);
    config.client_ratio = Chance { numerator: 1, denominator: 2 };
    for seed in 0..10u64 {
        let mut simulation = Simulation::with_seed(config, seed);
        simulation.run();
        let turned_away = simulation.immediately_left_clients_count();
        assert!(100 < turned_away && turned_away < 300);
    }
}

#[test]
fn different_seeds_give_different_runs() {
    let mut config = deterministic(400, 3, 2);
    config.client_ratio = Chance { numerator: 1, denominator: 2 };
    config.production_time = Span { start: 1, end: 9 };
    let mut first = Simulation::with_seed(config, 1);
    let mut second = Simulation::with_seed(config, 2);
    assert_ne!(first.run().1, second.run().1);
}

#[test]
fn equal_seeds_give_equal_runs() {
    let mut config = deterministic(200, 3, 2);
    config.client_ratio = Chance { numerator: 1, denominator: 2 };
    config.production_time = Span { start: 1, end: 9 };
    config.repeat_ratio = Chance { numerator: 1, denominator: 5 };
    let mut first = Simulation::with_seed(config, 99);
    let mut second = Simulation::with_seed(config, 99);
    assert_eq!(first.run(), second.run());
    let mut third = Simulation::with_seed(config, 100);
    let other = third.run();
    assert_eq!(other.1.len(), 200);
}

#[test]
fn reset_metrics_keeps_the_facility() {
    let mut simulation = Simulation::with_seed(deterministic(20, 1, 1), 7);
    simulation.run();
    simulation.reset_metrics();
    assert_eq!(simulation.world_time(), 20);
    assert_eq!(queue_of(&simulation), vec![Event::ConsumeFood(21)]);
    assert_eq!(simulation.available_tables(), 0);
    assert_eq!(simulation.immediately_left_clients_count(), 0);
    assert_eq!(simulation.dispatched_clients_count(), 0);
    let results = simulation.partial_result();
    assert_eq!(results.average_busy_tables, None);
    assert_eq!(results.average_worker_waiting_time, None);
    assert_eq!(results.immediately_left_clients_count, Some(0));
    // the second segment goes on from tick 20: the client at the table finishes at tick 21
    let (results, log) = simulation.run();
    assert_eq!(simulation.world_time(), 40);
    assert_eq!(log.len(), 20);
    assert_eq!(results.dispatched_clients, Some(3_000_000));
    assert_eq!(results.average_busy_tables, Some(1_000_000));
}

#[test]
fn a_second_run_reports_its_own_ticks() {
    let mut simulation = Simulation::with_seed(deterministic(5, 0, 1), 3);
    let (first, _log) = simulation.run();
    assert_eq!(first.immediately_left_clients_count, Some(5_000_000));
    let (second, log) = simulation.run();
    assert_eq!(second.immediately_left_clients_count, Some(5_000_000));
    assert_eq!(simulation.immediately_left_clients_count(), 5);
    assert_eq!(simulation.world_time(), 10);
    assert_eq!(log.len(), 5);
    assert_eq!(log.snapshot(0).unwrap().immediately_left_clients_count, Some(1_000_000));

    // the facility goes on: the client who sat down in the first run is served in the second
    let mut simulation = Simulation::with_seed(deterministic(20, 1, 1), 7);
    let (first, _log) = simulation.run();
    assert_eq!(first.dispatched_clients, Some(2_000_000));
    let (second, _log) = simulation.run();
    assert_eq!(second.dispatched_clients, Some(3_000_000));
    assert_eq!(second.immediately_left_clients_count, Some(17_000_000));
    assert_eq!(second.average_busy_tables, Some(1_000_000));
    assert_eq!(simulation.world_time(), 40);
}

#[test]
fn tally_averages_its_observations() {
    let mut tally = Tally::new();
    assert_eq!(tally.average(), None);
    tally.record(1);
    tally.record(2);
    assert_eq!(tally, Tally { sum: 3, count: 2 });
    assert_eq!(tally.average(), Some(1_500_000));
    tally.record(0);
    assert_eq!(tally.average(), Some(1_000_000));
    tally.record(u32::MAX);
    assert_eq!(tally.average(), Some((3 + u32::MAX as u128) * 1_000_000 / 4));
}
