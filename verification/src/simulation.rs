use crate::config::SimulationConfig;
use crate::event::{arrivals, Event};
use crate::history::Log;
use crate::model::{
    lemma_arrival_keeps_invariant, lemma_close_keeps_invariant, lemma_head_counts,
    lemma_initial_is_idle, lemma_queue_lengths, lemma_reset_keeps_idle,
    lemma_step_keeps_invariant, Draw, Need, State, Total, Turn,
};
use crate::random::{draw_chance, draw_in_range, fresh_generator, seeded_generator};
use crate::results::{Results, SCALE};
use rand::rngs::StdRng;
use std::collections::VecDeque;
use vstd::prelude::*;

verus! {

/// A running total of observations: their sum and their number.
#[derive(Clone, Copy, Debug, PartialEq, Eq)]
pub struct Tally {
    pub sum: u128,
    pub count: u64,
}

impl View for Tally {
    type V = Total;

    open spec fn view(&self) -> Total {
        Total { sum: self.sum as int, count: self.count as int }
    }
}

impl Tally {
    /// The total of no observations.
    pub fn new() -> (tally: Tally)
        ensures
            tally@ == Total::none(),
    {
        Tally { sum: 0, count: 0 }
    }

    /// Adds one observation.
    pub fn record(&mut self, value: u32)
        requires
            old(self)@.sound(),
            old(self).count < u64::MAX,
        ensures
            final(self)@ == old(self)@.with(value as int),
            final(self)@.sound(),
    {
        self.sum = self.sum + value as u128;
        self.count = self.count + 1;
    }

    /// The average of the observations as a fixed-point measure, rounded
    /// down; `None` when there is no observation.
    pub fn average(&self) -> (measure: Option<u128>)
        requires
            self@.sound(),
        ensures
            crate::results::lift(measure) == self@.average(),
    {
        if self.count > 0 {
            assert(self.sum * SCALE <= 0xffff_ffff_ffff_ffff * 0xffff_ffff * 1_000_000) by (
                nonlinear_arith)
                requires
                    self.sum <= self.count * 0xffff_ffff,
                    self.count <= 0xffff_ffff_ffff_ffff,
                    SCALE == 1_000_000,
            ;
            Some(self.sum * SCALE / (self.count as u128))
        } else {
            None
        }
    }
}

/// A run from state `from` went as `turns` says: it ended in state `after`,
/// and `log`, if logs are asked for, holds the measures after every tick.
pub open spec fn recorded(
    from: State,
    turns: Seq<Turn>,
    after: State,
    log: Seq<Seq<Option<int>>>,
) -> bool {
    &&& from.ran(turns, after)
    &&& from.config.use_logs ==> forall|i: int|
        0 <= i < turns.len() ==> #[trigger] log[i] == from.course(turns.take(i + 1)).outcome()
}

/// One simulation of the facility: a clock, the free tables and workers, the
/// queue of events and the running metrics.
pub struct Simulation {
    config: SimulationConfig,
    available_tables: u32,
    available_workers: u32,
    events: VecDeque<Event>,
    pending: VecDeque<Event>,
    average_worker_waiting_time: Tally,
    average_order_time: Tally,
    average_consumption_time: Tally,
    average_busy_tables: Tally,
    average_free_workers: Tally,
    not_dispatched_clients: u64,
    dispatched_clients_count: u64,
    immediately_left_clients_count: u64,
    world_time: u32,
    generator: StdRng,
}

impl View for Simulation {
    type V = State;

    closed spec fn view(&self) -> State {
        State {
            config: self.config,
            available_tables: self.available_tables as int,
            available_workers: self.available_workers as int,
            events: self.events@,
            pending: self.pending@,
            waiting_time: self.average_worker_waiting_time@,
            order_time: self.average_order_time@,
            consumption_time: self.average_consumption_time@,
            busy_tables: self.average_busy_tables@,
            free_workers: self.average_free_workers@,
            not_dispatched: self.not_dispatched_clients as int,
            dispatched: self.dispatched_clients_count as int,
            immediately_left: self.immediately_left_clients_count as int,
            world_time: self.world_time as int,
        }
    }
}

impl Simulation {
    fn assemble(config: SimulationConfig, generator: StdRng) -> (simulation: Simulation)
        requires
            config.well_formed(),
        ensures
            simulation@ == State::initial(config),
            simulation@.idle(),
    {
        let simulation = Simulation {
            config,
            available_tables: config.tables,
            available_workers: config.workers,
            events: VecDeque::with_capacity(150),
            pending: VecDeque::new(),
            average_worker_waiting_time: Tally::new(),
            average_order_time: Tally::new(),
            average_consumption_time: Tally::new(),
            average_busy_tables: Tally::new(),
            average_free_workers: Tally::new(),
            not_dispatched_clients: 0,
            dispatched_clients_count: 0,
            immediately_left_clients_count: 0,
            world_time: 0,
            generator,
        };
        proof {
            lemma_initial_is_idle(config);
        }
        simulation
    }

    /// A new simulation whose random draws are seeded by the operating
    /// system.
    pub fn with_config(config: SimulationConfig) -> (simulation: Simulation)
        requires
            config.well_formed(),
        ensures
            simulation@ == State::initial(config),
            simulation@.idle(),
    {
        Simulation::assemble(config, fresh_generator())
    }

    /// A new simulation whose random draws are fixed by `seed`.
    pub fn with_seed(config: SimulationConfig, seed: u64) -> (simulation: Simulation)
        requires
            config.well_formed(),
        ensures
            simulation@ == State::initial(config),
            simulation@.idle(),
    {
        Simulation::assemble(config, seeded_generator(seed))
    }

    pub fn config(&self) -> (config: SimulationConfig)
        ensures
            config == self@.config,
    {
        self.config
    }

    pub fn available_tables(&self) -> (tables: u32)
        ensures
            tables == self@.available_tables,
    {
        self.available_tables
    }

    pub fn available_workers(&self) -> (workers: u32)
        ensures
            workers == self@.available_workers,
    {
        self.available_workers
    }

    /// The current tick.
    pub fn world_time(&self) -> (tick: u32)
        ensures
            tick == self@.world_time,
    {
        self.world_time
    }

    pub fn immediately_left_clients_count(&self) -> (count: u64)
        ensures
            count == self@.immediately_left,
    {
        self.immediately_left_clients_count
    }

    pub fn not_dispatched_clients(&self) -> (count: u64)
        ensures
            count == self@.not_dispatched,
    {
        self.not_dispatched_clients
    }

    pub fn dispatched_clients_count(&self) -> (count: u64)
        ensures
            count == self@.dispatched,
    {
        self.dispatched_clients_count
    }

    /// The number of events that are still to be handled in the current tick.
    pub fn queue_len(&self) -> (n: usize)
        ensures
            n == self@.events.len(),
    {
        self.events.len()
    }

    /// The number of events queued for the next tick.
    pub fn pending_len(&self) -> (n: usize)
        ensures
            n == self@.pending.len(),
    {
        self.pending.len()
    }

    /// The event at position `index` of the queue of the current tick.
    pub fn queued(&self, index: usize) -> (event: Option<Event>)
        ensures
            index < self@.events.len() ==> event == Some(self@.events[index as int]),
            index >= self@.events.len() ==> event is None,
    {
        if index < self.events.len() {
            Some(self.events[index])
        } else {
            None
        }
    }

    /// The event at position `index` of the queue of the next tick.
    pub fn pending(&self, index: usize) -> (event: Option<Event>)
        ensures
            index < self@.pending.len() ==> event == Some(self@.pending[index as int]),
            index >= self@.pending.len() ==> event is None,
    {
        if index < self.pending.len() {
            Some(self.pending[index])
        } else {
            None
        }
    }

    /// Tells what has to be drawn before the event at the head of the queue
    /// can be handled; `None` when the queue is empty.
    pub fn next_need(&self) -> (need: Option<Need>)
        ensures
            self@.events.len() == 0 ==> need is None,
            self@.events.len() > 0 ==> need == Some(self@.need()),
    {
        if self.events.len() == 0 {
            return None;
        }
        let now = self.world_time;
        let need = match self.events[0] {
            Event::Enter(_) => if self.available_tables > 0 {
                Need::Patience
            } else {
                Need::Nothing
            },
            Event::WaitingForWorker(_, deadline, _) => if deadline > now && self.available_workers
                > 0 {
                Need::Dancing
            } else {
                Need::Nothing
            },
            Event::WorkerWalkingDance(free_at) => if now >= free_at {
                Need::Production
            } else {
                Need::Nothing
            },
            Event::WaitingForFood(ready_at) => if now >= ready_at {
                Need::Consumption
            } else {
                Need::Nothing
            },
            Event::ConsumeFood(finish_at) => if now >= finish_at {
                Need::Appetite
            } else {
                Need::Nothing
            },
        };
        Some(need)
    }

    /// Handles the event at the head of the queue at the current tick, with
    /// the values that were drawn for it: `duration` answers the need for a
    /// duration, `wants_more` the question whether a client who has finished
    /// eating orders again.
    pub fn handle_next(&mut self, duration: u32, wants_more: bool)
        requires
            old(self)@.wf(),
            old(self)@.events.len() > 0,
            old(self)@.world_time + duration < u32::MAX,
        ensures
            final(self)@ == old(self)@.step(duration, wants_more),
            final(self)@.wf(),
    {
        proof {
            lemma_step_keeps_invariant(self@, duration, wants_more);
            lemma_head_counts(self@.events);
            lemma_queue_lengths(self@);
            assert(self@.events[0].admissible(self@.world_time));
            assert((self.world_time + 1) * 0x1_0000_0000 <= 0xffff_ffff * 0x1_0000_0000) by (
                nonlinear_arith)
                requires
                    self.world_time + 1 <= 0xffff_ffff,
            ;
        }
        let ghost before = self@;
        let now = self.world_time;
        let due: u32 = now + duration;
        let taken = self.events.pop_front();
        let event = taken.unwrap();
        match event {
            Event::Enter(_) => {
                if self.available_tables > 0 {
                    self.available_tables = self.available_tables - 1;
                    self.pending.push_back(Event::WaitingForWorker(now, due, true));
                } else {
                    self.immediately_left_clients_count = self.immediately_left_clients_count + 1;
                }
            },
            Event::WaitingForWorker(start, deadline, first) => {
                if deadline <= now {
                    self.available_tables = self.available_tables + 1;
                    self.average_worker_waiting_time.record(deadline - start);
                    if first {
                        self.not_dispatched_clients = self.not_dispatched_clients + 1;
                    }
                } else if self.available_workers > 0 {
                    self.available_workers = self.available_workers - 1;
                    self.pending.push_back(Event::WorkerWalkingDance(due));
                    self.average_worker_waiting_time.record(now - start);
                } else {
                    self.pending.push_back(event);
                }
            },
            Event::WorkerWalkingDance(free_at) => {
                if now >= free_at {
                    self.available_workers = self.available_workers + 1;
                    self.average_order_time.record(duration);
                    self.pending.push_back(Event::WaitingForFood(due));
                } else {
                    self.pending.push_front(event);
                }
            },
            Event::WaitingForFood(ready_at) => {
                if now >= ready_at {
                    self.average_consumption_time.record(duration);
                    self.pending.push_back(Event::ConsumeFood(due));
                } else {
                    self.pending.push_front(event);
                }
            },
            Event::ConsumeFood(finish_at) => {
                if now >= finish_at {
                    if wants_more {
                        self.pending.push_back(Event::WaitingForWorker(now, due, false));
                    } else {
                        self.dispatched_clients_count = self.dispatched_clients_count + 1;
                        self.available_tables = self.available_tables + 1;
                    }
                } else {
                    self.pending.push_back(event);
                }
            },
        }
        assert(self@ == before.step(duration, wants_more));
    }

    /// Lets a client arrive at the current tick: the arrival joins the back
    /// of the queue.
    pub fn admit_client(&mut self)
        requires
            old(self)@.idle(),
            old(self)@.world_time < u32::MAX,
        ensures
            final(self)@ == old(self)@.arrive(),
            final(self)@.between_ticks(),
            arrivals(final(self)@.events) == 1,
    {
        proof {
            lemma_arrival_keeps_invariant(self@);
        }
        self.events.push_back(Event::Enter(self.world_time));
    }

    /// Closes the current tick once all its events are handled: samples the
    /// busy tables and the free workers, makes the events queued for the next
    /// tick the queue, and moves the clock on by one.
    pub fn finish_tick(&mut self)
        requires
            old(self)@.wf(),
            old(self)@.events.len() == 0,
            old(self)@.world_time < u32::MAX,
        ensures
            final(self)@ == old(self)@.close_tick(),
            final(self)@.idle(),
    {
        proof {
            lemma_close_keeps_invariant(self@);
            lemma_queue_lengths(self@);
        }
        let busy: u32 = self.config.tables - self.available_tables;
        self.average_busy_tables.record(busy);
        self.average_free_workers.record(self.available_workers);
        std::mem::swap(&mut self.events, &mut self.pending);
        self.world_time = self.world_time + 1;
        assert(self@.pending =~= Seq::<Event>::empty());
    }

    /// Decides at random, with the configured probability, whether a client
    /// arrives at tick `tick`, and queues the arrival if so.
    pub fn generate_new_events(&mut self, tick: u32)
        requires
            old(self)@.idle(),
            tick == old(self)@.world_time,
            tick < u32::MAX,
        ensures
            final(self)@ == old(self)@ || final(self)@ == old(self)@.arrive(),
            old(self)@.config.client_ratio.is_certain() ==> final(self)@ == old(self)@.arrive(),
            old(self)@.config.client_ratio.is_impossible() ==> final(self)@ == old(self)@,
            final(self)@.between_ticks(),
    {
        let is_client_arrived = draw_chance(
            &mut self.generator,
            self.config.client_ratio.numerator,
            self.config.client_ratio.denominator,
        );
        if is_client_arrived {
            self.admit_client();
        }
    }

    /// Draws what the event at the head of the queue needs and handles it.
    /// Returns the duration and the decision that were used.
    fn handle_with_draws(&mut self, need: Need) -> (drawn: (u32, bool))
        requires
            old(self)@.wf(),
            old(self)@.events.len() > 0,
            need == old(self)@.need(),
            old(self)@.world_time + old(self)@.config.longest_delay() <= u32::MAX,
        ensures
            final(self)@.wf(),
            final(self)@ == old(self)@.step(drawn.0, drawn.1),
            drawn.0 < old(self)@.config.longest_delay(),
            old(self)@.allows(Draw { duration: drawn.0, wants_more: drawn.1 }),
    {
        let mut duration: u32 = 0;
        let mut wants_more = false;
        match need {
            Need::Nothing => {},
            Need::Patience => {
                duration =
                draw_in_range(
                    &mut self.generator,
                    self.config.patience_time.start,
                    self.config.patience_time.end,
                );
            },
            Need::Dancing => {
                duration =
                draw_in_range(
                    &mut self.generator,
                    self.config.dancing_time.start,
                    self.config.dancing_time.end,
                );
            },
            Need::Production => {
                duration =
                draw_in_range(
                    &mut self.generator,
                    self.config.production_time.start,
                    self.config.production_time.end,
                );
            },
            Need::Consumption => {
                duration =
                draw_in_range(
                    &mut self.generator,
                    self.config.consumption_time.start,
                    self.config.consumption_time.end,
                );
            },
            Need::Appetite => {
                wants_more =
                draw_chance(
                    &mut self.generator,
                    self.config.repeat_ratio.numerator,
                    self.config.repeat_ratio.denominator,
                );
                if wants_more {
                    duration =
                    draw_in_range(
                        &mut self.generator,
                        self.config.repeat_patience_time.start,
                        self.config.repeat_patience_time.end,
                    );
                }
            },
        }
        self.handle_next(duration, wants_more);
        (duration, wants_more)
    }

    /// Handles every event of the queue at tick `time`, drawing at random
    /// what each of them needs, and closes the tick.
    pub fn process_tick(&mut self, time: u32)
        requires
            old(self)@.between_ticks(),
            time == old(self)@.world_time,
            time + old(self)@.config.longest_delay() <= u32::MAX,
        ensures
            final(self)@.idle(),
            final(self)@.config == old(self)@.config,
            final(self)@.world_time == time + 1,
            final(self)@.busy_tables.count == old(self)@.busy_tables.count + 1,
            final(self)@.free_workers.count == old(self)@.free_workers.count + 1,
            old(self)@.immediately_left <= final(self)@.immediately_left,
            final(self)@.immediately_left <= old(self)@.immediately_left + arrivals(
                old(self)@.events,
            ),
            old(self)@.config.tables == 0 ==> final(self)@.immediately_left == old(
                self,
            )@.immediately_left + arrivals(old(self)@.events),
            old(self)@.events.len() == 0 ==> final(self)@ == old(self)@.close_tick(),
            exists|draws: Seq<Draw>| #[trigger] old(self)@.handled(draws, final(self)@),
    {
        let ghost before = self@;
        let ghost mut used: Seq<Draw> = Seq::empty();
        while self.events.len() > 0
            invariant
                self@.wf(),
                used.len() + self@.events.len() == before.events.len(),
                before.allows_all(used),
                before.drain(used) == self@,
                before == old(self)@,
                self@.config == before.config,
                self@.world_time == time,
                time + before.config.longest_delay() <= u32::MAX,
                self@.busy_tables == before.busy_tables,
                self@.free_workers == before.free_workers,
                before.immediately_left <= self@.immediately_left,
                self@.immediately_left + arrivals(self@.events) <= before.immediately_left
                    + arrivals(before.events),
                before.config.tables == 0 ==> self@.immediately_left + arrivals(self@.events)
                    == before.immediately_left + arrivals(before.events),
                before.events.len() == 0 ==> self@ == before,
            decreases self@.events.len(),
        {
            let ghost earlier = self@;
            proof {
                lemma_head_counts(earlier.events);
                lemma_queue_lengths(earlier);
            }
            let need = self.next_need();
            let drawn = self.handle_with_draws(need.unwrap());
            proof {
                lemma_step_keeps_invariant(earlier, drawn.0, drawn.1);
                let draw = Draw { duration: drawn.0, wants_more: drawn.1 };
                assert(used.push(draw).drop_last() =~= used);
                used = used.push(draw);
            }
        }
        proof {
            assert(time + 1 <= u32::MAX) by {
                assert(before.config.longest_delay() >= before.config.production_time.end);
            }
        }
        self.finish_tick();
        assert(before.handled(used, self@));
    }

    /// Starts the metrics again from nothing. Tables, workers, queue and clock
    /// stay as they are, so that a following run continues this one.
    pub fn reset_metrics(&mut self)
        requires
            old(self)@.idle(),
        ensures
            final(self)@ == old(self)@.reset(),
            final(self)@.idle(),
    {
        proof {
            lemma_reset_keeps_idle(self@);
        }
        self.average_worker_waiting_time = Tally::new();
        self.average_order_time = Tally::new();
        self.average_consumption_time = Tally::new();
        self.average_busy_tables = Tally::new();
        self.average_free_workers = Tally::new();
        self.not_dispatched_clients = 0;
        self.dispatched_clients_count = 0;
        self.immediately_left_clients_count = 0;
    }

    /// Advances the clock by the configured number of ticks from the current
    /// tick and returns the measures of the ticks of this run, together with
    /// one snapshot of the measures per tick if the configuration asks for
    /// logs.
    ///
    /// The metrics start from nothing, while tables, workers, queue and clock
    /// go on from where they are. In every tick a client arrives with the
    /// configured probability, every queued event is handled, and the
    /// occupancy is sampled once.
    pub fn run(&mut self) -> (outcome: (Results, Log))
        requires
            old(self)@.idle(),
            old(self)@.config.fits_clock(old(self)@.world_time, 1),
        ensures
            final(self)@.idle(),
            final(self)@.config == old(self)@.config,
            final(self)@.world_time == old(self)@.world_time + old(self)@.config.max_time,
            outcome.0@ == final(self)@.outcome(),
            outcome.1@.len() == if old(self)@.config.use_logs {
                old(self)@.config.max_time as int
            } else {
                0
            },
            old(self)@.config.use_logs && old(self)@.config.max_time > 0 ==> outcome.1@.last()
                == outcome.0@,
            exists|turns: Seq<Turn>| #[trigger]
                recorded(old(self)@.reset(), turns, final(self)@, outcome.1@),
            final(self)@.busy_tables.count == old(self)@.config.max_time,
            final(self)@.free_workers.count == old(self)@.config.max_time,
            0 <= final(self)@.immediately_left <= old(self)@.config.max_time,
            old(self)@.config.tables == 0 && old(self)@.config.client_ratio.is_certain()
                ==> final(self)@.immediately_left == old(self)@.config.max_time,
            old(self)@.config.client_ratio.is_impossible() && old(self)@.events.len() == 0 ==> {
                &&& final(self)@.events.len() == 0
                &&& final(self)@.immediately_left == 0
                &&& final(self)@.dispatched == 0
                &&& final(self)@.not_dispatched == 0
                &&& final(self)@.waiting_time == Total::none()
                &&& final(self)@.order_time == Total::none()
                &&& final(self)@.consumption_time == Total::none()
                &&& final(self)@.available_tables == old(self)@.available_tables
                &&& final(self)@.available_workers == old(self)@.available_workers
            },
    {
        self.reset_metrics();
        let mut log = Log::empty();
        let ghost before = self@;
        let start_time = self.world_time;
        proof {
            assert(1 * before.config.max_time == before.config.max_time as int);
            assert(before.config.longest_delay() >= before.config.production_time.end);
        }
        let end_time = start_time + self.config.max_time;
        let mut tick = start_time;
        let ghost mut turns: Seq<Turn> = Seq::empty();
        while tick < end_time
            invariant
                before == old(self)@.reset(),
                turns.len() == tick - start_time,
                before.permits_all(turns),
                before.course(turns) == self@,
                before.config.use_logs ==> forall|i: int|
                    0 <= i < turns.len() ==> #[trigger] log@[i] == before.course(
                        turns.take(i + 1),
                    ).outcome(),
                self@.idle(),
                self@.config == before.config,
                self@.world_time == tick,
                start_time == before.world_time,
                start_time <= tick <= end_time,
                end_time == start_time + before.config.max_time,
                end_time + before.config.longest_delay() <= u32::MAX,
                log@.len() == if before.config.use_logs {
                    tick - start_time
                } else {
                    0
                },
                before.config.use_logs && tick > start_time ==> log@.last() == self@.outcome(),
                self@.busy_tables.count == before.busy_tables.count + (tick - start_time),
                self@.free_workers.count == before.free_workers.count + (tick - start_time),
                before.immediately_left <= self@.immediately_left,
                self@.immediately_left <= before.immediately_left + (tick - start_time),
                before.config.tables == 0 && before.config.client_ratio.is_certain()
                    ==> self@.immediately_left == before.immediately_left + (tick - start_time),
                before.config.client_ratio.is_impossible() && before.events.len() == 0 ==> {
                    &&& self@.events.len() == 0
                    &&& self@.immediately_left == before.immediately_left
                    &&& self@.dispatched == before.dispatched
                    &&& self@.not_dispatched == before.not_dispatched
                    &&& self@.waiting_time == before.waiting_time
                    &&& self@.order_time == before.order_time
                    &&& self@.consumption_time == before.consumption_time
                    &&& self@.available_tables == before.available_tables
                    &&& self@.available_workers == before.available_workers
                },
            decreases end_time - tick,
        {
            let ghost earlier = self@;
            self.generate_new_events(tick);
            proof {
                crate::model::lemma_back_counts(
                    earlier.events,
                    Event::Enter(earlier.world_time as u32),
                );
            }
            let ghost started = self@;
            let ghost arrival = started != earlier;
            self.process_tick(tick);
            let ghost earlier_log = log@;
            if self.config.use_logs {
                let part_results = self.partial_result();
                let accepted = log.append(tick - start_time, part_results);
                assert(accepted);
            }
            proof {
                assert(earlier.arrive().events.len() == earlier.events.len() + 1);
                assert(started == earlier.begin(arrival));
                let draws = choose|draws: Seq<Draw>| #[trigger] started.handled(draws, self@);
                let turn = Turn { arrival, draws };
                let longer = turns.push(turn);
                assert(longer.drop_last() =~= turns);
                assert(earlier.permits(turn));
                assert(before.course(longer) == self@);
                if before.config.use_logs {
                    assert forall|i: int| 0 <= i < longer.len() implies #[trigger] log@[i]
                        == before.course(longer.take(i + 1)).outcome() by {
                        if i < turns.len() {
                            assert(longer.take(i + 1) =~= turns.take(i + 1));
                            assert(log@[i] == earlier_log[i]);
                        } else {
                            assert(longer.take(i + 1) =~= longer);
                        }
                    }
                }
                turns = longer;
            }
            tick = tick + 1;
        }
        let outcome = (result_of(self), log);
        assert(recorded(old(self)@.reset(), turns, self@, outcome.1@));
        outcome
    }

    /// The measures of the run so far.
    pub fn partial_result(&self) -> (results: Results)
        requires
            self@.wf(),
        ensures
            results@ == self@.outcome(),
    {
        result_of(self)
    }
}

/// The measures of a simulation: the five averages of its running totals and
/// its three counters, as fixed-point numbers.
pub fn result_of(sim: &Simulation) -> (results: Results)
    requires
        sim@.wf(),
    ensures
        results@ == sim@.outcome(),
{
    let results = Results {
        average_consumption_time: sim.average_consumption_time.average(),
        average_worker_waiting_time: sim.average_worker_waiting_time.average(),
        average_order_time: sim.average_order_time.average(),
        average_busy_tables: sim.average_busy_tables.average(),
        average_free_workers: sim.average_free_workers.average(),
        dispatched_clients: Some(sim.dispatched_clients_count as u128 * SCALE),
        not_dispatched_clients: Some(sim.not_dispatched_clients as u128 * SCALE),
        immediately_left_clients_count: Some(sim.immediately_left_clients_count as u128 * SCALE),
    };
    assert(results@ =~= sim@.outcome());
    results
}

} // verus!
