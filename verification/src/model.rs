use crate::config::SimulationConfig;
use crate::event::{
    arrivals, count_of, engaged, lemma_arrivals_and_occupancy, lemma_count_concat,
    lemma_count_pop_front, lemma_count_push, occupancy, Event,
};
use crate::results::SCALE;
use vstd::prelude::*;

verus! {

/// The largest value of one observation.
pub open spec fn largest_observation() -> int {
    0xffff_ffff
}

/// An upper bound on the number of events that one tick handles: a client at
/// every table and one arrival.
pub open spec fn tick_capacity() -> int {
    0x1_0000_0000
}

/// A running total of observations.
pub struct Total {
    pub sum: int,
    pub count: int,
}

impl Total {
    /// The total after one more observation of `value`.
    pub open spec fn with(self, value: int) -> Total {
        Total { sum: self.sum + value, count: self.count + 1 }
    }

    /// The total is that of `count` observations, none above the largest.
    pub open spec fn sound(self) -> bool {
        0 <= self.count && 0 <= self.sum <= self.count * largest_observation()
    }

    /// The total of no observations.
    pub open spec fn none() -> Total {
        Total { sum: 0, count: 0 }
    }

    /// The average of the observations as a fixed-point measure, rounded
    /// down; undefined when there is no observation.
    pub open spec fn average(self) -> Option<int> {
        if self.count > 0 {
            Some(self.sum * SCALE / self.count)
        } else {
            None
        }
    }
}

/// What has to be drawn at random before the event at the head of the queue
/// can be handled.
#[derive(Clone, Copy, Debug, PartialEq, Eq, Structural)]
pub enum Need {
    /// The event is handled without a draw.
    Nothing,
    /// How long a newly seated client will wait for a worker.
    Patience,
    /// How long the worker who takes the order will be unavailable.
    Dancing,
    /// How long the order takes to prepare.
    Production,
    /// How long the client will eat.
    Consumption,
    /// Whether the client orders again and, if so, how long the client will
    /// wait for a worker.
    Appetite,
}

/// The state of a simulation, as mathematical values.
pub struct State {
    pub config: SimulationConfig,
    pub available_tables: int,
    pub available_workers: int,
    /// The events that are still to be handled in the current tick, in order.
    pub events: Seq<Event>,
    /// The events that the current tick has queued for the next one.
    pub pending: Seq<Event>,
    pub waiting_time: Total,
    pub order_time: Total,
    pub consumption_time: Total,
    pub busy_tables: Total,
    pub free_workers: Total,
    pub not_dispatched: int,
    pub dispatched: int,
    pub immediately_left: int,
    /// The current tick.
    pub world_time: int,
}

/// Every event of `queue` is admissible at tick `now`.
pub open spec fn all_admissible(queue: Seq<Event>, now: int) -> bool {
    forall|i: int| 0 <= i < queue.len() ==> (#[trigger] queue[i]).admissible(now)
}

impl State {
    /// The state of a new simulation: every table and worker free, nothing
    /// queued, nothing counted, the clock at zero.
    pub open spec fn initial(config: SimulationConfig) -> State {
        State {
            config,
            available_tables: config.tables as int,
            available_workers: config.workers as int,
            events: Seq::empty(),
            pending: Seq::empty(),
            waiting_time: Total::none(),
            order_time: Total::none(),
            consumption_time: Total::none(),
            busy_tables: Total::none(),
            free_workers: Total::none(),
            not_dispatched: 0,
            dispatched: 0,
            immediately_left: 0,
            world_time: 0,
        }
    }

    /// No table is lost or counted twice: the free tables and the tables of
    /// the clients in the two queues make up the configured tables.
    pub open spec fn tables_conserved(self) -> bool {
        &&& 0 <= self.available_tables
        &&& self.available_tables + occupancy(self.events) + occupancy(self.pending)
            == self.config.tables
    }

    /// No worker is lost or counted twice: the free workers and the workers
    /// that the events in the two queues keep busy make up the configured
    /// workers.
    pub open spec fn workers_conserved(self) -> bool {
        &&& 0 <= self.available_workers
        &&& self.available_workers + engaged(self.events) + engaged(self.pending)
            == self.config.workers
    }

    /// None of the six counts of handled events exceeds `limit`.
    pub open spec fn counts_within(self, limit: int) -> bool {
        &&& self.waiting_time.count <= limit
        &&& self.order_time.count <= limit
        &&& self.consumption_time.count <= limit
        &&& self.not_dispatched <= limit
        &&& self.dispatched <= limit
        &&& self.immediately_left <= limit
    }

    /// The invariant of the simulation, which holds in every state that can be
    /// reached.
    pub open spec fn wf(self) -> bool {
        &&& self.config.well_formed()
        &&& 0 <= self.world_time <= u32::MAX
        &&& self.tables_conserved()
        &&& self.workers_conserved()
        &&& arrivals(self.pending) == 0
        &&& arrivals(self.events) <= 1
        &&& all_admissible(self.events, self.world_time)
        &&& all_admissible(self.pending, self.world_time)
        &&& self.waiting_time.sound()
        &&& self.order_time.sound()
        &&& self.consumption_time.sound()
        &&& self.busy_tables.sound()
        &&& self.free_workers.sound()
        &&& 0 <= self.not_dispatched
        &&& 0 <= self.dispatched
        &&& 0 <= self.immediately_left
        &&& self.counts_within((self.world_time + 1) * tick_capacity() - self.events.len())
        &&& self.busy_tables.count <= self.world_time
        &&& self.free_workers.count <= self.world_time
        &&& self.busy_tables.sum <= self.busy_tables.count * self.config.tables
        &&& self.free_workers.sum <= self.free_workers.count * self.config.workers
    }

    /// The state between two ticks: nothing is queued for the next tick, and
    /// every count is within what the ticks so far can have handled.
    pub open spec fn between_ticks(self) -> bool {
        &&& self.wf()
        &&& self.pending.len() == 0
        &&& self.counts_within(self.world_time * tick_capacity())
    }

    /// The state between two ticks before the arrival of the next tick is
    /// decided.
    pub open spec fn idle(self) -> bool {
        &&& self.between_ticks()
        &&& arrivals(self.events) == 0
    }

    /// What the event at the head of the queue needs drawn.
    pub open spec fn need(self) -> Need
        recommends
            self.events.len() > 0,
    {
        let now = self.world_time;
        match self.events[0] {
            Event::Enter(_) => if self.available_tables > 0 {
                Need::Patience
            } else {
                Need::Nothing
            },
            Event::WaitingForWorker(_, deadline, _) => if deadline > now
                && self.available_workers > 0 {
                Need::Dancing
            } else {
                Need::Nothing
            },
            Event::WorkerWalkingDance(free_at) => if now >= free_at {
                Need::Production
            } else {
                Need::Nothing
            },
            Event::WaitingForFood(ready_at) => if now >= ready_at {
                Need::Consumption
            } else {
                Need::Nothing
            },
            Event::ConsumeFood(finish_at) => if now >= finish_at {
                Need::Appetite
            } else {
                Need::Nothing
            },
        }
    }

    /// The state after the event at the head of the queue is handled at the
    /// current tick, where `duration` is the duration drawn for it and
    /// `wants_more` the drawn decision of a client who has finished eating.
    ///
    /// Events that are not due return to the queue of the next tick: a busy
    /// worker and an order in preparation at its front, a waiting or eating
    /// client at its back.
    pub open spec fn step(self, duration: u32, wants_more: bool) -> State
        recommends
            self.events.len() > 0,
    {
        let event = self.events[0];
        let now = self.world_time;
        let at = now as u32;
        let due = (now + duration) as u32;
        let rest = State { events: self.events.subrange(1, self.events.len() as int), ..self };
        match event {
            Event::Enter(_) => if self.available_tables > 0 {
                State {
                    available_tables: self.available_tables - 1,
                    pending: self.pending.push(Event::WaitingForWorker(at, due, true)),
                    ..rest
                }
            } else {
                State { immediately_left: self.immediately_left + 1, ..rest }
            },
            Event::WaitingForWorker(start, deadline, first) => if deadline <= now {
                State {
                    available_tables: self.available_tables + 1,
                    waiting_time: self.waiting_time.with(deadline - start),
                    not_dispatched: self.not_dispatched + if first {
                        1int
                    } else {
                        0int
                    },
                    ..rest
                }
            } else if self.available_workers > 0 {
                State {
                    available_workers: self.available_workers - 1,
                    waiting_time: self.waiting_time.with(now - start),
                    pending: self.pending.push(Event::WorkerWalkingDance(due)),
                    ..rest
                }
            } else {
                State { pending: self.pending.push(event), ..rest }
            },
            Event::WorkerWalkingDance(free_at) => if now >= free_at {
                State {
                    available_workers: self.available_workers + 1,
                    order_time: self.order_time.with(duration as int),
                    pending: self.pending.push(Event::WaitingForFood(due)),
                    ..rest
                }
            } else {
                State { pending: seq![event] + self.pending, ..rest }
            },
            Event::WaitingForFood(ready_at) => if now >= ready_at {
                State {
                    consumption_time: self.consumption_time.with(duration as int),
                    pending: self.pending.push(Event::ConsumeFood(due)),
                    ..rest
                }
            } else {
                State { pending: seq![event] + self.pending, ..rest }
            },
            Event::ConsumeFood(finish_at) => if now >= finish_at {
                if wants_more {
                    State {
                        pending: self.pending.push(Event::WaitingForWorker(at, due, false)),
                        ..rest
                    }
                } else {
                    State {
                        dispatched: self.dispatched + 1,
                        available_tables: self.available_tables + 1,
                        ..rest
                    }
                }
            } else {
                State { pending: self.pending.push(event), ..rest }
            },
        }
    }

    /// The state after the arrival of a client at the current tick.
    pub open spec fn arrive(self) -> State {
        State { events: self.events.push(Event::Enter(self.world_time as u32)), ..self }
    }

    /// The state after the tick is closed: the occupancy of tables and
    /// workers is sampled once, the events queued for the next tick become the
    /// queue, and the clock moves on by one.
    pub open spec fn close_tick(self) -> State {
        State {
            busy_tables: self.busy_tables.with(self.config.tables - self.available_tables),
            free_workers: self.free_workers.with(self.available_workers),
            events: self.pending,
            pending: Seq::empty(),
            world_time: self.world_time + 1,
            ..self
        }
    }

    /// The state after the metrics are reset: the totals and counters start
    /// again from nothing, while tables, workers, queue and clock stay.
    pub open spec fn reset(self) -> State {
        State {
            waiting_time: Total::none(),
            order_time: Total::none(),
            consumption_time: Total::none(),
            busy_tables: Total::none(),
            free_workers: Total::none(),
            not_dispatched: 0,
            dispatched: 0,
            immediately_left: 0,
            ..self
        }
    }

    /// The measures of the state: the five averages and the three counters,
    /// as fixed-point numbers.
    pub open spec fn outcome(self) -> Seq<Option<int>> {
        seq![
            self.waiting_time.average(),
            self.order_time.average(),
            self.consumption_time.average(),
            self.busy_tables.average(),
            self.free_workers.average(),
            Some(self.dispatched * SCALE),
            Some(self.not_dispatched * SCALE),
            Some(self.immediately_left * SCALE),
        ]
    }
}

/// What was drawn at random for one event: a duration, and the decision of a
/// client who has finished eating.
pub struct Draw {
    pub duration: u32,
    pub wants_more: bool,
}

/// What was drawn at random in one tick: whether a client arrived, and one
/// draw for every event of the queue, in the order in which they were handled.
pub struct Turn {
    pub arrival: bool,
    pub draws: Seq<Draw>,
}

impl State {
    /// `draw` is a draw that the configuration allows for the event at the
    /// head of the queue: a duration from the range that the event needs, a
    /// decision only where one is asked for, and nothing where nothing is
    /// needed.
    pub open spec fn allows(self, draw: Draw) -> bool
        recommends
            self.events.len() > 0,
    {
        match self.need() {
            Need::Nothing => draw.duration == 0 && !draw.wants_more,
            Need::Patience => self.config.patience_time.contains(draw.duration)
                && !draw.wants_more,
            Need::Dancing => self.config.dancing_time.contains(draw.duration) && !draw.wants_more,
            Need::Production => self.config.production_time.contains(draw.duration)
                && !draw.wants_more,
            Need::Consumption => self.config.consumption_time.contains(draw.duration)
                && !draw.wants_more,
            Need::Appetite => {
                &&& self.config.repeat_ratio.is_certain() ==> draw.wants_more
                &&& self.config.repeat_ratio.is_impossible() ==> !draw.wants_more
                &&& if draw.wants_more {
                    self.config.repeat_patience_time.contains(draw.duration)
                } else {
                    draw.duration == 0
                }
            },
        }
    }

    /// The state after the first events of the queue are handled, one for
    /// each of `draws`.
    pub open spec fn drain(self, draws: Seq<Draw>) -> State
        decreases draws.len(),
    {
        if draws.len() == 0 {
            self
        } else {
            self.drain(draws.drop_last()).step(draws.last().duration, draws.last().wants_more)
        }
    }

    /// Each of `draws` is allowed for the event that it is used for.
    pub open spec fn allows_all(self, draws: Seq<Draw>) -> bool
        decreases draws.len(),
    {
        if draws.len() == 0 {
            true
        } else {
            self.allows_all(draws.drop_last()) && self.drain(draws.drop_last()).allows(
                draws.last(),
            )
        }
    }

    /// `after` is the state in which the tick ends when the events of the
    /// queue are handled with `draws`, which the configuration allows.
    pub open spec fn handled(self, draws: Seq<Draw>, after: State) -> bool {
        &&& draws.len() == self.events.len()
        &&& self.allows_all(draws)
        &&& after == self.drain(draws).close_tick()
    }

    /// The state after the arrival of the tick is decided.
    pub open spec fn begin(self, arrival: bool) -> State {
        if arrival {
            self.arrive()
        } else {
            self
        }
    }

    /// The state after one tick in which `turn` was drawn.
    pub open spec fn turn(self, turn: Turn) -> State {
        self.begin(turn.arrival).drain(turn.draws).close_tick()
    }

    /// `turn` is a turn that the configuration allows in this state: a
    /// client arrives if that is certain and does not if it is impossible,
    /// and there is an allowed draw for every event of the queue.
    pub open spec fn permits(self, turn: Turn) -> bool {
        &&& self.config.client_ratio.is_certain() ==> turn.arrival
        &&& self.config.client_ratio.is_impossible() ==> !turn.arrival
        &&& turn.draws.len() == self.begin(turn.arrival).events.len()
        &&& self.begin(turn.arrival).allows_all(turn.draws)
    }

    /// The state after as many ticks as there are `turns`.
    pub open spec fn course(self, turns: Seq<Turn>) -> State
        decreases turns.len(),
    {
        if turns.len() == 0 {
            self
        } else {
            self.course(turns.drop_last()).turn(turns.last())
        }
    }

    /// Each of `turns` is allowed in the state that it is drawn in.
    pub open spec fn permits_all(self, turns: Seq<Turn>) -> bool
        decreases turns.len(),
    {
        if turns.len() == 0 {
            true
        } else {
            self.permits_all(turns.drop_last()) && self.course(turns.drop_last()).permits(
                turns.last(),
            )
        }
    }

    /// `after` is the state in which a run ends whose ticks went as `turns`
    /// says, one allowed turn for each tick of the horizon.
    pub open spec fn ran(self, turns: Seq<Turn>, after: State) -> bool {
        &&& turns.len() == self.config.max_time
        &&& self.permits_all(turns)
        &&& after == self.course(turns)
    }
}

/// The two queues of a well-formed state are bounded by the tables: the
/// queue of the current tick holds at most one event more than there are
/// tables, the queue of the next tick holds only seated clients.
pub proof fn lemma_queue_lengths(s: State)
    requires
        s.wf(),
    ensures
        s.events.len() == arrivals(s.events) + occupancy(s.events),
        s.pending.len() == occupancy(s.pending),
        s.events.len() + s.pending.len() <= s.config.tables + 1,
        s.available_tables <= s.config.tables,
        s.available_workers <= s.config.workers,
{
    lemma_arrivals_and_occupancy(s.events);
    lemma_arrivals_and_occupancy(s.pending);
}

/// How the three counts of the queue of the current tick change when its head
/// is taken away.
pub proof fn lemma_head_counts(queue: Seq<Event>)
    requires
        queue.len() > 0,
    ensures
        occupancy(queue) == occupancy(queue.subrange(1, queue.len() as int)) + if queue[0]
            is Enter {
            0nat
        } else {
            1nat
        },
        engaged(queue) == engaged(queue.subrange(1, queue.len() as int)) + if queue[0]
            is WorkerWalkingDance {
            1nat
        } else {
            0nat
        },
        arrivals(queue) == arrivals(queue.subrange(1, queue.len() as int)) + if queue[0]
            is Enter {
            1nat
        } else {
            0nat
        },
{
    lemma_count_pop_front(queue, |e: Event| e.holds_table());
    lemma_count_pop_front(queue, |e: Event| e.holds_worker());
    lemma_count_pop_front(queue, |e: Event| e.is_arrival());
}

/// How the three counts of a queue change when an event joins at its back.
pub proof fn lemma_back_counts(queue: Seq<Event>, event: Event)
    ensures
        occupancy(queue.push(event)) == occupancy(queue) + if event is Enter {
            0nat
        } else {
            1nat
        },
        engaged(queue.push(event)) == engaged(queue) + if event is WorkerWalkingDance {
            1nat
        } else {
            0nat
        },
        arrivals(queue.push(event)) == arrivals(queue) + if event is Enter {
            1nat
        } else {
            0nat
        },
{
    lemma_count_push(queue, |e: Event| e.holds_table(), event);
    lemma_count_push(queue, |e: Event| e.holds_worker(), event);
    lemma_count_push(queue, |e: Event| e.is_arrival(), event);
}

/// How the three counts of a queue change when an event joins at its front.
pub proof fn lemma_front_counts(queue: Seq<Event>, event: Event)
    ensures
        occupancy(seq![event] + queue) == occupancy(queue) + if event is Enter {
            0nat
        } else {
            1nat
        },
        engaged(seq![event] + queue) == engaged(queue) + if event is WorkerWalkingDance {
            1nat
        } else {
            0nat
        },
        arrivals(seq![event] + queue) == arrivals(queue) + if event is Enter {
            1nat
        } else {
            0nat
        },
{
    let head = seq![event];
    assert(head.drop_last() =~= Seq::<Event>::empty());
    lemma_count_concat(head, queue, |e: Event| e.holds_table());
    lemma_count_concat(head, queue, |e: Event| e.holds_worker());
    lemma_count_concat(head, queue, |e: Event| e.is_arrival());
    assert(count_of(head.drop_last(), |e: Event| e.holds_table()) == 0);
    assert(count_of(head.drop_last(), |e: Event| e.holds_worker()) == 0);
    assert(count_of(head.drop_last(), |e: Event| e.is_arrival()) == 0);
}

/// Admissible events stay admissible when an admissible event joins at the
/// back or at the front, and when the head leaves.
pub proof fn lemma_admissible_moves(queue: Seq<Event>, event: Event, now: int)
    requires
        all_admissible(queue, now),
    ensures
        event.admissible(now) ==> all_admissible(queue.push(event), now),
        event.admissible(now) ==> all_admissible(seq![event] + queue, now),
        queue.len() > 0 ==> all_admissible(queue.subrange(1, queue.len() as int), now),
{
    if event.admissible(now) {
        let back = queue.push(event);
        assert forall|i: int| 0 <= i < back.len() implies (#[trigger] back[i]).admissible(now) by {
            if i < queue.len() {
                assert(back[i] == queue[i]);
            }
        }
        let front = seq![event] + queue;
        assert forall|i: int| 0 <= i < front.len() implies (#[trigger] front[i]).admissible(
            now,
        ) by {
            if i > 0 {
                assert(front[i] == queue[i - 1]);
            }
        }
    }
    if queue.len() > 0 {
        let tail = queue.subrange(1, queue.len() as int);
        assert forall|i: int| 0 <= i < tail.len() implies (#[trigger] tail[i]).admissible(now) by {
            assert(tail[i] == queue[i + 1]);
        }
    }
}

/// Handling an event keeps the invariant: in particular no table and no
/// worker is lost or counted twice, and the free workers never exceed the
/// configured workers.
pub proof fn lemma_step_keeps_invariant(s: State, duration: u32, wants_more: bool)
    requires
        s.wf(),
        s.events.len() > 0,
        s.world_time + duration < u32::MAX,
    ensures
        s.step(duration, wants_more).wf(),
        s.step(duration, wants_more).config == s.config,
        s.step(duration, wants_more).world_time == s.world_time,
        s.step(duration, wants_more).events == s.events.subrange(1, s.events.len() as int),
        s.step(duration, wants_more).busy_tables == s.busy_tables,
        s.step(duration, wants_more).free_workers == s.free_workers,
{
    let t = s.step(duration, wants_more);
    let event = s.events[0];
    let now = s.world_time;
    let at = now as u32;
    let due = (now + duration) as u32;
    assert(event.admissible(now));
    lemma_head_counts(s.events);
    lemma_admissible_moves(s.events, event, now);
    lemma_admissible_moves(s.pending, event, now);
    lemma_admissible_moves(s.pending, Event::WaitingForWorker(at, due, true), now);
    lemma_admissible_moves(s.pending, Event::WaitingForWorker(at, due, false), now);
    lemma_admissible_moves(s.pending, Event::WorkerWalkingDance(due), now);
    lemma_admissible_moves(s.pending, Event::WaitingForFood(due), now);
    lemma_admissible_moves(s.pending, Event::ConsumeFood(due), now);
    lemma_back_counts(s.pending, event);
    lemma_back_counts(s.pending, Event::WaitingForWorker(at, due, true));
    lemma_back_counts(s.pending, Event::WaitingForWorker(at, due, false));
    lemma_back_counts(s.pending, Event::WorkerWalkingDance(due));
    lemma_back_counts(s.pending, Event::WaitingForFood(due));
    lemma_back_counts(s.pending, Event::ConsumeFood(due));
    lemma_front_counts(s.pending, event);
    assert(t.tables_conserved());
    assert(t.workers_conserved());
    assert(all_admissible(t.events, now));
    assert(all_admissible(t.pending, now));
    assert(t.waiting_time.sound());
    assert(t.order_time.sound());
    assert(t.consumption_time.sound());
}

/// The arrival of a client at an idle state keeps the invariant and leaves
/// the state between two ticks.
pub proof fn lemma_arrival_keeps_invariant(s: State)
    requires
        s.idle(),
        s.world_time < u32::MAX,
    ensures
        s.arrive().between_ticks(),
        arrivals(s.arrive().events) == 1,
{
    let event = Event::Enter(s.world_time as u32);
    lemma_back_counts(s.events, event);
    lemma_admissible_moves(s.events, event, s.world_time);
    lemma_queue_lengths(s);
    assert(s.world_time * tick_capacity() + s.events.len() + 1 <= (s.world_time + 1)
        * tick_capacity()) by (nonlinear_arith)
        requires
            s.events.len() + 1 <= tick_capacity(),
    ;
}

/// Closing a tick whose events are all handled keeps the invariant and
/// leaves the state idle at the next tick.
pub proof fn lemma_close_keeps_invariant(s: State)
    requires
        s.wf(),
        s.events.len() == 0,
        s.world_time < u32::MAX,
    ensures
        s.close_tick().idle(),
{
    let t = s.close_tick();
    lemma_queue_lengths(s);
    assert(occupancy(Seq::<Event>::empty()) == 0);
    assert(engaged(Seq::<Event>::empty()) == 0);
    assert(arrivals(Seq::<Event>::empty()) == 0);
    assert(s.events =~= Seq::<Event>::empty());
    assert forall|i: int| 0 <= i < t.events.len() implies (#[trigger] t.events[i]).admissible(
        t.world_time,
    ) by {
        assert(s.pending[i].admissible(s.world_time));
    }
    assert((s.world_time + 1) * tick_capacity() + tick_capacity() == (s.world_time + 2)
        * tick_capacity()) by (nonlinear_arith);
    assert(t.busy_tables.sound());
    assert(t.free_workers.sound());
    assert((s.busy_tables.count + 1) * s.config.tables == s.busy_tables.count * s.config.tables
        + s.config.tables) by (nonlinear_arith);
    assert((s.free_workers.count + 1) * s.config.workers == s.free_workers.count
        * s.config.workers + s.config.workers) by (nonlinear_arith);
}

/// The average number of busy tables is at most the number of tables, and
/// the average number of free workers at most the number of workers.
pub proof fn lemma_occupancy_within_capacity(s: State)
    requires
        s.wf(),
    ensures
        s.busy_tables.count > 0 ==> 0 <= s.busy_tables.average().unwrap() <= s.config.tables
            * SCALE,
        s.free_workers.count > 0 ==> 0 <= s.free_workers.average().unwrap() <= s.config.workers
            * SCALE,
{
    lemma_average_bound(s.busy_tables, s.config.tables as int);
    lemma_average_bound(s.free_workers, s.config.workers as int);
}

/// The average of observations that are at most `limit` each is at most
/// `limit`.
pub proof fn lemma_average_bound(total: Total, limit: int)
    requires
        0 <= total.sum <= total.count * limit,
        0 <= limit,
    ensures
        total.count > 0 ==> 0 <= total.average().unwrap() <= limit * SCALE,
{
    if total.count > 0 {
        let scale = SCALE as int;
        let sum = total.sum;
        let count = total.count;
        assert(sum * scale <= (limit * scale) * count && 0 <= sum * scale) by (nonlinear_arith)
            requires
                0 <= sum <= count * limit,
                scale == 1_000_000,
        ;
        assert((sum * scale) / count <= limit * scale && 0 <= (sum * scale) / count) by (
            nonlinear_arith)
            requires
                0 <= sum * scale <= (limit * scale) * count,
                count > 0,
        ;
    }
}

/// A new simulation is idle.
pub proof fn lemma_initial_is_idle(config: SimulationConfig)
    requires
        config.well_formed(),
    ensures
        State::initial(config).idle(),
{
    assert(occupancy(Seq::<Event>::empty()) == 0);
    assert(engaged(Seq::<Event>::empty()) == 0);
    assert(arrivals(Seq::<Event>::empty()) == 0);
}

/// Resetting the metrics of an idle state leaves it idle.
pub proof fn lemma_reset_keeps_idle(s: State)
    requires
        s.idle(),
    ensures
        s.reset().idle(),
{
    lemma_queue_lengths(s);
    assert(s.world_time * tick_capacity() >= 0) by (nonlinear_arith)
        requires
            s.world_time >= 0,
    ;
    assert(0 * s.config.tables == 0 && 0 * s.config.workers == 0);
}

/// An allowed draw is shorter than the longest delay of the configuration.
pub proof fn lemma_allowed_draw_is_short(s: State, draw: Draw)
    requires
        s.config.well_formed(),
        s.allows(draw),
    ensures
        draw.duration < s.config.longest_delay(),
{
}

/// Handling events with allowed draws keeps the invariant and takes the
/// handled events from the head of the queue.
pub proof fn lemma_drain_keeps_invariant(s: State, draws: Seq<Draw>)
    requires
        s.wf(),
        draws.len() <= s.events.len(),
        s.allows_all(draws),
        s.world_time + s.config.longest_delay() <= u32::MAX,
    ensures
        s.drain(draws).wf(),
        s.drain(draws).config == s.config,
        s.drain(draws).world_time == s.world_time,
        s.drain(draws).events == s.events.subrange(draws.len() as int, s.events.len() as int),
    decreases draws.len(),
{
    if draws.len() == 0 {
        assert(s.events.subrange(0, s.events.len() as int) =~= s.events);
    } else {
        let earlier = s.drain(draws.drop_last());
        lemma_drain_keeps_invariant(s, draws.drop_last());
        lemma_allowed_draw_is_short(earlier, draws.last());
        lemma_step_keeps_invariant(earlier, draws.last().duration, draws.last().wants_more);
        assert(earlier.events.subrange(1, earlier.events.len() as int) =~= s.events.subrange(
            draws.len() as int,
            s.events.len() as int,
        ));
    }
}

/// One allowed turn takes an idle state to an idle state at the next tick.
pub proof fn lemma_turn_keeps_idle(s: State, turn: Turn)
    requires
        s.idle(),
        s.permits(turn),
        s.world_time + s.config.longest_delay() <= u32::MAX,
    ensures
        s.turn(turn).idle(),
        s.turn(turn).config == s.config,
        s.turn(turn).world_time == s.world_time + 1,
{
    assert(s.config.longest_delay() >= s.config.production_time.end);
    let started = s.begin(turn.arrival);
    if turn.arrival {
        lemma_arrival_keeps_invariant(s);
    }
    lemma_drain_keeps_invariant(started, turn.draws);
    lemma_close_keeps_invariant(started.drain(turn.draws));
}

/// In every tick of every allowed course that starts between two ticks, no
/// table and no worker is lost or counted twice: the free tables and the
/// tables of the clients in the queue make up the configured tables, the
/// free workers and the busy ones make up the configured workers, and so the
/// free workers never exceed the configured workers.
pub proof fn lemma_course_keeps_idle(s: State, turns: Seq<Turn>)
    requires
        s.idle(),
        s.permits_all(turns),
        s.world_time + turns.len() + s.config.longest_delay() <= u32::MAX + 1,
    ensures
        s.course(turns).idle(),
        s.course(turns).config == s.config,
        s.course(turns).world_time == s.world_time + turns.len(),
        s.course(turns).tables_conserved(),
        s.course(turns).workers_conserved(),
        s.course(turns).available_tables + occupancy(s.course(turns).events) == s.config.tables,
        s.course(turns).available_workers <= s.config.workers,
    decreases turns.len(),
{
    if turns.len() > 0 {
        lemma_course_keeps_idle(s, turns.drop_last());
        lemma_turn_keeps_idle(s.course(turns.drop_last()), turns.last());
    }
    lemma_queue_lengths(s.course(turns));
    assert(occupancy(Seq::<Event>::empty()) == 0);
    assert(s.course(turns).pending =~= Seq::<Event>::empty());
}

/// Where there is no table and a client arrives in every tick, every client
/// is turned away at once: after any number of ticks the clients turned away
/// are as many more as there were ticks.
pub proof fn lemma_no_table_turns_all_away(s: State, turns: Seq<Turn>)
    requires
        s.idle(),
        s.permits_all(turns),
        s.world_time + turns.len() + s.config.longest_delay() <= u32::MAX + 1,
        s.config.tables == 0,
        s.config.client_ratio.is_certain(),
    ensures
        s.course(turns).immediately_left == s.immediately_left + turns.len(),
        s.course(turns).events.len() == 0,
        s.course(turns).dispatched == s.dispatched,
    decreases turns.len(),
{
    lemma_queue_lengths(s);
    if turns.len() > 0 {
        let earlier = s.course(turns.drop_last());
        let turn = turns.last();
        lemma_no_table_turns_all_away(s, turns.drop_last());
        lemma_course_keeps_idle(s, turns.drop_last());
        lemma_arrival_keeps_invariant(earlier);
        let started = earlier.begin(turn.arrival);
        assert(started.events =~= seq![Event::Enter(earlier.world_time as u32)]);
        assert(turn.draws.len() == 1);
        assert(turn.draws.drop_last() =~= Seq::<Draw>::empty());
        assert(started.drain(turn.draws.drop_last()) == started);
        lemma_queue_lengths(started);
        assert(started.events.subrange(1, 1) =~= Seq::<Event>::empty());
    }
}

} // verus!
