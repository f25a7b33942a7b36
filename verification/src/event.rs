use vstd::prelude::*;

verus! {

/// A point on the simulation clock.
pub type SimulationTick = u32;

/// A transition of one client or worker that is waiting in the event queue.
///
/// Every variant carries absolute ticks that were fixed when the event was
/// queued.
#[derive(Clone, Copy, Debug, PartialEq, Eq, Structural)]
pub enum Event {
    /// A client arrived at the given tick.
    Enter(SimulationTick),
    /// A seated client waits for a worker since the first tick and gives up at
    /// the second; the flag tells a first wait from a repeated order.
    WaitingForWorker(SimulationTick, SimulationTick, bool),
    /// A worker who took an order is unavailable until the given tick.
    WorkerWalkingDance(SimulationTick),
    /// An order is being prepared and is ready at the given tick.
    WaitingForFood(SimulationTick),
    /// A client eats until the given tick.
    ConsumeFood(SimulationTick),
}

impl Event {
    /// The event stands for a client who sits at a table.
    pub open spec fn holds_table(self) -> bool {
        !(self is Enter)
    }

    /// The event stands for a worker who is not available.
    pub open spec fn holds_worker(self) -> bool {
        self is WorkerWalkingDance
    }

    /// The event is an arrival.
    pub open spec fn is_arrival(self) -> bool {
        self is Enter
    }

    /// The ticks the event carries are consistent at tick `now`: a wait began
    /// no later than `now` and no later than its own deadline.
    pub open spec fn admissible(self, now: int) -> bool {
        match self {
            Event::WaitingForWorker(start, deadline, _) => start <= deadline && start <= now,
            _ => true,
        }
    }
}

/// How many events of `queue` satisfy `pick`.
pub open spec fn count_of(queue: Seq<Event>, pick: spec_fn(Event) -> bool) -> nat
    decreases queue.len(),
{
    if queue.len() == 0 {
        0
    } else {
        count_of(queue.drop_last(), pick) + if pick(queue.last()) {
            1nat
        } else {
            0nat
        }
    }
}

/// The number of tables that the clients in `queue` occupy.
pub open spec fn occupancy(queue: Seq<Event>) -> nat {
    count_of(queue, |e: Event| e.holds_table())
}

/// The number of workers that the events in `queue` keep busy.
pub open spec fn engaged(queue: Seq<Event>) -> nat {
    count_of(queue, |e: Event| e.holds_worker())
}

/// The number of arrivals in `queue`.
pub open spec fn arrivals(queue: Seq<Event>) -> nat {
    count_of(queue, |e: Event| e.is_arrival())
}

/// Appending one event adds it to the count if it is picked.
pub proof fn lemma_count_push(queue: Seq<Event>, pick: spec_fn(Event) -> bool, event: Event)
    ensures
        count_of(queue.push(event), pick) == count_of(queue, pick) + if pick(event) {
            1nat
        } else {
            0nat
        },
{
    assert(queue.push(event).drop_last() =~= queue);
}

/// Counting distributes over concatenation.
pub proof fn lemma_count_concat(a: Seq<Event>, b: Seq<Event>, pick: spec_fn(Event) -> bool)
    ensures
        count_of(a + b, pick) == count_of(a, pick) + count_of(b, pick),
    decreases b.len(),
{
    if b.len() == 0 {
        assert(a + b =~= a);
    } else {
        lemma_count_concat(a, b.drop_last(), pick);
        assert((a + b).drop_last() =~= a + b.drop_last());
    }
}

/// Taking the first event away removes it from the count if it was picked.
pub proof fn lemma_count_pop_front(queue: Seq<Event>, pick: spec_fn(Event) -> bool)
    requires
        queue.len() > 0,
    ensures
        count_of(queue, pick) == count_of(queue.subrange(1, queue.len() as int), pick) + if pick(
            queue[0],
        ) {
            1nat
        } else {
            0nat
        },
{
    let head = seq![queue[0]];
    let rest = queue.subrange(1, queue.len() as int);
    assert(queue =~= head + rest);
    lemma_count_concat(head, rest, pick);
    assert(head.drop_last() =~= Seq::<Event>::empty());
    assert(count_of(head.drop_last(), pick) == 0);
}

/// Every event is either an arrival or a seated client, so the two counts make
/// up the length of the queue.
pub proof fn lemma_arrivals_and_occupancy(queue: Seq<Event>)
    ensures
        arrivals(queue) + occupancy(queue) == queue.len(),
    decreases queue.len(),
{
    if queue.len() > 0 {
        lemma_arrivals_and_occupancy(queue.drop_last());
    }
}

} // verus!
