use vstd::prelude::*;

verus! {

/// The fixed-point unit: a measure `m` stands for the number `m / SCALE`.
pub const SCALE: u128 = 1_000_000;

/// The number of measures in a [`Results`] record.
pub open spec fn width() -> nat {
    8
}

/// The aggregate measures of one run, or the mean of the measures of several.
///
/// Every measure is a fixed-point number in units of `1 / SCALE`; `None` is a
/// measure that is not defined: the average of no observations, a quotient by
/// zero, or a sum beyond the 128-bit range.
#[derive(Clone, Copy, Debug, PartialEq, Eq)]
pub struct Results {
    pub average_worker_waiting_time: Option<u128>,
    pub average_order_time: Option<u128>,
    pub average_consumption_time: Option<u128>,
    pub average_busy_tables: Option<u128>,
    pub average_free_workers: Option<u128>,
    pub dispatched_clients: Option<u128>,
    pub not_dispatched_clients: Option<u128>,
    pub immediately_left_clients_count: Option<u128>,
}

/// The name of one of the measures of a [`Results`] record.
#[derive(Clone, Copy, Debug, PartialEq, Eq, Structural)]
pub enum Measure {
    WorkerWaitingTime,
    OrderTime,
    ConsumptionTime,
    BusyTables,
    FreeWorkers,
    DispatchedClients,
    NotDispatchedClients,
    ImmediatelyLeftClients,
}

impl Measure {
    /// The position of the measure in the view of a record.
    pub open spec fn position(self) -> int {
        match self {
            Measure::WorkerWaitingTime => 0,
            Measure::OrderTime => 1,
            Measure::ConsumptionTime => 2,
            Measure::BusyTables => 3,
            Measure::FreeWorkers => 4,
            Measure::DispatchedClients => 5,
            Measure::NotDispatchedClients => 6,
            Measure::ImmediatelyLeftClients => 7,
        }
    }
}

/// A measure as a mathematical integer.
pub open spec fn lift(measure: Option<u128>) -> Option<int> {
    match measure {
        Some(value) => Some(value as int),
        None => None,
    }
}

/// A measure is a natural number within the 128-bit range, or undefined.
pub open spec fn in_range(measure: Option<int>) -> bool {
    match measure {
        Some(value) => 0 <= value <= u128::MAX,
        None => true,
    }
}

/// The sum of two measures: undefined if either is, or if it leaves the
/// 128-bit range.
pub open spec fn measure_sum(a: Option<int>, b: Option<int>) -> Option<int> {
    match (a, b) {
        (Some(x), Some(y)) => if x + y <= u128::MAX {
            Some(x + y)
        } else {
            None
        },
        _ => None,
    }
}

/// A measure divided by `n`, rounded down: undefined if the measure is, or if
/// `n` is zero.
pub open spec fn measure_quotient(a: Option<int>, n: int) -> Option<int> {
    match a {
        Some(x) => if n > 0 {
            Some(x / n)
        } else {
            None
        },
        None => None,
    }
}

/// The measure-wise sum of two records.
pub open spec fn sum_of(a: Seq<Option<int>>, b: Seq<Option<int>>) -> Seq<Option<int>> {
    Seq::new(a.len(), |i: int| measure_sum(a[i], b[i]))
}

/// A record with every measure divided by `n`.
pub open spec fn quotient_of(a: Seq<Option<int>>, n: int) -> Seq<Option<int>> {
    Seq::new(a.len(), |i: int| measure_quotient(a[i], n))
}

/// The record whose measures are all zero.
pub open spec fn zero_measures() -> Seq<Option<int>> {
    Seq::new(width(), |i: int| Some(0int))
}

/// A record of `width()` measures, each in range.
pub open spec fn is_record(a: Seq<Option<int>>) -> bool {
    &&& a.len() == width()
    &&& forall|i: int| 0 <= i < a.len() ==> in_range(#[trigger] a[i])
}

/// The sum of `copies` copies of `a`, accumulated from zero one copy at a time.
pub open spec fn repeated_sum(a: Seq<Option<int>>, copies: nat) -> Seq<Option<int>>
    decreases copies,
{
    if copies == 0 {
        zero_measures()
    } else {
        sum_of(repeated_sum(a, (copies - 1) as nat), a)
    }
}

impl View for Results {
    type V = Seq<Option<int>>;

    /// The eight measures in the order of the fields.
    open spec fn view(&self) -> Seq<Option<int>> {
        seq![
            lift(self.average_worker_waiting_time),
            lift(self.average_order_time),
            lift(self.average_consumption_time),
            lift(self.average_busy_tables),
            lift(self.average_free_workers),
            lift(self.dispatched_clients),
            lift(self.not_dispatched_clients),
            lift(self.immediately_left_clients_count),
        ]
    }
}

/// Adds two measures.
pub fn add_measures(a: Option<u128>, b: Option<u128>) -> (sum: Option<u128>)
    ensures
        lift(sum) == measure_sum(lift(a), lift(b)),
{
    match (a, b) {
        (Some(x), Some(y)) => x.checked_add(y),
        _ => None,
    }
}

/// Divides a measure by `n`, rounding down.
pub fn divide_measure(a: Option<u128>, n: usize) -> (quotient: Option<u128>)
    ensures
        lift(quotient) == measure_quotient(lift(a), n as int),
{
    match a {
        Some(x) => if n > 0 {
            Some(x / (n as u128))
        } else {
            None
        },
        None => None,
    }
}

impl Results {
    /// The record whose measures are all zero.
    pub fn zeros() -> (results: Results)
        ensures
            results@ == zero_measures(),
    {
        let results = Results {
            average_worker_waiting_time: Some(0),
            average_order_time: Some(0),
            average_consumption_time: Some(0),
            average_busy_tables: Some(0),
            average_free_workers: Some(0),
            dispatched_clients: Some(0),
            not_dispatched_clients: Some(0),
            immediately_left_clients_count: Some(0),
        };
        assert(results@ =~= zero_measures());
        results
    }

    /// Adds `other` to this record, measure by measure.
    pub fn add_mut(&mut self, other: Results)
        ensures
            final(self)@ == sum_of(old(self)@, other@),
    {
        self.average_worker_waiting_time = add_measures(
            self.average_worker_waiting_time,
            other.average_worker_waiting_time,
        );
        self.average_order_time = add_measures(self.average_order_time, other.average_order_time);
        self.average_consumption_time = add_measures(
            self.average_consumption_time,
            other.average_consumption_time,
        );
        self.average_busy_tables = add_measures(
            self.average_busy_tables,
            other.average_busy_tables,
        );
        self.average_free_workers = add_measures(
            self.average_free_workers,
            other.average_free_workers,
        );
        self.dispatched_clients = add_measures(self.dispatched_clients, other.dispatched_clients);
        self.not_dispatched_clients = add_measures(
            self.not_dispatched_clients,
            other.not_dispatched_clients,
        );
        self.immediately_left_clients_count = add_measures(
            self.immediately_left_clients_count,
            other.immediately_left_clients_count,
        );
        assert(self@ =~= sum_of(old(self)@, other@));
    }

    /// Divides every measure by `n`, which turns the sum of `n` records into
    /// their mean.
    pub fn norm_mut(&mut self, n: usize)
        ensures
            final(self)@ == quotient_of(old(self)@, n as int),
    {
        self.average_worker_waiting_time = divide_measure(self.average_worker_waiting_time, n);
        self.average_order_time = divide_measure(self.average_order_time, n);
        self.average_consumption_time = divide_measure(self.average_consumption_time, n);
        self.average_busy_tables = divide_measure(self.average_busy_tables, n);
        self.average_free_workers = divide_measure(self.average_free_workers, n);
        self.dispatched_clients = divide_measure(self.dispatched_clients, n);
        self.not_dispatched_clients = divide_measure(self.not_dispatched_clients, n);
        self.immediately_left_clients_count = divide_measure(
            self.immediately_left_clients_count,
            n,
        );
        assert(self@ =~= quotient_of(old(self)@, n as int));
    }

    /// The measure named `which`.
    pub open spec fn pick(self, which: Measure) -> Option<u128> {
        match which {
            Measure::WorkerWaitingTime => self.average_worker_waiting_time,
            Measure::OrderTime => self.average_order_time,
            Measure::ConsumptionTime => self.average_consumption_time,
            Measure::BusyTables => self.average_busy_tables,
            Measure::FreeWorkers => self.average_free_workers,
            Measure::DispatchedClients => self.dispatched_clients,
            Measure::NotDispatchedClients => self.not_dispatched_clients,
            Measure::ImmediatelyLeftClients => self.immediately_left_clients_count,
        }
    }

    /// The measure named `which`.
    pub fn measure(&self, which: Measure) -> (value: Option<u128>)
        ensures
            value == self.pick(which),
            lift(value) == self@[which.position()],
    {
        match which {
            Measure::WorkerWaitingTime => self.average_worker_waiting_time,
            Measure::OrderTime => self.average_order_time,
            Measure::ConsumptionTime => self.average_consumption_time,
            Measure::BusyTables => self.average_busy_tables,
            Measure::FreeWorkers => self.average_free_workers,
            Measure::DispatchedClients => self.dispatched_clients,
            Measure::NotDispatchedClients => self.not_dispatched_clients,
            Measure::ImmediatelyLeftClients => self.immediately_left_clients_count,
        }
    }

    /// The measures of every record are in range.
    pub proof fn lemma_is_record(self)
        ensures
            is_record(self@),
    {
    }
}

/// Adding measures does not depend on their order.
pub proof fn lemma_sum_commutes(a: Seq<Option<int>>, b: Seq<Option<int>>)
    requires
        a.len() == b.len(),
    ensures
        sum_of(a, b) == sum_of(b, a),
{
    assert(sum_of(a, b) =~= sum_of(b, a));
}

/// Adding three records gives the same result in either grouping.
pub proof fn lemma_sum_associates(
    a: Seq<Option<int>>,
    b: Seq<Option<int>>,
    c: Seq<Option<int>>,
)
    requires
        a.len() == b.len(),
        b.len() == c.len(),
        forall|i: int| 0 <= i < a.len() ==> in_range(#[trigger] a[i]),
        forall|i: int| 0 <= i < b.len() ==> in_range(#[trigger] b[i]),
        forall|i: int| 0 <= i < c.len() ==> in_range(#[trigger] c[i]),
    ensures
        sum_of(sum_of(a, b), c) == sum_of(a, sum_of(b, c)),
{
    assert forall|i: int| 0 <= i < a.len() implies sum_of(sum_of(a, b), c)[i] == sum_of(
        a,
        sum_of(b, c),
    )[i] by {
        assert(in_range(a[i]) && in_range(b[i]) && in_range(c[i]));
    }
    assert(sum_of(sum_of(a, b), c) =~= sum_of(a, sum_of(b, c)));
}

/// Zero is neutral: adding a record to the zero record gives the record back.
pub proof fn lemma_sum_with_zero(a: Seq<Option<int>>)
    requires
        is_record(a),
    ensures
        sum_of(zero_measures(), a) == a,
        sum_of(a, zero_measures()) == a,
{
    assert forall|i: int| 0 <= i < a.len() implies sum_of(zero_measures(), a)[i] == a[i] by {
        assert(in_range(a[i]));
    }
    assert forall|i: int| 0 <= i < a.len() implies sum_of(a, zero_measures())[i] == a[i] by {
        assert(in_range(a[i]));
    }
    assert(sum_of(zero_measures(), a) =~= a);
    assert(sum_of(a, zero_measures()) =~= a);
}

/// The sum of `copies` copies of a record holds, for every defined measure
/// whose multiple stays in range, that multiple.
pub proof fn lemma_repeated_sum(a: Seq<Option<int>>, copies: nat, i: int)
    requires
        is_record(a),
        0 <= i < a.len(),
    ensures
        repeated_sum(a, copies).len() == a.len(),
        a[i] is None && copies > 0 ==> repeated_sum(a, copies)[i] is None,
        a[i] is Some && copies * a[i].unwrap() <= u128::MAX ==> repeated_sum(a, copies)[i]
            == Some(copies * a[i].unwrap()),
    decreases copies,
{
    assert(in_range(a[i]));
    if copies > 0 {
        let fewer = (copies - 1) as nat;
        lemma_repeated_sum(a, fewer, i);
        assert(repeated_sum(a, copies)[i] == measure_sum(repeated_sum(a, fewer)[i], a[i]));
        if a[i] is Some {
            let value = a[i].unwrap();
            assert(copies * value == fewer * value + value) by (nonlinear_arith)
                requires
                    copies == fewer + 1,
            ;
            assert(fewer * value >= 0) by (nonlinear_arith)
                requires
                    fewer >= 0,
                    value >= 0,
            ;
        }
    } else if a[i] is Some {
        assert(copies * a[i].unwrap() == 0) by (nonlinear_arith)
            requires
                copies == 0,
        ;
    }
}

/// The mean of identical samples is the sample: adding `copies` copies of a
/// record to the zero record and dividing by `copies` gives the record back
/// exactly, as long as there is at least one copy and no multiple leaves the
/// 128-bit range.
pub proof fn lemma_mean_of_copies(a: Seq<Option<int>>, copies: nat)
    requires
        is_record(a),
        copies >= 1,
        forall|i: int| 0 <= i < a.len() && a[i] is Some ==> copies * (#[trigger] a[i]).unwrap()
            <= u128::MAX,
    ensures
        quotient_of(repeated_sum(a, copies), copies as int) == a,
{
    let total = repeated_sum(a, copies);
    lemma_repeated_sum(a, copies, 0);
    assert forall|i: int| 0 <= i < a.len() implies measure_quotient(total[i], copies as int)
        == a[i] by {
        lemma_repeated_sum(a, copies, i);
        if a[i] is Some {
            let value = a[i].unwrap();
            assert((copies * value) / (copies as int) == value) by (nonlinear_arith)
                requires
                    copies >= 1,
            ;
        }
    }
    assert(quotient_of(total, copies as int) =~= a);
}

} // verus!
