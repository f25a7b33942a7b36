use crate::results::{is_record, lemma_sum_associates, quotient_of, sum_of, Results};
use vstd::prelude::*;

verus! {

/// The time series of one run: one snapshot of the measures after every tick.
///
/// The position of a snapshot is its tick offset from the start of the run.
#[derive(Clone, Debug, PartialEq, Eq)]
pub struct Log {
    pub entries: Vec<Results>,
}

/// The longer of two lengths.
pub open spec fn longer(a: nat, b: nat) -> nat {
    if a >= b {
        a
    } else {
        b
    }
}

/// The sum of two series, snapshot by snapshot at equal tick offsets. Where
/// only one series has a snapshot, that snapshot stands.
pub open spec fn series_sum(a: Seq<Seq<Option<int>>>, b: Seq<Seq<Option<int>>>) -> Seq<
    Seq<Option<int>>,
> {
    Seq::new(
        longer(a.len(), b.len()),
        |i: int|
            if i < a.len() && i < b.len() {
                sum_of(a[i], b[i])
            } else if i < a.len() {
                a[i]
            } else {
                b[i]
            },
    )
}

/// A series with every measure of every snapshot divided by `n`.
pub open spec fn series_quotient(a: Seq<Seq<Option<int>>>, n: int) -> Seq<Seq<Option<int>>> {
    Seq::new(a.len(), |i: int| quotient_of(a[i], n))
}

/// Every snapshot of the series is a record of measures in range.
pub open spec fn is_series(a: Seq<Seq<Option<int>>>) -> bool {
    forall|i: int| 0 <= i < a.len() ==> is_record(#[trigger] a[i])
}

impl View for Log {
    type V = Seq<Seq<Option<int>>>;

    /// The measures of the snapshots, in the order of their tick offsets.
    open spec fn view(&self) -> Seq<Seq<Option<int>>> {
        Seq::new(self.entries@.len(), |i: int| self.entries@[i]@)
    }
}

impl Log {
    /// The series without snapshots.
    pub fn empty() -> (log: Log)
        ensures
            log@ == Seq::<Seq<Option<int>>>::empty(),
            log.entries@.len() == 0,
    {
        let log = Log { entries: Vec::new() };
        assert(log@ =~= Seq::<Seq<Option<int>>>::empty());
        log
    }

    /// The number of snapshots.
    pub fn len(&self) -> (n: usize)
        ensures
            n == self@.len(),
    {
        self.entries.len()
    }

    /// The snapshot at tick offset `tick`, if the series reaches that far.
    pub fn snapshot(&self, tick: u32) -> (found: Option<Results>)
        ensures
            tick < self@.len() ==> found == Some(self.entries@[tick as int]),
            tick >= self@.len() ==> found is None,
    {
        if (tick as usize) < self.entries.len() {
            Some(self.entries[tick as usize])
        } else {
            None
        }
    }

    /// Records `results` as the snapshot at tick offset `tick`. Snapshots are
    /// taken one per tick: the snapshot is accepted when `tick` is the next
    /// offset, and otherwise the series stays as it is.
    pub fn append(&mut self, tick: u32, results: Results) -> (accepted: bool)
        ensures
            accepted == (tick == old(self)@.len()),
            accepted ==> final(self).entries@ == old(self).entries@.push(results),
            accepted ==> final(self)@ == old(self)@.push(results@),
            !accepted ==> *final(self) == *old(self),
    {
        if tick as usize == self.entries.len() {
            self.entries.push(results);
            assert(self@ =~= old(self)@.push(results@));
            true
        } else {
            false
        }
    }

    /// Adds `other` to this series, snapshot by snapshot at equal tick
    /// offsets; beyond the end of the shorter series the snapshots of the
    /// longer one stand.
    pub fn add_mut(&mut self, other: Log)
        ensures
            final(self)@ == series_sum(old(self)@, other@),
    {
        self.add_ref(&other);
    }

    /// Adds `other` to this series as `add_mut` does, leaving `other` to the
    /// caller.
    pub fn add_ref(&mut self, other: &Log)
        ensures
            final(self)@ == series_sum(old(self)@, other@),
    {
        let ghost before = self@;
        let ghost target = series_sum(before, other@);
        let mut i: usize = 0;
        while i < other.entries.len()
            invariant
                i <= other.entries@.len(),
                before == old(self)@,
                target == series_sum(before, other@),
                self@.len() == longer(before.len(), i as nat),
                forall|j: int| 0 <= j < i ==> self@[j] == target[j],
                forall|j: int| i <= j < before.len() ==> self@[j] == before[j],
            decreases other.entries@.len() - i,
        {
            let addend = other.entries[i];
            assert(other@[i as int] == addend@);
            if i < self.entries.len() {
                let mut snapshot = self.entries[i];
                let ghost earlier = self@;
                assert(earlier[i as int] == snapshot@);
                snapshot.add_mut(addend);
                self.entries.set(i, snapshot);
                assert(self@[i as int] == snapshot@);
                assert forall|j: int| 0 <= j < i implies self@[j] == target[j] by {
                    assert(self@[j] == earlier[j]);
                }
                assert forall|j: int| i + 1 <= j < before.len() implies self@[j] == before[j] by {
                    assert(self@[j] == earlier[j]);
                }
            } else {
                let ghost earlier = self@;
                self.entries.push(addend);
                assert(self@[i as int] == addend@);
                assert forall|j: int| 0 <= j < i implies self@[j] == target[j] by {
                    assert(self@[j] == earlier[j]);
                }
            }
            i = i + 1;
        }
        assert(self@ =~= target);
    }

    /// Divides every measure of every snapshot by `n`, which turns the sum of
    /// `n` series into their mean.
    pub fn norm_mut(&mut self, n: usize)
        ensures
            final(self)@ == series_quotient(old(self)@, n as int),
    {
        let ghost before = self@;
        let mut i: usize = 0;
        while i < self.entries.len()
            invariant
                i <= self.entries@.len(),
                before == old(self)@,
                self@.len() == before.len(),
                forall|j: int| 0 <= j < i ==> self@[j] == quotient_of(before[j], n as int),
                forall|j: int| i <= j < before.len() ==> self@[j] == before[j],
            decreases self.entries@.len() - i,
        {
            let mut snapshot = self.entries[i];
            let ghost earlier = self@;
            assert(earlier[i as int] == snapshot@);
            snapshot.norm_mut(n);
            self.entries.set(i, snapshot);
            assert(self@[i as int] == snapshot@);
            assert forall|j: int| 0 <= j < i implies self@[j] == quotient_of(
                before[j],
                n as int,
            ) by {
                assert(self@[j] == earlier[j]);
            }
            assert forall|j: int| i + 1 <= j < before.len() implies self@[j] == before[j] by {
                assert(self@[j] == earlier[j]);
            }
            i = i + 1;
        }
        assert(self@ =~= series_quotient(before, n as int));
    }

    /// The snapshots of every series are records of measures in range.
    pub proof fn lemma_is_series(self)
        ensures
            is_series(self@),
    {
        assert forall|i: int| 0 <= i < self@.len() implies is_record(#[trigger] self@[i]) by {
            self.entries@[i].lemma_is_record();
        }
    }
}

/// Aggregation of series is associative: adding three series gives the same
/// series in either grouping, and so does the mean that follows.
pub proof fn lemma_series_sum_associates(
    a: Seq<Seq<Option<int>>>,
    b: Seq<Seq<Option<int>>>,
    c: Seq<Seq<Option<int>>>,
    n: int,
)
    requires
        is_series(a),
        is_series(b),
        is_series(c),
    ensures
        series_sum(series_sum(a, b), c) == series_sum(a, series_sum(b, c)),
        series_quotient(series_sum(series_sum(a, b), c), n) == series_quotient(
            series_sum(a, series_sum(b, c)),
            n,
        ),
{
    let left = series_sum(series_sum(a, b), c);
    let right = series_sum(a, series_sum(b, c));
    assert(left.len() == right.len());
    assert forall|i: int| 0 <= i < left.len() implies left[i] == right[i] by {
        if i < a.len() {
            assert(is_record(a[i]));
        }
        if i < b.len() {
            assert(is_record(b[i]));
        }
        if i < c.len() {
            assert(is_record(c[i]));
        }
        if i < a.len() && i < b.len() && i < c.len() {
            lemma_sum_associates(a[i], b[i], c[i]);
        }
    }
    assert(left =~= right);
}

/// Aggregation of series does not depend on the order of the two series.
pub proof fn lemma_series_sum_commutes(a: Seq<Seq<Option<int>>>, b: Seq<Seq<Option<int>>>)
    requires
        is_series(a),
        is_series(b),
    ensures
        series_sum(a, b) == series_sum(b, a),
{
    let left = series_sum(a, b);
    let right = series_sum(b, a);
    assert forall|i: int| 0 <= i < left.len() implies left[i] == right[i] by {
        if i < a.len() && i < b.len() {
            assert(is_record(a[i]));
            assert(is_record(b[i]));
            crate::results::lemma_sum_commutes(a[i], b[i]);
        }
    }
    assert(left =~= right);
}

} // verus!
