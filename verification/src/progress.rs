//! The progress aggregator: one running total for all transfers.
//!
//! Every worker reports the length of each block it has moved. The
//! aggregator adds these byte counts up, one display update per event, until
//! the stream of events is closed.

use vstd::prelude::*;
use crate::chunking::sum_bytes;

verus! {

/// The figure behind the progress display: how many bytes are expected in
/// all, and how many have been reported as moved.
#[derive(Clone, Copy, Debug)]
pub struct AggregateProgress {
    total_expected_bytes: usize,
    bytes_completed_so_far: usize,
}

impl AggregateProgress {
    /// The number of bytes expected in all.
    pub closed spec fn spec_total_expected_bytes(&self) -> usize {
        self.total_expected_bytes
    }

    /// The number of bytes reported as moved so far.
    pub closed spec fn spec_bytes_completed_so_far(&self) -> usize {
        self.bytes_completed_so_far
    }

    /// Progress with `total` bytes expected and none moved.
    pub fn new(total: usize) -> (progress: AggregateProgress)
        ensures
            progress.spec_total_expected_bytes() == total,
            progress.spec_bytes_completed_so_far() == 0,
    {
        AggregateProgress { total_expected_bytes: total, bytes_completed_so_far: 0 }
    }

    /// The number of bytes expected in all.
    #[verifier::when_used_as_spec(spec_total_expected_bytes)]
    pub fn total_expected_bytes(&self) -> (total: usize)
        ensures
            total == self.spec_total_expected_bytes(),
    {
        self.total_expected_bytes
    }

    /// The number of bytes reported as moved so far.
    #[verifier::when_used_as_spec(spec_bytes_completed_so_far)]
    pub fn bytes_completed_so_far(&self) -> (completed: usize)
        ensures
            completed == self.spec_bytes_completed_so_far(),
    {
        self.bytes_completed_so_far
    }

    /// Whether exactly the expected number of bytes has been reported.
    pub fn is_complete(&self) -> (complete: bool)
        ensures
            complete <==> self.spec_bytes_completed_so_far() == self.spec_total_expected_bytes(),
    {
        self.bytes_completed_so_far == self.total_expected_bytes
    }

    /// Adds the byte count of one event to the running total.
    pub fn record(&mut self, bytes: usize)
        requires
            old(self).spec_bytes_completed_so_far() + bytes <= usize::MAX,
        ensures
            final(self).spec_bytes_completed_so_far() == old(self).spec_bytes_completed_so_far()
                + bytes,
            final(self).spec_total_expected_bytes() == old(self).spec_total_expected_bytes(),
    {
        self.bytes_completed_so_far = self.bytes_completed_so_far + bytes;
    }
}

/// Where the aggregator stands between two messages of the event stream.
#[derive(Clone, Copy, Debug, PartialEq, Eq, Structural)]
pub enum AggregatorState {
    /// Blocked on the stream, ready for the next event.
    Waiting,
    /// An event was added to the total; the display is being refreshed.
    Updating,
    /// The stream is closed. Nothing changes any more.
    Done,
}

/// The aggregator: the progress figure and the state of its drain loop.
#[derive(Clone, Copy, Debug)]
pub struct ProgressAggregator {
    progress: AggregateProgress,
    state: AggregatorState,
}

impl ProgressAggregator {
    /// The progress figure.
    pub closed spec fn spec_progress(&self) -> AggregateProgress {
        self.progress
    }

    /// The state of the drain loop.
    pub closed spec fn spec_state(&self) -> AggregatorState {
        self.state
    }

    /// The number of bytes reported as moved so far.
    pub open spec fn completed(&self) -> usize {
        self.spec_progress().spec_bytes_completed_so_far()
    }

    /// The number of bytes expected in all.
    pub open spec fn total(&self) -> usize {
        self.spec_progress().spec_total_expected_bytes()
    }

    /// An aggregator that waits for its first event, with `total` bytes
    /// expected and none moved.
    pub fn new(total: usize) -> (aggregator: ProgressAggregator)
        ensures
            aggregator.spec_state() == AggregatorState::Waiting,
            aggregator.total() == total,
            aggregator.completed() == 0,
    {
        ProgressAggregator { progress: AggregateProgress::new(total), state: AggregatorState::Waiting }
    }

    /// The progress figure.
    #[verifier::when_used_as_spec(spec_progress)]
    pub fn progress(&self) -> (progress: AggregateProgress)
        ensures
            progress == self.spec_progress(),
    {
        self.progress
    }

    /// The state of the drain loop.
    #[verifier::when_used_as_spec(spec_state)]
    pub fn state(&self) -> (state: AggregatorState)
        ensures
            state == self.spec_state(),
    {
        self.state
    }

    /// Whether the stream was seen closed.
    pub fn is_done(&self) -> (done: bool)
        ensures
            done <==> self.spec_state() == AggregatorState::Done,
    {
        match self.state {
            AggregatorState::Done => true,
            _ => false,
        }
    }

    /// Takes what the stream delivered: `Some(bytes)` for an event, `None`
    /// when the stream is closed and empty.
    ///
    /// While waiting, an event is added to the total and the aggregator
    /// starts updating; the result is then the number of bytes by which the
    /// display has to advance. While waiting, a closed stream ends the
    /// aggregator. In every other state nothing changes and nothing is to be
    /// displayed.
    pub fn receive(&mut self, message: Option<usize>) -> (advance: Option<usize>)
        requires
            old(self).spec_state() == AggregatorState::Waiting && message is Some ==> old(
                self,
            ).completed() + message.unwrap() <= usize::MAX,
        ensures
            final(self).total() == old(self).total(),
            match (old(self).spec_state(), message) {
                (AggregatorState::Waiting, Some(bytes)) => {
                    &&& final(self).spec_state() == AggregatorState::Updating
                    &&& final(self).completed() == old(self).completed() + bytes
                    &&& advance == Some(bytes)
                },
                (AggregatorState::Waiting, None) => {
                    &&& final(self).spec_state() == AggregatorState::Done
                    &&& final(self).completed() == old(self).completed()
                    &&& advance is None
                },
                _ => *final(self) == *old(self) && advance is None,
            },
    {
        match self.state {
            AggregatorState::Waiting => match message {
                Some(bytes) => {
                    self.progress.record(bytes);
                    self.state = AggregatorState::Updating;
                    Some(bytes)
                },
                None => {
                    self.state = AggregatorState::Done;
                    None
                },
            },
            _ => None,
        }
    }

    /// Notes that the display was refreshed: an updating aggregator waits
    /// again. In every other state nothing changes.
    pub fn displayed(&mut self)
        ensures
            final(self).spec_progress() == old(self).spec_progress(),
            final(self).spec_state() == if old(self).spec_state() == AggregatorState::Updating {
                AggregatorState::Waiting
            } else {
                old(self).spec_state()
            },
    {
        match self.state {
            AggregatorState::Updating => {
                self.state = AggregatorState::Waiting;
            },
            _ => {},
        }
    }
}

/// What draining a finished stream of events leaves behind.
pub struct ProgressReport {
    /// The aggregator after the stream was seen closed.
    pub aggregator: ProgressAggregator,
    /// The number of completed bytes shown after each event, in order.
    pub shown: Vec<usize>,
}

/// A sum of byte counts is never negative.
pub proof fn lemma_sum_nonnegative(events: Seq<usize>)
    ensures
        0 <= sum_bytes(events),
    decreases events.len(),
{
    if events.len() > 0 {
        lemma_sum_nonnegative(events.drop_last());
    }
}

/// A running total never decreases, and never passes the sum of all events.
pub proof fn lemma_running_total_monotonic(events: Seq<usize>, i: int, j: int)
    requires
        0 <= i <= j <= events.len(),
    ensures
        0 <= sum_bytes(events.take(i)) <= sum_bytes(events.take(j)) <= sum_bytes(events),
    decreases events.len() - i,
{
    lemma_sum_nonnegative(events.take(i));
    if j < events.len() {
        lemma_running_total_monotonic(events, j + 1, events.len() as int);
        assert(events.take(j + 1).drop_last() =~= events.take(j));
    }
    assert(events.take(events.len() as int) =~= events);
    if i < j {
        lemma_running_total_monotonic(events, i + 1, j);
        assert(events.take(i + 1).drop_last() =~= events.take(i));
    }
}

/// The sum of two streams of events, one after the other, is the sum of
/// their sums.
pub proof fn lemma_sum_concat(first: Seq<usize>, second: Seq<usize>)
    ensures
        sum_bytes(first + second) == sum_bytes(first) + sum_bytes(second),
    decreases second.len(),
{
    if second.len() == 0 {
        assert(first + second =~= first);
    } else {
        lemma_sum_concat(first, second.drop_last());
        assert((first + second).drop_last() =~= first + second.drop_last());
    }
}

/// Taking one event out of a stream lowers the sum by that event.
pub proof fn lemma_sum_remove(events: Seq<usize>, at: int)
    requires
        0 <= at < events.len(),
    ensures
        sum_bytes(events) == sum_bytes(events.remove(at)) + events[at],
    decreases events.len(),
{
    if at == events.len() - 1 {
        assert(events.remove(at) =~= events.drop_last());
    } else {
        lemma_sum_remove(events.drop_last(), at);
        assert(events.remove(at).drop_last() =~= events.drop_last().remove(at));
    }
}

/// The total does not depend on the order in which the events arrive: two
/// streams that hold the same events, each as often as the other, have the
/// same sum.
pub proof fn lemma_sum_order_independent(first: Seq<usize>, second: Seq<usize>)
    requires
        first.to_multiset() == second.to_multiset(),
    ensures
        sum_bytes(first) == sum_bytes(second),
    decreases first.len(),
{
    broadcast use vstd::seq_lib::group_to_multiset_ensures;

    first.to_multiset_ensures();
    second.to_multiset_ensures();
    if first.len() == 0 {
        assert(second.len() == 0);
    } else {
        let x = first.last();
        assert(first.drop_last().push(x) =~= first);
        assert(first.to_multiset().count(x) > 0);
        assert(second.contains(x));
        let at = choose|at: int| 0 <= at < second.len() && second[at] == x;
        assert(first.drop_last().to_multiset() =~= first.to_multiset().remove(x)) by {
            first.drop_last().to_multiset_ensures();
        }
        assert(second.remove(at).to_multiset() =~= second.to_multiset().remove(x));
        lemma_sum_order_independent(first.drop_last(), second.remove(at));
        lemma_sum_remove(second, at);
    }
}

/// Drains a finished stream of events: every event is received and
/// displayed in turn, then the stream is seen closed.
///
/// The report lists the number of completed bytes shown after each event.
/// That number never decreases. Where the events add up to `total`, it
/// never passes `total` and ends at exactly `total`. There is no report
/// where the events add up to more than `usize::MAX`.
pub fn aggregate(total: usize, events: &Vec<usize>) -> (outcome: Option<ProgressReport>)
    ensures
        outcome is Some <==> sum_bytes(events@) <= usize::MAX,
        match outcome {
            None => true,
            Some(report) => {
                &&& report.aggregator.spec_state() == AggregatorState::Done
                &&& report.aggregator.total() == total
                &&& report.aggregator.completed() == sum_bytes(events@)
                &&& report.shown@.len() == events@.len()
                &&& forall|k: int|
                    0 <= k < events@.len() ==> #[trigger] report.shown@[k] == sum_bytes(
                        events@.take(k + 1),
                    )
                &&& forall|i: int, j: int|
                    0 <= i <= j < events@.len() ==> #[trigger] report.shown@[i]
                        <= #[trigger] report.shown@[j]
                &&& sum_bytes(events@) <= total ==> forall|k: int|
                    0 <= k < events@.len() ==> #[trigger] report.shown@[k] <= total
                &&& sum_bytes(events@) == total ==> report.aggregator.completed() == total
            },
        },
{
    let mut aggregator = ProgressAggregator::new(total);
    let mut shown: Vec<usize> = Vec::new();
    let mut at: usize = 0;
    proof {
        assert(events@.take(0).len() == 0);
    }
    while at < events.len()
        invariant
            at <= events@.len(),
            aggregator.spec_state() == AggregatorState::Waiting,
            aggregator.total() == total,
            aggregator.completed() == sum_bytes(events@.take(at as int)),
            shown@.len() == at,
            forall|k: int| 0 <= k < at ==> #[trigger] shown@[k] == sum_bytes(events@.take(k + 1)),
        decreases events@.len() - at,
    {
        proof {
            lemma_running_total_monotonic(events@, at as int + 1, events@.len() as int);
            assert(events@.take(at as int + 1).drop_last() =~= events@.take(at as int));
        }
        let completed: usize = aggregator.progress().bytes_completed_so_far();
        if completed.checked_add(events[at]).is_none() {
            return None;
        }
        aggregator.receive(Some(events[at]));
        shown.push(aggregator.progress().bytes_completed_so_far());
        aggregator.displayed();
        at = at + 1;
    }
    aggregator.receive(None);
    proof {
        assert(events@.take(at as int) =~= events@);
        assert forall|i: int, j: int| 0 <= i <= j < events@.len() implies #[trigger] shown@[i]
            <= #[trigger] shown@[j] by {
            lemma_running_total_monotonic(events@, i + 1, j + 1);
        }
        assert forall|k: int| 0 <= k < events@.len() implies #[trigger] shown@[k] <= sum_bytes(
            events@,
        ) by {
            lemma_running_total_monotonic(events@, k + 1, k + 1);
        }
    }
    Some(ProgressReport { aggregator, shown })
}

} // verus!
