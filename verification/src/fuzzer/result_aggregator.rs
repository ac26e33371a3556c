//! The tally of outcomes and the failure records that go to the sink.

use crate::fuzzer::fuzzy::{
    failure_record, outcome_of, FuzzingResult, OutcomeView, RequestView, ResponseView,
};
use crate::fuzzer::metrics::Metrics;
use crate::text::{opt_text, texts};
use vstd::multiset::Multiset;
use vstd::prelude::*;

verus! {

/// The contents of a list of outcomes.
pub open spec fn outcome_views(s: Seq<FuzzingResult>) -> Seq<OutcomeView> {
    Seq::new(s.len(), |i: int| s[i]@)
}

/// How many of the outcomes are successes.
pub open spec fn successes(outcomes: Seq<OutcomeView>) -> nat
    decreases outcomes.len(),
{
    if outcomes.len() == 0 {
        0
    } else {
        successes(outcomes.drop_last()) + if outcomes.last() is Success {
            1nat
        } else {
            0nat
        }
    }
}

/// How many of the outcomes are failures.
pub open spec fn failures(outcomes: Seq<OutcomeView>) -> nat
    decreases outcomes.len(),
{
    if outcomes.len() == 0 {
        0
    } else {
        failures(outcomes.drop_last()) + if outcomes.last() is Failure {
            1nat
        } else {
            0nat
        }
    }
}

/// The failure record of an outcome, if it is a failure.
pub open spec fn record_of(outcome: OutcomeView) -> Option<Seq<char>> {
    match outcome {
        OutcomeView::Success(_) => None,
        OutcomeView::Failure(url, failure) => Some(failure_record(url, failure)),
    }
}

/// The failure records of the outcomes, in their order.
pub open spec fn records(outcomes: Seq<OutcomeView>) -> Seq<Seq<char>>
    decreases outcomes.len(),
{
    if outcomes.len() == 0 {
        Seq::empty()
    } else {
        match record_of(outcomes.last()) {
            Some(record) => records(outcomes.drop_last()).push(record),
            None => records(outcomes.drop_last()),
        }
    }
}

/// Whether `metrics` can count all of `outcomes` without leaving `u64`.
pub open spec fn fits(metrics: Metrics, outcomes: Seq<OutcomeView>) -> bool {
    &&& metrics.total_requests + outcomes.len() <= u64::MAX
    &&& metrics.successful_requests + successes(outcomes) <= u64::MAX
    &&& metrics.failed_requests + failures(outcomes) <= u64::MAX
}

/// The counters after `outcomes`, counted on top of `metrics`.
pub open spec fn tally(metrics: Metrics, outcomes: Seq<OutcomeView>) -> Metrics {
    Metrics {
        start_time: metrics.start_time,
        successful_requests: (metrics.successful_requests + successes(outcomes)) as u64,
        failed_requests: (metrics.failed_requests + failures(outcomes)) as u64,
        total_requests: (metrics.total_requests + outcomes.len()) as u64,
    }
}

/// Every outcome is a success or a failure, so the two counts add up to the
/// number of outcomes.
pub proof fn lemma_successes_and_failures(outcomes: Seq<OutcomeView>)
    ensures
        successes(outcomes) + failures(outcomes) == outcomes.len(),
        records(outcomes).len() == failures(outcomes),
    decreases outcomes.len(),
{
    if outcomes.len() > 0 {
        lemma_successes_and_failures(outcomes.drop_last());
    }
}

/// Counters in which every request is a success or a failure stay so
/// whatever outcomes are counted on top of them.
pub proof fn lemma_tally_consistent(metrics: Metrics, outcomes: Seq<OutcomeView>)
    requires
        metrics.consistent(),
        fits(metrics, outcomes),
    ensures
        tally(metrics, outcomes).consistent(),
{
    lemma_successes_and_failures(outcomes);
}

/// Counts one more success on top of `n`, where `outcome` is one.
spec fn count_success(n: nat, outcome: OutcomeView) -> nat {
    if outcome is Success {
        n + 1
    } else {
        n
    }
}

/// Counts one more failure on top of `n`, where `outcome` is one.
spec fn count_failure(n: nat, outcome: OutcomeView) -> nat {
    if outcome is Failure {
        n + 1
    } else {
        n
    }
}

/// Adds the record of `outcome` to `written`, where it has one.
spec fn add_record(written: Multiset<Seq<char>>, outcome: OutcomeView) -> Multiset<
    Seq<char>,
> {
    match record_of(outcome) {
        Some(record) => written.insert(record),
        None => written,
    }
}

/// The counts and the written records, each as one pass over the outcomes
/// that takes them one by one.
proof fn lemma_counts_as_folds(outcomes: Seq<OutcomeView>)
    ensures
        successes(outcomes) == outcomes.fold_left(
            0nat,
            |n: nat, o: OutcomeView| count_success(n, o),
        ),
        failures(outcomes) == outcomes.fold_left(
            0nat,
            |n: nat, o: OutcomeView| count_failure(n, o),
        ),
        records(outcomes).to_multiset() == outcomes.fold_left(
            Multiset::empty(),
            |w: Multiset<Seq<char>>, o: OutcomeView| add_record(w, o),
        ),
    decreases outcomes.len(),
{
    broadcast use vstd::seq_lib::group_to_multiset_ensures;

    if outcomes.len() > 0 {
        lemma_counts_as_folds(outcomes.drop_last());
    }
}

/// The counters do not depend on the order in which outcomes arrive, and
/// the same records are written, each as often, whatever the order.
pub proof fn lemma_tally_in_any_order(
    metrics: Metrics,
    first: Seq<OutcomeView>,
    second: Seq<OutcomeView>,
)
    requires
        first.to_multiset() == second.to_multiset(),
    ensures
        tally(metrics, first) == tally(metrics, second),
        records(first).to_multiset() == records(second).to_multiset(),
{
    broadcast use vstd::seq_lib::group_to_multiset_ensures;

    let by_success = |n: nat, o: OutcomeView| count_success(n, o);
    let by_failure = |n: nat, o: OutcomeView| count_failure(n, o);
    let by_record = |w: Multiset<Seq<char>>, o: OutcomeView| add_record(w, o);
    lemma_counts_as_folds(first);
    lemma_counts_as_folds(second);
    assert(vstd::seq_lib::commutative_foldl(by_success));
    assert(vstd::seq_lib::commutative_foldl(by_failure));
    assert forall|x: OutcomeView, y: OutcomeView, w: Multiset<Seq<char>>|
        #[trigger] by_record(by_record(w, x), y) == by_record(by_record(w, y), x) by {
        assert(add_record(add_record(w, x), y) =~= add_record(add_record(w, y), x));
    }
    assert(vstd::seq_lib::commutative_foldl(by_record));
    vstd::seq_lib::lemma_fold_left_permutation(first, second, by_success, 0nat);
    vstd::seq_lib::lemma_fold_left_permutation(first, second, by_failure, 0nat);
    vstd::seq_lib::lemma_fold_left_permutation(first, second, by_record, Multiset::empty());
    assert(first.len() == second.len()) by {
        assert(first.to_multiset().len() == first.len());
        assert(second.to_multiset().len() == second.len());
    }
}

/// The outcomes of `requests` where the transport answers each request
/// with `transport` of it, in the order of the requests.
pub open spec fn outcomes_of(
    requests: Seq<RequestView>,
    transport: spec_fn(RequestView) -> Result<ResponseView, Seq<char>>,
) -> Seq<OutcomeView> {
    Seq::new(
        requests.len(),
        |i: int|
            outcome_of(transport(requests[i]), requests[i].target, requests[i].expected_status),
    )
}

/// Two runs over the same requests with a transport that answers the same
/// request in the same way end with the same counters and the same records,
/// in whatever order the outcomes arrived in each run: every request has one
/// outcome, a success or a failure, and every failure one record.
pub proof fn lemma_runs_agree(
    metrics: Metrics,
    requests: Seq<RequestView>,
    transport: spec_fn(RequestView) -> Result<ResponseView, Seq<char>>,
    first: Seq<OutcomeView>,
    second: Seq<OutcomeView>,
)
    requires
        first.to_multiset() == outcomes_of(requests, transport).to_multiset(),
        second.to_multiset() == outcomes_of(requests, transport).to_multiset(),
    ensures
        tally(metrics, first) == tally(metrics, second),
        records(first).to_multiset() == records(second).to_multiset(),
        first.len() == requests.len(),
        successes(first) + failures(first) == requests.len(),
        records(first).len() == failures(first),
{
    broadcast use vstd::seq_lib::group_to_multiset_ensures;

    lemma_tally_in_any_order(metrics, first, second);
    lemma_successes_and_failures(first);
    assert(first.to_multiset().len() == first.len());
    assert(outcomes_of(requests, transport).to_multiset().len() == requests.len());
}

/// The counters cannot hold what was to be counted.
#[derive(Clone, Copy, Debug, PartialEq, Eq)]
pub struct CountersFull;

/// What an aggregator holds.
pub struct AggregatorView {
    pub metrics: Metrics,
    pub output_path: Option<Seq<char>>,
}

/// The one place where outcomes are counted. It owns the counters, and says
/// for each outcome what is to be appended to the failure sink.
#[derive(Debug)]
pub struct ResultAggregator {
    metrics: Metrics,
    output_path: Option<String>,
}

impl View for ResultAggregator {
    type V = AggregatorView;

    closed spec fn view(&self) -> AggregatorView {
        AggregatorView { metrics: self.metrics, output_path: opt_text(self.output_path) }
    }
}

impl ResultAggregator {
    /// An aggregator that goes on from `metrics`. Without an `output_path`
    /// failures are counted and their records dropped.
    pub fn new(output_path: Option<String>, metrics: Metrics) -> (aggregator: Self)
        ensures
            aggregator@ == (AggregatorView { metrics, output_path: opt_text(output_path) }),
    {
        Self { metrics, output_path }
    }

    /// The counters as they stand.
    pub fn metrics(&self) -> (metrics: &Metrics)
        ensures
            *metrics == self@.metrics,
    {
        &self.metrics
    }

    /// Where the failure records go, if anywhere.
    pub fn output_path(&self) -> (output_path: &Option<String>)
        ensures
            opt_text(*output_path) == self@.output_path,
    {
        &self.output_path
    }

    /// Counts one outcome, unless a counter is full: then nothing changes.
    /// For a failure the record to append to the sink is returned, if there
    /// is a sink.
    pub fn process_result(&mut self, result: &FuzzingResult) -> (r: Result<
        Option<String>,
        CountersFull,
    >)
        ensures
            r is Ok <==> old(self)@.metrics.has_room(result@ is Success),
            r matches Ok(line) ==> final(self)@ == (AggregatorView {
                metrics: old(self)@.metrics.counted(result@ is Success),
                ..old(self)@
            }) && opt_text(line) == if old(self)@.output_path is Some {
                record_of(result@)
            } else {
                None
            },
            r is Err ==> final(self)@ == old(self)@,
            old(self)@.metrics.consistent() ==> final(self)@.metrics.consistent(),
    {
        if self.metrics.can_record(result.is_success()) {
            Ok(self.count_one(result))
        } else {
            Err(CountersFull)
        }
    }

    /// Counts the outcomes in their order and returns the records to append
    /// to the sink, one for each failure, in that order; unless the counters
    /// cannot hold them all: then none is counted.
    pub fn process_results(&mut self, results: &Vec<FuzzingResult>) -> (r: Result<
        Vec<String>,
        CountersFull,
    >)
        ensures
            r is Ok <==> fits(old(self)@.metrics, outcome_views(results@)),
            r matches Ok(lines) ==> final(self)@ == (AggregatorView {
                metrics: tally(old(self)@.metrics, outcome_views(results@)),
                ..old(self)@
            }) && final(self)@.metrics.total_requests == old(self)@.metrics.total_requests
                + results@.len() && texts(lines@) == if old(self)@.output_path is Some {
                records(outcome_views(results@))
            } else {
                Seq::empty()
            },
            r is Err ==> final(self)@ == old(self)@,
            old(self)@.metrics.consistent() ==> final(self)@.metrics.consistent(),
    {
        if self.can_process(results) {
            Ok(self.count_all(results))
        } else {
            Err(CountersFull)
        }
    }

    /// Whether the counters can hold all of `results`.
    pub fn can_process(&self, results: &Vec<FuzzingResult>) -> (room: bool)
        ensures
            room == fits(self@.metrics, outcome_views(results@)),
    {
        let ghost all = outcome_views(results@);
        let mut good: usize = 0;
        let mut i: usize = 0;
        while i < results.len()
            invariant
                i <= results.len(),
                all == outcome_views(results@),
                good == successes(all.take(i as int)),
                good <= i,
            decreases results.len() - i,
        {
            proof {
                assert(all.take(i + 1).drop_last() =~= all.take(i as int));
                assert(all.take(i + 1).last() == results@[i as int]@);
            }
            if results[i].is_success() {
                good += 1;
            }
            i += 1;
        }
        proof {
            assert(all.take(i as int) =~= all);
            lemma_successes_and_failures(all);
        }
        let bad: usize = results.len() - good;
        let all_in: u64 = results.len() as u64;
        let good_in: u64 = good as u64;
        let bad_in: u64 = bad as u64;
        all_in <= u64::MAX - self.metrics.total_requests && good_in <= u64::MAX
            - self.metrics.successful_requests && bad_in <= u64::MAX
            - self.metrics.failed_requests
    }

    /// Counts one outcome that the counters have room for.
    fn count_one(&mut self, result: &FuzzingResult) -> (line: Option<String>)
        requires
            old(self)@.metrics.has_room(result@ is Success),
        ensures
            final(self)@ == (AggregatorView {
                metrics: old(self)@.metrics.counted(result@ is Success),
                ..old(self)@
            }),
            old(self)@.metrics.consistent() ==> final(self)@.metrics.consistent(),
            opt_text(line) == if old(self)@.output_path is Some {
                record_of(result@)
            } else {
                None
            },
    {
        match result {
            FuzzingResult::Success(_url) => {
                self.metrics.record(true);
                None
            },
            FuzzingResult::Failure(url, failure) => {
                self.metrics.record(false);
                self.write_to_output(failure.failure_to_string(url.clone()))
            },
        }
    }

    /// Counts outcomes that the counters have room for.
    fn count_all(&mut self, results: &Vec<FuzzingResult>) -> (lines: Vec<String>)
        requires
            fits(old(self)@.metrics, outcome_views(results@)),
        ensures
            final(self)@ == (AggregatorView {
                metrics: tally(old(self)@.metrics, outcome_views(results@)),
                ..old(self)@
            }),
            final(self)@.metrics.total_requests == old(self)@.metrics.total_requests
                + results@.len(),
            old(self)@.metrics.consistent() ==> final(self)@.metrics.consistent(),
            texts(lines@) == if old(self)@.output_path is Some {
                records(outcome_views(results@))
            } else {
                Seq::empty()
            },
    {
        let ghost all = outcome_views(results@);
        let ghost start = self@.metrics;
        let mut lines: Vec<String> = Vec::new();
        let mut i: usize = 0;
        assert(texts(lines@) =~= Seq::<Seq<char>>::empty());
        while i < results.len()
            invariant
                i <= results.len(),
                all == outcome_views(results@),
                start == old(self)@.metrics,
                fits(start, all),
                self@ == (AggregatorView {
                    metrics: tally(start, all.take(i as int)),
                    ..old(self)@
                }),
                texts(lines@) == if old(self)@.output_path is Some {
                    records(all.take(i as int))
                } else {
                    Seq::empty()
                },
            decreases results.len() - i,
        {
            let ghost written = texts(lines@);
            proof {
                assert(all.take(i + 1).drop_last() =~= all.take(i as int));
                assert(all.take(i + 1).last() == results@[i as int]@);
                lemma_counts_grow(all, i as int);
                lemma_counts_grow(all, i + 1);
                lemma_successes_and_failures(all.take(i as int));
            }
            match self.count_one(&results[i]) {
                Some(line) => {
                    lines.push(line);
                    assert(texts(lines@) =~= written.push(line@));
                },
                None => {},
            }
            i += 1;
        }
        proof {
            assert(all.take(i as int) =~= all);
            lemma_tally_consistent_if(start, all);
        }
        lines
    }

    /// The record as it goes to the sink, if there is a sink.
    fn write_to_output(&self, data: String) -> (line: Option<String>)
        ensures
            opt_text(line) == if self@.output_path is Some {
                Some(data@)
            } else {
                None
            },
    {
        if self.output_path.is_some() {
            Some(data)
        } else {
            None
        }
    }
}

/// The first `n` outcomes hold no more successes and no more failures than
/// all of them.
pub proof fn lemma_counts_grow(outcomes: Seq<OutcomeView>, n: int)
    requires
        0 <= n <= outcomes.len(),
    ensures
        successes(outcomes.take(n)) <= successes(outcomes),
        failures(outcomes.take(n)) <= failures(outcomes),
    decreases outcomes.len(),
{
    if n < outcomes.len() {
        assert(outcomes.drop_last().take(n) =~= outcomes.take(n));
        lemma_counts_grow(outcomes.drop_last(), n);
    } else {
        assert(outcomes.take(n) =~= outcomes);
    }
}

/// `lemma_tally_consistent`, for counters that may or may not add up.
proof fn lemma_tally_consistent_if(metrics: Metrics, outcomes: Seq<OutcomeView>)
    requires
        fits(metrics, outcomes),
    ensures
        metrics.consistent() ==> tally(metrics, outcomes).consistent(),
{
    if metrics.consistent() {
        lemma_tally_consistent(metrics, outcomes);
    }
}

} // verus!
