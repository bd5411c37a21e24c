//! The timed passes: a general one over any operation, and the two that the
//! benchmark runs, over unspent-output lookups and over transaction fetches.

use crate::outcome::failures_with;
use crate::outcome::lemma_all_failures;
use crate::outcome::lemma_counts_empty;
use crate::outcome::lemma_counts_partition;
use crate::outcome::lemma_counts_push;
use crate::outcome::FailureReason;
use crate::outcome::SampleDetail;
use crate::outcome::SampleOutcome;
use crate::sampler::effective_count_of;
use crate::sampler::notice_in_pass;
use crate::sampler::Notice;
use crate::sampler::RunSummary;
use crate::sampler::Sampler;
use crate::sampler::SamplingRun;
use crate::timing::is_clock_reading;
use crate::timing::Stopwatch;
use crate::txid::is_txid_text;
use crate::txid::parse_txid;
use crate::txid::txid_of;
use bdk_electrum::bdk_core::bitcoin::Txid;
use vstd::prelude::*;

verus! {

/// Whether `outcomes` can be what `operation` returned on the first elements
/// of `inputs`, position by position.
pub open spec fn sampled_by<Op: Fn(&String) -> SampleOutcome>(
    operation: Op,
    inputs: Seq<String>,
    outcomes: Seq<SampleOutcome>,
) -> bool {
    forall|i: int|
        0 <= i < outcomes.len() ==> call_ensures(operation, (&inputs[i],), #[trigger] outcomes[i])
}

/// Whether `observer` accepts every notice of a pass over `total` elements.
pub open spec fn observes<Obs: Fn(Notice)>(observer: Obs, total: nat) -> bool {
    forall|notice: Notice| #[trigger]
        notice_in_pass(notice, total) ==> call_requires(observer, (notice,))
}

/// Runs one timed pass: `operation` is called once on each of the first
/// `min(sample_size, inputs.len())` elements of `inputs`, in the order of the
/// list, whatever the earlier calls returned, and each outcome is counted.
/// The clock runs from just before the first call to just after the last.
/// `observer` is told of the progress at every hundredth element and of the
/// outcomes of the first five.
pub fn run_sample<Op: Fn(&String) -> SampleOutcome, Obs: Fn(Notice)>(
    inputs: &[String],
    sample_size: usize,
    operation: Op,
    observer: Obs,
) -> (run: SamplingRun)
    requires
        forall|i: int|
            0 <= i < effective_count_of(inputs@.len(), sample_size as nat) ==> call_requires(
                operation,
                (&#[trigger] inputs@[i],),
            ),
        observes(observer, effective_count_of(inputs@.len(), sample_size as nat)),
    ensures
        run@.sample_size == effective_count_of(inputs@.len(), sample_size as nat),
        run@.successes + run@.failures() == run@.sample_size,
        is_clock_reading(run@.total_nanos),
        exists|outcomes: Seq<SampleOutcome>|
            sampled_by(operation, inputs@, outcomes) && #[trigger] run@.counts(outcomes),
{
    let mut sampler = Sampler::new(inputs.len(), sample_size);
    let total: usize = sampler.sample_size();
    let stopwatch = Stopwatch::start();
    loop
        invariant
            total == effective_count_of(inputs@.len(), sample_size as nat),
            sampler.total() == total,
            sampled_by(operation, inputs@, sampler.outcomes()),
            forall|i: int| 0 <= i < total ==> call_requires(operation, (&#[trigger] inputs@[i],)),
            observes(observer, total as nat),
        ensures
            sampler.outcomes().len() == sampler.total(),
        decreases sampler.total() - sampler.outcomes().len(),
    {
        let next = sampler.next_index();
        match next {
            None => {
                break ;
            },
            Some(index) => {
                match sampler.progress_notice() {
                    Some(notice) => observer(notice),
                    None => {},
                }
                let outcome = operation(&inputs[index]);
                match sampler.record(outcome) {
                    Some(notice) => observer(notice),
                    None => {},
                }
            },
        }
    }
    let ghost outcomes = sampler.outcomes();
    let run = sampler.finish(stopwatch.elapsed());
    proof {
        lemma_counts_partition(outcomes);
        assert(run@.counts(outcomes));
    }
    run
}

/// Where the operation of a pass can only fail, the pass counts no success
/// and as many failures as it attempted elements: a failure ends nothing.
pub proof fn lemma_failing_operation_fails_throughout<Op: Fn(&String) -> SampleOutcome>(
    operation: Op,
    inputs: Seq<String>,
    outcomes: Seq<SampleOutcome>,
    run: RunSummary,
)
    requires
        forall|input: &String, outcome: SampleOutcome| #[trigger]
            call_ensures(operation, (input,), outcome) ==> outcome is Failure,
        sampled_by(operation, inputs, outcomes),
        run.counts(outcomes),
    ensures
        run.successes == 0,
        run.failures() == run.sample_size,
{
    assert forall|i: int| 0 <= i < outcomes.len() implies outcomes[i] is Failure by {
        assert(call_ensures(operation, (&inputs[i],), outcomes[i]));
    }
    lemma_all_failures(outcomes);
    lemma_counts_partition(outcomes);
}

/// How the answer to an unspent-output lookup counts: a lookup that returned
/// its entries is a success with their number, one that failed is a remote
/// failure.
pub open spec fn lookup_outcome_of(found: Option<usize>) -> SampleOutcome {
    match found {
        Some(count) => SampleOutcome::Success(SampleDetail::Utxos(count)),
        None => SampleOutcome::Failure(FailureReason::Remote),
    }
}

/// Classifies the answer to an unspent-output lookup.
pub fn lookup_outcome(found: Option<usize>) -> (outcome: SampleOutcome)
    ensures
        outcome == lookup_outcome_of(found),
{
    match found {
        Some(count) => SampleOutcome::Success(SampleDetail::Utxos(count)),
        None => SampleOutcome::Failure(FailureReason::Remote),
    }
}

/// How the answer to a transaction fetch counts: a fetched transaction is a
/// success, a failed fetch a remote failure.
pub open spec fn fetch_outcome_of(fetched: bool) -> SampleOutcome {
    if fetched {
        SampleOutcome::Success(SampleDetail::Transaction)
    } else {
        SampleOutcome::Failure(FailureReason::Remote)
    }
}

/// Classifies the answer to a transaction fetch.
pub fn fetch_outcome(fetched: bool) -> (outcome: SampleOutcome)
    ensures
        outcome == fetch_outcome_of(fetched),
{
    if fetched {
        SampleOutcome::Success(SampleDetail::Transaction)
    } else {
        SampleOutcome::Failure(FailureReason::Remote)
    }
}

/// Whether `outcome` can come of sampling `address`: it is the
/// classification of some answer that `lookup` gives for it.
pub open spec fn address_sampled<L: Fn(&String) -> Option<usize>>(
    lookup: L,
    address: String,
    outcome: SampleOutcome,
) -> bool {
    exists|found: Option<usize>| #[trigger]
        call_ensures(lookup, (&address,), found) && outcome == lookup_outcome_of(found)
}

/// Whether `outcome` can come of sampling the identifier text `text`: a text
/// that is no identifier is an invalid identifier and nothing is fetched;
/// otherwise the outcome is the classification of some answer of `fetch` for
/// the identifier decoded from the text.
pub open spec fn transaction_sampled<F: Fn(&Txid) -> bool>(
    fetch: F,
    text: Seq<char>,
    outcome: SampleOutcome,
) -> bool {
    if is_txid_text(text) {
        exists|fetched: bool| #[trigger]
            call_ensures(fetch, (&txid_of(text),), fetched) && outcome == fetch_outcome_of(fetched)
    } else {
        outcome == SampleOutcome::Failure(FailureReason::InvalidIdentifier)
    }
}

/// Times unspent-output lookups over the first `min(sample_size,
/// addresses.len())` addresses, in the order of the list. `lookup` makes the
/// remote call for one address and returns the number of entries found, or
/// nothing when the call failed; a failure does not end the pass.
pub fn benchmark_address_utxos<L: Fn(&String) -> Option<usize>, Obs: Fn(Notice)>(
    addresses: &[String],
    sample_size: usize,
    lookup: L,
    observer: Obs,
) -> (run: SamplingRun)
    requires
        forall|i: int|
            0 <= i < effective_count_of(addresses@.len(), sample_size as nat) ==> call_requires(
                lookup,
                (&#[trigger] addresses@[i],),
            ),
        observes(observer, effective_count_of(addresses@.len(), sample_size as nat)),
    ensures
        run@.sample_size == effective_count_of(addresses@.len(), sample_size as nat),
        run@.successes + run@.failures() == run@.sample_size,
        is_clock_reading(run@.total_nanos),
        run@.invalid == 0,
        exists|outcomes: Seq<SampleOutcome>|
            #[trigger] run@.counts(outcomes) && forall|i: int|
                0 <= i < outcomes.len() ==> address_sampled(
                    lookup,
                    addresses@[i],
                    #[trigger] outcomes[i],
                ),
{
    let mut sampler = Sampler::new(addresses.len(), sample_size);
    let total: usize = sampler.sample_size();
    let stopwatch = Stopwatch::start();
    loop
        invariant
            total == effective_count_of(addresses@.len(), sample_size as nat),
            sampler.total() == total,
            forall|i: int|
                0 <= i < sampler.outcomes().len() ==> address_sampled(
                    lookup,
                    addresses@[i],
                    #[trigger] sampler.outcomes()[i],
                ),
            forall|i: int| 0 <= i < total ==> call_requires(lookup, (&#[trigger] addresses@[i],)),
            observes(observer, total as nat),
        ensures
            sampler.outcomes().len() == sampler.total(),
        decreases sampler.total() - sampler.outcomes().len(),
    {
        let next = sampler.next_index();
        match next {
            None => {
                break ;
            },
            Some(index) => {
                match sampler.progress_notice() {
                    Some(notice) => observer(notice),
                    None => {},
                }
                let outcome = lookup_outcome(lookup(&addresses[index]));
                match sampler.record(outcome) {
                    Some(notice) => observer(notice),
                    None => {},
                }
            },
        }
    }
    let ghost outcomes = sampler.outcomes();
    let run = sampler.finish(stopwatch.elapsed());
    proof {
        lemma_counts_partition(outcomes);
        lemma_no_invalid(outcomes);
        assert(run@.counts(outcomes));
    }
    run
}

/// Outcomes of which none is an invalid identifier count no such failure.
proof fn lemma_no_invalid(outcomes: Seq<SampleOutcome>)
    requires
        forall|i: int|
            0 <= i < outcomes.len() ==> outcomes[i] != SampleOutcome::Failure(
                FailureReason::InvalidIdentifier,
            ),
    ensures
        failures_with(outcomes, FailureReason::InvalidIdentifier) == 0,
    decreases outcomes.len(),
{
    if outcomes.len() == 0 {
        lemma_counts_empty();
    } else {
        let init = outcomes.drop_last();
        lemma_no_invalid(init);
        lemma_counts_push(init, outcomes.last());
        assert(init.push(outcomes.last()) =~= outcomes);
    }
}

/// The number of texts among `texts` that are no transaction identifier.
pub open spec fn malformed(texts: Seq<String>) -> nat {
    texts.filter(|text: String| !is_txid_text(text@)).len()
}

/// Times transaction fetches over the first `min(sample_size, txids.len())`
/// identifier texts, in the order of the list. A text that is no identifier
/// counts as an invalid identifier and nothing is fetched for it; for every
/// other, `fetch` makes the remote call and tells whether the transaction
/// came. A failure of either kind does not end the pass.
pub fn benchmark_transaction_fetch<F: Fn(&Txid) -> bool, Obs: Fn(Notice)>(
    txids: &[String],
    sample_size: usize,
    fetch: F,
    observer: Obs,
) -> (run: SamplingRun)
    requires
        forall|txid: Txid| call_requires(fetch, (&txid,)),
        observes(observer, effective_count_of(txids@.len(), sample_size as nat)),
    ensures
        run@.sample_size == effective_count_of(txids@.len(), sample_size as nat),
        run@.successes + run@.failures() == run@.sample_size,
        is_clock_reading(run@.total_nanos),
        run@.invalid == malformed(txids@.take(run@.sample_size as int)),
        exists|outcomes: Seq<SampleOutcome>|
            #[trigger] run@.counts(outcomes) && forall|i: int|
                0 <= i < outcomes.len() ==> transaction_sampled(
                    fetch,
                    txids@[i]@,
                    #[trigger] outcomes[i],
                ),
{
    let mut sampler = Sampler::new(txids.len(), sample_size);
    let total: usize = sampler.sample_size();
    let stopwatch = Stopwatch::start();
    loop
        invariant
            total == effective_count_of(txids@.len(), sample_size as nat),
            sampler.total() == total,
            forall|i: int|
                0 <= i < sampler.outcomes().len() ==> transaction_sampled(
                    fetch,
                    txids@[i]@,
                    #[trigger] sampler.outcomes()[i],
                ),
            forall|txid: Txid| call_requires(fetch, (&txid,)),
            observes(observer, total as nat),
        ensures
            sampler.outcomes().len() == sampler.total(),
        decreases sampler.total() - sampler.outcomes().len(),
    {
        let next = sampler.next_index();
        match next {
            None => {
                break ;
            },
            Some(index) => {
                match sampler.progress_notice() {
                    Some(notice) => observer(notice),
                    None => {},
                }
                let outcome = match parse_txid(txids[index].as_str()) {
                    Ok(txid) => fetch_outcome(fetch(&txid)),
                    Err(reason) => SampleOutcome::Failure(reason),
                };
                match sampler.record(outcome) {
                    Some(notice) => observer(notice),
                    None => {},
                }
            },
        }
    }
    let ghost outcomes = sampler.outcomes();
    let run = sampler.finish(stopwatch.elapsed());
    proof {
        lemma_counts_partition(outcomes);
        lemma_invalid_are_malformed(fetch, txids@, outcomes);
        assert(run@.counts(outcomes));
    }
    run
}

/// Where the fetch can only fail on the identifiers of the sampled texts,
/// the transaction pass counts no success and as many failures as it
/// attempted elements, the texts that are no identifier among them.
pub proof fn lemma_failing_fetch_fails_throughout<F: Fn(&Txid) -> bool>(
    fetch: F,
    texts: Seq<String>,
    outcomes: Seq<SampleOutcome>,
    run: RunSummary,
)
    requires
        outcomes.len() <= texts.len(),
        forall|i: int, fetched: bool|
            0 <= i < outcomes.len() && is_txid_text(texts[i]@) && #[trigger] call_ensures(
                fetch,
                (&txid_of(texts[i]@),),
                fetched,
            ) ==> !fetched,
        forall|i: int|
            0 <= i < outcomes.len() ==> transaction_sampled(
                fetch,
                texts[i]@,
                #[trigger] outcomes[i],
            ),
        run.counts(outcomes),
    ensures
        run.successes == 0,
        run.failures() == run.sample_size,
{
    assert forall|i: int| 0 <= i < outcomes.len() implies outcomes[i] is Failure by {
        assert(transaction_sampled(fetch, texts[i]@, outcomes[i]));
    }
    lemma_all_failures(outcomes);
    lemma_counts_partition(outcomes);
}

/// In a pass over identifier texts, the invalid identifiers counted are the
/// texts that are no identifier.
proof fn lemma_invalid_are_malformed<F: Fn(&Txid) -> bool>(
    fetch: F,
    texts: Seq<String>,
    outcomes: Seq<SampleOutcome>,
)
    requires
        outcomes.len() <= texts.len(),
        forall|i: int|
            0 <= i < outcomes.len() ==> transaction_sampled(
                fetch,
                texts[i]@,
                #[trigger] outcomes[i],
            ),
    ensures
        failures_with(outcomes, FailureReason::InvalidIdentifier) == malformed(
            texts.take(outcomes.len() as int),
        ),
    decreases outcomes.len(),
{
    reveal(Seq::filter);
    let taken = texts.take(outcomes.len() as int);
    if outcomes.len() == 0 {
        lemma_counts_empty();
    } else {
        let init = outcomes.drop_last();
        lemma_invalid_are_malformed(fetch, texts, init);
        lemma_counts_push(init, outcomes.last());
        assert(init.push(outcomes.last()) =~= outcomes);
        assert(taken.drop_last() =~= texts.take(init.len() as int));
        assert(taken.last() == texts[outcomes.len() - 1]);
        assert(transaction_sampled(fetch, texts[outcomes.len() - 1]@, outcomes.last()));
    }
}

} // verus!
