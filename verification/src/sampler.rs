//! The sampling pass: how many elements are attempted, in which order, how
//! their outcomes are counted, and when progress is announced.

use crate::outcome::failures;
use crate::outcome::failures_with;
use crate::outcome::lemma_counts_empty;
use crate::outcome::lemma_counts_partition;
use crate::outcome::lemma_counts_push;
use crate::outcome::successes;
use crate::outcome::FailureReason;
use crate::outcome::SampleOutcome;
use crate::timing::Elapsed;
use vstd::prelude::*;

verus! {

/// A progress notice is due at every element whose index is a multiple of this.
pub const PROGRESS_INTERVAL: usize = 100;

/// The outcome of an element is shown in detail while its index is below this.
pub const DETAIL_LIMIT: usize = 5;

/// The number of elements a pass attempts: the requested sample size,
/// bounded by the number of inputs at hand.
pub open spec fn effective_count_of(len: nat, requested: nat) -> nat {
    if requested < len {
        requested
    } else {
        len
    }
}

/// Computes the number of elements a pass over `len` inputs attempts
/// when `requested` samples are asked for.
pub fn effective_count(len: usize, requested: usize) -> (count: usize)
    ensures
        count == effective_count_of(len as nat, requested as nat),
{
    if requested < len {
        requested
    } else {
        len
    }
}

/// Whether a progress notice is due before the element at `index`.
pub fn progress_due(index: usize) -> (due: bool)
    ensures
        due <==> index % PROGRESS_INTERVAL == 0,
{
    index % PROGRESS_INTERVAL == 0
}

/// Whether the outcome of the element at `index` is shown in detail.
pub fn detail_due(index: usize) -> (due: bool)
    ensures
        due <==> index < DETAIL_LIMIT,
{
    index < DETAIL_LIMIT
}

/// What a pass tells whoever displays its progress.
#[derive(Clone, Copy, Debug, PartialEq, Eq, Structural)]
pub enum Notice {
    /// The element at `index` is next, out of `total`.
    Progress { index: usize, total: usize },
    /// The element at `index` gave `outcome`.
    Sample { index: usize, outcome: SampleOutcome },
}

/// The progress notice that is due before the element at `index` of a pass
/// over `total` elements: one at every element whose index is a multiple of
/// the interval.
pub open spec fn progress_notice_of(index: nat, total: nat) -> Option<Notice> {
    if index < total && index % (PROGRESS_INTERVAL as nat) == 0 {
        Some(Notice::Progress { index: index as usize, total: total as usize })
    } else {
        None
    }
}

/// The notice that is due once the element at `index` gave `outcome`: one for
/// each of the first elements, up to the limit.
pub open spec fn sample_notice_of(index: nat, outcome: SampleOutcome) -> Option<Notice> {
    if index < DETAIL_LIMIT {
        Some(Notice::Sample { index: index as usize, outcome })
    } else {
        None
    }
}

/// Whether a pass over `total` elements may send `notice`.
pub open spec fn notice_in_pass(notice: Notice, total: nat) -> bool {
    match notice {
        Notice::Progress { index, total: of } => index < total && of == total && index
            % PROGRESS_INTERVAL == 0,
        Notice::Sample { index, outcome } => index < total && index < DETAIL_LIMIT,
    }
}

/// The figures of a finished pass.
pub struct RunSummary {
    /// The number of elements attempted.
    pub sample_size: nat,
    /// The number of elements that succeeded.
    pub successes: nat,
    /// The number of elements whose identifier was not well-formed.
    pub invalid: nat,
    /// The number of elements whose remote call failed.
    pub remote: nat,
    /// The wall-clock time of the pass, in nanoseconds.
    pub total_nanos: nat,
}

impl RunSummary {
    /// The number of elements that failed, for either reason.
    pub open spec fn failures(self) -> nat {
        self.invalid + self.remote
    }

    /// Whether the counts are those of `outcomes`, one per attempted element.
    pub open spec fn counts(self, outcomes: Seq<SampleOutcome>) -> bool {
        &&& self.sample_size == outcomes.len()
        &&& self.successes == successes(outcomes)
        &&& self.invalid == failures_with(outcomes, FailureReason::InvalidIdentifier)
        &&& self.remote == failures_with(outcomes, FailureReason::Remote)
    }
}

/// The aggregate of one finished pass.
#[derive(Clone, Copy, Debug)]
pub struct SamplingRun {
    total_duration: Elapsed,
    successes: usize,
    invalid: usize,
    remote: usize,
    sample_size: usize,
}

impl View for SamplingRun {
    type V = RunSummary;

    closed spec fn view(&self) -> RunSummary {
        RunSummary {
            sample_size: self.sample_size as nat,
            successes: self.successes as nat,
            invalid: self.invalid as nat,
            remote: self.remote as nat,
            total_nanos: self.total_duration.total_nanos(),
        }
    }
}

impl SamplingRun {
    #[verifier::type_invariant]
    spec fn counts_add_up(self) -> bool {
        self.successes + self.invalid + self.remote == self.sample_size
    }

    /// The number of elements attempted.
    pub fn sample_size(&self) -> (n: usize)
        ensures
            n == self@.sample_size,
            self@.successes + self@.failures() == n,
    {
        proof {
            use_type_invariant(self);
        }
        self.sample_size
    }

    /// The number of elements that succeeded.
    pub fn success_count(&self) -> (n: usize)
        ensures
            n == self@.successes,
    {
        self.successes
    }

    /// The number of elements that failed, for either reason.
    pub fn failure_count(&self) -> (n: usize)
        ensures
            n == self@.failures(),
            self@.successes + n == self@.sample_size,
    {
        proof {
            use_type_invariant(self);
        }
        self.invalid + self.remote
    }

    /// The number of elements whose identifier was not well-formed.
    pub fn invalid_count(&self) -> (n: usize)
        ensures
            n == self@.invalid,
    {
        self.invalid
    }

    /// The number of elements whose remote call failed.
    pub fn remote_failure_count(&self) -> (n: usize)
        ensures
            n == self@.remote,
    {
        self.remote
    }

    /// The wall-clock time of the pass.
    pub fn total_duration(&self) -> (span: Elapsed)
        ensures
            span.total_nanos() == self@.total_nanos,
    {
        self.total_duration
    }

    /// The time per attempted element, rounded down to the nanosecond; none
    /// for a pass that attempted nothing.
    pub fn average_duration(&self) -> (share: Option<Elapsed>)
        ensures
            share is Some <==> self@.sample_size != 0,
            share matches Some(e) ==> e.total_nanos() == self@.total_nanos / self@.sample_size,
    {
        self.total_duration.per_item(self.sample_size)
    }
}

/// The state of a pass in progress: the elements are attempted one at a time,
/// in the order of the input list, and each outcome is counted as it comes.
pub struct Sampler {
    total: usize,
    successes: usize,
    invalid: usize,
    remote: usize,
    history: Ghost<Seq<SampleOutcome>>,
}

impl Sampler {
    #[verifier::type_invariant]
    spec fn counts_follow_history(self) -> bool {
        &&& self.history@.len() <= self.total
        &&& self.successes == successes(self.history@)
        &&& self.invalid == failures_with(self.history@, FailureReason::InvalidIdentifier)
        &&& self.remote == failures_with(self.history@, FailureReason::Remote)
    }

    /// The number of elements the pass attempts in all.
    pub closed spec fn total(self) -> nat {
        self.total as nat
    }

    /// The outcomes recorded so far: the one at position `i` belongs to the
    /// element at index `i` of the input list.
    pub closed spec fn outcomes(self) -> Seq<SampleOutcome> {
        self.history@
    }

    /// Begins a pass over a list of `len` inputs of which `requested` are asked for.
    pub fn new(len: usize, requested: usize) -> (sampler: Sampler)
        ensures
            sampler.total() == effective_count_of(len as nat, requested as nat),
            sampler.outcomes() == Seq::<SampleOutcome>::empty(),
    {
        proof {
            lemma_counts_empty();
        }
        Sampler {
            total: effective_count(len, requested),
            successes: 0,
            invalid: 0,
            remote: 0,
            history: Ghost(Seq::empty()),
        }
    }

    /// The number of elements the pass attempts in all.
    pub fn sample_size(&self) -> (n: usize)
        ensures
            n == self.total(),
    {
        self.total
    }

    /// The index of the element to attempt next: the elements are taken in
    /// the order of the list, none twice and none skipped. There is none once
    /// every element of the sample has its outcome.
    pub fn next_index(&self) -> (next: Option<usize>)
        ensures
            self.outcomes().len() <= self.total(),
            next == if self.outcomes().len() < self.total() {
                Some(self.outcomes().len() as usize)
            } else {
                None
            },
    {
        proof {
            use_type_invariant(self);
            lemma_counts_partition(self.history@);
        }
        let attempted: usize = self.successes + self.invalid + self.remote;
        if attempted < self.total {
            Some(attempted)
        } else {
            None
        }
    }

    /// The progress notice that is due before the next element is attempted.
    pub fn progress_notice(&self) -> (notice: Option<Notice>)
        ensures
            notice == progress_notice_of(self.outcomes().len(), self.total()),
            notice matches Some(n) ==> notice_in_pass(n, self.total()),
    {
        match self.next_index() {
            Some(index) => {
                if progress_due(index) {
                    Some(Notice::Progress { index, total: self.total })
                } else {
                    None
                }
            },
            None => None,
        }
    }

    /// Counts the outcome of the element that `next_index` named, and
    /// returns the notice that is due for it.
    pub fn record(&mut self, outcome: SampleOutcome) -> (notice: Option<Notice>)
        requires
            old(self).outcomes().len() < old(self).total(),
        ensures
            final(self).total() == old(self).total(),
            final(self).outcomes() == old(self).outcomes().push(outcome),
            notice == sample_notice_of(old(self).outcomes().len(), outcome),
            notice matches Some(n) ==> notice_in_pass(n, old(self).total()),
    {
        proof {
            use_type_invariant(&*self);
            lemma_counts_partition(self.history@);
            lemma_counts_push(self.history@, outcome);
        }
        let index: usize = self.successes + self.invalid + self.remote;
        let ghost history = self.history@.push(outcome);
        match outcome {
            SampleOutcome::Success(_) => {
                *self = Sampler {
                    total: self.total,
                    successes: self.successes + 1,
                    invalid: self.invalid,
                    remote: self.remote,
                    history: Ghost(history),
                };
            },
            SampleOutcome::Failure(FailureReason::InvalidIdentifier) => {
                *self = Sampler {
                    total: self.total,
                    successes: self.successes,
                    invalid: self.invalid + 1,
                    remote: self.remote,
                    history: Ghost(history),
                };
            },
            SampleOutcome::Failure(FailureReason::Remote) => {
                *self = Sampler {
                    total: self.total,
                    successes: self.successes,
                    invalid: self.invalid,
                    remote: self.remote + 1,
                    history: Ghost(history),
                };
            },
        }
        if detail_due(index) {
            Some(Notice::Sample { index, outcome })
        } else {
            None
        }
    }

    /// Closes a pass in which every element of the sample has its outcome,
    /// with the time it took.
    pub fn finish(self, total_duration: Elapsed) -> (run: SamplingRun)
        requires
            self.outcomes().len() == self.total(),
        ensures
            run@.counts(self.outcomes()),
            run@.sample_size == self.total(),
            run@.total_nanos == total_duration.total_nanos(),
    {
        proof {
            use_type_invariant(&self);
            lemma_counts_partition(self.history@);
        }
        SamplingRun {
            total_duration,
            successes: self.successes,
            invalid: self.invalid,
            remote: self.remote,
            sample_size: self.total,
        }
    }
}

/// A pass over `len` inputs with `requested` samples attempts the smaller of
/// the two numbers of elements, and each of them counts once, as a success or
/// as a failure.
pub proof fn lemma_pass_accounts_for_every_element(
    len: nat,
    requested: nat,
    outcomes: Seq<SampleOutcome>,
    run: RunSummary,
)
    requires
        outcomes.len() == effective_count_of(len, requested),
        run.counts(outcomes),
    ensures
        run.sample_size == effective_count_of(len, requested),
        run.sample_size <= len,
        run.sample_size <= requested,
        run.sample_size == len || run.sample_size == requested,
        run.successes + run.failures() == run.sample_size,
        run.successes == successes(outcomes),
        run.failures() == failures(outcomes),
{
    lemma_counts_partition(outcomes);
}

} // verus!
