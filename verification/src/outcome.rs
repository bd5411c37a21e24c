//! What one sampled element yields, and how a sequence of outcomes is counted.

use vstd::prelude::*;

verus! {

/// Why a sampled element counts as a failure.
#[derive(Clone, Copy, Debug, PartialEq, Eq, Structural)]
pub enum FailureReason {
    /// The input text is not a well-formed identifier; no remote call was made.
    InvalidIdentifier,
    /// The remote call was made and reported an error.
    Remote,
}

/// What a successful remote call found.
#[derive(Clone, Copy, Debug, PartialEq, Eq, Structural)]
pub enum SampleDetail {
    /// An unspent-output lookup, with the number of entries returned.
    Utxos(usize),
    /// A transaction fetch: the transaction is present.
    Transaction,
}

/// The result of sampling one input.
#[derive(Clone, Copy, Debug, PartialEq, Eq, Structural)]
pub enum SampleOutcome {
    Success(SampleDetail),
    Failure(FailureReason),
}

/// The number of successes among `outcomes`.
pub open spec fn successes(outcomes: Seq<SampleOutcome>) -> nat {
    outcomes.filter(|o: SampleOutcome| o is Success).len()
}

/// The number of failures among `outcomes` that have the given reason.
pub open spec fn failures_with(outcomes: Seq<SampleOutcome>, reason: FailureReason) -> nat {
    outcomes.filter(|o: SampleOutcome| o == SampleOutcome::Failure(reason)).len()
}

/// The number of failures among `outcomes`, whatever their reason.
pub open spec fn failures(outcomes: Seq<SampleOutcome>) -> nat {
    outcomes.filter(|o: SampleOutcome| o is Failure).len()
}

/// Counting an empty sequence gives zero in every class.
pub proof fn lemma_counts_empty()
    ensures
        successes(Seq::empty()) == 0,
        failures(Seq::empty()) == 0,
        forall|reason: FailureReason| failures_with(Seq::empty(), reason) == 0,
{
    reveal(Seq::filter);
}

/// One more outcome raises the count of its own class by one and leaves the
/// other counts as they were.
pub proof fn lemma_counts_push(outcomes: Seq<SampleOutcome>, next: SampleOutcome)
    ensures
        successes(outcomes.push(next)) == successes(outcomes) + if next is Success {
            1nat
        } else {
            0nat
        },
        failures(outcomes.push(next)) == failures(outcomes) + if next is Failure {
            1nat
        } else {
            0nat
        },
        forall|reason: FailureReason|
            failures_with(outcomes.push(next), reason) == #[trigger] failures_with(
                outcomes,
                reason,
            ) + if next == SampleOutcome::Failure(reason) {
                1nat
            } else {
                0nat
            },
{
    reveal(Seq::filter);
    assert(outcomes.push(next).drop_last() =~= outcomes);
}

/// Every outcome is a success or a failure, and every failure has exactly one
/// reason: the class counts add up to the length.
pub proof fn lemma_counts_partition(outcomes: Seq<SampleOutcome>)
    ensures
        successes(outcomes) + failures(outcomes) == outcomes.len(),
        failures(outcomes) == failures_with(outcomes, FailureReason::InvalidIdentifier)
            + failures_with(outcomes, FailureReason::Remote),
    decreases outcomes.len(),
{
    if outcomes.len() == 0 {
        lemma_counts_empty();
    } else {
        let init = outcomes.drop_last();
        lemma_counts_partition(init);
        lemma_counts_push(init, outcomes.last());
        assert(init.push(outcomes.last()) =~= outcomes);
    }
}

/// Where every outcome is a failure, no success is counted and the failures
/// are as many as the outcomes.
pub proof fn lemma_all_failures(outcomes: Seq<SampleOutcome>)
    requires
        forall|i: int| 0 <= i < outcomes.len() ==> outcomes[i] is Failure,
    ensures
        successes(outcomes) == 0,
        failures(outcomes) == outcomes.len(),
    decreases outcomes.len(),
{
    if outcomes.len() == 0 {
        lemma_counts_empty();
    } else {
        let init = outcomes.drop_last();
        lemma_all_failures(init);
        lemma_counts_push(init, outcomes.last());
        assert(init.push(outcomes.last()) =~= outcomes);
    }
}

} // verus!
