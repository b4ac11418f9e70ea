//! Query outcomes and the consensus estimator.
//!
//! The executor that actually talks to the time-reference network lives
//! outside this library: it races one query per peer against a per-peer
//! timeout and hands every outcome - success or failure, in whatever order
//! the queries complete - to the [`OutcomeSet`] fan-in point. The estimator
//! then reduces the complete set to a single consensus timestamp, or reports
//! why none is derivable.

use crate::median::calculate_trimmed_median;
use crate::median::trimmed_median_of;
use vstd::prelude::*;

verus! {

/// The result of one time query against one peer.
///
/// Exactly one outcome exists per configured peer per invocation; a peer that
/// fails or times out is recorded here, never silently dropped.
#[derive(Clone, Debug)]
pub enum QueryOutcome {
    /// The peer answered in time; the timestamp is the reported current time
    /// in milliseconds since the Unix epoch (UTC).
    Success { peer: String, timestamp_millis: i64 },
    /// The peer failed: a protocol error or a timeout, described by `reason`.
    Failure { peer: String, reason: String },
}

impl QueryOutcome {
    /// Whether this outcome carries a timestamp.
    pub open spec fn is_success(self) -> bool {
        self matches QueryOutcome::Success { .. }
    }

    /// The timestamp of a successful outcome.
    pub open spec fn spec_timestamp(self) -> i64
        recommends
            self.is_success(),
    {
        match self {
            QueryOutcome::Success { timestamp_millis, .. } => timestamp_millis,
            QueryOutcome::Failure { .. } => 0,
        }
    }
}

/// The timestamps of the successful outcomes of `s`, in order; failures
/// contribute nothing to the numeric computation.
pub open spec fn success_samples(s: Seq<QueryOutcome>) -> Seq<i64>
    decreases s.len(),
{
    if s.len() == 0 {
        Seq::empty()
    } else {
        let rest = success_samples(s.drop_last());
        if s.last().is_success() {
            rest.push(s.last().spec_timestamp())
        } else {
            rest
        }
    }
}

/// Extracts the timestamps of all successful outcomes, in order.
pub fn extract_success_samples(outcomes: &Vec<QueryOutcome>) -> (r: Vec<i64>)
    ensures
        r@ == success_samples(outcomes@),
{
    let mut samples: Vec<i64> = Vec::new();
    let mut i: usize = 0;
    while i < outcomes.len()
        invariant
            i <= outcomes@.len(),
            samples@ == success_samples(outcomes@.take(i as int)),
        decreases outcomes@.len() - i,
    {
        match &outcomes[i] {
            QueryOutcome::Success { timestamp_millis, .. } => {
                samples.push(*timestamp_millis);
            },
            QueryOutcome::Failure { .. } => {},
        }
        proof {
            assert(outcomes@.take(i as int + 1).drop_last() =~= outcomes@.take(i as int));
            assert(outcomes@.take(i as int + 1).last() == outcomes@[i as int]);
        }
        i = i + 1;
    }
    proof {
        assert(outcomes@.take(outcomes@.len() as int) =~= outcomes@);
    }
    samples
}

/// Why no consensus timestamp could be derived.
///
/// The two reasons are deliberately distinguishable: a caller that sees
/// `NoSuccessfulQueries` may retry later, while `InsufficientAgreement` hints
/// at widening the cutoff or lowering the quorum floor.
#[derive(Clone, Copy, Debug, PartialEq, Eq, Structural)]
pub enum ConsensusError {
    /// Every query failed: there were no successful samples at all.
    NoSuccessfulQueries,
    /// Successful samples existed, but after trimming fewer than the
    /// configured minimum remained.
    InsufficientAgreement,
}

impl ConsensusError {
    /// A human-readable reason, distinct per variant.
    pub fn message(&self) -> (r: &'static str)
        ensures
            *self is NoSuccessfulQueries ==> r@ == "no successful queries"@,
            *self is InsufficientAgreement ==> r@ == "not enough agreeing servers for consensus"@,
    {
        match self {
            ConsensusError::NoSuccessfulQueries => "no successful queries",
            ConsensusError::InsufficientAgreement => "not enough agreeing servers for consensus",
        }
    }
}

/// The full consensus decision as a function of the outcome set and the
/// invocation parameters: the two-pass trimmed median of the successful
/// samples, or the reason why no consensus exists.
pub open spec fn consensus_of(
    outcomes: Seq<QueryOutcome>,
    cutoff_ms: i64,
    minimum_keep: nat,
) -> Result<i64, ConsensusError> {
    let samples = success_samples(outcomes);
    if samples.len() == 0 {
        Err(ConsensusError::NoSuccessfulQueries)
    } else {
        match trimmed_median_of(samples, cutoff_ms, minimum_keep) {
            Some(t) => Ok(t),
            None => Err(ConsensusError::InsufficientAgreement),
        }
    }
}

/// Reduces a complete outcome set to a single consensus timestamp via the
/// two-pass trimmed median, or reports why none is derivable.
///
/// The result is a function of the outcome set and the parameters alone, so
/// re-running the estimator on the same set always yields the same answer.
/// An outcome set with no successful sample fails with
/// [`ConsensusError::NoSuccessfulQueries`]; one where fewer than
/// `minimum_keep` samples survive the trim fails with
/// [`ConsensusError::InsufficientAgreement`].
pub fn estimate_consensus(outcomes: &Vec<QueryOutcome>, cutoff_ms: i64, minimum_keep: usize) -> (r:
    Result<i64, ConsensusError>)
    ensures
        r == consensus_of(outcomes@, cutoff_ms, minimum_keep as nat),
        success_samples(outcomes@).len() == 0 <==> r == Err::<i64, ConsensusError>(
            ConsensusError::NoSuccessfulQueries,
        ),
{
    let samples = extract_success_samples(outcomes);
    if samples.len() == 0 {
        return Err(ConsensusError::NoSuccessfulQueries);
    }
    match calculate_trimmed_median(&samples, cutoff_ms, minimum_keep) {
        Some(t) => Ok(t),
        None => Err(ConsensusError::InsufficientAgreement),
    }
}

/// Re-running the estimator on the same fixed outcome set with the same
/// parameters always yields the same consensus result: any two results that
/// meet the contract of `estimate_consensus` on equal inputs are equal, so
/// the estimator hides no randomness.
pub proof fn lemma_estimator_idempotent(
    outcomes: Seq<QueryOutcome>,
    cutoff_ms: i64,
    minimum_keep: nat,
    r1: Result<i64, ConsensusError>,
    r2: Result<i64, ConsensusError>,
)
    requires
        r1 == consensus_of(outcomes, cutoff_ms, minimum_keep),
        r2 == consensus_of(outcomes, cutoff_ms, minimum_keep),
    ensures
        r1 == r2,
{
}

/// The consensus decision does not depend on the order in which the
/// concurrent queries completed: any two outcome sets whose successful
/// samples are permutations of each other yield the same consensus result.
pub proof fn lemma_consensus_order_independent(
    o1: Seq<QueryOutcome>,
    o2: Seq<QueryOutcome>,
    cutoff_ms: i64,
    minimum_keep: nat,
)
    requires
        success_samples(o1).to_multiset() == success_samples(o2).to_multiset(),
    ensures
        consensus_of(o1, cutoff_ms, minimum_keep) == consensus_of(o2, cutoff_ms, minimum_keep),
{
    vstd::seq_lib::to_multiset_len::<i64>(success_samples(o1));
    vstd::seq_lib::to_multiset_len::<i64>(success_samples(o2));
    crate::median::lemma_trimmed_median_permutation_invariant(
        success_samples(o1),
        success_samples(o2),
        cutoff_ms,
        minimum_keep,
    );
}

/// The fan-in collection point of the executor: one result slot per completed
/// query, merged in whatever order the concurrent queries finish, until every
/// configured peer has reported.
pub struct OutcomeSet {
    expected_peers: usize,
    outcomes: Vec<QueryOutcome>,
}

impl OutcomeSet {
    /// The outcomes collected so far, in completion order.
    pub closed spec fn spec_outcomes(self) -> Seq<QueryOutcome> {
        self.outcomes@
    }

    /// The number of configured peers, and so the number of outcomes a
    /// complete set holds.
    pub closed spec fn spec_expected_peers(self) -> nat {
        self.expected_peers as nat
    }

    /// No peer reports twice: the set never holds more outcomes than there
    /// are configured peers.
    pub open spec fn well_formed(self) -> bool {
        self.spec_outcomes().len() <= self.spec_expected_peers()
    }

    /// An empty outcome set for a panel of `expected_peers` peers.
    pub fn new(expected_peers: usize) -> (r: OutcomeSet)
        ensures
            r.well_formed(),
            r.spec_outcomes() == Seq::<QueryOutcome>::empty(),
            r.spec_expected_peers() == expected_peers as nat,
    {
        OutcomeSet { expected_peers, outcomes: Vec::new() }
    }

    /// Merges one completed query's outcome into the set. Outcomes arrive in
    /// no particular order; each call appends exactly one entry.
    pub fn record(&mut self, outcome: QueryOutcome)
        requires
            old(self).well_formed(),
            old(self).spec_outcomes().len() < old(self).spec_expected_peers(),
        ensures
            final(self).well_formed(),
            final(self).spec_outcomes() == old(self).spec_outcomes().push(outcome),
            final(self).spec_expected_peers() == old(self).spec_expected_peers(),
    {
        self.outcomes.push(outcome);
    }

    /// Whether every configured peer has reported an outcome - the barrier
    /// the executor waits on before consensus may run.
    pub fn is_complete(&self) -> (r: bool)
        ensures
            r == (self.spec_outcomes().len() == self.spec_expected_peers()),
    {
        self.outcomes.len() == self.expected_peers
    }

    /// The collected outcomes, for the estimator and for any reporting
    /// collaborator.
    pub fn outcomes(&self) -> (r: &Vec<QueryOutcome>)
        ensures
            r@ == self.spec_outcomes(),
    {
        &self.outcomes
    }
}

} // verus!
