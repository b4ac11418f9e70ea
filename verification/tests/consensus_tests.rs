use ntp_consensus::consensus::{estimate_consensus, ConsensusError, OutcomeSet, QueryOutcome};

fn success(peer: &str, timestamp_millis: i64) -> QueryOutcome {
    QueryOutcome::Success { peer: peer.to_string(), timestamp_millis }
}

fn failure(peer: &str, reason: &str) -> QueryOutcome {
    QueryOutcome::Failure { peer: peer.to_string(), reason: reason.to_string() }
}

#[test]
fn all_failures_mean_no_successful_queries() {
    let outcomes = vec![
        failure("p1", "TIMEOUT"),
        failure("p2", "connection refused"),
        failure("p3", "TIMEOUT"),
    ];
    assert_eq!(estimate_consensus(&outcomes, 19, 3), Err(ConsensusError::NoSuccessfulQueries));
}

#[test]
fn too_few_survivors_mean_insufficient_agreement() {
    // Both queries succeed, but the outlier is trimmed and only one sample
    // survives - below the quorum floor of two. The reason is distinct from
    // the empty-sample-list reason.
    let outcomes = vec![success("p1", 0), success("p2", 1000)];
    assert_eq!(estimate_consensus(&outcomes, 19, 2), Err(ConsensusError::InsufficientAgreement));
}

#[test]
fn error_reasons_are_distinguishable() {
    assert_ne!(
        ConsensusError::NoSuccessfulQueries.message(),
        ConsensusError::InsufficientAgreement.message()
    );
    assert_eq!(ConsensusError::NoSuccessfulQueries.message(), "no successful queries");
    assert_eq!(
        ConsensusError::InsufficientAgreement.message(),
        "not enough agreeing servers for consensus"
    );
}

#[test]
fn estimator_is_idempotent_on_a_fixed_outcome_set() {
    let outcomes = vec![
        success("p1", 1000),
        failure("p2", "TIMEOUT"),
        success("p3", 1004),
        success("p4", 1002),
    ];
    let first = estimate_consensus(&outcomes, 19, 3);
    let second = estimate_consensus(&outcomes, 19, 3);
    assert_eq!(first, second);
    assert_eq!(first, Ok(1002));
}

#[test]
fn five_close_peers_reach_consensus_on_their_median() {
    // All five report within 5 ms of each other, so with cutoff 19 every
    // sample survives and the result is the second-pass median of all five.
    let outcomes = vec![
        success("p1", 1003),
        success("p2", 1000),
        success("p3", 1004),
        success("p4", 1001),
        success("p5", 1002),
    ];
    assert_eq!(estimate_consensus(&outcomes, 19, 3), Ok(1002));
}

#[test]
fn thirteen_peer_panel_trims_the_outlier_and_ignores_failures() {
    // Two peers time out, one returns a protocol error, and of the ten
    // successful peers one is 500 ms off. The outlier is trimmed and the
    // consensus is the median of the remaining nine samples.
    let base: i64 = 1_000_000;
    let outcomes = vec![
        success("p1", base),
        success("p2", base + 500),
        success("p3", base + 2),
        failure("p4", "TIMEOUT"),
        success("p5", base + 4),
        success("p6", base + 5),
        failure("p7", "protocol error"),
        success("p8", base + 6),
        failure("p9", "TIMEOUT"),
        success("p10", base + 7),
        success("p11", base + 8),
        success("p12", base + 9),
        success("p13", base + 10),
    ];
    // Successful samples sorted: base + [0, 2, 4, 5, 6, 7, 8, 9, 10, 500];
    // the first-pass median (index 5) is base + 7, the outlier's offset is
    // 493 > 19, and the second-pass median of the nine survivors is base + 6.
    assert_eq!(estimate_consensus(&outcomes, 19, 3), Ok(base + 6));
}

#[test]
fn two_agreeing_peers_are_not_a_quorum_of_three() {
    let outcomes = vec![
        success("p1", 1000),
        success("p2", 1001),
        failure("p3", "TIMEOUT"),
        failure("p4", "TIMEOUT"),
        failure("p5", "protocol error"),
    ];
    let result = estimate_consensus(&outcomes, 19, 3);
    assert_eq!(result, Err(ConsensusError::InsufficientAgreement));
    assert_eq!(result.unwrap_err().message(), "not enough agreeing servers for consensus");
}

#[test]
fn a_panel_of_timeouts_reports_no_successful_queries() {
    let peers = ["p1", "p2", "p3", "p4", "p5", "p6", "p7"];
    let outcomes: Vec<QueryOutcome> = peers.iter().map(|p| failure(p, "TIMEOUT")).collect();
    let result = estimate_consensus(&outcomes, 19, 3);
    assert_eq!(result, Err(ConsensusError::NoSuccessfulQueries));
    assert_eq!(result.unwrap_err().message(), "no successful queries");
}

#[test]
fn outcome_set_collects_one_entry_per_peer_in_any_order() {
    let mut set = OutcomeSet::new(3);
    assert!(!set.is_complete());
    set.record(success("p2", 1001));
    set.record(failure("p3", "TIMEOUT"));
    assert!(!set.is_complete());
    set.record(success("p1", 1000));
    assert!(set.is_complete());
    assert_eq!(set.outcomes().len(), 3);
    assert_eq!(estimate_consensus(set.outcomes(), 19, 2), Ok(1001));
}

#[test]
fn consensus_does_not_depend_on_completion_order() {
    let forward = vec![success("p1", 1000), success("p2", 1005), failure("p3", "TIMEOUT")];
    let backward = vec![failure("p3", "TIMEOUT"), success("p2", 1005), success("p1", 1000)];
    assert_eq!(
        estimate_consensus(&forward, 19, 2),
        estimate_consensus(&backward, 19, 2)
    );
    assert_eq!(estimate_consensus(&forward, 19, 2), Ok(1005));
}
