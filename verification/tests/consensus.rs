//! End-to-end tests of the consensus engine: the scenarios the engine must
//! reproduce exactly, and its guarantees checked on concrete inputs.

use consensus_engine::analyze_consensus;
use consensus_engine::ConsensusVote;
use consensus_engine::Ratio;

fn vote(user: &str, statement: &str, value: i8) -> ConsensusVote {
    ConsensusVote {
        user_id: user.to_string(),
        statement_id: statement.to_string(),
        value,
    }
}

fn as_f64(r: Ratio) -> f64 {
    r.num as f64 / r.den as f64
}

#[test]
fn empty_input() {
    let result = analyze_consensus(&vec![]);
    assert_eq!(result.statements.len(), 0);
    assert_eq!(result.total_participants, 0);
    assert_eq!(result.cluster_count, 0);
    assert_eq!(result.clusters.len(), 2);
    assert_eq!(result.clusters[0].id, 0);
    assert_eq!(result.clusters[0].member_count, 0);
    assert_eq!(result.clusters[0].member_ids.len(), 0);
    assert_eq!(as_f64(result.clusters[0].avg_agreement), 0.0);
    assert_eq!(result.clusters[1].id, 1);
    assert_eq!(result.clusters[1].member_count, 0);
    assert_eq!(result.clusters[1].member_ids.len(), 0);
    assert_eq!(as_f64(result.clusters[1].avg_agreement), 0.0);
}

#[test]
fn unanimous_agreement() {
    let votes = vec![vote("u1", "s1", 1), vote("u2", "s1", 1)];
    let result = analyze_consensus(&votes);
    assert_eq!(result.statements.len(), 1);
    let s1 = &result.statements[0];
    assert_eq!(s1.statement_id, "s1");
    assert_eq!(s1.agree_count, 2);
    assert_eq!(s1.disagree_count, 0);
    assert_eq!(s1.pass_count, 0);
    assert_eq!(as_f64(s1.agreement_ratio), 1.0);
    assert_eq!(as_f64(s1.divisiveness), 0.0);
    assert_eq!(result.clusters[0].member_count, 2);
    assert_eq!(result.clusters[1].member_count, 0);
    assert_eq!(result.cluster_count, 2);
}

#[test]
fn perfect_split() {
    let votes = vec![vote("u1", "s1", 1), vote("u2", "s1", -1)];
    let result = analyze_consensus(&votes);
    let s1 = &result.statements[0];
    assert_eq!(as_f64(s1.agreement_ratio), 0.5);
    assert_eq!(as_f64(s1.divisiveness), 1.0);
    assert_eq!(result.clusters[0].member_ids, vec!["u1".to_string()]);
    assert_eq!(result.clusters[1].member_ids, vec!["u2".to_string()]);
}

#[test]
fn statement_answered_by_minority() {
    // Five users in all; only u1 takes a side on s1. The population
    // denominator is the whole user set, so s1 shows four passes, while
    // the agreement ratio is computed over the one decisive voter alone.
    let votes = vec![
        vote("u1", "s1", 1),
        vote("u2", "s2", 0),
        vote("u3", "s2", 0),
        vote("u4", "s2", 0),
        vote("u5", "s2", 0),
    ];
    let result = analyze_consensus(&votes);
    assert_eq!(result.total_participants, 5);
    let s1 = &result.statements[0];
    assert_eq!(s1.statement_id, "s1");
    assert_eq!(s1.agree_count, 1);
    assert_eq!(s1.disagree_count, 0);
    assert_eq!(s1.pass_count, 4);
    assert_eq!(s1.total_voters, 5);
    assert_eq!(as_f64(s1.agreement_ratio), 1.0);
}

#[test]
fn last_write_wins() {
    let votes = vec![vote("u1", "s1", 1), vote("u1", "s1", -1)];
    let result = analyze_consensus(&votes);
    assert_eq!(result.total_participants, 1);
    let s1 = &result.statements[0];
    assert_eq!(s1.agree_count, 0);
    assert_eq!(s1.disagree_count, 1);
    assert_eq!(s1.pass_count, 0);
    // The single user's recorded vote is -1, so the mean is negative.
    assert_eq!(result.clusters[1].member_ids, vec!["u1".to_string()]);
}

#[test]
fn repeated_invocations_are_identical() {
    let votes = vec![
        vote("carol", "s2", -1),
        vote("alice", "s1", 1),
        vote("bob", "s1", -1),
        vote("alice", "s2", 0),
        vote("bob", "s2", 1),
    ];
    let first = analyze_consensus(&votes);
    let second = analyze_consensus(&votes);
    assert_eq!(first, second);
}

#[test]
fn first_seen_order_is_kept() {
    let votes = vec![
        vote("zoe", "beta", 1),
        vote("amy", "alpha", 1),
        vote("zoe", "alpha", -1),
        vote("amy", "beta", -1),
    ];
    let result = analyze_consensus(&votes);
    let order: Vec<&str> = result.statements.iter().map(|s| s.statement_id.as_str()).collect();
    assert_eq!(order, vec!["beta", "alpha"]);
    let members: Vec<String> = result
        .clusters
        .iter()
        .flat_map(|c| c.member_ids.clone())
        .collect();
    assert_eq!(members, vec!["zoe".to_string(), "amy".to_string()]);
}

#[test]
fn population_invariant_holds() {
    let votes = vec![
        vote("u1", "s1", 1),
        vote("u2", "s1", -1),
        vote("u3", "s2", 0),
        vote("u4", "s3", 7),
        vote("u1", "s3", -1),
    ];
    let result = analyze_consensus(&votes);
    assert_eq!(result.statements.len(), 3);
    for s in &result.statements {
        assert_eq!(
            s.agree_count + s.disagree_count + s.pass_count,
            result.total_participants
        );
        assert_eq!(s.total_voters, result.total_participants);
    }
}

#[test]
fn ratio_bounds_hold() {
    let votes = vec![
        vote("u1", "s1", 1),
        vote("u2", "s1", -1),
        vote("u3", "s1", -1),
        vote("u4", "s2", 0),
    ];
    let result = analyze_consensus(&votes);
    for s in &result.statements {
        assert!(s.agreement_ratio.den > 0);
        assert!(s.agreement_ratio.num <= s.agreement_ratio.den);
        assert!(s.divisiveness.den > 0);
        assert!(s.divisiveness.num <= s.divisiveness.den);
        if s.agree_count + s.disagree_count == 0 {
            assert_eq!(s.agreement_ratio.num, 0);
            assert_eq!(s.divisiveness.num, 0);
        }
    }
    let s1 = &result.statements[0];
    assert_eq!((s1.agreement_ratio.num, s1.agreement_ratio.den), (1, 3));
    assert_eq!((s1.divisiveness.num, s1.divisiveness.den), (2, 3));
    let s2 = &result.statements[1];
    assert_eq!((s2.agreement_ratio.num, s2.agreement_ratio.den), (0, 1));
    assert_eq!((s2.divisiveness.num, s2.divisiveness.den), (0, 1));
}

#[test]
fn partition_is_complete() {
    let votes = vec![
        vote("u1", "s1", 1),
        vote("u2", "s1", -1),
        vote("u3", "s2", -1),
        vote("u4", "s2", 0),
        vote("u5", "s3", 1),
    ];
    let result = analyze_consensus(&votes);
    assert_eq!(
        result.clusters[0].member_count + result.clusters[1].member_count,
        result.total_participants
    );
    for user in ["u1", "u2", "u3", "u4", "u5"] {
        let in_first = result.clusters[0].member_ids.iter().any(|m| m == user);
        let in_second = result.clusters[1].member_ids.iter().any(|m| m == user);
        assert!(in_first != in_second);
    }
}

#[test]
fn out_of_range_value_is_a_pass() {
    let votes = vec![vote("u1", "s1", 5), vote("u2", "s1", -2)];
    let result = analyze_consensus(&votes);
    let s1 = &result.statements[0];
    assert_eq!(s1.agree_count, 0);
    assert_eq!(s1.disagree_count, 0);
    assert_eq!(s1.pass_count, 2);
    assert_eq!(as_f64(s1.agreement_ratio), 0.0);
    assert_eq!(as_f64(s1.divisiveness), 0.0);
    // Out-of-range values count as 0 in the mean, so both users land in
    // the non-negative group.
    assert_eq!(result.clusters[0].member_count, 2);
    assert_eq!(result.clusters[1].member_count, 0);
}

#[test]
fn explicit_abstain_is_a_pass() {
    let votes = vec![vote("u1", "s1", 0)];
    let result = analyze_consensus(&votes);
    let s1 = &result.statements[0];
    assert_eq!(s1.agree_count, 0);
    assert_eq!(s1.disagree_count, 0);
    assert_eq!(s1.pass_count, 1);
    assert_eq!(result.cluster_count, 2);
    assert_eq!(result.clusters[0].member_count, 1);
}

#[test]
fn cluster_constants() {
    let votes = vec![vote("u1", "s1", 1), vote("u2", "s1", -1)];
    let result = analyze_consensus(&votes);
    assert_eq!((result.clusters[0].avg_agreement.num, result.clusters[0].avg_agreement.den), (7, 10));
    assert_eq!(as_f64(result.clusters[0].avg_agreement), 0.7);
    assert_eq!((result.clusters[1].avg_agreement.num, result.clusters[1].avg_agreement.den), (3, 10));
    assert_eq!(as_f64(result.clusters[1].avg_agreement), 0.3);
}

#[test]
fn negative_lean_goes_to_second_group() {
    let votes = vec![
        vote("u1", "s1", -1),
        vote("u1", "s2", 1),
        vote("u1", "s3", -1),
    ];
    let result = analyze_consensus(&votes);
    assert_eq!(result.clusters[0].member_count, 0);
    assert_eq!(result.clusters[1].member_ids, vec!["u1".to_string()]);
    assert_eq!(result.cluster_count, 2);
}
