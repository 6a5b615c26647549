//! Tests of the ingestion stage: identifier deduplication in first-seen
//! order and the last-write-wins vote matrix.

use consensus_engine::build_matrix;
use consensus_engine::recorded_vote;
use consensus_engine::ConsensusVote;

fn vote(user: &str, statement: &str, value: i8) -> ConsensusVote {
    ConsensusVote {
        user_id: user.to_string(),
        statement_id: statement.to_string(),
        value,
    }
}

#[test]
fn matrix_records_last_write() {
    let votes = vec![vote("u1", "s1", 1), vote("u1", "s1", -1)];
    assert_eq!(
        recorded_vote(&votes, &"u1".to_string(), &"s1".to_string()),
        Some(-1)
    );
    let m = build_matrix(&votes);
    assert_eq!(m.users, vec!["u1".to_string()]);
    assert_eq!(m.statements, vec!["s1".to_string()]);
    assert_eq!(m.rows, vec![vec![Some(-1)]]);
}

#[test]
fn missing_vote_is_not_recorded() {
    let votes = vec![vote("u1", "s1", 1), vote("u2", "s2", 0)];
    let m = build_matrix(&votes);
    assert_eq!(m.rows.len(), 2);
    assert_eq!(m.rows[0], vec![Some(1), None]);
    assert_eq!(m.rows[1], vec![None, Some(0)]);
}

#[test]
fn identifiers_deduplicate_in_first_seen_order() {
    let votes = vec![
        vote("bob", "s2", 1),
        vote("amy", "s1", 1),
        vote("bob", "s1", 0),
        vote("amy", "s2", -1),
    ];
    let m = build_matrix(&votes);
    assert_eq!(m.users, vec!["bob".to_string(), "amy".to_string()]);
    assert_eq!(m.statements, vec!["s2".to_string(), "s1".to_string()]);
}

#[test]
fn empty_batch_builds_empty_matrix() {
    let m = build_matrix(&vec![]);
    assert_eq!(m.users.len(), 0);
    assert_eq!(m.statements.len(), 0);
    assert_eq!(m.rows.len(), 0);
}
