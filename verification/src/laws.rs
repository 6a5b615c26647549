//! The guarantees the engine gives of every analysis, stated and proved
//! over the mathematical model. `analyze_consensus` returns exactly
//! `analysis` of its input, so each law holds of every result it produces.

use vstd::prelude::*;

use crate::model::{
    analysis, distinct, first_seen, last_vote, lemma_first_seen_contains,
    lemma_first_seen_distinct, lemma_members_contains, lemma_members_distinct,
    lemma_members_partition, lemma_tally_partition, statement_ids, user_ids,
};
use crate::vote::VoteData;

verus! {

broadcast use vstd::seq_lib::group_seq_properties;

/// Population invariant: for every statement, the three tallies add up to
/// the participant count, which is also the statement's `total_voters` —
/// the population denominator is always the whole user set.
pub proof fn lemma_population_invariant(votes: Seq<VoteData>, j: int)
    requires
        0 <= j < analysis(votes).statements.len(),
    ensures
        analysis(votes).statements[j].agree_count + analysis(votes).statements[j].disagree_count
            + analysis(votes).statements[j].pass_count == analysis(votes).total_participants,
        analysis(votes).statements[j].total_voters == analysis(votes).total_participants,
{
    lemma_tally_partition(
        votes,
        first_seen(statement_ids(votes))[j],
        first_seen(user_ids(votes)),
    );
}

/// Ratio bounds: agreement ratio and divisiveness are exact fractions in
/// [0, 1] for every statement, and both are zero when no user took a side.
pub proof fn lemma_ratio_bounds(votes: Seq<VoteData>, j: int)
    requires
        0 <= j < analysis(votes).statements.len(),
    ensures
        0 < analysis(votes).statements[j].agreement_ratio.den,
        0 <= analysis(votes).statements[j].agreement_ratio.num <= analysis(
            votes,
        ).statements[j].agreement_ratio.den,
        0 < analysis(votes).statements[j].divisiveness.den,
        0 <= analysis(votes).statements[j].divisiveness.num <= analysis(
            votes,
        ).statements[j].divisiveness.den,
        analysis(votes).statements[j].agree_count + analysis(votes).statements[j].disagree_count
            == 0 ==> analysis(votes).statements[j].agreement_ratio.num == 0 && analysis(
            votes,
        ).statements[j].divisiveness.num == 0,
{
}

/// Partition completeness: the two group sizes add up to the participant
/// count, every input user is a member of exactly one of the two groups,
/// and each group holds input users only.
pub proof fn lemma_partition_completeness(votes: Seq<VoteData>)
    ensures
        analysis(votes).clusters[0].member_count + analysis(votes).clusters[1].member_count
            == analysis(votes).total_participants,
        forall|u: Seq<char>|
            #[trigger] user_ids(votes).contains(u) ==> (analysis(
                votes,
            ).clusters[0].member_ids.contains(u) != analysis(
                votes,
            ).clusters[1].member_ids.contains(u)),
        forall|u: Seq<char>|
            #[trigger] analysis(votes).clusters[0].member_ids.contains(u) || #[trigger] analysis(
                votes,
            ).clusters[1].member_ids.contains(u) ==> user_ids(votes).contains(u),
        distinct(analysis(votes).clusters[0].member_ids),
        distinct(analysis(votes).clusters[1].member_ids),
{
    let users = first_seen(user_ids(votes));
    let statements = first_seen(statement_ids(votes));
    lemma_members_partition(votes, users, statements);
    lemma_members_contains(votes, users, statements, true);
    lemma_members_contains(votes, users, statements, false);
    lemma_first_seen_contains(user_ids(votes));
    lemma_first_seen_distinct(user_ids(votes));
    lemma_members_distinct(votes, users, statements, true);
    lemma_members_distinct(votes, users, statements, false);
}

/// Canonical order: there is one statement record per distinct statement
/// identifier, in first-seen input order — the order every invocation on
/// the same input reproduces.
pub proof fn lemma_statement_order(votes: Seq<VoteData>)
    ensures
        analysis(votes).statements.len() == first_seen(statement_ids(votes)).len(),
        forall|j: int|
            0 <= j < analysis(votes).statements.len() ==> (#[trigger] analysis(
                votes,
            ).statements[j]).statement_id == first_seen(statement_ids(votes))[j],
        forall|i: int, j: int|
            0 <= i < j < analysis(votes).statements.len() ==> analysis(
                votes,
            ).statements[i].statement_id != analysis(votes).statements[j].statement_id,
{
    lemma_first_seen_distinct(statement_ids(votes));
    assert forall|i: int, j: int| 0 <= i < j < analysis(votes).statements.len() implies analysis(
        votes,
    ).statements[i].statement_id != analysis(votes).statements[j].statement_id by {
        assert(analysis(votes).statements[i].statement_id == first_seen(statement_ids(votes))[i]);
        assert(analysis(votes).statements[j].statement_id == first_seen(statement_ids(votes))[j]);
    }
}

/// Last write wins: when no later vote names the same user and statement,
/// the recorded value of the pair is the value of vote `k`.
pub proof fn lemma_last_write_wins(votes: Seq<VoteData>, k: int)
    requires
        0 <= k < votes.len(),
        forall|t: int|
            k < t < votes.len() ==> !((#[trigger] votes[t]).user == votes[k].user
                && votes[t].statement == votes[k].statement),
    ensures
        last_vote(votes, votes[k].user, votes[k].statement) == Some(votes[k].value),
    decreases votes.len(),
{
    if k < votes.len() - 1 {
        assert(votes.drop_last()[k] == votes[k]);
        lemma_last_write_wins(votes.drop_last(), k);
    }
}

/// The cluster count is 2 exactly when there is at least one participant,
/// and 0 otherwise: every user lands in one of the two groups.
pub proof fn lemma_cluster_count(votes: Seq<VoteData>)
    ensures
        analysis(votes).cluster_count == if analysis(votes).total_participants > 0 {
            2int
        } else {
            0int
        },
{
    let users = first_seen(user_ids(votes));
    let statements = first_seen(statement_ids(votes));
    lemma_members_partition(votes, users, statements);
}

} // verus!
