//! The single entry point of the engine: one analysis invocation, a pure
//! function of the input vote batch.

use vstd::prelude::*;

use crate::aggregate::{aggregate_statements, col_stats, lemma_col_stats, StatementConsensus};
use crate::cluster::{bisect_users, lemma_members_prefix, make_cluster, OpinionCluster};
use crate::matrix::build_matrix;
use crate::model::{analysis, cluster_model, ResultModel};
use crate::vote::{vote_models, ConsensusVote};

verus! {

/// The outcome of one analysis invocation: one consensus record per
/// distinct statement, the participant count, and the two opinion groups.
#[derive(Debug, PartialEq, Eq)]
pub struct ConsensusResult {
    pub statements: Vec<StatementConsensus>,
    pub total_participants: u32,
    pub cluster_count: u32,
    pub clusters: Vec<OpinionCluster>,
}

impl View for ConsensusResult {
    type V = ResultModel;

    open spec fn view(&self) -> ResultModel {
        ResultModel {
            statements: self.statements@.map_values(|c: StatementConsensus| c@),
            total_participants: self.total_participants as int,
            cluster_count: self.cluster_count as int,
            clusters: self.clusters@.map_values(|c: OpinionCluster| c@),
        }
    }
}

/// Analyze a batch of votes: deduplicate them into the vote matrix (last
/// write wins), tally every statement over the whole participant
/// population, and bisect the participants into two opinion groups by mean
/// vote sign. The result is exactly `analysis` of the input — a pure
/// function of the vote sequence, so repeated invocations on the same
/// input are identical.
pub fn analyze_consensus(votes: &Vec<ConsensusVote>) -> (r: ConsensusResult)
    requires
        votes@.len() <= u32::MAX,
    ensures
        r@ == analysis(vote_models(votes@)),
{
    let ghost all = vote_models(votes@);
    let m = build_matrix(votes);
    let statements = aggregate_statements(&m);
    let (group0, group1) = bisect_users(&m);
    let any_member = group0.len() > 0 || group1.len() > 0;
    let cluster0 = make_cluster(0, group0);
    let cluster1 = make_cluster(1, group1);
    let mut clusters: Vec<OpinionCluster> = Vec::new();
    clusters.push(cluster0);
    clusters.push(cluster1);
    let r = ConsensusResult {
        statements,
        total_participants: m.users.len() as u32,
        cluster_count: if any_member {
            2
        } else {
            0
        },
        clusters,
    };
    proof {
        let spec_r = analysis(all);
        let users = m.user_view();
        let stmts = m.statement_view();
        assert(users.take(users.len() as int) =~= users);
        lemma_members_prefix(m, all, m.users@.len() as int, true);
        lemma_members_prefix(m, all, m.users@.len() as int, false);
        assert forall|j: int| 0 <= j < r@.statements.len() implies r@.statements[j]
            == spec_r.statements[j] by {
            lemma_col_stats(m, all, j);
            assert(r@.statements[j] == col_stats(m, j));
        }
        assert(r@.statements =~= spec_r.statements);
        assert(r@.clusters[0] =~= cluster_model(all, users, stmts, 0));
        assert(r@.clusters[1] =~= cluster_model(all, users, stmts, 1));
        assert(r@.clusters =~= spec_r.clusters);
        assert(r@ =~= spec_r);
    }
    r
}

} // verus!
