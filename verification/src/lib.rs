//! Opinion-consensus aggregation and clustering engine.
//!
//! Given a batch of per-user, per-statement votes (agree / disagree /
//! abstain), the engine deduplicates the votes into a sparse user-by-statement
//! matrix (last write wins), tallies per-statement agreement statistics over
//! the whole participant population, and bisects the participants into two
//! opinion groups by the sign of each user's mean vote value.
//!
//! Every quantity the engine reports is exact: ratios are kept as integer
//! fractions, so the result is a pure function of the input votes.

pub mod aggregate;
pub mod analyze;
pub mod cluster;
pub mod laws;
pub mod matrix;
pub mod model;
pub mod ratio;
pub mod vote;

pub use aggregate::StatementConsensus;
pub use analyze::{analyze_consensus, ConsensusResult};
pub use cluster::OpinionCluster;
pub use matrix::{build_matrix, recorded_vote, VoteMatrix};
pub use ratio::Ratio;
pub use vote::ConsensusVote;
