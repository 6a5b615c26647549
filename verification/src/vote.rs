use vstd::prelude::*;

verus! {

/// The mathematical content of one vote: who voted, on what, and the value.
#[verifier::ext_equal]
pub ghost struct VoteData {
    pub user: Seq<char>,
    pub statement: Seq<char>,
    pub value: int,
}

/// One participant's stance on one statement.
///
/// `value` is `+1` for agree, `-1` for disagree, `0` for pass / abstain.
/// Values outside that range are accepted structurally and classified as a
/// pass by the aggregator; the same pair may occur more than once, in which
/// case the last occurrence in input order wins.
#[derive(Clone, Debug, PartialEq, Eq)]
pub struct ConsensusVote {
    pub user_id: String,
    pub statement_id: String,
    pub value: i8,
}

impl View for ConsensusVote {
    type V = VoteData;

    open spec fn view(&self) -> VoteData {
        VoteData {
            user: self.user_id@,
            statement: self.statement_id@,
            value: self.value as int,
        }
    }
}

/// The mathematical content of a batch of votes, in input order.
pub open spec fn vote_models(votes: Seq<ConsensusVote>) -> Seq<VoteData> {
    votes.map_values(|v: ConsensusVote| v@)
}

} // verus!
