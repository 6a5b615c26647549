//! Vote ingestion: deduplicating a batch of votes into a sparse
//! user-by-statement matrix together with the distinct identifier lists.

use vstd::prelude::*;

use crate::model::{
    distinct, first_seen, last_vote, lemma_first_seen_distinct, statement_ids, user_ids,
};
use crate::vote::{vote_models, ConsensusVote, VoteData};

verus! {

broadcast use vstd::seq_lib::group_seq_properties;

/// The mathematical reading of one optional recorded value.
pub open spec fn opt_value(v: Option<i8>) -> Option<int> {
    match v {
        Some(x) => Some(x as int),
        None => None,
    }
}

/// The sparse vote matrix of one invocation, with the distinct user and
/// statement identifiers in first-seen input order. `rows[i][j]` is the
/// recorded value of user `i` on statement `j`, `None` when that user never
/// voted on that statement.
pub struct VoteMatrix {
    pub users: Vec<String>,
    pub statements: Vec<String>,
    pub rows: Vec<Vec<Option<i8>>>,
}

impl VoteMatrix {
    /// The user identifiers as mathematical strings.
    pub open spec fn user_view(self) -> Seq<Seq<char>> {
        self.users@.map_values(|u: String| u@)
    }

    /// The statement identifiers as mathematical strings.
    pub open spec fn statement_view(self) -> Seq<Seq<char>> {
        self.statements@.map_values(|s: String| s@)
    }

    /// The recorded value of user `i` on statement `j`.
    pub open spec fn entry(self, i: int, j: int) -> Option<int> {
        opt_value(self.rows@[i]@[j])
    }

    /// Well-formed: one row per user, one column per statement, and each
    /// identifier listed once.
    pub open spec fn wf(self) -> bool {
        &&& self.rows@.len() == self.users@.len()
        &&& forall|i: int|
            0 <= i < self.rows@.len() ==> (#[trigger] self.rows@[i])@.len()
                == self.statements@.len()
        &&& distinct(self.user_view())
        &&& distinct(self.statement_view())
    }

    /// The matrix is exactly the content of `votes`: the identifier lists
    /// are the distinct identifiers in first-seen order, and every entry is
    /// the last vote the pair cast (last write wins).
    pub open spec fn from_votes(self, votes: Seq<VoteData>) -> bool {
        &&& self.user_view() == first_seen(user_ids(votes))
        &&& self.statement_view() == first_seen(statement_ids(votes))
        &&& forall|i: int, j: int|
            0 <= i < self.users@.len() && 0 <= j < self.statements@.len() ==> self.entry(i, j)
                == last_vote(votes, self.user_view()[i], self.statement_view()[j])
    }
}

/// Whether `id` already occurs in the identifier list.
fn contains_id(ids: &Vec<String>, id: &String) -> (r: bool)
    ensures
        r == ids@.map_values(|u: String| u@).contains(id@),
{
    let ghost view = ids@.map_values(|u: String| u@);
    let mut k: usize = 0;
    while k < ids.len()
        invariant
            k <= ids@.len(),
            view == ids@.map_values(|u: String| u@),
            forall|t: int| 0 <= t < k ==> view[t] != id@,
        decreases ids@.len() - k,
    {
        if ids[k] == *id {
            assert(view[k as int] == id@);
            return true;
        }
        k = k + 1;
    }
    assert forall|t: int| 0 <= t < view.len() implies view[t] != id@ by {}
    false
}

/// The recorded value of `user` on `statement`: the last matching vote in
/// input order, or `None` when the pair never voted.
pub fn recorded_vote(votes: &Vec<ConsensusVote>, user: &String, statement: &String) -> (r: Option<
    i8,
>)
    ensures
        opt_value(r) == last_vote(vote_models(votes@), user@, statement@),
{
    let ghost all = vote_models(votes@);
    let mut r: Option<i8> = None;
    let mut k: usize = 0;
    while k < votes.len()
        invariant
            k <= votes@.len(),
            all == vote_models(votes@),
            opt_value(r) == last_vote(all.take(k as int), user@, statement@),
        decreases votes@.len() - k,
    {
        let v = &votes[k];
        if v.user_id == *user && v.statement_id == *statement {
            r = Some(v.value);
        }
        proof {
            assert(all.take(k as int + 1).drop_last() =~= all.take(k as int));
            assert(all.take(k as int + 1).last() == votes@[k as int]@);
        }
        k = k + 1;
    }
    proof {
        assert(all.take(votes@.len() as int) =~= all);
    }
    r
}

/// Build the vote matrix of a batch of votes: collect the distinct user and
/// statement identifiers in first-seen order, then record for every pair
/// the last vote it cast.
#[verifier::loop_isolation(false)]
pub fn build_matrix(votes: &Vec<ConsensusVote>) -> (m: VoteMatrix)
    ensures
        m.wf(),
        m.from_votes(vote_models(votes@)),
        m.users@.len() <= votes@.len(),
        m.statements@.len() <= votes@.len(),
{
    let ghost all = vote_models(votes@);
    let mut users: Vec<String> = Vec::new();
    let mut statements: Vec<String> = Vec::new();
    let mut k: usize = 0;
    while k < votes.len()
        invariant
            k <= votes@.len(),
            users@.map_values(|u: String| u@) == first_seen(user_ids(all).take(k as int)),
            statements@.map_values(|s: String| s@) == first_seen(
                statement_ids(all).take(k as int),
            ),
            users@.len() <= k,
            statements@.len() <= k,
        decreases votes@.len() - k,
    {
        let v = &votes[k];
        proof {
            assert(user_ids(all).take(k as int + 1).drop_last() =~= user_ids(all).take(k as int));
            assert(user_ids(all).take(k as int + 1).last() == v.user_id@);
            assert(statement_ids(all).take(k as int + 1).drop_last() =~= statement_ids(all).take(
                k as int,
            ));
            assert(statement_ids(all).take(k as int + 1).last() == v.statement_id@);
        }
        if !contains_id(&users, &v.user_id) {
            users.push(v.user_id.clone());
            proof {
                assert(users@.map_values(|u: String| u@) =~= first_seen(
                    user_ids(all).take(k as int),
                ).push(v.user_id@));
            }
        }
        if !contains_id(&statements, &v.statement_id) {
            statements.push(v.statement_id.clone());
            proof {
                assert(statements@.map_values(|s: String| s@) =~= first_seen(
                    statement_ids(all).take(k as int),
                ).push(v.statement_id@));
            }
        }
        k = k + 1;
    }
    proof {
        assert(user_ids(all).take(votes@.len() as int) =~= user_ids(all));
        assert(statement_ids(all).take(votes@.len() as int) =~= statement_ids(all));
        lemma_first_seen_distinct(user_ids(all));
        lemma_first_seen_distinct(statement_ids(all));
    }
    let mut rows: Vec<Vec<Option<i8>>> = Vec::new();
    let mut i: usize = 0;
    while i < users.len()
        invariant
            i <= users@.len(),
            rows@.len() == i,
            forall|u: int| 0 <= u < i ==> (#[trigger] rows@[u])@.len() == statements@.len(),
            forall|u: int, s: int|
                0 <= u < i && 0 <= s < statements@.len() ==> opt_value(#[trigger] rows@[u]@[s])
                    == last_vote(all, users@[u]@, statements@[s]@),
        decreases users@.len() - i,
    {
        let mut row: Vec<Option<i8>> = Vec::new();
        let mut j: usize = 0;
        while j < statements.len()
            invariant
                j <= statements@.len(),
                row@.len() == j,
                forall|s: int|
                    0 <= s < j ==> opt_value(#[trigger] row@[s]) == last_vote(
                        all,
                        users@[i as int]@,
                        statements@[s]@,
                    ),
            decreases statements@.len() - j,
        {
            row.push(recorded_vote(votes, &users[i], &statements[j]));
            j = j + 1;
        }
        rows.push(row);
        i = i + 1;
    }
    let m = VoteMatrix { users, statements, rows };
    proof {
        assert forall|i0: int, j0: int|
            0 <= i0 < m.users@.len() && 0 <= j0 < m.statements@.len() implies m.entry(i0, j0)
            == last_vote(all, m.user_view()[i0], m.statement_view()[j0]) by {
            assert(m.user_view()[i0] == m.users@[i0]@);
            assert(m.statement_view()[j0] == m.statements@[j0]@);
        }
    }
    m
}

} // verus!
