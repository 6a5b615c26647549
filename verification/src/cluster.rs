//! Opinion bisection: partition the participants into exactly two groups by
//! the sign of each user's mean vote value across all statements.

use vstd::prelude::*;

use crate::matrix::VoteMatrix;
use crate::model::{cluster_members, sway, user_lean, ClusterModel};
use crate::ratio::{Ratio, RatioModel};
use crate::vote::VoteData;

verus! {

broadcast use vstd::seq_lib::group_seq_properties;

/// One of the two opinion groups. `avg_agreement` is a fixed descriptive
/// constant per group (7/10 for group 0, 3/10 for group 1, 0 when the group
/// is empty), not a statistic derived from the members' votes.
#[derive(Debug, PartialEq, Eq)]
pub struct OpinionCluster {
    pub id: u32,
    pub member_count: u32,
    pub member_ids: Vec<String>,
    pub avg_agreement: Ratio,
}

impl View for OpinionCluster {
    type V = ClusterModel;

    open spec fn view(&self) -> ClusterModel {
        ClusterModel {
            id: self.id as int,
            member_count: self.member_count as int,
            member_ids: self.member_ids@.map_values(|u: String| u@),
            avg_agreement: self.avg_agreement@,
        }
    }
}

/// The sum of the sways of the first `n` recorded values of user `i` of the
/// matrix. The user's mean vote value has the sign of this sum.
pub open spec fn row_lean(m: VoteMatrix, i: int, n: int) -> int
    decreases n,
{
    if n <= 0 {
        0
    } else {
        row_lean(m, i, n - 1) + sway(m.entry(i, n - 1))
    }
}

/// The lean of user `i` over all statements of the matrix.
pub open spec fn matrix_lean(m: VoteMatrix, i: int) -> int {
    row_lean(m, i, m.statements@.len() as int)
}

/// The members of one group, drawn from the first `n` users of the matrix
/// in user-set order: those whose lean sign matches `nonneg`.
pub open spec fn members_prefix(m: VoteMatrix, n: int, nonneg: bool) -> Seq<Seq<char>>
    decreases n,
{
    if n <= 0 {
        Seq::empty()
    } else {
        let rest = members_prefix(m, n - 1, nonneg);
        if (matrix_lean(m, n - 1) >= 0) == nonneg {
            rest.push(m.user_view()[n - 1])
        } else {
            rest
        }
    }
}

/// A matrix row lean is the model lean over the statement prefix.
pub proof fn lemma_row_lean(m: VoteMatrix, votes: Seq<VoteData>, i: int, n: int)
    requires
        m.wf(),
        m.from_votes(votes),
        0 <= i < m.users@.len(),
        0 <= n <= m.statements@.len(),
    ensures
        row_lean(m, i, n) == user_lean(votes, m.user_view()[i], m.statement_view().take(n)),
    decreases n,
{
    if n > 0 {
        lemma_row_lean(m, votes, i, n - 1);
        assert(m.statement_view().take(n).drop_last() =~= m.statement_view().take(n - 1));
        assert(m.statement_view().take(n).last() == m.statement_view()[n - 1]);
    }
}

/// The matrix group members are the model group members over the user
/// prefix.
pub proof fn lemma_members_prefix(m: VoteMatrix, votes: Seq<VoteData>, n: int, nonneg: bool)
    requires
        m.wf(),
        m.from_votes(votes),
        0 <= n <= m.users@.len(),
    ensures
        members_prefix(m, n, nonneg) == cluster_members(
            votes,
            m.user_view().take(n),
            m.statement_view(),
            nonneg,
        ),
    decreases n,
{
    if n > 0 {
        lemma_members_prefix(m, votes, n - 1, nonneg);
        assert(m.user_view().take(n).drop_last() =~= m.user_view().take(n - 1));
        assert(m.user_view().take(n).last() == m.user_view()[n - 1]);
        lemma_row_lean(m, votes, n - 1, m.statements@.len() as int);
        assert(m.statement_view().take(m.statements@.len() as int) =~= m.statement_view());
    }
}

/// The lean of user `i`: the sum of the user's recorded vote values over
/// all statements, a recorded `+1` counting as 1, a recorded `-1` as -1,
/// and any other recorded value, like a missing vote, as 0.
#[verifier::loop_isolation(false)]
fn lean_of_user(m: &VoteMatrix, i: usize) -> (lean: i64)
    requires
        m.wf(),
        i < m.users@.len(),
        m.statements@.len() <= u32::MAX,
    ensures
        lean == matrix_lean(*m, i as int),
{
    let row = &m.rows[i];
    let n = row.len();
    let mut lean: i64 = 0;
    let mut j: usize = 0;
    while j < n
        invariant
            j <= n,
            n == m.statements@.len(),
            lean == row_lean(*m, i as int, j as int),
            -(j as int) <= lean <= j as int,
        decreases n - j,
    {
        let value = row[j];
        match value {
            Some(1) => {
                lean = lean + 1;
            },
            Some(-1) => {
                lean = lean - 1;
            },
            _ => {},
        }
        j = j + 1;
    }
    lean
}

/// Split the user population in two by lean sign: users with a non-negative
/// lean (mean vote value at least 0) form group 0, the others group 1, each
/// group in user-set order. Every user lands in exactly one group.
#[verifier::loop_isolation(false)]
pub fn bisect_users(m: &VoteMatrix) -> (groups: (Vec<String>, Vec<String>))
    requires
        m.wf(),
        m.statements@.len() <= u32::MAX,
    ensures
        groups.0@.map_values(|u: String| u@) == members_prefix(
            *m,
            m.users@.len() as int,
            true,
        ),
        groups.1@.map_values(|u: String| u@) == members_prefix(
            *m,
            m.users@.len() as int,
            false,
        ),
        groups.0@.len() + groups.1@.len() == m.users@.len(),
{
    let mut nonneg: Vec<String> = Vec::new();
    let mut negative: Vec<String> = Vec::new();
    let mut i: usize = 0;
    while i < m.users.len()
        invariant
            i <= m.users@.len(),
            nonneg@.map_values(|u: String| u@) == members_prefix(*m, i as int, true),
            negative@.map_values(|u: String| u@) == members_prefix(*m, i as int, false),
            nonneg@.len() + negative@.len() == i,
        decreases m.users@.len() - i,
    {
        let lean = lean_of_user(m, i);
        if lean >= 0 {
            nonneg.push(m.users[i].clone());
            proof {
                assert(nonneg@.map_values(|u: String| u@) =~= members_prefix(
                    *m,
                    i as int,
                    true,
                ).push(m.user_view()[i as int]));
            }
        } else {
            negative.push(m.users[i].clone());
            proof {
                assert(negative@.map_values(|u: String| u@) =~= members_prefix(
                    *m,
                    i as int,
                    false,
                ).push(m.user_view()[i as int]));
            }
        }
        i = i + 1;
    }
    (nonneg, negative)
}

/// Wrap one member list as an opinion group record. The average agreement
/// is the fixed constant of the group, or zero for an empty group.
pub fn make_cluster(id: u32, member_ids: Vec<String>) -> (c: OpinionCluster)
    requires
        member_ids@.len() <= u32::MAX,
    ensures
        c@.id == id as int,
        c@.member_count == member_ids@.len(),
        c@.member_ids == member_ids@.map_values(|u: String| u@),
        c@.avg_agreement == if member_ids@.len() == 0 {
            RatioModel { num: 0, den: 1 }
        } else if id == 0 {
            RatioModel { num: 7, den: 10 }
        } else {
            RatioModel { num: 3, den: 10 }
        },
{
    let avg_agreement = if member_ids.len() == 0 {
        Ratio::zero()
    } else if id == 0 {
        Ratio { num: 7, den: 10 }
    } else {
        Ratio { num: 3, den: 10 }
    };
    OpinionCluster {
        id,
        member_count: member_ids.len() as u32,
        member_ids,
        avg_agreement,
    }
}

} // verus!
