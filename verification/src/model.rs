//! The mathematical model of one analysis invocation.
//!
//! Every executable stage of the engine is proved against the spec functions
//! in this module: the whole result of an analysis is `analysis(votes)`, a
//! pure function of the input vote sequence.

use vstd::prelude::*;

use crate::ratio::RatioModel;
use crate::vote::VoteData;

verus! {

broadcast use vstd::seq_lib::group_seq_properties;

/// The user identifier of every vote, in input order.
pub open spec fn user_ids(votes: Seq<VoteData>) -> Seq<Seq<char>> {
    votes.map_values(|v: VoteData| v.user)
}

/// The statement identifier of every vote, in input order.
pub open spec fn statement_ids(votes: Seq<VoteData>) -> Seq<Seq<char>> {
    votes.map_values(|v: VoteData| v.statement)
}

/// The distinct identifiers of `ids`, each at its first occurrence: the
/// canonical order that makes the analysis reproducible.
pub open spec fn first_seen(ids: Seq<Seq<char>>) -> Seq<Seq<char>>
    decreases ids.len(),
{
    if ids.len() == 0 {
        Seq::empty()
    } else {
        let rest = first_seen(ids.drop_last());
        if rest.contains(ids.last()) {
            rest
        } else {
            rest.push(ids.last())
        }
    }
}

/// No identifier occurs twice.
pub open spec fn distinct(ids: Seq<Seq<char>>) -> bool {
    forall|i: int, j: int| 0 <= i < j < ids.len() ==> ids[i] != ids[j]
}

/// The recorded vote value of `user` on `statement`: the value of the last
/// matching vote in input order (last write wins), or `None` when the pair
/// never voted.
pub open spec fn last_vote(votes: Seq<VoteData>, user: Seq<char>, statement: Seq<char>) -> Option<
    int,
>
    decreases votes.len(),
{
    if votes.len() == 0 {
        None
    } else if votes.last().user == user && votes.last().statement == statement {
        Some(votes.last().value)
    } else {
        last_vote(votes.drop_last(), user, statement)
    }
}

/// A recorded `+1` counts as an agreement.
pub open spec fn is_agree(v: Option<int>) -> bool {
    v == Some(1int)
}

/// A recorded `-1` counts as a disagreement.
pub open spec fn is_disagree(v: Option<int>) -> bool {
    v == Some(-1int)
}

/// Any other recorded value, and the absence of a vote, count as a pass.
pub open spec fn is_pass(v: Option<int>) -> bool {
    !is_agree(v) && !is_disagree(v)
}

/// How many of `users` agree with `statement`.
pub open spec fn agree_total(
    votes: Seq<VoteData>,
    statement: Seq<char>,
    users: Seq<Seq<char>>,
) -> nat
    decreases users.len(),
{
    if users.len() == 0 {
        0
    } else {
        agree_total(votes, statement, users.drop_last()) + if is_agree(
            last_vote(votes, users.last(), statement),
        ) {
            1nat
        } else {
            0nat
        }
    }
}

/// How many of `users` disagree with `statement`.
pub open spec fn disagree_total(
    votes: Seq<VoteData>,
    statement: Seq<char>,
    users: Seq<Seq<char>>,
) -> nat
    decreases users.len(),
{
    if users.len() == 0 {
        0
    } else {
        disagree_total(votes, statement, users.drop_last()) + if is_disagree(
            last_vote(votes, users.last(), statement),
        ) {
            1nat
        } else {
            0nat
        }
    }
}

/// How many of `users` pass on `statement`, the users who never voted on it
/// included: the population denominator is always the whole user set.
pub open spec fn pass_total(
    votes: Seq<VoteData>,
    statement: Seq<char>,
    users: Seq<Seq<char>>,
) -> nat
    decreases users.len(),
{
    if users.len() == 0 {
        0
    } else {
        pass_total(votes, statement, users.drop_last()) + if is_pass(
            last_vote(votes, users.last(), statement),
        ) {
            1nat
        } else {
            0nat
        }
    }
}

/// What one recorded value contributes to a user's mean: `+1` and `-1`
/// count as themselves, an absent vote and any out-of-range value count as 0.
pub open spec fn sway(v: Option<int>) -> int {
    if v == Some(1int) {
        1
    } else if v == Some(-1int) {
        -1
    } else {
        0
    }
}

/// The sum of `user`'s sways over all of `statements`. The user's mean vote
/// value is this sum divided by the statement count, so the mean is
/// non-negative exactly when the lean is.
pub open spec fn user_lean(
    votes: Seq<VoteData>,
    user: Seq<char>,
    statements: Seq<Seq<char>>,
) -> int
    decreases statements.len(),
{
    if statements.len() == 0 {
        0
    } else {
        user_lean(votes, user, statements.drop_last()) + sway(
            last_vote(votes, user, statements.last()),
        )
    }
}

/// The users whose lean sign matches `nonneg`, in user-set order: the
/// members of cluster 0 (`nonneg`) or cluster 1 (`!nonneg`).
pub open spec fn cluster_members(
    votes: Seq<VoteData>,
    users: Seq<Seq<char>>,
    statements: Seq<Seq<char>>,
    nonneg: bool,
) -> Seq<Seq<char>>
    decreases users.len(),
{
    if users.len() == 0 {
        Seq::empty()
    } else {
        let rest = cluster_members(votes, users.drop_last(), statements, nonneg);
        if (user_lean(votes, users.last(), statements) >= 0) == nonneg {
            rest.push(users.last())
        } else {
            rest
        }
    }
}

/// The smaller of two counts.
pub open spec fn min_nat(a: nat, b: nat) -> nat {
    if a <= b {
        a
    } else {
        b
    }
}

/// The deduplicated identifier list holds exactly the identifiers that
/// occur in the input.
pub proof fn lemma_first_seen_contains(ids: Seq<Seq<char>>)
    ensures
        forall|x: Seq<char>| #[trigger] first_seen(ids).contains(x) <==> ids.contains(x),
    decreases ids.len(),
{
    if ids.len() > 0 {
        lemma_first_seen_contains(ids.drop_last());
        let rest = first_seen(ids.drop_last());
        assert forall|x: Seq<char>| #[trigger] first_seen(ids).contains(x) implies ids.contains(
            x,
        ) by {
            if rest.contains(x) {
                let i = choose|i: int| 0 <= i < ids.drop_last().len() && ids.drop_last()[i] == x;
                assert(ids[i] == x);
            } else {
                assert(ids[ids.len() - 1] == x);
            }
        }
        assert forall|x: Seq<char>| ids.contains(x) implies #[trigger] first_seen(ids).contains(
            x,
        ) by {
            let i = choose|i: int| 0 <= i < ids.len() && ids[i] == x;
            if i < ids.len() - 1 {
                assert(ids.drop_last()[i] == x);
                assert(ids.drop_last().contains(x));
            } else {
                if rest.contains(ids.last()) {
                    assert(first_seen(ids).contains(x));
                } else {
                    assert(first_seen(ids) == rest.push(ids.last()));
                    assert(first_seen(ids)[rest.len() as int] == x);
                }
            }
        }
    }
}

/// The deduplicated identifier list holds each identifier once.
pub proof fn lemma_first_seen_distinct(ids: Seq<Seq<char>>)
    ensures
        distinct(first_seen(ids)),
    decreases ids.len(),
{
    if ids.len() > 0 {
        lemma_first_seen_distinct(ids.drop_last());
        let rest = first_seen(ids.drop_last());
        if !rest.contains(ids.last()) {
            let grown = rest.push(ids.last());
            assert forall|i: int, j: int| 0 <= i < j < grown.len() implies grown[i] != grown[j] by {
                if j == rest.len() {
                    assert(grown[i] == rest[i]);
                    if rest[i] == ids.last() {
                        assert(rest.contains(ids.last()));
                    }
                }
            }
        }
    }
}

/// Deduplication never lengthens the list.
pub proof fn lemma_first_seen_len(ids: Seq<Seq<char>>)
    ensures
        first_seen(ids).len() <= ids.len(),
    decreases ids.len(),
{
    if ids.len() > 0 {
        lemma_first_seen_len(ids.drop_last());
    }
}

/// Every user is classified exactly once per statement: the three tallies
/// always add up to the user population.
pub proof fn lemma_tally_partition(
    votes: Seq<VoteData>,
    statement: Seq<char>,
    users: Seq<Seq<char>>,
)
    ensures
        agree_total(votes, statement, users) + disagree_total(votes, statement, users)
            + pass_total(votes, statement, users) == users.len(),
    decreases users.len(),
{
    if users.len() > 0 {
        lemma_tally_partition(votes, statement, users.drop_last());
    }
}

/// The two opinion groups split the user population: their sizes add up to
/// the user count.
pub proof fn lemma_members_partition(
    votes: Seq<VoteData>,
    users: Seq<Seq<char>>,
    statements: Seq<Seq<char>>,
)
    ensures
        cluster_members(votes, users, statements, true).len() + cluster_members(
            votes,
            users,
            statements,
            false,
        ).len() == users.len(),
    decreases users.len(),
{
    if users.len() > 0 {
        lemma_members_partition(votes, users.drop_last(), statements);
    }
}

/// A group holds exactly the users whose lean sign matches it.
pub proof fn lemma_members_contains(
    votes: Seq<VoteData>,
    users: Seq<Seq<char>>,
    statements: Seq<Seq<char>>,
    nonneg: bool,
)
    ensures
        forall|x: Seq<char>|
            #[trigger] cluster_members(votes, users, statements, nonneg).contains(x) <==> (
            users.contains(x) && (user_lean(votes, x, statements) >= 0) == nonneg),
    decreases users.len(),
{
    if users.len() > 0 {
        lemma_members_contains(votes, users.drop_last(), statements, nonneg);
        let members = cluster_members(votes, users, statements, nonneg);
        assert forall|x: Seq<char>| #[trigger] members.contains(x) implies (users.contains(x) && (
        user_lean(votes, x, statements) >= 0) == nonneg) by {
            if cluster_members(votes, users.drop_last(), statements, nonneg).contains(x) {
                let i = choose|i: int|
                    0 <= i < users.drop_last().len() && users.drop_last()[i] == x;
                assert(users[i] == x);
            } else {
                assert(x == users.last());
                assert(users[users.len() - 1] == x);
            }
        }
        assert forall|x: Seq<char>|
            (users.contains(x) && (user_lean(votes, x, statements) >= 0)
                == nonneg) implies #[trigger] members.contains(x) by {
            let i = choose|i: int| 0 <= i < users.len() && users[i] == x;
            let rest = cluster_members(votes, users.drop_last(), statements, nonneg);
            if i < users.len() - 1 {
                assert(users.drop_last()[i] == x);
                assert(users.drop_last().contains(x));
                assert(rest.contains(x));
                if (user_lean(votes, users.last(), statements) >= 0) == nonneg {
                    let k = choose|k: int| 0 <= k < rest.len() && rest[k] == x;
                    assert(members == rest.push(users.last()));
                    assert(members[k] == x);
                }
            } else {
                if (user_lean(votes, users.last(), statements) >= 0) == nonneg {
                    let rest = cluster_members(votes, users.drop_last(), statements, nonneg);
                    assert(members == rest.push(users.last()));
                    assert(members[rest.len() as int] == x);
                }
            }
        }
    }
}

/// A group drawn from a duplicate-free user list is itself duplicate-free:
/// no user is listed twice within a cluster.
pub proof fn lemma_members_distinct(
    votes: Seq<VoteData>,
    users: Seq<Seq<char>>,
    statements: Seq<Seq<char>>,
    nonneg: bool,
)
    requires
        distinct(users),
    ensures
        distinct(cluster_members(votes, users, statements, nonneg)),
    decreases users.len(),
{
    if users.len() > 0 {
        assert forall|i: int, j: int| 0 <= i < j < users.drop_last().len() implies users.drop_last()[i]
            != users.drop_last()[j] by {
            assert(users[i] == users.drop_last()[i]);
            assert(users[j] == users.drop_last()[j]);
        }
        lemma_members_distinct(votes, users.drop_last(), statements, nonneg);
        if (user_lean(votes, users.last(), statements) >= 0) == nonneg {
            lemma_members_contains(votes, users.drop_last(), statements, nonneg);
            let rest = cluster_members(votes, users.drop_last(), statements, nonneg);
            let grown = rest.push(users.last());
            assert forall|i: int, j: int| 0 <= i < j < grown.len() implies grown[i] != grown[j] by {
                if j == rest.len() {
                    assert(grown[i] == rest[i]);
                    if rest[i] == users.last() {
                        assert(rest.contains(users.last()));
                        let k = choose|k: int|
                            0 <= k < users.drop_last().len() && users.drop_last()[k]
                                == users.last();
                        assert(users[k] == users[users.len() - 1]);
                    }
                }
            }
        }
    }
}

/// The consensus record of one statement.
#[verifier::ext_equal]
pub ghost struct StatementStats {
    pub statement_id: Seq<char>,
    pub agree_count: int,
    pub disagree_count: int,
    pub pass_count: int,
    pub total_voters: int,
    pub agreement_ratio: RatioModel,
    pub divisiveness: RatioModel,
}

/// One of the two opinion groups.
#[verifier::ext_equal]
pub ghost struct ClusterModel {
    pub id: int,
    pub member_count: int,
    pub member_ids: Seq<Seq<char>>,
    pub avg_agreement: RatioModel,
}

/// The whole outcome of one analysis invocation.
#[verifier::ext_equal]
pub ghost struct ResultModel {
    pub statements: Seq<StatementStats>,
    pub total_participants: int,
    pub cluster_count: int,
    pub clusters: Seq<ClusterModel>,
}

/// The consensus record of `statement` over the user population `users`:
/// the three tallies, the population total, the agreement ratio
/// `agree / (agree + disagree)` and the divisiveness
/// `1 - |ratio - 1/2| * 2 == 2 * min(agree, disagree) / (agree + disagree)`,
/// both exact fractions and both zero when nobody took a side.
pub open spec fn statement_stats(
    votes: Seq<VoteData>,
    statement: Seq<char>,
    users: Seq<Seq<char>>,
) -> StatementStats {
    let a = agree_total(votes, statement, users);
    let d = disagree_total(votes, statement, users);
    let p = pass_total(votes, statement, users);
    StatementStats {
        statement_id: statement,
        agree_count: a as int,
        disagree_count: d as int,
        pass_count: p as int,
        total_voters: (a + d + p) as int,
        agreement_ratio: if a + d > 0 {
            RatioModel { num: a as int, den: (a + d) as int }
        } else {
            RatioModel { num: 0, den: 1 }
        },
        divisiveness: if a + d > 0 {
            RatioModel { num: 2 * min_nat(a, d) as int, den: (a + d) as int }
        } else {
            RatioModel { num: 0, den: 1 }
        },
    }
}

/// Opinion group `which` (0 or 1). The average agreement of a group is the
/// fixed descriptive constant 7/10 for group 0 and 3/10 for group 1, or 0
/// for an empty group; it is not derived from the members' votes.
pub open spec fn cluster_model(
    votes: Seq<VoteData>,
    users: Seq<Seq<char>>,
    statements: Seq<Seq<char>>,
    which: int,
) -> ClusterModel {
    let members = cluster_members(votes, users, statements, which == 0);
    ClusterModel {
        id: which,
        member_count: members.len() as int,
        member_ids: members,
        avg_agreement: if members.len() > 0 {
            if which == 0 {
                RatioModel { num: 7, den: 10 }
            } else {
                RatioModel { num: 3, den: 10 }
            }
        } else {
            RatioModel { num: 0, den: 1 }
        },
    }
}

/// The whole analysis as a mathematical function of the vote sequence:
/// one consensus record per distinct statement in first-seen order, the
/// participant count, and the two opinion groups. The cluster count is 2 as
/// soon as either group has a member, else 0.
pub open spec fn analysis(votes: Seq<VoteData>) -> ResultModel {
    let users = first_seen(user_ids(votes));
    let statements = first_seen(statement_ids(votes));
    let c0 = cluster_model(votes, users, statements, 0);
    let c1 = cluster_model(votes, users, statements, 1);
    ResultModel {
        statements: Seq::new(statements.len(), |j: int| statement_stats(votes, statements[j], users)),
        total_participants: users.len() as int,
        cluster_count: if c0.member_count > 0 || c1.member_count > 0 {
            2
        } else {
            0
        },
        clusters: seq![c0, c1],
    }
}

} // verus!
