//! Statement consensus aggregation: per-statement tallies over the whole
//! participant population, with exact agreement and divisiveness fractions.

use vstd::prelude::*;

use crate::matrix::VoteMatrix;
use crate::model::{
    agree_total, disagree_total, is_agree, is_disagree, is_pass, min_nat, pass_total,
    statement_stats, StatementStats,
};
use crate::ratio::{Ratio, RatioModel};
use crate::vote::VoteData;

verus! {

broadcast use vstd::seq_lib::group_seq_properties;

/// Consensus summary of one statement: the three tallies over the whole
/// user population, the population size, and the two exact fractions.
#[derive(Debug, PartialEq, Eq)]
pub struct StatementConsensus {
    pub statement_id: String,
    pub agree_count: u32,
    pub disagree_count: u32,
    pub pass_count: u32,
    pub total_voters: u32,
    pub agreement_ratio: Ratio,
    pub divisiveness: Ratio,
}

impl View for StatementConsensus {
    type V = StatementStats;

    open spec fn view(&self) -> StatementStats {
        StatementStats {
            statement_id: self.statement_id@,
            agree_count: self.agree_count as int,
            disagree_count: self.disagree_count as int,
            pass_count: self.pass_count as int,
            total_voters: self.total_voters as int,
            agreement_ratio: self.agreement_ratio@,
            divisiveness: self.divisiveness@,
        }
    }
}

/// How many of the first `n` users agree with statement `j` of the matrix.
pub open spec fn col_agrees(m: VoteMatrix, j: int, n: int) -> nat
    decreases n,
{
    if n <= 0 {
        0
    } else {
        col_agrees(m, j, n - 1) + if is_agree(m.entry(n - 1, j)) {
            1nat
        } else {
            0nat
        }
    }
}

/// How many of the first `n` users disagree with statement `j`.
pub open spec fn col_disagrees(m: VoteMatrix, j: int, n: int) -> nat
    decreases n,
{
    if n <= 0 {
        0
    } else {
        col_disagrees(m, j, n - 1) + if is_disagree(m.entry(n - 1, j)) {
            1nat
        } else {
            0nat
        }
    }
}

/// How many of the first `n` users pass on statement `j`.
pub open spec fn col_passes(m: VoteMatrix, j: int, n: int) -> nat
    decreases n,
{
    if n <= 0 {
        0
    } else {
        col_passes(m, j, n - 1) + if is_pass(m.entry(n - 1, j)) {
            1nat
        } else {
            0nat
        }
    }
}

/// The consensus record of statement `j` of the matrix, over the whole
/// user population.
pub open spec fn col_stats(m: VoteMatrix, j: int) -> StatementStats {
    let n = m.users@.len() as int;
    let a = col_agrees(m, j, n);
    let d = col_disagrees(m, j, n);
    let p = col_passes(m, j, n);
    StatementStats {
        statement_id: m.statement_view()[j],
        agree_count: a as int,
        disagree_count: d as int,
        pass_count: p as int,
        total_voters: (a + d + p) as int,
        agreement_ratio: if a + d > 0 {
            RatioModel { num: a as int, den: (a + d) as int }
        } else {
            RatioModel { num: 0, den: 1 }
        },
        divisiveness: if a + d > 0 {
            RatioModel { num: 2 * min_nat(a, d) as int, den: (a + d) as int }
        } else {
            RatioModel { num: 0, den: 1 }
        },
    }
}

/// The matrix column counts are the model tallies over the user prefix.
pub proof fn lemma_col_counts(m: VoteMatrix, votes: Seq<VoteData>, j: int, n: int)
    requires
        m.wf(),
        m.from_votes(votes),
        0 <= j < m.statements@.len(),
        0 <= n <= m.users@.len(),
    ensures
        col_agrees(m, j, n) == agree_total(votes, m.statement_view()[j], m.user_view().take(n)),
        col_disagrees(m, j, n) == disagree_total(
            votes,
            m.statement_view()[j],
            m.user_view().take(n),
        ),
        col_passes(m, j, n) == pass_total(votes, m.statement_view()[j], m.user_view().take(n)),
    decreases n,
{
    if n > 0 {
        lemma_col_counts(m, votes, j, n - 1);
        assert(m.user_view().take(n).drop_last() =~= m.user_view().take(n - 1));
        assert(m.user_view().take(n).last() == m.user_view()[n - 1]);
    }
}

/// The matrix column counts are the model tallies over the whole user set.
pub proof fn lemma_col_stats(m: VoteMatrix, votes: Seq<VoteData>, j: int)
    requires
        m.wf(),
        m.from_votes(votes),
        0 <= j < m.statements@.len(),
    ensures
        col_stats(m, j) == statement_stats(votes, m.statement_view()[j], m.user_view()),
{
    let n = m.users@.len() as int;
    lemma_col_counts(m, votes, j, n);
    assert(m.user_view().take(n) =~= m.user_view());
    assert(col_stats(m, j) =~= statement_stats(votes, m.statement_view()[j], m.user_view()));
}

/// Tally statement `j` of the matrix: classify every user of the population
/// as agree (`+1`), disagree (`-1`) or pass (anything else, a missing vote
/// included), and derive the exact agreement ratio and divisiveness.
#[verifier::loop_isolation(false)]
pub fn tally_statement(m: &VoteMatrix, j: usize) -> (c: StatementConsensus)
    requires
        m.wf(),
        j < m.statements@.len(),
        m.users@.len() <= u32::MAX,
    ensures
        c@ == col_stats(*m, j as int),
{
    let n = m.users.len();
    let mut agree: u32 = 0;
    let mut disagree: u32 = 0;
    let mut pass: u32 = 0;
    let mut u: usize = 0;
    while u < n
        invariant
            u <= n,
            agree == col_agrees(*m, j as int, u as int),
            disagree == col_disagrees(*m, j as int, u as int),
            pass == col_passes(*m, j as int, u as int),
            agree + disagree + pass == u,
        decreases n - u,
    {
        let row = &m.rows[u];
        let value = row[j];
        match value {
            Some(1) => {
                agree = agree + 1;
            },
            Some(-1) => {
                disagree = disagree + 1;
            },
            _ => {
                pass = pass + 1;
            },
        }
        u = u + 1;
    }
    let voters = agree + disagree;
    let agreement_ratio = if voters > 0 {
        Ratio { num: agree, den: voters }
    } else {
        Ratio::zero()
    };
    let smaller = if agree <= disagree {
        agree
    } else {
        disagree
    };
    let divisiveness = if voters > 0 {
        Ratio { num: 2 * smaller, den: voters }
    } else {
        Ratio::zero()
    };
    let c = StatementConsensus {
        statement_id: m.statements[j].clone(),
        agree_count: agree,
        disagree_count: disagree,
        pass_count: pass,
        total_voters: agree + disagree + pass,
        agreement_ratio,
        divisiveness,
    };
    proof {
        assert(c@ =~= col_stats(*m, j as int));
    }
    c
}

/// Tally every statement of the matrix, in statement-set order.
#[verifier::loop_isolation(false)]
pub fn aggregate_statements(m: &VoteMatrix) -> (out: Vec<StatementConsensus>)
    requires
        m.wf(),
        m.users@.len() <= u32::MAX,
    ensures
        out@.len() == m.statements@.len(),
        forall|j: int| 0 <= j < out@.len() ==> (#[trigger] out@[j])@ == col_stats(*m, j),
{
    let mut out: Vec<StatementConsensus> = Vec::new();
    let mut j: usize = 0;
    while j < m.statements.len()
        invariant
            j <= m.statements@.len(),
            out@.len() == j,
            forall|t: int| 0 <= t < j ==> (#[trigger] out@[t])@ == col_stats(*m, t),
        decreases m.statements@.len() - j,
    {
        out.push(tally_statement(m, j));
        j = j + 1;
    }
    out
}

} // verus!
