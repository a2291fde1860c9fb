//! The vote coordinator's decision core: the per-judge state machine and
//! the write-back of one completed comparison.
//!
//! A judge starts with neither a previous nor a next project
//! (bootstrap), then with only a next project (first visit), and from
//! then on always holds a pair (steady).  Only a steady-state vote
//! compares two projects and updates posteriors; the earlier stages just
//! advance the pair.  The posterior values themselves are computed by the
//! numeric engine outside the verified core and handed in as opaque
//! 64-bit words; what is verified here is everything else: which project
//! won, how the counters move, and how the judge's pair advances.

use vstd::prelude::*;
use crate::models::{Judge, Project, ProjectView};

verus! {

/// Where a judge stands in the voting flow.
#[derive(Clone, Copy, Debug, PartialEq, Eq, Structural)]
pub enum VoteStage {
    /// No project assigned yet.
    Bootstrap,
    /// Walking to the first project; no pair to compare yet.
    First,
    /// Holding a pair; votes compare `prev` against `next`.
    Steady,
}

/// The stage a judge is in, read off the `prev`/`next` pair.  A judge
/// holding only a `prev` has no pair either and counts as bootstrap.
pub open spec fn spec_judge_stage(prev: Option<u64>, next: Option<u64>) -> VoteStage {
    if prev is Some && next is Some {
        VoteStage::Steady
    } else if prev is None && next is Some {
        VoteStage::First
    } else {
        VoteStage::Bootstrap
    }
}

/// Reads a judge's stage.
pub fn judge_stage(judge: &Judge) -> (s: VoteStage)
    ensures
        s == spec_judge_stage(judge@.prev, judge@.next),
{
    if judge.prev.is_some() && judge.next.is_some() {
        VoteStage::Steady
    } else if judge.prev.is_none() && judge.next.is_some() {
        VoteStage::First
    } else {
        VoteStage::Bootstrap
    }
}

/// The `(winner, loser)` pair of a steady-state vote: `curr_winner` means
/// the project the judge stands at (`next`) beat the one before
/// (`prev`).  Outside the steady state there is no pair to decide.
pub fn choose_winner_loser(judge: &Judge, curr_winner: bool) -> (r: Option<(u64, u64)>)
    ensures
        spec_judge_stage(judge@.prev, judge@.next) != VoteStage::Steady ==> r is None,
        spec_judge_stage(judge@.prev, judge@.next) == VoteStage::Steady ==> r == Some(
            if curr_winner {
                (judge@.next->0, judge@.prev->0)
            } else {
                (judge@.prev->0, judge@.next->0)
            },
        ),
{
    match (judge.prev, judge.next) {
        (Some(p), Some(n)) => {
            if curr_winner {
                Some((n, p))
            } else {
                Some((p, n))
            }
        },
        _ => None,
    }
}

/// A project after one completed comparison: new posterior, `seen` up by
/// one, `votes` up by one exactly for the winner, activity stamped.
pub open spec fn spec_project_after_vote(
    p: ProjectView,
    new_mu: u64,
    new_sigma_sq: u64,
    won: bool,
    now: i64,
) -> ProjectView {
    ProjectView {
        mu: new_mu,
        sigma_sq: new_sigma_sq,
        seen: (p.seen + 1) as u64,
        votes: if won {
            (p.votes + 1) as u64
        } else {
            p.votes
        },
        last_activity: now,
        ..p
    }
}

/// Writes one side of a completed comparison back into the project.
pub fn update_project_after_vote(
    project: &mut Project,
    new_mu: u64,
    new_sigma_sq: u64,
    won: bool,
    now: i64,
)
    requires
        old(project)@.seen < u64::MAX,
        old(project)@.votes < u64::MAX,
    ensures
        final(project)@ == spec_project_after_vote(old(project)@, new_mu, new_sigma_sq, won, now),
{
    project.mu = new_mu;
    project.sigma_sq = new_sigma_sq;
    project.seen = project.seen + 1;
    if won {
        project.votes = project.votes + 1;
    }
    project.last_activity = now;
}

/// Advances the judge past a selection: the project just visited becomes
/// `prev`, the freshly selected one becomes `next`, the reliability
/// posterior is replaced, and a completed comparison counts one vote.
pub fn update_judge_projects(
    judge: &mut Judge,
    next: Option<u64>,
    alpha: u64,
    beta: u64,
    increment_votes: bool,
)
    requires
        old(judge)@.votes < u64::MAX,
    ensures
        final(judge)@.prev == old(judge)@.next,
        final(judge)@.next == next,
        final(judge)@.alpha == alpha,
        final(judge)@.beta == beta,
        final(judge)@.votes == if increment_votes {
            old(judge)@.votes + 1
        } else {
            old(judge)@.votes as int
        },
        final(judge)@.id == old(judge)@.id,
        final(judge)@.token == old(judge)@.token,
        final(judge)@.code == old(judge)@.code,
        final(judge)@.name == old(judge)@.name,
        final(judge)@.email == old(judge)@.email,
        final(judge)@.active == old(judge)@.active,
        final(judge)@.last_activity == old(judge)@.last_activity,
        final(judge)@.read_welcome == old(judge)@.read_welcome,
        final(judge)@.notes == old(judge)@.notes,
    {
    judge.prev = judge.next;
    judge.next = next;
    judge.alpha = alpha;
    judge.beta = beta;
    if increment_votes {
        judge.votes = judge.votes + 1;
    }
}

/// One completed comparison moves the counters by exactly one step:
/// `seen` rises by one on both sides, `votes` rises by one on the winner
/// alone, and nothing else but posteriors and the activity stamp moves.
pub proof fn lemma_vote_moves_counters_once(
    winner: ProjectView,
    loser: ProjectView,
    mu_w: u64,
    sigma_sq_w: u64,
    mu_l: u64,
    sigma_sq_l: u64,
    now: i64,
)
    requires
        winner.seen < u64::MAX,
        winner.votes < u64::MAX,
        loser.seen < u64::MAX,
    ensures
        ({
            let w = spec_project_after_vote(winner, mu_w, sigma_sq_w, true, now);
            let l = spec_project_after_vote(loser, mu_l, sigma_sq_l, false, now);
            &&& w.seen == winner.seen + 1
            &&& l.seen == loser.seen + 1
            &&& w.votes == winner.votes + 1
            &&& l.votes == loser.votes
            &&& w.id == winner.id
            &&& l.id == loser.id
            &&& w.location == winner.location
            &&& l.location == loser.location
            &&& w.active == winner.active
            &&& l.active == loser.active
            &&& w.prioritized == winner.prioritized
            &&& l.prioritized == loser.prioritized
        }),
{
}

} // verus!
