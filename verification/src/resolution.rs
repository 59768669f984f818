use crate::project::ProjectVotes;
use vstd::prelude::*;

verus! {

/// The verdict on a campaign whose goal was reached.
#[derive(Clone, Copy, Debug, PartialEq, Eq, Structural)]
pub enum Outcome {
    /// More than half of the budget voted yes: the author may claim.
    Success,
    /// Half of the budget or more voted no, or the voting window closed
    /// without a majority for yes: the donors may take their money back.
    Failure,
    /// Neither side has won and the window is still open.
    Undetermined,
}

/// The verdict from the budget, the two tallies, the end of the voting window
/// and the time. The order of the tests matters: a decisive vote settles the
/// matter at once, a tie goes to no, and only then does the clock count.
pub open spec fn outcome(budget: int, yes: int, no: int, window_end: int, now: int) -> Outcome {
    if 2 * yes > budget {
        Outcome::Success
    } else if 2 * no >= budget {
        Outcome::Failure
    } else if now > window_end {
        Outcome::Failure
    } else {
        Outcome::Undetermined
    }
}

/// A tie goes to no: where the whole budget has voted, half each way, the
/// campaign has failed, at any time.
pub proof fn tie_goes_to_no(budget: int, yes: int, no: int, window_end: int, now: int)
    requires
        yes == no,
        yes + no == budget,
    ensures
        outcome(budget, yes, no, window_end, now) == Outcome::Failure,
{
}

/// A decisive vote settles the matter at once: a majority for yes is a
/// success, and half or more for no beside it a failure, whatever the time.
pub proof fn majority_decides(budget: int, yes: int, no: int, window_end: int, now: int)
    ensures
        2 * yes > budget ==> outcome(budget, yes, no, window_end, now) == Outcome::Success,
        2 * yes <= budget && 2 * no >= budget ==> outcome(budget, yes, no, window_end, now)
            == Outcome::Failure,
{
}

/// Once the window has closed every campaign is decided, and one without a
/// majority for yes has failed.
pub proof fn window_closes(budget: int, yes: int, no: int, window_end: int, now: int)
    requires
        now > window_end,
    ensures
        outcome(budget, yes, no, window_end, now) != Outcome::Undetermined,
        2 * yes <= budget ==> outcome(budget, yes, no, window_end, now) == Outcome::Failure,
{
}

/// A verdict stands: with the tallies as they are, time alone does not
/// change a success or a failure.
pub proof fn verdict_stands(budget: int, yes: int, no: int, window_end: int, now: int, later: int)
    requires
        now <= later,
        outcome(budget, yes, no, window_end, now) != Outcome::Undetermined,
    ensures
        outcome(budget, yes, no, window_end, later) == outcome(budget, yes, no, window_end, now),
{
}

/// The share of a claimed budget that goes to the platform, rounded down.
pub open spec fn fee_of(budget: int, fee_percent: int) -> int {
    budget * fee_percent / 100
}

/// Decides a campaign. The voting window runs from `deadline` for
/// `voting_length`; whether the goal was reached is not asked here, claim and
/// refund ask it first.
pub fn resolve(budget: u128, votes: ProjectVotes, deadline: u64, voting_length: u64, now: u64) -> (verdict: Outcome)
    ensures
        verdict == outcome(
            budget as int,
            votes.ovr_voted_yes as int,
            votes.ovr_voted_no as int,
            deadline + voting_length,
            now as int,
        ),
{
    let half: u128 = budget / 2;
    let odd: u128 = budget % 2;
    if votes.ovr_voted_yes > half {
        Outcome::Success
    } else if votes.ovr_voted_no >= half + odd {
        Outcome::Failure
    } else if now > deadline && now - deadline > voting_length {
        Outcome::Failure
    } else {
        Outcome::Undetermined
    }
}

/// The platform's fee on a claimed budget. A rate above one hundred percent
/// has no fee that the budget could pay.
pub fn platform_fee(budget: u128, fee_percent: u8) -> (fee: u128)
    requires
        fee_percent <= 100,
    ensures
        fee == fee_of(budget as int, fee_percent as int),
        fee <= budget,
{
    let rate: u128 = fee_percent as u128;
    let hundreds: u128 = budget / 100;
    let rest: u128 = budget % 100;
    proof {
        lemma_fee_by_parts(budget as int, fee_percent as int);
    }
    hundreds * rate + rest * rate / 100
}

/// The fee can be taken from the hundreds of the budget and from what is left
/// over separately, which keeps the product small.
proof fn lemma_fee_by_parts(budget: int, rate: int)
    requires
        0 <= budget,
        0 <= rate <= 100,
    ensures
        fee_of(budget, rate) == (budget / 100) * rate + (budget % 100) * rate / 100,
        0 <= fee_of(budget, rate) <= budget,
        0 <= (budget / 100) * rate <= budget,
        0 <= (budget % 100) * rate <= 10000,
{
    let q = budget / 100;
    let r = budget % 100;
    assert(budget == 100 * q + r);
    assert(budget * rate == 100 * (q * rate) + r * rate) by (nonlinear_arith)
        requires
            budget == 100 * q + r,
    ;
    assert(0 <= r * rate <= 10000) by (nonlinear_arith)
        requires
            0 <= r < 100,
            0 <= rate <= 100,
    ;
    assert(0 <= q * rate <= 100 * q) by (nonlinear_arith)
        requires
            0 <= q,
            0 <= rate <= 100,
    ;
    assert((100 * (q * rate) + r * rate) / 100 == q * rate + (r * rate) / 100) by (nonlinear_arith)
        requires
            0 <= r * rate,
    ;
    assert(r * rate <= 100 * r) by (nonlinear_arith)
        requires
            0 <= r,
            0 <= rate <= 100,
    ;
}

} // verus!
