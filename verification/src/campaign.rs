//! One campaign as a mathematical value, and each operation on it as a pair
//! of specification functions: the reply it gives and the state it leaves.

use crate::account::AccountId;
use crate::donors::{
    any_refunded, distinct, donor_index, donor_of, lemma_any_refunded_kept,
    lemma_counted_within_total, lemma_donor_account, lemma_donor_listed, lemma_nothing_refunded,
    lemma_put_donor, lemma_total_within_all, put_donor, total, DonorState, Share,
};
use crate::error::Error;
use crate::project::ProjectInfoView;
use crate::resolution::{outcome, Outcome};
use vstd::prelude::*;

verus! {

/// One project: what was fixed at its creation and what has happened since.
pub struct ProjectState {
    pub name: Seq<char>,
    pub info: ProjectInfoView,
    /// Everything ever donated. Refunds do not lower it: it is the fixed
    /// measure that the votes are held against.
    pub budget: nat,
    pub voted_yes: nat,
    pub voted_no: nat,
    /// Whether the author has claimed the budget.
    pub claimed: bool,
    /// The donors, in the order of their first donation.
    pub donors: Seq<DonorState>,
}

impl ProjectState {
    /// The account's record; that of a stranger where it never donated.
    pub open spec fn donor(self, account: AccountId) -> DonorState {
        donor_of(self.donors, account)
    }

    /// The project with this donor's record in place.
    pub open spec fn with_donor(self, donor: DonorState) -> ProjectState {
        ProjectState { donors: put_donor(self.donors, donor), ..self }
    }

    pub open spec fn goal_reached(self) -> bool {
        self.budget >= self.info.goal
    }

    /// The last moment at which a vote is taken.
    pub open spec fn window_end(self, voting_length: u64) -> int {
        self.info.deadline + voting_length
    }

    pub open spec fn verdict(self, voting_length: u64, now: u64) -> Outcome {
        outcome(
            self.budget as int,
            self.voted_yes as int,
            self.voted_no as int,
            self.window_end(voting_length),
            now as int,
        )
    }

    /// What has been committed to leave the pool: the budget once claimed, and
    /// every donation handed back.
    pub open spec fn paid_out(self) -> nat {
        (if self.claimed {
            self.budget
        } else {
            0
        }) + total(self.donors, Share::Refunded)
    }

    /// The books balance: no donor is listed twice, the budget is the sum of
    /// the donations, and no more weight was cast than the voters donated.
    pub open spec fn wf(self) -> bool {
        &&& distinct(self.donors)
        &&& self.budget == total(self.donors, Share::All)
        &&& self.voted_yes + self.voted_no <= total(self.donors, Share::Voted)
    }

    // Donating

    pub open spec fn donate_reply(self, donor: AccountId, now: u64) -> Result<(), Error> {
        if now >= self.info.deadline {
            Err(Error::DeadlinePassed)
        } else if donor == self.info.author {
            Err(Error::CantDonateOwnProject)
        } else {
            Ok(())
        }
    }

    pub open spec fn after_donation(self, donor: AccountId, amount: nat) -> ProjectState {
        let record = self.donor(donor);
        ProjectState {
            budget: self.budget + amount,
            ..self.with_donor(DonorState { donated: record.donated + amount, ..record })
        }
    }

    // Voting

    pub open spec fn vote_reply(self, voting_length: u64, voter: AccountId, now: u64) -> Result<
        (),
        Error,
    > {
        if now < self.info.deadline {
            Err(Error::DeadlineNotPassedYet)
        } else if now > self.window_end(voting_length) {
            Err(Error::VotingDeadlinePassed)
        } else if !self.goal_reached() {
            Err(Error::GoalNotReached)
        } else if self.donor(voter).vote is Some {
            Err(Error::AlreadyVoted)
        } else if self.donor(voter).donated == 0 {
            Err(Error::NoFundsDontatedNoVote)
        } else {
            Ok(())
        }
    }

    pub open spec fn after_vote(self, voter: AccountId, choice: bool) -> ProjectState {
        let record = self.donor(voter);
        let cast = self.with_donor(DonorState { vote: Some(choice), ..record });
        if choice {
            ProjectState { voted_yes: self.voted_yes + record.donated, ..cast }
        } else {
            ProjectState { voted_no: self.voted_no + record.donated, ..cast }
        }
    }

    // Refunding

    pub open spec fn refund_reply(self, voting_length: u64, donor: AccountId, now: u64) -> Result<
        (),
        Error,
    > {
        if now < self.info.deadline {
            Err(Error::DeadlineNotPassedYet)
        } else if self.donor(donor).refunded {
            Err(Error::NoFundsToRefund)
        } else if self.donor(donor).donated == 0 {
            Err(Error::NoFundsToRefund)
        } else if !self.goal_reached() {
            Ok(())
        } else {
            match self.verdict(voting_length, now) {
                Outcome::Success => Err(Error::CampaignSuccessfulNoRefunds),
                Outcome::Failure => Ok(()),
                Outcome::Undetermined => Err(Error::CampaignResultUnknown),
            }
        }
    }

    pub open spec fn after_refund(self, donor: AccountId) -> ProjectState {
        self.with_donor(DonorState { refunded: true, ..self.donor(donor) })
    }

    // Claiming

    pub open spec fn claim_reply(self, voting_length: u64, caller: AccountId, now: u64) -> Result<
        (),
        Error,
    > {
        if now < self.info.deadline {
            Err(Error::DeadlineNotPassedYet)
        } else if caller != self.info.author {
            Err(Error::YouAreNotTheFather)
        } else if !self.goal_reached() {
            Err(Error::GoalNotReached)
        } else if self.claimed {
            Err(Error::NoFundsToClaim)
        } else {
            match self.verdict(voting_length, now) {
                Outcome::Success => Ok(()),
                Outcome::Failure => Err(Error::CampaignUnsuccessfulNoClaims),
                Outcome::Undetermined => Err(Error::CampaignResultUnknown),
            }
        }
    }

    pub open spec fn after_claim(self) -> ProjectState {
        ProjectState { claimed: true, ..self }
    }

    // What the operations keep

    /// A donor's donation is part of the budget.
    pub proof fn lemma_donation_within_budget(self, account: AccountId)
        requires
            self.wf(),
        ensures
            self.donor(account).donated <= self.budget,
    {
        lemma_donor_listed(self.donors, account);
        match donor_index(self.donors, account) {
            Some(i) => {
                lemma_counted_within_total(self.donors, i, Share::All);
            },
            None => {},
        }
    }

    /// A donation keeps the books balanced and adds the amount to the budget
    /// and to the donor's record, and to nothing else.
    pub proof fn lemma_after_donation(self, donor: AccountId, amount: nat)
        requires
            self.wf(),
        ensures
            self.after_donation(donor, amount).wf(),
            self.after_donation(donor, amount).budget == self.budget + amount,
            self.after_donation(donor, amount).donor(donor).donated == self.donor(donor).donated
                + amount,
            self.donor(donor).refunded ==> self.after_donation(donor, amount).paid_out()
                == self.paid_out() + amount + (if self.claimed {
                amount
            } else {
                0
            }),
            !self.donor(donor).refunded ==> self.after_donation(donor, amount).paid_out()
                == self.paid_out() + (if self.claimed {
                amount
            } else {
                0
            }),
    {
        let record = self.donor(donor);
        lemma_donor_account(self.donors, donor);
        let raised = DonorState { donated: record.donated + amount, ..record };
        lemma_put_donor(self.donors, raised, Share::All);
        lemma_put_donor(self.donors, raised, Share::Voted);
        lemma_put_donor(self.donors, raised, Share::Refunded);
    }

    /// A first vote keeps the books balanced: the weight it adds was donated
    /// by someone who had not voted, so the tallies stay within the budget.
    pub proof fn lemma_after_vote(self, voter: AccountId, choice: bool)
        requires
            self.wf(),
            self.donor(voter).vote is None,
        ensures
            self.after_vote(voter, choice).wf(),
            self.after_vote(voter, choice).budget == self.budget,
            self.after_vote(voter, choice).paid_out() == self.paid_out(),
            self.voted_yes + self.voted_no + self.donor(voter).donated <= self.budget,
    {
        let record = self.donor(voter);
        lemma_donor_account(self.donors, voter);
        let cast = DonorState { vote: Some(choice), ..record };
        lemma_put_donor(self.donors, cast, Share::All);
        lemma_put_donor(self.donors, cast, Share::Voted);
        lemma_put_donor(self.donors, cast, Share::Refunded);
        lemma_total_within_all(self.with_donor(cast).donors, Share::Voted);
    }

    /// A refund keeps the books balanced and the budget as it was; what it
    /// adds to the money paid out is the donation, once.
    pub proof fn lemma_after_refund(self, donor: AccountId)
        requires
            self.wf(),
        ensures
            self.after_refund(donor).wf(),
            self.after_refund(donor).budget == self.budget,
            self.after_refund(donor).donor(donor).refunded,
            !self.donor(donor).refunded ==> self.after_refund(donor).paid_out() == self.paid_out()
                + self.donor(donor).donated,
    {
        let record = self.donor(donor);
        lemma_donor_account(self.donors, donor);
        let settled = DonorState { refunded: true, ..record };
        lemma_put_donor(self.donors, settled, Share::All);
        lemma_put_donor(self.donors, settled, Share::Voted);
        lemma_put_donor(self.donors, settled, Share::Refunded);
    }

    /// Handing donations back never pays out more than was donated.
    pub proof fn lemma_refunds_within_budget(self)
        requires
            self.wf(),
        ensures
            total(self.donors, Share::Refunded) <= self.budget,
    {
        lemma_total_within_all(self.donors, Share::Refunded);
    }

    // What holds as time goes on

    /// Whether any donation was handed back.
    pub open spec fn any_refunded(self) -> bool {
        any_refunded(self.donors)
    }

    /// What the history of a project implies at a time `clock` that is not
    /// before any call made so far: funds left only after the deadline; a
    /// claim was made only on a campaign that succeeded; a refund was made
    /// only where the goal was missed or the campaign can no longer succeed.
    pub open spec fn consistent_at(self, voting_length: u64, clock: u64) -> bool {
        &&& self.claimed || self.any_refunded() ==> clock >= self.info.deadline
        &&& self.claimed ==> self.goal_reached() && 2 * self.voted_yes > self.budget
        &&& self.any_refunded() ==> !self.goal_reached() || 2 * self.voted_no >= self.budget || (
        clock > self.window_end(voting_length) && 2 * self.voted_yes <= self.budget)
    }

    /// What held at one time holds at any later time.
    pub proof fn lemma_consistent_later(self, voting_length: u64, clock: u64, later: u64)
        requires
            self.consistent_at(voting_length, clock),
            clock <= later,
        ensures
            self.consistent_at(voting_length, later),
    {
    }

    /// The tallies together stay within the budget.
    pub proof fn lemma_votes_within_budget(self)
        requires
            self.wf(),
        ensures
            self.voted_yes + self.voted_no <= self.budget,
    {
        lemma_total_within_all(self.donors, Share::Voted);
    }

    /// A donation that is accepted comes before any funds have left, and
    /// leaves the money paid out as it was.
    pub proof fn lemma_donation_consistent(
        self,
        voting_length: u64,
        clock: u64,
        donor: AccountId,
        now: u64,
        amount: nat,
    )
        requires
            self.wf(),
            self.consistent_at(voting_length, clock),
            clock <= now,
            self.donate_reply(donor, now) is Ok,
        ensures
            self.after_donation(donor, amount).consistent_at(voting_length, now),
            self.after_donation(donor, amount).paid_out() == self.paid_out(),
    {
        let record = self.donor(donor);
        lemma_donor_account(self.donors, donor);
        self.lemma_after_donation(donor, amount);
        lemma_any_refunded_kept(
            self.donors,
            DonorState { donated: record.donated + amount, ..record },
        );
    }

    /// A vote that is accepted keeps what the history implies, and leaves the
    /// money paid out as it was.
    pub proof fn lemma_vote_consistent(
        self,
        voting_length: u64,
        clock: u64,
        voter: AccountId,
        choice: bool,
        now: u64,
    )
        requires
            self.wf(),
            self.consistent_at(voting_length, clock),
            clock <= now,
            self.vote_reply(voting_length, voter, now) is Ok,
        ensures
            self.after_vote(voter, choice).consistent_at(voting_length, now),
            self.after_vote(voter, choice).paid_out() == self.paid_out(),
    {
        let record = self.donor(voter);
        lemma_donor_account(self.donors, voter);
        self.lemma_after_vote(voter, choice);
        lemma_any_refunded_kept(self.donors, DonorState { vote: Some(choice), ..record });
        self.after_vote(voter, choice).lemma_votes_within_budget();
    }

    /// A refund that is granted is one that the history allows, and adds the
    /// donation to the money paid out.
    pub proof fn lemma_refund_consistent(self, voting_length: u64, clock: u64, donor: AccountId, now: u64)
        requires
            self.wf(),
            self.consistent_at(voting_length, clock),
            clock <= now,
            self.refund_reply(voting_length, donor, now) is Ok,
        ensures
            self.after_refund(donor).consistent_at(voting_length, now),
            self.after_refund(donor).paid_out() == self.paid_out() + self.donor(donor).donated,
            !self.claimed,
    {
        self.lemma_after_refund(donor);
        self.lemma_votes_within_budget();
    }

    /// A claim that is granted is made before any refund, and adds the budget
    /// to the money paid out.
    pub proof fn lemma_claim_consistent(self, voting_length: u64, clock: u64, caller: AccountId, now: u64)
        requires
            self.wf(),
            self.consistent_at(voting_length, clock),
            clock <= now,
            self.claim_reply(voting_length, caller, now) is Ok,
        ensures
            self.after_claim().consistent_at(voting_length, now),
            self.after_claim().paid_out() == self.paid_out() + self.budget,
            !self.any_refunded(),
    {
        self.lemma_votes_within_budget();
    }

    /// No more leaves the pool than was donated: a claimed budget excludes
    /// refunds, and refunds alone are part of the budget.
    pub proof fn lemma_paid_out_within_budget(self, voting_length: u64, clock: u64)
        requires
            self.wf(),
            self.consistent_at(voting_length, clock),
        ensures
            self.paid_out() <= self.budget,
    {
        self.lemma_votes_within_budget();
        self.lemma_refunds_within_budget();
        if self.claimed {
            lemma_nothing_refunded(self.donors);
        }
    }

    // What no operation undoes

    /// Whether `later` can be this project at a later time: it is the same
    /// project, its budget and its tallies are no lower, no donation has
    /// shrunk, no vote was changed and no payout was taken back.
    pub open spec fn carries_on(self, later: ProjectState) -> bool {
        &&& later.name == self.name
        &&& later.info == self.info
        &&& later.budget >= self.budget
        &&& later.voted_yes >= self.voted_yes
        &&& later.voted_no >= self.voted_no
        &&& self.claimed ==> later.claimed
        &&& forall|account: AccountId|
            later.donor(account).donated >= (#[trigger] self.donor(account)).donated
        &&& forall|account: AccountId|
            (#[trigger] self.donor(account)).vote is Some ==> later.donor(account).vote
                == self.donor(account).vote
        &&& forall|account: AccountId| (#[trigger] self.donor(account)).refunded ==> later.donor(account).refunded
    }

    pub proof fn lemma_donation_carries_on(self, donor: AccountId, amount: nat)
        requires
            self.wf(),
        ensures
            self.carries_on(self.after_donation(donor, amount)),
    {
        let record = self.donor(donor);
        lemma_donor_account(self.donors, donor);
        lemma_put_donor(self.donors, DonorState { donated: record.donated + amount, ..record }, Share::All);
    }

    pub proof fn lemma_vote_carries_on(self, voter: AccountId, choice: bool)
        requires
            self.wf(),
            self.donor(voter).vote is None,
        ensures
            self.carries_on(self.after_vote(voter, choice)),
    {
        let record = self.donor(voter);
        lemma_donor_account(self.donors, voter);
        lemma_put_donor(self.donors, DonorState { vote: Some(choice), ..record }, Share::All);
    }

    pub proof fn lemma_refund_carries_on(self, donor: AccountId)
        requires
            self.wf(),
        ensures
            self.carries_on(self.after_refund(donor)),
            self.after_refund(donor).budget == self.budget,
    {
        let record = self.donor(donor);
        lemma_donor_account(self.donors, donor);
        lemma_put_donor(self.donors, DonorState { refunded: true, ..record }, Share::All);
    }

    pub proof fn lemma_claim_carries_on(self)
        ensures
            self.carries_on(self.after_claim()),
            self.after_claim().budget == self.budget,
    {
    }
}

} // verus!
