//! The ledger itself: the state that the calls act on.

use crate::account::AccountId;
use crate::campaign::ProjectState;
use crate::donors::{
    distinct, donor_index, donor_of, is_donor_at, lemma_donor_absent, lemma_donor_account,
    lemma_donor_at, put_donor, stranger, DonorState,
};
use crate::error::Error;
use crate::payout::{Payout, Transfer};
use crate::project::{ProjectInfo, ProjectVotes};
use crate::resolution::{fee_of, platform_fee, resolve, Outcome};
use crate::state::{
    is_project_at, lemma_project_listed, LedgerState, MAX_DESCRIPTION_LENGTH,
    MAX_FEE_PERCENT, MAX_NAME_LENGTH, MAX_VOTING_TIME,
};
use vstd::prelude::*;

verus! {

/// One donor's record.
#[derive(Clone, Copy)]
struct Donor {
    account: AccountId,
    donated: u128,
    vote: Option<bool>,
    refunded: bool,
}

impl View for Donor {
    type V = DonorState;

    closed spec fn view(&self) -> DonorState {
        DonorState {
            account: self.account,
            donated: self.donated as nat,
            vote: self.vote,
            refunded: self.refunded,
        }
    }
}

/// One project's record.
struct Project {
    name: String,
    info: ProjectInfo,
    budget: u128,
    votes: ProjectVotes,
    claimed: bool,
    donors: Vec<Donor>,
}

spec fn donors_view(donors: Seq<Donor>) -> Seq<DonorState> {
    donors.map_values(|donor: Donor| donor@)
}

impl View for Project {
    type V = ProjectState;

    closed spec fn view(&self) -> ProjectState {
        ProjectState {
            name: self.name@,
            info: self.info@,
            budget: self.budget as nat,
            voted_yes: self.votes.ovr_voted_yes as nat,
            voted_no: self.votes.ovr_voted_no as nat,
            claimed: self.claimed,
            donors: donors_view(self.donors@),
        }
    }
}

spec fn projects_view(projects: Seq<Project>) -> Seq<ProjectState> {
    projects.map_values(|project: Project| project@)
}

/// The crowdfunding ledger. Its value as a `LedgerState` is what the
/// contracts of its methods speak of.
pub struct Crowdfund {
    voting_length: u64,
    fee_percent: u8,
    owner_account: AccountId,
    projects: Vec<Project>,
}

impl View for Crowdfund {
    type V = LedgerState;

    closed spec fn view(&self) -> LedgerState {
        LedgerState {
            voting_length: self.voting_length,
            fee_percent: self.fee_percent,
            owner_account: self.owner_account,
            projects: projects_view(self.projects@),
        }
    }
}

/// Where the account's record stands among the donors.
fn find_donor(donors: &Vec<Donor>, account: AccountId) -> (place: Option<usize>)
    requires
        distinct(donors_view(donors@)),
    ensures
        match place {
            Some(j) => j < donors.len() && donors[j as int].account == account && donor_index(
                donors_view(donors@),
                account,
            ) == Some(j as int) && donor_of(donors_view(donors@), account) == donors[j as int]@,
            None => donor_index(donors_view(donors@), account) is None && donor_of(
                donors_view(donors@),
                account,
            ) == stranger(account),
        },
{
    let mut j: usize = 0;
    while j < donors.len()
        invariant
            j <= donors.len(),
            distinct(donors_view(donors@)),
            forall|k: int| 0 <= k < j ==> donors[k].account != account,
        decreases donors.len() - j,
    {
        if donors[j].account == account {
            proof {
                assert(is_donor_at(donors_view(donors@), j as int, account));
                lemma_donor_at(donors_view(donors@), j as int, account);
            }
            return Some(j);
        }
        j = j + 1;
    }
    proof {
        lemma_donor_absent(donors_view(donors@), account);
    }
    None
}

impl Crowdfund {
    /// Whether the ledger is one that its own operations can have produced.
    pub open spec fn wf(&self) -> bool {
        self@.wf()
    }

    /// A ledger without projects. A voting window above `MAX_VOTING_TIME` or
    /// a fee above `MAX_FEE_PERCENT` is lowered to that maximum.
    pub fn new(voting_length: u64, fee_percent: u8, owner_account: AccountId) -> (ledger: Crowdfund)
        ensures
            ledger.wf(),
            ledger@ == LedgerState::initial(voting_length, fee_percent, owner_account),
    {
        let ledger = Crowdfund {
            voting_length: if voting_length > MAX_VOTING_TIME {
                MAX_VOTING_TIME
            } else {
                voting_length
            },
            fee_percent: if fee_percent > MAX_FEE_PERCENT {
                MAX_FEE_PERCENT
            } else {
                fee_percent
            },
            owner_account,
            projects: Vec::new(),
        };
        proof {
            assert(ledger@.projects =~= Seq::empty());
        }
        ledger
    }

    /// Where the project of that name stands.
    fn locate(&self, name: &String) -> (place: Option<usize>)
        requires
            self.wf(),
        ensures
            match place {
                Some(i) => i < self.projects.len() && self@.find(name@) == Some(i as int)
                    && self@.has(name@) && self@.project(name@) == self.projects[i as int]@,
                None => !self@.has(name@),
            },
    {
        let mut i: usize = 0;
        while i < self.projects.len()
            invariant
                i <= self.projects.len(),
                self.wf(),
                forall|k: int| 0 <= k < i ==> self.projects[k].name@ != name@,
            decreases self.projects.len() - i,
        {
            if self.projects[i].name == *name {
                proof {
                    assert(is_project_at(self@.projects, i as int, name@));
                    self@.lemma_found(i as int, name@);
                }
                return Some(i);
            }
            i = i + 1;
        }
        proof {
            lemma_project_listed(self@.projects, name@);
            match self@.find(name@) {
                Some(k) => {
                    assert(self@.projects[k] == self.projects[k]@);
                },
                None => {},
            }
        }
        None
    }

    /// Creates a project for `caller` at time `now`. The name must be free,
    /// the deadline must lie ahead, and name and description must be within
    /// their lengths; these are tested in this order.
    pub fn create_project(
        &mut self,
        project_name: String,
        description: String,
        deadline: u64,
        goal: u128,
        caller: AccountId,
        now: u64,
    ) -> (reply: Result<(), Error>)
        requires
            old(self).wf(),
        ensures
            final(self).wf(),
            reply == old(self)@.create_reply(project_name@, description@, deadline, now),
            reply is Ok ==> final(self)@ == old(self)@.after_create(
                project_name@,
                description@,
                deadline,
                goal,
                caller,
                now,
            ),
            reply is Err ==> final(self)@ == old(self)@,
    {
        if self.locate(&project_name).is_some() {
            return Err(Error::ProjectAlreadyExists);
        }
        if now >= deadline {
            return Err(Error::DeadlineTooEarly);
        }
        if project_name.as_str().as_bytes().len() > MAX_NAME_LENGTH {
            return Err(Error::NameTooLong);
        }
        if description.as_str().as_bytes().len() > MAX_DESCRIPTION_LENGTH {
            return Err(Error::DescriptionTooLong);
        }
        let ghost before = self@;
        let ghost name = project_name@;
        let ghost text = description@;
        let project = Project {
            name: project_name,
            info: ProjectInfo { description, author: caller, create_time: now, deadline, goal },
            budget: 0,
            votes: ProjectVotes { ovr_voted_yes: 0, ovr_voted_no: 0 },
            claimed: false,
            donors: Vec::new(),
        };
        proof {
            assert(project@.donors =~= Seq::empty());
            assert(project@ == LedgerState::fresh(name, text, deadline, goal, caller, now));
        }
        self.projects.push(project);
        proof {
            assert(self@.projects =~= before.after_create(
                name,
                text,
                deadline,
                goal,
                caller,
                now,
            ).projects);
            before.lemma_after_create(name, text, deadline, goal, caller, now);
        }
        Ok(())
    }

    /// Records a donation of `value` from `caller` at time `now`. Donations
    /// are taken until the deadline, from anyone but the author, and of any
    /// amount, zero included. The budget must stay within what a `u128`
    /// holds.
    pub fn make_donation(&mut self, project_name: String, caller: AccountId, now: u64, value: u128) -> (reply:
        Result<(), Error>)
        requires
            old(self).wf(),
            old(self)@.donate_reply(project_name@, caller, now) is Ok ==> old(self)@.project(
                project_name@,
            ).budget + value <= u128::MAX,
        ensures
            final(self).wf(),
            reply == old(self)@.donate_reply(project_name@, caller, now),
            reply is Ok ==> final(self)@ == old(self)@.after_donate(
                project_name@,
                caller,
                value as nat,
            ),
            reply is Err ==> final(self)@ == old(self)@,
    {
        let i = match self.locate(&project_name) {
            Some(i) => i,
            None => {
                return Err(Error::ProjectDoesntExist);
            },
        };
        if now >= self.projects[i].info.deadline {
            return Err(Error::DeadlinePassed);
        }
        if caller == self.projects[i].info.author {
            return Err(Error::CantDonateOwnProject);
        }
        let ghost before = self@;
        let ghost project = self.projects[i as int]@;
        let ghost record = project.donor(caller);
        let ghost raised = DonorState { donated: record.donated + (value as nat), ..record };
        proof {
            before.lemma_project(project_name@);
            project.lemma_donation_within_budget(caller);
            project.lemma_after_donation(caller, value as nat);
            lemma_donor_account(project.donors, caller);
        }
        match find_donor(&self.projects[i].donors, caller) {
            Some(j) => {
                let donated = self.projects[i].donors[j].donated;
                self.projects[i].donors[j].donated = donated + value;
                proof {
                    assert(self.projects[i as int]@.donors =~= put_donor(project.donors, raised));
                }
            },
            None => {
                self.projects[i].donors.push(
                    Donor { account: caller, donated: value, vote: None, refunded: false },
                );
                proof {
                    assert(self.projects[i as int]@.donors =~= put_donor(project.donors, raised));
                }
            },
        }
        let budget = self.projects[i].budget;
        self.projects[i].budget = budget + value;
        proof {
            assert(self.projects[i as int]@ == project.after_donation(caller, value as nat));
            assert(self@.projects =~= before.after_donate(
                project_name@,
                caller,
                value as nat,
            ).projects);
            before.lemma_with_project(project.after_donation(caller, value as nat));
        }
        Ok(())
    }

    /// Records a donation as `make_donation` does, unless the budget would
    /// grow beyond what a `u128` holds: then it returns `None` and leaves the
    /// ledger as it was.
    pub fn try_make_donation(
        &mut self,
        project_name: String,
        caller: AccountId,
        now: u64,
        value: u128,
    ) -> (reply: Option<Result<(), Error>>)
        requires
            old(self).wf(),
        ensures
            final(self).wf(),
            reply is None <==> old(self)@.donate_reply(project_name@, caller, now) is Ok && old(
                self,
            )@.project(project_name@).budget + value > u128::MAX,
            reply is None ==> final(self)@ == old(self)@,
            reply matches Some(given) ==> {
                &&& given == old(self)@.donate_reply(project_name@, caller, now)
                &&& given is Ok ==> final(self)@ == old(self)@.after_donate(
                    project_name@,
                    caller,
                    value as nat,
                )
                &&& given is Err ==> final(self)@ == old(self)@
            },
    {
        let fits = match self.locate(&project_name) {
            Some(i) => now >= self.projects[i].info.deadline || caller
                == self.projects[i].info.author || self.projects[i].budget <= u128::MAX - value,
            None => true,
        };
        if fits {
            Some(self.make_donation(project_name, caller, now, value))
        } else {
            None
        }
    }

    /// Casts `caller`'s vote at time `now`, with the weight of their
    /// donation. Votes are taken from the deadline until the voting window
    /// closes, on a project that reached its goal, once from each donor who
    /// donated something; these are tested in this order.
    pub fn make_vote(&mut self, project_name: String, vote: bool, caller: AccountId, now: u64) -> (reply:
        Result<(), Error>)
        requires
            old(self).wf(),
        ensures
            final(self).wf(),
            reply == old(self)@.vote_reply(project_name@, caller, now),
            reply is Ok ==> final(self)@ == old(self)@.after_vote(project_name@, caller, vote),
            reply is Err ==> final(self)@ == old(self)@,
    {
        let i = match self.locate(&project_name) {
            Some(i) => i,
            None => {
                return Err(Error::ProjectDoesntExist);
            },
        };
        let deadline = self.projects[i].info.deadline;
        if now < deadline {
            return Err(Error::DeadlineNotPassedYet);
        }
        if now - deadline > self.voting_length {
            return Err(Error::VotingDeadlinePassed);
        }
        if self.projects[i].budget < self.projects[i].info.goal {
            return Err(Error::GoalNotReached);
        }
        let ghost before = self@;
        let ghost project = self.projects[i as int]@;
        proof {
            before.lemma_project(project_name@);
        }
        let j = match find_donor(&self.projects[i].donors, caller) {
            Some(j) => j,
            None => {
                return Err(Error::NoFundsDontatedNoVote);
            },
        };
        if self.projects[i].donors[j].vote.is_some() {
            return Err(Error::AlreadyVoted);
        }
        let weight = self.projects[i].donors[j].donated;
        if weight == 0 {
            return Err(Error::NoFundsDontatedNoVote);
        }
        let ghost cast = DonorState { vote: Some(vote), ..project.donor(caller) };
        proof {
            project.lemma_after_vote(caller, vote);
        }
        self.projects[i].donors[j].vote = Some(vote);
        if vote {
            let yes = self.projects[i].votes.ovr_voted_yes;
            self.projects[i].votes.ovr_voted_yes = yes + weight;
        } else {
            let no = self.projects[i].votes.ovr_voted_no;
            self.projects[i].votes.ovr_voted_no = no + weight;
        }
        proof {
            assert(self.projects[i as int]@.donors =~= put_donor(project.donors, cast));
            assert(self.projects[i as int]@ == project.after_vote(caller, vote));
            assert(self@.projects =~= before.after_vote(project_name@, caller, vote).projects);
            before.lemma_with_project(project.after_vote(caller, vote));
        }
        Ok(())
    }

    /// Whether the vote has released the project's funds: `Ok(true)` once
    /// more than half of the budget voted yes, `Ok(false)` once half or more
    /// voted no or the window closed, and `CampaignResultUnknown` until then.
    pub fn get_project_voting_result(&self, project_name: String, now: u64) -> (reply: Result<
        bool,
        Error,
    >)
        requires
            self.wf(),
        ensures
            reply == self@.voting_result(project_name@, now),
    {
        let i = match self.locate(&project_name) {
            Some(i) => i,
            None => {
                return Err(Error::ProjectDoesntExist);
            },
        };
        let project = &self.projects[i];
        match resolve(project.budget, project.votes, project.info.deadline, self.voting_length, now) {
            Outcome::Success => Ok(true),
            Outcome::Failure => Ok(false),
            Outcome::Undetermined => Err(Error::CampaignResultUnknown),
        }
    }

    /// Hands `caller`'s donation back, at time `now`: marks it refunded and
    /// returns the transfer to make. A refund is due after the deadline, once
    /// to each donor who donated something, where the goal was missed or the
    /// campaign failed; these are tested in this order. The donation is
    /// marked before any funds move, so a transfer that fails is not tried
    /// again.
    pub fn refund_donation(&mut self, project_name: String, caller: AccountId, now: u64) -> (reply:
        Result<Transfer, Error>)
        requires
            old(self).wf(),
        ensures
            final(self).wf(),
            match reply {
                Ok(transfer) => {
                    &&& old(self)@.refund_reply(project_name@, caller, now) == Ok::<(), Error>(())
                    &&& transfer.to == caller
                    &&& transfer.amount == old(self)@.project(project_name@).donor(caller).donated
                    &&& final(self)@ == old(self)@.after_refund(project_name@, caller)
                },
                Err(error) => {
                    &&& old(self)@.refund_reply(project_name@, caller, now) == Err::<(), Error>(error)
                    &&& final(self)@ == old(self)@
                },
            },
    {
        let i = match self.locate(&project_name) {
            Some(i) => i,
            None => {
                return Err(Error::ProjectDoesntExist);
            },
        };
        let deadline = self.projects[i].info.deadline;
        if now < deadline {
            return Err(Error::DeadlineNotPassedYet);
        }
        let ghost before = self@;
        let ghost project = self.projects[i as int]@;
        proof {
            before.lemma_project(project_name@);
        }
        let j = match find_donor(&self.projects[i].donors, caller) {
            Some(j) => j,
            None => {
                return Err(Error::NoFundsToRefund);
            },
        };
        if self.projects[i].donors[j].refunded {
            return Err(Error::NoFundsToRefund);
        }
        let amount = self.projects[i].donors[j].donated;
        if amount == 0 {
            return Err(Error::NoFundsToRefund);
        }
        if self.projects[i].budget >= self.projects[i].info.goal {
            match resolve(
                self.projects[i].budget,
                self.projects[i].votes,
                deadline,
                self.voting_length,
                now,
            ) {
                Outcome::Success => {
                    return Err(Error::CampaignSuccessfulNoRefunds);
                },
                Outcome::Undetermined => {
                    return Err(Error::CampaignResultUnknown);
                },
                Outcome::Failure => {},
            }
        }
        let ghost settled = DonorState { refunded: true, ..project.donor(caller) };
        proof {
            project.lemma_after_refund(caller);
        }
        self.projects[i].donors[j].refunded = true;
        proof {
            assert(self.projects[i as int]@.donors =~= put_donor(project.donors, settled));
            assert(self.projects[i as int]@ == project.after_refund(caller));
            assert(self@.projects =~= before.after_refund(project_name@, caller).projects);
            before.lemma_with_project(project.after_refund(caller));
        }
        Ok(Transfer { to: caller, amount })
    }

    /// Releases the budget to the author, at time `now`: marks the project
    /// claimed and returns the transfers to make, the platform's fee first.
    /// A claim is due after the deadline, to the author, on a project that
    /// reached its goal, once, where the campaign succeeded; these are tested
    /// in this order. The project is marked before any funds move, so a
    /// transfer that fails is not tried again.
    pub fn claim_budget(&mut self, project_name: String, caller: AccountId, now: u64) -> (reply: Result<
        Payout,
        Error,
    >)
        requires
            old(self).wf(),
        ensures
            final(self).wf(),
            match reply {
                Ok(payout) => {
                    &&& old(self)@.claim_reply(project_name@, caller, now) == Ok::<(), Error>(())
                    &&& payout.fee.to == old(self)@.owner_account
                    &&& payout.fee.amount == fee_of(
                        old(self)@.project(project_name@).budget as int,
                        old(self)@.fee_percent as int,
                    )
                    &&& payout.author.to == caller
                    &&& payout.fee.amount + payout.author.amount == old(self)@.project(
                        project_name@,
                    ).budget
                    &&& final(self)@ == old(self)@.after_claim(project_name@)
                },
                Err(error) => {
                    &&& old(self)@.claim_reply(project_name@, caller, now) == Err::<(), Error>(error)
                    &&& final(self)@ == old(self)@
                },
            },
    {
        let i = match self.locate(&project_name) {
            Some(i) => i,
            None => {
                return Err(Error::ProjectDoesntExist);
            },
        };
        let deadline = self.projects[i].info.deadline;
        if now < deadline {
            return Err(Error::DeadlineNotPassedYet);
        }
        if caller != self.projects[i].info.author {
            return Err(Error::YouAreNotTheFather);
        }
        let budget = self.projects[i].budget;
        if budget < self.projects[i].info.goal {
            return Err(Error::GoalNotReached);
        }
        if self.projects[i].claimed {
            return Err(Error::NoFundsToClaim);
        }
        match resolve(budget, self.projects[i].votes, deadline, self.voting_length, now) {
            Outcome::Success => {},
            Outcome::Failure => {
                return Err(Error::CampaignUnsuccessfulNoClaims);
            },
            Outcome::Undetermined => {
                return Err(Error::CampaignResultUnknown);
            },
        }
        let ghost before = self@;
        let ghost project = self.projects[i as int]@;
        proof {
            before.lemma_project(project_name@);
        }
        self.projects[i].claimed = true;
        proof {
            assert(self.projects[i as int]@ == project.after_claim());
            assert(self@.projects =~= before.after_claim(project_name@).projects);
            before.lemma_with_project(project.after_claim());
        }
        let fee = platform_fee(budget, self.fee_percent);
        Ok(
            Payout {
                fee: Transfer { to: self.owner_account, amount: fee },
                author: Transfer { to: caller, amount: budget - fee },
            },
        )
    }

    /// What was fixed about the project when it was created.
    pub fn get_project_info(&self, project_name: String) -> (reply: Result<ProjectInfo, Error>)
        requires
            self.wf(),
        ensures
            match reply {
                Ok(info) => self@.has(project_name@) && info@ == self@.project(project_name@).info,
                Err(error) => !self@.has(project_name@) && error == Error::ProjectDoesntExist,
            },
    {
        match self.locate(&project_name) {
            Some(i) => Ok(self.projects[i].info.duplicate()),
            None => Err(Error::ProjectDoesntExist),
        }
    }

    /// Everything ever donated to the project.
    pub fn get_collected_budget(&self, project_name: String) -> (reply: Result<u128, Error>)
        requires
            self.wf(),
        ensures
            match reply {
                Ok(budget) => self@.has(project_name@) && budget == self@.project(
                    project_name@,
                ).budget,
                Err(error) => !self@.has(project_name@) && error == Error::ProjectDoesntExist,
            },
    {
        match self.locate(&project_name) {
            Some(i) => Ok(self.projects[i].budget),
            None => Err(Error::ProjectDoesntExist),
        }
    }

    /// The weight cast for and against so far.
    pub fn get_voting_state(&self, project_name: String) -> (reply: Result<ProjectVotes, Error>)
        requires
            self.wf(),
        ensures
            match reply {
                Ok(votes) => {
                    &&& self@.has(project_name@)
                    &&& votes.ovr_voted_yes == self@.project(project_name@).voted_yes
                    &&& votes.ovr_voted_no == self@.project(project_name@).voted_no
                },
                Err(error) => !self@.has(project_name@) && error == Error::ProjectDoesntExist,
            },
    {
        match self.locate(&project_name) {
            Some(i) => Ok(self.projects[i].votes),
            None => Err(Error::ProjectDoesntExist),
        }
    }

    /// Whether the author has claimed the budget.
    pub fn get_author_claimed(&self, project_name: String) -> (reply: Result<bool, Error>)
        requires
            self.wf(),
        ensures
            match reply {
                Ok(claimed) => self@.has(project_name@) && claimed == self@.project(
                    project_name@,
                ).claimed,
                Err(error) => !self@.has(project_name@) && error == Error::ProjectDoesntExist,
            },
    {
        match self.locate(&project_name) {
            Some(i) => Ok(self.projects[i].claimed),
            None => Err(Error::ProjectDoesntExist),
        }
    }

    /// What the account has donated to the project; nothing, if it never did.
    pub fn get_donated_amount(&self, project_name: String, account: AccountId) -> (reply: Result<
        u128,
        Error,
    >)
        requires
            self.wf(),
        ensures
            match reply {
                Ok(donated) => self@.has(project_name@) && donated == self@.project(
                    project_name@,
                ).donor(account).donated,
                Err(error) => !self@.has(project_name@) && error == Error::ProjectDoesntExist,
            },
    {
        let i = match self.locate(&project_name) {
            Some(i) => i,
            None => {
                return Err(Error::ProjectDoesntExist);
            },
        };
        proof {
            self@.lemma_project(project_name@);
        }
        match find_donor(&self.projects[i].donors, account) {
            Some(j) => Ok(self.projects[i].donors[j].donated),
            None => Ok(0),
        }
    }

    /// How the account voted on the project; `NoSuchVote` if it has not.
    pub fn get_vote(&self, project_name: String, account: AccountId) -> (reply: Result<bool, Error>)
        requires
            self.wf(),
        ensures
            !self@.has(project_name@) ==> reply == Err::<bool, Error>(Error::ProjectDoesntExist),
            self@.has(project_name@) ==> reply == match self@.project(project_name@).donor(
                account,
            ).vote {
                Some(vote) => Ok::<bool, Error>(vote),
                None => Err::<bool, Error>(Error::NoSuchVote),
            },
    {
        let i = match self.locate(&project_name) {
            Some(i) => i,
            None => {
                return Err(Error::ProjectDoesntExist);
            },
        };
        proof {
            self@.lemma_project(project_name@);
        }
        match find_donor(&self.projects[i].donors, account) {
            Some(j) => match self.projects[i].donors[j].vote {
                Some(vote) => Ok(vote),
                None => Err(Error::NoSuchVote),
            },
            None => Err(Error::NoSuchVote),
        }
    }

    /// Whether the account's donation to the project was handed back.
    pub fn get_donor_refunded(&self, project_name: String, account: AccountId) -> (reply: Result<
        bool,
        Error,
    >)
        requires
            self.wf(),
        ensures
            match reply {
                Ok(refunded) => self@.has(project_name@) && refunded == self@.project(
                    project_name@,
                ).donor(account).refunded,
                Err(error) => !self@.has(project_name@) && error == Error::ProjectDoesntExist,
            },
    {
        let i = match self.locate(&project_name) {
            Some(i) => i,
            None => {
                return Err(Error::ProjectDoesntExist);
            },
        };
        proof {
            self@.lemma_project(project_name@);
        }
        match find_donor(&self.projects[i].donors, account) {
            Some(j) => Ok(self.projects[i].donors[j].refunded),
            None => Ok(false),
        }
    }

    /// The names of all projects, in the order of their creation.
    pub fn get_all_projects(&self) -> (reply: Result<Vec<String>, Error>)
        ensures
            reply matches Ok(names) && names.deep_view() == self@.names(),
    {
        let mut names: Vec<String> = Vec::new();
        let mut i: usize = 0;
        while i < self.projects.len()
            invariant
                i <= self.projects.len(),
                names.len() == i,
                forall|k: int| 0 <= k < i ==> names[k]@ == self.projects[k].name@,
            decreases self.projects.len() - i,
        {
            names.push(self.projects[i].name.clone());
            i = i + 1;
        }
        proof {
            assert(names.deep_view() =~= self@.names());
        }
        Ok(names)
    }
}

} // verus!
