//! The whole ledger as a mathematical value: the configuration and the
//! projects in the order of their creation, found by name.

use crate::account::AccountId;
use crate::campaign::ProjectState;
use crate::error::Error;
use crate::project::ProjectInfoView;
use crate::resolution::Outcome;
use vstd::prelude::*;

verus! {

/// The longest voting window that can be configured: ninety days, in
/// milliseconds.
pub const MAX_VOTING_TIME: u64 = 7_776_000_000;

/// The highest platform fee that can be configured, in percent.
pub const MAX_FEE_PERCENT: u8 = 100;

/// The most bytes a project's name may take.
pub const MAX_NAME_LENGTH: usize = 50;

/// The most bytes a project's description may take.
pub const MAX_DESCRIPTION_LENGTH: usize = 500;

/// The number of bytes a text takes in UTF-8.
pub open spec fn byte_len(text: Seq<char>) -> nat {
    vstd::utf8::encode_utf8(text).len()
}

pub open spec fn is_project_at(projects: Seq<ProjectState>, i: int, name: Seq<char>) -> bool {
    0 <= i < projects.len() && projects[i].name == name
}

/// Where the project of that name is, if there is one.
pub open spec fn project_index(projects: Seq<ProjectState>, name: Seq<char>) -> Option<int> {
    if exists|i: int| is_project_at(projects, i, name) {
        Some(choose|i: int| is_project_at(projects, i, name))
    } else {
        None
    }
}

/// No name is used twice.
pub open spec fn distinct_names(projects: Seq<ProjectState>) -> bool {
    forall|i: int, j: int| 0 <= i < j < projects.len() ==> projects[i].name != projects[j].name
}

/// With no name used twice, a project found at a place is the project of its
/// name.
pub proof fn lemma_project_at(projects: Seq<ProjectState>, i: int, name: Seq<char>)
    requires
        distinct_names(projects),
        is_project_at(projects, i, name),
    ensures
        project_index(projects, name) == Some(i),
{
    let k = choose|k: int| is_project_at(projects, k, name);
    assert(is_project_at(projects, k, name));
    if k < i {
        assert(projects[k].name != projects[i].name);
    } else if i < k {
        assert(projects[i].name != projects[k].name);
    }
}

/// What `project_index` returns is a place where the name stands, or says
/// that it stands nowhere.
pub proof fn lemma_project_listed(projects: Seq<ProjectState>, name: Seq<char>)
    ensures
        match project_index(projects, name) {
            Some(i) => is_project_at(projects, i, name),
            None => forall|i: int| 0 <= i < projects.len() ==> (#[trigger] projects[i]).name != name,
        },
{
    if exists|i: int| is_project_at(projects, i, name) {
        let k = choose|k: int| is_project_at(projects, k, name);
        assert(is_project_at(projects, k, name));
    } else {
        assert forall|i: int| 0 <= i < projects.len() implies (#[trigger] projects[i]).name
            != name by {
            assert(!is_project_at(projects, i, name));
        }
    }
}

/// The ledger: how long votes run, what the platform takes and who receives
/// it, and every project ever created.
pub struct LedgerState {
    pub voting_length: u64,
    pub fee_percent: u8,
    pub owner_account: AccountId,
    pub projects: Seq<ProjectState>,
}

impl LedgerState {
    /// A ledger without projects. A window or a fee above its maximum is
    /// lowered to the maximum.
    pub open spec fn initial(voting_length: u64, fee_percent: u8, owner_account: AccountId) -> LedgerState {
        LedgerState {
            voting_length: if voting_length > MAX_VOTING_TIME {
                MAX_VOTING_TIME
            } else {
                voting_length
            },
            fee_percent: if fee_percent > MAX_FEE_PERCENT {
                MAX_FEE_PERCENT
            } else {
                fee_percent
            },
            owner_account,
            projects: Seq::empty(),
        }
    }

    pub open spec fn find(self, name: Seq<char>) -> Option<int> {
        project_index(self.projects, name)
    }

    pub open spec fn has(self, name: Seq<char>) -> bool {
        self.find(name) is Some
    }

    /// The project of that name. Meant for names that the ledger has.
    pub open spec fn project(self, name: Seq<char>) -> ProjectState
        recommends
            self.has(name),
    {
        self.projects[self.find(name).unwrap()]
    }

    /// The names of all projects, in the order of their creation.
    pub open spec fn names(self) -> Seq<Seq<char>> {
        self.projects.map_values(|project: ProjectState| project.name)
    }

    /// The ledger with this project in place of the one of its name.
    pub open spec fn with_project(self, project: ProjectState) -> LedgerState {
        match self.find(project.name) {
            Some(i) => LedgerState { projects: self.projects.update(i, project), ..self },
            None => self,
        }
    }

    /// The configuration is within its limits, no name is used twice, and
    /// every project's books balance.
    pub open spec fn wf(self) -> bool {
        &&& self.voting_length <= MAX_VOTING_TIME
        &&& self.fee_percent <= MAX_FEE_PERCENT
        &&& distinct_names(self.projects)
        &&& forall|i: int| 0 <= i < self.projects.len() ==> (#[trigger] self.projects[i]).wf()
    }

    // Creating a project

    pub open spec fn create_reply(
        self,
        name: Seq<char>,
        description: Seq<char>,
        deadline: u64,
        now: u64,
    ) -> Result<(), Error> {
        if self.has(name) {
            Err(Error::ProjectAlreadyExists)
        } else if now >= deadline {
            Err(Error::DeadlineTooEarly)
        } else if byte_len(name) > MAX_NAME_LENGTH {
            Err(Error::NameTooLong)
        } else if byte_len(description) > MAX_DESCRIPTION_LENGTH {
            Err(Error::DescriptionTooLong)
        } else {
            Ok(())
        }
    }

    /// A project as it stands when created: nothing donated, no vote cast,
    /// nothing claimed.
    pub open spec fn fresh(
        name: Seq<char>,
        description: Seq<char>,
        deadline: u64,
        goal: u128,
        author: AccountId,
        now: u64,
    ) -> ProjectState {
        ProjectState {
            name,
            info: ProjectInfoView { description, author, create_time: now, deadline, goal },
            budget: 0,
            voted_yes: 0,
            voted_no: 0,
            claimed: false,
            donors: Seq::empty(),
        }
    }

    pub open spec fn after_create(
        self,
        name: Seq<char>,
        description: Seq<char>,
        deadline: u64,
        goal: u128,
        author: AccountId,
        now: u64,
    ) -> LedgerState {
        LedgerState {
            projects: self.projects.push(Self::fresh(name, description, deadline, goal, author, now)),
            ..self
        }
    }

    // Donating

    pub open spec fn donate_reply(self, name: Seq<char>, donor: AccountId, now: u64) -> Result<
        (),
        Error,
    > {
        if !self.has(name) {
            Err(Error::ProjectDoesntExist)
        } else {
            self.project(name).donate_reply(donor, now)
        }
    }

    pub open spec fn after_donate(self, name: Seq<char>, donor: AccountId, amount: nat) -> LedgerState {
        self.with_project(self.project(name).after_donation(donor, amount))
    }

    // Voting

    pub open spec fn vote_reply(self, name: Seq<char>, voter: AccountId, now: u64) -> Result<
        (),
        Error,
    > {
        if !self.has(name) {
            Err(Error::ProjectDoesntExist)
        } else {
            self.project(name).vote_reply(self.voting_length, voter, now)
        }
    }

    pub open spec fn after_vote(self, name: Seq<char>, voter: AccountId, choice: bool) -> LedgerState {
        self.with_project(self.project(name).after_vote(voter, choice))
    }

    /// Whether the vote on a project has released its funds, as far as that
    /// is settled.
    pub open spec fn voting_result(self, name: Seq<char>, now: u64) -> Result<bool, Error> {
        if !self.has(name) {
            Err(Error::ProjectDoesntExist)
        } else {
            match self.project(name).verdict(self.voting_length, now) {
                Outcome::Success => Ok(true),
                Outcome::Failure => Ok(false),
                Outcome::Undetermined => Err(Error::CampaignResultUnknown),
            }
        }
    }

    // Refunding

    pub open spec fn refund_reply(self, name: Seq<char>, donor: AccountId, now: u64) -> Result<
        (),
        Error,
    > {
        if !self.has(name) {
            Err(Error::ProjectDoesntExist)
        } else {
            self.project(name).refund_reply(self.voting_length, donor, now)
        }
    }

    pub open spec fn after_refund(self, name: Seq<char>, donor: AccountId) -> LedgerState {
        self.with_project(self.project(name).after_refund(donor))
    }

    // Claiming

    pub open spec fn claim_reply(self, name: Seq<char>, caller: AccountId, now: u64) -> Result<
        (),
        Error,
    > {
        if !self.has(name) {
            Err(Error::ProjectDoesntExist)
        } else {
            self.project(name).claim_reply(self.voting_length, caller, now)
        }
    }

    pub open spec fn after_claim(self, name: Seq<char>) -> LedgerState {
        self.with_project(self.project(name).after_claim())
    }

    // What the operations keep

    /// A project found at a place is the project of its name.
    pub proof fn lemma_found(self, i: int, name: Seq<char>)
        requires
            distinct_names(self.projects),
            is_project_at(self.projects, i, name),
        ensures
            self.find(name) == Some(i),
            self.has(name),
            self.project(name) == self.projects[i],
    {
        lemma_project_at(self.projects, i, name);
    }

    /// A project of the ledger stands in its list, under its own name, and
    /// its books balance.
    pub proof fn lemma_project(self, name: Seq<char>)
        requires
            self.has(name),
        ensures
            is_project_at(self.projects, self.find(name).unwrap(), name),
            self.project(name).name == name,
            self.wf() ==> self.project(name).wf(),
    {
        lemma_project_listed(self.projects, name);
    }

    /// Putting a project in place of the one of its name changes that
    /// project and nothing else.
    pub proof fn lemma_with_project(self, project: ProjectState)
        requires
            distinct_names(self.projects),
            self.has(project.name),
        ensures
            distinct_names(self.with_project(project).projects),
            self.with_project(project).projects.len() == self.projects.len(),
            self.with_project(project).names() == self.names(),
            self.with_project(project).has(project.name),
            self.with_project(project).project(project.name) == project,
            forall|other: Seq<char>|
                other != project.name ==> (#[trigger] self.with_project(project).has(other)
                    == self.has(other)),
            forall|other: Seq<char>|
                other != project.name && self.has(other) ==> #[trigger] self.with_project(
                    project,
                ).project(other) == self.project(other),
            self.wf() && project.wf() ==> self.with_project(project).wf(),
    {
        let after = self.with_project(project);
        lemma_project_listed(self.projects, project.name);
        let place = self.find(project.name).unwrap();
        assert(is_project_at(after.projects, place, project.name));
        assert forall|i: int, j: int| 0 <= i < j < after.projects.len() implies after.projects[i].name
            != after.projects[j].name by {
            assert(after.projects[i].name == self.projects[i].name);
            assert(after.projects[j].name == self.projects[j].name);
        }
        after.lemma_found(place, project.name);
        assert(after.names() =~= self.names());
        assert forall|other: Seq<char>| other != project.name implies (#[trigger] after.has(other)
            == self.has(other)) by {
            lemma_project_listed(self.projects, other);
            lemma_project_listed(after.projects, other);
            match self.find(other) {
                Some(k) => {
                    assert(is_project_at(after.projects, k, other));
                    after.lemma_found(k, other);
                },
                None => {
                    match after.find(other) {
                        Some(k) => {
                            assert(after.projects[k].name == self.projects[k].name);
                        },
                        None => {},
                    }
                },
            }
        }
        assert forall|other: Seq<char>| other != project.name && self.has(other) implies (
        #[trigger] after.project(other)) == self.project(other) by {
            lemma_project_listed(self.projects, other);
            let k = self.find(other).unwrap();
            assert(is_project_at(after.projects, k, other));
            after.lemma_found(k, other);
        }
        if self.wf() && project.wf() {
            assert forall|i: int| 0 <= i < after.projects.len() implies (
            #[trigger] after.projects[i]).wf() by {
                if i != place {
                    assert(after.projects[i] == self.projects[i]);
                }
            }
        }
    }

    /// A new project under a name that was free joins the others and leaves
    /// them as they were.
    pub proof fn lemma_after_create(
        self,
        name: Seq<char>,
        description: Seq<char>,
        deadline: u64,
        goal: u128,
        author: AccountId,
        now: u64,
    )
        requires
            self.wf(),
            !self.has(name),
        ensures
            self.after_create(name, description, deadline, goal, author, now).wf(),
            self.after_create(name, description, deadline, goal, author, now).has(name),
            self.after_create(name, description, deadline, goal, author, now).project(name)
                == Self::fresh(name, description, deadline, goal, author, now),
            self.after_create(name, description, deadline, goal, author, now).names()
                == self.names().push(name),
            forall|other: Seq<char>|
                other != name ==> (#[trigger] self.after_create(
                    name,
                    description,
                    deadline,
                    goal,
                    author,
                    now,
                ).has(other) == self.has(other)),
            forall|other: Seq<char>|
                self.has(other) ==> #[trigger] self.after_create(
                    name,
                    description,
                    deadline,
                    goal,
                    author,
                    now,
                ).project(other) == self.project(other),
    {
        let after = self.after_create(name, description, deadline, goal, author, now);
        let last = self.projects.len() as int;
        lemma_project_listed(self.projects, name);
        assert forall|i: int, j: int| 0 <= i < j < after.projects.len() implies after.projects[i].name
            != after.projects[j].name by {
            if j < last {
                assert(after.projects[i] == self.projects[i]);
                assert(after.projects[j] == self.projects[j]);
            } else {
                assert(after.projects[i] == self.projects[i]);
            }
        }
        assert(is_project_at(after.projects, last, name));
        after.lemma_found(last, name);
        assert(after.names() =~= self.names().push(name));
        assert forall|i: int| 0 <= i < after.projects.len() implies (#[trigger] after.projects[i]).wf() by {
            if i < last {
                assert(after.projects[i] == self.projects[i]);
            }
        }
        assert forall|other: Seq<char>| other != name implies (#[trigger] after.has(other)) == self.has(
            other,
        ) by {
            lemma_project_listed(self.projects, other);
            lemma_project_listed(after.projects, other);
            match self.find(other) {
                Some(k) => {
                    assert(is_project_at(after.projects, k, other));
                    after.lemma_found(k, other);
                },
                None => {
                    match after.find(other) {
                        Some(k) => {
                            if k < last {
                                assert(after.projects[k] == self.projects[k]);
                            }
                        },
                        None => {},
                    }
                },
            }
        }
        assert forall|other: Seq<char>| self.has(other) implies (#[trigger] after.project(other))
            == self.project(other) by {
            lemma_project_listed(self.projects, other);
            let k = self.find(other).unwrap();
            assert(is_project_at(after.projects, k, other));
            after.lemma_found(k, other);
        }
    }
}

} // verus!
