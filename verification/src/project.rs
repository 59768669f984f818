use crate::account::AccountId;
use vstd::prelude::*;

verus! {

/// What is fixed about a project when it is created.
#[derive(Clone, Debug, PartialEq, Eq)]
pub struct ProjectInfo {
    pub description: String,
    pub author: AccountId,
    pub create_time: u64,
    pub deadline: u64,
    pub goal: u128,
}

/// A `ProjectInfo` with its text as a sequence of characters.
pub struct ProjectInfoView {
    pub description: Seq<char>,
    pub author: AccountId,
    pub create_time: u64,
    pub deadline: u64,
    pub goal: u128,
}

impl View for ProjectInfo {
    type V = ProjectInfoView;

    open spec fn view(&self) -> ProjectInfoView {
        ProjectInfoView {
            description: self.description@,
            author: self.author,
            create_time: self.create_time,
            deadline: self.deadline,
            goal: self.goal,
        }
    }
}

impl ProjectInfo {
    /// A second copy of the record, equal to the first.
    pub fn duplicate(&self) -> (copy: ProjectInfo)
        ensures
            copy == *self,
    {
        ProjectInfo {
            description: self.description.clone(),
            author: self.author,
            create_time: self.create_time,
            deadline: self.deadline,
            goal: self.goal,
        }
    }
}

/// The weight cast for and against releasing a project's funds: each is the
/// sum of the donations of the donors who voted that way.
#[derive(Clone, Copy, Debug, PartialEq, Eq, Structural)]
pub struct ProjectVotes {
    pub ovr_voted_yes: u128,
    pub ovr_voted_no: u128,
}

} // verus!
