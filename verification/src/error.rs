use vstd::prelude::*;

verus! {

/// Why a call was turned down. A call that fails leaves the ledger as it was.
#[derive(Clone, Copy, Debug, PartialEq, Eq, Structural)]
pub enum Error {
    AlreadyVoted,
    CampaignResultUnknown,
    CampaignSuccessfulNoRefunds,
    CampaignUnsuccessfulNoClaims,
    CantDonateOwnProject,
    DeadlineNotPassedYet,
    DeadlinePassed,
    DeadlineTooEarly,
    DescriptionTooLong,
    GoalNotReached,
    IncorrectFeePercentage,
    NameTooLong,
    NoFundsDontatedNoVote,
    NoFundsToClaim,
    NoFundsToRefund,
    NoSuchVote,
    ProjectAlreadyExists,
    ProjectDoesntExist,
    TransferFailed,
    VotingDeadlinePassed,
    YouAreNotTheFather,
}

} // verus!
