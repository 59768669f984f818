//! A donation-weighted escrow for named fundraising campaigns.
//!
//! Donors pool funds toward a project until its deadline. If the goal was
//! reached, the donors then vote, each with the weight of their donation, on
//! whether the pool is released to the author or returned. The ledger decides;
//! moving the funds is left to the caller, who is handed the transfers to make.

pub mod account;
pub mod campaign;
pub mod donors;
pub mod error;
pub mod laws;
pub mod ledger;
pub mod payout;
pub mod project;
pub mod resolution;
pub mod state;

pub use account::AccountId;
pub use error::Error;
pub use ledger::Crowdfund;
pub use payout::{settle, Payout, Transfer};
pub use project::{ProjectInfo, ProjectInfoView, ProjectVotes};
pub use donors::{DonorState, Share};
pub use campaign::ProjectState;
pub use resolution::{fee_of, outcome, platform_fee, resolve, Outcome};
pub use state::{
    LedgerState, MAX_DESCRIPTION_LENGTH, MAX_FEE_PERCENT, MAX_NAME_LENGTH, MAX_VOTING_TIME,
};
