//! Paying out is the caller's work: the ledger says which transfers to make,
//! and what to report once each was tried.

use crate::account::AccountId;
use crate::error::Error;
use vstd::prelude::*;

verus! {

/// An instruction to move funds out of the pool.
#[derive(Clone, Copy, Debug, PartialEq, Eq)]
pub struct Transfer {
    pub to: AccountId,
    pub amount: u128,
}

/// The two transfers of a claim, in the order in which they are made: the
/// platform's fee, then the rest of the budget to the author.
#[derive(Clone, Copy, Debug, PartialEq, Eq)]
pub struct Payout {
    pub fee: Transfer,
    pub author: Transfer,
}

impl Payout {
    /// What follows the attempt to send the fee: the author's transfer if the
    /// fee went through, and the end of the claim if it did not.
    pub fn after_fee(&self, fee_sent: bool) -> (next: Result<Transfer, Error>)
        ensures
            fee_sent ==> next == Ok::<Transfer, Error>(self.author),
            !fee_sent ==> next == Err::<Transfer, Error>(Error::TransferFailed),
    {
        if fee_sent {
            Ok(self.author)
        } else {
            Err(Error::TransferFailed)
        }
    }
}

/// The reply to a claim or a refund once its last transfer was tried.
pub fn settle(sent: bool) -> (reply: Result<(), Error>)
    ensures
        sent ==> reply == Ok::<(), Error>(()),
        !sent ==> reply == Err::<(), Error>(Error::TransferFailed),
{
    if sent {
        Ok(())
    } else {
        Err(Error::TransferFailed)
    }
}

} // verus!
