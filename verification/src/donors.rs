//! The donors of one project, and sums over their donations.

use crate::account::AccountId;
use vstd::prelude::*;

verus! {

/// What the ledger knows of one donor to one project.
pub struct DonorState {
    pub account: AccountId,
    /// Everything this account has donated to the project.
    pub donated: nat,
    /// The vote, once cast.
    pub vote: Option<bool>,
    /// Whether the donation was handed back.
    pub refunded: bool,
}

/// Which donations a sum runs over.
pub enum Share {
    /// Every donation.
    All,
    /// The donations of donors who have voted.
    Voted,
    /// The donations that were handed back.
    Refunded,
}

/// What one donor adds to a sum.
pub open spec fn counted(donor: DonorState, share: Share) -> nat {
    match share {
        Share::All => donor.donated,
        Share::Voted => if donor.vote is Some {
            donor.donated
        } else {
            0
        },
        Share::Refunded => if donor.refunded {
            donor.donated
        } else {
            0
        },
    }
}

/// The sum of a share of the donations.
pub open spec fn total(donors: Seq<DonorState>, share: Share) -> nat
    decreases donors.len(),
{
    if donors.len() == 0 {
        0
    } else {
        total(donors.drop_last(), share) + counted(donors.last(), share)
    }
}

/// The record of an account that never donated.
pub open spec fn stranger(account: AccountId) -> DonorState {
    DonorState { account, donated: 0, vote: None, refunded: false }
}

pub open spec fn is_donor_at(donors: Seq<DonorState>, i: int, account: AccountId) -> bool {
    0 <= i < donors.len() && donors[i].account == account
}

/// Where the account's record is, if there is one.
pub open spec fn donor_index(donors: Seq<DonorState>, account: AccountId) -> Option<int> {
    if exists|i: int| is_donor_at(donors, i, account) {
        Some(choose|i: int| is_donor_at(donors, i, account))
    } else {
        None
    }
}

/// The account's record; that of a stranger where there is none.
pub open spec fn donor_of(donors: Seq<DonorState>, account: AccountId) -> DonorState {
    match donor_index(donors, account) {
        Some(i) => donors[i],
        None => stranger(account),
    }
}

/// The donors with this record in place of the one for its account, or added
/// at the end.
pub open spec fn put_donor(donors: Seq<DonorState>, donor: DonorState) -> Seq<DonorState> {
    match donor_index(donors, donor.account) {
        Some(i) => donors.update(i, donor),
        None => donors.push(donor),
    }
}

/// No account is listed twice.
pub open spec fn distinct(donors: Seq<DonorState>) -> bool {
    forall|i: int, j: int| 0 <= i < j < donors.len() ==> donors[i].account != donors[j].account
}

/// Whether any donation was handed back.
pub open spec fn any_refunded(donors: Seq<DonorState>) -> bool {
    exists|account: AccountId| (#[trigger] donor_of(donors, account)).refunded
}

pub proof fn lemma_total_push(donors: Seq<DonorState>, donor: DonorState, share: Share)
    ensures
        total(donors.push(donor), share) == total(donors, share) + counted(donor, share),
{
    assert(donors.push(donor).drop_last() =~= donors);
}

pub proof fn lemma_total_update(donors: Seq<DonorState>, i: int, donor: DonorState, share: Share)
    requires
        0 <= i < donors.len(),
    ensures
        total(donors.update(i, donor), share) + counted(donors[i], share) == total(donors, share)
            + counted(donor, share),
    decreases donors.len(),
{
    let updated = donors.update(i, donor);
    if i == donors.len() - 1 {
        assert(updated.drop_last() =~= donors.drop_last());
    } else {
        lemma_total_update(donors.drop_last(), i, donor, share);
        assert(updated.drop_last() =~= donors.drop_last().update(i, donor));
    }
}

/// No share is larger than the whole.
pub proof fn lemma_total_within_all(donors: Seq<DonorState>, share: Share)
    ensures
        total(donors, share) <= total(donors, Share::All),
    decreases donors.len(),
{
    if donors.len() > 0 {
        lemma_total_within_all(donors.drop_last(), share);
    }
}

/// No donor counts for more than the sum they are part of.
pub proof fn lemma_counted_within_total(donors: Seq<DonorState>, i: int, share: Share)
    requires
        0 <= i < donors.len(),
    ensures
        counted(donors[i], share) <= total(donors, share),
    decreases donors.len(),
{
    if i < donors.len() - 1 {
        lemma_counted_within_total(donors.drop_last(), i, share);
    }
}

/// Where nobody was refunded, nothing was handed back.
pub proof fn lemma_total_refunded_none(donors: Seq<DonorState>)
    requires
        forall|i: int| 0 <= i < donors.len() ==> !(#[trigger] donors[i]).refunded,
    ensures
        total(donors, Share::Refunded) == 0,
    decreases donors.len(),
{
    if donors.len() > 0 {
        lemma_total_refunded_none(donors.drop_last());
    }
}

/// With no account listed twice, a record found at a place is the account's
/// record.
pub proof fn lemma_donor_at(donors: Seq<DonorState>, i: int, account: AccountId)
    requires
        distinct(donors),
        is_donor_at(donors, i, account),
    ensures
        donor_index(donors, account) == Some(i),
        donor_of(donors, account) == donors[i],
{
    let k = choose|k: int| is_donor_at(donors, k, account);
    assert(is_donor_at(donors, k, account));
    if k < i {
        assert(donors[k].account != donors[i].account);
    } else if i < k {
        assert(donors[i].account != donors[k].account);
    }
}

/// An account with no record is a stranger.
pub proof fn lemma_donor_absent(donors: Seq<DonorState>, account: AccountId)
    requires
        forall|i: int| 0 <= i < donors.len() ==> donors[i].account != account,
    ensures
        donor_index(donors, account) is None,
        donor_of(donors, account) == stranger(account),
{
    if exists|i: int| is_donor_at(donors, i, account) {
        let k = choose|k: int| is_donor_at(donors, k, account);
        assert(is_donor_at(donors, k, account));
    }
}

/// The record found for an account carries that account.
pub proof fn lemma_donor_account(donors: Seq<DonorState>, account: AccountId)
    ensures
        donor_of(donors, account).account == account,
{
    if exists|i: int| is_donor_at(donors, i, account) {
        let k = choose|k: int| is_donor_at(donors, k, account);
        assert(is_donor_at(donors, k, account));
    }
}

/// The record found for an account is the stranger's, or stands in the list.
pub proof fn lemma_donor_listed(donors: Seq<DonorState>, account: AccountId)
    ensures
        match donor_index(donors, account) {
            Some(i) => is_donor_at(donors, i, account) && donor_of(donors, account) == donors[i],
            None => donor_of(donors, account) == stranger(account) && forall|i: int|
                0 <= i < donors.len() ==> (#[trigger] donors[i]).account != account,
        },
{
    if exists|i: int| is_donor_at(donors, i, account) {
        let k = choose|k: int| is_donor_at(donors, k, account);
        assert(is_donor_at(donors, k, account));
    } else {
        assert forall|i: int| 0 <= i < donors.len() implies (#[trigger] donors[i]).account
            != account by {
            assert(!is_donor_at(donors, i, account));
        }
    }
}

/// Putting a record in place changes each sum by the difference between the
/// new record and the old, lists nobody twice, and leaves the records of all
/// other accounts as they were.
pub proof fn lemma_put_donor(donors: Seq<DonorState>, donor: DonorState, share: Share)
    requires
        distinct(donors),
    ensures
        distinct(put_donor(donors, donor)),
        total(put_donor(donors, donor), share) + counted(donor_of(donors, donor.account), share)
            == total(donors, share) + counted(donor, share),
        donor_of(put_donor(donors, donor), donor.account) == donor,
        forall|other: AccountId|
            other != donor.account ==> #[trigger] donor_of(put_donor(donors, donor), other)
                == donor_of(donors, other),
{
    let after = put_donor(donors, donor);
    lemma_donor_listed(donors, donor.account);
    let place: int = match donor_index(donors, donor.account) {
        Some(i) => {
            lemma_total_update(donors, i, donor, share);
            i
        },
        None => {
            lemma_total_push(donors, donor, share);
            donors.len() as int
        },
    };
    assert(is_donor_at(after, place, donor.account));
    lemma_donor_at(after, place, donor.account);
    assert forall|other: AccountId| other != donor.account implies #[trigger] donor_of(
        after,
        other,
    ) == donor_of(donors, other) by {
        lemma_donor_listed(donors, other);
        match donor_index(donors, other) {
            Some(k) => {
                assert(is_donor_at(after, k, other));
                lemma_donor_at(after, k, other);
            },
            None => {
                assert forall|k: int| 0 <= k < after.len() implies after[k].account != other by {
                    if k != place {
                        assert(after[k] == donors[k]);
                    }
                }
                lemma_donor_absent(after, other);
            },
        }
    }
}

/// A record put in place with the refund mark as it was leaves the question
/// whether anything was refunded as it was.
pub proof fn lemma_any_refunded_kept(donors: Seq<DonorState>, donor: DonorState)
    requires
        distinct(donors),
        donor.refunded == donor_of(donors, donor.account).refunded,
    ensures
        any_refunded(put_donor(donors, donor)) == any_refunded(donors),
{
    let after = put_donor(donors, donor);
    lemma_put_donor(donors, donor, Share::All);
    if any_refunded(donors) {
        let account = choose|account: AccountId| (#[trigger] donor_of(donors, account)).refunded;
        assert(donor_of(after, account).refunded);
    }
    if any_refunded(after) {
        let account = choose|account: AccountId| (#[trigger] donor_of(after, account)).refunded;
        assert(donor_of(donors, account).refunded);
    }
}

/// Where no donation was handed back, the refunds sum to nothing.
pub proof fn lemma_nothing_refunded(donors: Seq<DonorState>)
    requires
        distinct(donors),
        !any_refunded(donors),
    ensures
        total(donors, Share::Refunded) == 0,
{
    assert forall|i: int| 0 <= i < donors.len() implies !(#[trigger] donors[i]).refunded by {
        lemma_donor_at(donors, i, donors[i].account);
        assert(donor_of(donors, donors[i].account) == donors[i]);
    }
    lemma_total_refunded_none(donors);
}

} // verus!
