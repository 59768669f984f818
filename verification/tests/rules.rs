use crowdfund::{
    platform_fee, resolve, settle, AccountId, Crowdfund, Error, Outcome, Payout, ProjectVotes,
    Transfer, MAX_VOTING_TIME,
};

fn account(tag: u8) -> AccountId {
    AccountId::new([tag; 32])
}

fn owner() -> AccountId {
    account(9)
}

fn author() -> AccountId {
    account(1)
}

fn name() -> String {
    String::from("Kite")
}

/// A ledger with one project: goal 1000, deadline 5, voting window 3, and
/// the platform's fee at `fee_percent`.
fn ledger_with_project(fee_percent: u8) -> Crowdfund {
    let mut ledger = Crowdfund::new(3, fee_percent, owner());
    assert_eq!(
        ledger.create_project(name(), String::from("A kite."), 5, 1000, author(), 0),
        Ok(())
    );
    ledger
}

fn votes(yes: u128, no: u128) -> ProjectVotes {
    ProjectVotes { ovr_voted_yes: yes, ovr_voted_no: no }
}

#[test]
fn accounts_are_equal_byte_for_byte() {
    assert_eq!(account(7), account(7));
    let mut bytes = [7u8; 32];
    bytes[31] = 8;
    assert_ne!(account(7), AccountId::new(bytes));
    bytes[31] = 7;
    bytes[0] = 6;
    assert_ne!(account(7), AccountId::new(bytes));
}

#[test]
fn a_tie_goes_to_no() {
    assert_eq!(resolve(1000, votes(500, 500), 5, 3, 6), Outcome::Failure);
}

#[test]
fn a_majority_for_yes_is_strict() {
    assert_eq!(resolve(1000, votes(501, 499), 5, 3, 6), Outcome::Success);
    assert_eq!(resolve(1000, votes(500, 499), 5, 3, 6), Outcome::Undetermined);
    assert_eq!(resolve(1001, votes(501, 0), 5, 3, 6), Outcome::Success);
    assert_eq!(resolve(1001, votes(500, 0), 5, 3, 6), Outcome::Undetermined);
}

#[test]
fn half_for_no_is_enough() {
    assert_eq!(resolve(1000, votes(0, 500), 5, 3, 6), Outcome::Failure);
    assert_eq!(resolve(1000, votes(0, 499), 5, 3, 6), Outcome::Undetermined);
    assert_eq!(resolve(1001, votes(0, 501), 5, 3, 6), Outcome::Failure);
    assert_eq!(resolve(1001, votes(0, 500), 5, 3, 6), Outcome::Undetermined);
}

#[test]
fn yes_is_asked_before_no() {
    // more weight than the budget on both sides: yes is tested first
    assert_eq!(resolve(10, votes(8, 8), 5, 3, 6), Outcome::Success);
}

#[test]
fn the_clock_counts_last() {
    // the window ends at 8: at 8 it is still open, at 9 it has closed
    assert_eq!(resolve(1000, votes(400, 400), 5, 3, 8), Outcome::Undetermined);
    assert_eq!(resolve(1000, votes(400, 400), 5, 3, 9), Outcome::Failure);
    // a decisive vote stands whatever the time
    assert_eq!(resolve(1000, votes(501, 0), 5, 3, 9), Outcome::Success);
    assert_eq!(resolve(1000, votes(501, 0), 5, 3, 0), Outcome::Success);
}

#[test]
fn an_empty_budget_has_failed() {
    assert_eq!(resolve(0, votes(0, 0), 5, 3, 6), Outcome::Failure);
}

#[test]
fn resolve_takes_the_largest_values() {
    let most = u128::MAX;
    assert_eq!(resolve(most, votes(most, most), 5, 3, 6), Outcome::Success);
    assert_eq!(resolve(most, votes(most / 2, most / 2), 5, 3, 6), Outcome::Undetermined);
    assert_eq!(resolve(most, votes(most / 2 + 1, 0), 5, 3, 6), Outcome::Success);
    assert_eq!(resolve(most, votes(0, most / 2 + 1), 5, 3, 6), Outcome::Failure);
    // a window that ends beyond the last timestamp never closes
    assert_eq!(
        resolve(1000, votes(0, 0), u64::MAX, MAX_VOTING_TIME, u64::MAX),
        Outcome::Undetermined
    );
    assert_eq!(
        resolve(1000, votes(0, 0), u64::MAX - 1, 0, u64::MAX),
        Outcome::Failure
    );
}

#[test]
fn resolve_gives_the_same_verdict_twice() {
    let first = resolve(1000, votes(300, 200), 5, 3, 7);
    let second = resolve(1000, votes(300, 200), 5, 3, 7);
    assert_eq!(first, second);
    assert_eq!(first, Outcome::Undetermined);
}

#[test]
fn the_fee_is_rounded_down() {
    assert_eq!(platform_fee(1000, 7), 70);
    assert_eq!(platform_fee(999, 7), 69);
    assert_eq!(platform_fee(99, 1), 0);
    assert_eq!(platform_fee(100, 1), 1);
    assert_eq!(platform_fee(12345, 0), 0);
    assert_eq!(platform_fee(12345, 100), 12345);
    assert_eq!(platform_fee(0, 50), 0);
}

#[test]
fn the_fee_of_the_largest_budget() {
    let most = u128::MAX;
    assert_eq!(platform_fee(most, 100), most);
    assert_eq!(platform_fee(most, 50), most / 2);
    // u128::MAX = 100 * q + 55
    assert_eq!(most % 100, 55);
    assert_eq!(platform_fee(most, 33), (most / 100) * 33 + 55 * 33 / 100);
}

#[test]
fn the_configuration_is_lowered_to_its_maxima() {
    let mut ledger = Crowdfund::new(u64::MAX, 200, owner());
    ledger
        .create_project(name(), String::from("A kite."), 5, 10, author(), 0)
        .ok();
    ledger.make_donation(name(), account(2), 1, 10).ok();
    // the window is ninety days long, not longer
    assert_eq!(
        ledger.make_vote(name(), true, account(3), 5 + MAX_VOTING_TIME + 1),
        Err(Error::VotingDeadlinePassed)
    );
    assert_eq!(
        ledger.make_vote(name(), true, account(2), 5 + MAX_VOTING_TIME),
        Ok(())
    );
    // the fee is the whole budget, not twice
    assert_eq!(
        ledger.claim_budget(name(), author(), 5 + MAX_VOTING_TIME),
        Ok(Payout {
            fee: Transfer { to: owner(), amount: 10 },
            author: Transfer { to: author(), amount: 0 },
        })
    );
}

#[test]
fn a_configuration_within_its_maxima_is_kept() {
    let mut ledger = Crowdfund::new(3, 10, owner());
    ledger
        .create_project(name(), String::from("A kite."), 5, 10, author(), 0)
        .ok();
    ledger.make_donation(name(), account(2), 1, 1000).ok();
    assert_eq!(
        ledger.make_vote(name(), true, account(2), 9),
        Err(Error::VotingDeadlinePassed)
    );
    assert_eq!(ledger.make_vote(name(), true, account(2), 8), Ok(()));
    assert_eq!(
        ledger.claim_budget(name(), author(), 8),
        Ok(Payout {
            fee: Transfer { to: owner(), amount: 100 },
            author: Transfer { to: author(), amount: 900 },
        })
    );
}

#[test]
fn a_name_is_taken_once() {
    let mut ledger = ledger_with_project(0);
    assert_eq!(
        ledger.create_project(name(), String::from("Another."), 50, 1, account(2), 0),
        Err(Error::ProjectAlreadyExists)
    );
    // the first project stands as it was
    assert_eq!(ledger.get_project_info(name()).unwrap().author, author());
    assert_eq!(ledger.get_all_projects(), Ok(vec![name()]));
}

#[test]
fn a_deadline_must_lie_ahead() {
    let mut ledger = Crowdfund::new(3, 0, owner());
    assert_eq!(
        ledger.create_project(name(), String::from("A kite."), 5, 10, author(), 5),
        Err(Error::DeadlineTooEarly)
    );
    assert_eq!(
        ledger.create_project(name(), String::from("A kite."), 5, 10, author(), 6),
        Err(Error::DeadlineTooEarly)
    );
    assert_eq!(ledger.get_all_projects(), Ok(Vec::new()));
    assert_eq!(
        ledger.create_project(name(), String::from("A kite."), 5, 10, author(), 4),
        Ok(())
    );
}

#[test]
fn lengths_are_counted_in_bytes() {
    let mut ledger = Crowdfund::new(3, 0, owner());
    assert_eq!(
        ledger.create_project("n".repeat(51), String::new(), 5, 10, author(), 0),
        Err(Error::NameTooLong)
    );
    assert_eq!(
        ledger.create_project("n".repeat(50), String::new(), 5, 10, author(), 0),
        Ok(())
    );
    // twenty-six letters of two bytes each
    assert_eq!(
        ledger.create_project("\u{e9}".repeat(26), String::new(), 5, 10, author(), 0),
        Err(Error::NameTooLong)
    );
    assert_eq!(
        ledger.create_project("\u{e9}".repeat(25), String::new(), 5, 10, author(), 0),
        Ok(())
    );
    assert_eq!(
        ledger.create_project(name(), "d".repeat(501), 5, 10, author(), 0),
        Err(Error::DescriptionTooLong)
    );
    assert_eq!(
        ledger.create_project(name(), "d".repeat(500), 5, 10, author(), 0),
        Ok(())
    );
}

#[test]
fn creation_tests_in_order() {
    let mut ledger = ledger_with_project(0);
    // taken, too early and too long at once: taken comes first
    assert_eq!(
        ledger.create_project(name(), "d".repeat(501), 5, 10, author(), 9),
        Err(Error::ProjectAlreadyExists)
    );
    // too early and too long: too early comes first
    assert_eq!(
        ledger.create_project("n".repeat(51), "d".repeat(501), 5, 10, author(), 9),
        Err(Error::DeadlineTooEarly)
    );
    // name and description too long: the name comes first
    assert_eq!(
        ledger.create_project("n".repeat(51), "d".repeat(501), 5, 10, author(), 0),
        Err(Error::NameTooLong)
    );
}

#[test]
fn unknown_projects_are_reported() {
    let mut ledger = Crowdfund::new(3, 0, owner());
    let missing = || String::from("Nothing");
    assert_eq!(ledger.get_project_info(missing()), Err(Error::ProjectDoesntExist));
    assert_eq!(ledger.get_collected_budget(missing()), Err(Error::ProjectDoesntExist));
    assert_eq!(ledger.get_voting_state(missing()), Err(Error::ProjectDoesntExist));
    assert_eq!(ledger.get_author_claimed(missing()), Err(Error::ProjectDoesntExist));
    assert_eq!(
        ledger.get_donated_amount(missing(), account(2)),
        Err(Error::ProjectDoesntExist)
    );
    assert_eq!(ledger.get_vote(missing(), account(2)), Err(Error::ProjectDoesntExist));
    assert_eq!(
        ledger.get_donor_refunded(missing(), account(2)),
        Err(Error::ProjectDoesntExist)
    );
    assert_eq!(
        ledger.get_project_voting_result(missing(), 0),
        Err(Error::ProjectDoesntExist)
    );
    assert_eq!(
        ledger.make_donation(missing(), account(2), 0, 1),
        Err(Error::ProjectDoesntExist)
    );
    assert_eq!(
        ledger.make_vote(missing(), true, account(2), 0),
        Err(Error::ProjectDoesntExist)
    );
    assert_eq!(
        ledger.refund_donation(missing(), account(2), 0),
        Err(Error::ProjectDoesntExist)
    );
    assert_eq!(
        ledger.claim_budget(missing(), account(2), 0),
        Err(Error::ProjectDoesntExist)
    );
}

#[test]
fn a_new_project_is_empty() {
    let ledger = ledger_with_project(0);
    assert_eq!(ledger.get_collected_budget(name()), Ok(0));
    assert_eq!(ledger.get_voting_state(name()), Ok(votes(0, 0)));
    assert_eq!(ledger.get_author_claimed(name()), Ok(false));
    assert_eq!(ledger.get_donated_amount(name(), account(2)), Ok(0));
    assert_eq!(ledger.get_donor_refunded(name(), account(2)), Ok(false));
    assert_eq!(ledger.get_vote(name(), account(2)), Err(Error::NoSuchVote));
}

#[test]
fn donations_add_up() {
    let mut ledger = ledger_with_project(0);
    assert_eq!(ledger.make_donation(name(), account(2), 1, 300), Ok(()));
    assert_eq!(ledger.make_donation(name(), account(3), 2, 50), Ok(()));
    assert_eq!(ledger.make_donation(name(), account(2), 4, 25), Ok(()));
    assert_eq!(ledger.get_donated_amount(name(), account(2)), Ok(325));
    assert_eq!(ledger.get_donated_amount(name(), account(3)), Ok(50));
    assert_eq!(ledger.get_collected_budget(name()), Ok(375));
}

#[test]
fn a_donation_of_nothing_is_taken() {
    let mut ledger = ledger_with_project(0);
    assert_eq!(ledger.make_donation(name(), account(2), 1, 0), Ok(()));
    assert_eq!(ledger.get_donated_amount(name(), account(2)), Ok(0));
    assert_eq!(ledger.get_collected_budget(name()), Ok(0));
}

#[test]
fn donations_end_at_the_deadline() {
    let mut ledger = ledger_with_project(0);
    assert_eq!(ledger.make_donation(name(), account(2), 4, 10), Ok(()));
    assert_eq!(
        ledger.make_donation(name(), account(2), 5, 10),
        Err(Error::DeadlinePassed)
    );
    assert_eq!(
        ledger.make_donation(name(), account(2), 6, 10),
        Err(Error::DeadlinePassed)
    );
    assert_eq!(ledger.get_collected_budget(name()), Ok(10));
}

#[test]
fn the_author_cannot_donate() {
    let mut ledger = ledger_with_project(0);
    assert_eq!(
        ledger.make_donation(name(), author(), 1, 10),
        Err(Error::CantDonateOwnProject)
    );
    // late and from the author: late comes first
    assert_eq!(
        ledger.make_donation(name(), author(), 5, 10),
        Err(Error::DeadlinePassed)
    );
    assert_eq!(ledger.get_collected_budget(name()), Ok(0));
}

#[test]
fn votes_are_taken_in_the_window() {
    let mut ledger = ledger_with_project(0);
    ledger.make_donation(name(), account(2), 1, 1000).ok();
    assert_eq!(
        ledger.make_vote(name(), true, account(2), 4),
        Err(Error::DeadlineNotPassedYet)
    );
    assert_eq!(
        ledger.make_vote(name(), true, account(2), 9),
        Err(Error::VotingDeadlinePassed)
    );
    assert_eq!(ledger.get_vote(name(), account(2)), Err(Error::NoSuchVote));
    assert_eq!(ledger.make_vote(name(), false, account(2), 5), Ok(()));
    assert_eq!(ledger.get_vote(name(), account(2)), Ok(false));
    assert_eq!(ledger.get_voting_state(name()), Ok(votes(0, 1000)));
}

#[test]
fn votes_need_the_goal() {
    let mut ledger = ledger_with_project(0);
    ledger.make_donation(name(), account(2), 1, 999).ok();
    assert_eq!(
        ledger.make_vote(name(), true, account(2), 6),
        Err(Error::GoalNotReached)
    );
    assert_eq!(ledger.get_voting_state(name()), Ok(votes(0, 0)));
}

#[test]
fn a_donor_votes_once() {
    let mut ledger = ledger_with_project(0);
    ledger.make_donation(name(), account(2), 1, 400).ok();
    ledger.make_donation(name(), account(3), 1, 600).ok();
    assert_eq!(ledger.make_vote(name(), true, account(2), 6), Ok(()));
    assert_eq!(
        ledger.make_vote(name(), false, account(2), 6),
        Err(Error::AlreadyVoted)
    );
    assert_eq!(
        ledger.make_vote(name(), true, account(2), 7),
        Err(Error::AlreadyVoted)
    );
    assert_eq!(ledger.get_vote(name(), account(2)), Ok(true));
    assert_eq!(ledger.get_voting_state(name()), Ok(votes(400, 0)));
}

#[test]
fn a_vote_needs_a_donation() {
    let mut ledger = ledger_with_project(0);
    ledger.make_donation(name(), account(2), 1, 1000).ok();
    ledger.make_donation(name(), account(3), 1, 0).ok();
    // one who never donated, and one who donated nothing
    assert_eq!(
        ledger.make_vote(name(), true, account(4), 6),
        Err(Error::NoFundsDontatedNoVote)
    );
    assert_eq!(
        ledger.make_vote(name(), true, account(3), 6),
        Err(Error::NoFundsDontatedNoVote)
    );
    assert_eq!(ledger.get_voting_state(name()), Ok(votes(0, 0)));
}

#[test]
fn the_voting_result_follows_the_votes() {
    let mut ledger = ledger_with_project(0);
    ledger.make_donation(name(), account(2), 1, 499).ok();
    ledger.make_donation(name(), account(3), 1, 500).ok();
    ledger.make_donation(name(), account(4), 1, 1).ok();
    assert_eq!(
        ledger.get_project_voting_result(name(), 6),
        Err(Error::CampaignResultUnknown)
    );
    ledger.make_vote(name(), true, account(3), 6).ok();
    assert_eq!(
        ledger.get_project_voting_result(name(), 8),
        Err(Error::CampaignResultUnknown)
    );
    assert_eq!(ledger.get_project_voting_result(name(), 9), Ok(false));
    ledger.make_vote(name(), true, account(4), 7).ok();
    assert_eq!(ledger.get_project_voting_result(name(), 7), Ok(true));
    assert_eq!(ledger.get_project_voting_result(name(), 9), Ok(true));
}

#[test]
fn payouts_wait_for_the_deadline() {
    let mut ledger = ledger_with_project(0);
    ledger.make_donation(name(), account(2), 1, 10).ok();
    assert_eq!(
        ledger.refund_donation(name(), account(2), 4),
        Err(Error::DeadlineNotPassedYet)
    );
    assert_eq!(
        ledger.claim_budget(name(), author(), 4),
        Err(Error::DeadlineNotPassedYet)
    );
    // early and not the author: early comes first
    assert_eq!(
        ledger.claim_budget(name(), account(2), 4),
        Err(Error::DeadlineNotPassedYet)
    );
    assert_eq!(ledger.get_donor_refunded(name(), account(2)), Ok(false));
    assert_eq!(ledger.get_author_claimed(name()), Ok(false));
}

#[test]
fn nothing_donated_nothing_refunded() {
    let mut ledger = ledger_with_project(0);
    ledger.make_donation(name(), account(2), 1, 10).ok();
    ledger.make_donation(name(), account(3), 1, 0).ok();
    assert_eq!(
        ledger.refund_donation(name(), account(4), 6),
        Err(Error::NoFundsToRefund)
    );
    assert_eq!(
        ledger.refund_donation(name(), account(3), 6),
        Err(Error::NoFundsToRefund)
    );
    assert_eq!(ledger.get_donor_refunded(name(), account(3)), Ok(false));
    assert_eq!(ledger.get_donor_refunded(name(), account(4)), Ok(false));
}

#[test]
fn only_the_author_claims() {
    let mut ledger = ledger_with_project(0);
    ledger.make_donation(name(), account(2), 1, 1000).ok();
    ledger.make_vote(name(), true, account(2), 6).ok();
    assert_eq!(
        ledger.claim_budget(name(), account(2), 6),
        Err(Error::YouAreNotTheFather)
    );
    assert_eq!(
        ledger.claim_budget(name(), owner(), 6),
        Err(Error::YouAreNotTheFather)
    );
    assert_eq!(ledger.get_author_claimed(name()), Ok(false));
}

#[test]
fn a_claim_pays_the_fee_first() {
    let mut ledger = ledger_with_project(7);
    ledger.make_donation(name(), account(2), 1, 999).ok();
    ledger.make_donation(name(), account(3), 1, 1000).ok();
    ledger.make_vote(name(), true, account(3), 6).ok();
    let payout = ledger.claim_budget(name(), author(), 6).unwrap();
    // 1999 * 7 / 100 = 139.93
    assert_eq!(payout.fee, Transfer { to: owner(), amount: 139 });
    assert_eq!(payout.author, Transfer { to: author(), amount: 1860 });
    assert_eq!(payout.after_fee(true), Ok(payout.author));
    assert_eq!(payout.after_fee(false), Err(Error::TransferFailed));
    assert_eq!(settle(true), Ok(()));
    assert_eq!(settle(false), Err(Error::TransferFailed));
    // claimed it is, whatever becomes of the transfers
    assert_eq!(ledger.get_author_claimed(name()), Ok(true));
    assert_eq!(
        ledger.claim_budget(name(), author(), 7),
        Err(Error::NoFundsToClaim)
    );
}

#[test]
fn a_budget_is_claimed_once() {
    let mut ledger = ledger_with_project(10);
    ledger.make_donation(name(), account(2), 1, 1000).ok();
    ledger.make_vote(name(), true, account(2), 6).ok();
    let mut released: u128 = 0;
    let payout = ledger.claim_budget(name(), author(), 6).unwrap();
    released += payout.fee.amount + payout.author.amount;
    for now in 6..20 {
        assert_eq!(
            ledger.claim_budget(name(), author(), now),
            Err(Error::NoFundsToClaim)
        );
        assert_eq!(
            ledger.refund_donation(name(), account(2), now),
            Err(Error::CampaignSuccessfulNoRefunds)
        );
    }
    assert_eq!(released, 1000);
    assert_eq!(ledger.get_collected_budget(name()), Ok(1000));
}

#[test]
fn refunds_leave_the_budget() {
    let mut ledger = ledger_with_project(10);
    ledger.make_donation(name(), account(2), 1, 600).ok();
    ledger.make_donation(name(), account(3), 2, 400).ok();
    ledger.make_donation(name(), account(4), 3, 200).ok();
    ledger.make_vote(name(), false, account(2), 6).ok();
    assert_eq!(ledger.get_collected_budget(name()), Ok(1200));

    let mut released: u128 = 0;
    for donor in [account(2), account(3), account(4)] {
        let transfer = ledger.refund_donation(name(), donor, 7).unwrap();
        assert_eq!(transfer.to, donor);
        released += transfer.amount;
        assert_eq!(ledger.get_collected_budget(name()), Ok(1200));
        assert!(released <= 1200);
    }
    assert_eq!(released, 1200);
    for donor in [account(2), account(3), account(4)] {
        assert_eq!(
            ledger.refund_donation(name(), donor, 8),
            Err(Error::NoFundsToRefund)
        );
    }
    // the tallies are held against the budget as it was: still a failure
    assert_eq!(ledger.get_project_voting_result(name(), 8), Ok(false));
    assert_eq!(
        ledger.claim_budget(name(), author(), 8),
        Err(Error::CampaignUnsuccessfulNoClaims)
    );
    assert_eq!(ledger.get_voting_state(name()), Ok(votes(0, 600)));
}

#[test]
fn a_refund_does_not_wait_for_the_window() {
    // half of the budget against: the campaign has failed while votes are
    // still taken
    let mut ledger = ledger_with_project(0);
    ledger.make_donation(name(), account(2), 1, 500).ok();
    ledger.make_donation(name(), account(3), 1, 500).ok();
    ledger.make_vote(name(), false, account(2), 5).ok();
    assert_eq!(
        ledger.refund_donation(name(), account(3), 5),
        Ok(Transfer { to: account(3), amount: 500 })
    );
    // the other half may still vote, and changes nothing
    assert_eq!(ledger.make_vote(name(), true, account(3), 6), Ok(()));
    assert_eq!(
        ledger.claim_budget(name(), author(), 6),
        Err(Error::CampaignUnsuccessfulNoClaims)
    );
}

#[test]
fn a_failed_call_changes_nothing() {
    let mut ledger = ledger_with_project(0);
    ledger.make_donation(name(), account(2), 1, 700).ok();
    ledger.make_donation(name(), account(3), 1, 300).ok();
    ledger.make_vote(name(), true, account(2), 6).ok();

    assert!(ledger.make_donation(name(), account(4), 6, 5).is_err());
    assert!(ledger.make_vote(name(), false, account(2), 6).is_err());
    assert!(ledger.make_vote(name(), false, account(4), 6).is_err());
    assert!(ledger.refund_donation(name(), account(3), 6).is_err());
    assert!(ledger.claim_budget(name(), account(3), 6).is_err());
    assert!(ledger
        .create_project(name(), String::new(), 50, 1, account(4), 6)
        .is_err());

    assert_eq!(ledger.get_all_projects(), Ok(vec![name()]));
    assert_eq!(ledger.get_collected_budget(name()), Ok(1000));
    assert_eq!(ledger.get_voting_state(name()), Ok(votes(700, 0)));
    assert_eq!(ledger.get_author_claimed(name()), Ok(false));
    assert_eq!(ledger.get_donated_amount(name(), account(4)), Ok(0));
    assert_eq!(ledger.get_vote(name(), account(2)), Ok(true));
    assert_eq!(ledger.get_vote(name(), account(4)), Err(Error::NoSuchVote));
    assert_eq!(ledger.get_donor_refunded(name(), account(3)), Ok(false));
}

#[test]
fn projects_do_not_share_a_pool() {
    let mut ledger = ledger_with_project(0);
    let other = || String::from("Sled");
    ledger
        .create_project(other(), String::from("A sled."), 5, 100, account(2), 0)
        .ok();
    ledger.make_donation(name(), account(3), 1, 1000).ok();
    ledger.make_donation(other(), account(3), 1, 40).ok();
    // the author of one project donates to the other
    assert_eq!(ledger.make_donation(other(), author(), 1, 60), Ok(()));
    ledger.make_vote(name(), true, account(3), 6).ok();
    ledger.make_vote(other(), false, author(), 6).ok();

    assert_eq!(ledger.get_collected_budget(name()), Ok(1000));
    assert_eq!(ledger.get_collected_budget(other()), Ok(100));
    assert_eq!(ledger.get_voting_state(name()), Ok(votes(1000, 0)));
    assert_eq!(ledger.get_voting_state(other()), Ok(votes(0, 60)));
    assert_eq!(ledger.get_vote(other(), account(3)), Err(Error::NoSuchVote));
    assert_eq!(ledger.get_project_voting_result(name(), 6), Ok(true));
    assert_eq!(ledger.get_project_voting_result(other(), 6), Ok(false));
    assert_eq!(
        ledger.refund_donation(other(), account(3), 6),
        Ok(Transfer { to: account(3), amount: 40 })
    );
    assert_eq!(
        ledger.refund_donation(name(), account(3), 6),
        Err(Error::CampaignSuccessfulNoRefunds)
    );
    assert_eq!(ledger.get_donor_refunded(name(), account(3)), Ok(false));
    assert_eq!(ledger.get_donor_refunded(other(), account(3)), Ok(true));
}

#[test]
fn a_project_info_copy_is_equal() {
    let ledger = ledger_with_project(0);
    let info = ledger.get_project_info(name()).unwrap();
    assert_eq!(info.duplicate(), info);
    assert_eq!(info.description, String::from("A kite."));
    assert_eq!(info.create_time, 0);
    assert_eq!(info.deadline, 5);
    assert_eq!(info.goal, 1000);
}

#[test]
fn a_budget_beyond_a_u128_is_not_taken() {
    let mut ledger = ledger_with_project(0);
    assert_eq!(
        ledger.try_make_donation(name(), account(2), 1, u128::MAX - 5),
        Some(Ok(()))
    );
    // six more do not fit: nothing is recorded
    assert_eq!(ledger.try_make_donation(name(), account(3), 1, 6), None);
    assert_eq!(ledger.get_collected_budget(name()), Ok(u128::MAX - 5));
    assert_eq!(ledger.get_donated_amount(name(), account(3)), Ok(0));
    // five more do
    assert_eq!(
        ledger.try_make_donation(name(), account(3), 2, 5),
        Some(Ok(()))
    );
    assert_eq!(ledger.get_collected_budget(name()), Ok(u128::MAX));
    assert_eq!(ledger.get_donated_amount(name(), account(3)), Ok(5));
    assert_eq!(ledger.try_make_donation(name(), account(3), 2, 0), Some(Ok(())));
}

#[test]
fn a_donation_that_is_turned_down_need_not_fit() {
    let mut ledger = ledger_with_project(0);
    ledger.make_donation(name(), account(2), 1, u128::MAX).ok();
    assert_eq!(
        ledger.try_make_donation(name(), account(2), 5, 1),
        Some(Err(Error::DeadlinePassed))
    );
    assert_eq!(
        ledger.try_make_donation(name(), author(), 1, 1),
        Some(Err(Error::CantDonateOwnProject))
    );
    assert_eq!(
        ledger.try_make_donation(String::from("Nothing"), account(2), 1, u128::MAX),
        Some(Err(Error::ProjectDoesntExist))
    );
    assert_eq!(ledger.get_collected_budget(name()), Ok(u128::MAX));
}

#[test]
fn the_whole_of_a_u128_can_be_claimed() {
    let mut ledger = ledger_with_project(33);
    ledger.make_donation(name(), account(2), 1, u128::MAX).ok();
    assert_eq!(ledger.make_vote(name(), true, account(2), 6), Ok(()));
    assert_eq!(ledger.get_voting_state(name()), Ok(votes(u128::MAX, 0)));
    let payout = ledger.claim_budget(name(), author(), 6).unwrap();
    assert_eq!(payout.fee.amount, platform_fee(u128::MAX, 33));
    assert_eq!(payout.author.amount, u128::MAX - platform_fee(u128::MAX, 33));
}
