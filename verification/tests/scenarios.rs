use crowdfund::{AccountId, Crowdfund, Error, Payout, ProjectInfo, ProjectVotes, Transfer};

fn alice() -> AccountId {
    AccountId::new([1u8; 32])
}

fn bob() -> AccountId {
    AccountId::new([2u8; 32])
}

fn charlie() -> AccountId {
    AccountId::new([3u8; 32])
}

fn django() -> AccountId {
    AccountId::new([4u8; 32])
}

fn doll() -> String {
    String::from("Doll")
}

#[test]
fn test_create_project() {
    let mut contract = Crowdfund::new(3, 0, alice());

    contract
        .create_project(doll(), String::from("I want a doll."), 5, 10, alice(), 0)
        .ok();
    assert_eq!(contract.get_all_projects(), Ok(vec![String::from("Doll")]));

    contract
        .create_project(
            String::from("Toy car"),
            String::from("I want a toy car."),
            6,
            12,
            bob(),
            0,
        )
        .ok();
    assert_eq!(
        contract.get_all_projects(),
        Ok(vec![String::from("Doll"), String::from("Toy car")])
    );

    assert_eq!(
        contract.get_project_info(String::from("Doll")),
        Ok(ProjectInfo {
            description: String::from("I want a doll."),
            author: alice(),
            create_time: 0,
            deadline: 5,
            goal: 10,
        })
    );

    assert_eq!(
        contract.get_project_info(String::from("Toy car")),
        Ok(ProjectInfo {
            description: String::from("I want a toy car."),
            author: bob(),
            create_time: 0,
            deadline: 6,
            goal: 12,
        })
    );
}

#[test]
fn test_donation_balances() {
    let mut contract = Crowdfund::new(3, 0, alice());
    contract
        .create_project(doll(), String::from("I want a doll."), 1000, 500, alice(), 0)
        .ok();
    contract
        .create_project(
            String::from("Toy car"),
            String::from("I want a toy car."),
            1200,
            600,
            bob(),
            0,
        )
        .ok();

    contract.make_donation(doll(), charlie(), 0, 350).ok();
    contract
        .make_donation(String::from("Toy car"), django(), 0, 450)
        .ok();

    assert_eq!(contract.get_donated_amount(doll(), charlie()), Ok(350));
    assert_eq!(
        contract.get_donated_amount(String::from("Toy car"), django()),
        Ok(450)
    );
    assert_eq!(
        contract.get_donated_amount(String::from("Toy car"), charlie()),
        Ok(0)
    );
    assert_eq!(contract.get_donated_amount(doll(), django()), Ok(0));

    assert_eq!(contract.get_collected_budget(doll()), Ok(350));
    assert_eq!(
        contract.get_collected_budget(String::from("Toy car")),
        Ok(450)
    );
}

#[test]
fn test_goal_not_reached() {
    let mut contract = Crowdfund::new(3, 0, alice());
    contract
        .create_project(doll(), String::from("I want a doll."), 5, 1000, alice(), 0)
        .ok();

    contract.make_donation(doll(), bob(), 0, 350).ok();

    // the deadline has passed
    let now = 6;

    assert_eq!(
        contract.claim_budget(doll(), alice(), now),
        Err(Error::GoalNotReached)
    );

    assert_eq!(
        contract.refund_donation(doll(), bob(), now),
        Ok(Transfer { to: bob(), amount: 350 })
    );
    assert_eq!(contract.get_donor_refunded(doll(), bob()), Ok(true));
    assert_eq!(
        contract.refund_donation(doll(), bob(), now),
        Err(Error::NoFundsToRefund)
    );
}

/// The campaign of the three voting tests up to the point where one vote is
/// missing: 499 voted no, 500 voted yes, and nothing can be claimed or
/// refunded yet.
fn undecided_campaign() -> Crowdfund {
    let mut contract = Crowdfund::new(3, 0, alice());
    contract
        .create_project(doll(), String::from("I want a doll."), 5, 1000, alice(), 0)
        .ok();

    contract.make_donation(doll(), bob(), 0, 499).ok();
    contract.make_donation(doll(), charlie(), 0, 500).ok();
    contract.make_donation(doll(), django(), 0, 1).ok();

    assert_eq!(contract.get_collected_budget(doll()), Ok(1000));

    // the deadline has passed, the voting window is open
    let now = 6;

    contract.make_vote(doll(), false, bob(), now).ok();
    contract.make_vote(doll(), true, charlie(), now).ok();

    assert_eq!(
        contract.claim_budget(doll(), alice(), now),
        Err(Error::CampaignResultUnknown)
    );
    assert_eq!(
        contract.refund_donation(doll(), bob(), now),
        Err(Error::CampaignResultUnknown)
    );
    assert_eq!(
        contract.refund_donation(doll(), charlie(), now),
        Err(Error::CampaignResultUnknown)
    );
    assert_eq!(
        contract.refund_donation(doll(), django(), now),
        Err(Error::CampaignResultUnknown)
    );
    contract
}

fn expect_negative_outcome(contract: &mut Crowdfund, now: u64) {
    assert_eq!(
        contract.claim_budget(doll(), alice(), now),
        Err(Error::CampaignUnsuccessfulNoClaims)
    );

    assert_eq!(contract.get_donor_refunded(doll(), bob()), Ok(false));
    assert_eq!(
        contract.refund_donation(doll(), bob(), now),
        Ok(Transfer { to: bob(), amount: 499 })
    );
    assert_eq!(
        contract.refund_donation(doll(), charlie(), now),
        Ok(Transfer { to: charlie(), amount: 500 })
    );
    assert_eq!(
        contract.refund_donation(doll(), django(), now),
        Ok(Transfer { to: django(), amount: 1 })
    );

    assert_eq!(contract.get_donor_refunded(doll(), bob()), Ok(true));
    assert_eq!(
        contract.refund_donation(doll(), bob(), now),
        Err(Error::NoFundsToRefund)
    );
}

#[test]
fn test_campaign_successful() {
    let mut contract = undecided_campaign();
    let now = 6;

    contract.make_vote(doll(), true, django(), now).ok();
    assert_eq!(
        contract.get_voting_state(doll()),
        Ok(ProjectVotes { ovr_voted_yes: 501, ovr_voted_no: 499 })
    );

    assert_eq!(
        contract.claim_budget(doll(), charlie(), now),
        Err(Error::YouAreNotTheFather)
    );

    assert_eq!(contract.get_author_claimed(doll()), Ok(false));
    assert_eq!(
        contract.claim_budget(doll(), alice(), now),
        Ok(Payout {
            fee: Transfer { to: alice(), amount: 0 },
            author: Transfer { to: alice(), amount: 1000 },
        })
    );

    assert_eq!(
        contract.refund_donation(doll(), bob(), now),
        Err(Error::CampaignSuccessfulNoRefunds)
    );
    assert_eq!(
        contract.refund_donation(doll(), charlie(), now),
        Err(Error::CampaignSuccessfulNoRefunds)
    );
    assert_eq!(
        contract.refund_donation(doll(), django(), now),
        Err(Error::CampaignSuccessfulNoRefunds)
    );

    assert_eq!(contract.get_author_claimed(doll()), Ok(true));
    assert_eq!(
        contract.claim_budget(doll(), alice(), now),
        Err(Error::NoFundsToClaim)
    );
}

#[test]
fn test_campaign_unsuccessful_by_deadline() {
    let mut contract = undecided_campaign();

    // the voting window has closed
    let now = 12;
    assert_eq!(
        contract.make_vote(doll(), false, django(), now),
        Err(Error::VotingDeadlinePassed)
    );

    assert_eq!(
        contract.claim_budget(doll(), charlie(), now),
        Err(Error::YouAreNotTheFather)
    );
    expect_negative_outcome(&mut contract, now);
}

#[test]
fn test_campaign_unsuccessful_by_votes() {
    let mut contract = undecided_campaign();
    let now = 6;

    contract.make_vote(doll(), false, django(), now).ok();
    assert_eq!(
        contract.get_voting_state(doll()),
        Ok(ProjectVotes { ovr_voted_yes: 500, ovr_voted_no: 500 })
    );

    assert_eq!(
        contract.claim_budget(doll(), charlie(), now),
        Err(Error::YouAreNotTheFather)
    );
    expect_negative_outcome(&mut contract, now);
}
