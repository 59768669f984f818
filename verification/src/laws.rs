//! What holds of every history of the ledger.
//!
//! A history is a sequence of calls. Each call is a value here, with the
//! reply it gets and the state it leaves, as the ledger's own methods give
//! them. The laws speak of calls that reach the ledger in the order of their
//! timestamps.

use crate::account::AccountId;
use crate::campaign::ProjectState;
use crate::donors::lemma_donor_absent;
use crate::error::Error;
use crate::state::{lemma_project_listed, LedgerState};
use vstd::prelude::*;

verus! {

/// One call to the ledger, with the caller and the time it was made at.
pub enum Call {
    Create {
        name: Seq<char>,
        description: Seq<char>,
        deadline: u64,
        goal: u128,
        caller: AccountId,
        now: u64,
    },
    Donate { name: Seq<char>, caller: AccountId, now: u64, value: nat },
    Vote { name: Seq<char>, vote: bool, caller: AccountId, now: u64 },
    Refund { name: Seq<char>, caller: AccountId, now: u64 },
    Claim { name: Seq<char>, caller: AccountId, now: u64 },
}

impl Call {
    /// When the call was made.
    pub open spec fn now(self) -> u64 {
        match self {
            Call::Create { now, .. } => now,
            Call::Donate { now, .. } => now,
            Call::Vote { now, .. } => now,
            Call::Refund { now, .. } => now,
            Call::Claim { now, .. } => now,
        }
    }

    /// The project that the call is about.
    pub open spec fn project(self) -> Seq<char> {
        match self {
            Call::Create { name, .. } => name,
            Call::Donate { name, .. } => name,
            Call::Vote { name, .. } => name,
            Call::Refund { name, .. } => name,
            Call::Claim { name, .. } => name,
        }
    }

    /// Whether the ledger accepts the call, and why not.
    pub open spec fn reply(self, ledger: LedgerState) -> Result<(), Error> {
        match self {
            Call::Create { name, description, deadline, now, .. } => ledger.create_reply(
                name,
                description,
                deadline,
                now,
            ),
            Call::Donate { name, caller, now, .. } => ledger.donate_reply(name, caller, now),
            Call::Vote { name, caller, now, .. } => ledger.vote_reply(name, caller, now),
            Call::Refund { name, caller, now } => ledger.refund_reply(name, caller, now),
            Call::Claim { name, caller, now } => ledger.claim_reply(name, caller, now),
        }
    }

    /// The ledger after the call: changed if the call was accepted, and as
    /// it was if not.
    pub open spec fn apply(self, ledger: LedgerState) -> LedgerState {
        if self.reply(ledger) is Err {
            ledger
        } else {
            match self {
                Call::Create { name, description, deadline, goal, caller, now } => ledger.after_create(
                    name,
                    description,
                    deadline,
                    goal,
                    caller,
                    now,
                ),
                Call::Donate { name, caller, value, .. } => ledger.after_donate(name, caller, value),
                Call::Vote { name, vote, caller, .. } => ledger.after_vote(name, caller, vote),
                Call::Refund { name, caller, .. } => ledger.after_refund(name, caller),
                Call::Claim { name, .. } => ledger.after_claim(name),
            }
        }
    }

    /// What the call releases from the pool of the project `name`: the
    /// donation on a refund that is granted, the budget on a claim that is
    /// granted, and nothing otherwise.
    pub open spec fn paid(self, ledger: LedgerState, name: Seq<char>) -> nat {
        if self.reply(ledger) is Err || self.project() != name {
            0
        } else {
            match self {
                Call::Refund { caller, .. } => ledger.project(name).donor(caller).donated,
                Call::Claim { .. } => ledger.project(name).budget,
                _ => 0,
            }
        }
    }
}

/// The ledger after a history.
pub open spec fn run(ledger: LedgerState, calls: Seq<Call>) -> LedgerState
    decreases calls.len(),
{
    if calls.len() == 0 {
        ledger
    } else {
        calls.last().apply(run(ledger, calls.drop_last()))
    }
}

/// Everything that a history releases from the pool of the project `name`.
pub open spec fn paid_total(ledger: LedgerState, calls: Seq<Call>, name: Seq<char>) -> nat
    decreases calls.len(),
{
    if calls.len() == 0 {
        0
    } else {
        paid_total(ledger, calls.drop_last(), name) + calls.last().paid(
            run(ledger, calls.drop_last()),
            name,
        )
    }
}

/// The calls come in the order of their timestamps, none before `clock`.
pub open spec fn in_time_order(clock: u64, calls: Seq<Call>) -> bool {
    &&& forall|i: int| 0 <= i < calls.len() ==> clock <= (#[trigger] calls[i]).now()
    &&& forall|i: int, j: int|
        0 <= i <= j < calls.len() ==> (#[trigger] calls[i]).now() <= (#[trigger] calls[j]).now()
}

/// The time of the last call of a history that began at `clock`.
pub open spec fn time_after(clock: u64, calls: Seq<Call>) -> u64 {
    if calls.len() == 0 {
        clock
    } else {
        calls.last().now()
    }
}

impl LedgerState {
    /// The budget of the project `name`; nothing where there is none.
    pub open spec fn budget(self, name: Seq<char>) -> nat {
        if self.has(name) {
            self.project(name).budget
        } else {
            0
        }
    }

    /// What has been committed to leave the pool of the project `name`.
    pub open spec fn paid_out(self, name: Seq<char>) -> nat {
        if self.has(name) {
            self.project(name).paid_out()
        } else {
            0
        }
    }

    /// The books balance, and every project's history is one that calls in
    /// the order of their timestamps, none after `clock`, can have made.
    pub open spec fn consistent_at(self, clock: u64) -> bool {
        &&& self.wf()
        &&& forall|i: int|
            0 <= i < self.projects.len() ==> (#[trigger] self.projects[i]).consistent_at(
                self.voting_length,
                clock,
            )
    }

    /// Whether `later` can be this ledger at a later time: it has the same
    /// configuration, its list of names begins with the list of this one,
    /// and it has every project of this one, each carried on.
    pub open spec fn carries_on(self, later: LedgerState) -> bool {
        &&& later.voting_length == self.voting_length
        &&& later.fee_percent == self.fee_percent
        &&& later.owner_account == self.owner_account
        &&& self.names().is_prefix_of(later.names())
        &&& forall|name: Seq<char>| #[trigger]
            self.has(name) ==> later.has(name) && self.project(name).carries_on(later.project(name))
    }

    /// A project of a consistent ledger is consistent.
    pub proof fn lemma_project_consistent(self, clock: u64, name: Seq<char>)
        requires
            self.consistent_at(clock),
            self.has(name),
        ensures
            self.project(name).wf(),
            self.project(name).consistent_at(self.voting_length, clock),
            self.project(name).name == name,
    {
        self.lemma_project(name);
    }

    /// Putting a consistent project in place keeps the ledger consistent, at
    /// the later of the two times.
    pub proof fn lemma_replace_consistent(self, clock: u64, project: ProjectState, now: u64)
        requires
            self.consistent_at(clock),
            clock <= now,
            self.has(project.name),
            project.wf(),
            project.consistent_at(self.voting_length, now),
        ensures
            self.with_project(project).consistent_at(now),
    {
        let after = self.with_project(project);
        self.lemma_with_project(project);
        lemma_project_listed(self.projects, project.name);
        let place = self.find(project.name).unwrap();
        assert forall|i: int| 0 <= i < after.projects.len() implies (
        #[trigger] after.projects[i]).consistent_at(after.voting_length, now) by {
            if i != place {
                assert(after.projects[i] == self.projects[i]);
                self.projects[i].lemma_consistent_later(self.voting_length, clock, now);
            }
        }
    }

    /// Putting a project in place of one that it carries on carries the
    /// ledger on, and changes the budget and the money paid out of that
    /// project alone.
    pub proof fn lemma_replace_carries_on(self, project: ProjectState)
        requires
            self.wf(),
            self.has(project.name),
            self.project(project.name).carries_on(project),
        ensures
            self.carries_on(self.with_project(project)),
            forall|name: Seq<char>|
                name != project.name ==> #[trigger] self.with_project(project).budget(name)
                    == self.budget(name),
            forall|name: Seq<char>|
                name != project.name ==> #[trigger] self.with_project(project).paid_out(name)
                    == self.paid_out(name),
            self.with_project(project).budget(project.name) == project.budget,
            self.with_project(project).paid_out(project.name) == project.paid_out(),
    {
        let after = self.with_project(project);
        self.lemma_with_project(project);
        assert forall|name: Seq<char>| #[trigger] self.has(name) implies after.has(name)
            && self.project(name).carries_on(after.project(name)) by {
            if name != project.name {
                assert(after.has(name) == self.has(name));
                assert(after.project(name) == self.project(name));
            }
        }
        assert forall|name: Seq<char>| name != project.name implies #[trigger] after.budget(name)
            == self.budget(name) by {
            assert(after.has(name) == self.has(name));
            if self.has(name) {
                assert(after.project(name) == self.project(name));
            }
        }
        assert forall|name: Seq<char>| name != project.name implies #[trigger] after.paid_out(name)
            == self.paid_out(name) by {
            assert(after.has(name) == self.has(name));
            if self.has(name) {
                assert(after.project(name) == self.project(name));
            }
        }
    }
}

impl ProjectState {
    /// A project carries itself on.
    pub proof fn lemma_carries_on_itself(self)
        ensures
            self.carries_on(self),
    {
    }

    /// Carrying on goes through any project in between.
    pub proof fn lemma_carries_on_further(self, middle: ProjectState, later: ProjectState)
        requires
            self.carries_on(middle),
            middle.carries_on(later),
        ensures
            self.carries_on(later),
    {
        assert forall|account: AccountId| (#[trigger] self.donor(account)).refunded implies later.donor(
            account,
        ).refunded by {
            assert(middle.donor(account).refunded);
        }
    }
}

/// Carrying on goes through any ledger in between.
pub proof fn lemma_carries_on_further(ledger: LedgerState, middle: LedgerState, later: LedgerState)
    requires
        ledger.carries_on(middle),
        middle.carries_on(later),
    ensures
        ledger.carries_on(later),
{
    assert forall|name: Seq<char>| #[trigger] ledger.has(name) implies later.has(name)
        && ledger.project(name).carries_on(later.project(name)) by {
        assert(middle.has(name));
        ledger.project(name).lemma_carries_on_further(middle.project(name), later.project(name));
    }
}

/// No call lowers a budget, renames a project, changes what was fixed at its
/// creation, or takes a payout back; a refund and a claim leave every budget
/// as it was.
pub proof fn lemma_step_carries_on(ledger: LedgerState, call: Call)
    requires
        ledger.wf(),
    ensures
        call.apply(ledger).wf(),
        ledger.carries_on(call.apply(ledger)),
        call is Refund || call is Claim ==> forall|name: Seq<char>| #[trigger]
            call.apply(ledger).budget(name) == ledger.budget(name),
{
    let after = call.apply(ledger);
    if call.reply(ledger) is Err {
        assert forall|name: Seq<char>| #[trigger] ledger.has(name) implies ledger.project(
            name,
        ).carries_on(ledger.project(name)) by {
            ledger.project(name).lemma_carries_on_itself();
        }
    } else {
        match call {
            Call::Create { name, description, deadline, goal, caller, now } => {
                ledger.lemma_after_create(name, description, deadline, goal, caller, now);
                assert forall|other: Seq<char>| #[trigger] ledger.has(other) implies after.has(other)
                    && ledger.project(other).carries_on(after.project(other)) by {
                    assert(after.project(other) == ledger.project(other));
                    ledger.project(other).lemma_carries_on_itself();
                }
            },
            Call::Donate { name, caller, value, .. } => {
                let project = ledger.project(name);
                ledger.lemma_project(name);
                project.lemma_after_donation(caller, value);
                project.lemma_donation_carries_on(caller, value);
                ledger.lemma_with_project(project.after_donation(caller, value));
                ledger.lemma_replace_carries_on(project.after_donation(caller, value));
            },
            Call::Vote { name, vote, caller, .. } => {
                let project = ledger.project(name);
                ledger.lemma_project(name);
                project.lemma_after_vote(caller, vote);
                project.lemma_vote_carries_on(caller, vote);
                ledger.lemma_with_project(project.after_vote(caller, vote));
                ledger.lemma_replace_carries_on(project.after_vote(caller, vote));
            },
            Call::Refund { name, caller, .. } => {
                let project = ledger.project(name);
                ledger.lemma_project(name);
                project.lemma_after_refund(caller);
                project.lemma_refund_carries_on(caller);
                ledger.lemma_with_project(project.after_refund(caller));
                ledger.lemma_replace_carries_on(project.after_refund(caller));
            },
            Call::Claim { name, .. } => {
                let project = ledger.project(name);
                ledger.lemma_project(name);
                project.lemma_claim_carries_on();
                ledger.lemma_with_project(project.after_claim());
                ledger.lemma_replace_carries_on(project.after_claim());
            },
        }
    }
}

/// A call that comes in time keeps the ledger consistent, and adds to the
/// money paid out of each project exactly what it releases.
pub proof fn lemma_step_consistent(ledger: LedgerState, clock: u64, call: Call)
    requires
        ledger.consistent_at(clock),
        clock <= call.now(),
    ensures
        call.apply(ledger).consistent_at(call.now()),
        forall|name: Seq<char>| #[trigger]
            call.apply(ledger).paid_out(name) == ledger.paid_out(name) + call.paid(ledger, name),
{
    let after = call.apply(ledger);
    let now = call.now();
    if call.reply(ledger) is Err {
        assert forall|i: int| 0 <= i < ledger.projects.len() implies (
        #[trigger] ledger.projects[i]).consistent_at(ledger.voting_length, now) by {
            ledger.projects[i].lemma_consistent_later(ledger.voting_length, clock, now);
        }
    } else {
        match call {
            Call::Create { name, description, deadline, goal, caller, now } => {
                ledger.lemma_after_create(name, description, deadline, goal, caller, now);
                let fresh = LedgerState::fresh(name, description, deadline, goal, caller, now);
                assert(!fresh.any_refunded()) by {
                    assert forall|account: AccountId| !(#[trigger] fresh.donor(account)).refunded by {
                        lemma_donor_absent(fresh.donors, account);
                    }
                }
                let last = ledger.projects.len() as int;
                assert forall|i: int| 0 <= i < after.projects.len() implies (
                #[trigger] after.projects[i]).consistent_at(after.voting_length, now) by {
                    if i < last {
                        assert(after.projects[i] == ledger.projects[i]);
                        ledger.projects[i].lemma_consistent_later(ledger.voting_length, clock, now);
                    }
                }
                assert forall|other: Seq<char>| #[trigger] after.paid_out(other) == ledger.paid_out(other)
                    + call.paid(ledger, other) by {
                    if other == name {
                        assert(after.project(name) == fresh);
                    } else {
                        assert(after.has(other) == ledger.has(other));
                        if ledger.has(other) {
                            assert(after.project(other) == ledger.project(other));
                        }
                    }
                }
            },
            Call::Donate { name, caller, now, value } => {
                let project = ledger.project(name);
                ledger.lemma_project_consistent(clock, name);
                project.lemma_after_donation(caller, value);
                project.lemma_donation_carries_on(caller, value);
                project.lemma_donation_consistent(ledger.voting_length, clock, caller, now, value);
                let changed = project.after_donation(caller, value);
                ledger.lemma_replace_consistent(clock, changed, now);
                ledger.lemma_replace_carries_on(changed);
            },
            Call::Vote { name, vote, caller, now } => {
                let project = ledger.project(name);
                ledger.lemma_project_consistent(clock, name);
                project.lemma_after_vote(caller, vote);
                project.lemma_vote_carries_on(caller, vote);
                project.lemma_vote_consistent(ledger.voting_length, clock, caller, vote, now);
                let changed = project.after_vote(caller, vote);
                ledger.lemma_replace_consistent(clock, changed, now);
                ledger.lemma_replace_carries_on(changed);
            },
            Call::Refund { name, caller, now } => {
                let project = ledger.project(name);
                ledger.lemma_project_consistent(clock, name);
                project.lemma_after_refund(caller);
                project.lemma_refund_carries_on(caller);
                project.lemma_refund_consistent(ledger.voting_length, clock, caller, now);
                let changed = project.after_refund(caller);
                ledger.lemma_replace_consistent(clock, changed, now);
                ledger.lemma_replace_carries_on(changed);
            },
            Call::Claim { name, caller, now } => {
                let project = ledger.project(name);
                ledger.lemma_project_consistent(clock, name);
                project.lemma_claim_carries_on();
                project.lemma_claim_consistent(ledger.voting_length, clock, caller, now);
                let changed = project.after_claim();
                ledger.lemma_replace_consistent(clock, changed, now);
                ledger.lemma_replace_carries_on(changed);
            },
        }
    }
}

/// A history carries the ledger on.
pub proof fn lemma_run_carries_on(ledger: LedgerState, calls: Seq<Call>)
    requires
        ledger.wf(),
    ensures
        run(ledger, calls).wf(),
        ledger.carries_on(run(ledger, calls)),
    decreases calls.len(),
{
    if calls.len() == 0 {
        assert forall|name: Seq<char>| #[trigger] ledger.has(name) implies ledger.project(
            name,
        ).carries_on(ledger.project(name)) by {
            ledger.project(name).lemma_carries_on_itself();
        }
    } else {
        let before = run(ledger, calls.drop_last());
        lemma_run_carries_on(ledger, calls.drop_last());
        lemma_step_carries_on(before, calls.last());
        lemma_carries_on_further(ledger, before, run(ledger, calls));
    }
}

/// A history in the order of its timestamps keeps the ledger consistent, and
/// the money paid out of each project grows by what the history releases.
pub proof fn lemma_run_consistent(ledger: LedgerState, clock: u64, calls: Seq<Call>)
    requires
        ledger.consistent_at(clock),
        in_time_order(clock, calls),
    ensures
        run(ledger, calls).consistent_at(time_after(clock, calls)),
        forall|name: Seq<char>| #[trigger]
            run(ledger, calls).paid_out(name) == ledger.paid_out(name) + paid_total(
                ledger,
                calls,
                name,
            ),
    decreases calls.len(),
{
    if calls.len() > 0 {
        let earlier = calls.drop_last();
        let before = run(ledger, earlier);
        assert(in_time_order(clock, earlier)) by {
            assert forall|i: int| 0 <= i < earlier.len() implies clock <= (#[trigger] earlier[i]).now() by {
                assert(earlier[i] == calls[i]);
            }
            assert forall|i: int, j: int| 0 <= i <= j < earlier.len() implies (
            #[trigger] earlier[i]).now() <= (#[trigger] earlier[j]).now() by {
                assert(earlier[i] == calls[i]);
                assert(earlier[j] == calls[j]);
            }
        }
        lemma_run_consistent(ledger, clock, earlier);
        assert(time_after(clock, earlier) <= calls.last().now()) by {
            if earlier.len() > 0 {
                assert(earlier.last() == calls[earlier.len() - 1]);
                assert(calls.last() == calls[calls.len() - 1]);
            } else {
                assert(calls.last() == calls[0]);
            }
        }
        lemma_step_consistent(before, time_after(clock, earlier), calls.last());
        assert forall|name: Seq<char>| #[trigger] run(ledger, calls).paid_out(name) == ledger.paid_out(
            name,
        ) + paid_total(ledger, calls, name) by {
            assert(before.paid_out(name) == ledger.paid_out(name) + paid_total(ledger, earlier, name));
            assert(calls.last().apply(before).paid_out(name) == before.paid_out(name)
                + calls.last().paid(before, name));
        }
    }
}

/// Budget stability. Whatever calls reach the ledger, refunds among them, a
/// project stays and its budget never falls.
pub proof fn budget_never_falls(ledger: LedgerState, calls: Seq<Call>, name: Seq<char>)
    requires
        ledger.wf(),
        ledger.has(name),
    ensures
        run(ledger, calls).has(name),
        run(ledger, calls).project(name).budget >= ledger.project(name).budget,
        run(ledger, calls).project(name).info == ledger.project(name).info,
{
    lemma_run_carries_on(ledger, calls);
}

/// Budget stability under payouts. A refund or a claim, granted or not,
/// leaves every budget exactly as it was.
pub proof fn payouts_keep_budgets(ledger: LedgerState, call: Call, name: Seq<char>)
    requires
        ledger.wf(),
        call is Refund || call is Claim,
    ensures
        call.apply(ledger).budget(name) == ledger.budget(name),
{
    lemma_step_carries_on(ledger, call);
}

/// Conservation. From a consistent ledger, whatever calls arrive in the
/// order of their timestamps, what has left the pool of a project and what
/// the calls release from it never exceed the project's budget.
pub proof fn payouts_within_budget(ledger: LedgerState, clock: u64, calls: Seq<Call>, name: Seq<char>)
    requires
        ledger.consistent_at(clock),
        in_time_order(clock, calls),
    ensures
        ledger.paid_out(name) + paid_total(ledger, calls, name) <= run(ledger, calls).budget(name),
{
    lemma_run_consistent(ledger, clock, calls);
    let after = run(ledger, calls);
    assert(after.paid_out(name) == ledger.paid_out(name) + paid_total(ledger, calls, name));
    if after.has(name) {
        after.lemma_project_consistent(time_after(clock, calls), name);
        after.project(name).lemma_paid_out_within_budget(
            after.voting_length,
            time_after(clock, calls),
        );
    }
}

/// A ledger without projects is consistent at any time.
pub proof fn lemma_initial_consistent(voting_length: u64, fee_percent: u8, owner_account: AccountId, clock: u64)
    ensures
        LedgerState::initial(voting_length, fee_percent, owner_account).consistent_at(clock),
        forall|name: Seq<char>| #[trigger]
            LedgerState::initial(voting_length, fee_percent, owner_account).paid_out(name) == 0,
{
    let ledger = LedgerState::initial(voting_length, fee_percent, owner_account);
    assert forall|name: Seq<char>| #[trigger] ledger.paid_out(name) == 0 by {
        lemma_project_listed(ledger.projects, name);
    }
}

/// Conservation, over the whole life of a ledger. From a new ledger,
/// whatever calls arrive in the order of their timestamps, the claims and
/// refunds granted on a project together never release more than its budget.
pub proof fn conservation(
    voting_length: u64,
    fee_percent: u8,
    owner_account: AccountId,
    calls: Seq<Call>,
    name: Seq<char>,
)
    requires
        in_time_order(0, calls),
    ensures
        paid_total(LedgerState::initial(voting_length, fee_percent, owner_account), calls, name)
            <= run(LedgerState::initial(voting_length, fee_percent, owner_account), calls).budget(
            name,
        ),
{
    let ledger = LedgerState::initial(voting_length, fee_percent, owner_account);
    lemma_initial_consistent(voting_length, fee_percent, owner_account, 0);
    assert(ledger.paid_out(name) == 0);
    payouts_within_budget(ledger, 0, calls, name);
}

/// No second claim. Once a claim on a project was granted, whatever calls
/// follow in the order of their timestamps, a later claim on it is turned
/// down: as already claimed if the same caller makes it, and as not from
/// the author if another does.
pub proof fn no_second_claim(
    ledger: LedgerState,
    clock: u64,
    first: Call,
    between: Seq<Call>,
    second: Call,
)
    requires
        ledger.consistent_at(clock),
        clock <= first.now(),
        in_time_order(first.now(), between),
        time_after(first.now(), between) <= second.now(),
        first is Claim,
        second is Claim,
        first.project() == second.project(),
        first.reply(ledger) is Ok,
    ensures
        first->Claim_caller == second->Claim_caller ==> second.reply(
            run(first.apply(ledger), between),
        ) == Err::<(), Error>(Error::NoFundsToClaim),
        first->Claim_caller != second->Claim_caller ==> second.reply(
            run(first.apply(ledger), between),
        ) == Err::<(), Error>(Error::YouAreNotTheFather),
{
    let name = first.project();
    let claimed = first.apply(ledger);
    let later = run(claimed, between);
    let project = ledger.project(name);
    ledger.lemma_project_consistent(clock, name);
    lemma_step_consistent(ledger, clock, first);
    ledger.lemma_with_project(project.after_claim());
    assert(claimed.project(name).claimed);
    lemma_run_consistent(claimed, first.now(), between);
    lemma_run_carries_on(claimed, between);
    assert(claimed.has(name));
    assert(claimed.project(name).carries_on(later.project(name)));
    later.lemma_project_consistent(time_after(first.now(), between), name);
}

/// No second refund. Once a donor's refund on a project was granted,
/// whatever calls follow in the order of their timestamps, a later refund
/// by that donor on that project is turned down, as having nothing left to
/// refund.
pub proof fn no_second_refund(
    ledger: LedgerState,
    clock: u64,
    first: Call,
    between: Seq<Call>,
    second: Call,
)
    requires
        ledger.consistent_at(clock),
        clock <= first.now(),
        in_time_order(first.now(), between),
        time_after(first.now(), between) <= second.now(),
        first is Refund,
        second is Refund,
        first.project() == second.project(),
        first->Refund_caller == second->Refund_caller,
        first.reply(ledger) is Ok,
    ensures
        second.reply(run(first.apply(ledger), between)) == Err::<(), Error>(Error::NoFundsToRefund),
{
    let name = first.project();
    let donor = first->Refund_caller;
    let refunded = first.apply(ledger);
    let later = run(refunded, between);
    let project = ledger.project(name);
    ledger.lemma_project_consistent(clock, name);
    lemma_step_consistent(ledger, clock, first);
    project.lemma_after_refund(donor);
    ledger.lemma_with_project(project.after_refund(donor));
    assert(refunded.project(name).donor(donor).refunded);
    lemma_run_consistent(refunded, first.now(), between);
    lemma_run_carries_on(refunded, between);
    assert(refunded.has(name));
    assert(refunded.project(name).carries_on(later.project(name)));
    assert(later.project(name).donor(donor).refunded);
    later.lemma_project_consistent(time_after(first.now(), between), name);
}

} // verus!
