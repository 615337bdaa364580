//! The pending-reward ledger: what each account may claim. Rewards are
//! credited when a raffle is funded and leave the ledger when the account
//! claims them.

use vstd::prelude::*;
use crate::account::{AccountId, Balance};
use crate::account_map::{accounts_of, bound_in_turn, map_of, AccountMap, Entry};
use crate::error::{AccessControlError, RewardError};

verus! {

/// Identifier of the capability that allows crediting rewards.
pub const REWARD_MANAGER_ROLE: u32 = 3562086346;

/// Identifier of the capability that allows reading any account's rewards.
pub const REWARD_VIEWER_ROLE: u32 = 2407746803;

/// Notification that a reward became pending for an account.
#[derive(Clone, Copy, Debug)]
pub struct PendingReward {
    pub account: AccountId,
    pub era: u32,
    pub amount: Balance,
}

/// Notification that an account claimed its rewards.
#[derive(Clone, Copy, Debug)]
pub struct RewardsClaimed {
    pub account: AccountId,
    pub amount: Balance,
}

/// What `a` has pending in `m` (0 where it has no entry).
pub open spec fn balance_of(m: Map<AccountId, Balance>, a: AccountId) -> int {
    if m.dom().contains(a) {
        m[a] as int
    } else {
        0
    }
}

/// Sum of the amounts that `accounts` holds for `a`.
pub open spec fn credited_to(accounts: Seq<(AccountId, Balance)>, a: AccountId) -> int
    decreases accounts.len(),
{
    if accounts.len() == 0 {
        0
    } else {
        credited_to(accounts.drop_last(), a) + if accounts.last().0 == a {
            accounts.last().1 as int
        } else {
            0
        }
    }
}

/// Sum of all amounts of `accounts`.
pub open spec fn total_amount(accounts: Seq<(AccountId, Balance)>) -> int
    decreases accounts.len(),
{
    if accounts.len() == 0 {
        0
    } else {
        total_amount(accounts.drop_last()) + accounts.last().1
    }
}

/// Whether `accounts` has an entry for `a`.
pub open spec fn named(accounts: Seq<(AccountId, Balance)>, a: AccountId) -> bool {
    exists|i: int| 0 <= i < accounts.len() && (#[trigger] accounts[i]).0 == a
}

/// Whether the balance of `a`, once credited with `accounts`, fits in 128
/// bits.
pub open spec fn balance_fits(
    m: Map<AccountId, Balance>,
    accounts: Seq<(AccountId, Balance)>,
    a: AccountId,
) -> bool {
    balance_of(m, a) + credited_to(accounts, a) <= u128::MAX
}

/// The ledger `m` after crediting every entry of `accounts`: each account
/// named there has an entry, and each balance has grown by what was credited
/// to its account.
pub open spec fn credited(m: Map<AccountId, Balance>, accounts: Seq<(AccountId, Balance)>) -> Map<
    AccountId,
    Balance,
> {
    Map::new(
        |a: AccountId| m.dom().contains(a) || named(accounts, a),
        |a: AccountId| (balance_of(m, a) + credited_to(accounts, a)) as Balance,
    )
}

/// The notifications for crediting `accounts` in `era`, in order.
pub open spec fn pending_events(era: u32, accounts: Seq<(AccountId, Balance)>) -> Seq<
    PendingReward,
> {
    Seq::new(
        accounts.len(),
        |i: int| PendingReward { account: accounts[i].0, era, amount: accounts[i].1 },
    )
}

/// Outcome of funding on given inputs: the new ledger, or the error.
pub open spec fn fund_outcome(
    m: Map<AccountId, Balance>,
    caller_is_manager: bool,
    transferred_value: Balance,
    accounts: Seq<(AccountId, Balance)>,
) -> Result<Map<AccountId, Balance>, RewardError> {
    if !caller_is_manager {
        Err(RewardError::AccessControlError(AccessControlError::MissingRole))
    } else if total_amount(accounts) > u128::MAX || exists|a: AccountId|
        !#[trigger] balance_fits(m, accounts, a) {
        Err(RewardError::AddOverFlow)
    } else if transferred_value < total_amount(accounts) {
        Err(RewardError::InsufficientTransferredBalance)
    } else {
        Ok(credited(m, accounts))
    }
}

/// Outcome of a claim of `from`, given whether the transfer of what it has
/// pending succeeded: the ledger without its entry, or the error.
pub open spec fn claim_outcome(
    m: Map<AccountId, Balance>,
    from: AccountId,
    transferred: bool,
) -> Result<Map<AccountId, Balance>, RewardError> {
    if !m.dom().contains(from) {
        Err(RewardError::NoReward)
    } else if !transferred {
        Err(RewardError::TransferError)
    } else {
        Ok(m.remove(from))
    }
}

/// A claim is one-shot: after the claim of an account has succeeded, a
/// second claim of the same account fails with `NoReward`, whatever becomes
/// of a transfer.
pub proof fn lemma_claim_is_one_shot(m: Map<AccountId, Balance>, from: AccountId, transferred: bool)
    requires
        claim_outcome(m, from, true) is Ok,
    ensures
        claim_outcome(claim_outcome(m, from, true)->Ok_0, from, transferred) == Err::<
            Map<AccountId, Balance>,
            RewardError,
        >(RewardError::NoReward),
{
}

/// A claim leaves the rewards of every other account as they were.
pub proof fn lemma_claim_keeps_others(m: Map<AccountId, Balance>, from: AccountId, other: AccountId)
    requires
        claim_outcome(m, from, true) is Ok,
        other != from,
    ensures
        balance_of(claim_outcome(m, from, true)->Ok_0, other) == balance_of(m, other),
        claim_outcome(m, from, true)->Ok_0.dom().contains(other) == m.dom().contains(other),
{
}

/// Funding credits exactly what it is given: an account's balance grows by
/// the sum of the amounts listed for it, and an account that is not listed
/// keeps its balance.
pub proof fn lemma_funding_credits_listed_amounts(
    m: Map<AccountId, Balance>,
    transferred_value: Balance,
    accounts: Seq<(AccountId, Balance)>,
    a: AccountId,
)
    requires
        fund_outcome(m, true, transferred_value, accounts) is Ok,
    ensures
        balance_of(fund_outcome(m, true, transferred_value, accounts)->Ok_0, a) == balance_of(m, a)
            + credited_to(accounts, a),
        !named(accounts, a) ==> credited_to(accounts, a) == 0,
        total_amount(accounts) <= transferred_value,
{
    assert(balance_fits(m, accounts, a));
    lemma_credit_within_total(accounts, a);
    if !named(accounts, a) {
        lemma_unnamed_uncredited(accounts, a);
    }
}

/// Amounts credited never decrease as more entries are taken into account.
pub proof fn lemma_credit_monotonic(accounts: Seq<(AccountId, Balance)>, n: int, a: AccountId)
    requires
        0 <= n <= accounts.len(),
    ensures
        0 <= credited_to(accounts.take(n), a) <= credited_to(accounts, a),
        0 <= total_amount(accounts.take(n)) <= total_amount(accounts),
    decreases accounts.len(),
{
    if n == accounts.len() {
        assert(accounts.take(n) =~= accounts);
        if n > 0 {
            lemma_credit_monotonic(accounts.drop_last(), n - 1, a);
        }
    } else {
        lemma_credit_monotonic(accounts.drop_last(), n, a);
        assert(accounts.drop_last().take(n) =~= accounts.take(n));
    }
}

/// Nothing is credited to an account that the list does not name.
pub proof fn lemma_unnamed_uncredited(accounts: Seq<(AccountId, Balance)>, a: AccountId)
    requires
        !named(accounts, a),
    ensures
        credited_to(accounts, a) == 0,
    decreases accounts.len(),
{
    if accounts.len() > 0 {
        assert(accounts[accounts.len() - 1].0 != a);
        assert forall|i: int| 0 <= i < accounts.drop_last().len() implies (
        #[trigger] accounts.drop_last()[i]).0 != a by {
            assert(accounts[i].0 != a);
        }
        lemma_unnamed_uncredited(accounts.drop_last(), a);
    }
}

/// The amounts credited to all accounts add up to the total of the list: an
/// account's share of it is never more than the total.
pub proof fn lemma_credit_within_total(accounts: Seq<(AccountId, Balance)>, a: AccountId)
    ensures
        0 <= credited_to(accounts, a) <= total_amount(accounts),
    decreases accounts.len(),
{
    if accounts.len() > 0 {
        lemma_credit_within_total(accounts.drop_last(), a);
    }
}

/// The rewards that accounts have pending.
#[derive(Debug)]
pub struct Psp22RewardData {
    pending_rewards: AccountMap,
}

impl View for Psp22RewardData {
    type V = Map<AccountId, Balance>;

    closed spec fn view(&self) -> Map<AccountId, Balance> {
        self.pending_rewards@
    }
}

impl Psp22RewardData {
    /// A ledger in which nothing is pending.
    pub fn new() -> (data: Psp22RewardData)
        ensures
            data@ == Map::<AccountId, Balance>::empty(),
    {
        Psp22RewardData { pending_rewards: AccountMap::new() }
    }

    /// What is pending, each account once.
    pub fn pending_rewards(&self) -> (entries: Vec<Entry>)
        ensures
            accounts_of(entries@).no_duplicates(),
            map_of(entries@) == self@,
    {
        self.pending_rewards.entries()
    }

    /// The ledger in which each of `entries` is pending; of two entries of
    /// one account, the later one counts.
    pub fn restore(entries: &Vec<Entry>) -> (data: Psp22RewardData)
        ensures
            data@ == bound_in_turn(entries@),
    {
        Psp22RewardData { pending_rewards: AccountMap::from_entries(entries) }
    }

    /// Credits each entry of `accounts` to its account, for rewards of `era`
    /// paid for with `transferred_value`. Fails, leaving the ledger as it
    /// was, when a sum overflows or when `transferred_value` does not cover
    /// the total. Returns the notifications to emit, one per entry.
    pub fn inner_fund_rewards_and_add_winners(
        &mut self,
        caller_is_manager: bool,
        transferred_value: Balance,
        era: u32,
        accounts: Vec<(AccountId, Balance)>,
    ) -> (result: Result<Vec<PendingReward>, RewardError>)
        ensures
            match fund_outcome(old(self)@, caller_is_manager, transferred_value, accounts@) {
                Ok(m) => result is Ok && result->Ok_0@ == pending_events(era, accounts@)
                    && final(self)@ == m,
                Err(e) => result == Err::<Vec<PendingReward>, RewardError>(e) && final(self)@
                    == old(self)@,
            },
    {
        if !caller_is_manager {
            return Err(RewardError::AccessControlError(AccessControlError::MissingRole));
        }
        let ghost before = self@;
        let mut working = self.pending_rewards.duplicate();
        let mut events: Vec<PendingReward> = Vec::new();
        let mut total_rewards: Balance = 0;
        let mut i: usize = 0;
        assert(working@ =~= credited(before, accounts@.take(0))) by {
            assert forall|a: AccountId| !named(accounts@.take(0), a) by {}
        }
        while i < accounts.len()
            invariant
                i <= accounts.len(),
                caller_is_manager,
                before == old(self)@,
                self@ == before,
                total_rewards == total_amount(accounts@.take(i as int)),
                working@ == credited(before, accounts@.take(i as int)),
                forall|a: AccountId| #[trigger] balance_fits(before, accounts@.take(i as int), a),
                events@ == pending_events(era, accounts@.take(i as int)),
            decreases accounts.len() - i,
        {
            let (account, reward) = accounts[i];
            let ghost taken = accounts@.take(i as int);
            let ghost next = accounts@.take(i + 1);
            proof {
                assert(next.drop_last() =~= taken);
                assert(next.last() == (account, reward));
                lemma_credit_monotonic(accounts@, i + 1, account);
                assert(balance_fits(before, taken, account));
                assert(credited_to(next, account) == credited_to(taken, account) + reward);
                lemma_credit_monotonic(accounts@, i as int, account);
                if !working@.dom().contains(account) {
                    assert(!named(taken, account));
                    lemma_unnamed_uncredited(taken, account);
                }
            }
            total_rewards = match total_rewards.checked_add(reward) {
                Some(t) => t,
                None => {
                    return Err(RewardError::AddOverFlow);
                },
            };
            let new_reward = match working.get(&account) {
                Some(existing_reward) => match existing_reward.checked_add(reward) {
                    Some(n) => n,
                    None => {
                        assert(!balance_fits(before, accounts@, account));
                        return Err(RewardError::AddOverFlow);
                    },
                },
                None => {
                    proof {
                        lemma_unnamed_uncredited(taken, account);
                    }
                    reward
                },
            };
            working.insert(account, new_reward);
            events.push(PendingReward { account, era, amount: reward });
            proof {
                assert(balance_fits(before, taken, account));
                assert forall|a: AccountId| #[trigger] balance_fits(before, next, a) by {
                    assert(balance_fits(before, taken, a));
                }
                assert forall|a: AccountId| named(next, a) <==> (a == account || named(
                    taken,
                    a,
                )) by {
                    if named(taken, a) {
                        let j = choose|j: int| 0 <= j < taken.len() && (#[trigger] taken[j]).0 == a;
                        assert(next[j].0 == a);
                    }
                    if a == account {
                        assert(next[i as int].0 == a);
                    }
                    if named(next, a) && a != account {
                        let j = choose|j: int| 0 <= j < next.len() && (#[trigger] next[j]).0 == a;
                        assert(taken[j].0 == a);
                    }
                }
                assert forall|a: AccountId| a != account implies credited_to(next, a)
                    == credited_to(taken, a) by {}
                assert forall|a: AccountId| #[trigger]
                    credited(before, next).dom().contains(a) implies working@.dom().contains(a)
                    && working@[a] == credited(before, next)[a] by {
                    assert(balance_fits(before, taken, a));
                    if a != account {
                        assert(credited(before, taken).dom().contains(a));
                    }
                }
                assert forall|a: AccountId| #[trigger]
                    working@.dom().contains(a) implies credited(before, next).dom().contains(a) by {
                    if a != account {
                        assert(credited(before, taken).dom().contains(a));
                    }
                }
                assert(working@ =~= credited(before, next));
                assert(events@ =~= pending_events(era, next));
            }
            i += 1;
        }
        proof {
            assert(accounts@.take(i as int) =~= accounts@);
            assert forall|a: AccountId| #[trigger] balance_fits(before, accounts@, a) by {
                assert(balance_fits(before, accounts@.take(i as int), a));
            }
        }
        if transferred_value < total_rewards {
            return Err(RewardError::InsufficientTransferredBalance);
        }
        self.pending_rewards = working;
        Ok(events)
    }

    /// Whether `from` has rewards pending.
    pub fn inner_has_pending_rewards_from(&self, from: AccountId) -> (r: bool)
        ensures
            r == self@.dom().contains(from),
    {
        self.pending_rewards.contains(&from)
    }

    /// The rewards pending for `from`, if any.
    pub fn inner_get_pending_rewards_from(&self, from: AccountId) -> (r: Result<
        Option<Balance>,
        RewardError,
    >)
        ensures
            r is Ok,
            match r->Ok_0 {
                Some(amount) => self@.dom().contains(from) && self@[from] == amount,
                None => !self@.dom().contains(from),
            },
    {
        Ok(self.pending_rewards.get(&from))
    }

    /// First step of a claim: what has to be transferred to `from`. Fails
    /// with `NoReward` where nothing is pending for it. The ledger is not
    /// changed before the transfer has succeeded.
    pub fn claimable(&self, from: AccountId) -> (r: Result<Balance, RewardError>)
        ensures
            match r {
                Ok(amount) => self@.dom().contains(from) && self@[from] == amount,
                Err(e) => !self@.dom().contains(from) && e == RewardError::NoReward,
            },
    {
        match self.pending_rewards.get(&from) {
            Some(pending_rewards) => Ok(pending_rewards),
            None => Err(RewardError::NoReward),
        }
    }

    /// Claims all pending rewards of `from`, given whether the transfer of
    /// the amount that `claimable` returned has succeeded. After a claim
    /// nothing is pending for the account; where the transfer failed, the
    /// ledger stays as it was.
    pub fn inner_claim_from(&mut self, from: AccountId, transferred: bool) -> (r: Result<
        RewardsClaimed,
        RewardError,
    >)
        ensures
            match claim_outcome(old(self)@, from, transferred) {
                Ok(m) => r is Ok && r->Ok_0.account == from && r->Ok_0.amount == old(self)@[from]
                    && final(self)@ == m,
                Err(e) => r is Err && r->Err_0 == e && final(self)@ == old(self)@,
            },
    {
        match self.pending_rewards.get(&from) {
            Some(pending_rewards) => {
                if !transferred {
                    return Err(RewardError::TransferError);
                }
                self.pending_rewards.remove(&from);
                Ok(RewardsClaimed { account: from, amount: pending_rewards })
            },
            None => Err(RewardError::NoReward),
        }
    }
}

} // verus!
