//! The raffle engine: the ratio table by which a reward pool is shared among
//! ranked winners, and the era counter that lets each era be settled or
//! skipped exactly once.

use vstd::prelude::*;
use crate::account::{AccountId, Balance};
use crate::error::{AccessControlError, RaffleError};
use crate::message::le_u32;
use crate::scale::{decode_u32, encode_u16, encode_u32, le_bytes, lemma_u32_round_trip};

verus! {

/// Identifier of the capability that guards the raffle's configuration.
pub const RAFFLE_MANAGER_ROLE: u32 = 2845312152;

/// Key under which the host's key-value store holds the next era.
pub const NEXT_ERA: u32 = 1451450598;

/// Key under which the host's key-value store holds the number of ranked
/// winners.
pub const NB_WINNERS: u32 = 2070945538;

/// Sum of a sequence of balances, as a mathematical integer.
pub open spec fn sum(s: Seq<Balance>) -> int
    decreases s.len(),
{
    if s.len() == 0 {
        0
    } else {
        sum(s.drop_last()) + s.last()
    }
}

/// What a winner ranked with `ratio` receives out of `total_rewards`.
pub open spec fn share(total_rewards: Balance, ratio: Balance, total_ratio: Balance) -> int {
    if ratio == 0 {
        0
    } else {
        (total_rewards * ratio) / (total_ratio as int)
    }
}

/// The payouts owed to `winners`, in rank order: the winner of rank `i`
/// receives `share(total_rewards, ratios[i], total_ratio)`, and a winner whose
/// ratio is zero is left out.
pub open spec fn payouts(
    winners: Seq<AccountId>,
    ratios: Seq<Balance>,
    total_rewards: Balance,
    total_ratio: Balance,
) -> Seq<(AccountId, Balance)>
    recommends
        winners.len() <= ratios.len(),
    decreases winners.len(),
{
    if winners.len() == 0 {
        Seq::empty()
    } else {
        let i = winners.len() - 1;
        let before = payouts(winners.drop_last(), ratios, total_rewards, total_ratio);
        if ratios[i] == 0 {
            before
        } else {
            before.push((winners[i], share(total_rewards, ratios[i], total_ratio) as Balance))
        }
    }
}

/// Sum of the amounts of a payout list.
pub open spec fn payout_total(p: Seq<(AccountId, Balance)>) -> int
    decreases p.len(),
{
    if p.len() == 0 {
        0
    } else {
        payout_total(p.drop_last()) + p.last().1
    }
}

/// Whether each of the first `n` ratios can be multiplied by `total_rewards`
/// within 128 bits.
pub open spec fn shares_fit(ratios: Seq<Balance>, n: int, total_rewards: Balance) -> bool {
    forall|i: int| 0 <= i < n && i < ratios.len() ==> total_rewards * #[trigger] ratios[i] <= u128::MAX
}

/// The mathematical state of the raffle engine.
pub struct RaffleState {
    pub ratio_distribution: Seq<Balance>,
    pub total_ratio_distribution: Balance,
    pub next_era: u32,
}

/// Outcome of `set_ratio_distribution` on given inputs.
pub open spec fn ratio_update(
    state: RaffleState,
    caller_is_manager: bool,
    ratio: Seq<Balance>,
    total_ratio: Balance,
) -> Result<RaffleState, RaffleError> {
    if !caller_is_manager {
        Err(RaffleError::AccessControlError(AccessControlError::MissingRole))
    } else if sum(ratio) > total_ratio {
        Err(RaffleError::IncorrectRatio)
    } else if ratio.len() > u16::MAX {
        Err(RaffleError::TryFromIntError)
    } else {
        Ok(
            RaffleState {
                ratio_distribution: ratio,
                total_ratio_distribution: total_ratio,
                next_era: state.next_era,
            },
        )
    }
}

/// Outcome of skipping `era`: the next state, or the error.
pub open spec fn skip_outcome(state: RaffleState, caller_is_manager: bool, era: u32) -> Result<
    RaffleState,
    RaffleError,
> {
    if state.next_era != era {
        Err(RaffleError::IncorrectEra)
    } else if era == u32::MAX {
        Err(RaffleError::AddOverFlow)
    } else if !caller_is_manager {
        Err(RaffleError::AccessControlError(AccessControlError::MissingRole))
    } else {
        Ok(RaffleState { next_era: (era + 1) as u32, ..state })
    }
}

/// The payouts of settling `era`, or the error, before the era is advanced.
pub open spec fn payout_outcome(
    state: RaffleState,
    era: u32,
    total_rewards: Balance,
    winners: Seq<AccountId>,
) -> Result<Seq<(AccountId, Balance)>, RaffleError> {
    if state.next_era != era {
        Err(RaffleError::IncorrectEra)
    } else if total_rewards == 0 {
        Err(RaffleError::NoReward)
    } else if winners.len() == 0 {
        Err(RaffleError::NoWinner)
    } else if state.ratio_distribution.len() == 0 {
        Err(RaffleError::NoRatioSet)
    } else if state.ratio_distribution.len() < winners.len() {
        Err(RaffleError::TooManyWinners)
    } else if !shares_fit(state.ratio_distribution, winners.len() as int, total_rewards) {
        Err(RaffleError::MulOverFlow)
    } else {
        Ok(
            payouts(
                winners,
                state.ratio_distribution,
                total_rewards,
                state.total_ratio_distribution,
            ),
        )
    }
}

/// Outcome of settling `era`: the payouts, or the error.
pub open spec fn settle_outcome(
    state: RaffleState,
    caller_is_manager: bool,
    era: u32,
    total_rewards: Balance,
    winners: Seq<AccountId>,
) -> Result<Seq<(AccountId, Balance)>, RaffleError> {
    match payout_outcome(state, era, total_rewards, winners) {
        Err(e) => Err(e),
        Ok(p) => if era == u32::MAX {
            Err(RaffleError::AddOverFlow)
        } else if !caller_is_manager {
            Err(RaffleError::AccessControlError(AccessControlError::MissingRole))
        } else {
            Ok(p)
        },
    }
}

/// The next era that the key-value store holds: era 0 where it holds
/// nothing for the key, or else the number that the first four bytes of the
/// value stand for.
pub open spec fn stored_next_era(stored: Option<Seq<u8>>) -> Result<u32, RaffleError> {
    match stored {
        None => Ok(0),
        Some(value) => if value.len() >= 4 {
            Ok(le_u32(value, 0) as u32)
        } else {
            Err(RaffleError::FailedToDecode)
        },
    }
}

/// Reads the next era from what the key-value store holds under `NEXT_ERA`.
/// Fails with `FailedToDecode` where the value is too short.
pub fn read_next_era(stored: Option<&Vec<u8>>) -> (result: Result<u32, RaffleError>)
    ensures
        result == stored_next_era(
            match stored {
                Some(value) => Some(value@),
                None => None,
            },
        ),
{
    match stored {
        Some(value) => match decode_u32(value) {
            Some(next_era) => Ok(next_era),
            None => Err(RaffleError::FailedToDecode),
        },
        None => Ok(0),
    }
}

/// Ratio table and era counter of one raffle.
#[derive(Debug)]
pub struct RaffleData {
    ratio_distribution: Vec<Balance>,
    total_ratio_distribution: Balance,
    next_era: u32,
}

impl View for RaffleData {
    type V = RaffleState;

    closed spec fn view(&self) -> RaffleState {
        RaffleState {
            ratio_distribution: self.ratio_distribution@,
            total_ratio_distribution: self.total_ratio_distribution,
            next_era: self.next_era,
        }
    }
}

/// An entry of a sequence is at most the sum of the sequence.
pub proof fn lemma_sum_bounds_entry(s: Seq<Balance>, i: int)
    requires
        0 <= i < s.len(),
    ensures
        s[i] <= sum(s),
        0 <= sum(s),
    decreases s.len(),
{
    lemma_sum_nonnegative(s.drop_last());
    if i < s.len() - 1 {
        lemma_sum_bounds_entry(s.drop_last(), i);
    }
}

/// A sum of balances is never negative.
pub proof fn lemma_sum_nonnegative(s: Seq<Balance>)
    ensures
        0 <= sum(s),
    decreases s.len(),
{
    if s.len() > 0 {
        lemma_sum_nonnegative(s.drop_last());
    }
}

/// A prefix of a sequence sums to at most the sum of the whole.
pub proof fn lemma_sum_prefix(s: Seq<Balance>, n: int)
    requires
        0 <= n <= s.len(),
    ensures
        sum(s.take(n)) <= sum(s),
    decreases s.len(),
{
    if n == s.len() {
        assert(s.take(n) =~= s);
    } else {
        lemma_sum_prefix(s.drop_last(), n);
        assert(s.drop_last().take(n) =~= s.take(n));
    }
}

impl RaffleData {
    /// The stored ratios never add up to more than the total ratio.
    #[verifier::type_invariant]
    spec fn inv(self) -> bool {
        &&& sum(self.ratio_distribution@) <= self.total_ratio_distribution
        &&& self.ratio_distribution@.len() <= u16::MAX
    }

    /// A raffle with no ratio set, waiting for era 0.
    pub fn new() -> (data: RaffleData)
        ensures
            data@ == (RaffleState {
                ratio_distribution: Seq::empty(),
                total_ratio_distribution: 0,
                next_era: 0,
            }),
    {
        RaffleData { ratio_distribution: Vec::new(), total_ratio_distribution: 0, next_era: 0 }
    }

    /// Replaces the ratio table. The winner of rank `i` will receive
    /// `total_rewards * ratio[i] / total_ratio`. Fails with `IncorrectRatio`,
    /// leaving the table as it was, when the ratios add up to more than
    /// `total_ratio`.
    #[verifier::loop_isolation(false)]
    pub fn inner_set_ratio_distribution(
        &mut self,
        caller_is_manager: bool,
        ratio: Vec<Balance>,
        total_ratio: Balance,
    ) -> (result: Result<(), RaffleError>)
        ensures
            match ratio_update(old(self)@, caller_is_manager, ratio@, total_ratio) {
                Ok(state) => result is Ok && final(self)@ == state,
                Err(e) => result == Err::<(), RaffleError>(e) && final(self)@ == old(self)@,
            },
    {
        if !caller_is_manager {
            return Err(RaffleError::AccessControlError(AccessControlError::MissingRole));
        }
        let mut total: Balance = 0;
        let mut i: usize = 0;
        while i < ratio.len()
            invariant
                i <= ratio.len(),
                total == sum(ratio@.take(i as int)),
                total <= total_ratio,
                *self == *old(self),
            decreases ratio.len() - i,
        {
            proof {
                assert(ratio@.take(i + 1).drop_last() =~= ratio@.take(i as int));
                assert(sum(ratio@.take(i + 1)) == total + ratio@[i as int]);
                lemma_sum_prefix(ratio@, i + 1);
            }
            match total.checked_add(ratio[i]) {
                Some(t) => {
                    if t > total_ratio {
                        return Err(RaffleError::IncorrectRatio);
                    }
                    total = t;
                },
                None => {
                    return Err(RaffleError::IncorrectRatio);
                },
            }
            i += 1;
        }
        assert(ratio@.take(i as int) =~= ratio@);
        if ratio.len() > 65535 {
            return Err(RaffleError::TryFromIntError);
        }
        let next_era = self.next_era;
        *self = RaffleData {
            ratio_distribution: ratio,
            total_ratio_distribution: total_ratio,
            next_era,
        };
        Ok(())
    }

    /// The ratio table, by rank. Its entries add up to no more than the
    /// total ratio.
    pub fn inner_get_ratio_distribution(&self) -> (ratio: Vec<Balance>)
        ensures
            ratio@ == self@.ratio_distribution,
            sum(ratio@) <= self@.total_ratio_distribution,
    {
        proof {
            use_type_invariant(self);
        }
        self.ratio_distribution.clone()
    }

    /// The denominator of the ratio table.
    pub fn inner_get_total_ratio_distribution(&self) -> (total_ratio: Balance)
        ensures
            total_ratio == self@.total_ratio_distribution,
    {
        self.total_ratio_distribution
    }

    /// Number of ranked winners the ratio table provides for.
    pub fn nb_winners(&self) -> (n: u16)
        ensures
            n == self@.ratio_distribution.len(),
    {
        proof {
            use_type_invariant(self);
        }
        self.ratio_distribution.len() as u16
    }

    /// The era that is next to be settled or skipped.
    pub fn inner_get_next_era(&self) -> (result: Result<u32, RaffleError>)
        ensures
            result == Ok::<u32, RaffleError>(self@.next_era),
    {
        Ok(self.next_era)
    }

    /// Sets the era that is next to be settled or skipped.
    pub fn inner_set_next_era(&mut self, caller_is_manager: bool, next_era: u32) -> (result: Result<
        (),
        RaffleError,
    >)
        ensures
            caller_is_manager ==> result is Ok && final(self)@ == (RaffleState {
                next_era,
                ..old(self)@
            }),
            !caller_is_manager ==> result == Err::<(), RaffleError>(
                RaffleError::AccessControlError(AccessControlError::MissingRole),
            ) && final(self)@ == old(self)@,
    {
        if !caller_is_manager {
            return Err(RaffleError::AccessControlError(AccessControlError::MissingRole));
        }
        proof {
            use_type_invariant(&*self);
        }
        self.next_era = next_era;
        Ok(())
    }

    /// Marks `era` as done without any reward. Only the era that is next can
    /// be skipped; the era after it is next afterwards.
    pub fn skip_raffle(&mut self, caller_is_manager: bool, era: u32) -> (result: Result<
        (),
        RaffleError,
    >)
        ensures
            match skip_outcome(old(self)@, caller_is_manager, era) {
                Ok(state) => result is Ok && final(self)@ == state,
                Err(e) => result == Err::<(), RaffleError>(e) && final(self)@ == old(self)@,
            },
    {
        if self.next_era != era {
            return Err(RaffleError::IncorrectEra);
        }
        let next = match era.checked_add(1) {
            Some(next) => next,
            None => {
                return Err(RaffleError::AddOverFlow);
            },
        };
        self.inner_set_next_era(caller_is_manager, next)
    }

    /// What settling `era` would pay: the share of `total_rewards` that each
    /// ranked winner receives. Nothing is changed.
    #[verifier::loop_isolation(false)]
    pub fn payouts_for(
        &self,
        era: u32,
        total_rewards: Balance,
        winners: &Vec<AccountId>,
    ) -> (result: Result<Vec<(AccountId, Balance)>, RaffleError>)
        ensures
            match payout_outcome(self@, era, total_rewards, winners@) {
                Ok(p) => result is Ok && result->Ok_0@ == p && payout_total(p) <= total_rewards
                    && winners@.len() <= u16::MAX,
                Err(e) => result == Err::<Vec<(AccountId, Balance)>, RaffleError>(e),
            },
    {
        proof {
            use_type_invariant(self);
        }
        if self.next_era != era {
            return Err(RaffleError::IncorrectEra);
        }
        if total_rewards == 0 {
            return Err(RaffleError::NoReward);
        }
        let nb_winners = winners.len();
        if nb_winners == 0 {
            return Err(RaffleError::NoWinner);
        }
        let nb_ratio = self.ratio_distribution.len();
        if nb_ratio == 0 {
            return Err(RaffleError::NoRatioSet);
        }
        if nb_ratio < nb_winners {
            return Err(RaffleError::TooManyWinners);
        }
        let mut winners_and_rewards: Vec<(AccountId, Balance)> = Vec::new();
        let mut i: usize = 0;
        while i < nb_winners
            invariant
                i <= nb_winners,
                shares_fit(self.ratio_distribution@, i as int, total_rewards),
                winners_and_rewards@ == payouts(
                    winners@.take(i as int),
                    self.ratio_distribution@,
                    total_rewards,
                    self.total_ratio_distribution,
                ),
            decreases nb_winners - i,
        {
            let ratio = self.ratio_distribution[i];
            proof {
                assert(winners@.take(i + 1).drop_last() =~= winners@.take(i as int));
                lemma_sum_bounds_entry(self.ratio_distribution@, i as int);
            }
            if ratio != 0 {
                let product = match total_rewards.checked_mul(ratio) {
                    Some(product) => product,
                    None => {
                        assert(total_rewards * self.ratio_distribution@[i as int] > u128::MAX);
                        return Err(RaffleError::MulOverFlow);
                    },
                };
                let amount = match product.checked_div(self.total_ratio_distribution) {
                    Some(amount) => amount,
                    None => {
                        return Err(RaffleError::DivByZero);
                    },
                };
                winners_and_rewards.push((winners[i], amount));
            } else {
                assert(total_rewards * ratio == 0) by (nonlinear_arith)
                    requires
                        ratio == 0,
                ;
            }
            i += 1;
        }
        proof {
            assert(winners@.take(i as int) =~= winners@);
            lemma_sum_prefix(self@.ratio_distribution, winners@.len() as int);
            lemma_payouts_within_rewards(
                winners@,
                self@.ratio_distribution,
                total_rewards,
                self@.total_ratio_distribution,
            );
        }
        Ok(winners_and_rewards)
    }

    /// Settles `era`: computes what each ranked winner receives out of
    /// `total_rewards` and makes the era after it the next one. On any error
    /// the era does not advance.
    pub fn mark_raffle_done(
        &mut self,
        caller_is_manager: bool,
        era: u32,
        total_rewards: Balance,
        winners: &Vec<AccountId>,
    ) -> (result: Result<Vec<(AccountId, Balance)>, RaffleError>)
        ensures
            match settle_outcome(old(self)@, caller_is_manager, era, total_rewards, winners@) {
                Ok(p) => result is Ok && result->Ok_0@ == p && final(self)@ == (RaffleState {
                    next_era: (era + 1) as u32,
                    ..old(self)@
                }) && payout_total(p) <= total_rewards,
                Err(e) => result == Err::<Vec<(AccountId, Balance)>, RaffleError>(e)
                    && final(self)@ == old(self)@,
            },
    {
        let winners_and_rewards = match self.payouts_for(era, total_rewards, winners) {
            Ok(winners_and_rewards) => winners_and_rewards,
            Err(e) => {
                return Err(e);
            },
        };
        let next = match era.checked_add(1) {
            Some(next) => next,
            None => {
                return Err(RaffleError::AddOverFlow);
            },
        };
        match self.inner_set_next_era(caller_is_manager, next) {
            Ok(()) => {},
            Err(e) => {
                return Err(e);
            },
        }
        Ok(winners_and_rewards)
    }

    /// The raffle with the given ratio table and next era, or nothing where
    /// the ratios add up to more than `total_ratio` or are more than 65535.
    pub fn restore(ratio: Vec<Balance>, total_ratio: Balance, next_era: u32) -> (data: Option<
        RaffleData,
    >)
        ensures
            match data {
                Some(d) => sum(ratio@) <= total_ratio && ratio.len() <= u16::MAX && d@ == (
                RaffleState {
                    ratio_distribution: ratio@,
                    total_ratio_distribution: total_ratio,
                    next_era,
                }),
                None => sum(ratio@) > total_ratio || ratio.len() > u16::MAX,
            },
    {
        let mut data = RaffleData::new();
        match data.inner_set_ratio_distribution(true, ratio, total_ratio) {
            Ok(()) => {},
            Err(_) => {
                return None;
            },
        }
        let _ = data.inner_set_next_era(true, next_era);
        Some(data)
    }

    /// The entry of the key-value store that tells off-chain programs the
    /// next era: the key `NEXT_ERA` and the era, each in four bytes. Read
    /// back, it gives the next era.
    pub fn next_era_entry(&self) -> (entry: (Vec<u8>, Vec<u8>))
        ensures
            entry.0@ == le_bytes(NEXT_ERA as nat, 4),
            entry.1@ == le_bytes(self@.next_era as nat, 4),
            stored_next_era(Some(entry.1@)) == Ok::<u32, RaffleError>(self@.next_era),
    {
        proof {
            lemma_u32_round_trip(self.next_era);
        }
        (encode_u32(NEXT_ERA), encode_u32(self.next_era))
    }

    /// The entry of the key-value store that tells off-chain programs how
    /// many winners to choose: the key `NB_WINNERS` in four bytes and the
    /// number of ranks of the ratio table in two.
    pub fn nb_winners_entry(&self) -> (entry: (Vec<u8>, Vec<u8>))
        ensures
            entry.0@ == le_bytes(NB_WINNERS as nat, 4),
            entry.1@ == le_bytes(self@.ratio_distribution.len(), 2),
    {
        (encode_u32(NB_WINNERS), encode_u16(self.nb_winners()))
    }

    /// A raffle in the same state.
    pub fn duplicate(&self) -> (data: RaffleData)
        ensures
            data@ == self@,
    {
        proof {
            use_type_invariant(self);
        }
        let ratio_distribution = self.ratio_distribution.clone();
        assert(ratio_distribution@ =~= self.ratio_distribution@);
        RaffleData {
            ratio_distribution,
            total_ratio_distribution: self.total_ratio_distribution,
            next_era: self.next_era,
        }
    }
}

/// A ratio table whose entries add up to no more than the total ratio is
/// accepted from the manager, and one whose entries add up to more is
/// refused with `IncorrectRatio`.
pub proof fn lemma_ratio_is_checked_against_total(
    state: RaffleState,
    ratio: Seq<Balance>,
    total_ratio: Balance,
)
    requires
        ratio.len() <= u16::MAX,
    ensures
        sum(ratio) <= total_ratio ==> ratio_update(state, true, ratio, total_ratio) == Ok::<
            RaffleState,
            RaffleError,
        >(
            RaffleState {
                ratio_distribution: ratio,
                total_ratio_distribution: total_ratio,
                next_era: state.next_era,
            },
        ),
        sum(ratio) > total_ratio ==> ratio_update(state, true, ratio, total_ratio) == Err::<
            RaffleState,
            RaffleError,
        >(RaffleError::IncorrectRatio),
{
}

/// Only the era that is next can be skipped or settled: for any other era
/// both fail with `IncorrectEra`; and where either succeeds, the era after
/// it is next.
pub proof fn lemma_eras_come_in_turn(
    state: RaffleState,
    caller_is_manager: bool,
    era: u32,
    total_rewards: Balance,
    winners: Seq<AccountId>,
)
    ensures
        era != state.next_era ==> skip_outcome(state, caller_is_manager, era) == Err::<
            RaffleState,
            RaffleError,
        >(RaffleError::IncorrectEra),
        era != state.next_era ==> settle_outcome(
            state,
            caller_is_manager,
            era,
            total_rewards,
            winners,
        ) == Err::<Seq<(AccountId, Balance)>, RaffleError>(RaffleError::IncorrectEra),
        skip_outcome(state, caller_is_manager, era) is Ok ==> skip_outcome(
            state,
            caller_is_manager,
            era,
        )->Ok_0.next_era == era + 1,
        settle_outcome(state, caller_is_manager, era, total_rewards, winners) is Ok ==> era
            == state.next_era && era + 1 <= u32::MAX,
{
}

/// Where every ranked winner has a ratio, the payouts list the winners by
/// rank, each with `total_rewards * ratio / total_ratio`, rounded down.
pub proof fn lemma_payouts_by_rank(
    winners: Seq<AccountId>,
    ratios: Seq<Balance>,
    total_rewards: Balance,
    total_ratio: Balance,
)
    requires
        winners.len() <= ratios.len(),
        forall|i: int| 0 <= i < winners.len() ==> ratios[i] != 0,
    ensures
        payouts(winners, ratios, total_rewards, total_ratio).len() == winners.len(),
        forall|i: int|
            0 <= i < winners.len() ==> payouts(winners, ratios, total_rewards, total_ratio)[i] == (
                winners[i],
                ((total_rewards * ratios[i]) / (total_ratio as int)) as Balance,
            ),
    decreases winners.len(),
{
    if winners.len() > 0 {
        lemma_payouts_by_rank(winners.drop_last(), ratios, total_rewards, total_ratio);
    }
}

/// The total of a payout list, or nothing where it does not fit in 128 bits.
pub fn total_of(payouts: &Vec<(AccountId, Balance)>) -> (r: Option<Balance>)
    ensures
        match r {
            Some(t) => t == payout_total(payouts@),
            None => payout_total(payouts@) > u128::MAX,
        },
{
    let mut total: Balance = 0;
    let mut i: usize = 0;
    while i < payouts.len()
        invariant
            i <= payouts.len(),
            total == payout_total(payouts@.take(i as int)),
        decreases payouts.len() - i,
    {
        proof {
            assert(payouts@.take(i + 1).drop_last() =~= payouts@.take(i as int));
            lemma_payout_total_prefix(payouts@, i + 1);
        }
        match total.checked_add(payouts[i].1) {
            Some(t) => {
                total = t;
            },
            None => {
                return None;
            },
        }
        i += 1;
    }
    assert(payouts@.take(i as int) =~= payouts@);
    Some(total)
}

/// The total of a prefix of a payout list is at most the total of the list.
pub proof fn lemma_payout_total_prefix(p: Seq<(AccountId, Balance)>, n: int)
    requires
        0 <= n <= p.len(),
    ensures
        0 <= payout_total(p.take(n)) <= payout_total(p),
    decreases p.len(),
{
    if n == p.len() {
        assert(p.take(n) =~= p);
        if n > 0 {
            lemma_payout_total_prefix(p.drop_last(), n - 1);
        }
    } else {
        lemma_payout_total_prefix(p.drop_last(), n);
        assert(p.drop_last().take(n) =~= p.take(n));
    }
}

/// The payouts of a settlement never exceed the share of the pool that the
/// winners' ratios stand for: their total is at most
/// `total_rewards * (sum of the winners' ratios) / total_ratio`, hence at most
/// `total_rewards` whenever the ratios add up to no more than `total_ratio`.
pub proof fn lemma_payouts_within_rewards(
    winners: Seq<AccountId>,
    ratios: Seq<Balance>,
    total_rewards: Balance,
    total_ratio: Balance,
)
    requires
        winners.len() <= ratios.len(),
        sum(ratios.take(winners.len() as int)) <= total_ratio,
        shares_fit(ratios, winners.len() as int, total_rewards),
    ensures
        payout_total(payouts(winners, ratios, total_rewards, total_ratio)) * total_ratio
            <= total_rewards * sum(ratios.take(winners.len() as int)),
        payout_total(payouts(winners, ratios, total_rewards, total_ratio)) <= total_rewards,
    decreases winners.len(),
{
    let n = winners.len() as int;
    let p = payouts(winners, ratios, total_rewards, total_ratio);
    if n == 0 {
        assert(total_rewards * sum(ratios.take(0)) == 0) by (nonlinear_arith)
            requires
                sum(ratios.take(0)) == 0,
        ;
    } else {
        let i = n - 1;
        let before = payouts(winners.drop_last(), ratios, total_rewards, total_ratio);
        assert(ratios.take(n).drop_last() =~= ratios.take(i));
        assert(ratios.take(n).last() == ratios[i]);
        lemma_sum_nonnegative(ratios.take(i));
        lemma_payouts_within_rewards(winners.drop_last(), ratios, total_rewards, total_ratio);
        let sb = sum(ratios.take(i));
        let r = ratios[i];
        let t = total_rewards as int;
        let d = total_ratio as int;
        let pb = payout_total(before);
        assert(t * (sb + r) == t * sb + t * r) by (nonlinear_arith);
        if r == 0 {
            assert(p == before);
        } else {
            assert(d > 0);
            assert(t * r <= u128::MAX);
            let s = (t * r) / d;
            assert(s * d <= t * r && 0 <= s <= t * r) by (nonlinear_arith)
                requires
                    d > 0,
                    t * r >= 0,
                    s == (t * r) / d,
            ;
            assert(p == before.push((winners[i], s as Balance)));
            assert(p.drop_last() =~= before);
            assert(payout_total(p) == pb + s);
            assert((pb + s) * d == pb * d + s * d) by (nonlinear_arith);
        }
        let pt = payout_total(p);
        assert(pt * d <= t * (sb + r));
        if d > 0 {
            assert(pt <= t) by (nonlinear_arith)
                requires
                    pt * d <= t * (sb + r),
                    sb + r <= d,
                    d > 0,
                    t >= 0,
            ;
        } else {
            lemma_payouts_empty_without_ratio(winners, ratios, total_rewards, total_ratio);
        }
    }
}

/// Where the winners' ratios add up to zero, nobody is paid.
pub proof fn lemma_payouts_empty_without_ratio(
    winners: Seq<AccountId>,
    ratios: Seq<Balance>,
    total_rewards: Balance,
    total_ratio: Balance,
)
    requires
        winners.len() <= ratios.len(),
        sum(ratios.take(winners.len() as int)) <= 0,
    ensures
        payouts(winners, ratios, total_rewards, total_ratio) == Seq::<(AccountId, Balance)>::empty(),
    decreases winners.len(),
{
    let n = winners.len() as int;
    if n > 0 {
        assert(ratios.take(n).drop_last() =~= ratios.take(n - 1));
        lemma_sum_nonnegative(ratios.take(n - 1));
        lemma_payouts_empty_without_ratio(winners.drop_last(), ratios, total_rewards, total_ratio);
    }
}

} // verus!
