//! The raffle whose winners are chosen on chain: each winner is drawn from
//! the participant store with a fresh random value, then the era is settled
//! as for winners that an oracle supplies.

use vstd::prelude::*;
use crate::account::{AccountId, Balance};
use crate::error::RaffleError;
use crate::participant_manager::{weight, winner_of, Participant};
use crate::raffle::{settle_outcome, RaffleData, RaffleState};
use crate::random_generator::{draw_outcome, sample_of};

verus! {

/// The largest value of a draw from a store whose total weight is `total`:
/// draws range over the values below the total weight.
pub open spec fn draw_max(total: Balance) -> Balance {
    if total == 0 {
        0
    } else {
        (total - 1) as Balance
    }
}

/// Outcome of drawing `n` winners in a block with `block_timestamp`,
/// starting with the random source's counter at `salt`: the counter
/// afterwards, and the winners in the order drawn or the error of the first
/// draw that fails.
pub open spec fn selection_outcome(
    store: Seq<Participant>,
    salt: u64,
    caller_is_consumer: bool,
    block_timestamp: u64,
    n: nat,
) -> (u64, Result<Seq<AccountId>, RaffleError>)
    decreases n,
{
    if n == 0 {
        (salt, Ok(Seq::empty()))
    } else {
        match selection_outcome(store, salt, caller_is_consumer, block_timestamp, (n - 1) as nat) {
            (at, Err(e)) => (at, Err(e)),
            (at, Ok(winners)) => match draw_outcome(
                at,
                caller_is_consumer,
                sample_of(block_timestamp, at),
                0,
                draw_max(weight(store) as Balance),
            ) {
                (next, Err(e)) => (next, Err(RaffleError::RandomGeneratorError(e))),
                (next, Ok(value)) => match winner_of(store, value) {
                    None => (next, Err(RaffleError::NoSelectedParticipant)),
                    Some(winner) => (next, Ok(winners.push(winner))),
                },
            },
        }
    }
}

/// Outcome of a raffle whose winners are drawn on chain, one for each rank
/// of the ratio table: the random source's counter afterwards, and the
/// raffle's next state with the payouts, or the error.
pub open spec fn run_outcome(
    state: RaffleState,
    store: Seq<Participant>,
    salt: u64,
    caller_is_manager: bool,
    caller_is_consumer: bool,
    block_timestamp: u64,
    era: u32,
    total_rewards: Balance,
) -> (u64, Result<(RaffleState, Seq<(AccountId, Balance)>), RaffleError>) {
    if state.next_era != era {
        (salt, Err(RaffleError::IncorrectEra))
    } else if total_rewards == 0 {
        (salt, Err(RaffleError::NoReward))
    } else if state.ratio_distribution.len() == 0 {
        (salt, Err(RaffleError::NoRatioSet))
    } else if store.len() == 0 {
        (salt, Err(RaffleError::NoParticipant))
    } else {
        match selection_outcome(
            store,
            salt,
            caller_is_consumer,
            block_timestamp,
            state.ratio_distribution.len(),
        ) {
            (at, Err(e)) => (at, Err(e)),
            (at, Ok(winners)) => match settle_outcome(
                state,
                caller_is_manager,
                era,
                total_rewards,
                winners,
            ) {
                Err(e) => (at, Err(e)),
                Ok(p) => (at, Ok((RaffleState { next_era: (era + 1) as u32, ..state }, p))),
            },
        }
    }
}

/// Draws `nb_winners` winners from the participant store, each with a fresh
/// random value below the store's total weight. Fails with
/// `NoSelectedParticipant` where a draw selects nobody. The random source's
/// counter advances with every draw made.
pub fn select_winners(
    participants: &crate::participant_manager::Data,
    random: &mut crate::random_generator::Data,
    caller_is_consumer: bool,
    block_timestamp: u64,
    nb_winners: usize,
) -> (result: Result<Vec<AccountId>, RaffleError>)
    requires
        participants.wf(),
    ensures
        ({
            let (salt, outcome) = selection_outcome(
                participants@,
                old(random)@,
                caller_is_consumer,
                block_timestamp,
                nb_winners as nat,
            );
            &&& final(random)@ == salt
            &&& match outcome {
                Ok(winners) => result is Ok && result->Ok_0@ == winners,
                Err(e) => result == Err::<Vec<AccountId>, RaffleError>(e),
            }
        }),
{
    let total_value = participants.get_total_value();
    let max = if total_value == 0 {
        0
    } else {
        total_value - 1
    };
    let mut winners: Vec<AccountId> = Vec::new();
    let mut i: usize = 0;
    while i < nb_winners
        invariant
            i <= nb_winners,
            participants.wf(),
            total_value == weight(participants@),
            max == draw_max(total_value),
            selection_outcome(
                participants@,
                old(random)@,
                caller_is_consumer,
                block_timestamp,
                i as nat,
            ) == (random@, Ok::<Seq<AccountId>, RaffleError>(winners@)),
        decreases nb_winners - i,
    {
        let value = match random.get_random_number(caller_is_consumer, block_timestamp, 0, max) {
            Ok(value) => value,
            Err(e) => {
                proof {
                    lemma_selection_stops_at_first_failure(
                        participants@,
                        old(random)@,
                        caller_is_consumer,
                        block_timestamp,
                        (i + 1) as nat,
                        nb_winners as nat,
                    );
                }
                return Err(RaffleError::RandomGeneratorError(e));
            },
        };
        match participants.get_participant(value) {
            Some(winner) => {
                winners.push(winner);
            },
            None => {
                proof {
                    lemma_selection_stops_at_first_failure(
                        participants@,
                        old(random)@,
                        caller_is_consumer,
                        block_timestamp,
                        (i + 1) as nat,
                        nb_winners as nat,
                    );
                }
                return Err(RaffleError::NoSelectedParticipant);
            },
        }
        i += 1;
    }
    Ok(winners)
}

/// Once a draw has failed, no further draw is made: the outcome of drawing
/// more winners is that of the draws up to the failure.
pub proof fn lemma_selection_stops_at_first_failure(
    store: Seq<Participant>,
    salt: u64,
    caller_is_consumer: bool,
    block_timestamp: u64,
    n: nat,
    m: nat,
)
    requires
        n <= m,
        selection_outcome(store, salt, caller_is_consumer, block_timestamp, n).1 is Err,
    ensures
        selection_outcome(store, salt, caller_is_consumer, block_timestamp, m) == selection_outcome(
            store,
            salt,
            caller_is_consumer,
            block_timestamp,
            n,
        ),
    decreases m,
{
    if n < m {
        lemma_selection_stops_at_first_failure(
            store,
            salt,
            caller_is_consumer,
            block_timestamp,
            n,
            (m - 1) as nat,
        );
    }
}

/// Runs the raffle of `era` with winners drawn on chain: one winner for
/// each rank of the ratio table, then the settlement. The store must hold a
/// participant. On an error the era does not advance.
pub fn run_raffle(
    raffle: &mut RaffleData,
    participants: &crate::participant_manager::Data,
    random: &mut crate::random_generator::Data,
    caller_is_manager: bool,
    caller_is_consumer: bool,
    block_timestamp: u64,
    era: u32,
    total_rewards: Balance,
) -> (result: Result<Vec<(AccountId, Balance)>, RaffleError>)
    requires
        participants.wf(),
    ensures
        ({
            let (salt, outcome) = run_outcome(
                old(raffle)@,
                participants@,
                old(random)@,
                caller_is_manager,
                caller_is_consumer,
                block_timestamp,
                era,
                total_rewards,
            );
            &&& final(random)@ == salt
            &&& match outcome {
                Ok((state, p)) => result is Ok && result->Ok_0@ == p && final(raffle)@ == state,
                Err(e) => result == Err::<Vec<(AccountId, Balance)>, RaffleError>(e)
                    && final(raffle)@ == old(raffle)@,
            }
        }),
{
    match raffle.inner_get_next_era() {
        Ok(next_era) => {
            if next_era != era {
                return Err(RaffleError::IncorrectEra);
            }
        },
        Err(e) => {
            return Err(e);
        },
    }
    if total_rewards == 0 {
        return Err(RaffleError::NoReward);
    }
    let nb_winners = raffle.nb_winners();
    if nb_winners == 0 {
        return Err(RaffleError::NoRatioSet);
    }
    if participants.get_nb_participants() == 0 {
        return Err(RaffleError::NoParticipant);
    }
    let winners = match select_winners(
        participants,
        random,
        caller_is_consumer,
        block_timestamp,
        nb_winners as usize,
    ) {
        Ok(winners) => winners,
        Err(e) => {
            return Err(e);
        },
    };
    raffle.mark_raffle_done(caller_is_manager, era, total_rewards, &winners)
}

} // verus!
