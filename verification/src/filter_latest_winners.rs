//! The latest winners, kept so that they can be left out of the next draws.

use std::collections::VecDeque;
use vstd::prelude::*;
use crate::account::AccountId;
use crate::error::{AccessControlError, RaffleError};
use crate::scale::{encode_accounts, encode_u32, encoded_accounts, le_bytes};

verus! {

/// Key under which the host's key-value store holds the latest winners.
pub const LAST_WINNERS: u32 = 970626621;

/// The mathematical state of the filter: how many winners it keeps, and the
/// winners it holds, oldest first.
pub struct FilterState {
    pub nb_filtered_winners: u16,
    pub last_winners: Seq<AccountId>,
}

/// The winners held after `winner` has been recorded: it joins at the back,
/// and where that makes more than `nb_filtered_winners`, the oldest leaves.
pub open spec fn recorded(state: FilterState, winner: AccountId) -> FilterState {
    let joined = state.last_winners.push(winner);
    FilterState {
        nb_filtered_winners: state.nb_filtered_winners,
        last_winners: if joined.len() > state.nb_filtered_winners {
            joined.drop_first()
        } else {
            joined
        },
    }
}

/// The winners held after each of `winners` has been recorded in turn.
pub open spec fn recorded_all(state: FilterState, winners: Seq<AccountId>) -> FilterState
    decreases winners.len(),
{
    if winners.len() == 0 {
        state
    } else {
        recorded(recorded_all(state, winners.drop_last()), winners.last())
    }
}

/// The latest winners of a raffle.
#[derive(Debug)]
pub struct FilterLatestWinnersData {
    nb_filtered_winners: u16,
    last_winners: VecDeque<AccountId>,
}

impl View for FilterLatestWinnersData {
    type V = FilterState;

    closed spec fn view(&self) -> FilterState {
        FilterState {
            nb_filtered_winners: self.nb_filtered_winners,
            last_winners: self.last_winners@,
        }
    }
}

impl FilterLatestWinnersData {
    /// A filter that keeps no winner.
    pub fn new() -> (data: FilterLatestWinnersData)
        ensures
            data@ == (FilterState { nb_filtered_winners: 0, last_winners: Seq::empty() }),
    {
        FilterLatestWinnersData { nb_filtered_winners: 0, last_winners: VecDeque::new() }
    }

    /// The filter that keeps `nb_filtered_winners` winners and holds
    /// `last_winners`, oldest first.
    pub fn restore(nb_filtered_winners: u16, last_winners: &Vec<AccountId>) -> (data:
        FilterLatestWinnersData)
        ensures
            data@ == (FilterState { nb_filtered_winners, last_winners: last_winners@ }),
    {
        let mut held: VecDeque<AccountId> = VecDeque::new();
        let mut i: usize = 0;
        while i < last_winners.len()
            invariant
                i <= last_winners.len(),
                held@ == last_winners@.take(i as int),
            decreases last_winners.len() - i,
        {
            held.push_back(last_winners[i]);
            assert(held@ =~= last_winners@.take(i + 1));
            i += 1;
        }
        assert(last_winners@.take(i as int) =~= last_winners@);
        FilterLatestWinnersData { nb_filtered_winners, last_winners: held }
    }

    /// A filter in the same state.
    pub fn duplicate(&self) -> (data: FilterLatestWinnersData)
        ensures
            data@ == self@,
    {
        let last_winners = self.last_winners.clone();
        assert(last_winners@ =~= self.last_winners@);
        FilterLatestWinnersData { nb_filtered_winners: self.nb_filtered_winners, last_winners }
    }

    /// Sets how many winners are kept. The winners already held stay.
    pub fn inner_set_nb_winners_filtered(
        &mut self,
        caller_is_manager: bool,
        nb_filtered_winners: u16,
    ) -> (result: Result<(), RaffleError>)
        ensures
            caller_is_manager ==> result is Ok && final(self)@ == (FilterState {
                nb_filtered_winners,
                last_winners: old(self)@.last_winners,
            }),
            !caller_is_manager ==> result == Err::<(), RaffleError>(
                RaffleError::AccessControlError(AccessControlError::MissingRole),
            ) && final(self)@ == old(self)@,
    {
        if !caller_is_manager {
            return Err(RaffleError::AccessControlError(AccessControlError::MissingRole));
        }
        self.nb_filtered_winners = nb_filtered_winners;
        Ok(())
    }

    /// How many winners are kept.
    pub fn inner_get_nb_winners_filtered(&self) -> (nb: u16)
        ensures
            nb == self@.nb_filtered_winners,
    {
        self.nb_filtered_winners
    }

    /// Records a winner as the latest one; the oldest leaves when more than
    /// the configured number are held.
    pub fn add_winner(&mut self, winner: AccountId)
        ensures
            final(self)@ == recorded(old(self)@, winner),
    {
        self.last_winners.push_back(winner);
        if self.last_winners.len() > self.nb_filtered_winners as usize {
            let _ = self.last_winners.pop_front();
            assert(self.last_winners@ =~= old(self)@.last_winners.push(winner).drop_first());
        }
    }

    /// Records each of `winners` in turn.
    pub fn add_winners(&mut self, winners: &Vec<AccountId>)
        ensures
            final(self)@ == recorded_all(old(self)@, winners@),
    {
        let mut i: usize = 0;
        while i < winners.len()
            invariant
                i <= winners.len(),
                self@ == recorded_all(old(self)@, winners@.take(i as int)),
            decreases winners.len() - i,
        {
            assert(winners@.take(i + 1).drop_last() =~= winners@.take(i as int));
            self.add_winner(winners[i]);
            i += 1;
        }
        assert(winners@.take(i as int) =~= winners@);
    }

    /// The winners held, oldest first.
    pub fn inner_get_last_winners(&self) -> (winners: Vec<AccountId>)
        ensures
            winners@ == self@.last_winners,
    {
        let mut winners: Vec<AccountId> = Vec::new();
        let mut i: usize = 0;
        while i < self.last_winners.len()
            invariant
                i <= self.last_winners.len(),
                winners@ == self.last_winners@.take(i as int),
            decreases self.last_winners.len() - i,
        {
            winners.push(self.last_winners[i]);
            assert(winners@ =~= self.last_winners@.take(i + 1));
            i += 1;
        }
        assert(self.last_winners@.take(i as int) =~= self.last_winners@);
        winners
    }

    /// The entry of the key-value store that tells off-chain programs whom
    /// to leave out of the next draw: the key `LAST_WINNERS` in four bytes
    /// and the encoded list of the winners held. Nothing where the winners
    /// are too many for their number to be written.
    pub fn last_winners_entry(&self) -> (entry: Option<(Vec<u8>, Vec<u8>)>)
        ensures
            match entry {
                Some((key, value)) => self@.last_winners.len() <= u32::MAX && key@ == le_bytes(
                    LAST_WINNERS as nat,
                    4,
                ) && value@ == encoded_accounts(self@.last_winners),
                None => self@.last_winners.len() > u32::MAX,
            },
    {
        let excluded_addresses = self.inner_get_last_winners();
        match encode_accounts(&excluded_addresses) {
            Some(value) => Some((encode_u32(LAST_WINNERS), value)),
            None => None,
        }
    }

    /// Records a winner on the manager's request.
    pub fn inner_add_address_in_last_winner(
        &mut self,
        caller_is_manager: bool,
        winner: AccountId,
    ) -> (result: Result<(), RaffleError>)
        ensures
            caller_is_manager ==> result is Ok && final(self)@ == recorded(old(self)@, winner),
            !caller_is_manager ==> result == Err::<(), RaffleError>(
                RaffleError::AccessControlError(AccessControlError::MissingRole),
            ) && final(self)@ == old(self)@,
    {
        if !caller_is_manager {
            return Err(RaffleError::AccessControlError(AccessControlError::MissingRole));
        }
        self.add_winner(winner);
        Ok(())
    }
}

} // verus!
