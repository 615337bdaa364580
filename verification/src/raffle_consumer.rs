//! The raffle contract: the raffle engine and the latest-winners filter
//! behind the oracle bridge and the meta-transaction relay. Attested
//! messages settle or skip eras; each settlement tells the host which
//! payout calls to make.

use vstd::prelude::*;
use crate::account::{AccountId, Balance};
use crate::account_map::{accounts_of, map_of, Entry};
use crate::error::{AccessControlError, RaffleError, RollupClientError};
use crate::filter_latest_winners::{
    LAST_WINNERS,
    recorded,
    recorded_all,
    FilterLatestWinnersData,
    FilterState,
};
use crate::message::{
    decode_request,
    decode_response,
    parse_request,
    parse_response,
    RaffleResponseMessage,
    ResponseView,
};
use crate::meta_transaction::{
    accept_outcome,
    next_nonce,
    request_hash,
    ForwardRequest,
    MetaTransactionData,
};
use crate::raffle::{
    NB_WINNERS,
    NEXT_ERA,
    payout_total,
    ratio_update,
    settle_outcome,
    skip_outcome,
    total_of,
    RaffleData,
    RaffleState,
};
use crate::rollup_anchor::{
    check_conditions,
    condition_met,
    hashes_match,
    pop_outcome,
    AnchorState,
    Condition,
    Hash32,
    Payload,
    ResponseEnvelope,
    RollupAnchorData,
};
use crate::scale::{encoded_accounts, le_bytes};

verus! {

/// Selector of the funding contract's `withdraw`.
pub const WITHDRAW_SELECTOR: [u8; 4] = [0x41, 0x0f, 0xcc, 0x9d];

/// Selector of the reward ledger's `fund_rewards_and_add_winners`.
pub const FUND_REWARDS_AND_WINNERS_SELECTOR: [u8; 4] = [0xc2, 0x18, 0xe5, 0xba];

/// Notification that the raffle of an era is done.
#[derive(Clone, Copy, Debug)]
pub struct RaffleDone {
    pub contract: AccountId,
    pub era: u32,
    pub pending_rewards: Balance,
    pub nb_winners: u16,
}

/// Notification that the raffle of an era was skipped.
#[derive(Clone, Copy, Debug)]
pub struct RaffleSkipped {
    pub contract: AccountId,
    pub era: u32,
}

/// Notification that the oracle could not compute an era.
#[derive(Debug)]
pub struct ErrorReceived {
    /// Era requested.
    pub era: u32,
    /// What the oracle reported.
    pub error: Vec<u8>,
    /// When the error was received.
    pub timestamp: u64,
}

/// A settlement, and the payout calls that the host makes for it: first
/// `withdraw(given_rewards)` on the funding contract, then
/// `fund_rewards_and_add_winners(era, winners_rewards)` on the reward
/// ledger's contract, with `given_rewards` attached.
#[derive(Debug)]
pub struct Settlement {
    pub dapps_staking_developer_address: AccountId,
    pub reward_manager_address: AccountId,
    pub given_rewards: Balance,
    pub era: u32,
    pub winners_rewards: Vec<(AccountId, Balance)>,
    pub event: RaffleDone,
}

/// What became of a response.
#[derive(Debug)]
pub enum Saved {
    Skipped(RaffleSkipped),
    Done(Settlement),
}

/// What became of one action of a batch.
#[derive(Debug)]
pub enum Received {
    /// A response settled or skipped its era.
    Saved(Saved),
    /// The oracle reported an error; the raffle engine was not called.
    Error(ErrorReceived),
    /// The pointer to the processed messages moved.
    ProcessedTo(u32),
}

/// One action of a batch.
#[derive(Debug)]
pub enum HandleActionInput {
    /// An encoded response.
    Reply(Vec<u8>),
    /// An attested message around an encoded response.
    AttestedReply(ResponseEnvelope),
    /// The messages up to this one have been processed.
    SetQueueHead(u32),
}

/// The mathematical value of a settlement.
pub struct SettlementView {
    pub dapps_staking_developer_address: AccountId,
    pub reward_manager_address: AccountId,
    pub given_rewards: Balance,
    pub era: u32,
    pub winners_rewards: Seq<(AccountId, Balance)>,
    pub event: RaffleDone,
}

/// The mathematical value of what became of a response.
pub enum SavedView {
    Skipped(RaffleSkipped),
    Done(SettlementView),
}

/// The mathematical value of what became of an action.
pub enum ReceivedView {
    Saved(SavedView),
    Error { era: u32, error: Seq<u8>, timestamp: u64 },
    ProcessedTo(u32),
}

impl View for Settlement {
    type V = SettlementView;

    open spec fn view(&self) -> SettlementView {
        SettlementView {
            dapps_staking_developer_address: self.dapps_staking_developer_address,
            reward_manager_address: self.reward_manager_address,
            given_rewards: self.given_rewards,
            era: self.era,
            winners_rewards: self.winners_rewards@,
            event: self.event,
        }
    }
}

impl View for Saved {
    type V = SavedView;

    open spec fn view(&self) -> SavedView {
        match self {
            Saved::Skipped(event) => SavedView::Skipped(*event),
            Saved::Done(settlement) => SavedView::Done(settlement@),
        }
    }
}

impl View for Received {
    type V = ReceivedView;

    open spec fn view(&self) -> ReceivedView {
        match self {
            Received::Saved(saved) => ReceivedView::Saved(saved@),
            Received::Error(e) => ReceivedView::Error {
                era: e.era,
                error: e.error@,
                timestamp: e.timestamp,
            },
            Received::ProcessedTo(id) => ReceivedView::ProcessedTo(*id),
        }
    }
}

/// The values of a list of results.
pub open spec fn views(results: Seq<Received>) -> Seq<ReceivedView> {
    Seq::new(results.len(), |i: int| results[i]@)
}

/// The mathematical state of the contract.
pub struct ConsumerState {
    pub dapps_staking_developer_address: Option<AccountId>,
    pub reward_manager_address: Option<AccountId>,
    pub raffle: RaffleState,
    pub filter: FilterState,
    pub nonces: Map<AccountId, u128>,
    pub anchor: AnchorState,
}

/// Who calls, and what it may do.
#[derive(Clone, Copy, Debug)]
pub struct Caller {
    pub account: AccountId,
    /// Whether the caller holds the capability to submit oracle data.
    pub is_attestor: bool,
    /// Whether the caller holds the capability to manage the raffle.
    pub is_raffle_manager: bool,
}

/// Outcome of a response: the next state and what the host has to do, or
/// the error.
pub open spec fn response_outcome(
    state: ConsumerState,
    caller: Caller,
    response: ResponseView,
) -> Result<(ConsumerState, SavedView), RaffleError> {
    if response.skipped {
        match skip_outcome(state.raffle, caller.is_raffle_manager, response.era) {
            Err(e) => Err(e),
            Ok(raffle) => Ok(
                (
                    ConsumerState { raffle, ..state },
                    SavedView::Skipped(RaffleSkipped { contract: caller.account, era: response.era }),
                ),
            ),
        }
    } else {
        match settle_outcome(
            state.raffle,
            caller.is_raffle_manager,
            response.era,
            response.rewards,
            response.winners,
        ) {
            Err(e) => Err(e),
            Ok(p) => if state.dapps_staking_developer_address is None {
                Err(RaffleError::DappsStakingDeveloperAddressMissing)
            } else if state.reward_manager_address is None {
                Err(RaffleError::RewardManagerAddressMissing)
            } else {
                Ok(
                    (
                        ConsumerState {
                            raffle: RaffleState {
                                next_era: (response.era + 1) as u32,
                                ..state.raffle
                            },
                            filter: recorded_all(state.filter, response.winners),
                            ..state
                        },
                        SavedView::Done(
                            SettlementView {
                                dapps_staking_developer_address:
                                    state.dapps_staking_developer_address->Some_0,
                                reward_manager_address: state.reward_manager_address->Some_0,
                                given_rewards: payout_total(p) as Balance,
                                era: response.era,
                                winners_rewards: p,
                                event: RaffleDone {
                                    contract: caller.account,
                                    era: response.era,
                                    pending_rewards: response.rewards,
                                    nb_winners: response.winners.len() as u16,
                                },
                            },
                        ),
                    ),
                )
            },
        }
    }
}

/// Outcome of an encoded response.
pub open spec fn message_outcome(state: ConsumerState, caller: Caller, action: Seq<u8>) -> Result<
    (ConsumerState, SavedView),
    RollupClientError,
> {
    match parse_response(action) {
        None => Err(RollupClientError::FailedToDecode),
        Some(response) => match response_outcome(state, caller, response) {
            Err(e) => Err(RollupClientError::RaffleError(e)),
            Ok(done) => Ok(done),
        },
    }
}

/// Outcome of an attested message received at `timestamp`.
pub open spec fn envelope_outcome(
    state: ConsumerState,
    caller: Caller,
    timestamp: u64,
    envelope: ResponseEnvelope,
) -> Result<(ConsumerState, ReceivedView), RollupClientError> {
    if !hashes_match(state.anchor, envelope.js_script_hash, envelope.settings_hash) {
        Err(RollupClientError::HashMismatch)
    } else {
        match envelope.output {
            Payload::Output(bytes) => match message_outcome(state, caller, bytes@) {
                Err(e) => Err(e),
                Ok((next, saved)) => Ok((next, ReceivedView::Saved(saved))),
            },
            Payload::Error(error) => match parse_request(envelope.input@) {
                None => Err(RollupClientError::FailedToDecode),
                Some(request) => Ok(
                    (state, ReceivedView::Error { era: request.era, error: error@, timestamp }),
                ),
            },
        }
    }
}

/// Outcome of one action of a batch.
pub open spec fn action_outcome(
    state: ConsumerState,
    caller: Caller,
    timestamp: u64,
    action: HandleActionInput,
) -> Result<(ConsumerState, ReceivedView), RollupClientError> {
    match action {
        HandleActionInput::Reply(bytes) => match message_outcome(state, caller, bytes@) {
            Err(e) => Err(e),
            Ok((next, saved)) => Ok((next, ReceivedView::Saved(saved))),
        },
        HandleActionInput::AttestedReply(envelope) => envelope_outcome(
            state,
            caller,
            timestamp,
            envelope,
        ),
        HandleActionInput::SetQueueHead(id) => match pop_outcome(state.anchor, id) {
            Err(e) => Err(e),
            Ok(anchor) => Ok((ConsumerState { anchor, ..state }, ReceivedView::ProcessedTo(id))),
        },
    }
}

/// Outcome of the actions of a batch, applied in order: the state after the
/// last one and what became of each, or the error of the first that fails.
pub open spec fn actions_outcome(
    state: ConsumerState,
    caller: Caller,
    timestamp: u64,
    actions: Seq<HandleActionInput>,
) -> Result<(ConsumerState, Seq<ReceivedView>), RollupClientError>
    decreases actions.len(),
{
    if actions.len() == 0 {
        Ok((state, Seq::empty()))
    } else {
        match actions_outcome(state, caller, timestamp, actions.drop_last()) {
            Err(e) => Err(e),
            Ok((before, results)) => match action_outcome(before, caller, timestamp, actions.last()) {
                Err(e) => Err(e),
                Ok((next, result)) => Ok((next, results.push(result))),
            },
        }
    }
}

/// Whether every condition of a batch is met.
pub open spec fn conditions_met(conditions: Seq<Condition>) -> bool {
    forall|i: int| 0 <= i < conditions.len() ==> condition_met(#[trigger] conditions[i])
}

/// Outcome of a batch: only an attestor may submit one, its conditions must
/// be met, and it is applied as a whole or not at all.
pub open spec fn batch_outcome(
    state: ConsumerState,
    caller: Caller,
    timestamp: u64,
    conditions: Seq<Condition>,
    actions: Seq<HandleActionInput>,
) -> Result<(ConsumerState, Seq<ReceivedView>), RollupClientError> {
    if !caller.is_attestor {
        Err(RollupClientError::AccessControlError(AccessControlError::MissingRole))
    } else if !conditions_met(conditions) {
        Err(RollupClientError::CondNotMet)
    } else {
        actions_outcome(state, caller, timestamp, actions)
    }
}

/// The conditions and the actions of a batch.
#[derive(Debug)]
pub struct Batch {
    pub conditions: Vec<Condition>,
    pub actions: Vec<HandleActionInput>,
}

/// Outcome of relaying a request: the error with which it is refused, or
/// the state after it was consumed and its batch applied, with what became
/// of the batch.
pub open spec fn relay_outcome(
    state: ConsumerState,
    request: ForwardRequest,
    signature_valid: bool,
    signer_is_attestor: bool,
    signer_is_raffle_manager: bool,
    timestamp: u64,
    batch: Option<&Batch>,
) -> Result<(ConsumerState, Result<Seq<ReceivedView>, RollupClientError>), RollupClientError> {
    match accept_outcome(state.nonces, request.from, request.nonce, signature_valid) {
        Err(e) => Err(e),
        Ok(nonces) => {
            let consumed = ConsumerState { nonces, ..state };
            let signer = Caller {
                account: request.from,
                is_attestor: signer_is_attestor,
                is_raffle_manager: signer_is_raffle_manager,
            };
            match batch {
                None => Ok((consumed, Err(RollupClientError::FailedToDecode))),
                Some(b) => match batch_outcome(
                    consumed,
                    signer,
                    timestamp,
                    b.conditions@,
                    b.actions@,
                ) {
                    Ok((next, received)) => Ok((next, Ok(received))),
                    Err(e) => Ok((consumed, Err(e))),
                },
            }
        },
    }
}

/// The raffle contract.
#[derive(Debug)]
pub struct Contract {
    dapps_staking_developer_address: Option<AccountId>,
    reward_manager_address: Option<AccountId>,
    raffle: RaffleData,
    filter_latest_winners: FilterLatestWinnersData,
    meta_transaction: MetaTransactionData,
    rollup_anchor: RollupAnchorData,
}

impl View for Contract {
    type V = ConsumerState;

    closed spec fn view(&self) -> ConsumerState {
        ConsumerState {
            dapps_staking_developer_address: self.dapps_staking_developer_address,
            reward_manager_address: self.reward_manager_address,
            raffle: self.raffle@,
            filter: self.filter_latest_winners@,
            nonces: self.meta_transaction@,
            anchor: self.rollup_anchor@,
        }
    }
}

/// The error with which a settlement fails when one of its payout calls
/// fails: the first call is the withdrawal, the second the funding.
pub fn call_error(first_call: bool) -> (e: RaffleError)
    ensures
        e == if first_call {
            RaffleError::CrossContractCallError1
        } else {
            RaffleError::CrossContractCallError2
        },
{
    if first_call {
        RaffleError::CrossContractCallError1
    } else {
        RaffleError::CrossContractCallError2
    }
}

impl Contract {
    /// A contract that pays out through the two given contracts: no ratio
    /// set, era 0 next, no winner recorded, no request relayed, no message
    /// processed.
    pub fn new(
        dapps_staking_developer_address: AccountId,
        reward_manager_address: AccountId,
    ) -> (contract: Contract)
        ensures
            contract@.dapps_staking_developer_address == Some(dapps_staking_developer_address),
            contract@.reward_manager_address == Some(reward_manager_address),
            contract@.raffle == (RaffleState {
                ratio_distribution: Seq::empty(),
                total_ratio_distribution: 0,
                next_era: 0,
            }),
            contract@.filter == (FilterState { nb_filtered_winners: 0, last_winners: Seq::empty() }),
            contract@.nonces == Map::<AccountId, u128>::empty(),
            contract@.anchor == (AnchorState {
                js_script_hash: None,
                settings_hash: None,
                queue_head: 0,
            }),
    {
        Contract {
            dapps_staking_developer_address: Some(dapps_staking_developer_address),
            reward_manager_address: Some(reward_manager_address),
            raffle: RaffleData::new(),
            filter_latest_winners: FilterLatestWinnersData::new(),
            meta_transaction: MetaTransactionData::new(),
            rollup_anchor: RollupAnchorData::new(),
        }
    }

    /// The contract made of the given parts.
    pub fn restore(
        dapps_staking_developer_address: Option<AccountId>,
        reward_manager_address: Option<AccountId>,
        raffle: RaffleData,
        filter_latest_winners: FilterLatestWinnersData,
        meta_transaction: MetaTransactionData,
        rollup_anchor: RollupAnchorData,
    ) -> (contract: Contract)
        ensures
            contract@ == (ConsumerState {
                dapps_staking_developer_address,
                reward_manager_address,
                raffle: raffle@,
                filter: filter_latest_winners@,
                nonces: meta_transaction@,
                anchor: rollup_anchor@,
            }),
    {
        Contract {
            dapps_staking_developer_address,
            reward_manager_address,
            raffle,
            filter_latest_winners,
            meta_transaction,
            rollup_anchor,
        }
    }

    /// The entries of the key-value store that tell off-chain programs the
    /// next era, how many winners to choose and whom to leave out. Nothing
    /// where the latest winners are too many for their number to be written.
    pub fn kv_entries(&self) -> (entries: Option<Vec<(Vec<u8>, Vec<u8>)>>)
        ensures
            match entries {
                Some(e) => {
                    &&& self@.filter.last_winners.len() <= u32::MAX
                    &&& e@.len() == 3
                    &&& e@[0].0@ == le_bytes(NEXT_ERA as nat, 4)
                    &&& e@[0].1@ == le_bytes(self@.raffle.next_era as nat, 4)
                    &&& e@[1].0@ == le_bytes(NB_WINNERS as nat, 4)
                    &&& e@[1].1@ == le_bytes(self@.raffle.ratio_distribution.len(), 2)
                    &&& e@[2].0@ == le_bytes(LAST_WINNERS as nat, 4)
                    &&& e@[2].1@ == encoded_accounts(self@.filter.last_winners)
                },
                None => self@.filter.last_winners.len() > u32::MAX,
            },
    {
        let last_winners = match self.filter_latest_winners.last_winners_entry() {
            Some(entry) => entry,
            None => {
                return None;
            },
        };
        let mut entries: Vec<(Vec<u8>, Vec<u8>)> = Vec::new();
        entries.push(self.raffle.next_era_entry());
        entries.push(self.raffle.nb_winners_entry());
        entries.push(last_winners);
        Some(entries)
    }

    /// The next nonce of each signer that has made a request.
    pub fn get_nonces(&self) -> (entries: Vec<Entry>)
        ensures
            accounts_of(entries@).no_duplicates(),
            map_of(entries@) == self@.nonces,
    {
        self.meta_transaction.nonces()
    }

    /// The hashes that attested messages must carry: that of the program,
    /// then that of its settings.
    pub fn get_expected_hashes(&self) -> (hashes: (Option<Hash32>, Option<Hash32>))
        ensures
            hashes.0 == self@.anchor.js_script_hash,
            hashes.1 == self@.anchor.settings_hash,
    {
        (self.rollup_anchor.get_js_script_hash(), self.rollup_anchor.get_settings_hash())
    }

    /// A contract in the same state.
    pub fn duplicate(&self) -> (contract: Contract)
        ensures
            contract@ == self@,
    {
        Contract {
            dapps_staking_developer_address: self.dapps_staking_developer_address,
            reward_manager_address: self.reward_manager_address,
            raffle: self.raffle.duplicate(),
            filter_latest_winners: self.filter_latest_winners.duplicate(),
            meta_transaction: self.meta_transaction.duplicate(),
            rollup_anchor: self.rollup_anchor.duplicate(),
        }
    }

    /// Applies a response of the oracle: skips its era, or settles it. A
    /// settlement shares the rewards among the winners, records the winners
    /// as the latest ones and returns the payout calls for the host to make.
    /// On an error nothing is changed.
    pub fn save_response(&mut self, caller: Caller, response: &RaffleResponseMessage) -> (result:
        Result<Saved, RaffleError>)
        ensures
            match response_outcome(old(self)@, caller, response@) {
                Ok((state, saved)) => result is Ok && result->Ok_0@ == saved && final(self)@
                    == state,
                Err(e) => result == Err::<Saved, RaffleError>(e) && final(self)@ == old(self)@,
            },
    {
        if response.skipped {
            match self.raffle.skip_raffle(caller.is_raffle_manager, response.era) {
                Ok(()) => {},
                Err(e) => {
                    return Err(e);
                },
            }
            return Ok(Saved::Skipped(RaffleSkipped { contract: caller.account, era: response.era }));
        }
        let winners_rewards = match self.raffle.payouts_for(
            response.era,
            response.rewards,
            &response.winners,
        ) {
            Ok(winners_rewards) => winners_rewards,
            Err(e) => {
                return Err(e);
            },
        };
        let next_era = match response.era.checked_add(1) {
            Some(next_era) => next_era,
            None => {
                return Err(RaffleError::AddOverFlow);
            },
        };
        if !caller.is_raffle_manager {
            return Err(RaffleError::AccessControlError(AccessControlError::MissingRole));
        }
        let given_rewards = match total_of(&winners_rewards) {
            Some(given_rewards) => given_rewards,
            None => {
                return Err(RaffleError::AddOverFlow);
            },
        };
        let dapps_staking_developer_address = match self.dapps_staking_developer_address {
            Some(address) => address,
            None => {
                return Err(RaffleError::DappsStakingDeveloperAddressMissing);
            },
        };
        let reward_manager_address = match self.reward_manager_address {
            Some(address) => address,
            None => {
                return Err(RaffleError::RewardManagerAddressMissing);
            },
        };
        let nb_winners = response.winners.len();
        if nb_winners > 65535 {
            return Err(RaffleError::TryFromIntError);
        }
        let _ = self.raffle.inner_set_next_era(caller.is_raffle_manager, next_era);
        self.filter_latest_winners.add_winners(&response.winners);
        Ok(
            Saved::Done(
                Settlement {
                    dapps_staking_developer_address,
                    reward_manager_address,
                    given_rewards,
                    era: response.era,
                    winners_rewards,
                    event: RaffleDone {
                        contract: caller.account,
                        era: response.era,
                        pending_rewards: response.rewards,
                        nb_winners: nb_winners as u16,
                    },
                },
            ),
        )
    }

    /// Decodes a response of the oracle and applies it. Fails with
    /// `FailedToDecode` where the bytes do not start with a response.
    pub fn on_message_received(&mut self, caller: Caller, action: &Vec<u8>) -> (result: Result<
        Saved,
        RollupClientError,
    >)
        ensures
            match message_outcome(old(self)@, caller, action@) {
                Ok((state, saved)) => result is Ok && result->Ok_0@ == saved && final(self)@
                    == state,
                Err(e) => result == Err::<Saved, RollupClientError>(e) && final(self)@ == old(self)@,
            },
    {
        let response = match decode_response(action) {
            Some(response) => response,
            None => {
                return Err(RollupClientError::FailedToDecode);
            },
        };
        match self.save_response(caller, &response) {
            Ok(saved) => Ok(saved),
            Err(e) => Err(RollupClientError::RaffleError(e)),
        }
    }

    /// Applies an attested message received at `timestamp`. It is refused
    /// with `HashMismatch`, before anything in it is decoded, unless it
    /// carries both expected hashes. A response is then decoded and applied;
    /// an error that the oracle reported is turned into a notification, and
    /// the raffle engine is not called.
    pub fn on_attested_message_received(
        &mut self,
        caller: Caller,
        timestamp: u64,
        envelope: &ResponseEnvelope,
    ) -> (result: Result<Received, RollupClientError>)
        ensures
            match envelope_outcome(old(self)@, caller, timestamp, *envelope) {
                Ok((state, received)) => result is Ok && result->Ok_0@ == received && final(self)@
                    == state,
                Err(e) => result == Err::<Received, RollupClientError>(e) && final(self)@ == old(self)@,
            },
    {
        match self.rollup_anchor.check_hashes(envelope) {
            Ok(()) => {},
            Err(e) => {
                return Err(e);
            },
        }
        match &envelope.output {
            Payload::Output(bytes) => match self.on_message_received(caller, bytes) {
                Ok(saved) => Ok(Received::Saved(saved)),
                Err(e) => Err(e),
            },
            Payload::Error(error) => match decode_request(&envelope.input) {
                Some(request) => Ok(
                    Received::Error(
                        ErrorReceived { era: request.era, error: error.clone(), timestamp },
                    ),
                ),
                None => Err(RollupClientError::FailedToDecode),
            },
        }
    }

    /// Applies one action of a batch.
    pub fn handle_action(
        &mut self,
        caller: Caller,
        timestamp: u64,
        action: &HandleActionInput,
    ) -> (result: Result<Received, RollupClientError>)
        ensures
            match action_outcome(old(self)@, caller, timestamp, *action) {
                Ok((state, received)) => result is Ok && result->Ok_0@ == received && final(self)@
                    == state,
                Err(e) => result == Err::<Received, RollupClientError>(e) && final(self)@ == old(self)@,
            },
    {
        match action {
            HandleActionInput::Reply(bytes) => match self.on_message_received(caller, bytes) {
                Ok(saved) => Ok(Received::Saved(saved)),
                Err(e) => Err(e),
            },
            HandleActionInput::AttestedReply(envelope) => self.on_attested_message_received(
                caller,
                timestamp,
                envelope,
            ),
            HandleActionInput::SetQueueHead(id) => match self.rollup_anchor.pop_to(*id) {
                Ok(()) => Ok(Received::ProcessedTo(*id)),
                Err(e) => Err(e),
            },
        }
    }

    /// Applies a batch of actions that `caller` submits at `timestamp`, in
    /// order. Only an attestor may submit a batch, and every condition of
    /// the batch must be met (`CondNotMet`). The batch is applied as a whole:
    /// where any action fails, nothing is changed.
    pub fn rollup_cond_eq(
        &mut self,
        caller: Caller,
        timestamp: u64,
        conditions: &Vec<Condition>,
        actions: &Vec<HandleActionInput>,
    ) -> (result: Result<Vec<Received>, RollupClientError>)
        ensures
            match batch_outcome(old(self)@, caller, timestamp, conditions@, actions@) {
                Ok((state, received)) => result is Ok && views(result->Ok_0@) == received
                    && final(self)@ == state,
                Err(e) => result == Err::<Vec<Received>, RollupClientError>(e) && final(self)@
                    == old(self)@,
            },
    {
        if !caller.is_attestor {
            return Err(RollupClientError::AccessControlError(AccessControlError::MissingRole));
        }
        match check_conditions(conditions) {
            Ok(()) => {},
            Err(e) => {
                return Err(e);
            },
        }
        let mut working = self.duplicate();
        let mut results: Vec<Received> = Vec::new();
        let mut i: usize = 0;
        assert(views(results@) =~= Seq::<ReceivedView>::empty());
        while i < actions.len()
            invariant
                i <= actions.len(),
                caller.is_attestor,
                conditions_met(conditions@),
                *self == *old(self),
                actions_outcome(old(self)@, caller, timestamp, actions@.take(i as int)) == Ok::<
                    (ConsumerState, Seq<ReceivedView>),
                    RollupClientError,
                >((working@, views(results@))),
            decreases actions.len() - i,
        {
            proof {
                assert(actions@.take(i + 1).drop_last() =~= actions@.take(i as int));
            }
            let ghost before = views(results@);
            match working.handle_action(caller, timestamp, &actions[i]) {
                Ok(received) => {
                    results.push(received);
                    assert(views(results@) =~= before.push(received@));
                },
                Err(e) => {
                    proof {
                        lemma_first_failure_fails_batch(
                            old(self)@,
                            caller,
                            timestamp,
                            actions@,
                            i + 1,
                        );
                    }
                    return Err(e);
                },
            }
            i += 1;
        }
        assert(actions@.take(i as int) =~= actions@);
        *self = working;
        Ok(results)
    }

    /// Builds the request by which `from` asks this contract, `to`, to
    /// execute `data` on its behalf, with its hash for signing out of band.
    /// Nothing is changed.
    pub fn prepare(&self, from: AccountId, to: AccountId, data: Vec<u8>) -> (result: Result<
        (ForwardRequest, Hash32),
        RollupClientError,
    >)
        ensures
            match result {
                Ok((request, hash)) => {
                    &&& data.len() <= u32::MAX
                    &&& request.from == from
                    &&& request.to == to
                    &&& request.nonce == next_nonce(self@.nonces, from)
                    &&& request.data == data
                    &&& hash@ == request_hash(from, to, next_nonce(self@.nonces, from), data@)
                },
                Err(e) => data.len() > u32::MAX && e == RollupClientError::FailedToEncode,
            },
    {
        self.meta_transaction.inner_prepare(from, to, data)
    }

    /// Executes a batch on behalf of the signer of `request`, who counts as
    /// the caller of the batch. The request is refused, and nothing is
    /// changed, where its signature is not valid (`BadSignature`) or where it
    /// does not carry the signer's next nonce (`NonceMismatch`). Otherwise
    /// the request is consumed before the batch is applied, and stays
    /// consumed whatever becomes of the batch: the inner result tells.
    /// `batch` holds the batch decoded from the request's data, or nothing
    /// where it could not be decoded.
    pub fn meta_tx_rollup_cond_eq(
        &mut self,
        request: &ForwardRequest,
        signature_valid: bool,
        signer_is_attestor: bool,
        signer_is_raffle_manager: bool,
        timestamp: u64,
        batch: Option<&Batch>,
    ) -> (result: Result<Result<Vec<Received>, RollupClientError>, RollupClientError>)
        ensures
            match relay_outcome(
                old(self)@,
                *request,
                signature_valid,
                signer_is_attestor,
                signer_is_raffle_manager,
                timestamp,
                batch,
            ) {
                Err(e) => result == Err::<
                    Result<Vec<Received>, RollupClientError>,
                    RollupClientError,
                >(e) && final(self)@ == old(self)@,
                Ok((state, Err(e))) => result == Ok::<
                    Result<Vec<Received>, RollupClientError>,
                    RollupClientError,
                >(Err(e)) && final(self)@ == state,
                Ok((state, Ok(received))) => result is Ok && result->Ok_0 is Ok && views(
                    result->Ok_0->Ok_0@,
                ) == received && final(self)@ == state,
            },
    {
        match self.meta_transaction.accept(request, signature_valid) {
            Ok(()) => {},
            Err(e) => {
                return Err(e);
            },
        }
        let signer = Caller {
            account: request.from,
            is_attestor: signer_is_attestor,
            is_raffle_manager: signer_is_raffle_manager,
        };
        match batch {
            None => Ok(Err(RollupClientError::FailedToDecode)),
            Some(batch) => Ok(
                self.rollup_cond_eq(signer, timestamp, &batch.conditions, &batch.actions),
            ),
        }
    }

    /// Sets the hashes that attested messages must carry: that of the
    /// approved off-chain program and that of its settings.
    pub fn set_expected_hashes(
        &mut self,
        caller_is_manager: bool,
        js_script_hash: Hash32,
        settings_hash: Hash32,
    ) -> (result: Result<(), RollupClientError>)
        ensures
            caller_is_manager ==> result is Ok && final(self)@ == (ConsumerState {
                anchor: AnchorState {
                    js_script_hash: Some(js_script_hash),
                    settings_hash: Some(settings_hash),
                    queue_head: old(self)@.anchor.queue_head,
                },
                ..old(self)@
            }),
            !caller_is_manager ==> result == Err::<(), RollupClientError>(
                RollupClientError::AccessControlError(AccessControlError::MissingRole),
            ) && final(self)@ == old(self)@,
    {
        match self.rollup_anchor.set_js_script_hash(caller_is_manager, js_script_hash) {
            Ok(()) => {},
            Err(e) => {
                return Err(e);
            },
        }
        self.rollup_anchor.set_settings_hash(caller_is_manager, settings_hash)
    }

    /// The pointer to the processed messages.
    pub fn get_queue_head(&self) -> (id: u32)
        ensures
            id == self@.anchor.queue_head,
    {
        self.rollup_anchor.get_queue_head()
    }

    /// Sets the contract that funds the rewards (administrator only).
    pub fn set_dapps_staking_developer_address(
        &mut self,
        caller_is_admin: bool,
        address: AccountId,
    ) -> (result: Result<(), RaffleError>)
        ensures
            caller_is_admin ==> result is Ok && final(self)@ == (ConsumerState {
                dapps_staking_developer_address: Some(address),
                ..old(self)@
            }),
            !caller_is_admin ==> result == Err::<(), RaffleError>(
                RaffleError::AccessControlError(AccessControlError::MissingRole),
            ) && final(self)@ == old(self)@,
    {
        if !caller_is_admin {
            return Err(RaffleError::AccessControlError(AccessControlError::MissingRole));
        }
        self.dapps_staking_developer_address = Some(address);
        Ok(())
    }

    /// The contract that funds the rewards.
    pub fn get_dapps_staking_developer_address(&self) -> (address: Option<AccountId>)
        ensures
            address == self@.dapps_staking_developer_address,
    {
        self.dapps_staking_developer_address
    }

    /// Sets the contract that holds the reward ledger (administrator only).
    pub fn set_reward_manager_address(
        &mut self,
        caller_is_admin: bool,
        address: AccountId,
    ) -> (result: Result<(), RaffleError>)
        ensures
            caller_is_admin ==> result is Ok && final(self)@ == (ConsumerState {
                reward_manager_address: Some(address),
                ..old(self)@
            }),
            !caller_is_admin ==> result == Err::<(), RaffleError>(
                RaffleError::AccessControlError(AccessControlError::MissingRole),
            ) && final(self)@ == old(self)@,
    {
        if !caller_is_admin {
            return Err(RaffleError::AccessControlError(AccessControlError::MissingRole));
        }
        self.reward_manager_address = Some(address);
        Ok(())
    }

    /// The contract that holds the reward ledger.
    pub fn get_reward_manager_address(&self) -> (address: Option<AccountId>)
        ensures
            address == self@.reward_manager_address,
    {
        self.reward_manager_address
    }

    /// Replaces the ratio table of the raffle.
    pub fn set_ratio_distribution(
        &mut self,
        caller_is_manager: bool,
        ratio: Vec<Balance>,
        total_ratio: Balance,
    ) -> (result: Result<(), RaffleError>)
        ensures
            match ratio_update(old(self)@.raffle, caller_is_manager, ratio@, total_ratio) {
                Ok(raffle) => result is Ok && final(self)@ == (ConsumerState {
                    raffle,
                    ..old(self)@
                }),
                Err(e) => result == Err::<(), RaffleError>(e) && final(self)@ == old(self)@,
            },
    {
        self.raffle.inner_set_ratio_distribution(caller_is_manager, ratio, total_ratio)
    }

    /// The ratio table of the raffle.
    pub fn get_ratio_distribution(&self) -> (ratio: Vec<Balance>)
        ensures
            ratio@ == self@.raffle.ratio_distribution,
    {
        self.raffle.inner_get_ratio_distribution()
    }

    /// The denominator of the ratio table.
    pub fn get_total_ratio_distribution(&self) -> (total_ratio: Balance)
        ensures
            total_ratio == self@.raffle.total_ratio_distribution,
    {
        self.raffle.inner_get_total_ratio_distribution()
    }

    /// The era that is next to be settled or skipped.
    pub fn get_next_era(&self) -> (result: Result<u32, RaffleError>)
        ensures
            result == Ok::<u32, RaffleError>(self@.raffle.next_era),
    {
        self.raffle.inner_get_next_era()
    }

    /// Sets the era that is next to be settled or skipped.
    pub fn set_next_era(&mut self, caller_is_manager: bool, next_era: u32) -> (result: Result<
        (),
        RaffleError,
    >)
        ensures
            caller_is_manager ==> result is Ok && final(self)@ == (ConsumerState {
                raffle: RaffleState { next_era, ..old(self)@.raffle },
                ..old(self)@
            }),
            !caller_is_manager ==> result == Err::<(), RaffleError>(
                RaffleError::AccessControlError(AccessControlError::MissingRole),
            ) && final(self)@ == old(self)@,
    {
        self.raffle.inner_set_next_era(caller_is_manager, next_era)
    }

    /// Sets how many of the latest winners are kept.
    pub fn set_nb_winners_filtered(
        &mut self,
        caller_is_manager: bool,
        nb_filtered_winners: u16,
    ) -> (result: Result<(), RaffleError>)
        ensures
            caller_is_manager ==> result is Ok && final(self)@ == (ConsumerState {
                filter: FilterState {
                    nb_filtered_winners,
                    last_winners: old(self)@.filter.last_winners,
                },
                ..old(self)@
            }),
            !caller_is_manager ==> result == Err::<(), RaffleError>(
                RaffleError::AccessControlError(AccessControlError::MissingRole),
            ) && final(self)@ == old(self)@,
    {
        self.filter_latest_winners.inner_set_nb_winners_filtered(
            caller_is_manager,
            nb_filtered_winners,
        )
    }

    /// How many of the latest winners are kept.
    pub fn get_nb_winners_filtered(&self) -> (nb: u16)
        ensures
            nb == self@.filter.nb_filtered_winners,
    {
        self.filter_latest_winners.inner_get_nb_winners_filtered()
    }

    /// The latest winners, oldest first.
    pub fn get_last_winners(&self) -> (winners: Vec<AccountId>)
        ensures
            winners@ == self@.filter.last_winners,
    {
        self.filter_latest_winners.inner_get_last_winners()
    }

    /// Records a winner as the latest one, on the manager's request.
    pub fn add_address_in_last_winner(
        &mut self,
        caller_is_manager: bool,
        winner: AccountId,
    ) -> (result: Result<(), RaffleError>)
        ensures
            caller_is_manager ==> result is Ok && final(self)@ == (ConsumerState {
                filter: recorded(old(self)@.filter, winner),
                ..old(self)@
            }),
            !caller_is_manager ==> result == Err::<(), RaffleError>(
                RaffleError::AccessControlError(AccessControlError::MissingRole),
            ) && final(self)@ == old(self)@,
    {
        self.filter_latest_winners.inner_add_address_in_last_winner(caller_is_manager, winner)
    }
}

/// Settlement is idempotent: once a response has been applied, the same
/// response is refused with `IncorrectEra`, whoever submits it, so that no
/// era is settled or skipped twice.
pub proof fn lemma_response_applies_once(
    state: ConsumerState,
    caller: Caller,
    again: Caller,
    response: ResponseView,
)
    requires
        response_outcome(state, caller, response) is Ok,
    ensures
        response_outcome(response_outcome(state, caller, response)->Ok_0.0, again, response) == Err::<
            (ConsumerState, SavedView),
            RaffleError,
        >(RaffleError::IncorrectEra),
        response_outcome(state, caller, response)->Ok_0.0.raffle.next_era == response.era + 1,
{
}

/// A response for another era than the next one is refused with
/// `IncorrectEra`.
pub proof fn lemma_response_out_of_turn(state: ConsumerState, caller: Caller, response: ResponseView)
    requires
        response.era != state.raffle.next_era,
    ensures
        response_outcome(state, caller, response) == Err::<
            (ConsumerState, SavedView),
            RaffleError,
        >(RaffleError::IncorrectEra),
{
}

/// An encoded response that was applied is refused when it is delivered
/// again.
pub proof fn lemma_message_applies_once(
    state: ConsumerState,
    caller: Caller,
    again: Caller,
    action: Seq<u8>,
)
    requires
        message_outcome(state, caller, action) is Ok,
    ensures
        message_outcome(message_outcome(state, caller, action)->Ok_0.0, again, action) == Err::<
            (ConsumerState, SavedView),
            RollupClientError,
        >(RollupClientError::RaffleError(RaffleError::IncorrectEra)),
{
    let response = parse_response(action)->Some_0;
    lemma_response_applies_once(state, caller, again, response);
}

/// A batch changes no signer's nonce.
pub proof fn lemma_batch_keeps_nonces(
    state: ConsumerState,
    caller: Caller,
    timestamp: u64,
    actions: Seq<HandleActionInput>,
)
    requires
        actions_outcome(state, caller, timestamp, actions) is Ok,
    ensures
        actions_outcome(state, caller, timestamp, actions)->Ok_0.0.nonces == state.nonces,
    decreases actions.len(),
{
    if actions.len() > 0 {
        lemma_batch_keeps_nonces(state, caller, timestamp, actions.drop_last());
    }
}

/// A relayed request is single-use: once a request has been accepted,
/// whatever became of its batch, submitting it again with the same valid
/// signature fails with `NonceMismatch`.
pub proof fn lemma_relayed_request_is_single_use(
    state: ConsumerState,
    request: ForwardRequest,
    signer_is_attestor: bool,
    signer_is_raffle_manager: bool,
    timestamp: u64,
    batch: Option<&Batch>,
    later: u64,
    batch_again: Option<&Batch>,
)
    requires
        relay_outcome(
            state,
            request,
            true,
            signer_is_attestor,
            signer_is_raffle_manager,
            timestamp,
            batch,
        ) is Ok,
    ensures
        relay_outcome(
            relay_outcome(
                state,
                request,
                true,
                signer_is_attestor,
                signer_is_raffle_manager,
                timestamp,
                batch,
            )->Ok_0.0,
            request,
            true,
            signer_is_attestor,
            signer_is_raffle_manager,
            later,
            batch_again,
        ) is Err,
        relay_outcome(
            relay_outcome(
                state,
                request,
                true,
                signer_is_attestor,
                signer_is_raffle_manager,
                timestamp,
                batch,
            )->Ok_0.0,
            request,
            true,
            signer_is_attestor,
            signer_is_raffle_manager,
            later,
            batch_again,
        )->Err_0 == RollupClientError::NonceMismatch,
{
    let nonces = accept_outcome(state.nonces, request.from, request.nonce, true)->Ok_0;
    let consumed = ConsumerState { nonces, ..state };
    let signer = Caller {
        account: request.from,
        is_attestor: signer_is_attestor,
        is_raffle_manager: signer_is_raffle_manager,
    };
    match batch {
        None => {},
        Some(b) => {
            if batch_outcome(consumed, signer, timestamp, b.conditions@, b.actions@) is Ok {
                lemma_batch_keeps_nonces(consumed, signer, timestamp, b.actions@);
            }
        },
    }
}

/// Where a prefix of a batch fails, the batch fails with the same error.
pub proof fn lemma_first_failure_fails_batch(
    state: ConsumerState,
    caller: Caller,
    timestamp: u64,
    actions: Seq<HandleActionInput>,
    n: int,
)
    requires
        0 <= n <= actions.len(),
        actions_outcome(state, caller, timestamp, actions.take(n)) is Err,
    ensures
        actions_outcome(state, caller, timestamp, actions) == actions_outcome(
            state,
            caller,
            timestamp,
            actions.take(n),
        ),
    decreases actions.len(),
{
    if n == actions.len() {
        assert(actions.take(n) =~= actions);
    } else {
        assert(actions.drop_last().take(n) =~= actions.take(n));
        lemma_first_failure_fails_batch(state, caller, timestamp, actions.drop_last(), n);
    }
}

} // verus!
