use lucky::account::AccountId;
use lucky::error::{AccessControlError, RaffleError, RollupClientError};
use lucky::message::RaffleResponseMessage;
use lucky::raffle_consumer::{
    call_error, Batch, Caller, Contract, HandleActionInput, Received, Saved,
    FUND_REWARDS_AND_WINNERS_SELECTOR, WITHDRAW_SELECTOR,
};
use lucky::rollup_anchor::{Condition, Payload, ResponseEnvelope};
use parity_scale_codec::Encode;

fn account(n: u8) -> AccountId {
    AccountId::new([n; 32])
}

const DEVELOPER: u8 = 100;
const REWARD_MANAGER: u8 = 101;
const BOB: u8 = 2;
const CHARLIE: u8 = 3;
const DAVE: u8 = 4;

fn attestor(n: u8) -> Caller {
    Caller {
        account: account(n),
        is_attestor: true,
        is_raffle_manager: true,
    }
}

fn stranger(n: u8) -> Caller {
    Caller {
        account: account(n),
        is_attestor: false,
        is_raffle_manager: false,
    }
}

fn configured() -> Contract {
    let mut contract = Contract::new(account(DEVELOPER), account(REWARD_MANAGER));
    contract.set_ratio_distribution(true, vec![10], 100).unwrap();
    contract.set_next_era(true, 13).unwrap();
    contract.set_nb_winners_filtered(true, 5).unwrap();
    contract
}

fn encoded(era: u32, skipped: bool, rewards: u128, winners: &[u8]) -> Vec<u8> {
    let winners: Vec<[u8; 32]> = winners.iter().map(|n| [*n; 32]).collect();
    (era, skipped, rewards, winners).encode()
}

fn settlement(received: &Received) -> &lucky::raffle_consumer::Settlement {
    match received {
        Received::Saved(Saved::Done(settlement)) => settlement,
        other => panic!("no settlement: {:?}", other),
    }
}

#[test]
fn selectors_are_the_agreed_ones() {
    assert_eq!(WITHDRAW_SELECTOR, [0x41, 0x0f, 0xcc, 0x9d]);
    assert_eq!(FUND_REWARDS_AND_WINNERS_SELECTOR, [0xc2, 0x18, 0xe5, 0xba]);
    assert_eq!(call_error(true), RaffleError::CrossContractCallError1);
    assert_eq!(call_error(false), RaffleError::CrossContractCallError2);
}

#[test]
fn test_do_raffle() {
    let mut contract = configured();
    let actions = vec![HandleActionInput::Reply(encoded(13, false, 100, &[DAVE]))];
    let results = contract.rollup_cond_eq(attestor(BOB), 1, &vec![], &actions).unwrap();
    assert_eq!(results.len(), 1);
    let done = settlement(&results[0]);
    assert_eq!(done.dapps_staking_developer_address, account(DEVELOPER));
    assert_eq!(done.reward_manager_address, account(REWARD_MANAGER));
    assert_eq!(done.given_rewards, 10);
    assert_eq!(done.era, 13);
    assert_eq!(done.winners_rewards, vec![(account(DAVE), 10)]);
    assert_eq!(done.event.contract, account(BOB));
    assert_eq!(done.event.era, 13);
    assert_eq!(done.event.pending_rewards, 100);
    assert_eq!(done.event.nb_winners, 1);
    assert_eq!(contract.get_last_winners(), vec![account(DAVE)]);

    // only one raffle by era
    assert_eq!(
        contract.rollup_cond_eq(attestor(BOB), 2, &vec![], &actions).unwrap_err(),
        RollupClientError::RaffleError(RaffleError::IncorrectEra)
    );
    assert_eq!(contract.get_next_era(), Ok(14));
    assert_eq!(contract.get_last_winners(), vec![account(DAVE)]);
}

#[test]
fn test_skip_raffle() {
    let mut contract = configured();
    let actions = vec![HandleActionInput::Reply(encoded(13, true, 0, &[]))];
    let results = contract.rollup_cond_eq(attestor(BOB), 1, &vec![], &actions).unwrap();
    assert_eq!(results.len(), 1);
    match &results[0] {
        Received::Saved(Saved::Skipped(event)) => {
            assert_eq!(event.contract, account(BOB));
            assert_eq!(event.era, 13);
        }
        other => panic!("not skipped: {:?}", other),
    }
    assert_eq!(contract.get_next_era(), Ok(14));
    assert!(contract.get_last_winners().is_empty());
    assert_eq!(
        contract.rollup_cond_eq(attestor(BOB), 2, &vec![], &actions).unwrap_err(),
        RollupClientError::RaffleError(RaffleError::IncorrectEra)
    );
    assert_eq!(contract.get_next_era(), Ok(14));
}

#[test]
fn test_bad_attestor() {
    let mut contract = configured();
    assert_eq!(
        contract.rollup_cond_eq(stranger(BOB), 1, &vec![], &vec![]).unwrap_err(),
        RollupClientError::AccessControlError(AccessControlError::MissingRole)
    );
    let actions = vec![HandleActionInput::Reply(encoded(13, true, 0, &[]))];
    assert_eq!(
        contract.rollup_cond_eq(stranger(BOB), 1, &vec![], &actions).unwrap_err(),
        RollupClientError::AccessControlError(AccessControlError::MissingRole)
    );
    assert_eq!(contract.get_next_era(), Ok(13));
    let results = contract.rollup_cond_eq(attestor(BOB), 1, &vec![], &vec![]).unwrap();
    assert!(results.is_empty());
    assert_eq!(contract.get_next_era(), Ok(13));
}

#[test]
fn test_bad_messages() {
    let mut contract = configured();
    let actions = vec![HandleActionInput::Reply(58u128.encode())];
    assert_eq!(
        contract.rollup_cond_eq(attestor(BOB), 1, &vec![], &actions).unwrap_err(),
        RollupClientError::FailedToDecode
    );
    assert_eq!(contract.get_next_era(), Ok(13));
}

#[test]
fn test_meta_tx_rollup_cond_eq() {
    let mut contract = configured();
    let from = account(BOB);
    let to = account(200);
    let data = vec![0u8, 0, 0];
    let (request, hash) = contract.prepare(from, to, data.clone()).unwrap();
    assert_eq!(
        hash,
        [
            154, 173, 44, 191, 240, 50, 33, 160, 117, 106, 216, 237, 132, 131, 29, 154, 70, 180, 227, 68, 165, 227, 86, 228, 187, 42, 14, 77, 166, 91, 73, 225
        ]
    );
    assert_eq!(Some(hash), request.hash());
    assert_eq!(0, request.nonce);
    assert_eq!(from, request.from);
    assert_eq!(to, request.to);
    assert_eq!(&data, &request.data);

    let actions = Batch {
        conditions: vec![],
        actions: vec![],
    };
    let relayed = contract
        .meta_tx_rollup_cond_eq(&request, true, true, true, 1, Some(&actions))
        .unwrap();
    assert!(relayed.unwrap().is_empty());

    // do it again => it must fail
    assert_eq!(
        contract
            .meta_tx_rollup_cond_eq(&request, true, true, true, 2, Some(&actions))
            .unwrap_err(),
        RollupClientError::NonceMismatch
    );
    assert_eq!(contract.prepare(from, to, vec![]).unwrap().0.nonce, 1);
    assert_eq!(contract.prepare(account(CHARLIE), to, vec![]).unwrap().0.nonce, 0);
}

#[test]
fn relayed_request_is_consumed_even_when_its_batch_fails() {
    let mut contract = configured();
    let (request, _) = contract.prepare(account(BOB), account(200), vec![1]).unwrap();
    let actions = Batch {
        conditions: vec![],
        actions: vec![HandleActionInput::Reply(encoded(12, true, 0, &[]))],
    };
    let relayed = contract
        .meta_tx_rollup_cond_eq(&request, true, true, true, 1, Some(&actions))
        .unwrap();
    assert_eq!(
        relayed.unwrap_err(),
        RollupClientError::RaffleError(RaffleError::IncorrectEra)
    );
    assert_eq!(contract.get_next_era(), Ok(13));
    assert_eq!(contract.prepare(account(BOB), account(200), vec![]).unwrap().0.nonce, 1);

    let (next, _) = contract.prepare(account(BOB), account(200), vec![1]).unwrap();
    let relayed = contract
        .meta_tx_rollup_cond_eq(&next, true, false, true, 1, Some(&actions))
        .unwrap();
    assert_eq!(
        relayed.unwrap_err(),
        RollupClientError::AccessControlError(AccessControlError::MissingRole)
    );
    let (undecodable, _) = contract.prepare(account(BOB), account(200), vec![1]).unwrap();
    assert_eq!(undecodable.nonce, 2);
    let relayed = contract
        .meta_tx_rollup_cond_eq(&undecodable, true, true, true, 1, None)
        .unwrap();
    assert_eq!(relayed.unwrap_err(), RollupClientError::FailedToDecode);
    assert_eq!(contract.prepare(account(BOB), account(200), vec![]).unwrap().0.nonce, 3);
}

#[test]
fn relay_refuses_bad_signatures_and_nonces() {
    let mut contract = configured();
    let (mut request, _) = contract.prepare(account(BOB), account(200), vec![]).unwrap();
    let actions = Batch {
        conditions: vec![],
        actions: vec![HandleActionInput::Reply(encoded(13, true, 0, &[]))],
    };
    assert_eq!(
        contract
            .meta_tx_rollup_cond_eq(&request, false, true, true, 1, Some(&actions))
            .unwrap_err(),
        RollupClientError::BadSignature
    );
    request.nonce = 1;
    assert_eq!(
        contract
            .meta_tx_rollup_cond_eq(&request, true, true, true, 1, Some(&actions))
            .unwrap_err(),
        RollupClientError::NonceMismatch
    );
    assert_eq!(
        contract
            .meta_tx_rollup_cond_eq(&request, false, true, true, 1, Some(&actions))
            .unwrap_err(),
        RollupClientError::BadSignature
    );
    assert_eq!(contract.get_next_era(), Ok(13));
    assert_eq!(contract.prepare(account(BOB), account(200), vec![]).unwrap().0.nonce, 0);
    request.nonce = 0;
    let relayed = contract
        .meta_tx_rollup_cond_eq(&request, true, true, true, 1, Some(&actions))
        .unwrap();
    assert_eq!(relayed.unwrap().len(), 1);
    assert_eq!(contract.get_next_era(), Ok(14));
}

#[test]
fn batch_is_all_or_nothing() {
    let mut contract = configured();
    contract.set_ratio_distribution(true, vec![50, 50], 100).unwrap();
    let batch = |n: usize| -> Vec<HandleActionInput> {
        let mut actions = vec![
            HandleActionInput::Reply(encoded(13, false, 100, &[DAVE, CHARLIE])),
            HandleActionInput::SetQueueHead(4),
            HandleActionInput::Reply(encoded(14, true, 0, &[])),
            HandleActionInput::Reply(encoded(14, true, 0, &[])),
        ];
        actions.truncate(n);
        actions
    };
    let actions = batch(4);
    assert_eq!(
        contract.rollup_cond_eq(attestor(BOB), 1, &vec![], &actions).unwrap_err(),
        RollupClientError::RaffleError(RaffleError::IncorrectEra)
    );
    assert_eq!(contract.get_next_era(), Ok(13));
    assert_eq!(contract.get_queue_head(), 0);
    assert!(contract.get_last_winners().is_empty());

    let results = contract
        .rollup_cond_eq(attestor(BOB), 1, &vec![], &batch(3))
        .unwrap();
    assert_eq!(results.len(), 3);
    assert_eq!(
        settlement(&results[0]).winners_rewards,
        vec![(account(DAVE), 50), (account(CHARLIE), 50)]
    );
    assert_eq!(settlement(&results[0]).given_rewards, 100);
    assert_eq!(settlement(&results[0]).event.nb_winners, 2);
    assert!(matches!(results[1], Received::ProcessedTo(4)));
    assert!(matches!(results[2], Received::Saved(Saved::Skipped(_))));
    assert_eq!(contract.get_next_era(), Ok(15));
    assert_eq!(
        contract.get_last_winners(),
        vec![account(DAVE), account(CHARLIE)]
    );
}

#[test]
fn processed_pointer_never_moves_back() {
    let mut contract = configured();
    let forward = vec![
        HandleActionInput::SetQueueHead(3),
        HandleActionInput::SetQueueHead(3),
        HandleActionInput::SetQueueHead(7),
    ];
    assert_eq!(
        contract.rollup_cond_eq(attestor(BOB), 1, &vec![], &forward).unwrap().len(),
        3
    );
    let back = vec![
        HandleActionInput::SetQueueHead(9),
        HandleActionInput::SetQueueHead(8),
    ];
    assert_eq!(
        contract.rollup_cond_eq(attestor(BOB), 1, &vec![], &back).unwrap_err(),
        RollupClientError::InvalidPopTarget
    );
    let again = vec![HandleActionInput::SetQueueHead(6)];
    assert_eq!(
        contract.rollup_cond_eq(attestor(BOB), 1, &vec![], &again).unwrap_err(),
        RollupClientError::InvalidPopTarget
    );
}

#[test]
fn winner_without_ratio_is_recorded_and_not_paid() {
    let mut contract = configured();
    contract.set_ratio_distribution(true, vec![60, 0, 40], 100).unwrap();
    let response = RaffleResponseMessage {
        era: 13,
        skipped: false,
        rewards: 50,
        winners: vec![account(1), account(2), account(3)],
    };
    let saved = contract.save_response(attestor(BOB), &response).unwrap();
    match saved {
        Saved::Done(done) => {
            assert_eq!(done.winners_rewards, vec![(account(1), 30), (account(3), 20)]);
            assert_eq!(done.given_rewards, 50);
            assert_eq!(done.event.nb_winners, 3);
        }
        other => panic!("no settlement: {:?}", other),
    }
    assert_eq!(
        contract.get_last_winners(),
        vec![account(1), account(2), account(3)]
    );
}

#[test]
fn settlement_needs_both_payout_contracts() {
    let response = RaffleResponseMessage {
        era: 0,
        skipped: false,
        rewards: 50,
        winners: vec![account(1)],
    };
    let mut contract = Contract::new(account(DEVELOPER), account(REWARD_MANAGER));
    contract.set_ratio_distribution(true, vec![10], 100).unwrap();
    assert_eq!(
        contract
            .set_reward_manager_address(false, account(9))
            .unwrap_err(),
        RaffleError::AccessControlError(AccessControlError::MissingRole)
    );
    assert_eq!(
        contract
            .set_dapps_staking_developer_address(false, account(9))
            .unwrap_err(),
        RaffleError::AccessControlError(AccessControlError::MissingRole)
    );
    assert_eq!(
        contract.get_dapps_staking_developer_address(),
        Some(account(DEVELOPER))
    );
    contract.set_reward_manager_address(true, account(9)).unwrap();
    contract
        .set_dapps_staking_developer_address(true, account(8))
        .unwrap();
    assert_eq!(contract.get_reward_manager_address(), Some(account(9)));
    match contract.save_response(attestor(BOB), &response).unwrap() {
        Saved::Done(done) => {
            assert_eq!(done.dapps_staking_developer_address, account(8));
            assert_eq!(done.reward_manager_address, account(9));
            assert_eq!(done.given_rewards, 5);
        }
        other => panic!("no settlement: {:?}", other),
    }
}

#[test]
fn settlement_without_the_manager_role_changes_nothing() {
    let mut contract = configured();
    let caller = Caller {
        account: account(BOB),
        is_attestor: true,
        is_raffle_manager: false,
    };
    let actions = vec![HandleActionInput::Reply(encoded(13, false, 100, &[DAVE]))];
    assert_eq!(
        contract.rollup_cond_eq(caller, 1, &vec![], &actions).unwrap_err(),
        RollupClientError::RaffleError(RaffleError::AccessControlError(
            AccessControlError::MissingRole
        ))
    );
    assert_eq!(contract.get_next_era(), Ok(13));
    assert!(contract.get_last_winners().is_empty());
}

fn envelope(js: u8, settings: u8, output: Payload) -> ResponseEnvelope {
    ResponseEnvelope {
        js_script_hash: [js; 32],
        settings_hash: [settings; 32],
        input: (13u32, 1u16, Vec::<[u8; 32]>::new()).encode(),
        output,
    }
}

#[test]
fn attested_message_must_carry_the_expected_hashes() {
    let mut contract = configured();
    let good = envelope(1, 2, Payload::Output(encoded(13, false, 100, &[DAVE])));
    assert_eq!(
        contract
            .on_attested_message_received(attestor(BOB), 5, &good)
            .unwrap_err(),
        RollupClientError::HashMismatch
    );
    contract.set_expected_hashes(true, [1; 32], [2; 32]).unwrap();
    assert_eq!(
        contract.set_expected_hashes(false, [3; 32], [4; 32]).unwrap_err(),
        RollupClientError::AccessControlError(AccessControlError::MissingRole)
    );
    for (js, settings) in [(1u8, 3u8), (3, 2), (2, 1)] {
        let bad = envelope(js, settings, Payload::Output(encoded(13, false, 100, &[DAVE])));
        assert_eq!(
            contract
                .on_attested_message_received(attestor(BOB), 5, &bad)
                .unwrap_err(),
            RollupClientError::HashMismatch
        );
        let undecodable = envelope(js, settings, Payload::Output(vec![1, 2, 3]));
        assert_eq!(
            contract
                .on_attested_message_received(attestor(BOB), 5, &undecodable)
                .unwrap_err(),
            RollupClientError::HashMismatch
        );
    }
    assert_eq!(contract.get_next_era(), Ok(13));
    let received = contract
        .on_attested_message_received(attestor(BOB), 5, &good)
        .unwrap();
    assert_eq!(settlement(&received).given_rewards, 10);
    assert_eq!(contract.get_next_era(), Ok(14));
}

#[test]
fn attested_message_that_cannot_be_decoded_is_refused() {
    let mut contract = configured();
    contract.set_expected_hashes(true, [1; 32], [2; 32]).unwrap();
    let undecodable = envelope(1, 2, Payload::Output(vec![1, 2, 3]));
    assert_eq!(
        contract
            .on_attested_message_received(attestor(BOB), 5, &undecodable)
            .unwrap_err(),
        RollupClientError::FailedToDecode
    );
    let mut bad_input = envelope(1, 2, Payload::Error(vec![9]));
    bad_input.input = vec![1];
    assert_eq!(
        contract
            .on_attested_message_received(attestor(BOB), 5, &bad_input)
            .unwrap_err(),
        RollupClientError::FailedToDecode
    );
}

#[test]
fn reported_error_does_not_reach_the_raffle() {
    let mut contract = configured();
    contract.set_expected_hashes(true, [1; 32], [2; 32]).unwrap();
    let failed = envelope(1, 2, Payload::Error(vec![b'n', b'o']));
    let actions = vec![HandleActionInput::AttestedReply(failed)];
    let results = contract.rollup_cond_eq(attestor(BOB), 77, &vec![], &actions).unwrap();
    match &results[0] {
        Received::Error(event) => {
            assert_eq!(event.era, 13);
            assert_eq!(event.error, vec![b'n', b'o']);
            assert_eq!(event.timestamp, 77);
        }
        other => panic!("no error notification: {:?}", other),
    }
    assert_eq!(contract.get_next_era(), Ok(13));
    assert!(contract.get_last_winners().is_empty());
}

#[test]
fn latest_winners_are_filtered() {
    let mut contract = configured();
    contract.set_nb_winners_filtered(true, 2).unwrap();
    assert_eq!(contract.get_nb_winners_filtered(), 2);
    for n in 1..=3 {
        contract.add_address_in_last_winner(true, account(n)).unwrap();
    }
    assert_eq!(contract.get_last_winners(), vec![account(2), account(3)]);
    assert_eq!(
        contract.add_address_in_last_winner(false, account(4)).unwrap_err(),
        RaffleError::AccessControlError(AccessControlError::MissingRole)
    );
    assert_eq!(
        contract.set_nb_winners_filtered(false, 9).unwrap_err(),
        RaffleError::AccessControlError(AccessControlError::MissingRole)
    );
    let copy = contract.duplicate();
    contract.add_address_in_last_winner(true, account(5)).unwrap();
    assert_eq!(copy.get_last_winners(), vec![account(2), account(3)]);
    assert_eq!(copy.get_ratio_distribution(), vec![10]);
    assert_eq!(copy.get_total_ratio_distribution(), 100);
}

#[test]
fn batch_conditions_must_be_met() {
    let mut contract = configured();
    let actions = vec![HandleActionInput::Reply(encoded(13, true, 0, &[]))];
    let met = vec![
        Condition {
            current: None,
            expected: None,
        },
        Condition {
            current: Some(vec![1, 2]),
            expected: Some(vec![1, 2]),
        },
    ];
    for (current, expected) in [
        (None, Some(vec![])),
        (Some(vec![1]), None),
        (Some(vec![1, 2]), Some(vec![1, 3])),
        (Some(vec![1, 2]), Some(vec![1])),
    ] {
        let unmet = vec![
            Condition {
                current: None,
                expected: None,
            },
            Condition { current, expected },
        ];
        assert_eq!(
            contract
                .rollup_cond_eq(attestor(BOB), 1, &unmet, &actions)
                .unwrap_err(),
            RollupClientError::CondNotMet
        );
        assert_eq!(
            contract
                .rollup_cond_eq(stranger(BOB), 1, &unmet, &actions)
                .unwrap_err(),
            RollupClientError::AccessControlError(AccessControlError::MissingRole)
        );
        assert_eq!(contract.get_next_era(), Ok(13));
    }
    assert_eq!(
        contract
            .rollup_cond_eq(attestor(BOB), 1, &met, &actions)
            .unwrap()
            .len(),
        1
    );
    assert_eq!(contract.get_next_era(), Ok(14));
}

#[test]
fn contract_is_restored_from_its_parts() {
    let mut contract = configured();
    contract.set_expected_hashes(true, [1; 32], [2; 32]).unwrap();
    contract
        .rollup_cond_eq(
            attestor(BOB),
            1,
            &vec![],
            &vec![
                HandleActionInput::Reply(encoded(13, false, 100, &[DAVE])),
                HandleActionInput::SetQueueHead(3),
            ],
        )
        .unwrap();
    let (request, _) = contract.prepare(account(BOB), account(200), vec![]).unwrap();
    contract
        .meta_tx_rollup_cond_eq(&request, true, true, true, 1, None)
        .unwrap()
        .unwrap_err();
    let restored = Contract::restore(
        contract.get_dapps_staking_developer_address(),
        contract.get_reward_manager_address(),
        lucky::raffle::RaffleData::restore(
            contract.get_ratio_distribution(),
            contract.get_total_ratio_distribution(),
            contract.get_next_era().unwrap(),
        )
        .unwrap(),
        lucky::filter_latest_winners::FilterLatestWinnersData::restore(
            contract.get_nb_winners_filtered(),
            &contract.get_last_winners(),
        ),
        lucky::meta_transaction::MetaTransactionData::restore(&contract.get_nonces()),
        lucky::rollup_anchor::RollupAnchorData::restore(
            contract.get_expected_hashes().0,
            contract.get_expected_hashes().1,
            contract.get_queue_head(),
        ),
    );
    assert_eq!(restored.get_next_era(), Ok(14));
    assert_eq!(restored.get_ratio_distribution(), vec![10]);
    assert_eq!(restored.get_last_winners(), vec![account(DAVE)]);
    assert_eq!(restored.get_nb_winners_filtered(), 5);
    assert_eq!(restored.get_queue_head(), 3);
    assert_eq!(restored.get_expected_hashes(), (Some([1; 32]), Some([2; 32])));
    assert_eq!(restored.get_nonces().len(), 1);
    assert_eq!(
        restored.prepare(account(BOB), account(200), vec![]).unwrap().0.nonce,
        1
    );
    assert!(lucky::raffle::RaffleData::restore(vec![2, 2], 3, 0).is_none());
}

fn without_addresses(developer: Option<AccountId>, reward_manager: Option<AccountId>) -> Contract {
    Contract::restore(
        developer,
        reward_manager,
        lucky::raffle::RaffleData::restore(vec![10], 100, 13).unwrap(),
        lucky::filter_latest_winners::FilterLatestWinnersData::restore(5, &vec![]),
        lucky::meta_transaction::MetaTransactionData::restore(&vec![]),
        lucky::rollup_anchor::RollupAnchorData::restore(None, None, 0),
    )
}

#[test]
fn settlement_without_a_payout_contract_changes_nothing() {
    let response = RaffleResponseMessage {
        era: 13,
        skipped: false,
        rewards: 100,
        winners: vec![account(DAVE)],
    };
    let mut contract = without_addresses(None, None);
    assert_eq!(
        contract.save_response(attestor(BOB), &response).unwrap_err(),
        RaffleError::DappsStakingDeveloperAddressMissing
    );
    let mut contract = without_addresses(None, Some(account(REWARD_MANAGER)));
    assert_eq!(
        contract.save_response(attestor(BOB), &response).unwrap_err(),
        RaffleError::DappsStakingDeveloperAddressMissing
    );
    let mut contract = without_addresses(Some(account(DEVELOPER)), None);
    assert_eq!(
        contract.save_response(attestor(BOB), &response).unwrap_err(),
        RaffleError::RewardManagerAddressMissing
    );
    assert_eq!(contract.get_next_era(), Ok(13));
    assert!(contract.get_last_winners().is_empty());
    let skip = RaffleResponseMessage {
        era: 13,
        skipped: true,
        rewards: 0,
        winners: vec![],
    };
    assert!(contract.save_response(attestor(BOB), &skip).is_ok());
    assert_eq!(contract.get_next_era(), Ok(14));
}

#[test]
fn contract_lists_what_off_chain_programs_read() {
    let mut contract = configured();
    contract
        .rollup_cond_eq(
            attestor(BOB),
            1,
            &vec![],
            &vec![HandleActionInput::Reply(encoded(13, false, 100, &[DAVE]))],
        )
        .unwrap();
    let entries = contract.kv_entries().unwrap();
    assert_eq!(
        entries,
        vec![
            (lucky::raffle::NEXT_ERA.encode(), 14u32.encode()),
            (lucky::raffle::NB_WINNERS.encode(), 1u16.encode()),
            (
                lucky::filter_latest_winners::LAST_WINNERS.encode(),
                vec![[DAVE; 32]].encode()
            ),
        ]
    );
}
