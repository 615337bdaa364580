use lucky::account::AccountId;
use lucky::error::{AccessControlError, RaffleError};
use lucky::raffle::{
    read_next_era, total_of, RaffleData, NB_WINNERS, NEXT_ERA, RAFFLE_MANAGER_ROLE,
};
use parity_scale_codec::Encode;

fn account(n: u8) -> AccountId {
    AccountId::new([n; 32])
}

fn raffle_with(ratio: Vec<u128>, total_ratio: u128) -> RaffleData {
    let mut raffle = RaffleData::new();
    raffle
        .inner_set_ratio_distribution(true, ratio, total_ratio)
        .unwrap();
    raffle
}

#[test]
fn role_identifier_is_the_selector_of_its_name() {
    assert_eq!(RAFFLE_MANAGER_ROLE, 0xa9980498);
}

#[test]
fn new_raffle_is_empty() {
    let raffle = RaffleData::new();
    assert_eq!(raffle.inner_get_ratio_distribution(), Vec::<u128>::new());
    assert_eq!(raffle.inner_get_total_ratio_distribution(), 0);
    assert_eq!(raffle.inner_get_next_era(), Ok(0));
    assert_eq!(raffle.nb_winners(), 0);
}

#[test]
fn ratio_within_total_is_accepted() {
    let raffle = raffle_with(vec![50, 30, 20], 100);
    assert_eq!(raffle.inner_get_ratio_distribution(), vec![50, 30, 20]);
    assert_eq!(raffle.inner_get_total_ratio_distribution(), 100);
    assert_eq!(raffle.nb_winners(), 3);
    let partial = raffle_with(vec![50, 30], 100);
    assert_eq!(partial.inner_get_ratio_distribution(), vec![50, 30]);
}

#[test]
fn ratio_above_total_is_refused_and_changes_nothing() {
    let mut raffle = raffle_with(vec![50, 30, 20], 100);
    assert_eq!(
        raffle.inner_set_ratio_distribution(true, vec![60, 30, 20], 100),
        Err(RaffleError::IncorrectRatio)
    );
    assert_eq!(raffle.inner_get_ratio_distribution(), vec![50, 30, 20]);
    assert_eq!(raffle.inner_get_total_ratio_distribution(), 100);
}

#[test]
fn ratio_whose_sum_overflows_is_refused() {
    let mut raffle = RaffleData::new();
    assert_eq!(
        raffle.inner_set_ratio_distribution(true, vec![u128::MAX, 1], u128::MAX),
        Err(RaffleError::IncorrectRatio)
    );
    assert_eq!(raffle.inner_get_ratio_distribution(), Vec::<u128>::new());
}

#[test]
fn ratio_table_longer_than_u16_is_refused() {
    let mut raffle = RaffleData::new();
    assert_eq!(
        raffle.inner_set_ratio_distribution(true, vec![0; 65536], 10),
        Err(RaffleError::TryFromIntError)
    );
    assert_eq!(
        raffle.inner_set_ratio_distribution(true, vec![0; 65535], 10),
        Ok(())
    );
    assert_eq!(raffle.nb_winners(), 65535);
}

#[test]
fn ratio_needs_the_manager() {
    let mut raffle = RaffleData::new();
    assert_eq!(
        raffle.inner_set_ratio_distribution(false, vec![1], 1),
        Err(RaffleError::AccessControlError(
            AccessControlError::MissingRole
        ))
    );
    assert_eq!(raffle.inner_get_total_ratio_distribution(), 0);
}

#[test]
fn next_era_needs_the_manager() {
    let mut raffle = RaffleData::new();
    assert_eq!(
        raffle.inner_set_next_era(false, 7),
        Err(RaffleError::AccessControlError(
            AccessControlError::MissingRole
        ))
    );
    assert_eq!(raffle.inner_get_next_era(), Ok(0));
    assert_eq!(raffle.inner_set_next_era(true, 7), Ok(()));
    assert_eq!(raffle.inner_get_next_era(), Ok(7));
}

#[test]
fn skip_advances_by_exactly_one() {
    let mut raffle = RaffleData::new();
    raffle.inner_set_next_era(true, 13).unwrap();
    assert_eq!(raffle.skip_raffle(true, 13), Ok(()));
    assert_eq!(raffle.inner_get_next_era(), Ok(14));
}

#[test]
fn skip_of_another_era_is_refused() {
    let mut raffle = RaffleData::new();
    raffle.inner_set_next_era(true, 13).unwrap();
    for era in [0, 12, 14, u32::MAX] {
        assert_eq!(raffle.skip_raffle(true, era), Err(RaffleError::IncorrectEra));
        assert_eq!(raffle.inner_get_next_era(), Ok(13));
    }
}

#[test]
fn skip_without_the_role_changes_nothing() {
    let mut raffle = RaffleData::new();
    assert_eq!(
        raffle.skip_raffle(false, 0),
        Err(RaffleError::AccessControlError(
            AccessControlError::MissingRole
        ))
    );
    assert_eq!(raffle.inner_get_next_era(), Ok(0));
}

#[test]
fn last_era_cannot_be_passed() {
    let mut raffle = raffle_with(vec![1], 1);
    raffle.inner_set_next_era(true, u32::MAX).unwrap();
    assert_eq!(raffle.skip_raffle(true, u32::MAX), Err(RaffleError::AddOverFlow));
    assert_eq!(
        raffle.mark_raffle_done(true, u32::MAX, 5, &vec![account(1)]),
        Err(RaffleError::AddOverFlow)
    );
    assert_eq!(raffle.inner_get_next_era(), Ok(u32::MAX));
}

#[test]
fn settle_shares_rewards_by_ratio() {
    let mut raffle = raffle_with(vec![50, 30, 20], 100);
    let winners = vec![account(1), account(2)];
    let payouts = raffle.mark_raffle_done(true, 0, 1000, &winners).unwrap();
    assert_eq!(payouts, vec![(account(1), 500), (account(2), 300)]);
    assert_eq!(raffle.inner_get_next_era(), Ok(1));
    assert_eq!(
        raffle.mark_raffle_done(true, 0, 1000, &winners),
        Err(RaffleError::IncorrectEra)
    );
    assert_eq!(raffle.inner_get_next_era(), Ok(1));
}

#[test]
fn shares_round_down_and_stay_within_the_pool() {
    let mut raffle = raffle_with(vec![1, 1, 1], 3);
    let winners = vec![account(1), account(2), account(3)];
    let payouts = raffle.mark_raffle_done(true, 0, 10, &winners).unwrap();
    assert_eq!(
        payouts,
        vec![(account(1), 3), (account(2), 3), (account(3), 3)]
    );
    assert_eq!(total_of(&payouts), Some(9));
}

#[test]
fn winner_with_zero_ratio_is_paid_nothing() {
    let mut raffle = raffle_with(vec![70, 0, 30], 100);
    let winners = vec![account(1), account(2), account(3)];
    let payouts = raffle.mark_raffle_done(true, 0, 200, &winners).unwrap();
    assert_eq!(payouts, vec![(account(1), 140), (account(3), 60)]);
    assert_eq!(raffle.inner_get_next_era(), Ok(1));
}

#[test]
fn payouts_for_changes_nothing() {
    let raffle = raffle_with(vec![10], 100);
    let payouts = raffle.payouts_for(0, 100, &vec![account(4)]).unwrap();
    assert_eq!(payouts, vec![(account(4), 10)]);
    assert_eq!(raffle.inner_get_next_era(), Ok(0));
    assert_eq!(
        raffle.payouts_for(1, 100, &vec![account(4)]),
        Err(RaffleError::IncorrectEra)
    );
}

#[test]
fn settlement_errors_come_in_order_and_keep_the_era() {
    let winners = vec![account(1), account(2)];
    let mut no_ratio = RaffleData::new();
    assert_eq!(
        no_ratio.mark_raffle_done(true, 1, 0, &vec![]),
        Err(RaffleError::IncorrectEra)
    );
    assert_eq!(
        no_ratio.mark_raffle_done(true, 0, 0, &vec![]),
        Err(RaffleError::NoReward)
    );
    assert_eq!(
        no_ratio.mark_raffle_done(true, 0, 10, &vec![]),
        Err(RaffleError::NoWinner)
    );
    assert_eq!(
        no_ratio.mark_raffle_done(true, 0, 10, &winners),
        Err(RaffleError::NoRatioSet)
    );
    assert_eq!(no_ratio.inner_get_next_era(), Ok(0));

    let mut one = raffle_with(vec![100], 100);
    assert_eq!(
        one.mark_raffle_done(true, 0, 10, &winners),
        Err(RaffleError::TooManyWinners)
    );
    assert_eq!(
        one.mark_raffle_done(false, 0, 10, &vec![account(1)]),
        Err(RaffleError::AccessControlError(
            AccessControlError::MissingRole
        ))
    );
    assert_eq!(one.inner_get_next_era(), Ok(0));

    let mut big = raffle_with(vec![1, 2], 4);
    assert_eq!(
        big.mark_raffle_done(true, 0, u128::MAX, &winners),
        Err(RaffleError::MulOverFlow)
    );
    assert_eq!(big.inner_get_next_era(), Ok(0));
}

#[test]
fn duplicate_is_independent() {
    let mut raffle = raffle_with(vec![10], 100);
    let copy = raffle.duplicate();
    raffle.skip_raffle(true, 0).unwrap();
    assert_eq!(raffle.inner_get_next_era(), Ok(1));
    assert_eq!(copy.inner_get_next_era(), Ok(0));
    assert_eq!(copy.inner_get_ratio_distribution(), vec![10]);
}

#[test]
fn total_of_detects_overflow() {
    assert_eq!(total_of(&vec![]), Some(0));
    assert_eq!(total_of(&vec![(account(1), 60), (account(2), 40)]), Some(100));
    assert_eq!(
        total_of(&vec![(account(1), u128::MAX), (account(2), 1)]),
        None
    );
}

#[test]
fn next_era_is_kept_for_off_chain_readers() {
    assert_eq!(NEXT_ERA, 0x568360e6);
    assert_eq!(NB_WINNERS, 0x7b701f02);
    let mut raffle = raffle_with(vec![50, 30, 20], 100);
    raffle.inner_set_next_era(true, 0x0102_0304).unwrap();
    let (key, value) = raffle.next_era_entry();
    assert_eq!(key, vec![0xe6, 0x60, 0x83, 0x56]);
    assert_eq!(key, NEXT_ERA.encode());
    assert_eq!(value, vec![4, 3, 2, 1]);
    assert_eq!(read_next_era(Some(&value)), Ok(0x0102_0304));
    let (key, value) = raffle.nb_winners_entry();
    assert_eq!(key, NB_WINNERS.encode());
    assert_eq!(value, vec![3, 0]);
    assert_eq!(value, 3u16.encode());
}

#[test]
fn stored_era_is_read_back() {
    assert_eq!(read_next_era(None), Ok(0));
    assert_eq!(read_next_era(Some(&13u32.encode())), Ok(13));
    assert_eq!(read_next_era(Some(&u32::MAX.encode())), Ok(u32::MAX));
    assert_eq!(read_next_era(Some(&vec![14, 0, 0, 0, 9, 9])), Ok(14));
    assert_eq!(
        read_next_era(Some(&vec![14, 0, 0])),
        Err(RaffleError::FailedToDecode)
    );
    assert_eq!(read_next_era(Some(&vec![])), Err(RaffleError::FailedToDecode));
}
