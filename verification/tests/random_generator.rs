use lucky::error::{AccessControlError, RandomGeneratorError};
use lucky::random_generator::{
    push_be_bytes, sample, scale_sample, Data, RANDOM_GENERATOR_CONSUMER,
    RANDOM_GENERATOR_MANAGER,
};

#[test]
fn test_get_pseudo_random() {
    let mut contract = Data::new();
    for max_value in 0..=100 {
        for min_value in 0..=max_value {
            let result = contract
                .get_random_number(true, 1_700_000_000_000, min_value, max_value)
                .unwrap();
            assert!(result >= min_value);
            assert!(result <= max_value);
        }
    }
}

#[test]
fn random_role_identifiers_are_the_selectors_of_their_names() {
    assert_eq!(RANDOM_GENERATOR_CONSUMER, 0x8e313717);
    assert_eq!(RANDOM_GENERATOR_MANAGER, 0x4d2dff75);
}

#[test]
fn sample_is_first_byte_of_keccak() {
    assert_eq!(sample(0, 0), 244);
    assert_eq!(sample(0, 1), 187);
    assert_eq!(sample(1, 0), 27);
    assert_eq!(sample(1_700_000_000_000, 5), 133);
    assert_eq!(sample(u64::MAX, u64::MAX - 1), 82);
}

#[test]
fn sample_agrees_with_the_hasher() {
    for (timestamp, salt) in [(3u64, 9u64), (1_000_000, 77), (u64::MAX, 0)] {
        let mut input = Vec::new();
        input.extend_from_slice(&timestamp.to_be_bytes());
        input.extend_from_slice(&salt.to_be_bytes());
        let mut output = [0u8; 32];
        ink::env::hash_bytes::<ink::env::hash::Keccak256>(&input, &mut output);
        assert_eq!(sample(timestamp, salt), output[0]);
    }
}

#[test]
fn bytes_are_big_endian() {
    let mut out = vec![9u8];
    push_be_bytes(&mut out, 0x0102_0304_0506_0708);
    assert_eq!(out, vec![9, 1, 2, 3, 4, 5, 6, 7, 8]);
    let mut other = Vec::new();
    push_be_bytes(&mut other, u64::MAX - 1);
    assert_eq!(other, (u64::MAX - 1).to_be_bytes().to_vec());
    let mut zero = Vec::new();
    push_be_bytes(&mut zero, 0);
    assert_eq!(zero, vec![0; 8]);
}

#[test]
fn scaling_follows_the_formula() {
    assert_eq!(scale_sample(244, 0, 1000), Ok(956));
    assert_eq!(scale_sample(187, 10, 20), Ok(17));
    assert_eq!(scale_sample(0, 5, 50), Ok(5));
    assert_eq!(scale_sample(255, 5, 50), Ok(50));
    assert_eq!(scale_sample(254, 0, 255), Ok(254));
    assert_eq!(scale_sample(77, 42, 42), Ok(42));
}

#[test]
fn scaling_errors() {
    assert_eq!(
        scale_sample(1, 10, 9),
        Err(RandomGeneratorError::SubOverFlow)
    );
    assert_eq!(
        scale_sample(2, 0, u128::MAX),
        Err(RandomGeneratorError::MulOverFlow)
    );
    assert_eq!(scale_sample(1, 0, u128::MAX), Ok(u128::MAX / 255));
    assert_eq!(scale_sample(0, 0, u128::MAX), Ok(0));
}

#[test]
fn draw_scales_the_sample_and_advances_the_counter() {
    let mut source = Data::new();
    assert_eq!(source.get_salt(true), Ok(0));
    assert_eq!(source.get_random_number(true, 0, 0, 1000), Ok(956));
    assert_eq!(source.get_salt(true), Ok(1));
    assert_eq!(source.get_random_number(true, 0, 10, 20), Ok(17));
    assert_eq!(source.get_salt(true), Ok(2));
}

#[test]
fn counter_advances_even_when_scaling_fails() {
    let mut source = Data::new();
    assert_eq!(
        source.get_random_number(true, 0, 10, 9),
        Err(RandomGeneratorError::SubOverFlow)
    );
    assert_eq!(source.get_salt(true), Ok(1));
    assert_eq!(
        source.get_random_number(true, 0, 0, u128::MAX),
        Err(RandomGeneratorError::MulOverFlow)
    );
    assert_eq!(source.get_salt(true), Ok(2));
}

#[test]
fn draw_needs_the_consumer_role() {
    let mut source = Data::new();
    assert_eq!(
        source.get_random_number(false, 0, 0, 10),
        Err(RandomGeneratorError::AccessControlError(
            AccessControlError::MissingRole
        ))
    );
    assert_eq!(source.get_salt(true), Ok(0));
}

#[test]
fn counter_is_managed() {
    let mut source = Data::new();
    let missing = RandomGeneratorError::AccessControlError(AccessControlError::MissingRole);
    assert_eq!(source.set_salt(false, 5), Err(missing));
    assert_eq!(source.get_salt(false), Err(missing));
    assert_eq!(source.set_salt(true, 5), Ok(()));
    assert_eq!(source.get_salt(true), Ok(5));
    assert_eq!(source.get_random_number(true, 1_700_000_000_000, 0, 255), Ok(133));
}

#[test]
fn counter_stops_at_its_end() {
    let mut source = Data::new();
    source.set_salt(true, u64::MAX).unwrap();
    assert_eq!(
        source.get_random_number(true, 0, 0, 10),
        Err(RandomGeneratorError::AddOverFlow)
    );
    assert_eq!(source.get_salt(true), Ok(u64::MAX));
    source.set_salt(true, u64::MAX - 1).unwrap();
    assert_eq!(source.get_random_number(true, u64::MAX, 0, 255), Ok(82));
    assert_eq!(source.get_salt(true), Ok(u64::MAX));
}
