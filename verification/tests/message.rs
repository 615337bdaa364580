use lucky::account::AccountId;
use lucky::message::{decode_request, decode_response};
use parity_scale_codec::{Decode, Encode};

type Wire = (u32, bool, u128, Vec<[u8; 32]>);

fn winners(n: usize) -> Vec<[u8; 32]> {
    (0..n)
        .map(|i| {
            let mut bytes = [7u8; 32];
            bytes[0] = (i % 256) as u8;
            bytes[31] = (i / 256) as u8;
            bytes
        })
        .collect()
}

fn agrees_with_codec(bytes: &Vec<u8>) {
    let expected = Wire::decode(&mut &bytes[..]).ok();
    let got = decode_response(bytes);
    match (expected, got) {
        (None, None) => {}
        (Some((era, skipped, rewards, accounts)), Some(message)) => {
            assert_eq!(message.era, era);
            assert_eq!(message.skipped, skipped);
            assert_eq!(message.rewards, rewards);
            let raw: Vec<[u8; 32]> = message.winners.iter().map(|a| a.to_bytes()).collect();
            assert_eq!(raw, accounts);
        }
        (expected, got) => panic!("codec gave {:?}, decoder gave {:?}", expected, got),
    }
}

#[test]
fn decodes_an_encoded_response() {
    let bytes = (13u32, false, 100u128, winners(1)).encode();
    let message = decode_response(&bytes).unwrap();
    assert_eq!(message.era, 13);
    assert!(!message.skipped);
    assert_eq!(message.rewards, 100);
    assert_eq!(message.winners, vec![AccountId::new(winners(1)[0])]);
}

#[test]
fn decodes_a_skipped_era() {
    let bytes = (13u32, true, 0u128, winners(0)).encode();
    let message = decode_response(&bytes).unwrap();
    assert_eq!(message.era, 13);
    assert!(message.skipped);
    assert_eq!(message.rewards, 0);
    assert!(message.winners.is_empty());
}

#[test]
fn decodes_large_values() {
    let bytes = (u32::MAX, false, u128::MAX - 5, winners(3)).encode();
    let message = decode_response(&bytes).unwrap();
    assert_eq!(message.era, u32::MAX);
    assert_eq!(message.rewards, u128::MAX - 5);
    assert_eq!(message.winners.len(), 3);
    let bytes = (0x0102_0304u32, false, 0x0102_0304_0506_0708_090a_0b0c_0d0e_0f10u128, winners(0))
        .encode();
    let message = decode_response(&bytes).unwrap();
    assert_eq!(message.era, 0x0102_0304);
    assert_eq!(message.rewards, 0x0102_0304_0506_0708_090a_0b0c_0d0e_0f10);
}

#[test]
fn agrees_with_the_codec_on_every_length_form() {
    for n in [0usize, 1, 2, 63, 64, 65, 255, 256, 1000, 16383, 16384, 16385] {
        let bytes = (n as u32, n % 2 == 0, n as u128 * 3, winners(n)).encode();
        let message = decode_response(&bytes).unwrap();
        assert_eq!(message.winners.len(), n);
        agrees_with_codec(&bytes);
    }
}

#[test]
fn what_follows_a_response_is_ignored() {
    let mut bytes = (5u32, false, 9u128, winners(2)).encode();
    bytes.extend_from_slice(&[1, 2, 3]);
    let message = decode_response(&bytes).unwrap();
    assert_eq!(message.winners.len(), 2);
    agrees_with_codec(&bytes);
}

#[test]
fn truncated_responses_are_refused() {
    let bytes = (5u32, false, 9u128, winners(2)).encode();
    for len in 0..bytes.len() {
        let cut = bytes[..len].to_vec();
        assert!(decode_response(&cut).is_none());
        agrees_with_codec(&cut);
    }
    assert!(decode_response(&58u128.encode()).is_none());
}

#[test]
fn bad_flags_and_lengths_are_refused() {
    let mut bytes = (5u32, false, 9u128, winners(0)).encode();
    bytes[4] = 2;
    assert!(decode_response(&bytes).is_none());
    agrees_with_codec(&bytes);
    let head = (5u32, false, 9u128).encode();
    let prefixes: Vec<Vec<u8>> = vec![
        vec![0x01, 0x00],
        vec![0xfd, 0x00],
        vec![0x01, 0x01],
        vec![0x02, 0x00, 0x00, 0x00],
        vec![0xfe, 0xff, 0x00, 0x00],
        vec![0x02, 0x00, 0x01, 0x00],
        vec![0x03, 0x00, 0x00, 0x00, 0x00],
        vec![0x03, 0xff, 0xff, 0xff, 0x3f],
        vec![0x03, 0x00, 0x00, 0x00, 0x40],
        vec![0x07, 0x00, 0x00, 0x00, 0x40, 0x00],
        vec![0xff],
    ];
    for prefix in prefixes {
        let mut bytes = head.clone();
        bytes.extend_from_slice(&prefix);
        bytes.extend_from_slice(&[0u8; 64]);
        agrees_with_codec(&bytes);
    }
}

#[test]
fn agrees_with_the_codec_on_arbitrary_bytes() {
    let mut state: u64 = 0x2545_f491_4f6c_dd1d;
    for round in 0..400 {
        let len = 15 + (round % 80);
        let mut bytes = Vec::with_capacity(len);
        for _ in 0..len {
            state ^= state << 13;
            state ^= state >> 7;
            state ^= state << 17;
            bytes.push((state >> 24) as u8);
        }
        if bytes.len() > 4 {
            bytes[4] %= 3;
        }
        if bytes.len() > 21 && round % 2 == 0 {
            bytes[21] = (bytes[21] % 3) << 2;
        }
        agrees_with_codec(&bytes);
    }
}

#[test]
fn decodes_a_request() {
    let bytes = (13u32, 2u16, winners(3)).encode();
    let request = decode_request(&bytes).unwrap();
    assert_eq!(request.era, 13);
    assert_eq!(request.nb_winners, 2);
    assert_eq!(request.excluded.len(), 3);
    assert_eq!(request.excluded[2], AccountId::new(winners(3)[2]));
    let bytes = (7u32, 0xabcdu16, winners(0)).encode();
    let request = decode_request(&bytes).unwrap();
    assert_eq!(request.nb_winners, 0xabcd);
    assert!(decode_request(&bytes[..6].to_vec()).is_none());
    assert!(decode_request(&vec![]).is_none());
}
