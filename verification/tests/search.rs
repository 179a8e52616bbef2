use create2crunch::codec::{chars_of, decode_hex_digits, u64_to_fixed_6};
use create2crunch::hash::keccak256_digest;
use create2crunch::salt::{address_of_digest, full_salt, header, CONTROL_CHARACTER};
use create2crunch::search::{
    checksum_address, exact_prefix_matches, raw_prefix_matches, NONCE_SPACE,
};
use create2crunch::{cpu, Config, MatchRecord, Search};

const EMPTY_HASH: [u8; 32] = [
    0xc5, 0xd2, 0x46, 0x01, 0x86, 0xf7, 0x23, 0x3c, 0x92, 0x7e, 0x7d, 0xb2, 0xdc, 0xc7, 0x03, 0xc0,
    0xe5, 0x00, 0xb6, 0x53, 0xca, 0x82, 0x27, 0x3b, 0x7b, 0xfa, 0xd8, 0x04, 0x5d, 0x85, 0xa4, 0x70,
];

const ZERO_BYTE_HASH: [u8; 32] = [
    0xbc, 0x36, 0x78, 0x9e, 0x7a, 0x1e, 0x28, 0x14, 0x36, 0x46, 0x42, 0x29, 0x82, 0x8f, 0x81, 0x7d,
    0x66, 0x12, 0xf7, 0xb4, 0x77, 0xd6, 0x65, 0x91, 0xff, 0x96, 0xa9, 0xe0, 0x64, 0xbc, 0xc9, 0x8a,
];

fn zero_config(target: &str) -> Config {
    Config {
        factory_address: [0; 20],
        calling_address: [0; 20],
        init_code_hash: EMPTY_HASH,
        gpu_device: 255,
        target_start_string: String::from(target),
    }
}

fn search_for(config: Config, segment: [u8; 6]) -> Search {
    match Search::new(config, segment) {
        Ok(search) => search,
        Err(message) => panic!("the target was turned down: {}", message),
    }
}

fn pairs(records: &[MatchRecord]) -> Vec<(String, String)> {
    records.iter().map(|record| (record.salt.clone(), record.address.clone())).collect()
}

/// Derives the address again from what a record says, with nothing but the
/// hash and the codec.
fn rederived(config: &Config, record: &MatchRecord) -> String {
    assert_eq!(&record.salt[..2], "0x");
    let salt = decode_hex_digits(&chars_of(&record.salt[2..])).unwrap();
    assert_eq!(salt.len(), 32);
    let mut message = vec![0xffu8];
    message.extend_from_slice(&config.factory_address);
    message.extend_from_slice(&salt);
    message.extend_from_slice(&config.init_code_hash);
    assert_eq!(message.len(), 85);
    let digest = keccak256_digest(&message);
    checksum_address(&address_of_digest(&digest))
}

#[test]
fn header_is_control_byte_factory_caller_segment() {
    let factory = [0x11u8; 20];
    let caller = [0x22u8; 20];
    let segment = [1u8, 2, 3, 4, 5, 6];
    let bytes = header(&factory, &caller, &segment);
    assert_eq!(bytes.len(), 47);
    assert_eq!(bytes[0], 0xff);
    assert_eq!(bytes[1..21], factory);
    assert_eq!(bytes[21..41], caller);
    assert_eq!(bytes[41..47], segment);
}

#[test]
fn salt_is_caller_segment_nonce() {
    let mut caller = [0u8; 20];
    caller[16] = 0xde;
    caller[17] = 0xad;
    caller[18] = 0xbe;
    caller[19] = 0xef;
    let text = full_salt(&caller, &[0x0a, 0x0b, 0x0c, 0x0d, 0x0e, 0x0f], &[1, 2, 3, 4, 5, 6]);
    assert_eq!(text, "0x00000000000000000000000000000000deadbeef0a0b0c0d0e0f010203040506");
    assert_eq!(text.len(), 66);
}

#[test]
fn checksum_address_has_marker_and_forty_digits() {
    let mut address = [0u8; 20];
    for (i, byte) in [
        0x5au8, 0xae, 0xb6, 0x05, 0x3f, 0x3e, 0x94, 0xc9, 0xb9, 0xa0, 0x9f, 0x33, 0x66, 0x94,
        0x35, 0xe7, 0xef, 0x1b, 0xea, 0xed,
    ]
    .iter()
    .enumerate()
    {
        address[i] = *byte;
    }
    assert_eq!(checksum_address(&address), "0x5aAeb6053F3E94C9b9A09f33669435E7Ef1BeAed");
    assert_eq!(checksum_address(&[0; 20]), "0x0000000000000000000000000000000000000000");
    assert_eq!(checksum_address(&[0xff; 20]), "0xFFfFfFffFFfffFFfFFfFFFFFffFFFffffFfFFFfF");
}

#[test]
fn derived_address_of_the_zero_example() {
    let config = Config {
        factory_address: [0; 20],
        calling_address: [0; 20],
        init_code_hash: ZERO_BYTE_HASH,
        gpu_device: 255,
        target_start_string: String::from("0x"),
    };
    let search = search_for(config, [0; 6]);
    let address = search.derive_address(&[0; 6]);
    assert_eq!(checksum_address(&address), "0x4D1A2e2bB4F88F0250f26Ffff098B0b30B26BF38");
}

#[test]
fn derived_address_of_the_factory_example() {
    let mut factory = [0u8; 20];
    factory[0] = 0xde;
    factory[1] = 0xad;
    factory[2] = 0xbe;
    factory[3] = 0xef;
    let config = Config {
        factory_address: factory,
        calling_address: [0; 20],
        init_code_hash: ZERO_BYTE_HASH,
        gpu_device: 255,
        target_start_string: String::from("0x"),
    };
    let search = search_for(config, [0; 6]);
    let address = search.derive_address(&[0; 6]);
    assert_eq!(checksum_address(&address), "0xB928f69Bb1D91Cd65274e3c79d8986362984fDA3");
}

#[test]
fn derived_address_is_the_tail_of_the_digest() {
    let mut factory = [0u8; 20];
    factory[0] = 0xde;
    factory[1] = 0xad;
    factory[2] = 0xbe;
    factory[3] = 0xef;
    let mut caller = [0u8; 20];
    caller[16] = 0xde;
    caller[17] = 0xad;
    caller[18] = 0xbe;
    caller[19] = 0xef;
    let segment = [0x0a, 0x0b, 0x0c, 0x0d, 0x0e, 0x0f];
    let nonce = [1, 2, 3, 4, 5, 6];
    let config = Config {
        factory_address: factory,
        calling_address: caller,
        init_code_hash: ZERO_BYTE_HASH,
        gpu_device: 255,
        target_start_string: String::from("0x"),
    };
    let search = search_for(config, segment);
    let address = search.derive_address(&nonce);

    let mut message = vec![0xffu8];
    message.extend_from_slice(&factory);
    message.extend_from_slice(&caller);
    message.extend_from_slice(&segment);
    message.extend_from_slice(&nonce);
    message.extend_from_slice(&ZERO_BYTE_HASH);
    assert_eq!(message.len(), 85);
    let digest = keccak256_digest(&message);
    assert_eq!(address[..], digest[12..]);
    assert_eq!(checksum_address(&address), "0x10dF69A98C6408e366F61a307a074b826Ef18068");
}

#[test]
fn address_is_the_tail_of_a_digest() {
    let mut digest = [0u8; 32];
    for (i, byte) in digest.iter_mut().enumerate() {
        *byte = i as u8;
    }
    assert_eq!(
        address_of_digest(&digest),
        [12, 13, 14, 15, 16, 17, 18, 19, 20, 21, 22, 23, 24, 25, 26, 27, 28, 29, 30, 31]
    );
}

#[test]
fn the_search_tells_its_segment() {
    let search = search_for(zero_config("0x00"), [1, 2, 3, 4, 5, 6]);
    assert_eq!(search.segment_bytes(), [1, 2, 3, 4, 5, 6]);
}

#[test]
fn raw_test_is_a_prefix_test_on_bytes() {
    let address = [0xfa, 0xca, 0xde, 0x00, 0x01];
    assert!(raw_prefix_matches(&address, &[]));
    assert!(raw_prefix_matches(&address, &[0xfa]));
    assert!(raw_prefix_matches(&address, &[0xfa, 0xca, 0xde]));
    assert!(raw_prefix_matches(&address, &address));
    assert!(!raw_prefix_matches(&address, &[0xfb]));
    assert!(!raw_prefix_matches(&address, &[0xfa, 0xca, 0xdf]));
    assert!(!raw_prefix_matches(&address, &[0xca]));
    assert!(!raw_prefix_matches(&address, &[0xfa, 0xca, 0xde, 0x00, 0x01, 0x00]));
}

#[test]
fn raw_test_fails_on_any_differing_leading_byte() {
    let target = [0xfa, 0xca, 0xde];
    for position in 0..3 {
        let mut address = [0xfau8, 0xca, 0xde, 0x11, 0x22];
        address[position] ^= 0x01;
        assert!(!raw_prefix_matches(&address, &target));
    }
    let mut address = [0xfau8, 0xca, 0xde, 0x11, 0x22];
    address[3] ^= 0x01;
    assert!(raw_prefix_matches(&address, &target));
}

#[test]
fn exact_test_is_case_sensitive() {
    let text = "0xAb10bB367c2E8CA5bF4b092dB53C14ED44475f2D";
    assert!(exact_prefix_matches(text, ""));
    assert!(exact_prefix_matches(text, "0x"));
    assert!(exact_prefix_matches(text, "0xAb"));
    assert!(exact_prefix_matches(text, "0xAb10bB"));
    assert!(exact_prefix_matches(text, text));
    assert!(!exact_prefix_matches(text, "0xab"));
    assert!(!exact_prefix_matches(text, "0xAB"));
    assert!(!exact_prefix_matches(text, "0xaB"));
    assert!(!exact_prefix_matches(text, "0xAb10bb"));
    assert!(!exact_prefix_matches(text, "Ab"));
    assert!(!exact_prefix_matches("0xAb", "0xAb1"));
}

#[test]
fn candidate_with_wrong_checksum_case_is_rejected() {
    let search = search_for(zero_config("0xAb"), [0; 6]);
    // The address of nonce 90 starts with the byte ab, written AB in its
    // checksum form; that of nonce 101 is written ab.
    let upper = search.derive_address(&u64_to_fixed_6(&90));
    assert_eq!(upper[0], 0xab);
    assert_eq!(checksum_address(&upper), "0xABBeEB829424Ffb8810f957D7E27d6d048f68fEf");
    assert!(search.evaluate(&u64_to_fixed_6(&90)).is_none());
    let lower = search.derive_address(&u64_to_fixed_6(&101));
    assert_eq!(lower[0], 0xab);
    assert!(search.evaluate(&u64_to_fixed_6(&101)).is_none());
}

#[test]
fn candidate_with_right_checksum_case_is_confirmed() {
    let search = search_for(zero_config("0xAb"), [0; 6]);
    let record = search.evaluate(&u64_to_fixed_6(&92)).unwrap();
    assert_eq!(record.salt, "0x000000000000000000000000000000000000000000000000000000000000005c");
    assert_eq!(record.address, "0xAb10bB367c2E8CA5bF4b092dB53C14ED44475f2D");
}

#[test]
fn candidate_failing_the_raw_test_is_discarded() {
    let search = search_for(zero_config("0xAb"), [0; 6]);
    let address = search.derive_address(&[0; 6]);
    assert_eq!(checksum_address(&address), "0xE33C0C7F7df4809055C3ebA6c09CFe4BaF1BD9e0");
    assert!(search.evaluate(&[0; 6]).is_none());
}

#[test]
fn each_case_of_the_target_selects_its_own_candidates() {
    let nonces = |target: &str| -> Vec<String> {
        let search = search_for(zero_config(target), [0; 6]);
        pairs(&search.sweep(0, 400)).into_iter().map(|(salt, _)| salt[62..].to_string()).collect()
    };
    assert_eq!(nonces("0xAB"), vec!["005a"]);
    assert_eq!(nonces("0xAb"), vec!["005c", "0177", "018e"]);
    assert_eq!(nonces("0xab"), vec!["0065"]);
    assert_eq!(nonces("0xaB"), vec!["0141"]);
}

#[test]
fn sweep_collects_the_matches_in_order() {
    let search = search_for(zero_config("0x00"), [0; 6]);
    let found = pairs(&search.sweep(0, 200));
    assert_eq!(
        found,
        vec![
            (
                String::from("0x000000000000000000000000000000000000000000000000000000000000006c"),
                String::from("0x00D9E90D7E04E043Ac69aC4D95fF61001cf630f1"),
            ),
            (
                String::from("0x000000000000000000000000000000000000000000000000000000000000008d"),
                String::from("0x007E9923FE7591Baa3293Bd2aC206C592183fdB4"),
            ),
        ]
    );
}

#[test]
fn sweep_leaves_out_its_upper_end() {
    let search = search_for(zero_config("0x00"), [0; 6]);
    assert_eq!(search.sweep(0, 108).len(), 0);
    assert_eq!(search.sweep(0, 109).len(), 1);
    assert_eq!(search.sweep(108, 109).len(), 1);
    assert_eq!(search.sweep(109, 141).len(), 0);
    assert_eq!(search.sweep(109, 142).len(), 1);
    assert_eq!(search.sweep(141, 141).len(), 0);
    assert_eq!(search.sweep(200, 100).len(), 0);
}

#[test]
fn sweep_in_two_parts_finds_the_same() {
    let search = search_for(zero_config("0x00"), [0; 6]);
    let whole = pairs(&search.sweep(0, 3000));
    let mut parts = pairs(&search.sweep(0, 1865));
    parts.extend(pairs(&search.sweep(1865, 3000)));
    assert_eq!(whole, parts);
    assert_eq!(whole.len(), 6);
}

#[test]
fn sweep_agrees_with_single_evaluations() {
    let search = search_for(zero_config("0x00"), [9, 8, 7, 6, 5, 4]);
    let swept = pairs(&search.sweep(0, 1500));
    let mut single: Vec<MatchRecord> = Vec::new();
    for x in 0..1500u64 {
        if let Some(record) = search.evaluate(&u64_to_fixed_6(&x)) {
            single.push(record);
        }
    }
    assert_eq!(swept, pairs(&single));
}

#[test]
fn empty_target_matches_every_candidate() {
    let search = search_for(zero_config("0x"), [0; 6]);
    assert_eq!(search.sweep(0, 50).len(), 50);
}

#[test]
fn the_segment_is_part_of_the_salt() {
    let search = search_for(zero_config("0x"), [0xa1, 0xb2, 0xc3, 0xd4, 0xe5, 0xf6]);
    let record = search.evaluate(&[0, 0, 0, 0, 0x12, 0x34]).unwrap();
    assert_eq!(record.salt, "0x0000000000000000000000000000000000000000a1b2c3d4e5f6000000001234");
    assert_eq!(rederived(&zero_config("0x"), &record), record.address);
}

#[test]
fn malformed_target_stops_the_search_before_it_begins() {
    assert_eq!(
        Search::new(zero_config("00"), [0; 6]).err(),
        Some("target_start argument must start with 0x.")
    );
    assert_eq!(
        Search::new(zero_config("0xzz"), [0; 6]).err(),
        Some("invalid target address start provided, not hex string.")
    );
    assert_eq!(
        Search::new(zero_config("0x000"), [0; 6]).err(),
        Some("invalid target address start provided, odd number of hex digits.")
    );
    assert_eq!(
        Search::with_random_segment(zero_config("0x000")).err(),
        Some("invalid target address start provided, odd number of hex digits.")
    );
    assert_eq!(
        cpu(zero_config("0x0g"), 10).err(),
        Some("invalid target address start provided, not hex string.")
    );
}

#[test]
fn record_line_has_salt_arrow_address() {
    let record = MatchRecord {
        salt: String::from("0x000000000000000000000000000000000000000000000000000000000000006c"),
        address: String::from("0x00D9E90D7E04E043Ac69aC4D95fF61001cf630f1"),
    };
    let mut expected = String::new();
    expected.push_str("0x000000000000000000000000000000000000000000000000000000000000006c");
    expected.push_str(" => ");
    expected.push_str("0x00D9E90D7E04E043Ac69aC4D95fF61001cf630f1");
    assert_eq!(record.line(), expected);
    assert_eq!(record.line().len(), 66 + 4 + 42);
}

#[test]
fn end_to_end_with_a_fixed_segment() {
    let config = zero_config("0x00");
    let search = search_for(zero_config("0x00"), [0; 6]);
    let found = search.sweep(0, 4096);
    assert!(!found.is_empty());
    for record in &found {
        assert_eq!(&record.address[..4], "0x00");
        assert_eq!(record.salt.len(), 66);
        assert_eq!(record.address.len(), 42);
        assert_eq!(rederived(&config, record), record.address);
    }
}

#[test]
fn end_to_end_with_a_random_segment() {
    let config = zero_config("0x00");
    let found = match cpu(zero_config("0x00"), 20000) {
        Ok(found) => found,
        Err(message) => panic!("the search did not start: {}", message),
    };
    assert!(!found.is_empty());
    let segment = found[0].salt[42..54].to_string();
    let mut last_nonce = String::new();
    for record in &found {
        assert_eq!(&record.address[..4], "0x00");
        assert_eq!(&record.salt[..42], "0x0000000000000000000000000000000000000000");
        assert_eq!(&record.salt[42..54], segment);
        assert!(record.salt[54..].to_string() > last_nonce);
        last_nonce = record.salt[54..].to_string();
        assert_eq!(rederived(&config, record), record.address);
    }
}

#[test]
fn random_segments_differ_between_passes() {
    let mut segments: Vec<String> = Vec::new();
    for _ in 0..8 {
        let found = cpu(zero_config("0x"), 1).unwrap();
        assert_eq!(found.len(), 1);
        segments.push(found[0].salt[42..54].to_string());
    }
    segments.sort();
    segments.dedup();
    assert!(segments.len() > 1);
}

#[test]
fn nonce_space_has_48_bits() {
    assert_eq!(NONCE_SPACE, 1u64 << 48);
    assert_eq!(CONTROL_CHARACTER, 0xff);
}

#[test]
fn sweep_reaches_the_last_nonce() {
    let search = search_for(zero_config("0x"), [0; 6]);
    let found = pairs(&search.sweep(NONCE_SPACE - 3, NONCE_SPACE));
    let nonces: Vec<&str> = found.iter().map(|(salt, _)| &salt[54..]).collect();
    assert_eq!(nonces, vec!["fffffffffffd", "fffffffffffe", "ffffffffffff"]);
}
