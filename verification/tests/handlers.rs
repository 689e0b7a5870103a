use source_query::challenge::ChallengeStore;
use source_query::info::{
    create_info_response, default_info_config, handle_info, Environment, InfoConfig, ServerType,
};
use source_query::players::{encode_players_reply, handle_players};

fn challenge_value(reply: &[u8]) -> i32 {
    assert_eq!(reply.len(), 9);
    assert_eq!(&reply[..5], &[0xff, 0xff, 0xff, 0xff, 0x41]);
    i32::from_le_bytes([reply[5], reply[6], reply[7], reply[8]])
}

#[test]
fn info_two_step_sequence() {
    let cfg = default_info_config();
    let mut store = ChallengeStore::new();
    let probe = b"Source Engine Query\0";

    // first contact: exactly a 9-byte challenge reply
    let first = handle_info(probe, 5, &mut store, &cfg).expect("challenge reply owed");
    let v = challenge_value(&first);

    // replay with the issued value: the full info reply
    let mut retry = probe.to_vec();
    retry.extend_from_slice(&v.to_le_bytes());
    let full = handle_info(&retry, 5, &mut store, &cfg).expect("info reply owed");
    assert_eq!(&full[..6], &[0xff, 0xff, 0xff, 0xff, 0x49, 0x11]);
    assert_eq!(full, create_info_response(&cfg));

    // a third try replays a consumed challenge: silence
    assert!(handle_info(&retry, 5, &mut store, &cfg).is_none());
}

#[test]
fn info_wrong_challenge_is_dropped() {
    let cfg = default_info_config();
    let mut store = ChallengeStore::new();
    let probe = b"Source Engine Query\0";
    let first = handle_info(probe, 5, &mut store, &cfg).expect("challenge reply owed");
    let v = challenge_value(&first);

    let mut retry = probe.to_vec();
    retry.extend_from_slice(&v.wrapping_add(1).to_le_bytes());
    assert!(handle_info(&retry, 5, &mut store, &cfg).is_none());

    // the mismatch consumed the entry: even the right value is silence now
    let mut good = probe.to_vec();
    good.extend_from_slice(&v.to_le_bytes());
    assert!(handle_info(&good, 5, &mut store, &cfg).is_none());
}

#[test]
fn info_magic_gate_drops_and_keeps_state() {
    let cfg = default_info_config();
    let mut store = ChallengeStore::new();
    let probe = b"Source Engine Query\0";
    let first = handle_info(probe, 5, &mut store, &cfg).expect("challenge reply owed");
    let v = challenge_value(&first);

    // one byte off, missing terminator, or empty: no reply under any value
    let mut off = b"Source Engine Quers\0".to_vec();
    off.extend_from_slice(&v.to_le_bytes());
    assert!(handle_info(&off, 5, &mut store, &cfg).is_none());
    assert!(handle_info(b"Source Engine Query", 5, &mut store, &cfg).is_none());
    assert!(handle_info(b"", 5, &mut store, &cfg).is_none());

    // a dropped packet mutated nothing: the issued value still validates
    let mut retry = probe.to_vec();
    retry.extend_from_slice(&v.to_le_bytes());
    assert!(handle_info(&retry, 5, &mut store, &cfg).is_some());
}

#[test]
fn info_addresses_are_isolated() {
    let cfg = default_info_config();
    let mut store = ChallengeStore::new();
    let probe = b"Source Engine Query\0";
    let va = challenge_value(&handle_info(probe, 1, &mut store, &cfg).unwrap());
    let vb = challenge_value(&handle_info(probe, 2, &mut store, &cfg).unwrap());

    let mut retry_b = probe.to_vec();
    retry_b.extend_from_slice(&vb.to_le_bytes());
    assert!(handle_info(&retry_b, 2, &mut store, &cfg).is_some());

    let mut retry_a = probe.to_vec();
    retry_a.extend_from_slice(&va.to_le_bytes());
    assert!(handle_info(&retry_a, 1, &mut store, &cfg).is_some());
}

#[test]
fn info_reply_bytes_exact() {
    let reply = create_info_response(&default_info_config());
    let mut expected: Vec<u8> = vec![0xff, 0xff, 0xff, 0xff, 0x49, 0x11];
    expected.extend_from_slice(b"Gmod Server\0");
    expected.extend_from_slice(b"gm_construct\0");
    expected.extend_from_slice(b"garrysmod\0");
    expected.extend_from_slice(b"Sandbox\0");
    expected.extend_from_slice(&4000u16.to_le_bytes());
    expected.extend_from_slice(&[32, 128, 0, b'd', b'w', 0, 1]);
    expected.extend_from_slice(b"2024.10.29\0");
    expected.push(0x80 | 0x10 | 0x20 | 0x01);
    expected.extend_from_slice(&27015u16.to_le_bytes());
    expected.extend_from_slice(&1000000000000000000u64.to_le_bytes());
    expected.extend_from_slice(b" gm:sandbox gmc:other ver:241029\0");
    expected.extend_from_slice(&10000000000000000000u64.to_le_bytes());
    assert_eq!(reply, expected);
    assert_eq!(reply.len(), 121);
}

fn config_with_flags(edf: u8) -> InfoConfig {
    let mut cfg = default_info_config();
    cfg.edf = edf;
    cfg
}

#[test]
fn info_flag_tail_lengths() {
    // fixed part: 21 bytes of scalars and terminators plus the five strings
    let fixed = 21 + 11 + 12 + 9 + 7 + 10;
    assert_eq!(create_info_response(&config_with_flags(0)).len(), fixed);
    assert_eq!(create_info_response(&config_with_flags(0x80)).len(), fixed + 2);
    assert_eq!(create_info_response(&config_with_flags(0x10)).len(), fixed + 8);
    assert_eq!(
        create_info_response(&config_with_flags(0x20)).len(),
        fixed + 32 + 1
    );
    assert_eq!(create_info_response(&config_with_flags(0x01)).len(), fixed + 8);
    assert_eq!(
        create_info_response(&config_with_flags(0xb1)).len(),
        fixed + 2 + 8 + 33 + 8
    );
    // a reply without the tail ends at the flags byte
    let bare = create_info_response(&config_with_flags(0));
    assert_eq!(bare[bare.len() - 1], 0);
}

#[test]
fn wire_codes_of_kinds() {
    assert_eq!(ServerType::Dedicated.code(), b'd');
    assert_eq!(ServerType::NonDedicated.code(), b'l');
    assert_eq!(ServerType::SourceTv.code(), b'p');
    assert_eq!(Environment::Linux.code(), b'l');
    assert_eq!(Environment::Windows.code(), b'w');
    assert_eq!(Environment::Mac.code(), b'm');
}

#[test]
fn players_zero_payload_counts_as_absent() {
    let mut store = ChallengeStore::new();
    let by_zero = handle_players(&[0, 0, 0, 0], 3, &mut store).expect("challenge reply owed");
    challenge_value(&by_zero);

    let mut store2 = ChallengeStore::new();
    let by_absent = handle_players(&[], 3, &mut store2).expect("challenge reply owed");
    challenge_value(&by_absent);

    // a wrong-length payload is likewise treated as absent
    let mut store3 = ChallengeStore::new();
    let by_short = handle_players(&[1, 2, 3], 3, &mut store3).expect("challenge reply owed");
    challenge_value(&by_short);
}

#[test]
fn players_two_step_sequence() {
    let mut store = ChallengeStore::new();
    let first = handle_players(&[], 9, &mut store).expect("challenge reply owed");
    let v = challenge_value(&first);

    let full = handle_players(&v.to_le_bytes(), 9, &mut store).expect("players reply owed");
    assert_eq!(full, encode_players_reply(32));

    // consumed: the same value is silence now
    assert!(handle_players(&v.to_le_bytes(), 9, &mut store).is_none());
}

#[test]
fn players_wrong_challenge_is_dropped() {
    let mut store = ChallengeStore::new();
    let first = handle_players(&[], 9, &mut store).expect("challenge reply owed");
    let v = challenge_value(&first);
    let w = if v == i32::MAX { v - 1 } else { v + 1 };
    assert!(handle_players(&w.to_le_bytes(), 9, &mut store).is_none());
}

#[test]
fn players_reply_bytes_exact() {
    let duration = 32.0f32.to_le_bytes();
    assert_eq!(duration, [0, 0, 0, 0x42]);

    let mut expected: Vec<u8> = vec![0xff, 0xff, 0xff, 0xff, 0x44, 2];
    for i in 0u8..2 {
        expected.push(i);
        expected.extend_from_slice(format!("Player{}", i + 1).as_bytes());
        expected.push(0);
        expected.extend_from_slice(&0i32.to_le_bytes());
        expected.extend_from_slice(&duration);
    }
    assert_eq!(encode_players_reply(2), expected);
}

#[test]
fn players_reply_many_records() {
    let duration = 32.0f32.to_le_bytes();
    let mut expected: Vec<u8> = vec![0xff, 0xff, 0xff, 0xff, 0x44, 12];
    for i in 0u8..12 {
        expected.push(i);
        expected.extend_from_slice(format!("Player{}", i + 1).as_bytes());
        expected.push(0);
        expected.extend_from_slice(&0i32.to_le_bytes());
        expected.extend_from_slice(&duration);
    }
    assert_eq!(encode_players_reply(12), expected);
}

#[test]
fn players_reply_empty() {
    assert_eq!(encode_players_reply(0), vec![0xff, 0xff, 0xff, 0xff, 0x44, 0]);
}
