use source_query::codec::{
    encode_challenge_reply, info_request_magic, parse_info_request, parse_players_challenge,
    u8_to_decimal, InfoRequest,
};

#[test]
fn challenge_reply_bytes_exact() {
    let r = encode_challenge_reply(0x12345678);
    assert_eq!(r, vec![0xff, 0xff, 0xff, 0xff, 0x41, 0x78, 0x56, 0x34, 0x12]);
}

#[test]
fn challenge_reply_negative_value() {
    let r = encode_challenge_reply(-2);
    assert_eq!(r, vec![0xff, 0xff, 0xff, 0xff, 0x41, 0xfe, 0xff, 0xff, 0xff]);
}

#[test]
fn challenge_reply_round_trips() {
    for v in [0i32, 1, -1, i32::MIN, i32::MAX, 0x0badf00d] {
        let r = encode_challenge_reply(v);
        assert_eq!(r.len(), 9);
        assert_eq!(&r[..5], &[0xff, 0xff, 0xff, 0xff, 0x41]);
        let back = i32::from_le_bytes([r[5], r[6], r[7], r[8]]);
        assert_eq!(back, v);
    }
}

#[test]
fn magic_bytes_are_the_terminated_literal() {
    let m = info_request_magic();
    assert_eq!(m, b"Source Engine Query\0".to_vec());
}

#[test]
fn parse_info_request_without_challenge() {
    assert_eq!(
        parse_info_request(b"Source Engine Query\0"),
        InfoRequest::NoChallenge
    );
}

#[test]
fn parse_info_request_with_challenge() {
    let mut p = b"Source Engine Query\0".to_vec();
    p.extend_from_slice(&0x01020304i32.to_le_bytes());
    assert_eq!(parse_info_request(&p), InfoRequest::Challenge(0x01020304));
}

#[test]
fn parse_info_request_short_tail_counts_as_absent() {
    let mut p = b"Source Engine Query\0".to_vec();
    p.extend_from_slice(&[0x01, 0x02, 0x03]);
    assert_eq!(parse_info_request(&p), InfoRequest::NoChallenge);
}

#[test]
fn parse_info_request_rejects_wrong_magic() {
    assert_eq!(
        parse_info_request(b"Source Engine Quers\0"),
        InfoRequest::Malformed
    );
    // no terminator at all
    assert_eq!(
        parse_info_request(b"Source Engine Query"),
        InfoRequest::Malformed
    );
    // terminator too early
    assert_eq!(parse_info_request(b"Source\0"), InfoRequest::Malformed);
    assert_eq!(parse_info_request(b""), InfoRequest::Malformed);
}

#[test]
fn parse_players_challenge_lengths() {
    assert_eq!(parse_players_challenge(&[]), 0);
    assert_eq!(parse_players_challenge(&[1, 2, 3]), 0);
    assert_eq!(parse_players_challenge(&[1, 2, 3, 4, 5]), 0);
    assert_eq!(parse_players_challenge(&0x7f010203i32.to_le_bytes()), 0x7f010203);
    assert_eq!(parse_players_challenge(&(-5i32).to_le_bytes()), -5);
}

/// Reads a null-terminated string: the bytes before the terminator, and the
/// position just past it.
fn read_cstr(b: &[u8], at: usize) -> (Vec<u8>, usize) {
    let z = b[at..].iter().position(|&x| x == 0).expect("terminator owed");
    (b[at..at + z].to_vec(), at + z + 1)
}

#[test]
fn info_reply_decodes_back_to_its_fields() {
    let cfg = source_query::info::default_info_config();
    let b = source_query::info::create_info_response(&cfg);

    assert_eq!(&b[..5], &[0xff, 0xff, 0xff, 0xff, 0x49]);
    assert_eq!(b[5], 0x11);
    let (name, at) = read_cstr(&b, 6);
    let (map_name, at) = read_cstr(&b, at);
    let (folder, at) = read_cstr(&b, at);
    let (game, at) = read_cstr(&b, at);
    assert_eq!(name, b"Gmod Server".to_vec());
    assert_eq!(map_name, b"gm_construct".to_vec());
    assert_eq!(folder, b"garrysmod".to_vec());
    assert_eq!(game, b"Sandbox".to_vec());
    assert_eq!(u16::from_le_bytes([b[at], b[at + 1]]), 4000);
    let (players, max_players, bots) = (b[at + 2], b[at + 3], b[at + 4]);
    assert_eq!((players, max_players, bots), (32, 128, 0));
    assert_eq!((b[at + 5], b[at + 6]), (b'd', b'w'));
    assert_eq!((b[at + 7], b[at + 8]), (0, 1));
    let (version, at) = read_cstr(&b, at + 9);
    assert_eq!(version, b"2024.10.29".to_vec());
    let edf = b[at];
    assert_eq!(edf, 0x80 | 0x10 | 0x20 | 0x01);
    let at = at + 1;
    assert_eq!(u16::from_le_bytes([b[at], b[at + 1]]), 27015);
    let at = at + 2;
    let sid = u64::from_le_bytes(b[at..at + 8].try_into().unwrap());
    assert_eq!(sid, 1000000000000000000);
    let (tags, at) = read_cstr(&b, at + 8);
    assert_eq!(tags, b" gm:sandbox gmc:other ver:241029".to_vec());
    let gid = u64::from_le_bytes(b[at..at + 8].try_into().unwrap());
    assert_eq!(gid, 10000000000000000000);
    // the reply ends exactly where the flags say it does
    assert_eq!(at + 8, b.len());
}

#[test]
fn players_reply_decodes_back_to_its_records() {
    let b = source_query::players::encode_players_reply(3);
    assert_eq!(&b[..5], &[0xff, 0xff, 0xff, 0xff, 0x44]);
    let count = b[5];
    assert_eq!(count, 3);
    let mut at: usize = 6;
    for i in 0u8..count {
        assert_eq!(b[at], i);
        let (name, next) = read_cstr(&b, at + 1);
        assert_eq!(name, format!("Player{}", i + 1).into_bytes());
        let score = i32::from_le_bytes(b[next..next + 4].try_into().unwrap());
        assert_eq!(score, 0);
        let duration = f32::from_le_bytes(b[next + 4..next + 8].try_into().unwrap());
        assert_eq!(duration, 32.0);
        at = next + 8;
    }
    // the reply ends exactly after the last record
    assert_eq!(at, b.len());
}

#[test]
fn decimal_rendering() {
    assert_eq!(u8_to_decimal(0), b"0".to_vec());
    assert_eq!(u8_to_decimal(7), b"7".to_vec());
    assert_eq!(u8_to_decimal(10), b"10".to_vec());
    assert_eq!(u8_to_decimal(40), b"40".to_vec());
    assert_eq!(u8_to_decimal(100), b"100".to_vec());
    assert_eq!(u8_to_decimal(255), b"255".to_vec());
}
