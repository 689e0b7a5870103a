//! The player-list handler: decodes a players-request payload, runs the
//! challenge handshake, and serializes the synthetic player list.

use vstd::prelude::*;
use vstd::bytes::*;
use crate::challenge::{generate_challenge, is_challenge_valid, ChallengeStore};
use crate::codec::{
    lemma_decimal_digits, lemma_i32_le_bytes_round_trip, lemma_read_cstr_of_cstr,
    parse_players_challenge, push_byte, push_bytes, push_le_u32, push_marker, spec_challenge_reply,
    spec_cstr, spec_decimal, spec_i32_from_le_bytes, spec_i32_to_le_bytes, spec_marker,
    spec_no_zeros, spec_opt_bytes, spec_players_challenge, spec_read_cstr, u8_to_decimal,
    PLAYER_RESPONSE_HEADER,
};
use crate::SERVER_CURRENT_PLAYERS;

verus! {

/// Score every synthetic record reports.
pub const PLAYER_SCORE: i32 = 0;

/// IEEE-754 bits of the fixed 32-second connection duration every synthetic
/// record reports, serialized little-endian like every other 4-byte field.
pub const PLAYER_DURATION_BITS: u32 = 0x4200_0000;

/// The bytes of `Player`, the stem of every synthetic player name.
pub open spec fn spec_player_name_prefix() -> Seq<u8> {
    seq![0x50u8, 0x6cu8, 0x61u8, 0x79u8, 0x65u8, 0x72u8]
}

/// Name of the player with the given one-based ordinal: `Player` then the
/// ordinal in decimal.
pub open spec fn spec_player_name(ordinal: nat) -> Seq<u8> {
    spec_player_name_prefix() + spec_decimal(ordinal)
}

/// One player record: ordinal byte `i`, the terminated name `Player{i+1}`,
/// the score, then the duration bits, integers little-endian.
pub open spec fn spec_player_record(i: nat) -> Seq<u8> {
    seq![i as u8] + spec_cstr(spec_player_name(i + 1)) + spec_i32_to_le_bytes(PLAYER_SCORE)
        + spec_u32_to_le_bytes(PLAYER_DURATION_BITS)
}

/// The records with indices `i` up to `count`, in order.
pub open spec fn spec_player_records(i: nat, count: nat) -> Seq<u8>
    decreases count - i,
{
    if i >= count {
        Seq::<u8>::empty()
    } else {
        spec_player_record(i) + spec_player_records(i + 1, count)
    }
}

/// The bytes of a players reply: marker, selector, the player count, then
/// that many records with strictly increasing indices from zero.
pub open spec fn spec_players_reply(count: u8) -> Seq<u8> {
    spec_marker() + seq![PLAYER_RESPONSE_HEADER, count] + spec_player_records(0, count as nat)
}

/// The name stem as request bytes.
fn player_name_prefix() -> (r: Vec<u8>)
    ensures
        r@ == spec_player_name_prefix(),
{
    let r: Vec<u8> = vec![0x50u8, 0x6cu8, 0x61u8, 0x79u8, 0x65u8, 0x72u8];
    proof {
        assert(r@ =~= spec_player_name_prefix());
    }
    r
}

/// Serializes the players reply for the given count, byte-exact.
pub fn encode_players_reply(count: u8) -> (r: Vec<u8>)
    ensures
        r@ == spec_players_reply(count),
{
    let mut r: Vec<u8> = Vec::new();
    push_marker(&mut r);
    let head: Vec<u8> = vec![PLAYER_RESPONSE_HEADER, count];
    push_bytes(&mut r, head.as_slice());
    let prefix = player_name_prefix();
    let mut i: u8 = 0;
    while i < count
        invariant
            i <= count,
            prefix@ == spec_player_name_prefix(),
            r@ + spec_player_records(i as nat, count as nat) == spec_marker() + seq![
                PLAYER_RESPONSE_HEADER,
                count,
            ] + spec_player_records(0, count as nat),
        decreases count - i,
    {
        let ghost prev = r@;
        push_byte(&mut r, i);
        push_bytes(&mut r, prefix.as_slice());
        let digits = u8_to_decimal(i + 1);
        push_bytes(&mut r, digits.as_slice());
        push_byte(&mut r, 0u8);
        push_le_u32(&mut r, PLAYER_SCORE as u32);
        push_le_u32(&mut r, PLAYER_DURATION_BITS);
        proof {
            assert(spec_i32_to_le_bytes(PLAYER_SCORE) == spec_u32_to_le_bytes(0u32));
            assert(r@ =~= prev + spec_player_record(i as nat));
            assert(prev + spec_player_record(i as nat) + spec_player_records(
                i as nat + 1,
                count as nat,
            ) =~= prev + spec_player_records(i as nat, count as nat));
        }
        i += 1;
    }
    proof {
        assert(r@ + spec_player_records(count as nat, count as nat) =~= r@);
    }
    r
}

/// One handler step over the mathematical model: from the store's entries
/// and the request payload to the new entries and the optional reply.
/// `fresh` stands for the value the random generator hands a new issuance;
/// it is read only when the payload carries no challenge — which the
/// protocol writes as a missing payload or the value zero.
pub open spec fn spec_players_step(
    m: Map<u64, i32>,
    addr: u64,
    payload: Seq<u8>,
    fresh: i32,
    count: u8,
) -> (Map<u64, i32>, Option<Seq<u8>>) {
    let c = spec_players_challenge(payload);
    if c == 0 {
        (m.insert(addr, fresh), Some(spec_challenge_reply(fresh)))
    } else if m.contains_key(addr) && m[addr] == c {
        (m.remove(addr), Some(spec_players_reply(count)))
    } else {
        (m.remove(addr), None)
    }
}

/// Answers a players-request payload (the bytes after the shared 5-byte
/// prefix): absent or zero challenge draws a fresh challenge now stored for
/// `addr`; a nonzero challenge consumes the stored entry and is answered
/// with the player list exactly when it matched.
pub fn handle_players(buf: &[u8], addr: u64, store: &mut ChallengeStore) -> (reply: Option<
    Vec<u8>,
>)
    ensures
        ({
            let c = spec_players_challenge(buf@);
            let fresh = if c == 0 {
                final(store)@[addr]
            } else {
                0i32
            };
            &&& (c == 0 ==> final(store)@.contains_key(addr))
            &&& (final(store)@, spec_opt_bytes(reply)) == spec_players_step(
                old(store)@,
                addr,
                buf@,
                fresh,
                SERVER_CURRENT_PLAYERS,
            )
        }),
{
    let challenge = parse_players_challenge(buf);
    if challenge == 0 {
        return Some(generate_challenge(addr, store));
    }
    if !is_challenge_valid(addr, challenge, store) {
        return None;
    }
    Some(encode_players_reply(SERVER_CURRENT_PLAYERS))
}

/// Fields of one player record as they stand on the wire.
pub ghost struct PlayerFields {
    pub index: u8,
    pub name: Seq<u8>,
    pub score: i32,
    pub duration_bits: u32,
}

/// The record this deployment synthesizes for index `i`.
pub open spec fn spec_synth_player(i: nat) -> PlayerFields {
    PlayerFields {
        index: i as u8,
        name: spec_player_name(i + 1),
        score: PLAYER_SCORE,
        duration_bits: PLAYER_DURATION_BITS,
    }
}

/// Fields recovered from `n` consecutive player records, when the bytes
/// have that shape and end exactly after the last record.
pub open spec fn spec_parse_player_records(b: Seq<u8>, n: nat) -> Option<Seq<PlayerFields>>
    decreases n,
{
    if n == 0 {
        if b.len() == 0 {
            Some(Seq::<PlayerFields>::empty())
        } else {
            None
        }
    } else if b.len() < 1 {
        None
    } else {
        match spec_read_cstr(b.skip(1)) {
            None => None,
            Some((name, rest)) => if rest.len() < 8 {
                None
            } else {
                match spec_parse_player_records(rest.skip(8), (n - 1) as nat) {
                    None => None,
                    Some(tail) => Some(
                        seq![
                            (PlayerFields {
                                index: b[0],
                                name: name,
                                score: spec_i32_from_le_bytes(rest.take(4)),
                                duration_bits: spec_u32_from_le_bytes(rest.subrange(4, 8)),
                            }),
                        ] + tail,
                    ),
                }
            },
        }
    }
}

/// Fields recovered from a players reply: the count byte, then that many
/// records.
pub open spec fn spec_parse_players_reply(b: Seq<u8>) -> Option<(u8, Seq<PlayerFields>)> {
    if b.len() < 6 || b.take(5) != spec_marker() + seq![PLAYER_RESPONSE_HEADER] {
        None
    } else {
        match spec_parse_player_records(b.skip(6), b[5] as nat) {
            None => None,
            Some(records) => Some((b[5], records)),
        }
    }
}

pub proof fn lemma_player_name_no_zeros(ordinal: nat)
    ensures
        spec_no_zeros(spec_player_name(ordinal)),
{
    lemma_decimal_digits(ordinal);
    let name = spec_player_name(ordinal);
    assert forall|i: int| 0 <= i < name.len() implies name[i] != 0u8 by {
        if i < 6 {
            assert(name[i] == spec_player_name_prefix()[i]);
        } else {
            assert(name[i] == spec_decimal(ordinal)[i - 6]);
        }
    }
}

pub proof fn lemma_player_records_round_trip(i: nat, count: nat)
    requires
        i <= count,
    ensures
        spec_parse_player_records(
            spec_player_records(i, count),
            (count - i) as nat,
        ) == Some(Seq::new((count - i) as nat, |k: int| spec_synth_player((i + k) as nat))),
    decreases count - i,
{
    lemma_auto_spec_u32_to_from_le_bytes();
    if i >= count {
        assert(Seq::new((count - i) as nat, |k: int| spec_synth_player((i + k) as nat))
            =~= Seq::<PlayerFields>::empty());
    } else {
        let b = spec_player_records(i, count);
        let restrec = spec_player_records(i + 1, count);
        let name = spec_player_name(i + 1);
        let after = spec_i32_to_le_bytes(PLAYER_SCORE) + spec_u32_to_le_bytes(
            PLAYER_DURATION_BITS,
        ) + restrec;
        assert(b[0] == i as u8);
        assert(b.skip(1) =~= spec_cstr(name) + after);
        lemma_player_name_no_zeros(i + 1);
        lemma_read_cstr_of_cstr(name, after);
        assert(spec_u32_to_le_bytes(PLAYER_DURATION_BITS).len() == 4);
        assert(after.take(4) =~= spec_i32_to_le_bytes(PLAYER_SCORE));
        assert(after.subrange(4, 8) =~= spec_u32_to_le_bytes(PLAYER_DURATION_BITS));
        assert(after.skip(8) =~= restrec);
        lemma_i32_le_bytes_round_trip(PLAYER_SCORE);
        assert(spec_u32_from_le_bytes(spec_u32_to_le_bytes(PLAYER_DURATION_BITS))
            == PLAYER_DURATION_BITS);
        lemma_player_records_round_trip(i + 1, count);
        assert(seq![spec_synth_player(i)] + Seq::new(
            (count - (i + 1)) as nat,
            |k: int| spec_synth_player((i + 1 + k) as nat),
        ) =~= Seq::new((count - i) as nat, |k: int| spec_synth_player((i + k) as nat)));
    }
}

/// Round-trip law for the players-reply shape: decoding an encoded reply
/// yields back the count and, for every index, exactly the record fields
/// that were encoded — ordinal, name, score and duration bits.
pub proof fn lemma_players_reply_round_trip(count: u8)
    ensures
        spec_parse_players_reply(spec_players_reply(count)) == Some(
            (count, Seq::new(count as nat, |k: int| spec_synth_player(k as nat))),
        ),
{
    let b = spec_players_reply(count);
    assert(b.take(5) =~= spec_marker() + seq![PLAYER_RESPONSE_HEADER]);
    assert(b[5] == count);
    assert(b.skip(6) =~= spec_player_records(0, count as nat));
    lemma_player_records_round_trip(0, count as nat);
    assert(Seq::new(count as nat, |k: int| spec_synth_player((0 + k) as nat)) =~= Seq::new(
        count as nat,
        |k: int| spec_synth_player(k as nat),
    ));
}

/// Zero-as-absent law: a players request whose 4-byte payload decodes to
/// zero takes the same step — same new store state, same reply — as one
/// with no payload at all.
pub proof fn lemma_players_zero_as_absent(m: Map<u64, i32>, addr: u64, fresh: i32, count: u8)
    ensures
        spec_players_step(m, addr, spec_i32_to_le_bytes(0i32), fresh, count) == spec_players_step(
            m,
            addr,
            Seq::<u8>::empty(),
            fresh,
            count,
        ),
{
    crate::codec::lemma_i32_le_bytes_round_trip(0i32);
}

} // verus!
