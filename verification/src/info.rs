//! The server-info handler: decodes an info-request payload, runs the
//! challenge handshake, and serializes the info reply.

use vstd::prelude::*;
use vstd::bytes::*;
use crate::challenge::{generate_challenge, is_challenge_valid, ChallengeStore};
use crate::codec::{
    lemma_challenge_reply_len, lemma_first_zero_props, lemma_first_zero_unique,
    lemma_i32_le_bytes_round_trip, lemma_read_cstr_of_cstr, parse_info_request, push_byte,
    push_bytes, push_cstr, push_le_u16, push_le_u64, push_marker, spec_challenge_reply, spec_cstr,
    spec_first_zero, spec_i32_from_le_bytes, spec_i32_to_le_bytes, spec_info_request_magic,
    spec_marker, spec_no_zeros, spec_opt_bytes, spec_parse_info_request, spec_read_cstr,
    InfoRequest, INFO_RESPONSE_HEADER,
};
use crate::{SERVER_CURRENT_PLAYERS, SERVER_MAX_PLAYERS};

verus! {

/// Kind of server process, with its single-byte wire code.
#[derive(Clone, Copy, PartialEq, Eq, Structural, Debug)]
pub enum ServerType {
    Dedicated,
    NonDedicated,
    SourceTv,
}

impl ServerType {
    /// Wire code of this kind: the ASCII letter the protocol assigns it.
    pub open spec fn spec_code(self) -> u8 {
        match self {
            ServerType::Dedicated => 0x64,  // 'd'
            ServerType::NonDedicated => 0x6c,  // 'l'
            ServerType::SourceTv => 0x70,  // 'p'
        }
    }

    pub fn code(&self) -> (c: u8)
        ensures
            c == self.spec_code(),
    {
        match self {
            ServerType::Dedicated => 0x64,
            ServerType::NonDedicated => 0x6c,
            ServerType::SourceTv => 0x70,
        }
    }
}

/// Host platform, with its single-byte wire code.
#[derive(Clone, Copy, PartialEq, Eq, Structural, Debug)]
pub enum Environment {
    Linux,
    Windows,
    Mac,
}

impl Environment {
    /// Wire code of this platform: the ASCII letter the protocol assigns it.
    pub open spec fn spec_code(self) -> u8 {
        match self {
            Environment::Linux => 0x6c,  // 'l'
            Environment::Windows => 0x77,  // 'w'
            Environment::Mac => 0x6d,  // 'm'
        }
    }

    pub fn code(&self) -> (c: u8)
        ensures
            c == self.spec_code(),
    {
        match self {
            Environment::Linux => 0x6c,
            Environment::Windows => 0x77,
            Environment::Mac => 0x6d,
        }
    }
}

/// A boolean as it stands on the wire: one byte, 0 or 1.
pub open spec fn spec_bool_byte(b: bool) -> u8 {
    if b {
        1u8
    } else {
        0u8
    }
}

/// The identity and status a server advertises, as plain values.
///
/// These fields are configuration supplied at startup; the handler only
/// serializes them. Which of the four tail fields the reply carries is
/// derived entirely from the bits of `edf`, the extra-data flags byte, so
/// the flags and the fields emitted can never drift apart.
pub struct InfoConfig {
    pub protocol: u8,
    pub name: Vec<u8>,
    pub map_name: Vec<u8>,
    pub folder: Vec<u8>,
    pub game: Vec<u8>,
    pub app_id: u16,
    pub players: u8,
    pub max_players: u8,
    pub bots: u8,
    pub server_type: ServerType,
    pub environment: Environment,
    pub password_protected: bool,
    pub vac_enabled: bool,
    pub version: Vec<u8>,
    pub edf: u8,
    pub port: u16,
    pub steam_id: u64,
    pub tags: Vec<u8>,
    pub game_id: u64,
}

/// The mathematical content of an `InfoConfig`: strings as byte sequences,
/// kinds as their wire codes.
pub ghost struct InfoFields {
    pub protocol: u8,
    pub name: Seq<u8>,
    pub map_name: Seq<u8>,
    pub folder: Seq<u8>,
    pub game: Seq<u8>,
    pub app_id: u16,
    pub players: u8,
    pub max_players: u8,
    pub bots: u8,
    pub server_type: u8,
    pub environment: u8,
    pub password_protected: bool,
    pub vac_enabled: bool,
    pub version: Seq<u8>,
    pub edf: u8,
    pub port: u16,
    pub steam_id: u64,
    pub tags: Seq<u8>,
    pub game_id: u64,
}

impl View for InfoConfig {
    type V = InfoFields;

    open spec fn view(&self) -> InfoFields {
        InfoFields {
            protocol: self.protocol,
            name: self.name@,
            map_name: self.map_name@,
            folder: self.folder@,
            game: self.game@,
            app_id: self.app_id,
            players: self.players,
            max_players: self.max_players,
            bots: self.bots,
            server_type: self.server_type.spec_code(),
            environment: self.environment.spec_code(),
            password_protected: self.password_protected,
            vac_enabled: self.vac_enabled,
            version: self.version@,
            edf: self.edf,
            port: self.port,
            steam_id: self.steam_id,
            tags: self.tags@,
            game_id: self.game_id,
        }
    }
}

/// Well-formed identity fields: no string carries a stray terminator.
pub open spec fn spec_info_wf(f: InfoFields) -> bool {
    &&& spec_no_zeros(f.name)
    &&& spec_no_zeros(f.map_name)
    &&& spec_no_zeros(f.folder)
    &&& spec_no_zeros(f.game)
    &&& spec_no_zeros(f.version)
    &&& spec_no_zeros(f.tags)
}

/// The bytes of an info reply, field for field in the wire order. The four
/// tail fields — port, steam identifier, tags, game identifier — appear
/// exactly when their bit of the flags byte is set.
pub open spec fn spec_info_reply(f: InfoFields) -> Seq<u8> {
    spec_marker() + seq![INFO_RESPONSE_HEADER, f.protocol] + spec_cstr(f.name) + spec_cstr(
        f.map_name,
    ) + spec_cstr(f.folder) + spec_cstr(f.game) + spec_u16_to_le_bytes(f.app_id) + seq![
        f.players,
        f.max_players,
        f.bots,
        f.server_type,
        f.environment,
        spec_bool_byte(f.password_protected),
        spec_bool_byte(f.vac_enabled),
    ] + spec_cstr(f.version) + seq![f.edf] + (if f.edf & 0x80 != 0 {
        spec_u16_to_le_bytes(f.port)
    } else {
        Seq::<u8>::empty()
    }) + (if f.edf & 0x10 != 0 {
        spec_u64_to_le_bytes(f.steam_id)
    } else {
        Seq::<u8>::empty()
    }) + (if f.edf & 0x20 != 0 {
        spec_cstr(f.tags)
    } else {
        Seq::<u8>::empty()
    }) + (if f.edf & 0x01 != 0 {
        spec_u64_to_le_bytes(f.game_id)
    } else {
        Seq::<u8>::empty()
    })
}

/// Serializes the info reply for this configuration, byte-exact per the
/// fixed field order of the protocol.
pub fn create_info_response(cfg: &InfoConfig) -> (r: Vec<u8>)
    ensures
        r@ == spec_info_reply(cfg@),
{
    let mut r: Vec<u8> = Vec::new();
    push_marker(&mut r);
    let head: Vec<u8> = vec![INFO_RESPONSE_HEADER, cfg.protocol];
    push_bytes(&mut r, head.as_slice());
    push_cstr(&mut r, cfg.name.as_slice());
    push_cstr(&mut r, cfg.map_name.as_slice());
    push_cstr(&mut r, cfg.folder.as_slice());
    push_cstr(&mut r, cfg.game.as_slice());
    push_le_u16(&mut r, cfg.app_id);
    let mid: Vec<u8> = vec![
        cfg.players,
        cfg.max_players,
        cfg.bots,
        cfg.server_type.code(),
        cfg.environment.code(),
        if cfg.password_protected { 1u8 } else { 0u8 },
        if cfg.vac_enabled { 1u8 } else { 0u8 },
    ];
    push_bytes(&mut r, mid.as_slice());
    push_cstr(&mut r, cfg.version.as_slice());
    push_byte(&mut r, cfg.edf);
    let ghost after_edf = r@;
    if cfg.edf & 0x80 != 0 {
        push_le_u16(&mut r, cfg.port);
    }
    proof {
        if cfg.edf & 0x80 == 0 {
            assert(r@ =~= after_edf + Seq::<u8>::empty());
        }
    }
    let ghost after_port = r@;
    if cfg.edf & 0x10 != 0 {
        push_le_u64(&mut r, cfg.steam_id);
    }
    proof {
        if cfg.edf & 0x10 == 0 {
            assert(r@ =~= after_port + Seq::<u8>::empty());
        }
    }
    let ghost after_sid = r@;
    if cfg.edf & 0x20 != 0 {
        push_cstr(&mut r, cfg.tags.as_slice());
    }
    proof {
        if cfg.edf & 0x20 == 0 {
            assert(r@ =~= after_sid + Seq::<u8>::empty());
        }
    }
    let ghost after_tags = r@;
    if cfg.edf & 0x01 != 0 {
        push_le_u64(&mut r, cfg.game_id);
    }
    proof {
        if cfg.edf & 0x01 == 0 {
            assert(r@ =~= after_tags + Seq::<u8>::empty());
        }
    }
    r
}

/// One handler step over the mathematical model: from the store's entries
/// and the request payload to the new entries and the optional reply.
/// `fresh` stands for the value the random generator hands a new issuance;
/// it is read only on the no-challenge path.
pub open spec fn spec_info_step(
    m: Map<u64, i32>,
    addr: u64,
    payload: Seq<u8>,
    fresh: i32,
    f: InfoFields,
) -> (Map<u64, i32>, Option<Seq<u8>>) {
    match spec_parse_info_request(payload) {
        InfoRequest::Malformed => (m, None),
        InfoRequest::NoChallenge => (m.insert(addr, fresh), Some(spec_challenge_reply(fresh))),
        InfoRequest::Challenge(c) => if m.contains_key(addr) && m[addr] == c {
            (m.remove(addr), Some(spec_info_reply(f)))
        } else {
            (m.remove(addr), None)
        },
    }
}

/// Answers an info-request payload (the bytes after the shared 5-byte
/// prefix): a malformed or mis-identified request is dropped, a request
/// without a challenge is answered with a fresh challenge now stored for
/// `addr`, and a request carrying a challenge consumes the stored entry and
/// is answered with the full info reply exactly when it matched.
pub fn handle_info(buf: &[u8], addr: u64, store: &mut ChallengeStore, cfg: &InfoConfig) -> (reply:
    Option<Vec<u8>>)
    ensures
        ({
            let req = spec_parse_info_request(buf@);
            let fresh = if req is NoChallenge {
                final(store)@[addr]
            } else {
                0i32
            };
            &&& (req is NoChallenge ==> final(store)@.contains_key(addr))
            &&& (final(store)@, spec_opt_bytes(reply)) == spec_info_step(
                old(store)@,
                addr,
                buf@,
                fresh,
                cfg@,
            )
        }),
{
    match parse_info_request(buf) {
        InfoRequest::Malformed => None,
        InfoRequest::NoChallenge => Some(generate_challenge(addr, store)),
        InfoRequest::Challenge(c) => {
            if is_challenge_valid(addr, c, store) {
                Some(create_info_response(cfg))
            } else {
                None
            }
        },
    }
}

/// Shape of the identification string: 20 bytes whose only zero is the
/// terminator at the end.
pub proof fn lemma_magic_shape()
    ensures
        spec_info_request_magic().len() == 20,
        spec_info_request_magic()[19] == 0u8,
        forall|j: int| 0 <= j < 19 ==> spec_info_request_magic()[j] != 0u8,
{
}

/// How an info-request payload that does begin with the identification
/// string decodes: alone it asks for a challenge; followed by 4 bytes it
/// carries them as its challenge value.
pub proof fn lemma_parse_magic_request(tail: Seq<u8>)
    ensures
        spec_parse_info_request(spec_info_request_magic()) == InfoRequest::NoChallenge,
        tail.len() == 4 ==> spec_parse_info_request(spec_info_request_magic() + tail)
            == InfoRequest::Challenge(spec_i32_from_le_bytes(tail)),
{
    lemma_magic_shape();
    let magic = spec_info_request_magic();
    lemma_first_zero_unique(magic, 19);
    assert(magic.take(20) =~= magic);
    if tail.len() == 4 {
        let p = magic + tail;
        assert(p[19] == 0u8);
        assert(forall|j: int| 0 <= j < 19 ==> p[j] == magic[j]);
        lemma_first_zero_unique(p, 19);
        assert(p.take(20) =~= magic);
        assert(p.subrange(20, 24) =~= tail);
    }
}

/// Magic-string gate law: an info request whose identification string
/// differs from the magic one — by any byte, or for want of a terminator —
/// is dropped with no reply and no change to the store, whatever challenge
/// bytes may follow.
pub proof fn lemma_magic_string_gate(
    m: Map<u64, i32>,
    addr: u64,
    payload: Seq<u8>,
    fresh: i32,
    f: InfoFields,
)
    requires
        !(payload.len() >= 20 && payload.take(20) == spec_info_request_magic()),
    ensures
        spec_parse_info_request(payload) == InfoRequest::Malformed,
        spec_info_step(m, addr, payload, fresh, f) == (m, Option::<Seq<u8>>::None),
{
    lemma_magic_shape();
    lemma_first_zero_props(payload);
    match spec_first_zero(payload) {
        None => {},
        Some(z) => {
            if payload.take(z + 1) == spec_info_request_magic() {
                assert(payload.take(z + 1).len() == z + 1);
                assert(z == 19);
                assert(payload.take(20) == spec_info_request_magic());
            }
        },
    }
}

/// Two-step sequence law: from any store state, an info request without a
/// challenge is answered by exactly the 9-byte challenge reply carrying the
/// issued value `v`; repeating the request with `v` appended is answered by
/// the full info reply; repeating it with any other value `w` is dropped.
/// Either repetition consumes the stored entry.
pub proof fn lemma_two_step_info(
    m: Map<u64, i32>,
    addr: u64,
    v: i32,
    w: i32,
    fresh: i32,
    f: InfoFields,
)
    ensures
        spec_info_step(m, addr, spec_info_request_magic(), v, f) == (
            m.insert(addr, v),
            Some(spec_challenge_reply(v)),
        ),
        spec_challenge_reply(v).len() == 9,
        spec_info_step(
            m.insert(addr, v),
            addr,
            spec_info_request_magic() + spec_i32_to_le_bytes(v),
            fresh,
            f,
        ) == (m.insert(addr, v).remove(addr), Some(spec_info_reply(f))),
        w != v ==> spec_info_step(
            m.insert(addr, v),
            addr,
            spec_info_request_magic() + spec_i32_to_le_bytes(w),
            fresh,
            f,
        ) == (m.insert(addr, v).remove(addr), Option::<Seq<u8>>::None),
{
    lemma_challenge_reply_len(v);
    lemma_i32_le_bytes_round_trip(v);
    lemma_i32_le_bytes_round_trip(w);
    lemma_parse_magic_request(spec_i32_to_le_bytes(v));
    lemma_parse_magic_request(spec_i32_to_le_bytes(w));
}

/// Length of the gated tail of an info reply: the bytes the four flag bits
/// add, each counted exactly when its bit is set.
pub open spec fn spec_info_tail_len(edf: u8, tags_len: nat) -> nat {
    (if edf & 0x80 != 0 {
        2nat
    } else {
        0nat
    }) + (if edf & 0x10 != 0 {
        8nat
    } else {
        0nat
    }) + (if edf & 0x20 != 0 {
        tags_len + 1
    } else {
        0nat
    }) + (if edf & 0x01 != 0 {
        8nat
    } else {
        0nat
    })
}

/// Flag-tail consistency law: for a fixed flags byte the reply's length is
/// deterministic — the fixed fields and the five terminated strings, plus
/// exactly the gated fields whose bits are set.
pub proof fn lemma_info_reply_len(f: InfoFields)
    ensures
        spec_info_reply(f).len() == 21 + f.name.len() + f.map_name.len() + f.folder.len()
            + f.game.len() + f.version.len() + spec_info_tail_len(f.edf, f.tags.len()),
{
    lemma_auto_spec_u16_to_from_le_bytes();
    lemma_auto_spec_u64_to_from_le_bytes();
    assert(spec_u16_to_le_bytes(f.app_id).len() == 2);
    assert(spec_u16_to_le_bytes(f.port).len() == 2);
    assert(spec_u64_to_le_bytes(f.steam_id).len() == 8);
    assert(spec_u64_to_le_bytes(f.game_id).len() == 8);
}

/// Fields recovered from the gated tail of an info reply, given the flags
/// byte: port, steam identifier, tags, game identifier. A field whose bit is
/// clear is absent from the wire and reported as zero or empty. The tail
/// must end exactly where the flags say it does.
pub open spec fn spec_parse_info_tail(edf: u8, b: Seq<u8>) -> Option<(u16, u64, Seq<u8>, u64)> {
    let port_step: Option<(u16, Seq<u8>)> = if edf & 0x80 != 0 {
        if b.len() >= 2 {
            Some((spec_u16_from_le_bytes(b.take(2)), b.skip(2)))
        } else {
            None
        }
    } else {
        Some((0u16, b))
    };
    match port_step {
        None => None,
        Some((port, b1)) => {
            let sid_step: Option<(u64, Seq<u8>)> = if edf & 0x10 != 0 {
                if b1.len() >= 8 {
                    Some((spec_u64_from_le_bytes(b1.take(8)), b1.skip(8)))
                } else {
                    None
                }
            } else {
                Some((0u64, b1))
            };
            match sid_step {
                None => None,
                Some((steam_id, b2)) => {
                    let tags_step: Option<(Seq<u8>, Seq<u8>)> = if edf & 0x20 != 0 {
                        spec_read_cstr(b2)
                    } else {
                        Some((Seq::<u8>::empty(), b2))
                    };
                    match tags_step {
                        None => None,
                        Some((tags, b3)) => if edf & 0x01 != 0 {
                            if b3.len() == 8 {
                                Some((port, steam_id, tags, spec_u64_from_le_bytes(b3)))
                            } else {
                                None
                            }
                        } else {
                            if b3.len() == 0 {
                                Some((port, steam_id, tags, 0u64))
                            } else {
                                None
                            }
                        },
                    }
                },
            }
        },
    }
}

/// Fields recovered from an info reply, when the bytes have its shape:
/// marker and selector, protocol byte, the four terminated identity strings,
/// the fixed scalar block, the terminated version string, the flags byte,
/// then the gated tail.
pub open spec fn spec_parse_info_reply(b: Seq<u8>) -> Option<InfoFields> {
    if b.len() < 6 || b.take(5) != spec_marker() + seq![INFO_RESPONSE_HEADER] {
        None
    } else {
        match spec_read_cstr(b.skip(6)) {
            None => None,
            Some((name, r1)) => match spec_read_cstr(r1) {
                None => None,
                Some((map_name, r2)) => match spec_read_cstr(r2) {
                    None => None,
                    Some((folder, r3)) => match spec_read_cstr(r3) {
                        None => None,
                        Some((game, r4)) => if r4.len() < 9 || r4[7] > 1 || r4[8] > 1 {
                            None
                        } else {
                            match spec_read_cstr(r4.skip(9)) {
                                None => None,
                                Some((version, r5)) => if r5.len() < 1 {
                                    None
                                } else {
                                    match spec_parse_info_tail(r5[0], r5.skip(1)) {
                                        None => None,
                                        Some((port, steam_id, tags, game_id)) => Some(
                                            (InfoFields {
                                                protocol: b[5],
                                                name: name,
                                                map_name: map_name,
                                                folder: folder,
                                                game: game,
                                                app_id: spec_u16_from_le_bytes(r4.take(2)),
                                                players: r4[2],
                                                max_players: r4[3],
                                                bots: r4[4],
                                                server_type: r4[5],
                                                environment: r4[6],
                                                password_protected: r4[7] == 1,
                                                vac_enabled: r4[8] == 1,
                                                version: version,
                                                edf: r5[0],
                                                port: port,
                                                steam_id: steam_id,
                                                tags: tags,
                                                game_id: game_id,
                                            }),
                                        ),
                                    }
                                },
                            }
                        },
                    },
                },
            },
        }
    }
}

/// Round-trip law for the info-reply shape: decoding an encoded reply
/// yields back exactly the fields that were encoded. A gated field whose
/// flag bit is clear never reaches the wire, so the law asks that such a
/// field hold its absent value — zero, or the empty string — to begin with.
#[verifier::rlimit(100)]
pub proof fn lemma_info_reply_round_trip(f: InfoFields)
    requires
        spec_info_wf(f),
        f.edf & 0x80 == 0 ==> f.port == 0,
        f.edf & 0x10 == 0 ==> f.steam_id == 0,
        f.edf & 0x20 == 0 ==> f.tags == Seq::<u8>::empty(),
        f.edf & 0x01 == 0 ==> f.game_id == 0,
    ensures
        spec_parse_info_reply(spec_info_reply(f)) == Some(f),
{
    lemma_auto_spec_u16_to_from_le_bytes();
    lemma_auto_spec_u64_to_from_le_bytes();
    assert(spec_u16_to_le_bytes(f.app_id).len() == 2);
    assert(spec_u16_to_le_bytes(f.port).len() == 2);
    assert(spec_u64_to_le_bytes(f.steam_id).len() == 8);
    assert(spec_u64_to_le_bytes(f.game_id).len() == 8);
    let b = spec_info_reply(f);
    let p_port = if f.edf & 0x80 != 0 {
        spec_u16_to_le_bytes(f.port)
    } else {
        Seq::<u8>::empty()
    };
    let p_sid = if f.edf & 0x10 != 0 {
        spec_u64_to_le_bytes(f.steam_id)
    } else {
        Seq::<u8>::empty()
    };
    let p_tags = if f.edf & 0x20 != 0 {
        spec_cstr(f.tags)
    } else {
        Seq::<u8>::empty()
    };
    let p_gid = if f.edf & 0x01 != 0 {
        spec_u64_to_le_bytes(f.game_id)
    } else {
        Seq::<u8>::empty()
    };
    let mid = seq![
        f.players,
        f.max_players,
        f.bots,
        f.server_type,
        f.environment,
        spec_bool_byte(f.password_protected),
        spec_bool_byte(f.vac_enabled),
    ];
    let rest5 = seq![f.edf] + p_port + p_sid + p_tags + p_gid;
    let rest4 = spec_u16_to_le_bytes(f.app_id) + mid + spec_cstr(f.version) + rest5;
    let rest3 = spec_cstr(f.game) + rest4;
    let rest2 = spec_cstr(f.folder) + rest3;
    let rest1 = spec_cstr(f.map_name) + rest2;
    assert(b.take(5) =~= spec_marker() + seq![INFO_RESPONSE_HEADER]);
    assert(b[5] == f.protocol);
    assert(b.skip(6) =~= spec_cstr(f.name) + rest1);
    lemma_read_cstr_of_cstr(f.name, rest1);
    lemma_read_cstr_of_cstr(f.map_name, rest2);
    lemma_read_cstr_of_cstr(f.folder, rest3);
    lemma_read_cstr_of_cstr(f.game, rest4);
    assert(rest4.len() >= 9);
    assert(rest4.take(2) =~= spec_u16_to_le_bytes(f.app_id));
    assert(rest4[2] == f.players);
    assert(rest4[3] == f.max_players);
    assert(rest4[4] == f.bots);
    assert(rest4[5] == f.server_type);
    assert(rest4[6] == f.environment);
    assert(rest4[7] == spec_bool_byte(f.password_protected));
    assert(rest4[8] == spec_bool_byte(f.vac_enabled));
    assert(rest4.skip(9) =~= spec_cstr(f.version) + rest5);
    lemma_read_cstr_of_cstr(f.version, rest5);
    assert(rest5[0] == f.edf);
    let tb = rest5.skip(1);
    assert(tb =~= p_port + p_sid + p_tags + p_gid);
    let tb1 = if f.edf & 0x80 != 0 {
        tb.skip(2)
    } else {
        tb
    };
    if f.edf & 0x80 != 0 {
        assert(tb.take(2) =~= spec_u16_to_le_bytes(f.port));
    }
    assert(tb1 =~= p_sid + p_tags + p_gid);
    let tb2 = if f.edf & 0x10 != 0 {
        tb1.skip(8)
    } else {
        tb1
    };
    if f.edf & 0x10 != 0 {
        assert(tb1.take(8) =~= spec_u64_to_le_bytes(f.steam_id));
    }
    assert(tb2 =~= p_tags + p_gid);
    if f.edf & 0x20 != 0 {
        assert(tb2 =~= spec_cstr(f.tags) + p_gid);
        lemma_read_cstr_of_cstr(f.tags, p_gid);
    }
    let tb3 = if f.edf & 0x20 != 0 {
        tb2.skip(f.tags.len() as int + 1)
    } else {
        tb2
    };
    assert(tb3 =~= p_gid);
    assert(spec_u16_from_le_bytes(spec_u16_to_le_bytes(f.app_id)) == f.app_id);
    if f.edf & 0x80 != 0 {
        assert(spec_u16_from_le_bytes(spec_u16_to_le_bytes(f.port)) == f.port);
    }
    if f.edf & 0x10 != 0 {
        assert(spec_u64_from_le_bytes(spec_u64_to_le_bytes(f.steam_id)) == f.steam_id);
    }
    if f.edf & 0x01 != 0 {
        assert(spec_u64_from_le_bytes(spec_u64_to_le_bytes(f.game_id)) == f.game_id);
    }
}

/// Extra-data flags of this deployment: port number, steam identifier,
/// tags string and game identifier are all present.
pub const EXTRA_DATA_FLAGS: u8 = 0x80 | 0x10 | 0x20 | 0x01;

/// The bytes of `Gmod Server`.
pub open spec fn spec_server_name() -> Seq<u8> {
    seq![0x47u8, 0x6du8, 0x6fu8, 0x64u8, 0x20u8, 0x53u8, 0x65u8, 0x72u8, 0x76u8, 0x65u8, 0x72u8]
}

/// The bytes of `gm_construct`.
pub open spec fn spec_server_map() -> Seq<u8> {
    seq![
        0x67u8, 0x6du8, 0x5fu8, 0x63u8, 0x6fu8, 0x6eu8, 0x73u8, 0x74u8, 0x72u8, 0x75u8, 0x63u8,
        0x74u8,
    ]
}

/// The bytes of `garrysmod`.
pub open spec fn spec_server_folder() -> Seq<u8> {
    seq![0x67u8, 0x61u8, 0x72u8, 0x72u8, 0x79u8, 0x73u8, 0x6du8, 0x6fu8, 0x64u8]
}

/// The bytes of `Sandbox`.
pub open spec fn spec_server_game() -> Seq<u8> {
    seq![0x53u8, 0x61u8, 0x6eu8, 0x64u8, 0x62u8, 0x6fu8, 0x78u8]
}

/// The bytes of `2024.10.29`.
pub open spec fn spec_server_version() -> Seq<u8> {
    seq![0x32u8, 0x30u8, 0x32u8, 0x34u8, 0x2eu8, 0x31u8, 0x30u8, 0x2eu8, 0x32u8, 0x39u8]
}

/// The bytes of ` gm:sandbox gmc:other ver:241029`.
pub open spec fn spec_server_tags() -> Seq<u8> {
    seq![
        0x20u8, 0x67u8, 0x6du8, 0x3au8, 0x73u8, 0x61u8, 0x6eu8, 0x64u8, 0x62u8, 0x6fu8, 0x78u8,
        0x20u8, 0x67u8, 0x6du8, 0x63u8, 0x3au8, 0x6fu8, 0x74u8, 0x68u8, 0x65u8, 0x72u8, 0x20u8,
        0x76u8, 0x65u8, 0x72u8, 0x3au8, 0x32u8, 0x34u8, 0x31u8, 0x30u8, 0x32u8, 0x39u8,
    ]
}

/// The identity this deployment advertises: a dedicated Windows `Gmod
/// Server` on `gm_construct`, with every extra-data field present.
pub fn default_info_config() -> (cfg: InfoConfig)
    ensures
        cfg@ == (InfoFields {
            protocol: 0x11,
            name: spec_server_name(),
            map_name: spec_server_map(),
            folder: spec_server_folder(),
            game: spec_server_game(),
            app_id: 4000,
            players: SERVER_CURRENT_PLAYERS,
            max_players: SERVER_MAX_PLAYERS,
            bots: 0,
            server_type: 0x64,
            environment: 0x77,
            password_protected: false,
            vac_enabled: true,
            version: spec_server_version(),
            edf: EXTRA_DATA_FLAGS,
            port: 27015,
            steam_id: 1000000000000000000,
            tags: spec_server_tags(),
            game_id: 10000000000000000000,
        }),
{
    let cfg = InfoConfig {
        protocol: 0x11,
        name: vec![
            0x47u8, 0x6du8, 0x6fu8, 0x64u8, 0x20u8, 0x53u8, 0x65u8, 0x72u8, 0x76u8, 0x65u8,
            0x72u8,
        ],
        map_name: vec![
            0x67u8, 0x6du8, 0x5fu8, 0x63u8, 0x6fu8, 0x6eu8, 0x73u8, 0x74u8, 0x72u8, 0x75u8,
            0x63u8, 0x74u8,
        ],
        folder: vec![0x67u8, 0x61u8, 0x72u8, 0x72u8, 0x79u8, 0x73u8, 0x6du8, 0x6fu8, 0x64u8],
        game: vec![0x53u8, 0x61u8, 0x6eu8, 0x64u8, 0x62u8, 0x6fu8, 0x78u8],
        app_id: 4000,
        players: SERVER_CURRENT_PLAYERS,
        max_players: SERVER_MAX_PLAYERS,
        bots: 0,
        server_type: ServerType::Dedicated,
        environment: Environment::Windows,
        password_protected: false,
        vac_enabled: true,
        version: vec![
            0x32u8, 0x30u8, 0x32u8, 0x34u8, 0x2eu8, 0x31u8, 0x30u8, 0x2eu8, 0x32u8, 0x39u8,
        ],
        edf: EXTRA_DATA_FLAGS,
        port: 27015,
        steam_id: 1000000000000000000,
        tags: vec![
            0x20u8, 0x67u8, 0x6du8, 0x3au8, 0x73u8, 0x61u8, 0x6eu8, 0x64u8, 0x62u8, 0x6fu8,
            0x78u8, 0x20u8, 0x67u8, 0x6du8, 0x63u8, 0x3au8, 0x6fu8, 0x74u8, 0x68u8, 0x65u8,
            0x72u8, 0x20u8, 0x76u8, 0x65u8, 0x72u8, 0x3au8, 0x32u8, 0x34u8, 0x31u8, 0x30u8,
            0x32u8, 0x39u8,
        ],
        game_id: 10000000000000000000,
    };
    proof {
        assert(cfg@.name =~= spec_server_name());
        assert(cfg@.map_name =~= spec_server_map());
        assert(cfg@.folder =~= spec_server_folder());
        assert(cfg@.game =~= spec_server_game());
        assert(cfg@.version =~= spec_server_version());
        assert(cfg@.tags =~= spec_server_tags());
    }
    cfg
}

} // verus!
