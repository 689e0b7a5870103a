//! Stateless wire codec for the query protocol's fixed binary layouts.
//!
//! Handlers receive only the payload that follows the shared 5-byte request
//! prefix (4-byte marker plus 1-byte type selector), which the dispatcher
//! strips before handoff. All multi-byte integers on the wire are
//! little-endian and all strings are null-terminated.

use vstd::prelude::*;
use vstd::bytes::*;

verus! {

/// Response-type selector of a challenge reply.
pub const CHALLENGE_RESPONSE_HEADER: u8 = 0x41;

/// Response-type selector of a server-info reply.
pub const INFO_RESPONSE_HEADER: u8 = 0x49;

/// Response-type selector of a player-list reply.
pub const PLAYER_RESPONSE_HEADER: u8 = 0x44;

/// The 4-byte simple-response marker that opens every reply.
pub open spec fn spec_marker() -> Seq<u8> {
    seq![0xffu8, 0xffu8, 0xffu8, 0xffu8]
}

/// A string as it stands on the wire: its bytes followed by the terminator.
pub open spec fn spec_cstr(s: Seq<u8>) -> Seq<u8> {
    s + seq![0u8]
}

/// True when no byte of `s` is the string terminator.
pub open spec fn spec_no_zeros(s: Seq<u8>) -> bool {
    forall|i: int| 0 <= i < s.len() ==> s[i] != 0u8
}

/// Little-endian bytes of a signed 32-bit value (its two's-complement bits).
pub open spec fn spec_i32_to_le_bytes(v: i32) -> Seq<u8> {
    spec_u32_to_le_bytes(#[verifier::truncate] (v as u32))
}

/// Signed 32-bit value read from 4 little-endian bytes.
pub open spec fn spec_i32_from_le_bytes(s: Seq<u8>) -> i32 {
    #[verifier::truncate] (spec_u32_from_le_bytes(s) as i32)
}

pub proof fn lemma_i32_le_bytes_round_trip(v: i32)
    ensures
        spec_i32_to_le_bytes(v).len() == 4,
        spec_i32_from_le_bytes(spec_i32_to_le_bytes(v)) == v,
{
    lemma_auto_spec_u32_to_from_le_bytes();
    let u = #[verifier::truncate] (v as u32);
    assert(spec_u32_to_le_bytes(u).len() == 4);
    assert(spec_u32_from_le_bytes(spec_u32_to_le_bytes(u)) == u);
    assert(#[verifier::truncate] ((#[verifier::truncate] (v as u32)) as i32) == v)
        by (bit_vector);
}

/// Appends every byte of `bytes` to `out`.
pub fn push_bytes(out: &mut Vec<u8>, bytes: &[u8])
    ensures
        final(out)@ == old(out)@ + bytes@,
{
    let n = bytes.len();
    let mut i: usize = 0;
    while i < n
        invariant
            i <= n,
            n == bytes@.len(),
            out@ == old(out)@ + bytes@.take(i as int),
        decreases n - i,
    {
        out.push(bytes[i]);
        proof {
            assert(old(out)@ + bytes@.take(i + 1) =~= (old(out)@ + bytes@.take(i as int)).push(
                bytes@[i as int],
            ));
        }
        i += 1;
    }
    proof {
        assert(bytes@.take(n as int) =~= bytes@);
    }
}

/// Appends one byte to `out`, stated as concatenation so that longer
/// layouts chain definitionally.
pub fn push_byte(out: &mut Vec<u8>, b: u8)
    ensures
        final(out)@ == old(out)@ + seq![b],
{
    out.push(b);
    proof {
        assert(out@ =~= old(out)@ + seq![b]);
    }
}

/// Appends a string's bytes and its terminator to `out`.
pub fn push_cstr(out: &mut Vec<u8>, s: &[u8])
    ensures
        final(out)@ == old(out)@ + spec_cstr(s@),
{
    push_bytes(out, s);
    out.push(0u8);
    proof {
        assert(out@ =~= old(out)@ + spec_cstr(s@));
    }
}

/// Appends the 4-byte simple-response marker to `out`.
pub fn push_marker(out: &mut Vec<u8>)
    ensures
        final(out)@ == old(out)@ + spec_marker(),
{
    out.push(0xffu8);
    out.push(0xffu8);
    out.push(0xffu8);
    out.push(0xffu8);
    proof {
        assert(out@ =~= old(out)@ + spec_marker());
    }
}

/// Appends a 16-bit value in little-endian order to `out`.
pub fn push_le_u16(out: &mut Vec<u8>, v: u16)
    ensures
        final(out)@ == old(out)@ + spec_u16_to_le_bytes(v),
{
    let b = u16_to_le_bytes(v);
    push_bytes(out, b.as_slice());
}

/// Appends a 32-bit value in little-endian order to `out`.
pub fn push_le_u32(out: &mut Vec<u8>, v: u32)
    ensures
        final(out)@ == old(out)@ + spec_u32_to_le_bytes(v),
{
    let b = u32_to_le_bytes(v);
    push_bytes(out, b.as_slice());
}

/// Appends a 64-bit value in little-endian order to `out`.
pub fn push_le_u64(out: &mut Vec<u8>, v: u64)
    ensures
        final(out)@ == old(out)@ + spec_u64_to_le_bytes(v),
{
    let b = u64_to_le_bytes(v);
    push_bytes(out, b.as_slice());
}

/// Index of the first zero byte of `s`, if any.
pub open spec fn spec_first_zero(s: Seq<u8>) -> Option<int>
    decreases s.len(),
{
    if s.len() == 0 {
        None
    } else if s[0] == 0u8 {
        Some(0int)
    } else {
        match spec_first_zero(s.drop_first()) {
            None => None,
            Some(i) => Some(i + 1),
        }
    }
}

pub proof fn lemma_first_zero_props(s: Seq<u8>)
    ensures
        match spec_first_zero(s) {
            Some(i) => 0 <= i < s.len() && s[i] == 0u8 && (forall|j: int|
                0 <= j < i ==> s[j] != 0u8),
            None => spec_no_zeros(s),
        },
    decreases s.len(),
{
    if s.len() != 0 && s[0] != 0u8 {
        lemma_first_zero_props(s.drop_first());
        match spec_first_zero(s.drop_first()) {
            Some(i) => {
                assert(s.drop_first()[i] == 0u8);
                assert forall|j: int| 0 <= j < i + 1 implies s[j] != 0u8 by {
                    if j > 0 {
                        assert(s.drop_first()[j - 1] != 0u8);
                    }
                }
            },
            None => {
                assert forall|j: int| 0 <= j < s.len() implies s[j] != 0u8 by {
                    if j > 0 {
                        assert(s.drop_first()[j - 1] != 0u8);
                    }
                }
            },
        }
    }
}

pub proof fn lemma_first_zero_unique(s: Seq<u8>, i: int)
    requires
        0 <= i < s.len(),
        s[i] == 0u8,
        forall|j: int| 0 <= j < i ==> s[j] != 0u8,
    ensures
        spec_first_zero(s) == Some(i),
    decreases s.len(),
{
    if i > 0 {
        lemma_first_zero_unique(s.drop_first(), i - 1);
    }
}

/// The first zero of a terminated string followed by anything is exactly the
/// terminator that the string carries.
pub proof fn lemma_first_zero_after_cstr(s: Seq<u8>, rest: Seq<u8>)
    requires
        spec_no_zeros(s),
    ensures
        spec_first_zero(spec_cstr(s) + rest) == Some(s.len() as int),
{
    let t = spec_cstr(s) + rest;
    assert(t[s.len() as int] == 0u8);
    assert(forall|j: int| 0 <= j < s.len() ==> t[j] == s[j] && t[j] != 0u8);
    lemma_first_zero_unique(t, s.len() as int);
}

/// Splits `b` at its first zero byte: the bytes before it, and the bytes
/// after it. Nothing, when `b` holds no terminator.
pub open spec fn spec_read_cstr(b: Seq<u8>) -> Option<(Seq<u8>, Seq<u8>)> {
    match spec_first_zero(b) {
        None => None,
        Some(z) => Some((b.take(z), b.skip(z + 1))),
    }
}

/// Reading a terminated string out of a stream recovers exactly the string
/// that was written, and leaves exactly what followed it.
pub proof fn lemma_read_cstr_of_cstr(s: Seq<u8>, rest: Seq<u8>)
    requires
        spec_no_zeros(s),
    ensures
        spec_read_cstr(spec_cstr(s) + rest) == Some((s, rest)),
{
    lemma_first_zero_after_cstr(s, rest);
    let t = spec_cstr(s) + rest;
    assert(t.take(s.len() as int) =~= s);
    assert(t.skip(s.len() as int + 1) =~= rest);
}

/// Relies on memchr::memchr: returns the index of the first occurrence of
/// `needle` in `haystack`, or `None` when the byte does not occur.
#[verifier::external_body]
pub(crate) fn find_byte(needle: u8, haystack: &[u8]) -> (r: Option<usize>)
    ensures
        match r {
            Some(i) => i < haystack@.len() && haystack@[i as int] == needle && (forall|j: int|
                0 <= j < i ==> haystack@[j] != needle),
            None => forall|j: int| 0 <= j < haystack@.len() ==> haystack@[j] != needle,
        },
{
    memchr::memchr(needle, haystack)
}

/// True when `buf` begins with all of `pat`.
pub fn starts_with(buf: &[u8], pat: &[u8]) -> (r: bool)
    ensures
        r == (buf@.len() >= pat@.len() && buf@.take(pat@.len() as int) == pat@),
{
    let n = pat.len();
    if buf.len() < n {
        return false;
    }
    let mut i: usize = 0;
    while i < n
        invariant
            i <= n,
            n == pat@.len(),
            buf@.len() >= n,
            forall|j: int| 0 <= j < i ==> buf@[j] == pat@[j],
        decreases n - i,
    {
        if buf[i] != pat[i] {
            assert(buf@.take(n as int)[i as int] != pat@[i as int]);
            return false;
        }
        i += 1;
    }
    proof {
        assert(buf@.take(n as int) =~= pat@);
    }
    true
}

/// The bytes a handler's reply holds, when it replies at all.
pub open spec fn spec_opt_bytes(r: Option<Vec<u8>>) -> Option<Seq<u8>> {
    match r {
        Some(v) => Some(v@),
        None => None,
    }
}

/// The bytes of a challenge reply: marker, selector, then the value.
pub open spec fn spec_challenge_reply(v: i32) -> Seq<u8> {
    spec_marker() + seq![CHALLENGE_RESPONSE_HEADER] + spec_i32_to_le_bytes(v)
}

pub proof fn lemma_challenge_reply_len(v: i32)
    ensures
        spec_challenge_reply(v).len() == 9,
{
    lemma_auto_spec_u32_to_from_le_bytes();
}

/// Serializes a challenge reply: marker, selector `0x41`, 4-byte value.
pub fn encode_challenge_reply(v: i32) -> (r: Vec<u8>)
    ensures
        r@ == spec_challenge_reply(v),
        r@.len() == 9,
{
    let mut r: Vec<u8> = Vec::new();
    push_marker(&mut r);
    r.push(CHALLENGE_RESPONSE_HEADER);
    push_le_u32(&mut r, v as u32);
    proof {
        lemma_challenge_reply_len(v);
        assert(r@ =~= spec_challenge_reply(v));
    }
    r
}

/// Fields recovered from a challenge reply, when the bytes have its shape.
pub open spec fn spec_parse_challenge_reply(b: Seq<u8>) -> Option<i32> {
    if b.len() == 9 && b.take(5) == spec_marker() + seq![CHALLENGE_RESPONSE_HEADER] {
        Some(spec_i32_from_le_bytes(b.skip(5)))
    } else {
        None
    }
}

/// Round-trip law for the challenge-reply shape: decoding an encoded reply
/// yields back exactly the value that was encoded.
pub proof fn lemma_challenge_reply_round_trip(v: i32)
    ensures
        spec_parse_challenge_reply(spec_challenge_reply(v)) == Some(v),
{
    lemma_challenge_reply_len(v);
    lemma_i32_le_bytes_round_trip(v);
    assert(spec_challenge_reply(v).take(5) =~= spec_marker() + seq![CHALLENGE_RESPONSE_HEADER]);
    assert(spec_challenge_reply(v).skip(5) =~= spec_i32_to_le_bytes(v));
}

/// The identification string every info request must carry, terminator
/// included: `Source Engine Query` followed by a zero byte.
pub open spec fn spec_info_request_magic() -> Seq<u8> {
    seq![
        0x53u8, 0x6fu8, 0x75u8, 0x72u8, 0x63u8, 0x65u8, 0x20u8, 0x45u8, 0x6eu8, 0x67u8, 0x69u8,
        0x6eu8, 0x65u8, 0x20u8, 0x51u8, 0x75u8, 0x65u8, 0x72u8, 0x79u8, 0x00u8,
    ]
}

/// The identification string as request bytes.
pub fn info_request_magic() -> (r: Vec<u8>)
    ensures
        r@ == spec_info_request_magic(),
{
    let r: Vec<u8> = vec![
        0x53u8, 0x6fu8, 0x75u8, 0x72u8, 0x63u8, 0x65u8, 0x20u8, 0x45u8, 0x6eu8, 0x67u8, 0x69u8,
        0x6eu8, 0x65u8, 0x20u8, 0x51u8, 0x75u8, 0x65u8, 0x72u8, 0x79u8, 0x00u8,
    ];
    proof {
        assert(r@ =~= spec_info_request_magic());
    }
    r
}

/// Outcome of decoding an info-request payload.
#[derive(PartialEq, Eq, Structural, Clone, Copy, Debug)]
pub enum InfoRequest {
    /// No terminator, or an identification string other than the magic one:
    /// the packet is dropped with no reply.
    Malformed,
    /// The magic string alone: the client has no challenge yet.
    NoChallenge,
    /// The magic string followed by at least 4 bytes, read as the challenge.
    Challenge(i32),
}

/// Decoded form of an info-request payload: the bytes up to and including the
/// first zero must equal the identification string byte for byte; a 4-byte
/// little-endian challenge may follow.
pub open spec fn spec_parse_info_request(p: Seq<u8>) -> InfoRequest {
    match spec_first_zero(p) {
        None => InfoRequest::Malformed,
        Some(z) => if p.take(z + 1) != spec_info_request_magic() {
            InfoRequest::Malformed
        } else if p.len() >= z + 5 {
            InfoRequest::Challenge(spec_i32_from_le_bytes(p.subrange(z + 1, z + 5)))
        } else {
            InfoRequest::NoChallenge
        },
    }
}

/// Decodes an info-request payload.
pub fn parse_info_request(buf: &[u8]) -> (r: InfoRequest)
    ensures
        r == spec_parse_info_request(buf@),
{
    let z = match find_byte(0u8, buf) {
        None => {
            proof {
                lemma_first_zero_props(buf@);
            }
            return InfoRequest::Malformed;
        },
        Some(z) => z,
    };
    proof {
        lemma_first_zero_unique(buf@, z as int);
    }
    if z != 19 {
        proof {
            assert(buf@.take(z + 1).len() == z + 1);
            assert(spec_info_request_magic().len() == 20);
        }
        return InfoRequest::Malformed;
    }
    let magic = info_request_magic();
    if !starts_with(buf, magic.as_slice()) {
        return InfoRequest::Malformed;
    }
    if buf.len() >= 24 {
        let tail = vstd::slice::slice_subrange(buf, 20, 24);
        let c = u32_from_le_bytes(tail) as i32;
        InfoRequest::Challenge(c)
    } else {
        InfoRequest::NoChallenge
    }
}

/// Challenge carried by a players-request payload: a payload of exactly 4
/// bytes is read little-endian; any other length counts as no challenge, which
/// the protocol writes as zero.
pub open spec fn spec_players_challenge(p: Seq<u8>) -> i32 {
    if p.len() == 4 {
        spec_i32_from_le_bytes(p)
    } else {
        0
    }
}

/// Decodes a players-request payload.
pub fn parse_players_challenge(buf: &[u8]) -> (c: i32)
    ensures
        c == spec_players_challenge(buf@),
{
    if buf.len() == 4 {
        u32_from_le_bytes(buf) as i32
    } else {
        0
    }
}

/// Decimal digits of `n`, most significant first.
pub open spec fn spec_decimal(n: nat) -> Seq<u8>
    decreases n,
{
    if n < 10 {
        seq![(0x30 + n) as u8]
    } else {
        spec_decimal(n / 10) + seq![(0x30 + n % 10) as u8]
    }
}

pub proof fn lemma_decimal_digits(n: nat)
    ensures
        spec_decimal(n).len() >= 1,
        forall|i: int|
            0 <= i < spec_decimal(n).len() ==> 0x30 <= #[trigger] spec_decimal(n)[i] <= 0x39,
    decreases n,
{
    if n >= 10 {
        lemma_decimal_digits(n / 10);
    }
}

/// Renders a byte-sized count as decimal digits.
pub fn u8_to_decimal(n: u8) -> (r: Vec<u8>)
    ensures
        r@ == spec_decimal(n as nat),
{
    let mut r: Vec<u8> = Vec::new();
    if n >= 100 {
        r.push(0x30 + n / 100);
    }
    if n >= 10 {
        r.push(0x30 + (n / 10) % 10);
    }
    r.push(0x30 + n % 10);
    proof {
        let m = n as nat;
        if n < 10 {
            assert(m % 10 == m);
            assert(r@ =~= spec_decimal(m));
        } else if n < 100 {
            assert(m / 10 < 10);
            assert((m / 10) % 10 == m / 10);
            assert(r@ =~= spec_decimal(m / 10) + seq![(0x30 + m % 10) as u8]);
        } else {
            assert(m / 10 / 10 == m / 100) by (nonlinear_arith);
            assert(m / 100 < 10);
            assert(m / 10 >= 10);
            assert(spec_decimal(m / 10) =~= spec_decimal(m / 100) + seq![
                (0x30 + (m / 10) % 10) as u8,
            ]);
            assert(r@ =~= spec_decimal(m / 10) + seq![(0x30 + m % 10) as u8]);
        }
    }
    r
}

} // verus!
