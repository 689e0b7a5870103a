//! Per-address challenge issuance and validation.
//!
//! The store keeps at most one outstanding challenge per client address. An
//! entry is created (or overwritten) by `issue` and consumed — read once, then
//! unconditionally removed — by `validate`, so a guessed or leaked value can
//! never be replayed.

use vstd::prelude::*;
use std::collections::HashMap;
use crate::codec::{encode_challenge_reply, spec_challenge_reply};

verus! {

broadcast use vstd::std_specs::hash::group_hash_axioms;

/// Relies on rand::random: draws a 32-bit value from the thread-local
/// generator. Nothing is assumed about which value comes back.
#[verifier::external_body]
fn random_i32() -> i32 {
    rand::random::<i32>()
}

/// Outstanding challenges, keyed by client address.
///
/// An address is a plain 64-bit identifier; the surrounding process maps each
/// client socket address to one such identifier and back.
pub struct ChallengeStore {
    entries: HashMap<u64, i32>,
}

impl View for ChallengeStore {
    type V = Map<u64, i32>;

    closed spec fn view(&self) -> Map<u64, i32> {
        self.entries@
    }
}

impl ChallengeStore {
    /// An empty store: no address has an outstanding challenge.
    pub fn new() -> (s: Self)
        ensures
            s@ == Map::<u64, i32>::empty(),
    {
        ChallengeStore { entries: HashMap::new() }
    }

    /// Draws a fresh random value, stores it for `addr` (replacing any prior
    /// entry for that address), and returns it. Always succeeds.
    pub fn issue(&mut self, addr: u64) -> (value: i32)
        ensures
            final(self)@ == old(self)@.insert(addr, value),
    {
        let value = random_i32();
        self.entries.insert(addr, value);
        value
    }

    /// True iff `addr` has an outstanding entry whose value is `candidate`.
    /// In every case — match, mismatch, or no entry — the entry for `addr`,
    /// if any, is removed before returning.
    pub fn validate(&mut self, addr: u64, candidate: i32) -> (ok: bool)
        ensures
            ok == (old(self)@.contains_key(addr) && old(self)@[addr] == candidate),
            final(self)@ == old(self)@.remove(addr),
    {
        let ok = match self.entries.get(&addr) {
            Some(stored) => candidate == *stored,
            None => false,
        };
        self.entries.remove(&addr);
        ok
    }
}

/// Issues a fresh challenge for `addr` and serializes the challenge reply
/// that carries it: marker, selector `0x41`, then the value little-endian.
pub fn generate_challenge(addr: u64, store: &mut ChallengeStore) -> (packet: Vec<u8>)
    ensures
        final(store)@.contains_key(addr),
        final(store)@ == old(store)@.insert(addr, final(store)@[addr]),
        packet@ == spec_challenge_reply(final(store)@[addr]),
        packet@.len() == 9,
{
    let value = store.issue(addr);
    encode_challenge_reply(value)
}

/// Consumes the entry for `addr` and reports whether `challenge_number`
/// matched it, exactly as `ChallengeStore::validate` does.
pub fn is_challenge_valid(addr: u64, challenge_number: i32, store: &mut ChallengeStore) -> (ok:
    bool)
    ensures
        ok == (old(store)@.contains_key(addr) && old(store)@[addr] == challenge_number),
        final(store)@ == old(store)@.remove(addr),
{
    store.validate(addr, challenge_number)
}

/// Challenge single-use law: from any store state, once `issue` has stored
/// `value` for `addr`, a `validate(addr, value)` call reports a match and
/// leaves no entry for `addr`, so every later `validate` for `addr` — with
/// the same value or any other — reports a mismatch and leaves the rest of
/// the store as it stands.
pub proof fn lemma_challenge_single_use(m: Map<u64, i32>, addr: u64, value: i32, later: i32)
    ensures
        m.insert(addr, value).contains_key(addr) && m.insert(addr, value)[addr] == value,
        !m.insert(addr, value).remove(addr).contains_key(addr),
        m.insert(addr, value).remove(addr).remove(addr) == m.insert(addr, value).remove(addr),
        !(m.insert(addr, value).remove(addr).contains_key(addr) && m.insert(addr, value).remove(
            addr,
        )[addr] == later),
{
    assert(m.insert(addr, value).remove(addr).remove(addr) =~= m.insert(addr, value).remove(addr));
}

/// Address isolation law: issuing a challenge for one address neither changes
/// the entry of any other address nor the outcome that a validation for that
/// other address will report.
pub proof fn lemma_address_isolation(m: Map<u64, i32>, a: u64, value: i32, b: u64, candidate: i32)
    requires
        a != b,
    ensures
        m.insert(a, value).contains_key(b) == m.contains_key(b),
        m.contains_key(b) ==> m.insert(a, value)[b] == m[b],
        (m.insert(a, value).contains_key(b) && m.insert(a, value)[b] == candidate) == (
        m.contains_key(b) && m[b] == candidate),
        m.insert(a, value).remove(b) == m.remove(b).insert(a, value),
{
    assert(m.insert(a, value).remove(b) =~= m.remove(b).insert(a, value));
}

} // verus!
