//! Key derivation and recovery: hashing a raw secret into a slot key,
//! and probing an envelope's key slots for the master key.

use vstd::prelude::*;
use crate::cipher::{aead_open, Ciphers};
use crate::error::CoreError;
use crate::header::{Header, HeaderVersion, Keyslot};
use crate::kdf::{balloon_blake3, balloon_digest};
use crate::params::SALT_LEN;
use crate::primitives::{Algorithm, MASTER_KEY_LEN};
use crate::protected::{Protected, Zeroizable};

verus! {

/// The 32-byte key a secret derives to under a header version's cost
/// parameters.  Only V5 exists; its costs are pinned below.
pub open spec fn spec_balloon_hash(raw_key: Seq<u8>, salt: Seq<u8>) -> Seq<u8> {
    balloon_digest(raw_key, salt, 278_528, 1)
}

/// Derives a slot key from a raw secret and a salt under the parameters
/// the header version pins.  The secret is erased before returning.
pub fn balloon_hash(
    raw_key: Protected<Vec<u8>>,
    salt: &[u8; SALT_LEN],
    version: &HeaderVersion,
) -> (r: Result<Protected<[u8; 32]>, CoreError>)
    ensures
        r is Ok,
        r->Ok_0.spec_inner()@ == spec_balloon_hash(raw_key.spec_inner()@, salt@),
        r->Ok_0.spec_inner()@.len() == 32,
{
    let space_cost: u32 = match version {
        HeaderVersion::V5 => 278_528,
    };
    let mut raw_key = raw_key;
    let result = balloon_blake3(raw_key.expose().as_slice(), salt, space_cost, 1, 1);
    raw_key.wipe();
    match result {
        Ok(key) => Ok(Protected::new(key)),
        Err(_) => Err(CoreError::KdfFailed),
    }
}

/// Copies a vector into a fixed-size array, zero-padded or truncated to
/// fit, and erases the vector.
pub fn vec_to_arr<const N: usize>(master_key_vec: Vec<u8>) -> (r: [u8; N])
    ensures
        forall|i: int| 0 <= i < N && i < master_key_vec@.len()
            ==> #[trigger] r@[i] == master_key_vec@[i],
        forall|i: int| master_key_vec@.len() <= i < N ==> #[trigger] r@[i] == 0,
        master_key_vec@.len() == N ==> r@ == master_key_vec@,
{
    let mut master_key_vec = master_key_vec;
    let mut master_key = [0u8; N];
    let len = if N < master_key_vec.len() { N } else { master_key_vec.len() };
    let mut i: usize = 0;
    while i < len
        invariant
            i <= len,
            len <= N,
            len <= master_key_vec@.len(),
            master_key@.len() == N,
            forall|j: int| 0 <= j < i ==> #[trigger] master_key@[j] == master_key_vec@[j],
            forall|j: int| i <= j < N ==> #[trigger] master_key@[j] == 0,
        decreases len - i,
    {
        master_key[i] = master_key_vec[i];
        i = i + 1;
    }
    proof {
        if master_key_vec@.len() == N {
            assert(master_key@ =~= master_key_vec@);
        }
    }
    master_key_vec.wipe();
    master_key
}

/// A byte string padded with zeroes, or truncated, to 32 bytes.
pub open spec fn spec_to_key32(s: Seq<u8>) -> Seq<u8> {
    Seq::new(32, |i: int| if i < s.len() { s[i] } else { 0u8 })
}

/// The slot yields a master key to this secret: deriving a key from
/// the secret and the slot's salt opens the slot's wrapped key.
pub open spec fn spec_slot_unlocks(slot: Keyslot, algorithm: Algorithm, raw_key: Seq<u8>) -> bool {
    &&& slot.hash_algorithm == crate::header::HashingAlgorithm::Blake3Balloon(5u8)
    &&& aead_open(
        algorithm,
        spec_balloon_hash(raw_key, slot.salt@),
        slot.nonce@,
        Seq::empty(),
        slot.encrypted_key@,
    ) is Some
}

/// What the slot yields when it unlocks.
pub open spec fn spec_slot_master_key(slot: Keyslot, algorithm: Algorithm, raw_key: Seq<u8>) -> Seq<u8> {
    spec_to_key32(aead_open(
        algorithm,
        spec_balloon_hash(raw_key, slot.salt@),
        slot.nonce@,
        Seq::empty(),
        slot.encrypted_key@,
    )->0)
}

/// The master key the first matching slot yields, scanning in wire
/// order, or nothing when no slot unlocks.
pub open spec fn spec_unlock(slots: Seq<Keyslot>, algorithm: Algorithm, raw_key: Seq<u8>) -> Option<Seq<u8>>
    decreases slots.len(),
{
    if slots.len() == 0 {
        None
    } else if spec_slot_unlocks(slots[0], algorithm, raw_key) {
        Some(spec_slot_master_key(slots[0], algorithm, raw_key))
    } else {
        spec_unlock(slots.drop_first(), algorithm, raw_key)
    }
}

/// A slot that is not populated — in particular a freed all-zero
/// region left by a delete — unlocks for no secret whatsoever.
pub proof fn lemma_unpopulated_slot_never_unlocks(
    slot: Keyslot,
    algorithm: Algorithm,
    raw_key: Seq<u8>,
)
    requires
        !slot.is_populated(),
    ensures
        !spec_slot_unlocks(slot, algorithm, raw_key),
{
}

/// An envelope with no populated slot unlocks for no secret at all:
/// it may parse, but decryption can only fail with `NoMatchingKey`.
pub proof fn lemma_no_slots_never_unlock(algorithm: Algorithm, raw_key: Seq<u8>)
    ensures
        spec_unlock(Seq::<Keyslot>::empty(), algorithm, raw_key) is None,
{
}

/// The scan succeeds exactly when some slot unlocks.
pub proof fn lemma_unlock_is_exists(slots: Seq<Keyslot>, algorithm: Algorithm, raw_key: Seq<u8>)
    ensures
        (spec_unlock(slots, algorithm, raw_key) is Some)
            == (exists|i: int| 0 <= i < slots.len()
                && spec_slot_unlocks(#[trigger] slots[i], algorithm, raw_key)),
    decreases slots.len(),
{
    if slots.len() > 0 {
        lemma_unlock_is_exists(slots.drop_first(), algorithm, raw_key);
        if spec_slot_unlocks(slots[0], algorithm, raw_key) {
        } else {
            assert forall|i: int| 0 <= i < slots.len()
                && spec_slot_unlocks(#[trigger] slots[i], algorithm, raw_key)
                implies spec_unlock(slots, algorithm, raw_key) is Some by {
                assert(slots.drop_first()[i - 1] == slots[i]);
            }
            if spec_unlock(slots, algorithm, raw_key) is Some {
                let j = choose|j: int| 0 <= j < slots.drop_first().len()
                    && spec_slot_unlocks(#[trigger] slots.drop_first()[j], algorithm, raw_key);
                assert(slots[j + 1] == slots.drop_first()[j]);
            }
        }
    }
}

/// Recovers the master key by probing every populated slot in wire
/// order: derive a slot key from the secret and the slot's salt, then
/// try to open the slot's wrapped key with it.  Fails with
/// `NoMatchingKey` exactly when no slot unlocks — in particular, always,
/// when the envelope has no populated slot at all.
pub fn decrypt_master_key(
    raw_key: &Protected<Vec<u8>>,
    header: &Header,
) -> (r: Result<Protected<[u8; MASTER_KEY_LEN]>, CoreError>)
    requires
        header.wf(),
    ensures
        (r is Ok) == (spec_unlock(header.keyslots->0@, header.header_type.algorithm,
            raw_key.spec_inner()@) is Some),
        r is Ok ==> r->Ok_0.spec_inner()@ == spec_unlock(header.keyslots->0@,
            header.header_type.algorithm, raw_key.spec_inner()@)->0,
        r is Err ==> r->Err_0 is NoMatchingKey,
{
    let keyslots = match &header.keyslots {
        Some(ks) => ks,
        None => unreached(),
    };
    let ghost slots = keyslots@;
    let ghost alg = header.header_type.algorithm;
    let ghost secret = raw_key.spec_inner()@;
    let empty_aad: Vec<u8> = Vec::new();

    let mut i: usize = 0;
    proof {
        assert(slots.skip(0) =~= slots);
    }
    while i < keyslots.len()
        invariant
            header.wf(),
            keyslots@ == header.keyslots->0@,
            slots == keyslots@,
            alg == header.header_type.algorithm,
            secret == raw_key.spec_inner()@,
            empty_aad@ == Seq::<u8>::empty(),
            i <= slots.len(),
            spec_unlock(slots, alg, secret) == spec_unlock(slots.skip(i as int), alg, secret),
        decreases slots.len() - i,
    {
        let slot = &keyslots[i];
        proof {
            assert(slots.skip(i as int)[0] == slots[i as int]);
            assert(slots.skip(i as int).drop_first() =~= slots.skip(i + 1));
            assert(slot.wf(alg));
        }
        let attempt = match slot.hash_algorithm.hash(raw_key.clone(), &slot.salt) {
            Ok(key) => {
                let cipher = match Ciphers::initialize(key, &header.header_type.algorithm) {
                    Ok(c) => c,
                    Err(_) => unreached(),
                };
                let opened = cipher.decrypt(slot.nonce.as_slice(), slot.encrypted_key.as_slice(),
                    empty_aad.as_slice());
                cipher.erase();
                opened
            },
            // A freed slot carries no key and is skipped.
            Err(e) => Err(e),
        };
        match attempt {
            Ok(master_key_vec) => {
                proof {
                    assert(spec_slot_unlocks(slots[i as int], alg, secret));
                    assert(spec_unlock(slots.skip(i as int), alg, secret)
                        == Some(spec_slot_master_key(slots[i as int], alg, secret)));
                }
                let master_key: [u8; 32] = vec_to_arr(master_key_vec);
                proof {
                    assert(master_key@ =~= spec_slot_master_key(slots[i as int], alg, secret));
                }
                return Ok(Protected::new(master_key));
            },
            Err(_) => {
                proof {
                    assert(!spec_slot_unlocks(slots[i as int], alg, secret));
                }
            },
        }
        i = i + 1;
    }
    proof {
        assert(slots.skip(slots.len() as int) =~= Seq::<Keyslot>::empty());
    }
    Err(CoreError::NoMatchingKey)
}

} // verus!
