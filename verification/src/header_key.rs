//! Key-slot management on an envelope: verify a secret, add a second
//! secret, change a secret in place, and delete a secret's slot.

use vstd::prelude::*;
use crate::cipher::Ciphers;
use crate::encrypt::wrap_master_key;
use crate::error::CoreError;
use crate::header::{lemma_freed_slot_bytes, lemma_header_slot_region, spec_slot_region, zero_bytes, HashingAlgorithm, Header, Keyslot};
use crate::key::{
    decrypt_master_key, spec_slot_master_key, spec_slot_unlocks, spec_unlock, vec_to_arr,
};
use crate::primitives::{get_nonce_len, Algorithm, Mode};
use crate::protected::Protected;
use crate::rng::random_vec;
use crate::salt::generate_salt;

verus! {

/// The index of the first slot this secret unlocks, in wire order.
pub open spec fn spec_unlock_index(slots: Seq<Keyslot>, algorithm: Algorithm, raw_key: Seq<u8>) -> Option<int>
    decreases slots.len(),
{
    if slots.len() == 0 {
        None
    } else if spec_slot_unlocks(slots[0], algorithm, raw_key) {
        Some(0)
    } else {
        match spec_unlock_index(slots.drop_first(), algorithm, raw_key) {
            Some(j) => Some(j + 1),
            None => None,
        }
    }
}

/// The first unlocking index exists exactly when the scan succeeds, it
/// points at an unlocking slot, no earlier slot unlocks, and the scan
/// yields that slot's master key.
pub proof fn lemma_unlock_index(slots: Seq<Keyslot>, algorithm: Algorithm, raw_key: Seq<u8>)
    ensures
        (spec_unlock_index(slots, algorithm, raw_key) is Some)
            == (spec_unlock(slots, algorithm, raw_key) is Some),
        spec_unlock_index(slots, algorithm, raw_key) matches Some(idx) ==> {
            &&& 0 <= idx < slots.len()
            &&& spec_slot_unlocks(slots[idx], algorithm, raw_key)
            &&& (forall|j: int| 0 <= j < idx
                ==> !spec_slot_unlocks(#[trigger] slots[j], algorithm, raw_key))
            &&& spec_unlock(slots, algorithm, raw_key)
                == Some(spec_slot_master_key(slots[idx], algorithm, raw_key))
        },
    decreases slots.len(),
{
    if slots.len() > 0 {
        lemma_unlock_index(slots.drop_first(), algorithm, raw_key);
        if !spec_slot_unlocks(slots[0], algorithm, raw_key) {
            if spec_unlock_index(slots.drop_first(), algorithm, raw_key) is Some {
                let j = spec_unlock_index(slots.drop_first(), algorithm, raw_key)->0;
                assert(slots.drop_first()[j] == slots[j + 1]);
                assert forall|k: int| 0 <= k < j + 1
                    implies !spec_slot_unlocks(#[trigger] slots[k], algorithm, raw_key) by {
                    if k > 0 {
                        assert(slots.drop_first()[k - 1] == slots[k]);
                    }
                }
            }
        }
    }
}

/// A fresh slot appended for a new secret is found by that secret:
/// after an add, verifying with the added secret succeeds.
pub proof fn lemma_added_key_unlocks(
    slots: Seq<Keyslot>,
    slot: Keyslot,
    algorithm: Algorithm,
    new_key: Seq<u8>,
)
    requires
        spec_slot_unlocks(slot, algorithm, new_key),
    ensures
        spec_unlock(slots.push(slot), algorithm, new_key) is Some,
    decreases slots.len(),
{
    if slots.len() == 0 {
        assert(slots.push(slot)[0] == slot);
    } else {
        lemma_added_key_unlocks(slots.drop_first(), slot, algorithm, new_key);
        assert(slots.push(slot)[0] == slots[0]);
        assert(slots.push(slot).drop_first() =~= slots.drop_first().push(slot));
    }
}

/// Appending a slot never changes what an already-working secret
/// unlocks: after an add, verifying with the old secret still succeeds,
/// and it still yields the same master key.
pub proof fn lemma_added_key_keeps_old(
    slots: Seq<Keyslot>,
    slot: Keyslot,
    algorithm: Algorithm,
    old_key: Seq<u8>,
)
    requires
        spec_unlock(slots, algorithm, old_key) is Some,
    ensures
        spec_unlock(slots.push(slot), algorithm, old_key)
            == spec_unlock(slots, algorithm, old_key),
    decreases slots.len(),
{
    assert(slots.len() > 0);
    assert(slots.push(slot)[0] == slots[0]);
    if !spec_slot_unlocks(slots[0], algorithm, old_key) {
        lemma_added_key_keeps_old(slots.drop_first(), slot, algorithm, old_key);
        assert(slots.push(slot).drop_first() =~= slots.drop_first().push(slot));
    }
}

/// A slot rewritten in place for a new secret is found by that secret:
/// after a change, verifying with the new secret succeeds.
pub proof fn lemma_changed_key_unlocks(
    slots: Seq<Keyslot>,
    slot: Keyslot,
    idx: int,
    algorithm: Algorithm,
    new_key: Seq<u8>,
)
    requires
        0 <= idx < slots.len(),
        spec_slot_unlocks(slot, algorithm, new_key),
    ensures
        spec_unlock(slots.update(idx, slot), algorithm, new_key) is Some,
{
    crate::key::lemma_unlock_is_exists(slots.update(idx, slot), algorithm, new_key);
    assert(slots.update(idx, slot)[idx] == slot);
}

/// The first slot this secret unlocks, with the master key it yields.
fn find_unlock_slot(
    header: &Header,
    raw_key: &Protected<Vec<u8>>,
) -> (r: Option<(usize, Protected<[u8; 32]>)>)
    requires
        header.wf(),
    ensures
        ({
            let slots = header.keyslots->0@;
            let alg = header.header_type.algorithm;
            let secret = raw_key.spec_inner()@;
            &&& (r is Some) == (spec_unlock_index(slots, alg, secret) is Some)
            &&& (r matches Some((idx, mk)) ==> {
                &&& Some(idx as int) == spec_unlock_index(slots, alg, secret)
                &&& idx < slots.len()
                &&& mk.spec_inner()@ == spec_unlock(slots, alg, secret)->0
            })
        }),
{
    let keyslots = match &header.keyslots {
        Some(ks) => ks,
        None => unreached(),
    };
    let ghost slots = keyslots@;
    let ghost alg = header.header_type.algorithm;
    let ghost secret = raw_key.spec_inner()@;
    let no_aad: Vec<u8> = Vec::new();

    let mut i: usize = 0;
    proof {
        assert(slots.skip(0) =~= slots);
    }
    while i < keyslots.len()
        invariant
            header.wf(),
            keyslots@ == header.keyslots->0@,
            slots == keyslots@,
            alg == header.header_type.algorithm,
            secret == raw_key.spec_inner()@,
            no_aad@ == Seq::<u8>::empty(),
            i <= slots.len(),
            forall|j: int| 0 <= j < i ==> !spec_slot_unlocks(#[trigger] slots[j], alg, secret),
        decreases slots.len() - i,
    {
        let slot = &keyslots[i];
        proof {
            assert(slot.wf(alg));
        }
        let attempt = match slot.hash_algorithm.hash(raw_key.clone(), &slot.salt) {
            Ok(key) => {
                let cipher = match Ciphers::initialize(key, &header.header_type.algorithm) {
                    Ok(c) => c,
                    Err(_) => unreached(),
                };
                let opened = cipher.decrypt(slot.nonce.as_slice(), slot.encrypted_key.as_slice(), no_aad.as_slice());
                cipher.erase();
                opened
            },
            Err(e) => Err(e),
        };
        match attempt {
            Ok(master_key_vec) => {
                proof {
                    assert(spec_slot_unlocks(slots[i as int], alg, secret));
                    lemma_unlock_index(slots, alg, secret);
                    lemma_index_of_first_unlock(slots, alg, secret, i as int);
                }
                let master_key: [u8; 32] = vec_to_arr(master_key_vec);
                proof {
                    assert(master_key@ =~= spec_slot_master_key(slots[i as int], alg, secret));
                }
                return Some((i, Protected::new(master_key)));
            },
            Err(_) => {
                proof {
                    assert(!spec_slot_unlocks(slots[i as int], alg, secret));
                }
            },
        }
        i = i + 1;
    }
    proof {
        lemma_unlock_index(slots, alg, secret);
        if spec_unlock_index(slots, alg, secret) is Some {
            let idx = spec_unlock_index(slots, alg, secret)->0;
            assert(!spec_slot_unlocks(slots[idx], alg, secret));
        }
    }
    None
}

/// If no slot before `i` unlocks and slot `i` does, then `i` is the
/// first unlocking index.
proof fn lemma_index_of_first_unlock(
    slots: Seq<Keyslot>,
    algorithm: Algorithm,
    raw_key: Seq<u8>,
    i: int,
)
    requires
        0 <= i < slots.len(),
        spec_slot_unlocks(slots[i], algorithm, raw_key),
        forall|j: int| 0 <= j < i ==> !spec_slot_unlocks(#[trigger] slots[j], algorithm, raw_key),
    ensures
        spec_unlock_index(slots, algorithm, raw_key) == Some(i),
    decreases slots.len(),
{
    if i > 0 {
        assert forall|j: int| 0 <= j < i - 1
            implies !spec_slot_unlocks(#[trigger] slots.drop_first()[j], algorithm, raw_key) by {
            assert(slots.drop_first()[j] == slots[j + 1]);
        }
        assert(slots.drop_first()[i - 1] == slots[i]);
        lemma_index_of_first_unlock(slots.drop_first(), algorithm, raw_key, i - 1);
    }
}

/// The number of populated slots in the list.
pub open spec fn spec_populated_count(slots: Seq<Keyslot>) -> int
    decreases slots.len(),
{
    if slots.len() == 0 {
        0
    } else {
        (if slots[0].is_populated() { 1int } else { 0int })
            + spec_populated_count(slots.drop_first())
    }
}

/// The index of the first freed slot region in the list, if any: the
/// region an added key reuses before the list grows.
pub open spec fn spec_first_freed(slots: Seq<Keyslot>) -> Option<int>
    decreases slots.len(),
{
    if slots.len() == 0 {
        None
    } else if !slots[0].is_populated() {
        Some(0)
    } else {
        match spec_first_freed(slots.drop_first()) {
            Some(j) => Some(j + 1),
            None => None,
        }
    }
}

/// The first freed index, when it exists, lies in range, names an
/// unpopulated slot, and every earlier slot is populated.
proof fn lemma_first_freed_props(slots: Seq<Keyslot>)
    ensures
        spec_first_freed(slots) matches Some(i) ==> {
            &&& 0 <= i < slots.len()
            &&& !slots[i].is_populated()
            &&& forall|j: int| 0 <= j < i ==> (#[trigger] slots[j]).is_populated()
        },
    decreases slots.len(),
{
    if slots.len() > 0 && slots[0].is_populated() {
        lemma_first_freed_props(slots.drop_first());
        if spec_first_freed(slots.drop_first()) is Some {
            let j = spec_first_freed(slots.drop_first())->0;
            assert(slots.drop_first()[j] == slots[j + 1]);
            assert forall|k: int| 0 <= k < j + 1
                implies (#[trigger] slots[k]).is_populated() by {
                if k > 0 {
                    assert(slots.drop_first()[k - 1] == slots[k]);
                }
            }
        }
    }
}

/// If no slot before `i` is freed and slot `i` is, then `i` is the
/// first freed index.
proof fn lemma_index_of_first_freed(slots: Seq<Keyslot>, i: int)
    requires
        0 <= i < slots.len(),
        !slots[i].is_populated(),
        forall|j: int| 0 <= j < i ==> (#[trigger] slots[j]).is_populated(),
    ensures
        spec_first_freed(slots) == Some(i),
    decreases slots.len(),
{
    if i > 0 {
        assert forall|j: int| 0 <= j < i - 1
            implies (#[trigger] slots.drop_first()[j]).is_populated() by {
            assert(slots.drop_first()[j] == slots[j + 1]);
        }
        assert(slots.drop_first()[i - 1] == slots[i]);
        lemma_index_of_first_freed(slots.drop_first(), i - 1);
    }
}

/// Whether the slot is populated.
fn slot_is_populated(slot: &Keyslot) -> (r: bool)
    ensures
        r == slot.is_populated(),
{
    match slot.hash_algorithm {
        HashingAlgorithm::Blake3Balloon(v) => v == 5,
    }
}

/// Counts the populated slots of the list.
fn populated_count(keyslots: &Vec<Keyslot>) -> (r: usize)
    ensures
        r == spec_populated_count(keyslots@),
{
    let ghost slots = keyslots@;
    let mut count: usize = 0;
    let mut i: usize = 0;
    proof {
        assert(slots.skip(0) =~= slots);
    }
    while i < keyslots.len()
        invariant
            slots == keyslots@,
            i <= slots.len(),
            count <= i,
            spec_populated_count(slots) == count + spec_populated_count(slots.skip(i as int)),
        decreases slots.len() - i,
    {
        proof {
            assert(slots.skip(i as int)[0] == slots[i as int]);
            assert(slots.skip(i as int).drop_first() =~= slots.skip(i + 1));
        }
        if slot_is_populated(&keyslots[i]) {
            count = count + 1;
        }
        i = i + 1;
    }
    proof {
        assert(slots.skip(slots.len() as int) =~= Seq::<Keyslot>::empty());
    }
    count
}

/// The index of the first freed slot region, if any.
fn find_freed_slot(keyslots: &Vec<Keyslot>) -> (r: Option<usize>)
    ensures
        (r is Some) == (spec_first_freed(keyslots@) is Some),
        r matches Some(i) ==> Some(i as int) == spec_first_freed(keyslots@)
            && i < keyslots@.len(),
{
    let ghost slots = keyslots@;
    let mut i: usize = 0;
    while i < keyslots.len()
        invariant
            slots == keyslots@,
            i <= slots.len(),
            forall|j: int| 0 <= j < i ==> (#[trigger] slots[j]).is_populated(),
        decreases slots.len() - i,
    {
        if !slot_is_populated(&keyslots[i]) {
            proof {
                lemma_index_of_first_freed(slots, i as int);
            }
            return Some(i);
        }
        i = i + 1;
    }
    proof {
        lemma_first_freed_props(slots);
    }
    None
}

/// Checks whether a secret unlocks any slot of the envelope, discarding
/// the master key it may yield.
pub fn header_verify_key(header: &Header, raw_key: &Protected<Vec<u8>>) -> (r: bool)
    requires
        header.wf(),
    ensures
        r == (spec_unlock(header.keyslots->0@, header.header_type.algorithm,
            raw_key.spec_inner()@) is Some),
{
    match decrypt_master_key(raw_key, header) {
        Ok(master_key) => {
            let mut master_key = master_key;
            master_key.wipe();
            true
        },
        Err(_) => false,
    }
}

/// Adds a slot for a new secret: the old secret must unlock the
/// envelope, and the recovered master key is wrapped for the new
/// secret under a fresh salt and nonce, written into the first freed
/// slot region — or appended, when no region was ever freed and fewer
/// than four exist.  The other slots are untouched; afterwards both
/// secrets unlock the envelope.
pub fn header_add_key(
    header: &mut Header,
    old_key: &Protected<Vec<u8>>,
    new_key: Protected<Vec<u8>>,
) -> (r: Result<(), CoreError>)
    requires
        old(header).wf(),
    ensures
        ({
            let slots = old(header).keyslots->0@;
            let alg = old(header).header_type.algorithm;
            let old_secret = old_key.spec_inner()@;
            let new_secret = new_key.spec_inner()@;
            let unlocked = spec_unlock(slots, alg, old_secret);
            let freed = spec_first_freed(slots);
            &&& (r is Ok) == (new_secret.len() > 0 && unlocked is Some
                && (freed is Some || slots.len() < 4))
            &&& (new_secret.len() == 0 ==> (r matches Err(e) && e is EmptySecret))
            &&& (new_secret.len() > 0 && unlocked is None
                ==> (r matches Err(e) && e is NoMatchingKey))
            &&& (new_secret.len() > 0 && unlocked is Some && freed is None
                && slots.len() >= 4
                ==> (r matches Err(e) && e is NoEmptySlot))
            &&& (r is Err ==> *final(header) == *old(header))
            &&& (r is Ok ==> {
                let new_slots = final(header).keyslots->0@;
                &&& final(header).wf()
                &&& final(header).header_type == old(header).header_type
                &&& final(header).nonce@ == old(header).nonce@
                &&& (freed matches Some(i) ==> {
                    &&& new_slots == slots.update(i, new_slots[i])
                    &&& spec_slot_unlocks(new_slots[i], alg, new_secret)
                    &&& spec_slot_master_key(new_slots[i], alg, new_secret) == unlocked->0
                    &&& spec_unlock(new_slots, alg, old_secret) is Some
                })
                &&& (freed is None ==> {
                    &&& new_slots == slots.push(new_slots.last())
                    &&& spec_slot_unlocks(new_slots.last(), alg, new_secret)
                    &&& spec_slot_master_key(new_slots.last(), alg, new_secret) == unlocked->0
                    &&& spec_unlock(new_slots, alg, old_secret) == unlocked
                })
            })
        }),
{
    let mut new_key = new_key;
    if new_key.expose().len() == 0 {
        new_key.wipe();
        return Err(CoreError::EmptySecret);
    }
    let master_key = match decrypt_master_key(old_key, header) {
        Ok(mk) => mk,
        Err(e) => {
            new_key.wipe();
            return Err(e);
        },
    };
    let (freed_idx, slot_count) = match &header.keyslots {
        Some(ks) => (find_freed_slot(ks), ks.len()),
        None => unreached(),
    };
    if freed_idx.is_none() && slot_count >= 4 {
        new_key.wipe();
        let mut master_key = master_key;
        master_key.wipe();
        return Err(CoreError::NoEmptySlot);
    }
    let slot_salt = generate_salt();
    let slot_nonce_len = get_nonce_len(&header.header_type.algorithm, &Mode::MemoryMode);
    let slot_nonce = random_vec(slot_nonce_len);
    let slot = match wrap_master_key(new_key, HashingAlgorithm::Blake3Balloon(5),
        &header.header_type.algorithm, &master_key, slot_salt, slot_nonce) {
        Ok(slot) => slot,
        Err(_) => unreached(),
    };
    let mut master_key = master_key;
    master_key.wipe();
    let mut keyslots = match header.keyslots.take() {
        Some(ks) => ks,
        None => unreached(),
    };
    let ghost slots = keyslots@;
    let ghost alg = old(header).header_type.algorithm;
    let ghost old_secret = old_key.spec_inner()@;
    match freed_idx {
        Some(i) => {
            keyslots[i] = slot;
            proof {
                // The old secret's slot survives: it is populated, so it
                // is not the freed region that was overwritten.
                lemma_unlock_index(slots, alg, old_secret);
                lemma_first_freed_props(slots);
                let j = spec_unlock_index(slots, alg, old_secret)->0;
                assert(keyslots@[j] == slots[j]);
                assert(spec_slot_unlocks(keyslots@[j], alg, old_secret));
                crate::key::lemma_unlock_is_exists(keyslots@, alg, old_secret);
            }
        },
        None => {
            keyslots.push(slot);
            proof {
                lemma_added_key_keeps_old(slots, keyslots@.last(), alg, old_secret);
            }
        },
    }
    header.keyslots = Some(keyslots);
    Ok(())
}

/// Replaces the slot a secret unlocks with a slot for a new secret:
/// the old slot is dropped and rewritten in place under a fresh salt
/// and nonce, wrapping the same master key for the new secret.  The
/// other slots are untouched.
pub fn header_change_key(
    header: &mut Header,
    old_key: &Protected<Vec<u8>>,
    new_key: Protected<Vec<u8>>,
) -> (r: Result<(), CoreError>)
    requires
        old(header).wf(),
    ensures
        ({
            let slots = old(header).keyslots->0@;
            let alg = old(header).header_type.algorithm;
            let old_secret = old_key.spec_inner()@;
            let new_secret = new_key.spec_inner()@;
            let unlocked = spec_unlock(slots, alg, old_secret);
            &&& (r is Ok) == (new_secret.len() > 0 && unlocked is Some)
            &&& (new_secret.len() == 0 ==> (r matches Err(e) && e is EmptySecret))
            &&& (new_secret.len() > 0 && unlocked is None
                ==> (r matches Err(e) && e is NoMatchingKey))
            &&& (r is Err ==> *final(header) == *old(header))
            &&& (r is Ok ==> {
                let new_slots = final(header).keyslots->0@;
                let idx = spec_unlock_index(slots, alg, old_secret)->0;
                &&& final(header).wf()
                &&& final(header).header_type == old(header).header_type
                &&& final(header).nonce@ == old(header).nonce@
                &&& new_slots == slots.update(idx, new_slots[idx])
                &&& spec_slot_unlocks(new_slots[idx], alg, new_secret)
                &&& spec_slot_master_key(new_slots[idx], alg, new_secret) == unlocked->0
            })
        }),
{
    let mut new_key = new_key;
    if new_key.expose().len() == 0 {
        new_key.wipe();
        return Err(CoreError::EmptySecret);
    }
    proof {
        lemma_unlock_index(old(header).keyslots->0@, old(header).header_type.algorithm,
            old_key.spec_inner()@);
    }
    let (idx, master_key) = match find_unlock_slot(header, old_key) {
        Some(found) => found,
        None => {
            new_key.wipe();
            return Err(CoreError::NoMatchingKey);
        },
    };
    let slot_salt = generate_salt();
    let slot_nonce_len = get_nonce_len(&header.header_type.algorithm, &Mode::MemoryMode);
    let slot_nonce = random_vec(slot_nonce_len);
    let slot = match wrap_master_key(new_key, HashingAlgorithm::Blake3Balloon(5),
        &header.header_type.algorithm, &master_key, slot_salt, slot_nonce) {
        Ok(slot) => slot,
        Err(_) => unreached(),
    };
    let mut master_key = master_key;
    master_key.wipe();
    let mut keyslots = match header.keyslots.take() {
        Some(ks) => ks,
        None => unreached(),
    };
    keyslots[idx] = slot;
    header.keyslots = Some(keyslots);
    Ok(())
}

/// Deletes the slot a secret unlocks by overwriting it in place with
/// an all-zero freed slot: its wire region serializes as 96 zero bytes
/// while every other slot keeps its region.  Deleting the last
/// populated slot is refused.
pub fn header_del_key(
    header: &mut Header,
    raw_key: &Protected<Vec<u8>>,
) -> (r: Result<(), CoreError>)
    requires
        old(header).wf(),
    ensures
        ({
            let slots = old(header).keyslots->0@;
            let alg = old(header).header_type.algorithm;
            let secret = raw_key.spec_inner()@;
            let unlocked = spec_unlock(slots, alg, secret);
            &&& (r is Ok) == (unlocked is Some && spec_populated_count(slots) > 1)
            &&& (unlocked is None ==> (r matches Err(e) && e is NoMatchingKey))
            &&& (unlocked is Some && spec_populated_count(slots) <= 1
                ==> (r matches Err(e) && e is LastSlot))
            &&& (r is Err ==> *final(header) == *old(header))
            &&& (r is Ok ==> {
                let idx = spec_unlock_index(slots, alg, secret)->0;
                let new_slots = final(header).keyslots->0@;
                &&& final(header).wf()
                &&& final(header).header_type == old(header).header_type
                &&& final(header).nonce@ == old(header).nonce@
                &&& new_slots == slots.update(idx, new_slots[idx])
                &&& new_slots[idx].is_freed(alg)
                &&& final(header).spec_aad() == old(header).spec_aad()
                &&& spec_slot_region(final(header).spec_bytes(), idx) == zero_bytes(96)
                &&& (forall|j: int| 0 <= j < new_slots.len() && j != idx
                    ==> #[trigger] spec_slot_region(final(header).spec_bytes(), j)
                        == spec_slot_region(old(header).spec_bytes(), j))
            })
        }),
{
    proof {
        lemma_unlock_index(old(header).keyslots->0@, old(header).header_type.algorithm,
            raw_key.spec_inner()@);
    }
    let (idx, master_key) = match find_unlock_slot(header, raw_key) {
        Some(found) => found,
        None => {
            return Err(CoreError::NoMatchingKey);
        },
    };
    let mut master_key = master_key;
    master_key.wipe();
    let count = match &header.keyslots {
        Some(ks) => populated_count(ks),
        None => unreached(),
    };
    if count <= 1 {
        return Err(CoreError::LastSlot);
    }
    let freed = Keyslot::freed(&header.header_type.algorithm);
    let mut keyslots = match header.keyslots.take() {
        Some(ks) => ks,
        None => unreached(),
    };
    keyslots[idx] = freed;
    header.keyslots = Some(keyslots);
    proof {
        let alg = old(header).header_type.algorithm;
        let old_slots = old(header).keyslots->0@;
        let new_slots = header.keyslots->0@;
        assert(header.spec_aad() =~= old(header).spec_aad());
        assert forall|j: int| 0 <= j < new_slots.len()
            implies #[trigger] new_slots[j].wf(alg) by {
            if j != idx {
                assert(new_slots[j] == old_slots[j]);
            }
        }
        lemma_header_slot_region(*header, idx as int);
        lemma_freed_slot_bytes(new_slots[idx as int], alg);
        assert forall|j: int| 0 <= j < new_slots.len() && j != idx
            implies #[trigger] spec_slot_region(header.spec_bytes(), j)
                == spec_slot_region(old(header).spec_bytes(), j) by {
            lemma_header_slot_region(*header, j);
            lemma_header_slot_region(*old(header), j);
            assert(new_slots[j] == old_slots[j]);
        }
    }
    Ok(())
}

} // verus!
