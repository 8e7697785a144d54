//! The 416-byte envelope: its types, its wire format, serialization,
//! parsing, and the associated data the bulk cipher authenticates.
//!
//! Wire layout: two tag bytes each for version, algorithm and mode, then
//! the payload nonce padded with zeroes to offset 32, then four 96-byte
//! key-slot regions.  A slot region whose first byte is not `0xDF` is
//! empty and serializes as 96 zero bytes.  The associated data is exactly
//! the first 32 bytes.

use vstd::prelude::*;
use crate::error::CoreError;
use crate::key::balloon_hash;
use crate::primitives::{get_nonce_len, spec_nonce_len, Algorithm, Mode, ENCRYPTED_MASTER_KEY_LEN, SALT_LEN};
use crate::protected::Protected;
use crate::kdf::balloon_digest;

verus! {

/// The latest header version; freshly written envelopes always carry it.
pub const HEADER_VERSION: HeaderVersion = HeaderVersion::V5;

/// The latest key-slot hashing version byte.
pub const BLAKE3BALLOON_LATEST: u8 = 5;

/// Every envelope version this crate reads or writes.
#[derive(PartialEq, Eq, Clone, Copy, Structural, Debug)]
pub enum HeaderVersion {
    V5,
}

/// What the envelope advertises about its payload: version, cipher and
/// whether the payload was sealed in one shot or block by block.
#[derive(PartialEq, Eq, Clone, Copy, Structural, Debug)]
pub struct HeaderType {
    pub version: HeaderVersion,
    pub algorithm: Algorithm,
    pub mode: Mode,
}

/// The header's three tag pairs in raw byte form.
struct HeaderTag {
    pub version: [u8; 2],
    pub algorithm: [u8; 2],
    pub mode: [u8; 2],
}

/// The hash that wraps a key slot, tagged with its parameter version.
#[derive(Clone, Copy, PartialEq, Eq, Structural, Debug)]
pub enum HashingAlgorithm {
    Blake3Balloon(u8),
}

impl HashingAlgorithm {
    /// Derives a 32-byte slot key from a secret and a slot salt.  Only
    /// version 5 is supported; the secret is erased either way.
    pub fn hash(
        &self,
        raw_key: Protected<Vec<u8>>,
        salt: &[u8; SALT_LEN],
    ) -> (r: Result<Protected<[u8; 32]>, CoreError>)
        ensures
            (r is Ok) == (*self matches HashingAlgorithm::Blake3Balloon(5u8)),
            r is Ok ==> r->Ok_0.spec_inner()@
                == balloon_digest(raw_key.spec_inner()@, salt@, 278_528, 1),
            r is Err ==> r->Err_0 is KdfUnsupportedVersion,
    {
        match self {
            HashingAlgorithm::Blake3Balloon(i) => {
                if *i == 5 {
                    balloon_hash(raw_key, salt, &HeaderVersion::V5)
                } else {
                    let mut raw_key = raw_key;
                    raw_key.wipe();
                    Err(CoreError::KdfUnsupportedVersion)
                }
            },
        }
    }
}

/// One key slot: a wrapped master key with the salt and nonce that
/// unlock it.
#[derive(Clone, Debug)]
pub struct Keyslot {
    pub hash_algorithm: HashingAlgorithm,
    pub encrypted_key: [u8; ENCRYPTED_MASTER_KEY_LEN],
    pub nonce: Vec<u8>,
    pub salt: [u8; SALT_LEN],
}

/// The envelope in structured form.
#[derive(Debug)]
pub struct Header {
    pub header_type: HeaderType,
    pub nonce: Vec<u8>,
    pub salt: Option<[u8; SALT_LEN]>,
    pub keyslots: Option<Vec<Keyslot>>,
}

/// A sequence of `n` zero bytes.
pub open spec fn zero_bytes(n: int) -> Seq<u8> {
    Seq::new(n as nat, |i: int| 0u8)
}

/// The nonce length of a slot-wrapping cipher: always the memory-mode
/// length of the envelope's algorithm.
pub open spec fn spec_slot_nonce_len(algorithm: Algorithm) -> usize {
    spec_nonce_len(algorithm, Mode::MemoryMode)
}

/// The two version tag bytes.
pub open spec fn spec_version_tag(v: HeaderVersion) -> Seq<u8> {
    seq![0xDEu8, 0x05u8]
}

/// The two algorithm tag bytes.
pub open spec fn spec_algorithm_tag(a: Algorithm) -> Seq<u8> {
    match a {
        Algorithm::XChaCha20Poly1305 => seq![0x0Eu8, 0x01u8],
        Algorithm::Aes256GcmSiv => seq![0x0Eu8, 0x02u8],
    }
}

/// The two mode tag bytes.
pub open spec fn spec_mode_tag(m: Mode) -> Seq<u8> {
    match m {
        Mode::StreamMode => seq![0x0Cu8, 0x01u8],
        Mode::MemoryMode => seq![0x0Cu8, 0x02u8],
    }
}

/// The two identifier bytes a slot serializes to.
pub open spec fn spec_slot_tag(h: HashingAlgorithm) -> Seq<u8> {
    match h {
        HashingAlgorithm::Blake3Balloon(i) => if i == 5 {
            seq![0xDFu8, 0xB5u8]
        } else {
            seq![0x00u8, 0x00u8]
        },
    }
}

impl Keyslot {
    /// The slot carries a wrapped key under the one hash identifier
    /// this crate writes.
    pub open spec fn is_populated(&self) -> bool {
        self.hash_algorithm == HashingAlgorithm::Blake3Balloon(5u8)
    }

    /// The slot is a freed region: every field zero, so it serializes
    /// as 96 zero bytes and unlocks for no secret.  Deleting a key
    /// leaves such a slot in place of the old one.
    pub open spec fn is_freed(&self, algorithm: Algorithm) -> bool {
        &&& self.hash_algorithm == HashingAlgorithm::Blake3Balloon(0u8)
        &&& self.encrypted_key@ == zero_bytes(48)
        &&& self.nonce@ == zero_bytes(spec_slot_nonce_len(algorithm) as int)
        &&& self.salt@ == zero_bytes(16)
    }

    /// The slot's fields are sized for the envelope's algorithm, and it
    /// is either populated or a freed all-zero region.
    pub open spec fn wf(&self, algorithm: Algorithm) -> bool {
        &&& self.nonce@.len() == spec_slot_nonce_len(algorithm)
        &&& (self.is_populated() || self.is_freed(algorithm))
    }

    /// A freed all-zero slot region.
    pub fn freed(algorithm: &Algorithm) -> (r: Keyslot)
        ensures
            r.is_freed(*algorithm),
            r.wf(*algorithm),
            !r.is_populated(),
    {
        let nonce_len = get_nonce_len(algorithm, &Mode::MemoryMode);
        let mut nonce: Vec<u8> = Vec::new();
        push_zeroes(&mut nonce, nonce_len);
        let slot = Keyslot {
            hash_algorithm: HashingAlgorithm::Blake3Balloon(0),
            encrypted_key: [0u8; 48],
            nonce,
            salt: [0u8; 16],
        };
        proof {
            assert(slot.encrypted_key@ =~= zero_bytes(48));
            assert(slot.salt@ =~= zero_bytes(16));
        }
        slot
    }

    /// The 96 bytes a populated slot serializes to.
    pub open spec fn spec_bytes(&self, algorithm: Algorithm) -> Seq<u8> {
        spec_slot_tag(self.hash_algorithm)
            + self.encrypted_key@
            + self.nonce@
            + zero_bytes(24 - spec_slot_nonce_len(algorithm) as int)
            + self.salt@
            + zero_bytes(6)
    }

    /// The slot's two identifier bytes.
    pub fn serialize(&self) -> (r: [u8; 2])
        ensures
            r@ == spec_slot_tag(self.hash_algorithm),
    {
        match self.hash_algorithm {
            HashingAlgorithm::Blake3Balloon(i) => {
                if i == 5 {
                    let tag: [u8; 2] = [0xDF, 0xB5];
                    proof {
                        assert(tag@ =~= spec_slot_tag(self.hash_algorithm));
                    }
                    tag
                } else {
                    let tag: [u8; 2] = [0x00, 0x00];
                    proof {
                        assert(tag@ =~= spec_slot_tag(self.hash_algorithm));
                    }
                    tag
                }
            },
        }
    }
}

/// The serialized key-slot regions for the populated slots, in order.
pub open spec fn spec_slots_concat(slots: Seq<Keyslot>, algorithm: Algorithm) -> Seq<u8>
    decreases slots.len(),
{
    if slots.len() == 0 {
        Seq::empty()
    } else {
        slots[0].spec_bytes(algorithm) + spec_slots_concat(slots.drop_first(), algorithm)
    }
}

/// The length of the serialized populated region is 96 bytes per slot.
pub proof fn lemma_slots_concat_len(slots: Seq<Keyslot>, algorithm: Algorithm)
    requires
        forall|i: int| 0 <= i < slots.len() ==> #[trigger] slots[i].wf(algorithm),
    ensures
        spec_slots_concat(slots, algorithm).len() == 96 * slots.len(),
    decreases slots.len(),
{
    if slots.len() > 0 {
        assert(slots[0].wf(algorithm));
        assert(slots[0].spec_bytes(algorithm).len() == 96);
        assert(forall|i: int| 0 <= i < slots.drop_first().len()
            ==> #[trigger] slots.drop_first()[i].wf(algorithm));
        lemma_slots_concat_len(slots.drop_first(), algorithm);
    }
}

/// A freed slot serializes as 96 zero bytes.
pub proof fn lemma_freed_slot_bytes(slot: Keyslot, algorithm: Algorithm)
    requires
        slot.is_freed(algorithm),
    ensures
        slot.spec_bytes(algorithm) == zero_bytes(96),
{
    assert(spec_slot_tag(slot.hash_algorithm) =~= zero_bytes(2));
    assert(slot.spec_bytes(algorithm) =~= zero_bytes(96));
}

/// The bytes of slot `i` inside the serialized slot list.
pub proof fn lemma_slots_concat_index(slots: Seq<Keyslot>, algorithm: Algorithm, i: int)
    requires
        forall|j: int| 0 <= j < slots.len() ==> #[trigger] slots[j].wf(algorithm),
        0 <= i < slots.len(),
    ensures
        spec_slots_concat(slots, algorithm).subrange(96 * i, 96 * (i + 1))
            == slots[i].spec_bytes(algorithm),
    decreases i,
{
    assert(slots[0].wf(algorithm));
    assert(slots[0].spec_bytes(algorithm).len() == 96);
    assert(forall|j: int| 0 <= j < slots.drop_first().len()
        ==> #[trigger] slots.drop_first()[j].wf(algorithm));
    lemma_slots_concat_len(slots.drop_first(), algorithm);
    if i == 0 {
        assert(spec_slots_concat(slots, algorithm).subrange(0, 96)
            =~= slots[0].spec_bytes(algorithm));
    } else {
        lemma_slots_concat_index(slots.drop_first(), algorithm, i - 1);
        assert(slots.drop_first()[i - 1] == slots[i]);
        assert(spec_slots_concat(slots, algorithm).subrange(96 * i, 96 * (i + 1))
            =~= spec_slots_concat(slots.drop_first(), algorithm)
                .subrange(96 * (i - 1), 96 * i));
    }
}

/// The wire region of slot `i` inside a serialized envelope holds
/// exactly that slot's 96 bytes.
pub proof fn lemma_header_slot_region(h: Header, i: int)
    requires
        h.wf(),
        0 <= i < h.keyslots->0@.len(),
    ensures
        spec_slot_region(h.spec_bytes(), i)
            == h.keyslots->0@[i].spec_bytes(h.header_type.algorithm),
{
    let alg = h.header_type.algorithm;
    let slots = h.keyslots->0@;
    assert(h.spec_aad().len() == 32);
    lemma_slots_concat_len(slots, alg);
    lemma_slots_concat_index(slots, alg, i);
    assert(slots[i].wf(alg));
    assert(slots[i].spec_bytes(alg).len() == 96);
    assert(spec_slot_region(h.spec_bytes(), i)
        =~= spec_slots_concat(slots, alg).subrange(96 * i, 96 * (i + 1)));
}

impl Header {
    /// The payload nonce has the length the algorithm and mode call for.
    pub open spec fn wf_nonce(&self) -> bool {
        self.nonce@.len() == spec_nonce_len(self.header_type.algorithm, self.header_type.mode)
    }

    /// The whole envelope is well-formed: nonce sized correctly, key
    /// slots present, at most four, each sized for the algorithm.
    pub open spec fn wf(&self) -> bool {
        &&& self.wf_nonce()
        &&& self.header_type.version is V5
        &&& self.keyslots matches Some(ks) && ks@.len() <= 4
            && (forall|i: int| 0 <= i < ks@.len()
                ==> #[trigger] ks@[i].wf(self.header_type.algorithm))
    }

    /// The first 32 serialized bytes: tags, payload nonce, zero padding.
    /// This is also the associated data of the bulk cipher.
    pub open spec fn spec_aad(&self) -> Seq<u8> {
        spec_version_tag(self.header_type.version)
            + spec_algorithm_tag(self.header_type.algorithm)
            + spec_mode_tag(self.header_type.mode)
            + self.nonce@
            + zero_bytes(26 - self.nonce@.len() as int)
    }

    /// All 416 serialized bytes: the 32-byte prefix, the populated slot
    /// regions, then zero bytes for every empty slot.
    pub open spec fn spec_bytes(&self) -> Seq<u8> {
        self.spec_aad()
            + spec_slots_concat(self.keyslots->0@, self.header_type.algorithm)
            + zero_bytes(96 * (4 - self.keyslots->0@.len() as int))
    }

    /// The three tag pairs.
    fn get_tag(&self) -> (r: HeaderTag)
        ensures
            r.version@ == spec_version_tag(self.header_type.version),
            r.algorithm@ == spec_algorithm_tag(self.header_type.algorithm),
            r.mode@ == spec_mode_tag(self.header_type.mode),
    {
        let version = self.serialize_version();
        let algorithm = self.serialize_algorithm();
        let mode = self.serialize_mode();
        HeaderTag { version, algorithm, mode }
    }

    /// The version tag bytes.
    fn serialize_version(&self) -> (r: [u8; 2])
        ensures
            r@ == spec_version_tag(self.header_type.version),
    {
        match self.header_type.version {
            HeaderVersion::V5 => {
                let info: [u8; 2] = [0xDE, 0x05];
                proof {
                    assert(info@ =~= spec_version_tag(self.header_type.version));
                }
                info
            },
        }
    }

    /// The algorithm tag bytes.
    fn serialize_algorithm(&self) -> (r: [u8; 2])
        ensures
            r@ == spec_algorithm_tag(self.header_type.algorithm),
    {
        match self.header_type.algorithm {
            Algorithm::XChaCha20Poly1305 => {
                let info: [u8; 2] = [0x0E, 0x01];
                proof {
                    assert(info@ =~= spec_algorithm_tag(self.header_type.algorithm));
                }
                info
            },
            Algorithm::Aes256GcmSiv => {
                let info: [u8; 2] = [0x0E, 0x02];
                proof {
                    assert(info@ =~= spec_algorithm_tag(self.header_type.algorithm));
                }
                info
            },
        }
    }

    /// The mode tag bytes.
    fn serialize_mode(&self) -> (r: [u8; 2])
        ensures
            r@ == spec_mode_tag(self.header_type.mode),
    {
        match self.header_type.mode {
            Mode::StreamMode => {
                let info: [u8; 2] = [0x0C, 0x01];
                proof {
                    assert(info@ =~= spec_mode_tag(self.header_type.mode));
                }
                info
            },
            Mode::MemoryMode => {
                let info: [u8; 2] = [0x0C, 0x02];
                proof {
                    assert(info@ =~= spec_mode_tag(self.header_type.mode));
                }
                info
            },
        }
    }

    /// Serializes a V5 envelope into its 416 bytes.
    fn serialize_v5(&self, tag: &HeaderTag) -> (r: Vec<u8>)
        requires
            self.wf(),
            tag.version@ == spec_version_tag(self.header_type.version),
            tag.algorithm@ == spec_algorithm_tag(self.header_type.algorithm),
            tag.mode@ == spec_mode_tag(self.header_type.mode),
        ensures
            r@ == self.spec_bytes(),
            r@.len() == 416,
    {
        let algorithm = self.header_type.algorithm;
        let nonce_len = get_nonce_len(&self.header_type.algorithm, &self.header_type.mode);
        let slot_nonce_len = get_nonce_len(&algorithm, &Mode::MemoryMode);

        let mut header_bytes: Vec<u8> = Vec::new();
        push_bytes(&mut header_bytes, tag.version.as_slice());
        push_bytes(&mut header_bytes, tag.algorithm.as_slice());
        push_bytes(&mut header_bytes, tag.mode.as_slice());
        push_bytes(&mut header_bytes, self.nonce.as_slice());
        push_zeroes(&mut header_bytes, 26 - nonce_len);
        proof {
            assert(header_bytes@ =~= self.spec_aad());
        }

        let keyslots = match &self.keyslots {
            Some(ks) => ks,
            None => unreached(),
        };
        let mut idx: usize = 0;
        while idx < keyslots.len()
            invariant
                self.wf(),
                idx <= keyslots@.len(),
                keyslots@ == self.keyslots->0@,
                header_bytes@ == self.spec_aad()
                    + spec_slots_concat(keyslots@.subrange(0, idx as int), algorithm),
                header_bytes@.len() == 32 + 96 * idx,
                algorithm == self.header_type.algorithm,
                slot_nonce_len == spec_slot_nonce_len(algorithm),
            decreases keyslots@.len() - idx,
        {
            let slot = &keyslots[idx];
            let ghost before = header_bytes@;
            let tag_bytes = slot.serialize();
            push_bytes(&mut header_bytes, tag_bytes.as_slice());
            push_bytes(&mut header_bytes, slot.encrypted_key.as_slice());
            push_bytes(&mut header_bytes, slot.nonce.as_slice());
            push_zeroes(&mut header_bytes, 24 - slot_nonce_len);
            push_bytes(&mut header_bytes, slot.salt.as_slice());
            push_zeroes(&mut header_bytes, 6);
            proof {
                assert(slot.wf(algorithm));
                assert(header_bytes@ =~= before + slot.spec_bytes(algorithm));
                lemma_slots_concat_push(keyslots@, algorithm, idx as int);
                assert(header_bytes@ =~= self.spec_aad()
                    + spec_slots_concat(keyslots@.subrange(0, idx + 1 as int), algorithm));
            }
            idx = idx + 1;
        }
        proof {
            assert(keyslots@.subrange(0, keyslots@.len() as int) =~= keyslots@);
        }

        let mut pad: usize = keyslots.len();
        while pad < 4
            invariant
                self.wf(),
                keyslots@ == self.keyslots->0@,
                keyslots@.len() <= pad <= 4,
                header_bytes@ == self.spec_aad()
                    + spec_slots_concat(keyslots@, algorithm)
                    + zero_bytes(96 * (pad - keyslots@.len() as int)),
            decreases 4 - pad,
        {
            let ghost before = header_bytes@;
            push_zeroes(&mut header_bytes, 96);
            proof {
                assert(header_bytes@ =~= self.spec_aad()
                    + spec_slots_concat(keyslots@, algorithm)
                    + zero_bytes(96 * (pad + 1 - keyslots@.len() as int)));
            }
            pad = pad + 1;
        }
        proof {
            assert(header_bytes@ =~= self.spec_bytes());
            lemma_slots_concat_len(keyslots@, algorithm);
        }
        header_bytes
    }

    /// Serializes the envelope; the result is always exactly 416 bytes.
    pub fn serialize(&self) -> (r: Result<Vec<u8>, CoreError>)
        requires
            self.wf(),
        ensures
            r is Ok,
            r->Ok_0@ == self.spec_bytes(),
            r->Ok_0@.len() == 416,
    {
        let tag = self.get_tag();
        match self.header_type.version {
            HeaderVersion::V5 => Ok(self.serialize_v5(&tag)),
        }
    }

    /// The serialized size of the envelope in bytes.
    pub fn get_size(&self) -> (r: u64)
        ensures
            r == 416,
    {
        match self.header_type.version {
            HeaderVersion::V5 => 416,
        }
    }

    /// The associated data for the bulk cipher: exactly the first 32
    /// serialized bytes.  Key-slot edits leave it unchanged.
    pub fn create_aad(&self) -> (r: Result<Vec<u8>, CoreError>)
        requires
            self.wf_nonce(),
        ensures
            r is Ok,
            r->Ok_0@ == self.spec_aad(),
            r->Ok_0@.len() == 32,
    {
        let tag = self.get_tag();
        match self.header_type.version {
            HeaderVersion::V5 => {
                let nonce_len = get_nonce_len(&self.header_type.algorithm, &self.header_type.mode);
                let mut header_bytes: Vec<u8> = Vec::new();
                push_bytes(&mut header_bytes, tag.version.as_slice());
                push_bytes(&mut header_bytes, tag.algorithm.as_slice());
                push_bytes(&mut header_bytes, tag.mode.as_slice());
                push_bytes(&mut header_bytes, self.nonce.as_slice());
                push_zeroes(&mut header_bytes, 26 - nonce_len);
                proof {
                    assert(header_bytes@ =~= self.spec_aad());
                }
                Ok(header_bytes)
            },
        }
    }
}

/// Extending a slot prefix by one serialized slot.
pub proof fn lemma_slots_concat_push(slots: Seq<Keyslot>, algorithm: Algorithm, i: int)
    requires
        0 <= i < slots.len(),
    ensures
        spec_slots_concat(slots.subrange(0, i + 1), algorithm)
            == spec_slots_concat(slots.subrange(0, i), algorithm)
            + slots[i].spec_bytes(algorithm),
    decreases i,
{
    if i == 0 {
        let s1 = slots.subrange(0, 1);
        assert(s1.len() == 1);
        assert(s1[0] == slots[0]);
        assert(s1.drop_first() =~= Seq::<Keyslot>::empty());
        assert(spec_slots_concat(s1.drop_first(), algorithm) == Seq::<u8>::empty());
        assert(spec_slots_concat(s1, algorithm)
            == s1[0].spec_bytes(algorithm) + spec_slots_concat(s1.drop_first(), algorithm));
        assert(spec_slots_concat(s1, algorithm) =~= slots[0].spec_bytes(algorithm));
        assert(slots.subrange(0, 0) =~= Seq::<Keyslot>::empty());
        assert(spec_slots_concat(slots.subrange(0, 0), algorithm) =~= Seq::<u8>::empty());
    } else {
        let tail = slots.drop_first();
        assert(slots.subrange(0, i + 1).drop_first() =~= tail.subrange(0, i));
        assert(slots.subrange(0, i).drop_first() =~= tail.subrange(0, i - 1));
        lemma_slots_concat_push(tail, algorithm, i - 1);
        assert(tail.subrange(0, i - 1 + 1) =~= tail.subrange(0, i));
        assert(tail[i - 1] == slots[i]);
        assert(spec_slots_concat(slots.subrange(0, i + 1), algorithm)
            == slots[0].spec_bytes(algorithm)
            + spec_slots_concat(tail.subrange(0, i), algorithm));
        assert(spec_slots_concat(slots.subrange(0, i), algorithm)
            == slots[0].spec_bytes(algorithm)
            + spec_slots_concat(tail.subrange(0, i - 1), algorithm));
        assert(spec_slots_concat(slots.subrange(0, i + 1), algorithm)
            =~= spec_slots_concat(slots.subrange(0, i), algorithm)
            + slots[i].spec_bytes(algorithm));
    }
}

/// The first two bytes carry the version tag.
pub open spec fn spec_version_ok(bytes: Seq<u8>) -> bool {
    bytes.len() >= 2 && bytes[0] == 0xDE && bytes[1] == 0x05
}

/// The algorithm the two tag bytes name, if any.
pub open spec fn spec_parse_algorithm(b2: u8, b3: u8) -> Option<Algorithm> {
    if b2 == 0x0E && b3 == 0x01 {
        Some(Algorithm::XChaCha20Poly1305)
    } else if b2 == 0x0E && b3 == 0x02 {
        Some(Algorithm::Aes256GcmSiv)
    } else {
        None
    }
}

/// The mode the two tag bytes name, if any.
pub open spec fn spec_parse_mode(b4: u8, b5: u8) -> Option<Mode> {
    if b4 == 0x0C && b5 == 0x01 {
        Some(Mode::StreamMode)
    } else if b4 == 0x0C && b5 == 0x02 {
        Some(Mode::MemoryMode)
    } else {
        None
    }
}

/// The 96-byte region of slot `i` in a serialized envelope.
pub open spec fn spec_slot_region(bytes: Seq<u8>, i: int) -> Seq<u8> {
    bytes.subrange(32 + 96 * i, 128 + 96 * i)
}

/// Slot region `i` is populated: its first byte is the slot marker.
pub open spec fn spec_slot_populated(bytes: Seq<u8>, i: int) -> bool {
    bytes[32 + 96 * i] == 0xDF
}

/// Every populated slot region carries a known hash identifier.
pub open spec fn spec_slots_ok(bytes: Seq<u8>) -> bool {
    forall|i: int| 0 <= i < 4 && spec_slot_populated(bytes, i)
        ==> #[trigger] bytes[32 + 96 * i + 1] == 0xB5
}

/// The whole envelope parses: version, length, algorithm, mode and every
/// populated slot identifier are in order.
pub open spec fn spec_parse_ok(bytes: Seq<u8>) -> bool {
    &&& spec_version_ok(bytes)
    &&& bytes.len() >= 416
    &&& spec_parse_algorithm(bytes[2], bytes[3]) is Some
    &&& spec_parse_mode(bytes[4], bytes[5]) is Some
    &&& spec_slots_ok(bytes)
}

/// A parsed slot carries exactly the fields of a populated region.
pub open spec fn spec_slot_matches(slot: Keyslot, region: Seq<u8>, algorithm: Algorithm) -> bool {
    let m = spec_slot_nonce_len(algorithm) as int;
    &&& slot.hash_algorithm == HashingAlgorithm::Blake3Balloon(5u8)
    &&& slot.encrypted_key@ == region.subrange(2, 50)
    &&& slot.nonce@ == region.subrange(50, 50 + m)
    &&& slot.salt@ == region.subrange(74, 90)
}

/// The parsed slots are exactly the populated regions with indices in
/// `[lo, 4)`, in wire order.
pub open spec fn spec_slots_match_from(
    slots: Seq<Keyslot>,
    bytes: Seq<u8>,
    algorithm: Algorithm,
    lo: int,
) -> bool
    decreases 4 - lo,
{
    if lo >= 4 {
        slots.len() == 0
    } else if !spec_slot_populated(bytes, lo) {
        spec_slots_match_from(slots, bytes, algorithm, lo + 1)
    } else {
        &&& slots.len() > 0
        &&& spec_slot_matches(slots[0], spec_slot_region(bytes, lo), algorithm)
        &&& spec_slots_match_from(slots.drop_first(), bytes, algorithm, lo + 1)
    }
}

/// A slot list matched from `lo` keeps matching when the next region up
/// is empty.
proof fn lemma_slots_match_skip(slots: Seq<Keyslot>, bytes: Seq<u8>, algorithm: Algorithm, lo: int, hi: int)
    requires
        0 <= lo <= hi < 4,
        spec_slots_match_from_upto(slots, bytes, algorithm, lo, hi),
        !spec_slot_populated(bytes, hi),
    ensures
        spec_slots_match_from_upto(slots, bytes, algorithm, lo, hi + 1),
    decreases hi - lo,
{
    if lo == hi {
        assert(slots.len() == 0);
        assert(spec_slots_match_from_upto(slots, bytes, algorithm, lo + 1, hi + 1));
    } else {
        if !spec_slot_populated(bytes, lo) {
            lemma_slots_match_skip(slots, bytes, algorithm, lo + 1, hi);
        } else {
            lemma_slots_match_skip(slots.drop_first(), bytes, algorithm, lo + 1, hi);
        }
    }
}

/// A slot list matched from `lo` absorbs a matching slot for the next
/// populated region.
proof fn lemma_slots_match_push(
    slots: Seq<Keyslot>,
    x: Keyslot,
    bytes: Seq<u8>,
    algorithm: Algorithm,
    lo: int,
    hi: int,
)
    requires
        0 <= lo <= hi < 4,
        spec_slots_match_from_upto(slots, bytes, algorithm, lo, hi),
        spec_slot_populated(bytes, hi),
        spec_slot_matches(x, spec_slot_region(bytes, hi), algorithm),
    ensures
        spec_slots_match_from_upto(slots.push(x), bytes, algorithm, lo, hi + 1),
    decreases hi - lo,
{
    if lo == hi {
        assert(slots.len() == 0);
        assert(slots.push(x)[0] == x);
        assert(slots.push(x).drop_first() =~= Seq::<Keyslot>::empty());
        assert(spec_slots_match_from_upto(
            Seq::<Keyslot>::empty(), bytes, algorithm, lo + 1, hi + 1));
        assert(spec_slots_match_from_upto(
            slots.push(x).drop_first(), bytes, algorithm, lo + 1, hi + 1));
    } else {
        if !spec_slot_populated(bytes, lo) {
            lemma_slots_match_push(slots, x, bytes, algorithm, lo + 1, hi);
        } else {
            lemma_slots_match_push(slots.drop_first(), x, bytes, algorithm, lo + 1, hi);
            assert(slots.push(x)[0] == slots[0]);
            assert(slots.push(x).drop_first() =~= slots.drop_first().push(x));
        }
    }
}

/// Like [`spec_slots_match_from`], but only over regions `[lo, hi)`.
pub open spec fn spec_slots_match_from_upto(
    slots: Seq<Keyslot>,
    bytes: Seq<u8>,
    algorithm: Algorithm,
    lo: int,
    hi: int,
) -> bool
    decreases hi - lo,
{
    if lo >= hi {
        slots.len() == 0
    } else if !spec_slot_populated(bytes, lo) {
        spec_slots_match_from_upto(slots, bytes, algorithm, lo + 1, hi)
    } else {
        &&& slots.len() > 0
        &&& spec_slot_matches(slots[0], spec_slot_region(bytes, lo), algorithm)
        &&& spec_slots_match_from_upto(slots.drop_first(), bytes, algorithm, lo + 1, hi)
    }
}

/// Matching all four regions is matching regions `[lo, 4)`.
proof fn lemma_slots_match_full(slots: Seq<Keyslot>, bytes: Seq<u8>, algorithm: Algorithm, lo: int)
    requires
        0 <= lo <= 4,
        spec_slots_match_from_upto(slots, bytes, algorithm, lo, 4),
    ensures
        spec_slots_match_from(slots, bytes, algorithm, lo),
    decreases 4 - lo,
{
    if lo < 4 {
        if !spec_slot_populated(bytes, lo) {
            lemma_slots_match_full(slots, bytes, algorithm, lo + 1);
        } else {
            lemma_slots_match_full(slots.drop_first(), bytes, algorithm, lo + 1);
        }
    }
}

/// A matched slot list has at most one slot per region, each well-formed.
proof fn lemma_slots_match_wf(slots: Seq<Keyslot>, bytes: Seq<u8>, algorithm: Algorithm, lo: int, hi: int)
    requires
        0 <= lo <= hi <= 4,
        bytes.len() >= 416,
        spec_slots_match_from_upto(slots, bytes, algorithm, lo, hi),
    ensures
        slots.len() <= hi - lo,
        forall|i: int| 0 <= i < slots.len() ==> #[trigger] slots[i].wf(algorithm),
    decreases hi - lo,
{
    if lo < hi {
        if !spec_slot_populated(bytes, lo) {
            lemma_slots_match_wf(slots, bytes, algorithm, lo + 1, hi);
        } else {
            lemma_slots_match_wf(slots.drop_first(), bytes, algorithm, lo + 1, hi);
            assert(spec_slot_region(bytes, lo).len() == 96);
            assert(slots[0].nonce@.len() == spec_slot_nonce_len(algorithm)) by {
                assert(slots[0].nonce@
                    == spec_slot_region(bytes, lo).subrange(50,
                        50 + spec_slot_nonce_len(algorithm) as int));
            }
            assert(slots[0].wf(algorithm));
            assert forall|i: int| 0 <= i < slots.len()
                implies #[trigger] slots[i].wf(algorithm) by {
                if i > 0 {
                    assert(slots.drop_first()[i - 1].wf(algorithm));
                    assert(slots[i] == slots.drop_first()[i - 1]);
                }
            }
        }
    }
}

/// Copies `len` bytes starting at `start` into a fresh vector.
pub(crate) fn copy_vec(bytes: &[u8], start: usize, len: usize) -> (r: Vec<u8>)
    requires
        start + len <= bytes@.len(),
    ensures
        r@ == bytes@.subrange(start as int, start + len),
{
    let n = bytes.len();
    let mut out: Vec<u8> = Vec::new();
    let mut i: usize = 0;
    while i < len
        invariant
            i <= len,
            start + len <= n,
            n == bytes@.len(),
            out@ == bytes@.subrange(start as int, start + i),
        decreases len - i,
    {
        out.push(bytes[start + i]);
        proof {
            assert(out@ =~= bytes@.subrange(start as int, start + i + 1));
        }
        i = i + 1;
    }
    out
}

/// Copies `N` bytes starting at `start` into a fresh array.
pub(crate) fn copy_arr<const N: usize>(bytes: &[u8], start: usize) -> (r: [u8; N])
    requires
        start + N <= bytes@.len(),
    ensures
        r@ == bytes@.subrange(start as int, start + N),
{
    let n = bytes.len();
    let mut out = [0u8; N];
    let mut i: usize = 0;
    while i < N
        invariant
            i <= N,
            start + N <= n,
            n == bytes@.len(),
            out@.len() == N,
            forall|j: int| 0 <= j < i ==> #[trigger] out@[j] == bytes@[start + j],
        decreases N - i,
    {
        out[i] = bytes[start + i];
        i = i + 1;
    }
    proof {
        assert(out@ =~= bytes@.subrange(start as int, start + N));
    }
    out
}

impl Header {
    /// Parses a serialized envelope and returns it together with its
    /// associated data, the first 32 bytes.  Errors name the first field
    /// that is out of order; a populated slot with an unknown identifier
    /// is an error, an unpopulated slot is skipped.
    pub fn deserialize(bytes: &[u8]) -> (r: Result<(Header, Vec<u8>), CoreError>)
        ensures
            (r is Ok) == spec_parse_ok(bytes@),
            bytes@.len() < 2 ==> (r matches Err(e) && e is HeaderTruncated),
            bytes@.len() >= 2 && !spec_version_ok(bytes@)
                ==> (r matches Err(e) && e is HeaderBadVersion),
            spec_version_ok(bytes@) && bytes@.len() < 416
                ==> (r matches Err(e) && e is HeaderTruncated),
            spec_version_ok(bytes@) && bytes@.len() >= 416
                && spec_parse_algorithm(bytes@[2], bytes@[3]) is None
                ==> (r matches Err(e) && e is HeaderBadAlgo),
            spec_version_ok(bytes@) && bytes@.len() >= 416
                && spec_parse_algorithm(bytes@[2], bytes@[3]) is Some
                && spec_parse_mode(bytes@[4], bytes@[5]) is None
                ==> (r matches Err(e) && e is HeaderBadMode),
            spec_version_ok(bytes@) && bytes@.len() >= 416
                && spec_parse_algorithm(bytes@[2], bytes@[3]) is Some
                && spec_parse_mode(bytes@[4], bytes@[5]) is Some
                && !spec_slots_ok(bytes@)
                ==> (r matches Err(e) && e is HeaderBadSlotTag),
            r is Ok ==> ({
                let h = r->Ok_0.0;
                let aad = r->Ok_0.1;
                &&& h.header_type.version is V5
                &&& Some(h.header_type.algorithm) == spec_parse_algorithm(bytes@[2], bytes@[3])
                &&& Some(h.header_type.mode) == spec_parse_mode(bytes@[4], bytes@[5])
                &&& h.nonce@ == bytes@.subrange(6, 6 + spec_nonce_len(
                    h.header_type.algorithm, h.header_type.mode) as int)
                &&& h.salt matches Some(s) && s@ == zero_bytes(16)
                &&& h.keyslots matches Some(ks)
                    && spec_slots_match_from(ks@, bytes@, h.header_type.algorithm, 0)
                &&& aad@ == bytes@.subrange(0, 32)
                &&& h.wf()
            }),
    {
        if bytes.len() < 2 {
            return Err(CoreError::HeaderTruncated);
        }
        if !(bytes[0] == 0xDE && bytes[1] == 0x05) {
            return Err(CoreError::HeaderBadVersion);
        }
        if bytes.len() < 416 {
            return Err(CoreError::HeaderTruncated);
        }
        let algorithm = if bytes[2] == 0x0E && bytes[3] == 0x01 {
            Algorithm::XChaCha20Poly1305
        } else if bytes[2] == 0x0E && bytes[3] == 0x02 {
            Algorithm::Aes256GcmSiv
        } else {
            return Err(CoreError::HeaderBadAlgo);
        };
        let mode = if bytes[4] == 0x0C && bytes[5] == 0x01 {
            Mode::StreamMode
        } else if bytes[4] == 0x0C && bytes[5] == 0x02 {
            Mode::MemoryMode
        } else {
            return Err(CoreError::HeaderBadMode);
        };

        let nonce_len = get_nonce_len(&algorithm, &mode);
        let nonce = copy_vec(bytes, 6, nonce_len);
        let slot_nonce_len = get_nonce_len(&algorithm, &Mode::MemoryMode);

        let mut keyslots: Vec<Keyslot> = Vec::new();
        let mut i: usize = 0;
        while i < 4
            invariant
                bytes@.len() >= 416,
                i <= 4,
                spec_version_ok(bytes@),
                Some(algorithm) == spec_parse_algorithm(bytes@[2], bytes@[3]),
                Some(mode) == spec_parse_mode(bytes@[4], bytes@[5]),
                slot_nonce_len == spec_slot_nonce_len(algorithm),
                spec_slots_match_from_upto(keyslots@, bytes@, algorithm, 0, i as int),
                forall|j: int| 0 <= j < i && spec_slot_populated(bytes@, j)
                    ==> #[trigger] bytes@[32 + 96 * j + 1] == 0xB5,
            decreases 4 - i,
        {
            let base = 32 + 96 * i;
            if bytes[base] == 0xDF {
                if bytes[base + 1] != 0xB5 {
                    return Err(CoreError::HeaderBadSlotTag);
                }
                let encrypted_key: [u8; 48] = copy_arr(bytes, base + 2);
                let slot_nonce = copy_vec(bytes, base + 50, slot_nonce_len);
                let slot_salt: [u8; 16] = copy_arr(bytes, base + 74);
                let slot = Keyslot {
                    hash_algorithm: HashingAlgorithm::Blake3Balloon(5),
                    encrypted_key,
                    nonce: slot_nonce,
                    salt: slot_salt,
                };
                proof {
                    assert(spec_slot_matches(slot, spec_slot_region(bytes@, i as int), algorithm))
                        by {
                        assert(spec_slot_region(bytes@, i as int).subrange(2, 50)
                            =~= bytes@.subrange(32 + 96 * i + 2, 32 + 96 * i + 50));
                        assert(spec_slot_region(bytes@, i as int).subrange(50,
                            50 + spec_slot_nonce_len(algorithm) as int)
                            =~= bytes@.subrange(32 + 96 * i + 50,
                                32 + 96 * i + 50 + spec_slot_nonce_len(algorithm) as int));
                        assert(spec_slot_region(bytes@, i as int).subrange(74, 90)
                            =~= bytes@.subrange(32 + 96 * i + 74, 32 + 96 * i + 90));
                    }
                    lemma_slots_match_push(keyslots@, slot, bytes@, algorithm, 0, i as int);
                }
                keyslots.push(slot);
            } else {
                proof {
                    lemma_slots_match_skip(keyslots@, bytes@, algorithm, 0, i as int);
                }
            }
            i = i + 1;
        }

        let aad = copy_vec(bytes, 0, 32);
        let salt = [0u8; 16];
        proof {
            assert(salt@ =~= zero_bytes(16));
            lemma_slots_match_full(keyslots@, bytes@, algorithm, 0);
            lemma_slots_match_wf(keyslots@, bytes@, algorithm, 0, 4);
        }
        let header = Header {
            header_type: HeaderType { version: HeaderVersion::V5, algorithm, mode },
            nonce,
            salt: Some(salt),
            keyslots: Some(keyslots),
        };
        Ok((header, aad))
    }
}

/// Slot region `i` consists of 96 zero bytes.
pub open spec fn spec_region_zero(bytes: Seq<u8>, i: int) -> bool {
    forall|j: int| 0 <= j < 96 ==> #[trigger] bytes[32 + 96 * i + j] == 0
}

/// The padding bytes inside populated slot region `i` are zero.
pub open spec fn spec_slot_padding_zero(bytes: Seq<u8>, i: int, m: int) -> bool {
    forall|j: int| (50 + m <= j < 74 || 90 <= j < 96) ==> #[trigger] bytes[32 + 96 * i + j] == 0
}

/// A canonical serialized envelope: it parses, is exactly 416 bytes, its
/// nonce padding and slot padding are zero, empty slot regions are all
/// zero, and the populated slots sit contiguously from slot zero.  This
/// is the form `Header::serialize` produces for an envelope whose slots
/// are all populated.  A delete leaves a zero region before a populated
/// one; such bytes still parse — the zero region is skipped — but the
/// wire cannot tell a freed region from one never used, so the parsed
/// envelope re-serializes with its populated slots moved forward, and
/// the byte-level round trip holds only on this canonical form.
pub open spec fn spec_canonical(bytes: Seq<u8>) -> bool {
    let alg = spec_parse_algorithm(bytes[2], bytes[3])->0;
    let mode = spec_parse_mode(bytes[4], bytes[5])->0;
    let n = spec_nonce_len(alg, mode) as int;
    let m = spec_slot_nonce_len(alg) as int;
    &&& bytes.len() == 416
    &&& spec_parse_ok(bytes)
    &&& forall|j: int| 6 + n <= j < 32 ==> #[trigger] bytes[j] == 0
    &&& forall|i: int| 0 <= i < 4 && spec_slot_populated(bytes, i)
        ==> #[trigger] spec_slot_padding_zero(bytes, i, m)
    &&& forall|i: int| 0 <= i < 4 && !spec_slot_populated(bytes, i)
        ==> #[trigger] spec_region_zero(bytes, i)
    &&& forall|i: int| 1 <= i < 4 && #[trigger] spec_slot_populated(bytes, i)
        ==> spec_slot_populated(bytes, i - 1)
}

/// Slots parsed from the regions at `lo` and above of a canonical
/// envelope serialize, with their trailing zero regions, back to exactly
/// those bytes.
proof fn lemma_slots_round_trip(
    slots: Seq<Keyslot>,
    bytes: Seq<u8>,
    algorithm: Algorithm,
    lo: int,
)
    requires
        0 <= lo <= 4,
        spec_canonical(bytes),
        Some(algorithm) == spec_parse_algorithm(bytes[2], bytes[3]),
        spec_slots_match_from(slots, bytes, algorithm, lo),
    ensures
        slots.len() <= 4 - lo,
        spec_slots_concat(slots, algorithm) + zero_bytes(96 * (4 - lo - slots.len() as int))
            == bytes.subrange(32 + 96 * lo, 416),
    decreases 4 - lo,
{
    let m = spec_slot_nonce_len(algorithm) as int;
    if lo == 4 {
        assert(slots.len() == 0);
        assert(spec_slots_concat(slots, algorithm) + zero_bytes(0)
            =~= bytes.subrange(416, 416));
    } else if !spec_slot_populated(bytes, lo) {
        lemma_slots_round_trip(slots, bytes, algorithm, lo + 1);
        assert(spec_region_zero(bytes, lo));
        lemma_slots_match_len_zero(slots, bytes, algorithm, lo);
        assert(slots.len() == 0);
        assert(spec_slots_concat(slots, algorithm) == Seq::<u8>::empty());
        let tail = bytes.subrange(32 + 96 * (lo + 1), 416);
        assert(zero_bytes(96 * (4 - (lo + 1))) == tail);
        assert forall|j: int| 0 <= j < 96 * (4 - lo)
            implies #[trigger] bytes.subrange(32 + 96 * lo, 416)[j] == 0 by {
            if j < 96 {
                assert(bytes[32 + 96 * lo + j] == 0);
            } else {
                assert(zero_bytes(96 * (4 - (lo + 1)))[j - 96] == tail[j - 96]);
            }
        }
        assert(spec_slots_concat(slots, algorithm)
            + zero_bytes(96 * (4 - lo - slots.len() as int))
            =~= bytes.subrange(32 + 96 * lo, 416));
    } else {
        assert(slots.len() > 0);
        let slot = slots[0];
        let region = spec_slot_region(bytes, lo);
        assert(spec_slot_matches(slot, region, algorithm));
        assert(region.len() == 96);
        assert(bytes[32 + 96 * lo + 1] == 0xB5) by {
            assert(spec_slots_ok(bytes));
        }
        assert(spec_slot_padding_zero(bytes, lo, m));
        assert(slot.spec_bytes(algorithm) =~= region) by {
            assert(slot.nonce@.len() == m);
            assert(spec_slot_tag(slot.hash_algorithm) =~= seq![0xDFu8, 0xB5u8]);
            assert(region[0] == 0xDF);
            assert(region[1] == 0xB5);
            assert forall|j: int| 0 <= j < 96 implies #[trigger] slot.spec_bytes(algorithm)[j]
                == region[j] by {
                assert(region[j] == bytes[32 + 96 * lo + j]);
                if 2 <= j < 50 {
                    assert(slot.encrypted_key@[j - 2] == region.subrange(2, 50)[j - 2]);
                } else if 50 <= j < 50 + m {
                    assert(slot.nonce@[j - 50] == region.subrange(50, 50 + m)[j - 50]);
                } else if 74 <= j < 90 {
                    assert(slot.salt@[j - 74] == region.subrange(74, 90)[j - 74]);
                }
            }
        }
        lemma_slots_round_trip(slots.drop_first(), bytes, algorithm, lo + 1);
        lemma_slots_concat_len_from_match(slots.drop_first(), bytes, algorithm, lo + 1);
        let rest = spec_slots_concat(slots.drop_first(), algorithm)
            + zero_bytes(96 * (4 - (lo + 1) - slots.drop_first().len() as int));
        assert(rest == bytes.subrange(32 + 96 * (lo + 1), 416));
        assert(spec_slots_concat(slots, algorithm)
            == slot.spec_bytes(algorithm) + spec_slots_concat(slots.drop_first(), algorithm));
        assert(slots.drop_first().len() == slots.len() - 1);
        assert(spec_slots_concat(slots, algorithm)
            + zero_bytes(96 * (4 - lo - slots.len() as int))
            =~= slot.spec_bytes(algorithm) + rest) by {
            assert(spec_slots_concat(slots.drop_first(), algorithm).len()
                == 96 * (slots.len() - 1));
        }
        assert forall|j: int| 0 <= j < 96 * (4 - lo)
            implies #[trigger] (slot.spec_bytes(algorithm) + rest)[j]
                == bytes.subrange(32 + 96 * lo, 416)[j] by {
            if j < 96 {
                assert((slot.spec_bytes(algorithm) + rest)[j] == region[j]);
                assert(region[j] == bytes[32 + 96 * lo + j]);
            } else {
                assert((slot.spec_bytes(algorithm) + rest)[j] == rest[j - 96]);
                assert(rest[j - 96] == bytes.subrange(32 + 96 * (lo + 1), 416)[j - 96]);
            }
        }
        assert(slot.spec_bytes(algorithm) + rest
            =~= bytes.subrange(32 + 96 * lo, 416));
    }
}

/// With every region at `lo` and above unpopulated, no slots match.
proof fn lemma_slots_match_len_zero(
    slots: Seq<Keyslot>,
    bytes: Seq<u8>,
    algorithm: Algorithm,
    lo: int,
)
    requires
        0 <= lo < 4,
        spec_canonical(bytes),
        !spec_slot_populated(bytes, lo),
        spec_slots_match_from(slots, bytes, algorithm, lo),
    ensures
        slots.len() == 0,
    decreases 4 - lo,
{
    assert(spec_slots_match_from(slots, bytes, algorithm, lo + 1));
    if lo + 1 < 4 {
        assert(!spec_slot_populated(bytes, lo + 1));
        lemma_slots_match_len_zero(slots, bytes, algorithm, lo + 1);
    } else {
        assert(slots.len() == 0);
    }
}

/// Slots matched against regions are each 96 serialized bytes long.
proof fn lemma_slots_concat_len_from_match(
    slots: Seq<Keyslot>,
    bytes: Seq<u8>,
    algorithm: Algorithm,
    lo: int,
)
    requires
        0 <= lo <= 4,
        bytes.len() >= 416,
        spec_slots_match_from(slots, bytes, algorithm, lo),
    ensures
        spec_slots_concat(slots, algorithm).len() == 96 * slots.len(),
        slots.len() <= 4 - lo,
    decreases 4 - lo,
{
    lemma_slots_match_from_wf(slots, bytes, algorithm, lo);
    lemma_slots_concat_len(slots, algorithm);
}

/// Slots matched against regions from `lo` are well-formed and at most
/// one per region.
proof fn lemma_slots_match_from_wf(
    slots: Seq<Keyslot>,
    bytes: Seq<u8>,
    algorithm: Algorithm,
    lo: int,
)
    requires
        0 <= lo <= 4,
        bytes.len() >= 416,
        spec_slots_match_from(slots, bytes, algorithm, lo),
    ensures
        slots.len() <= 4 - lo,
        forall|i: int| 0 <= i < slots.len() ==> #[trigger] slots[i].wf(algorithm),
    decreases 4 - lo,
{
    if lo < 4 {
        if !spec_slot_populated(bytes, lo) {
            lemma_slots_match_from_wf(slots, bytes, algorithm, lo + 1);
        } else {
            lemma_slots_match_from_wf(slots.drop_first(), bytes, algorithm, lo + 1);
            assert(spec_slot_region(bytes, lo).len() == 96);
            assert(slots[0].nonce@.len() == spec_slot_nonce_len(algorithm)) by {
                assert(slots[0].nonce@
                    == spec_slot_region(bytes, lo).subrange(50,
                        50 + spec_slot_nonce_len(algorithm) as int));
            }
            assert(slots[0].wf(algorithm));
            assert forall|i: int| 0 <= i < slots.len()
                implies #[trigger] slots[i].wf(algorithm) by {
                if i > 0 {
                    assert(slots.drop_first()[i - 1].wf(algorithm));
                    assert(slots[i] == slots.drop_first()[i - 1]);
                }
            }
        }
    }
}

/// Parsing a canonical envelope and serializing the parsed header gives
/// back exactly the same 416 bytes.  Together with the parser's own
/// contract this is the serialize-parse round trip: the requirements
/// below are what `Header::deserialize` ensures of its result.
pub proof fn lemma_header_round_trip(h: Header, bytes: Seq<u8>)
    requires
        spec_canonical(bytes),
        h.wf(),
        Some(h.header_type.algorithm) == spec_parse_algorithm(bytes[2], bytes[3]),
        Some(h.header_type.mode) == spec_parse_mode(bytes[4], bytes[5]),
        h.nonce@ == bytes.subrange(6, 6 + spec_nonce_len(
            h.header_type.algorithm, h.header_type.mode) as int),
        spec_slots_match_from(h.keyslots->0@, bytes, h.header_type.algorithm, 0),
    ensures
        h.spec_bytes() == bytes,
{
    let alg = h.header_type.algorithm;
    let n = spec_nonce_len(alg, h.header_type.mode) as int;
    assert(h.spec_aad() =~= bytes.subrange(0, 32)) by {
        assert(spec_version_ok(bytes));
        assert(spec_algorithm_tag(alg)[0] == bytes[2]
            && spec_algorithm_tag(alg)[1] == bytes[3]);
        assert(spec_mode_tag(h.header_type.mode)[0] == bytes[4]
            && spec_mode_tag(h.header_type.mode)[1] == bytes[5]);
        assert forall|j: int| 0 <= j < 32 implies #[trigger] h.spec_aad()[j]
            == bytes.subrange(0, 32)[j] by {
            if 6 <= j < 6 + n {
                assert(h.nonce@[j - 6] == bytes.subrange(6, 6 + n)[j - 6]);
            }
        }
    }
    let ks = h.keyslots->0@;
    lemma_slots_round_trip(ks, bytes, alg, 0);
    assert(h.spec_bytes() =~= bytes) by {
        assert(spec_slots_concat(ks, alg) + zero_bytes(96 * (4 - ks.len() as int))
            == bytes.subrange(32, 416));
        lemma_slots_concat_len_from_match(ks, bytes, alg, 0);
        assert(bytes.subrange(0, 32) + bytes.subrange(32, 416) =~= bytes);
    }
}

/// Two slots carry the same wire fields.
pub open spec fn spec_slot_fields_eq(a: Keyslot, b: Keyslot) -> bool {
    &&& a.hash_algorithm == b.hash_algorithm
    &&& a.encrypted_key@ == b.encrypted_key@
    &&& a.nonce@ == b.nonce@
    &&& a.salt@ == b.salt@
}

/// The parse relation determines the slots: two slot lists matched
/// against the same bytes agree field for field.
pub proof fn lemma_slots_match_unique(
    s1: Seq<Keyslot>,
    s2: Seq<Keyslot>,
    bytes: Seq<u8>,
    algorithm: Algorithm,
    lo: int,
)
    requires
        0 <= lo <= 4,
        spec_slots_match_from(s1, bytes, algorithm, lo),
        spec_slots_match_from(s2, bytes, algorithm, lo),
    ensures
        s1.len() == s2.len(),
        forall|k: int| 0 <= k < s1.len() ==> spec_slot_fields_eq(#[trigger] s1[k], s2[k]),
    decreases 4 - lo,
{
    if lo < 4 {
        if !spec_slot_populated(bytes, lo) {
            lemma_slots_match_unique(s1, s2, bytes, algorithm, lo + 1);
        } else {
            lemma_slots_match_unique(s1.drop_first(), s2.drop_first(), bytes, algorithm, lo + 1);
            assert(spec_slot_fields_eq(s1[0], s2[0]));
            assert forall|k: int| 0 <= k < s1.len()
                implies spec_slot_fields_eq(#[trigger] s1[k], s2[k]) by {
                if k > 0 {
                    assert(spec_slot_fields_eq(s1.drop_first()[k - 1], s2.drop_first()[k - 1]));
                    assert(s1.drop_first()[k - 1] == s1[k]);
                    assert(s2.drop_first()[k - 1] == s2[k]);
                }
            }
        }
    }
}

/// A header's own slots satisfy the parse relation against the
/// header's own serialized bytes, from region `lo` on, given the
/// regions hold those slots' bytes and the regions after them are
/// unpopulated.
proof fn lemma_slots_self_match(
    slots: Seq<Keyslot>,
    bytes: Seq<u8>,
    algorithm: Algorithm,
    lo: int,
)
    requires
        0 <= lo <= 4,
        bytes.len() == 416,
        slots.len() <= 4 - lo,
        forall|i: int| 0 <= i < slots.len() ==> (#[trigger] slots[i]).is_populated(),
        forall|i: int| 0 <= i < slots.len() ==> (#[trigger] slots[i]).wf(algorithm),
        forall|i: int| 0 <= i < slots.len()
            ==> #[trigger] spec_slot_region(bytes, lo + i) == slots[i].spec_bytes(algorithm),
        forall|i: int| lo + slots.len() <= i < 4 ==> #[trigger] bytes[32 + 96 * i] != 0xDF,
    ensures
        spec_slots_match_from(slots, bytes, algorithm, lo),
    decreases 4 - lo,
{
    if lo < 4 {
        if slots.len() == 0 {
            assert(bytes[32 + 96 * lo] != 0xDF);
            lemma_slots_self_match(slots, bytes, algorithm, lo + 1);
        } else {
            let slot = slots[0];
            let region = spec_slot_region(bytes, lo);
            assert(spec_slot_region(bytes, lo + 0) == slots[0].spec_bytes(algorithm));
            assert(region == slot.spec_bytes(algorithm));
            assert(slot.wf(algorithm) && slot.is_populated());
            assert(spec_slot_tag(slot.hash_algorithm) =~= seq![0xDFu8, 0xB5u8]);
            assert(region.len() == 96);
            let m = spec_slot_nonce_len(algorithm) as int;
            assert(spec_slot_populated(bytes, lo)) by {
                assert(bytes[32 + 96 * lo] == region[0]);
                assert(region[0] == 0xDF);
            }
            assert(spec_slot_matches(slot, region, algorithm)) by {
                assert(slot.encrypted_key@ =~= region.subrange(2, 50));
                assert(slot.nonce@ =~= region.subrange(50, 50 + m));
                assert(slot.salt@ =~= region.subrange(74, 90));
            }
            assert forall|i: int| 0 <= i < slots.drop_first().len()
                implies #[trigger] spec_slot_region(bytes, lo + 1 + i)
                    == slots.drop_first()[i].spec_bytes(algorithm) by {
                assert(slots.drop_first()[i] == slots[i + 1]);
                assert(spec_slot_region(bytes, lo + (i + 1)) == slots[i + 1].spec_bytes(algorithm));
            }
            lemma_slots_self_match(slots.drop_first(), bytes, algorithm, lo + 1);
        }
    }
}

/// Serializing a well-formed envelope whose slots are all populated
/// and parsing the bytes back recovers every field: the bytes parse,
/// the tags name the same algorithm and mode, the nonce is read back,
/// and the envelope's own slots satisfy the parse relation — so by
/// [`lemma_slots_match_unique`] the parser's slots agree with them
/// field for field.
pub proof fn lemma_serialize_then_parse(h: Header)
    requires
        h.wf(),
        forall|i: int| 0 <= i < h.keyslots->0@.len()
            ==> (#[trigger] h.keyslots->0@[i]).is_populated(),
    ensures
        spec_parse_ok(h.spec_bytes()),
        spec_parse_algorithm(h.spec_bytes()[2], h.spec_bytes()[3])
            == Some(h.header_type.algorithm),
        spec_parse_mode(h.spec_bytes()[4], h.spec_bytes()[5]) == Some(h.header_type.mode),
        h.spec_bytes().subrange(6, 6 + spec_nonce_len(h.header_type.algorithm,
            h.header_type.mode) as int) == h.nonce@,
        spec_slots_match_from(h.keyslots->0@, h.spec_bytes(), h.header_type.algorithm, 0),
{
    let alg = h.header_type.algorithm;
    let slots = h.keyslots->0@;
    let bytes = h.spec_bytes();
    let n = spec_nonce_len(alg, h.header_type.mode) as int;
    assert(h.spec_aad().len() == 32);
    lemma_slots_concat_len(slots, alg);
    assert(bytes.len() == 416);
    assert(bytes[0] == 0xDE && bytes[1] == 0x05);
    assert(bytes[2] == spec_algorithm_tag(alg)[0] && bytes[3] == spec_algorithm_tag(alg)[1]);
    assert(bytes[4] == spec_mode_tag(h.header_type.mode)[0]
        && bytes[5] == spec_mode_tag(h.header_type.mode)[1]);
    assert(bytes.subrange(6, 6 + n) =~= h.nonce@);
    assert forall|i: int| 0 <= i < slots.len()
        implies #[trigger] spec_slot_region(bytes, i) == slots[i].spec_bytes(alg) by {
        lemma_header_slot_region(h, i);
    }
    assert forall|i: int| slots.len() <= i < 4
        implies #[trigger] bytes[32 + 96 * i] == 0 by {
        assert(bytes[32 + 96 * i]
            == zero_bytes(96 * (4 - slots.len() as int))[96 * i - 96 * slots.len() as int]);
    }
    lemma_slots_self_match(slots, bytes, alg, 0);
    assert(spec_slots_ok(bytes)) by {
        assert forall|i: int| 0 <= i < 4 && spec_slot_populated(bytes, i)
            implies #[trigger] bytes[32 + 96 * i + 1] == 0xB5 by {
            if i < slots.len() {
                assert(slots[i].is_populated());
                assert(spec_slot_tag(slots[i].hash_algorithm) =~= seq![0xDFu8, 0xB5u8]);
                assert(bytes[32 + 96 * i + 1] == spec_slot_region(bytes, i)[1]);
            }
        }
    }
}

/// Flipping any single bit of the six tag bytes of a parseable envelope
/// makes it unparseable: every valid tag byte value sits at least two
/// bit flips away from every other valid value.  (A flipped bit in the
/// rest of the 32-byte prefix instead changes the associated data, so
/// decryption fails on authentication; that failure rests on the cipher,
/// not on this parser.)
pub proof fn lemma_tag_bit_flip_fails(bytes: Seq<u8>, flipped: Seq<u8>, p: int)
    requires
        spec_parse_ok(bytes),
        0 <= p < 48,
        flipped.len() == bytes.len(),
        flipped[p / 8] == (bytes[p / 8] ^ (1u8 << ((p % 8) as u8))),
        forall|j: int| 0 <= j < bytes.len() && j != p / 8 ==> flipped[j] == bytes[j],
    ensures
        !spec_parse_ok(flipped),
{
    let b = p / 8;
    let k = (p % 8) as u8;
    let x = bytes[b];
    let y = flipped[b];
    assert(k < 8);
    assert(x ^ (1u8 << k) != x) by (bit_vector)
        requires k < 8;
    if b == 3 || b == 5 {
        assert((x == 1 || x == 2) ==> (x ^ (1u8 << k)) != 1 && (x ^ (1u8 << k)) != 2)
            by (bit_vector)
            requires k < 8;
    }
}

/// Appends a slice to a byte vector.
pub(crate) fn push_bytes(dst: &mut Vec<u8>, src: &[u8])
    ensures
        final(dst)@ == old(dst)@ + src@,
{
    let mut i: usize = 0;
    while i < src.len()
        invariant
            i <= src@.len(),
            dst@ == old(dst)@ + src@.subrange(0, i as int),
        decreases src@.len() - i,
    {
        dst.push(src[i]);
        proof {
            assert(dst@ =~= old(dst)@ + src@.subrange(0, i + 1 as int));
        }
        i = i + 1;
    }
    proof {
        assert(src@.subrange(0, src@.len() as int) =~= src@);
    }
}

/// Appends `n` zero bytes to a byte vector.
pub(crate) fn push_zeroes(dst: &mut Vec<u8>, n: usize)
    ensures
        final(dst)@ == old(dst)@ + zero_bytes(n as int),
{
    let mut i: usize = 0;
    while i < n
        invariant
            i <= n,
            dst@ == old(dst)@ + zero_bytes(i as int),
        decreases n - i,
    {
        dst.push(0u8);
        proof {
            assert(dst@ =~= old(dst)@ + zero_bytes(i + 1 as int));
        }
        i = i + 1;
    }
}

} // verus!
