//! The chunked cipher layer: the plaintext is cut into fixed blocks,
//! each sealed on its own under a per-block nonce derived from the
//! stored prefix and a little-endian counter, with the terminal block
//! marked by the counter's top flag bit.  A truncated stream therefore
//! fails authentication on its would-be last block.

use vstd::prelude::*;
use crate::cipher::{aead_open, aead_seal, Ciphers, MAX_AEAD_LEN};
use crate::error::CoreError;
use crate::header::push_bytes;
use crate::primitives::{spec_nonce_len, Algorithm, Mode, BLOCK_SIZE, TAG_LEN};

verus! {

/// Greatest plaintext length the whole-buffer stream functions accept.
/// The per-block functions below are not bound by it: they carry a
/// stream of up to the counter bound, one block at a time.
pub const MAX_STREAM_LEN: usize = 0x7000_0000;

/// The four counter bytes appended to the stored nonce prefix for block
/// `i`: the counter in little-endian order, with the top bit of the
/// last byte set on the terminal block.
pub open spec fn spec_counter_bytes(i: int, last: bool) -> Seq<u8> {
    seq![
        (i % 256) as u8,
        ((i / 256) % 256) as u8,
        ((i / 65536) % 256) as u8,
        (((i / 16777216) % 128) + if last { 128int } else { 0int }) as u8,
    ]
}

/// The full nonce of block `i`.
pub open spec fn spec_block_nonce(base: Seq<u8>, i: int, last: bool) -> Seq<u8> {
    base + spec_counter_bytes(i, last)
}

/// The whole sealed stream for a plaintext, starting at block `i`:
/// every full leading block sealed as non-terminal, then the remainder
/// (possibly empty) sealed as the terminal block.
pub open spec fn spec_stream_seal(
    algorithm: Algorithm,
    key: Seq<u8>,
    base: Seq<u8>,
    aad: Seq<u8>,
    plaintext: Seq<u8>,
    i: int,
) -> Seq<u8>
    decreases plaintext.len(),
{
    if plaintext.len() < BLOCK_SIZE {
        aead_seal(algorithm, key, spec_block_nonce(base, i, true), aad, plaintext)
    } else {
        aead_seal(algorithm, key, spec_block_nonce(base, i, false), aad,
            plaintext.take(BLOCK_SIZE as int))
            + spec_stream_seal(algorithm, key, base, aad,
                plaintext.skip(BLOCK_SIZE as int), i + 1)
    }
}

/// What opening a sealed stream yields, starting at block `i`: the
/// concatenation of every opened block, or nothing as soon as one
/// block fails to open.  A chunk shorter than a full sealed block is
/// the terminal block.
pub open spec fn spec_stream_open(
    algorithm: Algorithm,
    key: Seq<u8>,
    base: Seq<u8>,
    aad: Seq<u8>,
    ciphertext: Seq<u8>,
    i: int,
) -> Option<Seq<u8>>
    decreases ciphertext.len(),
{
    if ciphertext.len() < BLOCK_SIZE + TAG_LEN {
        aead_open(algorithm, key, spec_block_nonce(base, i, true), aad, ciphertext)
    } else {
        match aead_open(algorithm, key, spec_block_nonce(base, i, false), aad,
            ciphertext.take((BLOCK_SIZE + TAG_LEN) as int)) {
            Some(block) => match spec_stream_open(algorithm, key, base, aad,
                ciphertext.skip((BLOCK_SIZE + TAG_LEN) as int), i + 1) {
                Some(rest) => Some(block + rest),
                None => None,
            },
            None => None,
        }
    }
}

/// The sealed length of a stream: one 16-byte tag for each full block
/// and one for the terminal remainder.
pub open spec fn spec_stream_seal_len(plaintext_len: int) -> int {
    plaintext_len + TAG_LEN * (plaintext_len / (BLOCK_SIZE as int) + 1)
}

/// Dividing after removing one whole block drops the quotient by one.
proof fn lemma_div_sub_one(n: int, b: int)
    requires
        n >= b > 0,
    ensures
        (n - b) / b == n / b - 1,
{
    assert((n - b) / b == n / b - 1) by (nonlinear_arith)
        requires n >= b > 0;
}

/// A quantity below the divisor divides to zero.
proof fn lemma_div_small(n: int, b: int)
    requires
        0 <= n < b,
    ensures
        n / b == 0,
{
    assert(n / b == 0) by (nonlinear_arith)
        requires 0 <= n < b;
}

/// Computes the four counter bytes of block `i`.
fn counter_bytes(i: u32, last: bool) -> (r: [u8; 4])
    ensures
        r@ == spec_counter_bytes(i as int, last),
{
    let b0 = (i % 256) as u8;
    let b1 = ((i / 256) % 256) as u8;
    let b2 = ((i / 65536) % 256) as u8;
    let b3 = ((i / 16777216) % 128) as u8 + if last { 128 } else { 0 };
    let r = [b0, b1, b2, b3];
    proof {
        assert(r@ =~= spec_counter_bytes(i as int, last));
    }
    r
}

/// Builds the full nonce of block `i` from the stored prefix.
fn block_nonce(base: &[u8], i: u32, last: bool) -> (r: Vec<u8>)
    ensures
        r@ == spec_block_nonce(base@, i as int, last),
        r@.len() == base@.len() + 4,
{
    let mut nonce: Vec<u8> = Vec::new();
    push_bytes(&mut nonce, base);
    let counter = counter_bytes(i, last);
    push_bytes(&mut nonce, counter.as_slice());
    proof {
        assert(nonce@ =~= spec_block_nonce(base@, i as int, last));
    }
    nonce
}

/// Seals a plaintext block by block from block index `i`.
fn encrypt_stream_from(
    ciphers: &Ciphers,
    base: &[u8],
    aad: &[u8],
    plaintext: &[u8],
    i: u32,
) -> (r: Result<Vec<u8>, CoreError>)
    requires
        base@.len() + 4 == spec_nonce_len(ciphers.spec_algorithm(), Mode::MemoryMode),
        plaintext@.len() <= MAX_STREAM_LEN,
        aad@.len() <= MAX_AEAD_LEN,
        i + plaintext@.len() as int / (BLOCK_SIZE as int) < 0x0FFF_FFFF,
    ensures
        r is Ok,
        r->Ok_0@ == spec_stream_seal(ciphers.spec_algorithm(), ciphers.spec_key(), base@,
            aad@, plaintext@, i as int),
        r->Ok_0@.len() == spec_stream_seal_len(plaintext@.len() as int),
        spec_stream_open(ciphers.spec_algorithm(), ciphers.spec_key(), base@, aad@,
            r->Ok_0@, i as int) == Some(plaintext@),
    decreases plaintext@.len(),
{
    if plaintext.len() < BLOCK_SIZE {
        let nonce = block_nonce(base, i, true);
        let sealed = match ciphers.encrypt(nonce.as_slice(), plaintext, aad) {
            Ok(ct) => ct,
            Err(_) => unreached(),
        };
        proof {
            assert(sealed@.len() < BLOCK_SIZE + TAG_LEN);
            lemma_div_small(plaintext@.len() as int, BLOCK_SIZE as int);
        }
        Ok(sealed)
    } else {
        let (head, tail) = plaintext.split_at(BLOCK_SIZE);
        let nonce = block_nonce(base, i, false);
        let sealed = match ciphers.encrypt(nonce.as_slice(), head, aad) {
            Ok(ct) => ct,
            Err(_) => unreached(),
        };
        let rest = match encrypt_stream_from(ciphers, base, aad, tail, i + 1) {
            Ok(ct) => ct,
            Err(_) => unreached(),
        };
        let mut out = sealed;
        push_bytes(&mut out, rest.as_slice());
        proof {
            let alg = ciphers.spec_algorithm();
            let key = ciphers.spec_key();
            assert(head@ == plaintext@.take(BLOCK_SIZE as int));
            assert(tail@ == plaintext@.skip(BLOCK_SIZE as int));
            assert(out@ =~= spec_stream_seal(alg, key, base@, aad@, plaintext@, i as int));
            assert(out@.take((BLOCK_SIZE + TAG_LEN) as int)
                =~= aead_seal(alg, key, spec_block_nonce(base@, i as int, false), aad@, head@));
            assert(out@.skip((BLOCK_SIZE + TAG_LEN) as int) =~= rest@);
            assert(head@ + tail@ =~= plaintext@);
            lemma_div_sub_one(plaintext@.len() as int, BLOCK_SIZE as int);
        }
        Ok(out)
    }
}

/// Opens a sealed stream chunk by chunk from block index `i`.
fn decrypt_stream_from(
    ciphers: &Ciphers,
    base: &[u8],
    aad: &[u8],
    ciphertext: &[u8],
    i: u32,
) -> (r: Result<Vec<u8>, CoreError>)
    requires
        base@.len() + 4 == spec_nonce_len(ciphers.spec_algorithm(), Mode::MemoryMode),
        ciphertext@.len() <= MAX_STREAM_LEN + MAX_STREAM_LEN / BLOCK_SIZE * TAG_LEN + TAG_LEN,
        aad@.len() <= MAX_AEAD_LEN,
        i + ciphertext@.len() as int / ((BLOCK_SIZE + TAG_LEN) as int) < 0x0FFF_FFFF,
    ensures
        (r is Ok) == (spec_stream_open(ciphers.spec_algorithm(), ciphers.spec_key(), base@,
            aad@, ciphertext@, i as int) is Some),
        r is Ok ==> r->Ok_0@ == spec_stream_open(ciphers.spec_algorithm(), ciphers.spec_key(),
            base@, aad@, ciphertext@, i as int)->0,
        r is Err ==> r->Err_0 is CipherAuth,
    decreases ciphertext@.len(),
{
    if ciphertext.len() < BLOCK_SIZE + TAG_LEN {
        let nonce = block_nonce(base, i, true);
        ciphers.decrypt(nonce.as_slice(), ciphertext, aad)
    } else {
        let (chunk, tail) = ciphertext.split_at(BLOCK_SIZE + TAG_LEN);
        proof {
            lemma_div_sub_one(ciphertext@.len() as int, (BLOCK_SIZE + TAG_LEN) as int);
        }
        let nonce = block_nonce(base, i, false);
        let block = match ciphers.decrypt(nonce.as_slice(), chunk, aad) {
            Ok(block) => block,
            Err(e) => {
                return Err(e);
            },
        };
        let rest = match decrypt_stream_from(ciphers, base, aad, tail, i + 1) {
            Ok(rest) => rest,
            Err(e) => {
                return Err(e);
            },
        };
        let mut out = block;
        push_bytes(&mut out, rest.as_slice());
        proof {
            assert(chunk@ == ciphertext@.take((BLOCK_SIZE + TAG_LEN) as int));
            assert(tail@ == ciphertext@.skip((BLOCK_SIZE + TAG_LEN) as int));
        }
        Ok(out)
    }
}

/// Seals a plaintext in stream mode: full blocks as non-terminal, the
/// remainder — empty when the plaintext is a multiple of the block
/// size — as the marked terminal block.  Opening the result under the
/// same key, prefix and associated data yields the plaintext back.
pub fn encrypt_stream(
    ciphers: &Ciphers,
    base: &[u8],
    aad: &[u8],
    plaintext: &[u8],
) -> (r: Result<Vec<u8>, CoreError>)
    requires
        base@.len() + 4 == spec_nonce_len(ciphers.spec_algorithm(), Mode::MemoryMode),
        plaintext@.len() <= MAX_STREAM_LEN,
        aad@.len() <= MAX_AEAD_LEN,
    ensures
        r is Ok,
        r->Ok_0@ == spec_stream_seal(ciphers.spec_algorithm(), ciphers.spec_key(), base@,
            aad@, plaintext@, 0),
        r->Ok_0@.len() == spec_stream_seal_len(plaintext@.len() as int),
        spec_stream_open(ciphers.spec_algorithm(), ciphers.spec_key(), base@, aad@,
            r->Ok_0@, 0) == Some(plaintext@),
{
    encrypt_stream_from(ciphers, base, aad, plaintext, 0)
}

/// Seals one indexed block of a stream: a full block as non-terminal,
/// the final remainder — possibly short or empty — with `last` set.
/// Callers that cannot hold a whole payload seal it through this, one
/// block at a time, against the same per-block nonces as
/// [`encrypt_stream`].
pub fn encrypt_stream_block(
    ciphers: &Ciphers,
    base: &[u8],
    aad: &[u8],
    block: &[u8],
    index: u32,
    last: bool,
) -> (r: Result<Vec<u8>, CoreError>)
    requires
        base@.len() + 4 == spec_nonce_len(ciphers.spec_algorithm(), Mode::MemoryMode),
        block@.len() <= BLOCK_SIZE,
        aad@.len() <= MAX_AEAD_LEN,
    ensures
        r is Ok,
        r->Ok_0@ == aead_seal(ciphers.spec_algorithm(), ciphers.spec_key(),
            spec_block_nonce(base@, index as int, last), aad@, block@),
        r->Ok_0@.len() == block@.len() + TAG_LEN,
        aead_open(ciphers.spec_algorithm(), ciphers.spec_key(),
            spec_block_nonce(base@, index as int, last), aad@, r->Ok_0@) == Some(block@),
{
    let nonce = block_nonce(base, index, last);
    match ciphers.encrypt(nonce.as_slice(), block, aad) {
        Ok(sealed) => Ok(sealed),
        Err(_) => unreached(),
    }
}

/// Opens one indexed block of a stream; fails exactly when the chunk
/// does not authenticate under that block's nonce.
pub fn decrypt_stream_block(
    ciphers: &Ciphers,
    base: &[u8],
    aad: &[u8],
    chunk: &[u8],
    index: u32,
    last: bool,
) -> (r: Result<Vec<u8>, CoreError>)
    requires
        base@.len() + 4 == spec_nonce_len(ciphers.spec_algorithm(), Mode::MemoryMode),
        chunk@.len() <= BLOCK_SIZE + TAG_LEN,
        aad@.len() <= MAX_AEAD_LEN,
    ensures
        (r is Ok) == (aead_open(ciphers.spec_algorithm(), ciphers.spec_key(),
            spec_block_nonce(base@, index as int, last), aad@, chunk@) is Some),
        r is Ok ==> r->Ok_0@ == aead_open(ciphers.spec_algorithm(), ciphers.spec_key(),
            spec_block_nonce(base@, index as int, last), aad@, chunk@)->0,
        r is Ok ==> r->Ok_0@.len() + TAG_LEN == chunk@.len(),
        r is Err ==> r->Err_0 is CipherAuth,
{
    let nonce = block_nonce(base, index, last);
    ciphers.decrypt(nonce.as_slice(), chunk, aad)
}

/// Opens a stream-mode ciphertext; fails exactly when some block —
/// in particular a truncated or unmarked terminal block — does not
/// authenticate.
pub fn decrypt_stream(
    ciphers: &Ciphers,
    base: &[u8],
    aad: &[u8],
    ciphertext: &[u8],
) -> (r: Result<Vec<u8>, CoreError>)
    requires
        base@.len() + 4 == spec_nonce_len(ciphers.spec_algorithm(), Mode::MemoryMode),
        ciphertext@.len() <= MAX_STREAM_LEN + MAX_STREAM_LEN / BLOCK_SIZE * TAG_LEN + TAG_LEN,
        aad@.len() <= MAX_AEAD_LEN,
    ensures
        (r is Ok) == (spec_stream_open(ciphers.spec_algorithm(), ciphers.spec_key(), base@,
            aad@, ciphertext@, 0) is Some),
        r is Ok ==> r->Ok_0@ == spec_stream_open(ciphers.spec_algorithm(), ciphers.spec_key(),
            base@, aad@, ciphertext@, 0)->0,
        r is Err ==> r->Err_0 is CipherAuth,
{
    decrypt_stream_from(ciphers, base, aad, ciphertext, 0)
}

} // verus!
