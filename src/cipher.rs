//! Label hashing, password-based key derivation and authenticated encryption of
//! entries (ChaCha20-Poly1305 from `ring`, with a fresh random nonce for every
//! encryption).
//!
//! A blob is the 12-byte nonce followed by the ciphertext and its 16-byte tag.
use ring::rand::SecureRandom;
use vstd::prelude::*;
use crate::input::{CmdError, MAX_SECRET_LEN};

verus! {

/// Length of a cipher key, in bytes.
pub const KEY_LEN: usize = 32;

/// Length of a nonce, in bytes.
pub const NONCE_LEN: usize = 12;

/// Rounds of PBKDF2 used to derive the key.
pub const KDF_ROUNDS: u32 = 600_000;

/// Longest salt or password that key derivation takes.
pub const MAX_KDF_INPUT: usize = 0x0fff_ffff;

/// The XXH3-128 hash of a label: the identifier it is filed under.
pub uninterp spec fn label_id(label: Seq<u8>) -> u128;

/// Relies on `xxhash_rust::xxh3::xxh3_128`: a hash of the bytes alone.
#[verifier::external_body]
pub(crate) fn hash_label(label: &[u8]) -> (r: u128)
    ensures
        r == label_id(label@),
{
    xxhash_rust::xxh3::xxh3_128(label)
}

/// The key that PBKDF2-HMAC-SHA256 derives in `rounds` rounds from `salt` and `pass`.
pub uninterp spec fn derived_key(rounds: u32, salt: Seq<u8>, pass: Seq<u8>) -> Seq<u8>;

/// Relies on `ring::pbkdf2::derive` with `PBKDF2_HMAC_SHA256`, which fills the 32-byte
/// output from the inputs alone; it panics only on zero rounds (`NonZeroU32`) and on
/// inputs far longer than `MAX_KDF_INPUT`.
#[verifier::external_body]
pub(crate) fn derive_key(rounds: u32, salt: &[u8], pass: &[u8]) -> (r: Vec<u8>)
    requires
        rounds > 0,
        salt@.len() <= MAX_KDF_INPUT,
        pass@.len() <= MAX_KDF_INPUT,
    ensures
        r@ == derived_key(rounds, salt@, pass@),
        r@.len() == KEY_LEN,
{
    let mut out = [0u8; 32];
    let rounds = core::num::NonZeroU32::new(rounds).unwrap();
    ring::pbkdf2::derive(ring::pbkdf2::PBKDF2_HMAC_SHA256, rounds, salt, pass, &mut out);
    out.to_vec()
}

/// What ChaCha20-Poly1305 makes of `plain` under `key` and `nonce`, with no associated
/// data: the ciphertext followed by the tag.
pub uninterp spec fn sealed(key: Seq<u8>, nonce: Seq<u8>, plain: Seq<u8>) -> Seq<u8>;

/// Relies on `ring::aead::LessSafeKey::seal_in_place_append_tag` with
/// `CHACHA20_POLY1305`: it fails only on a key that is not 32 bytes, a nonce that is
/// not 12 bytes, or input over 274,877,906,880 bytes, all left out here.
#[verifier::external_body]
fn seal_raw(key: &[u8], nonce: &[u8], plain: &[u8]) -> (r: Vec<u8>)
    requires
        key@.len() == KEY_LEN,
        nonce@.len() == NONCE_LEN,
        plain@.len() <= MAX_SECRET_LEN,
    ensures
        r@ == sealed(key@, nonce@, plain@),
{
    let unbound = ring::aead::UnboundKey::new(&ring::aead::CHACHA20_POLY1305, key).unwrap();
    let nonce = ring::aead::Nonce::try_assume_unique_for_key(nonce).unwrap();
    let mut out = plain.to_vec();
    ring::aead::LessSafeKey::new(unbound)
        .seal_in_place_append_tag(nonce, ring::aead::Aad::empty(), &mut out)
        .unwrap();
    out
}

/// Relies on `ring::aead::LessSafeKey::open_in_place` with `CHACHA20_POLY1305`: it
/// succeeds exactly where `data` is what sealing some plaintext under `key` and
/// `nonce` gives, and then returns that plaintext.
#[verifier::external_body]
fn open_raw(key: &[u8], nonce: &[u8], data: &[u8]) -> (r: Option<Vec<u8>>)
    requires
        key@.len() == KEY_LEN,
        nonce@.len() == NONCE_LEN,
    ensures
        match r {
            Some(v) => data@ == sealed(key@, nonce@, v@),
            None => forall|p: Seq<u8>| data@ != sealed(key@, nonce@, p),
        },
        forall|p: Seq<u8>| data@ == sealed(key@, nonce@, p) ==> r is Some && r->0@ == p,
{
    let unbound = ring::aead::UnboundKey::new(&ring::aead::CHACHA20_POLY1305, key).unwrap();
    let nonce = ring::aead::Nonce::try_assume_unique_for_key(nonce).unwrap();
    let mut buf = data.to_vec();
    match ring::aead::LessSafeKey::new(unbound).open_in_place(nonce, ring::aead::Aad::empty(), &mut buf) {
        Ok(plain) => Some(plain.to_vec()),
        Err(_) => None,
    }
}

/// Relies on `ring::rand::SystemRandom::fill`: 12 bytes from the operating system's
/// random source, or `None` where it fails. Nothing is known of the bytes.
#[verifier::external_body]
pub(crate) fn random_nonce() -> (r: Option<Vec<u8>>)
    ensures
        r is Some ==> r->0@.len() == NONCE_LEN,
{
    let mut n = [0u8; 12];
    match ring::rand::SystemRandom::new().fill(&mut n) {
        Ok(()) => Some(n.to_vec()),
        Err(_) => None,
    }
}

/// The blob that holds `plain` sealed under `key` with `nonce`.
pub open spec fn blob_of(key: Seq<u8>, nonce: Seq<u8>, plain: Seq<u8>) -> Seq<u8> {
    nonce + sealed(key, nonce, plain)
}

/// Whether `blob` decrypts to `plain` under `key`.
pub open spec fn opens_to(key: Seq<u8>, blob: Seq<u8>, plain: Seq<u8>) -> bool {
    blob.len() >= NONCE_LEN && blob.skip(NONCE_LEN as int) == sealed(key, blob.take(NONCE_LEN as int), plain)
}

/// A blob opens to what it was sealed from.
pub proof fn lemma_blob_opens(key: Seq<u8>, nonce: Seq<u8>, plain: Seq<u8>)
    requires
        nonce.len() == NONCE_LEN,
    ensures
        opens_to(key, blob_of(key, nonce, plain), plain),
        blob_of(key, nonce, plain).take(NONCE_LEN as int) == nonce,
{
    let b = blob_of(key, nonce, plain);
    assert(b.take(NONCE_LEN as int) =~= nonce);
    assert(b.skip(NONCE_LEN as int) =~= sealed(key, nonce, plain));
}

/// Copies `s[lo..hi]`.
fn copy_range(s: &[u8], lo: usize, hi: usize) -> (r: Vec<u8>)
    requires
        lo <= hi <= s@.len(),
    ensures
        r@ == s@.subrange(lo as int, hi as int),
{
    let mut r: Vec<u8> = Vec::new();
    let mut i: usize = lo;
    while i < hi
        invariant
            lo <= i <= hi <= s@.len(),
            r@ == s@.subrange(lo as int, i as int),
        decreases hi - i,
    {
        r.push(s[i]);
        i += 1;
        assert(r@ =~= s@.subrange(lo as int, i as int));
    }
    r
}

/// Seals `plain` under `key` with the given nonce, as a blob.
pub fn seal_with_nonce(key: &[u8], nonce: &[u8], plain: &[u8]) -> (r: Vec<u8>)
    requires
        key@.len() == KEY_LEN,
        nonce@.len() == NONCE_LEN,
        plain@.len() <= MAX_SECRET_LEN,
    ensures
        r@ == blob_of(key@, nonce@, plain@),
        opens_to(key@, r@, plain@),
        r@.take(NONCE_LEN as int) == nonce@,
{
    let ct = seal_raw(key, nonce, plain);
    let mut r = copy_range(nonce, 0, nonce.len());
    let mut i: usize = 0;
    while i < ct.len()
        invariant
            i <= ct@.len(),
            r@ == nonce@ + ct@.take(i as int),
        decreases ct@.len() - i,
    {
        r.push(ct[i]);
        i += 1;
        assert(r@ =~= nonce@ + ct@.take(i as int));
    }
    assert(ct@.take(ct@.len() as int) =~= ct@);
    proof {
        lemma_blob_opens(key@, nonce@, plain@);
    }
    r
}

/// Seals `plain` under `key` with a freshly drawn random nonce. Fails with
/// `NoFreshNonce` where the system gives no random bytes.
pub fn encrypt(key: &[u8], plain: &[u8]) -> (r: Result<Vec<u8>, CmdError>)
    requires
        key@.len() == KEY_LEN,
        plain@.len() <= MAX_SECRET_LEN,
    ensures
        match r {
            Ok(b) => opens_to(key@, b@, plain@)
                && exists|n: Seq<u8>| n.len() == NONCE_LEN && b@ == blob_of(key@, n, plain@),
            Err(e) => e == CmdError::NoFreshNonce,
        },
{
    match random_nonce() {
        None => Err(CmdError::NoFreshNonce),
        Some(n) => Ok(seal_with_nonce(key, n.as_slice(), plain)),
    }
}

/// Decrypts a blob under `key`: `None` where it is too short or fails authentication.
pub fn decrypt(key: &[u8], blob: &[u8]) -> (r: Option<Vec<u8>>)
    requires
        key@.len() == KEY_LEN,
    ensures
        match r {
            Some(v) => opens_to(key@, blob@, v@),
            None => forall|p: Seq<u8>| !opens_to(key@, blob@, p),
        },
        forall|p: Seq<u8>| opens_to(key@, blob@, p) ==> r is Some && r->0@ == p,
{
    if blob.len() < NONCE_LEN {
        return None;
    }
    let nonce = copy_range(blob, 0, NONCE_LEN);
    let data = copy_range(blob, NONCE_LEN, blob.len());
    assert(nonce@ =~= blob@.take(NONCE_LEN as int));
    assert(data@ =~= blob@.skip(NONCE_LEN as int));
    open_raw(key, nonce.as_slice(), data.as_slice())
}

/// Two encryptions of one plaintext under one key whose nonces differ give different
/// blobs, and both decrypt to the plaintext.
pub proof fn lemma_fresh_nonces_differ(key: Seq<u8>, n1: Seq<u8>, n2: Seq<u8>, plain: Seq<u8>)
    requires
        n1.len() == NONCE_LEN,
        n2.len() == NONCE_LEN,
        n1 != n2,
    ensures
        blob_of(key, n1, plain) != blob_of(key, n2, plain),
        opens_to(key, blob_of(key, n1, plain), plain),
        opens_to(key, blob_of(key, n2, plain), plain),
{
    lemma_blob_opens(key, n1, plain);
    lemma_blob_opens(key, n2, plain);
}

} // verus!
