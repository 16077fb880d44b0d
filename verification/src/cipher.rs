//! The symmetric cipher: payload bytes sealed and opened under the secret
//! that a session derived.
//!
//! The cipher is AES-256-GCM-SIV, done by `aes-gcm-siv`, keyed directly by
//! the 32 bytes of the shared secret. It is used with one fixed nonce, so
//! sealing is a pure function of plaintext and key: the mode is built to
//! stay safe when a nonce repeats, and then shows an observer no more than
//! whether two plaintexts were equal.

use vstd::prelude::*;
use aes_gcm_siv::aead::{Aead, KeyInit};
use aes_gcm_siv::{Aes256GcmSiv, Key, Nonce};
use crate::fault::Fault;
use crate::keys::SharedSecret;

verus! {

/// The bytes that sealing adds to a plaintext: the authentication tag.
pub const TAG_LEN: usize = 16;

/// The length of a nonce.
pub const NONCE_LEN: usize = 12;

/// The longest plaintext that the cipher seals, 2^36 bytes.
pub open spec fn max_plaintext_len() -> int {
    0x10_0000_0000
}

/// The nonce that every message of this protocol is sealed under.
pub open spec fn fixed_nonce() -> Seq<u8> {
    Seq::new(NONCE_LEN as nat, |i: int| 0u8)
}

/// The ciphertext, tag at its end, of a plaintext under a key and a nonce:
/// what `Aes256GcmSiv::encrypt` returns where it succeeds.
pub uninterp spec fn siv_sealed(key: Seq<u8>, nonce: Seq<u8>, plaintext: Seq<u8>) -> Seq<u8>;

/// The plaintext that a ciphertext opens to under a key and a nonce, `None`
/// where it does not authenticate: what `Aes256GcmSiv::decrypt` returns.
pub uninterp spec fn siv_opened(key: Seq<u8>, nonce: Seq<u8>, ciphertext: Seq<u8>) -> Option<
    Seq<u8>,
>;

/// What `encrypt` returns for a plaintext and a key.
pub open spec fn encrypted(plaintext: Seq<u8>, key: Seq<u8>) -> Result<Seq<u8>, Fault> {
    if plaintext.len() <= max_plaintext_len() {
        Ok(siv_sealed(key, fixed_nonce(), plaintext))
    } else {
        Err(Fault::Crypto)
    }
}

/// What `decrypt` returns for a ciphertext and a key.
pub open spec fn decrypted(ciphertext: Seq<u8>, key: Seq<u8>) -> Result<Seq<u8>, Fault> {
    match siv_opened(key, fixed_nonce(), ciphertext) {
        Some(plaintext) => Ok(plaintext),
        None => Err(Fault::Crypto),
    }
}

/// A result of bytes as a mathematical value.
pub open spec fn bytes_result(r: Result<Vec<u8>, Fault>) -> Result<Seq<u8>, Fault> {
    match r {
        Ok(bytes) => Ok(bytes@),
        Err(fault) => Err(fault),
    }
}

/// The nonce of this protocol, as bytes.
fn nonce_bytes() -> (nonce: [u8; 12])
    ensures
        nonce@ == fixed_nonce(),
{
    let nonce: [u8; 12] = [0u8; 12];
    assert(nonce@ =~= fixed_nonce());
    nonce
}

/// Seals `plaintext` under `secret`. Fails with `Fault::Crypto` exactly when
/// the plaintext is longer than 2^36 bytes.
///
/// What comes out is 16 bytes longer than what went in, and `decrypt` under
/// the same secret gives the plaintext back.
pub fn encrypt(plaintext: &[u8], secret: &SharedSecret) -> (ciphertext: Result<Vec<u8>, Fault>)
    ensures
        bytes_result(ciphertext) == encrypted(plaintext@, secret@),
        ciphertext matches Ok(sealed) ==> sealed@.len() == plaintext@.len() + TAG_LEN
            && decrypted(sealed@, secret@) == Ok::<Seq<u8>, Fault>(plaintext@),
{
    let nonce = nonce_bytes();
    match siv_seal(&secret.bytes, &nonce, plaintext) {
        Some(sealed) => Ok(sealed),
        None => Err(Fault::Crypto),
    }
}

/// Opens `ciphertext` under `secret`. Fails with `Fault::Crypto` exactly when
/// the ciphertext does not authenticate under this secret: a ciphertext that
/// was sealed under another key or altered on the way is refused, never
/// turned into some other plaintext.
pub fn decrypt(ciphertext: &[u8], secret: &SharedSecret) -> (plaintext: Result<Vec<u8>, Fault>)
    ensures
        bytes_result(plaintext) == decrypted(ciphertext@, secret@),
        plaintext matches Ok(opened) ==> opened@.len() + TAG_LEN == ciphertext@.len(),
        ciphertext@.len() < TAG_LEN ==> plaintext is Err,
{
    let nonce = nonce_bytes();
    match siv_open(&secret.bytes, &nonce, ciphertext) {
        Some(opened) => Ok(opened),
        None => Err(Fault::Crypto),
    }
}

/// `Aes256GcmSiv::encrypt`, of the `Aead` trait, on a cipher made with
/// `Aes256GcmSiv::new`: authenticated encryption without associated data.
///
/// It refuses a plaintext of more than 2^36 bytes and nothing else. The
/// ciphertext is named; claimed of it are its length, the plaintext's and 16
/// bytes of tag, and that the same key and nonce open it to the plaintext.
#[verifier::external_body]
fn siv_seal(key: &[u8; 32], nonce: &[u8; 12], plaintext: &[u8]) -> (sealed: Option<Vec<u8>>)
    ensures
        sealed is Some <==> plaintext@.len() <= max_plaintext_len(),
        sealed matches Some(bytes) ==> {
            &&& bytes@ == siv_sealed(key@, nonce@, plaintext@)
            &&& bytes@.len() == plaintext@.len() + 16
            &&& siv_opened(key@, nonce@, bytes@) == Some(plaintext@)
        },
{
    let cipher = Aes256GcmSiv::new(Key::<Aes256GcmSiv>::from_slice(key));
    cipher.encrypt(Nonce::from_slice(nonce), plaintext).ok()
}

/// `Aes256GcmSiv::decrypt`, of the `Aead` trait, on a cipher made with
/// `Aes256GcmSiv::new`: authenticated decryption without associated data.
///
/// The outcome is named. Claimed of it: a ciphertext shorter than a tag is
/// refused, and a plaintext that comes out is 16 bytes shorter than the
/// ciphertext.
#[verifier::external_body]
fn siv_open(key: &[u8; 32], nonce: &[u8; 12], ciphertext: &[u8]) -> (opened: Option<Vec<u8>>)
    ensures
        match opened {
            Some(bytes) => siv_opened(key@, nonce@, ciphertext@) == Some(bytes@) && bytes@.len()
                + 16 == ciphertext@.len(),
            None => siv_opened(key@, nonce@, ciphertext@) is None,
        },
        ciphertext@.len() < 16 ==> opened is None,
{
    let cipher = Aes256GcmSiv::new(Key::<Aes256GcmSiv>::from_slice(key));
    cipher.decrypt(Nonce::from_slice(nonce), ciphertext).ok()
}

} // verus!
