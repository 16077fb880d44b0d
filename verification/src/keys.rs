//! Key agreement: one key pair per session, and the secret that two key
//! pairs share.
//!
//! The curve arithmetic is X25519 and is done by `x25519-dalek`. This module
//! holds keys as plain 32-byte values, checks the length of what a peer sent,
//! and states what the agreement gives.

use vstd::prelude::*;
use rand_core::{OsRng, RngCore};
use x25519_dalek::StaticSecret;
use crate::fault::Fault;

verus! {

/// The length in bytes of a private key, of a public key and of a shared
/// secret.
pub const KEY_LEN: usize = 32;

/// The public key that belongs to a private key: what
/// `x25519_dalek::PublicKey::from(&StaticSecret)` gives for these 32 bytes.
pub uninterp spec fn x25519_public(secret: Seq<u8>) -> Seq<u8>;

/// The secret that a private key and a peer's public key agree on: what
/// `x25519_dalek::StaticSecret::diffie_hellman` gives for these two values of
/// 32 bytes each.
pub uninterp spec fn x25519_shared(secret: Seq<u8>, peer_public: Seq<u8>) -> Seq<u8>;

/// What `derive_shared` returns for a private key and the bytes that a peer
/// sent as its public key: the agreed secret, or a protocol fault where the
/// bytes are not 32.
pub open spec fn agreed(own_private: Seq<u8>, peer_public: Seq<u8>) -> Result<Seq<u8>, Fault> {
    if peer_public.len() == KEY_LEN {
        Ok(x25519_shared(own_private, peer_public))
    } else {
        Err(Fault::Protocol)
    }
}

/// A result of a secret as a mathematical value.
pub open spec fn secret_result(r: Result<SharedSecret, Fault>) -> Result<Seq<u8>, Fault> {
    match r {
        Ok(secret) => Ok(secret@),
        Err(fault) => Err(fault),
    }
}

/// A session's private scalar.
pub struct PrivateKey {
    pub bytes: [u8; 32],
}

/// A session's public point, as sent to the peer.
#[derive(Debug)]
pub struct PublicKey {
    pub bytes: [u8; 32],
}

/// The symmetric key that both ends of a session derive.
pub struct SharedSecret {
    pub bytes: [u8; 32],
}

impl View for PrivateKey {
    type V = Seq<u8>;

    open spec fn view(&self) -> Seq<u8> {
        self.bytes@
    }
}

impl View for PublicKey {
    type V = Seq<u8>;

    open spec fn view(&self) -> Seq<u8> {
        self.bytes@
    }
}

impl View for SharedSecret {
    type V = Seq<u8>;

    open spec fn view(&self) -> Seq<u8> {
        self.bytes@
    }
}

impl Clone for PrivateKey {
    fn clone(&self) -> (copy: Self)
        ensures
            copy == *self,
    {
        PrivateKey { bytes: self.bytes }
    }
}

impl Clone for PublicKey {
    fn clone(&self) -> (copy: Self)
        ensures
            copy == *self,
    {
        PublicKey { bytes: self.bytes }
    }
}

impl Clone for SharedSecret {
    fn clone(&self) -> (copy: Self)
        ensures
            copy == *self,
    {
        SharedSecret { bytes: self.bytes }
    }
}

/// The 32 bytes of `bytes` as an array.
fn key_array(bytes: &[u8]) -> (out: [u8; 32])
    requires
        bytes@.len() == KEY_LEN,
    ensures
        out@ == bytes@,
{
    let mut out: [u8; 32] = [0u8; 32];
    let mut i: usize = 0;
    while i < KEY_LEN
        invariant
            i <= KEY_LEN,
            bytes@.len() == KEY_LEN,
            forall|k: int| 0 <= k < i ==> out@[k] == bytes@[k],
        decreases KEY_LEN - i,
    {
        out[i] = bytes[i];
        i += 1;
    }
    assert(out@ =~= bytes@);
    out
}

/// The bytes of an array as a vector.
fn key_vec(bytes: &[u8; 32]) -> (out: Vec<u8>)
    ensures
        out@ == bytes@,
{
    let mut out: Vec<u8> = Vec::new();
    let mut i: usize = 0;
    while i < KEY_LEN
        invariant
            i <= KEY_LEN,
            out@ == bytes@.subrange(0, i as int),
        decreases KEY_LEN - i,
    {
        out.push(bytes[i]);
        i += 1;
        assert(out@ =~= bytes@.subrange(0, i as int));
    }
    assert(bytes@.subrange(0, 32) =~= bytes@);
    out
}

impl PrivateKey {
    /// Reads a private key. Fails with `Fault::Protocol` exactly when
    /// `bytes` are not 32 bytes.
    pub fn from_bytes(bytes: &[u8]) -> (key: Result<PrivateKey, Fault>)
        ensures
            match key {
                Ok(k) => bytes@.len() == KEY_LEN && k@ == bytes@,
                Err(fault) => bytes@.len() != KEY_LEN && fault == Fault::Protocol,
            },
    {
        if bytes.len() != KEY_LEN {
            return Err(Fault::Protocol);
        }
        Ok(PrivateKey { bytes: key_array(bytes) })
    }

    /// The 32 bytes of this key.
    pub fn to_bytes(&self) -> (bytes: Vec<u8>)
        ensures
            bytes@ == self@,
    {
        key_vec(&self.bytes)
    }
}

impl PublicKey {
    /// Reads a public key that a peer sent. Fails with `Fault::Protocol`
    /// exactly when `bytes` are not 32 bytes: a key is never padded or cut to
    /// size.
    pub fn from_bytes(bytes: &[u8]) -> (key: Result<PublicKey, Fault>)
        ensures
            match key {
                Ok(k) => bytes@.len() == KEY_LEN && k@ == bytes@,
                Err(fault) => bytes@.len() != KEY_LEN && fault == Fault::Protocol,
            },
    {
        if bytes.len() != KEY_LEN {
            return Err(Fault::Protocol);
        }
        Ok(PublicKey { bytes: key_array(bytes) })
    }

    /// The 32 bytes of this key, as they go on the wire.
    pub fn to_bytes(&self) -> (bytes: Vec<u8>)
        ensures
            bytes@ == self@,
    {
        key_vec(&self.bytes)
    }
}

impl SharedSecret {
    /// The 32 bytes of this secret.
    pub fn to_bytes(&self) -> (bytes: Vec<u8>)
        ensures
            bytes@ == self@,
    {
        key_vec(&self.bytes)
    }
}

/// A fresh private key from the operating system's random numbers. Fails
/// with `Fault::Crypto` when the system gives none.
///
/// Which bytes come, and whether any come, is the system's to decide; what
/// is made of them is said by `private_key_of`.
pub fn create_private() -> (key: Result<PrivateKey, Fault>)
    ensures
        key matches Ok(k) ==> k@.len() == KEY_LEN,
        key matches Err(fault) ==> fault == Fault::Crypto,
{
    private_key_of(os_random_key())
}

/// What was drawn as a private key: the key of exactly the 32 bytes that
/// were drawn, or `Fault::Crypto` where nothing was.
pub fn private_key_of(drawn: Option<[u8; 32]>) -> (key: Result<PrivateKey, Fault>)
    ensures
        match drawn {
            Some(bytes) => key is Ok && key->Ok_0@ == bytes@,
            None => key is Err && key->Err_0 == Fault::Crypto,
        },
{
    match drawn {
        Some(bytes) => Ok(PrivateKey { bytes }),
        None => Err(Fault::Crypto),
    }
}

/// The public key that belongs to `private`.
pub fn derive_public(private: &PrivateKey) -> (public: PublicKey)
    ensures
        public@ == x25519_public(private@),
{
    PublicKey { bytes: public_of_secret(&private.bytes) }
}

/// The secret that this side's private key and the peer's public key agree
/// on. Fails with `Fault::Protocol` exactly when `peer_public` is not 32
/// bytes long.
///
/// Both sides arrive at the same secret: where the peer's public key belongs
/// to some private key, the result is what the peer derives from that
/// private key and this side's public key.
pub fn derive_shared(own_private: &PrivateKey, peer_public: &[u8]) -> (secret: Result<
    SharedSecret,
    Fault,
>)
    ensures
        secret_result(secret) == agreed(own_private@, peer_public@),
        match secret {
            Ok(s) => {
                &&& peer_public@.len() == KEY_LEN
                &&& s@ == x25519_shared(own_private@, peer_public@)
                &&& forall|peer_private: Seq<u8>|
                    peer_private.len() == KEY_LEN && peer_public@ == #[trigger] x25519_public(
                        peer_private,
                    ) ==> s@ == x25519_shared(peer_private, x25519_public(own_private@))
            },
            Err(fault) => peer_public@.len() != KEY_LEN && fault == Fault::Protocol,
        },
{
    if peer_public.len() != KEY_LEN {
        return Err(Fault::Protocol);
    }
    let peer = key_array(peer_public);
    Ok(SharedSecret { bytes: agree(&own_private.bytes, &peer) })
}

/// `rand_core::OsRng::try_fill_bytes` on 32 bytes: random bytes from the
/// operating system, `None` where it has none to give. Nothing is claimed of
/// the bytes.
#[verifier::external_body]
fn os_random_key() -> Option<[u8; 32]> {
    let mut bytes = [0u8; 32];
    match OsRng.try_fill_bytes(&mut bytes) {
        Ok(()) => Some(bytes),
        Err(_) => None,
    }
}

/// `x25519_dalek::PublicKey::from(&StaticSecret)`, on a secret loaded with
/// `StaticSecret::from`: the public key of a private key. The result is
/// named, not described.
#[verifier::external_body]
fn public_of_secret(secret: &[u8; 32]) -> (public: [u8; 32])
    ensures
        public@ == x25519_public(secret@),
{
    x25519_dalek::PublicKey::from(&StaticSecret::from(*secret)).to_bytes()
}

/// `x25519_dalek::StaticSecret::diffie_hellman`: the Diffie-Hellman
/// agreement of a private key with a peer's public key. The result is named;
/// the one thing claimed of it is what the agreement is for, and what the
/// crate's documentation shows: the two parties, each with its own private
/// key and the other's public key, get the same bytes.
#[verifier::external_body]
fn agree(secret: &[u8; 32], peer_public: &[u8; 32]) -> (shared: [u8; 32])
    ensures
        shared@ == x25519_shared(secret@, peer_public@),
        forall|peer_private: Seq<u8>|
            peer_private.len() == 32 && peer_public@ == #[trigger] x25519_public(peer_private)
                ==> shared@ == x25519_shared(peer_private, x25519_public(secret@)),
{
    let peer = x25519_dalek::PublicKey::from(*peer_public);
    StaticSecret::from(*secret).diffie_hellman(&peer).to_bytes()
}

} // verus!
