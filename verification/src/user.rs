//! A participant's identity: a stable identifier, a display name and the
//! public key of the current session.
//!
//! An identity travels as MessagePack, written and read by `rmp-serde`: an
//! array of the identifier, the name and the key's bytes.

use vstd::prelude::*;
use vstd::utf8::encode_utf8;
use crate::fault::Fault;
use crate::id::{IdGenerator, IdKind, kind_of, next_id, timestamp_of, MAX_TICK};
use crate::keys::{PublicKey, KEY_LEN};

verus! {

/// The longest name, in bytes of UTF-8, and the longest key that an identity
/// can be serialized with: MessagePack counts both in 32 bits.
pub const MAX_FIELD_LEN: usize = 0xFFFF_FFFF;

/// The MessagePack form of an identity: what `rmp_serde::to_vec` returns for
/// the identifier, the name and the key.
pub uninterp spec fn identity_msgpack(id: u64, username: Seq<char>, public_key: Seq<u8>) -> Seq<
    u8,
>;

/// The identifier, name and key that MessagePack bytes hold, `None` where
/// they hold no such three: what `rmp_serde::from_slice` returns.
pub uninterp spec fn identity_parsed(raw: Seq<u8>) -> Option<(u64, Seq<char>, Seq<u8>)>;

/// A participant.
#[derive(Debug)]
pub struct User {
    pub id: u64,
    pub username: String,
    pub public_key: Vec<u8>,
}

/// A participant as a mathematical value.
pub struct UserModel {
    pub id: u64,
    pub username: Seq<char>,
    pub public_key: Seq<u8>,
}

impl View for User {
    type V = UserModel;

    open spec fn view(&self) -> UserModel {
        UserModel { id: self.id, username: self.username@, public_key: self.public_key@ }
    }
}

/// Whether an identity can be serialized: its name and its key are short
/// enough for their lengths to be written.
pub open spec fn serializable(user: UserModel) -> bool {
    encode_utf8(user.username).len() <= MAX_FIELD_LEN && user.public_key.len() <= MAX_FIELD_LEN
}

/// The most bytes that the MessagePack form of an identity takes: twenty for
/// the identifier and the three headers, the name's, and two for each byte
/// of the key.
pub open spec fn max_serialized_len(user: UserModel) -> nat {
    20 + encode_utf8(user.username).len() + 2 * user.public_key.len()
}

/// The name of a participant whose identity could not be read.
pub open spec fn unknown_name() -> Seq<char> {
    "Unknown"@
}

/// The participant that three parsed values stand for.
pub open spec fn user_of(parts: (u64, Seq<char>, Seq<u8>)) -> UserModel {
    UserModel { id: parts.0, username: parts.1, public_key: parts.2 }
}

/// What `User::parse` returns for `raw`.
pub open spec fn parsed_user(raw: Seq<u8>) -> Option<UserModel> {
    match identity_parsed(raw) {
        Some(parts) => Some(user_of(parts)),
        None => None,
    }
}

impl PartialEq for User {
    /// Two participants are the same when their identifiers are.
    fn eq(&self, other: &Self) -> (same: bool) {
        self.id == other.id
    }
}

impl vstd::std_specs::cmp::PartialEqSpecImpl for User {
    open spec fn obeys_eq_spec() -> bool {
        true
    }

    open spec fn eq_spec(&self, other: &User) -> bool {
        self.id == other.id
    }
}

impl Clone for User {
    fn clone(&self) -> (copy: Self)
        ensures
            copy@ == self@,
    {
        let public_key = self.public_key.clone();
        assert(public_key@ =~= self.public_key@);
        User::create_all(self.id, self.username.clone(), public_key)
    }
}

impl User {
    /// A participant with a fresh identifier and no public key yet.
    pub fn new(username: String, ids: &mut IdGenerator) -> (user: User)
        ensures
            user.username == username,
            user.public_key@.len() == 0,
            user.id == final(ids)@,
            exists|now: Option<u64>| user.id == next_id(old(ids)@, now, IdKind::User),
            kind_of(user.id) == Some(IdKind::User),
            timestamp_of(old(ids)@) < MAX_TICK ==> user.id > old(ids)@,
    {
        let id = ids.generate(IdKind::User);
        User { id, username, public_key: Vec::new() }
    }

    /// A participant of these parts.
    pub fn create_all(id: u64, username: String, public_key: Vec<u8>) -> (user: User)
        ensures
            user.id == id,
            user.username == username,
            user.public_key == public_key,
    {
        User { id, username, public_key }
    }

    /// Gives the participant another display name.
    pub fn change_username(&mut self, username: String)
        ensures
            final(self).username == username,
            final(self).id == old(self).id,
            final(self).public_key == old(self).public_key,
    {
        self.username = username;
    }

    /// Attaches the public key of the current session.
    pub fn set_public_key(&mut self, public_key: Vec<u8>)
        ensures
            final(self).public_key == public_key,
            final(self).id == old(self).id,
            final(self).username == old(self).username,
    {
        self.public_key = public_key;
    }

    /// The MessagePack form of this identity. There is one exactly when the
    /// name and the key are at most `MAX_FIELD_LEN` bytes long. Users that
    /// agree in identifier, name and key give the same bytes, and `parse`
    /// reads the bytes back as this identity.
    pub fn to_bytes(&self) -> (bytes: Option<Vec<u8>>)
        ensures
            bytes is Some <==> serializable(self@),
            bytes matches Some(b) ==> {
                &&& b@ == identity_msgpack(self.id, self.username@, self.public_key@)
                &&& b@.len() <= max_serialized_len(self@)
                &&& parsed_user(b@) == Some(self@)
            },
    {
        if self.username.as_str().as_bytes().len() > MAX_FIELD_LEN || self.public_key.len()
            > MAX_FIELD_LEN {
            return None;
        }
        msgpack_write(self.id, self.username.as_str(), self.public_key.as_slice())
    }

    /// Reads an identity; `None` where `raw` hold none.
    pub fn parse(raw: &[u8]) -> (user: Option<User>)
        ensures
            match user {
                Some(u) => parsed_user(raw@) == Some(u@),
                None => parsed_user(raw@) is None,
            },
    {
        match msgpack_read(raw) {
            Some((id, username, public_key)) => Some(User { id, username, public_key }),
            None => None,
        }
    }

    /// The participant that was read, or, where none was, a new participant
    /// named "Unknown" with a fresh identifier and no public key.
    pub fn or_unknown(parsed: Option<User>, ids: &mut IdGenerator) -> (user: User)
        ensures
            match parsed {
                Some(u) => user == u && final(ids)@ == old(ids)@,
                None => {
                    &&& user.username@ == unknown_name()
                    &&& user.public_key@.len() == 0
                    &&& user.id == final(ids)@
                    &&& exists|now: Option<u64>|
                        user.id == next_id(old(ids)@, now, IdKind::User)
                    &&& timestamp_of(old(ids)@) < MAX_TICK ==> user.id > old(ids)@
                },
            },
    {
        match parsed {
            Some(user) => user,
            None => User::new("Unknown".to_owned(), ids),
        }
    }

    /// Reads an identity and never fails: bytes that hold none give a new
    /// participant named "Unknown".
    pub fn from_bytes(raw: Vec<u8>, ids: &mut IdGenerator) -> (user: User)
        ensures
            match parsed_user(raw@) {
                Some(u) => user@ == u && final(ids)@ == old(ids)@,
                None => {
                    &&& user.username@ == unknown_name()
                    &&& user.public_key@.len() == 0
                    &&& user.id == final(ids)@
                    &&& exists|now: Option<u64>|
                        user.id == next_id(old(ids)@, now, IdKind::User)
                    &&& timestamp_of(old(ids)@) < MAX_TICK ==> user.id > old(ids)@
                },
            },
    {
        let parsed = User::parse(raw.as_slice());
        User::or_unknown(parsed, ids)
    }

    /// Reads a public key that a peer sent. Fails with `Fault::Protocol`
    /// exactly when it is not 32 bytes long.
    pub fn deserialize_public_key(public_key: Vec<u8>) -> (key: Result<PublicKey, Fault>)
        ensures
            match key {
                Ok(k) => public_key@.len() == KEY_LEN && k@ == public_key@,
                Err(fault) => public_key@.len() != KEY_LEN && fault == Fault::Protocol,
            },
    {
        PublicKey::from_bytes(public_key.as_slice())
    }
}

/// `rmp_serde::to_vec`, on the three values of an identity: their compact
/// MessagePack form. The bytes are named, not described.
///
/// A name or a key whose length does not fit 32 bits is left out: the
/// serializer miscounts it. For all others four things are claimed. There
/// are bytes: for an integer, a string and a list of bytes the serializer
/// has no error of its own, and its writer fails only where memory cannot be
/// had. The bytes are the named ones. They are no more than one byte for the
/// outer array, nine for the identifier, five for each of the two lengths,
/// the name's bytes and two for each byte of the key. And
/// `rmp_serde::from_slice` reads them back as the three values, as the
/// crate's first example shows of a tuple.
#[verifier::external_body]
fn msgpack_write(id: u64, username: &str, public_key: &[u8]) -> (bytes: Option<Vec<u8>>)
    requires
        encode_utf8(username@).len() <= 0xFFFF_FFFF,
        public_key@.len() <= 0xFFFF_FFFF,
    ensures
        bytes is Some,
        bytes matches Some(b) ==> {
            &&& b@ == identity_msgpack(id, username@, public_key@)
            &&& b@.len() <= 20 + encode_utf8(username@).len() + 2 * public_key@.len()
            &&& identity_parsed(b@) == Some((id, username@, public_key@))
        },
{
    rmp_serde::to_vec(&(id, username, public_key)).ok()
}

/// `rmp_serde::from_slice`, for the three values of an identity: what the
/// bytes hold, `None` where the deserializer reports an error. The outcome is
/// named, not described.
#[verifier::external_body]
fn msgpack_read(raw: &[u8]) -> (parts: Option<(u64, String, Vec<u8>)>)
    ensures
        match parts {
            Some((id, username, public_key)) => identity_parsed(raw@) == Some(
                (id, username@, public_key@),
            ),
            None => identity_parsed(raw@) is None,
        },
{
    rmp_serde::from_slice::<(u64, String, Vec<u8>)>(raw).ok()
}

} // verus!
