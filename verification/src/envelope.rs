//! The envelope, the unit that travels on the wire, and its binary layout.
//!
//! An encoded envelope is a frame of `4 + 9 + n` bytes:
//!
//! | bytes   | content                                            |
//! |---------|----------------------------------------------------|
//! | 0..4    | `9 + n`, the length of what follows, big-endian    |
//! | 4       | the type's code                                    |
//! | 5..13   | the identifier, big-endian                         |
//! | 13..    | the `n` bytes of the payload                       |
//!
//! Whatever is not such a frame decodes to the empty `Unknown` envelope.

use vstd::prelude::*;
use crate::fault::Fault;
use crate::id::{IdGenerator, IdKind, kind_of, next_id, timestamp_of, MAX_TICK};
use crate::wire::{
    be_u32, be_u64, copy_range, lemma_u32_bytes_round_trip, lemma_u32_round_trip,
    lemma_u64_bytes_round_trip, lemma_u64_round_trip, push_bytes, push_u32, push_u64, read_u32,
    read_u64, u32_be, u64_be,
};

verus! {

/// The bytes of a frame before its payload.
pub const HEADER_LEN: usize = 13;

/// The longest payload whose frame length still fits its four bytes.
pub const MAX_PAYLOAD_LEN: usize = 0xFFFF_FFF6;

/// What an envelope's payload is to be read as.
#[derive(Clone, Copy, Debug, PartialEq, Eq, Structural)]
pub enum EnvelopeType {
    /// Nothing that this protocol knows; to be ignored.
    Unknown,
    /// A request to be connected; the payload is an address.
    Connect,
    /// The accepting side's greeting; the payload is its public key.
    ConnectionAccept,
    /// The connecting side's answer; the payload is its serialized identity.
    Login,
    /// A chat message; the payload is an encoded chat payload.
    Message,
}

/// The outer unit on the wire: a type, an identifier and an opaque payload.
#[derive(Debug)]
pub struct Envelope {
    pub kind: EnvelopeType,
    pub id: u64,
    pub payload: Vec<u8>,
}

/// An envelope as a mathematical value.
pub struct EnvelopeModel {
    pub kind: EnvelopeType,
    pub id: u64,
    pub payload: Seq<u8>,
}

impl View for Envelope {
    type V = EnvelopeModel;

    open spec fn view(&self) -> EnvelopeModel {
        EnvelopeModel { kind: self.kind, id: self.id, payload: self.payload@ }
    }
}

/// The byte that stands for a type on the wire.
pub open spec fn type_code(kind: EnvelopeType) -> u8 {
    match kind {
        EnvelopeType::Unknown => 0,
        EnvelopeType::Connect => 1,
        EnvelopeType::ConnectionAccept => 2,
        EnvelopeType::Login => 3,
        EnvelopeType::Message => 4,
    }
}

/// The type that a byte on the wire stands for, if any.
pub open spec fn type_of_code(code: u8) -> Option<EnvelopeType> {
    if code == 0 {
        Some(EnvelopeType::Unknown)
    } else if code == 1 {
        Some(EnvelopeType::Connect)
    } else if code == 2 {
        Some(EnvelopeType::ConnectionAccept)
    } else if code == 3 {
        Some(EnvelopeType::Login)
    } else if code == 4 {
        Some(EnvelopeType::Message)
    } else {
        None
    }
}

/// The envelope that stands for everything that cannot be read: type
/// `Unknown`, identifier 0, no payload.
pub open spec fn unknown() -> EnvelopeModel {
    EnvelopeModel { kind: EnvelopeType::Unknown, id: 0, payload: Seq::empty() }
}

/// Whether an envelope can be encoded: its payload is not too long.
pub open spec fn fits(e: EnvelopeModel) -> bool {
    e.payload.len() <= MAX_PAYLOAD_LEN
}

/// The frame of an envelope that fits.
pub open spec fn encoding(e: EnvelopeModel) -> Seq<u8>
    recommends
        fits(e),
{
    u32_be((9 + e.payload.len()) as u32) + seq![type_code(e.kind)] + u64_be(e.id) + e.payload
}

/// Whether `bytes` are a frame: long enough for a header, exactly as long as
/// their first four bytes say, and with a type code that is known.
pub open spec fn well_framed(bytes: Seq<u8>) -> bool {
    &&& bytes.len() >= HEADER_LEN
    &&& be_u32(bytes.subrange(0, 4)) + 4 == bytes.len()
    &&& type_of_code(bytes[4]) is Some
}

/// The envelope that `bytes` stand for: the one whose frame they are, or the
/// empty `Unknown` envelope where they are no frame.
pub open spec fn decoding(bytes: Seq<u8>) -> EnvelopeModel {
    if well_framed(bytes) {
        EnvelopeModel {
            kind: type_of_code(bytes[4])->0,
            id: be_u64(bytes.subrange(5, 13)),
            payload: bytes.skip(13),
        }
    } else {
        unknown()
    }
}

/// Decoding the frame of an envelope gives the envelope back.
pub proof fn lemma_decode_encode(e: EnvelopeModel)
    requires
        fits(e),
    ensures
        encoding(e).len() == HEADER_LEN + e.payload.len(),
        well_framed(encoding(e)),
        decoding(encoding(e)) == e,
{
    let bytes = encoding(e);
    let body_len = (9 + e.payload.len()) as u32;
    lemma_u32_round_trip(body_len);
    lemma_u64_round_trip(e.id);
    assert(bytes.subrange(0, 4) =~= u32_be(body_len));
    assert(bytes.subrange(5, 13) =~= u64_be(e.id));
    assert(bytes.skip(13) =~= e.payload);
    assert(bytes[4] == type_code(e.kind));
}

/// A frame that was cut short anywhere decodes to the empty `Unknown`
/// envelope.
pub proof fn lemma_decode_truncated(e: EnvelopeModel, n: int)
    requires
        fits(e),
        0 <= n < encoding(e).len(),
    ensures
        decoding(encoding(e).take(n)) == unknown(),
{
    let bytes = encoding(e);
    let cut = bytes.take(n);
    lemma_decode_encode(e);
    if n >= HEADER_LEN {
        assert(cut.subrange(0, 4) =~= bytes.subrange(0, 4));
    }
}

/// Bytes decode either to the empty `Unknown` envelope or to an envelope
/// whose frame they are: nothing but an envelope's own frame is ever read
/// as that envelope.
pub proof fn lemma_decode_garbage(bytes: Seq<u8>)
    ensures
        decoding(bytes) == unknown() || (fits(decoding(bytes)) && encoding(decoding(bytes))
            == bytes),
{
    if well_framed(bytes) {
        let e = decoding(bytes);
        let prefix = bytes.subrange(0, 4);
        lemma_u32_bytes_round_trip(prefix);
        lemma_u64_bytes_round_trip(bytes.subrange(5, 13));
        assert(be_u32(prefix) == 9 + e.payload.len());
        assert(encoding(e) =~= bytes);
    }
}

impl EnvelopeType {
    /// The byte that stands for this type on the wire.
    pub fn code(&self) -> (code: u8)
        ensures
            code == type_code(*self),
    {
        match self {
            EnvelopeType::Unknown => 0,
            EnvelopeType::Connect => 1,
            EnvelopeType::ConnectionAccept => 2,
            EnvelopeType::Login => 3,
            EnvelopeType::Message => 4,
        }
    }

    /// The type that a byte on the wire stands for, if any.
    pub fn from_code(code: u8) -> (kind: Option<EnvelopeType>)
        ensures
            kind == type_of_code(code),
    {
        if code == 0 {
            Some(EnvelopeType::Unknown)
        } else if code == 1 {
            Some(EnvelopeType::Connect)
        } else if code == 2 {
            Some(EnvelopeType::ConnectionAccept)
        } else if code == 3 {
            Some(EnvelopeType::Login)
        } else if code == 4 {
            Some(EnvelopeType::Message)
        } else {
            None
        }
    }
}

impl Envelope {
    /// An envelope with a fresh identifier, made of the current time.
    pub fn new(kind: EnvelopeType, payload: Vec<u8>, ids: &mut IdGenerator) -> (e: Envelope)
        ensures
            e.kind == kind,
            e.payload == payload,
            e.id == final(ids)@,
            exists|now: Option<u64>| e.id == next_id(old(ids)@, now, IdKind::Message),
            kind_of(e.id) == Some(IdKind::Message),
            timestamp_of(old(ids)@) < MAX_TICK ==> e.id > old(ids)@,
    {
        let id = ids.generate(IdKind::Message);
        Envelope { kind, id, payload }
    }

    /// The empty `Unknown` envelope.
    pub fn unknown() -> (e: Envelope)
        ensures
            e@ == unknown(),
    {
        Envelope { kind: EnvelopeType::Unknown, id: 0, payload: Vec::new() }
    }

    /// The frame of this envelope. Fails with `Fault::Protocol` exactly when
    /// the payload is longer than `MAX_PAYLOAD_LEN`.
    pub fn encode(&self) -> (frame: Result<Vec<u8>, Fault>)
        ensures
            match frame {
                Ok(bytes) => {
                    &&& fits(self@)
                    &&& bytes@ == encoding(self@)
                    &&& bytes@.len() == HEADER_LEN + self.payload@.len()
                    &&& decoding(bytes@) == self@
                },
                Err(fault) => !fits(self@) && fault == Fault::Protocol,
            },
    {
        if self.payload.len() > MAX_PAYLOAD_LEN {
            return Err(Fault::Protocol);
        }
        proof {
            lemma_decode_encode(self@);
        }
        let body_len: u32 = (self.payload.len() + 9) as u32;
        let mut bytes: Vec<u8> = Vec::new();
        push_u32(&mut bytes, body_len);
        bytes.push(self.kind.code());
        push_u64(&mut bytes, self.id);
        push_bytes(&mut bytes, self.payload.as_slice());
        assert(bytes@ =~= encoding(self@));
        Ok(bytes)
    }

    /// Reads a frame. Never fails: what is not a frame is read as the empty
    /// `Unknown` envelope.
    pub fn decode(bytes: &[u8]) -> (e: Envelope)
        ensures
            e@ == decoding(bytes@),
            !well_framed(bytes@) ==> e@ == unknown(),
    {
        if bytes.len() < HEADER_LEN {
            return Envelope::unknown();
        }
        let body_len: u32 = read_u32(bytes, 0);
        if body_len as u64 + 4 != bytes.len() as u64 {
            return Envelope::unknown();
        }
        match EnvelopeType::from_code(bytes[4]) {
            None => Envelope::unknown(),
            Some(kind) => {
                let id = read_u64(bytes, 5);
                let payload = copy_range(bytes, HEADER_LEN, bytes.len());
                assert(payload@ =~= bytes@.skip(13));
                Envelope { kind, id, payload }
            },
        }
    }
}

} // verus!
