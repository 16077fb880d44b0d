//! The chat payload, what a `Message` envelope carries, and its layout.
//!
//! | bytes          | content                                        |
//! |----------------|------------------------------------------------|
//! | 0..4           | `s`, the length of the sender's name           |
//! | 4..4+s         | the sender's name, UTF-8                       |
//! | 4+s..8+s       | `c`, the length of the channel's name          |
//! | 8+s..8+s+c     | the channel's name, UTF-8                      |
//! | 8+s+c..        | the body                                       |
//!
//! Both lengths are big-endian and count bytes.

use vstd::prelude::*;
use vstd::utf8::{
    decode_utf8, decode_utf8_encode_utf8, encode_utf8, encode_utf8_decode_utf8,
    encode_utf8_valid_utf8, valid_utf8,
};
use crate::fault::Fault;
use crate::wire::{
    be_u32, copy_range, lemma_u32_bytes_round_trip, lemma_u32_round_trip, push_bytes, push_u32,
    read_u32, u32_be,
};

verus! {

/// The longest name, in bytes of UTF-8, whose length fits its four bytes.
pub const MAX_NAME_LEN: usize = 0xFFFF_FFFF;

/// The inner structure of a `Message` envelope.
#[derive(Debug)]
pub struct ChatPayload {
    pub sender_name: String,
    pub channel_name: String,
    pub body: Vec<u8>,
}

/// A chat payload as a mathematical value.
pub struct ChatPayloadModel {
    pub sender_name: Seq<char>,
    pub channel_name: Seq<char>,
    pub body: Seq<u8>,
}

impl View for ChatPayload {
    type V = ChatPayloadModel;

    open spec fn view(&self) -> ChatPayloadModel {
        ChatPayloadModel {
            sender_name: self.sender_name@,
            channel_name: self.channel_name@,
            body: self.body@,
        }
    }
}

/// Whether a name can be written: its UTF-8 form has at most `MAX_NAME_LEN`
/// bytes.
pub open spec fn name_fits(name: Seq<char>) -> bool {
    encode_utf8(name).len() <= MAX_NAME_LEN
}

/// Whether a chat payload can be encoded: both names can be written.
pub open spec fn payload_fits(p: ChatPayloadModel) -> bool {
    name_fits(p.sender_name) && name_fits(p.channel_name)
}

/// A name on the wire: the length of its UTF-8 form, then that form.
pub open spec fn name_encoding(name: Seq<char>) -> Seq<u8>
    recommends
        name_fits(name),
{
    u32_be(encode_utf8(name).len() as u32) + encode_utf8(name)
}

/// The bytes of a chat payload that fits.
pub open spec fn payload_encoding(p: ChatPayloadModel) -> Seq<u8>
    recommends
        payload_fits(p),
{
    name_encoding(p.sender_name) + name_encoding(p.channel_name) + p.body
}

/// Where the name that starts at `at` ends, if `bytes` hold all of it.
pub open spec fn name_end(bytes: Seq<u8>, at: int) -> Option<int> {
    if 0 <= at && at + 4 <= bytes.len() && at + 4 + be_u32(bytes.subrange(at, at + 4))
        <= bytes.len() {
        Some(at + 4 + be_u32(bytes.subrange(at, at + 4)))
    } else {
        None
    }
}

/// The chat payload that `bytes` stand for; `None` where a name is cut short
/// or is not UTF-8.
pub open spec fn payload_decoding(bytes: Seq<u8>) -> Option<ChatPayloadModel> {
    match name_end(bytes, 0) {
        None => None,
        Some(sender_end) => match name_end(bytes, sender_end) {
            None => None,
            Some(channel_end) => {
                let sender = bytes.subrange(4, sender_end);
                let channel = bytes.subrange(sender_end + 4, channel_end);
                if valid_utf8(sender) && valid_utf8(channel) {
                    Some(
                        ChatPayloadModel {
                            sender_name: decode_utf8(sender),
                            channel_name: decode_utf8(channel),
                            body: bytes.skip(channel_end),
                        },
                    )
                } else {
                    None
                }
            },
        },
    }
}

/// Decoding the bytes of a chat payload gives the chat payload back.
pub proof fn lemma_payload_round_trip(p: ChatPayloadModel)
    requires
        payload_fits(p),
    ensures
        payload_decoding(payload_encoding(p)) == Some(p),
{
    let bytes = payload_encoding(p);
    let s = encode_utf8(p.sender_name);
    let c = encode_utf8(p.channel_name);
    lemma_u32_round_trip(s.len() as u32);
    lemma_u32_round_trip(c.len() as u32);
    encode_utf8_valid_utf8(p.sender_name);
    encode_utf8_valid_utf8(p.channel_name);
    encode_utf8_decode_utf8(p.sender_name);
    encode_utf8_decode_utf8(p.channel_name);
    let sender_end = 4 + s.len() as int;
    let channel_end = sender_end + 4 + c.len() as int;
    assert(bytes.subrange(0, 4) =~= u32_be(s.len() as u32));
    assert(name_end(bytes, 0) == Some(sender_end));
    assert(bytes.subrange(sender_end, sender_end + 4) =~= u32_be(c.len() as u32));
    assert(name_end(bytes, sender_end) == Some(channel_end));
    assert(bytes.subrange(4, sender_end) =~= s);
    assert(bytes.subrange(sender_end + 4, channel_end) =~= c);
    assert(bytes.skip(channel_end) =~= p.body);
}

/// Bytes that decode to a chat payload are that payload's own bytes: every
/// chat payload has one form on the wire.
pub proof fn lemma_payload_canonical(bytes: Seq<u8>)
    requires
        payload_decoding(bytes) is Some,
    ensures
        payload_fits(payload_decoding(bytes)->0),
        payload_encoding(payload_decoding(bytes)->0) == bytes,
{
    let p = payload_decoding(bytes)->0;
    let sender_end = name_end(bytes, 0)->0;
    let channel_end = name_end(bytes, sender_end)->0;
    let s = bytes.subrange(4, sender_end);
    let c = bytes.subrange(sender_end + 4, channel_end);
    decode_utf8_encode_utf8(s);
    decode_utf8_encode_utf8(c);
    lemma_u32_bytes_round_trip(bytes.subrange(0, 4));
    lemma_u32_bytes_round_trip(bytes.subrange(sender_end, sender_end + 4));
    assert(name_encoding(p.sender_name) =~= bytes.subrange(0, sender_end));
    assert(name_encoding(p.channel_name) =~= bytes.subrange(sender_end, channel_end));
    assert(payload_encoding(p) =~= bytes);
}

/// The encoding of a chat payload that fits is its two names and its body,
/// and eight bytes of lengths.
pub proof fn lemma_payload_len(p: ChatPayloadModel)
    requires
        payload_fits(p),
    ensures
        payload_encoding(p).len() == 8 + encode_utf8(p.sender_name).len() + encode_utf8(
            p.channel_name,
        ).len() + p.body.len(),
{
}

/// Appends a name: the length of its UTF-8 form, then that form.
fn push_name(out: &mut Vec<u8>, name: &str)
    requires
        name_fits(name@),
    ensures
        final(out)@ == old(out)@ + name_encoding(name@),
{
    let bytes = name.as_bytes();
    push_u32(out, bytes.len() as u32);
    push_bytes(out, bytes);
    assert(out@ =~= old(out)@ + name_encoding(name@));
}

/// Whether a name can be written.
pub fn name_is_short(name: &str) -> (short: bool)
    ensures
        short == name_fits(name@),
{
    name.as_bytes().len() <= MAX_NAME_LEN
}

/// Reads the name that starts at `at`; gives it with the place where it
/// ends.
fn read_name(bytes: &[u8], at: usize) -> (name: Option<(String, usize)>)
    requires
        at <= bytes@.len(),
    ensures
        match name {
            Some((text, end)) => {
                &&& name_end(bytes@, at as int) == Some(end as int)
                &&& valid_utf8(bytes@.subrange(at + 4, end as int))
                &&& text@ == decode_utf8(bytes@.subrange(at + 4, end as int))
            },
            None => name_end(bytes@, at as int) is None || !valid_utf8(
                bytes@.subrange(at + 4, name_end(bytes@, at as int)->0),
            ),
        },
{
    if bytes.len() - at < 4 {
        return None;
    }
    let len: usize = read_u32(bytes, at) as usize;
    if bytes.len() - at - 4 < len {
        return None;
    }
    let end: usize = at + 4 + len;
    let raw = copy_range(bytes, at + 4, end);
    match string_from_utf8(raw) {
        Some(text) => Some((text, end)),
        None => None,
    }
}

impl ChatPayload {
    /// A chat payload of these parts.
    pub fn new(sender_name: String, channel_name: String, body: Vec<u8>) -> (p: ChatPayload)
        ensures
            p.sender_name == sender_name,
            p.channel_name == channel_name,
            p.body == body,
    {
        ChatPayload { sender_name, channel_name, body }
    }

    /// The bytes of this chat payload. Fails with `Fault::Protocol` exactly
    /// when one of the names is longer than `MAX_NAME_LEN` bytes.
    pub fn to_bytes(&self) -> (bytes: Result<Vec<u8>, Fault>)
        ensures
            match bytes {
                Ok(b) => {
                    &&& payload_fits(self@)
                    &&& b@ == payload_encoding(self@)
                    &&& payload_decoding(b@) == Some(self@)
                },
                Err(fault) => !payload_fits(self@) && fault == Fault::Protocol,
            },
    {
        proof {
            if payload_fits(self@) {
                lemma_payload_round_trip(self@);
            }
        }
        if !name_is_short(self.sender_name.as_str()) || !name_is_short(
            self.channel_name.as_str(),
        ) {
            return Err(Fault::Protocol);
        }
        let mut out: Vec<u8> = Vec::new();
        push_name(&mut out, self.sender_name.as_str());
        push_name(&mut out, self.channel_name.as_str());
        push_bytes(&mut out, self.body.as_slice());
        assert(out@ =~= payload_encoding(self@));
        Ok(out)
    }

    /// Reads a chat payload. Fails with `Fault::Protocol` exactly when
    /// `bytes` are not the layout of one: a name is cut short or is not
    /// UTF-8.
    pub fn from_bytes(bytes: &[u8]) -> (p: Result<ChatPayload, Fault>)
        ensures
            match p {
                Ok(payload) => payload_decoding(bytes@) == Some(payload@),
                Err(fault) => payload_decoding(bytes@) is None && fault == Fault::Protocol,
            },
    {
        match read_name(bytes, 0) {
            None => Err(Fault::Protocol),
            Some((sender_name, sender_end)) => match read_name(bytes, sender_end) {
                None => Err(Fault::Protocol),
                Some((channel_name, channel_end)) => {
                    let body = copy_range(bytes, channel_end, bytes.len());
                    assert(body@ =~= bytes@.skip(channel_end as int));
                    Ok(ChatPayload { sender_name, channel_name, body })
                },
            },
        }
    }
}

/// `String::from_utf8`: the text that bytes are the UTF-8 form of, `None`
/// where they are not valid UTF-8.
#[verifier::external_body]
fn string_from_utf8(bytes: Vec<u8>) -> (text: Option<String>)
    ensures
        text is Some <==> valid_utf8(bytes@),
        text matches Some(s) ==> s@ == decode_utf8(bytes@),
{
    String::from_utf8(bytes).ok()
}

} // verus!
