use yuttari::envelope::{Envelope, EnvelopeType, HEADER_LEN, MAX_PAYLOAD_LEN};
use yuttari::fault::Fault;
use yuttari::payload::{ChatPayload, MAX_NAME_LEN};
use yuttari::wire::{copy_range, push_bytes, push_u32, push_u64, read_u32, read_u64};

fn envelope(kind: EnvelopeType, id: u64, payload: &[u8]) -> Envelope {
    Envelope { kind, id, payload: payload.to_vec() }
}

#[test]
fn integers_are_big_endian() {
    let mut out = vec![0xAA];
    push_u32(&mut out, 0x0304_0506);
    push_u64(&mut out, 0x0708_090A_0B0C_0D0E);
    assert_eq!(out, vec![0xAA, 3, 4, 5, 6, 7, 8, 9, 10, 11, 12, 13, 14]);
    assert_eq!(read_u32(&out, 1), 0x0304_0506);
    assert_eq!(read_u64(&out, 5), 0x0708_090A_0B0C_0D0E);
}

#[test]
fn integer_extremes_round_trip() {
    for v in [0u64, 1, 255, 256, u64::MAX, 0x8000_0000_0000_0000] {
        let mut out = Vec::new();
        push_u64(&mut out, v);
        assert_eq!(out.len(), 8);
        assert_eq!(read_u64(&out, 0), v);
        assert_eq!(out, v.to_be_bytes().to_vec());
    }
    for v in [0u32, 1, 0xFFFF_FFFF, 0x0100_0000] {
        let mut out = Vec::new();
        push_u32(&mut out, v);
        assert_eq!(out, v.to_be_bytes().to_vec());
        assert_eq!(read_u32(&out, 0), v);
    }
}

#[test]
fn byte_ranges_are_copied() {
    let src = [1u8, 2, 3, 4, 5];
    assert_eq!(copy_range(&src, 1, 4), vec![2, 3, 4]);
    assert_eq!(copy_range(&src, 2, 2), Vec::<u8>::new());
    assert_eq!(copy_range(&src, 0, 5), src.to_vec());
    let mut out = vec![9u8];
    push_bytes(&mut out, &src);
    assert_eq!(out, vec![9, 1, 2, 3, 4, 5]);
}

#[test]
fn envelope_layout_is_exact() {
    let frame = envelope(EnvelopeType::Message, 0x0102_0304_0506_0708, b"hi").encode().unwrap();
    assert_eq!(
        frame,
        vec![0, 0, 0, 11, 4, 1, 2, 3, 4, 5, 6, 7, 8, b'h', b'i']
    );
    assert_eq!(frame.len(), HEADER_LEN + 2);
}

#[test]
fn envelope_type_codes() {
    let kinds = [
        (EnvelopeType::Unknown, 0u8),
        (EnvelopeType::Connect, 1),
        (EnvelopeType::ConnectionAccept, 2),
        (EnvelopeType::Login, 3),
        (EnvelopeType::Message, 4),
    ];
    for (kind, code) in kinds {
        assert_eq!(kind.code(), code);
        assert_eq!(EnvelopeType::from_code(code), Some(kind));
    }
    assert_eq!(EnvelopeType::from_code(5), None);
    assert_eq!(EnvelopeType::from_code(255), None);
}

#[test]
fn envelope_round_trips() {
    let kinds = [
        EnvelopeType::Unknown,
        EnvelopeType::Connect,
        EnvelopeType::ConnectionAccept,
        EnvelopeType::Login,
        EnvelopeType::Message,
    ];
    let payloads: [&[u8]; 4] = [b"", b"x", b"hello world", &[0u8; 1000]];
    for kind in kinds {
        for payload in payloads {
            for id in [0u64, 1, 256_002, u64::MAX] {
                let frame = envelope(kind, id, payload).encode().unwrap();
                let back = Envelope::decode(&frame);
                assert_eq!(back.kind, kind);
                assert_eq!(back.id, id);
                assert_eq!(back.payload, payload.to_vec());
            }
        }
    }
}

#[test]
fn truncated_frames_decode_to_unknown() {
    let frame = envelope(EnvelopeType::Login, 77, b"some payload").encode().unwrap();
    for n in 0..frame.len() {
        let e = Envelope::decode(&frame[..n]);
        assert_eq!(e.kind, EnvelopeType::Unknown);
        assert_eq!(e.id, 0);
        assert!(e.payload.is_empty());
    }
}

#[test]
fn garbage_decodes_to_unknown() {
    let inputs: [&[u8]; 6] = [
        b"",
        b"\x00",
        b"not an envelope at all",
        &[0xFF; 64],
        // a length that does not match
        &[0, 0, 0, 10, 4, 0, 0, 0, 0, 0, 0, 0, 1, 9, 9],
        // a type code that is not known
        &[0, 0, 0, 9, 9, 0, 0, 0, 0, 0, 0, 0, 1],
    ];
    for input in inputs {
        let e = Envelope::decode(input);
        assert_eq!(e.kind, EnvelopeType::Unknown);
        assert_eq!(e.id, 0);
        assert!(e.payload.is_empty());
    }
}

#[test]
fn frame_with_trailing_bytes_is_no_frame() {
    let mut frame = envelope(EnvelopeType::Message, 5, b"abc").encode().unwrap();
    frame.push(0);
    let e = Envelope::decode(&frame);
    assert_eq!(e.kind, EnvelopeType::Unknown);
    assert!(e.payload.is_empty());
}

#[test]
fn empty_unknown_envelope_round_trips() {
    let frame = Envelope::unknown().encode().unwrap();
    assert_eq!(frame, vec![0, 0, 0, 9, 0, 0, 0, 0, 0, 0, 0, 0, 0]);
    let e = Envelope::decode(&frame);
    assert_eq!(e.kind, EnvelopeType::Unknown);
    assert_eq!(e.id, 0);
    assert!(e.payload.is_empty());
}

#[test]
fn payload_limit_is_the_frame_length_field() {
    assert_eq!(MAX_PAYLOAD_LEN as u64 + 9, u32::MAX as u64);
}

#[test]
fn chat_payload_layout_is_exact() {
    let p = ChatPayload::new("al".to_string(), "#g".to_string(), vec![1, 2, 3]);
    assert_eq!(
        p.to_bytes().unwrap(),
        vec![0, 0, 0, 2, b'a', b'l', 0, 0, 0, 2, b'#', b'g', 1, 2, 3]
    );
}

#[test]
fn chat_payload_round_trips() {
    let cases = [
        ("alice", "#general", b"hello".to_vec()),
        ("", "", Vec::new()),
        ("J\u{fc}rgen \u{1F600}", "#caf\u{e9}", vec![0, 255, 128]),
    ];
    for (sender, channel, body) in cases {
        let p = ChatPayload::new(sender.to_string(), channel.to_string(), body.clone());
        let bytes = p.to_bytes().unwrap();
        let back = ChatPayload::from_bytes(&bytes).unwrap();
        assert_eq!(back.sender_name, sender);
        assert_eq!(back.channel_name, channel);
        assert_eq!(back.body, body);
    }
}

#[test]
fn chat_payload_rejects_malformed_bytes() {
    let inputs: [&[u8]; 7] = [
        b"",
        &[0, 0, 0],
        // the sender's name is cut short
        &[0, 0, 0, 5, b'a', b'b'],
        // no length for the channel
        &[0, 0, 0, 1, b'a', 0, 0, 0],
        // the channel's name is cut short
        &[0, 0, 0, 1, b'a', 0, 0, 0, 3, b'x'],
        // the sender's name is not UTF-8
        &[0, 0, 0, 2, 0xC3, 0x28, 0, 0, 0, 0],
        // a length that no input could hold
        &[0xFF, 0xFF, 0xFF, 0xFF, b'a'],
    ];
    for input in inputs {
        assert_eq!(ChatPayload::from_bytes(input).err(), Some(Fault::Protocol));
    }
}

#[test]
fn chat_payload_carries_long_names() {
    assert_eq!(MAX_NAME_LEN as u64, u32::MAX as u64);
    let long = "x".repeat(70_000);
    let p = ChatPayload::new(long.clone(), long.clone(), vec![7]);
    let bytes = p.to_bytes().unwrap();
    assert_eq!(bytes.len(), 4 + 70_000 + 4 + 70_000 + 1);
    assert_eq!(&bytes[..4], &[0, 1, 0x11, 0x70]);
    let back = ChatPayload::from_bytes(&bytes).unwrap();
    assert_eq!(back.sender_name, long);
    assert_eq!(back.channel_name, long);
    assert_eq!(back.body, vec![7]);
}
