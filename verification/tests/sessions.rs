use yuttari::cipher::decrypt;
use yuttari::envelope::{Envelope, EnvelopeType, MAX_PAYLOAD_LEN};
use yuttari::fault::Fault;
use yuttari::id::{extract_timestamp, IdGenerator, IdKind};
use yuttari::keys::{create_private, derive_public, derive_shared, PrivateKey, SharedSecret};
use yuttari::payload::ChatPayload;
use yuttari::protocol::{Phase, DEFAULT_CHUNK_SIZE, MAX_CHUNK_SIZE};
use yuttari::session::{deliver, frame_message, text_fits, Action, Event, Session};
use yuttari::user::User;

fn session(name: &str) -> Session {
    let mut ids = IdGenerator::new();
    let user = User::new(name.to_string(), &mut ids);
    Session::new(user, create_private().unwrap(), ids).unwrap()
}

fn frames(actions: &[Action]) -> Vec<Vec<u8>> {
    actions
        .iter()
        .map(|a| match a {
            Action::Send(frame) => frame.clone(),
            other => panic!("expected a frame, got {:?}", other),
        })
        .collect()
}

fn faults(actions: &[Action]) -> Vec<Fault> {
    actions
        .iter()
        .map(|a| match a {
            Action::Report(fault) => *fault,
            other => panic!("expected a fault, got {:?}", other),
        })
        .collect()
}

/// Two sessions that have shaken hands: the connecting one and the accepting one.
fn pair() -> (Session, Session) {
    let mut client = session("alice");
    let mut server = session("bob");
    let opened = client.connect("relay:4000".to_string());
    assert!(matches!(&opened[..], [Action::Open(address)] if address == "relay:4000"));
    let greeting = frames(&server.step(Event::Accept));
    assert_eq!(greeting.len(), 1);
    let login = frames(&client.step(Event::Inbound(greeting[0].clone())));
    assert_eq!(login.len(), 1);
    let none = server.step(Event::Inbound(login[0].clone()));
    assert!(none.is_empty());
    (client, server)
}

#[test]
fn new_session_is_disconnected() {
    let s = session("alice");
    assert_eq!(s.phase(), Phase::Disconnected);
    assert_eq!(s.chunk_size(), DEFAULT_CHUNK_SIZE);
    assert_eq!(s.chunk_size(), 256);
    assert!(s.shared_key().is_none());
    assert_eq!(s.identity().username, "alice");
    assert_eq!(s.identity().public_key.len(), 32);
    assert_eq!(s.last_id(), s.identity().id);
}

#[test]
fn session_identity_carries_the_session_key() {
    let mut ids = IdGenerator::new();
    let user = User::new("alice".to_string(), &mut ids);
    let key = create_private().unwrap();
    let public = derive_public(&key).to_bytes();
    let s = Session::new(user, key, ids).unwrap();
    assert_eq!(s.identity().public_key, public);
}

#[test]
fn handshake_authenticates_both_sides() {
    let (client, server) = pair();
    assert_eq!(client.phase(), Phase::Authenticated);
    assert_eq!(server.phase(), Phase::Authenticated);
    let a = client.shared_key().unwrap();
    let b = server.shared_key().unwrap();
    assert_eq!(a.len(), 32);
    assert_eq!(a, b);
}

#[test]
fn hello_travels_between_two_sessions() {
    let (mut client, mut server) = pair();
    let sent = frames(&client.step(Event::Outbound {
        text: b"hello".to_vec(),
        channel: "#general".to_string(),
    }));
    assert_eq!(sent.len(), 1);
    let got = server.step(Event::Inbound(sent[0].clone()));
    assert_eq!(got.len(), 1);
    match &got[0] {
        Action::Deliver(event) => {
            assert_eq!(event.text, b"hello".to_vec());
            assert_eq!(event.text.len(), 5);
            assert_eq!(event.sender, "alice");
            assert_eq!(event.channel, "#general");
            assert_eq!(event.timestamp, extract_timestamp(Envelope::decode(&sent[0]).id));
        }
        other => panic!("expected a message, got {:?}", other),
    }
    // and the other way round
    let sent = frames(&server.step(Event::Outbound {
        text: b"hi alice".to_vec(),
        channel: "#general".to_string(),
    }));
    let got = client.step(Event::Inbound(sent[0].clone()));
    assert!(matches!(&got[..], [Action::Deliver(e)] if e.text == b"hi alice" && e.sender == "bob"));
}

#[test]
fn six_hundred_bytes_go_out_as_three_envelopes() {
    let (mut client, mut server) = pair();
    let text: Vec<u8> = (0..600u32).map(|i| b'a' + (i % 26) as u8).collect();
    let before = client.last_id();
    let sent = frames(&client.send_at(&text, "#general", Some(1_700_000_000_000)));
    assert_eq!(sent.len(), 3);
    let secret = SharedSecret { bytes: server.shared_key().unwrap().try_into().unwrap() };
    let sizes = [256usize, 256, 88];
    let mut last = before;
    let mut offset = 0;
    for (frame, size) in sent.iter().zip(sizes) {
        let envelope = Envelope::decode(frame);
        assert_eq!(envelope.kind, EnvelopeType::Message);
        assert!(envelope.id > last);
        last = envelope.id;
        let payload = ChatPayload::from_bytes(&envelope.payload).unwrap();
        assert_eq!(payload.sender_name, "alice");
        assert_eq!(payload.channel_name, "#general");
        assert_eq!(payload.body.len(), size + 16);
        let opened = decrypt(&payload.body, &secret).unwrap();
        assert_eq!(opened.len(), size);
        assert_eq!(opened, text[offset..offset + size].to_vec());
        offset += size;
    }
    assert_eq!(client.last_id(), last);
    // the receiver shows each chunk as a message of its own, in order; order of receipt does not matter
    for index in [2usize, 0, 1] {
        let got = server.step(Event::Inbound(sent[index].clone()));
        let start = index * 256;
        let end = (start + 256).min(600);
        assert!(matches!(&got[..], [Action::Deliver(e)] if e.text == text[start..end].to_vec()));
    }
}

#[test]
fn outbound_identifiers_follow_one_another() {
    let (mut client, _server) = pair();
    let now = extract_timestamp(client.last_id()) + 1000;
    let sent = frames(&client.send_at(&[1u8; 700], "#c", Some(now)));
    let ids: Vec<u64> = sent.iter().map(|f| Envelope::decode(f).id).collect();
    assert_eq!(ids, vec![now * 256 + 2, (now + 1) * 256 + 2, (now + 2) * 256 + 2]);
    assert_eq!(client.last_id(), (now + 2) * 256 + 2);
}

#[test]
fn empty_text_sends_nothing() {
    let (mut client, _server) = pair();
    let before = client.last_id();
    let sent = client.step(Event::Outbound { text: Vec::new(), channel: "#general".to_string() });
    assert!(sent.is_empty());
    assert_eq!(client.last_id(), before);
}

#[test]
fn chunk_size_can_be_set_within_bounds() {
    let (mut client, mut server) = pair();
    assert_eq!(client.set_chunk_size(0), Err(Fault::Protocol));
    assert_eq!(client.set_chunk_size(MAX_CHUNK_SIZE + 1), Err(Fault::Protocol));
    assert_eq!(client.chunk_size(), 256);
    assert_eq!(client.set_chunk_size(MAX_CHUNK_SIZE), Ok(()));
    assert_eq!(client.set_chunk_size(4), Ok(()));
    assert_eq!(client.chunk_size(), 4);
    let sent = frames(&client.step(Event::Outbound { text: b"0123456789".to_vec(), channel: "c".to_string() }));
    assert_eq!(sent.len(), 3);
    let mut texts = Vec::new();
    for frame in sent {
        match &server.step(Event::Inbound(frame))[..] {
            [Action::Deliver(e)] => texts.push(e.text.clone()),
            other => panic!("expected a message, got {:?}", other),
        }
    }
    assert_eq!(texts, vec![b"0123".to_vec(), b"4567".to_vec(), b"89".to_vec()]);
}

#[test]
fn client_logs_in_exactly_once_before_messages_count() {
    let mut client = session("alice");
    let server_key = create_private().unwrap();
    let server_public = derive_public(&server_key).to_bytes();
    assert_eq!(server_public.len(), 32);
    client.connect("relay:4000".to_string());
    assert_eq!(client.phase(), Phase::Connecting);

    // a message before the handshake is not treated as authenticated
    let early = frame_message("mallory", "#general", vec![0u8; 32], 1).unwrap();
    assert!(client.step(Event::Inbound(early.clone())).is_empty());
    assert_eq!(client.phase(), Phase::Connecting);
    assert!(client.shared_key().is_none());

    let greeting = Envelope { kind: EnvelopeType::ConnectionAccept, id: 99, payload: server_public }
        .encode()
        .unwrap();
    let answer = client.step(Event::Inbound(greeting.clone()));
    let sent = frames(&answer);
    assert_eq!(sent.len(), 1);
    let login = Envelope::decode(&sent[0]);
    assert_eq!(login.kind, EnvelopeType::Login);
    assert_eq!(login.payload, client.identity().to_bytes().unwrap());
    assert_eq!(login.id, client.last_id());
    let peer = User::parse(&login.payload).unwrap();
    assert_eq!(peer.username, "alice");
    assert_eq!(peer.public_key, client.identity().public_key);
    assert_eq!(client.phase(), Phase::Authenticated);

    // the login reads back as the client's identity
    assert_eq!(peer.id, client.identity().id);

    // the secret is the one that the server derives
    let expected = derive_shared(&server_key, &peer.public_key).unwrap();
    assert_eq!(client.shared_key().unwrap(), expected.to_bytes());

    // a second greeting is ignored: no second login
    assert!(client.step(Event::Inbound(greeting)).is_empty());
    assert_eq!(client.shared_key().unwrap(), expected.to_bytes());

    // now a message counts, though one that does not open is reported
    assert_eq!(faults(&client.step(Event::Inbound(early))), vec![Fault::Crypto]);
    assert_eq!(client.phase(), Phase::Authenticated);
}

#[test]
fn login_with_a_ten_byte_key_aborts_the_handshake() {
    let mut server = session("bob");
    server.step(Event::Accept);
    assert_eq!(server.phase(), Phase::AwaitingPeerKey);
    let peer = User::create_all(5, "mallory".to_string(), vec![1u8; 10]);
    let login = Envelope { kind: EnvelopeType::Login, id: 7, payload: peer.to_bytes().unwrap() }
        .encode()
        .unwrap();
    let answer = server.step(Event::Inbound(login));
    assert_eq!(faults(&answer), vec![Fault::Protocol]);
    assert_eq!(server.phase(), Phase::Closed);
    assert!(server.shared_key().is_none());

    // nothing is processed afterwards
    let message = frame_message("mallory", "#general", vec![0u8; 32], 8).unwrap();
    assert!(server.step(Event::Inbound(message)).is_empty());
    assert_eq!(faults(&server.step(Event::Outbound { text: b"x".to_vec(), channel: "c".to_string() })), vec![Fault::Transport]);
    assert_eq!(server.phase(), Phase::Closed);
}

#[test]
fn login_without_an_identity_aborts_the_handshake() {
    let mut server = session("bob");
    server.step(Event::Accept);
    let login = Envelope { kind: EnvelopeType::Login, id: 7, payload: b"no identity".to_vec() }
        .encode()
        .unwrap();
    assert_eq!(faults(&server.step(Event::Inbound(login))), vec![Fault::Protocol]);
    assert_eq!(server.phase(), Phase::Closed);
}

#[test]
fn greeting_with_a_key_of_wrong_length_aborts_the_handshake() {
    for len in [0usize, 10, 31, 33] {
        let mut client = session("alice");
        client.connect("relay:4000".to_string());
        let greeting = Envelope { kind: EnvelopeType::ConnectionAccept, id: 1, payload: vec![3u8; len] }
            .encode()
            .unwrap();
        assert_eq!(faults(&client.step(Event::Inbound(greeting))), vec![Fault::Protocol]);
        assert_eq!(client.phase(), Phase::Closed);
        assert!(client.shared_key().is_none());
    }
}

#[test]
fn accepting_side_greets_with_its_public_key() {
    let mut server = session("bob");
    let sent = frames(&server.accept_at(Some(4_000_000_000_000)));
    assert_eq!(sent.len(), 1);
    let greeting = Envelope::decode(&sent[0]);
    assert_eq!(greeting.kind, EnvelopeType::ConnectionAccept);
    assert_eq!(greeting.payload, server.identity().public_key);
    assert_eq!(greeting.id, 4_000_000_000_000 * 256 + 2);
    assert_eq!(server.phase(), Phase::AwaitingPeerKey);
}

#[test]
fn requests_out_of_turn_are_refused() {
    let mut s = session("alice");
    assert_eq!(faults(&s.step(Event::Outbound { text: b"x".to_vec(), channel: "c".to_string() })), vec![Fault::Protocol]);
    assert_eq!(s.phase(), Phase::Disconnected);
    s.connect("a".to_string());
    assert_eq!(faults(&s.connect("b".to_string())), vec![Fault::Protocol]);
    assert_eq!(faults(&s.step(Event::Accept)), vec![Fault::Protocol]);
    assert_eq!(faults(&s.step(Event::Outbound { text: b"x".to_vec(), channel: "c".to_string() })), vec![Fault::Protocol]);
    assert_eq!(s.phase(), Phase::Connecting);
}

#[test]
fn lost_transport_closes_the_session_for_good() {
    for prepare in 0..4 {
        let mut s = match prepare {
            0 => session("alice"),
            1 => {
                let mut s = session("alice");
                s.connect("relay".to_string());
                s
            }
            2 => {
                let mut s = session("alice");
                s.step(Event::Accept);
                s
            }
            _ => pair().0,
        };
        assert_eq!(faults(&s.step(Event::TransportLost)), vec![Fault::Transport]);
        assert_eq!(s.phase(), Phase::Closed);
        assert!(s.step(Event::TransportLost).is_empty());
        assert!(s.step(Event::Inbound(vec![1, 2, 3])).is_empty());
        assert_eq!(faults(&s.step(Event::Connect("relay".to_string()))), vec![Fault::Transport]);
        assert_eq!(faults(&s.step(Event::Accept)), vec![Fault::Transport]);
        assert_eq!(
            faults(&s.step(Event::Outbound { text: b"x".to_vec(), channel: "c".to_string() })),
            vec![Fault::Transport]
        );
        assert_eq!(s.phase(), Phase::Closed);
    }
}

#[test]
fn garbage_and_unknown_envelopes_are_ignored() {
    let (mut client, _server) = pair();
    let key = client.shared_key().unwrap();
    let inputs: Vec<Vec<u8>> = vec![
        Vec::new(),
        b"garbage".to_vec(),
        Envelope::unknown().encode().unwrap(),
        Envelope { kind: EnvelopeType::Connect, id: 3, payload: b"addr".to_vec() }.encode().unwrap(),
        Envelope { kind: EnvelopeType::Login, id: 3, payload: Vec::new() }.encode().unwrap(),
    ];
    for input in inputs {
        assert!(client.step(Event::Inbound(input)).is_empty());
        assert_eq!(client.phase(), Phase::Authenticated);
    }
    assert_eq!(client.shared_key().unwrap(), key);
}

#[test]
fn message_that_is_no_chat_payload_is_a_protocol_fault() {
    let (mut client, _server) = pair();
    let frame = Envelope { kind: EnvelopeType::Message, id: 3, payload: vec![0, 9, 1] }.encode().unwrap();
    assert_eq!(faults(&client.step(Event::Inbound(frame))), vec![Fault::Protocol]);
    assert_eq!(client.phase(), Phase::Authenticated);
}

#[test]
fn message_under_another_key_is_a_crypto_fault() {
    let (mut client, _server) = pair();
    let (mut stranger, _other) = pair();
    let sent = frames(&stranger.step(Event::Outbound { text: b"psst".to_vec(), channel: "c".to_string() }));
    assert_eq!(faults(&client.step(Event::Inbound(sent[0].clone()))), vec![Fault::Crypto]);
    assert_eq!(client.phase(), Phase::Authenticated);
}

#[test]
fn long_names_are_sent() {
    let (mut client, mut server) = pair();
    let channel = "c".repeat(70_000);
    let sent = frames(&client.step(Event::Outbound { text: b"x".to_vec(), channel: channel.clone() }));
    assert_eq!(sent.len(), 1);
    let got = server.step(Event::Inbound(sent[0].clone()));
    assert!(matches!(&got[..], [Action::Deliver(e)] if e.text == b"x" && e.channel == channel));
}

#[test]
fn text_fits_while_its_longest_frame_fits_an_envelope() {
    assert!(text_fits("alice", "#general", 0, 256));
    assert!(text_fits("alice", "#general", 600, 256));
    assert!(text_fits("", "", usize::MAX, MAX_CHUNK_SIZE));
    // 8 bytes of lengths, 2 of names, the chunk and 16 of tag are the payload
    let room = MAX_PAYLOAD_LEN - 8 - 2 - 16;
    assert!(text_fits("a", "b", room, room));
    assert!(text_fits("a", "b", room, usize::MAX));
    assert!(!text_fits("a", "b", room + 1, room + 1));
    assert!(!text_fits("a", "b", usize::MAX, room + 1));
    assert!(text_fits("a", "b", room, room + 1));
    assert!(!text_fits("ab", "b", room, room));
    assert!(!text_fits("a", "b", usize::MAX, usize::MAX));
}

#[test]
fn login_that_is_too_long_is_refused_at_the_start() {
    let mut ids = IdGenerator::new();
    let user = User::new("alice".to_string(), &mut ids);
    let login = vec![0u8; 16];
    let s = Session::with_login(user, create_private().unwrap(), ids, login.clone()).unwrap();
    assert_eq!(s.phase(), Phase::Disconnected);
    let mut s = s;
    s.connect("relay".to_string());
    let greeting = Envelope { kind: EnvelopeType::ConnectionAccept, id: 1, payload: vec![9u8; 32] }
        .encode()
        .unwrap();
    let sent = frames(&s.step(Event::Inbound(greeting)));
    assert_eq!(Envelope::decode(&sent[0]).payload, login);
}

#[test]
fn handshake_completes_with_a_given_agreement() {
    let mut client = session("alice");
    client.connect("relay".to_string());
    let secret = SharedSecret { bytes: [5u8; 32] };
    let sent = frames(&client.complete_connect(Ok(secret), Some(4_000_000_000_000)));
    assert_eq!(sent.len(), 1);
    let login = Envelope::decode(&sent[0]);
    assert_eq!(login.kind, EnvelopeType::Login);
    assert_eq!(login.id, 4_000_000_000_000 * 256 + 2);
    assert_eq!(client.shared_key().unwrap(), vec![5u8; 32]);

    let mut client = session("alice");
    client.connect("relay".to_string());
    assert_eq!(faults(&client.complete_connect(Err(Fault::Protocol), None)), vec![Fault::Protocol]);
    assert_eq!(client.phase(), Phase::Closed);

    let mut idle = session("alice");
    assert_eq!(faults(&idle.complete_connect(Ok(SharedSecret { bytes: [5u8; 32] }), None)), vec![Fault::Protocol]);
    assert_eq!(idle.phase(), Phase::Disconnected);

    let mut server = session("bob");
    server.step(Event::Accept);
    assert!(server.complete_accept(Ok(SharedSecret { bytes: [6u8; 32] })).is_empty());
    assert_eq!(server.shared_key().unwrap(), vec![6u8; 32]);

    let mut server = session("bob");
    assert_eq!(faults(&server.complete_accept(Ok(SharedSecret { bytes: [6u8; 32] }))), vec![Fault::Protocol]);
    assert_eq!(server.phase(), Phase::Disconnected);
    server.step(Event::Accept);
    assert_eq!(faults(&server.complete_accept(Err(Fault::Protocol))), vec![Fault::Protocol]);
    assert_eq!(server.phase(), Phase::Closed);
}

#[test]
fn delivery_carries_the_envelope_time() {
    let mut ids = IdGenerator::new();
    let id = ids.generate_at(Some(1_700_000_000_123), IdKind::Message);
    match deliver(id, "s".to_string(), "c".to_string(), Ok(b"text".to_vec())) {
        Action::Deliver(e) => {
            assert_eq!(e.timestamp, 1_700_000_000_123);
            assert_eq!(e.sender, "s");
            assert_eq!(e.channel, "c");
            assert_eq!(e.text, b"text".to_vec());
        }
        other => panic!("expected a message, got {:?}", other),
    }
    assert!(matches!(
        deliver(id, "s".to_string(), "c".to_string(), Err(Fault::Crypto)),
        Action::Report(Fault::Crypto)
    ));
}

#[test]
fn message_frame_is_an_envelope_around_a_chat_payload() {
    let frame = frame_message("al", "#g", vec![1, 2, 3], 0x0102).unwrap();
    assert_eq!(
        frame,
        vec![
            0, 0, 0, 24, 4, 0, 0, 0, 0, 0, 0, 1, 2, 0, 0, 0, 2, b'a', b'l', 0, 0, 0, 2, b'#',
            b'g', 1, 2, 3
        ]
    );
    let long = "x".repeat(70_000);
    let frame = frame_message(&long, "#g", vec![1], 1).unwrap();
    let payload = ChatPayload::from_bytes(&Envelope::decode(&frame).payload).unwrap();
    assert_eq!(payload.sender_name, long);
}

#[test]
fn private_key_bytes_make_the_same_session_key() {
    let key_bytes = create_private().unwrap().to_bytes();
    let a = PrivateKey::from_bytes(&key_bytes).unwrap();
    let b = PrivateKey::from_bytes(&key_bytes).unwrap();
    assert_eq!(derive_public(&a).to_bytes(), derive_public(&b).to_bytes());
}

#[test]
fn session_of_any_ordinary_identity_is_made() {
    for name in ["", "a", &"n".repeat(100_000)] {
        let mut ids = IdGenerator::new();
        let user = User::new(name.to_string(), &mut ids);
        let s = Session::new(user, create_private().unwrap(), ids);
        assert!(s.is_ok());
    }
}

#[test]
fn what_is_sent_opens_to_the_text_in_pieces_of_the_chunk_size() {
    let (mut client, server) = pair();
    let secret = SharedSecret { bytes: server.shared_key().unwrap().try_into().unwrap() };
    for len in [1usize, 255, 256, 257, 512, 1000] {
        let text: Vec<u8> = (0..len).map(|i| (i % 253) as u8).collect();
        let sent = frames(&client.step(Event::Outbound { text: text.clone(), channel: "c".to_string() }));
        let mut opened = Vec::new();
        for frame in &sent {
            let body = ChatPayload::from_bytes(&Envelope::decode(frame).payload).unwrap().body;
            let piece = decrypt(&body, &secret).unwrap();
            assert!(piece.len() <= 256);
            opened.extend(piece);
        }
        assert_eq!(sent.len(), (len + 255) / 256);
        assert_eq!(opened, text);
    }
}
