//! The protocol of a session as mathematics: what a session is, and what
//! each event makes of it.
//!
//! ```text
//! Disconnected --connect--> Connecting --ConnectionAccept--> Authenticated
//! Disconnected --accept---> AwaitingPeerKey --Login--------> Authenticated
//! any state ----transport lost, malformed handshake---------> Closed
//! ```
//!
//! The connecting side passes through `AwaitingPeerKey` within the handling
//! of the peer's greeting: it derives the secret at once and answers with
//! its `Login`.

use vstd::prelude::*;
use vstd::utf8::encode_utf8;
use crate::chunker::{chunks_of, concat, lemma_chunks_bounded, lemma_chunks_cover};
use crate::cipher::{decrypted, fixed_nonce, siv_sealed, TAG_LEN};
use crate::envelope::{
    decoding, encoding, lemma_decode_encode, EnvelopeModel, EnvelopeType, MAX_PAYLOAD_LEN,
};
use crate::fault::Fault;
use crate::id::{next_id, timestamp_of, IdKind};
use crate::keys::{agreed, x25519_shared, KEY_LEN};
use crate::payload::{
    lemma_payload_len, lemma_payload_round_trip, name_fits, payload_decoding, payload_encoding,
    ChatPayloadModel,
};
use crate::user::{parsed_user, UserModel};

verus! {

/// The chunk size of a session that was given no other.
pub const DEFAULT_CHUNK_SIZE: usize = 256;

/// The largest chunk size that a session takes.
pub const MAX_CHUNK_SIZE: usize = 0x10_0000;

/// Where a session stands, without the secret.
#[derive(Clone, Copy, Debug, PartialEq, Eq, Structural)]
pub enum Phase {
    Disconnected,
    Connecting,
    AwaitingPeerKey,
    Authenticated,
    Closed,
}

/// A state as a mathematical value.
pub enum StateModel {
    Disconnected,
    Connecting,
    AwaitingPeerKey,
    Authenticated(Seq<u8>),
    Closed,
}

/// An event as a mathematical value.
pub enum EventModel {
    Connect(Seq<char>),
    Accept,
    Inbound(Seq<u8>),
    Outbound { text: Seq<u8>, channel: Seq<char> },
    TransportLost,
}

/// A chat message as a mathematical value.
pub struct ChatEventModel {
    pub sender: Seq<char>,
    pub channel: Seq<char>,
    pub timestamp: u64,
    pub text: Seq<u8>,
}

/// An action as a mathematical value.
pub enum ActionModel {
    Open(Seq<char>),
    Send(Seq<u8>),
    Deliver(ChatEventModel),
    Report(Fault),
}

/// A session as a mathematical value.
pub struct SessionModel {
    pub state: StateModel,
    /// The local identity; its public key is that of this session.
    pub identity: UserModel,
    pub private_key: Seq<u8>,
    /// The identifier that the session gave out last.
    pub last_id: u64,
    pub chunk_size: nat,
    /// The serialized identity, the payload of this session's `Login`.
    pub login: Seq<u8>,
}

/// A session's next value and the actions that go with the step.
pub struct Outcome {
    pub next: SessionModel,
    pub actions: Seq<ActionModel>,
}

/// The phase of a state.
pub open spec fn phase_of(state: StateModel) -> Phase {
    match state {
        StateModel::Disconnected => Phase::Disconnected,
        StateModel::Connecting => Phase::Connecting,
        StateModel::AwaitingPeerKey => Phase::AwaitingPeerKey,
        StateModel::Authenticated(_) => Phase::Authenticated,
        StateModel::Closed => Phase::Closed,
    }
}

/// What every session satisfies: a chunk size within bounds, a public key of
/// the right length, and a login payload that fits an envelope.
pub open spec fn valid(s: SessionModel) -> bool {
    &&& 0 < s.chunk_size <= MAX_CHUNK_SIZE
    &&& s.identity.public_key.len() == KEY_LEN
    &&& s.login.len() <= MAX_PAYLOAD_LEN
}

/// A new session for an identity, a private key and a serialized identity.
pub open spec fn initial(
    identity: UserModel,
    private_key: Seq<u8>,
    last_id: u64,
    login: Seq<u8>,
) -> SessionModel {
    SessionModel {
        state: StateModel::Disconnected,
        identity,
        private_key,
        last_id,
        chunk_size: DEFAULT_CHUNK_SIZE as nat,
        login,
    }
}

/// The frame of an envelope of these parts.
pub open spec fn frame_of(kind: EnvelopeType, id: u64, payload: Seq<u8>) -> Seq<u8> {
    encoding(EnvelopeModel { kind, id, payload })
}

/// A step that changes nothing and does nothing.
pub open spec fn ignored(s: SessionModel) -> Outcome {
    Outcome { next: s, actions: seq![] }
}

/// A step that changes nothing and reports a fault.
pub open spec fn faulted(s: SessionModel, fault: Fault) -> Outcome {
    Outcome { next: s, actions: seq![ActionModel::Report(fault)] }
}

/// The answer to a request that the session's state does not allow: a
/// transport fault once the session is closed, a protocol fault before.
pub open spec fn refused(s: SessionModel) -> Outcome {
    if s.state is Closed {
        faulted(s, Fault::Transport)
    } else {
        faulted(s, Fault::Protocol)
    }
}

/// The end of a session over a fault.
pub open spec fn aborted(s: SessionModel, fault: Fault) -> Outcome {
    Outcome {
        next: SessionModel { state: StateModel::Closed, ..s },
        actions: seq![ActionModel::Report(fault)],
    }
}

/// The local side asks to be connected.
pub open spec fn on_connect(s: SessionModel, address: Seq<char>) -> Outcome {
    if s.state is Disconnected {
        Outcome {
            next: SessionModel { state: StateModel::Connecting, ..s },
            actions: seq![ActionModel::Open(address)],
        }
    } else {
        refused(s)
    }
}

/// The local side has accepted a connection: it greets the peer with its
/// public key and waits for the peer's.
pub open spec fn on_accept(s: SessionModel, now: Option<u64>) -> Outcome {
    if s.state is Disconnected {
        let id = next_id(s.last_id, now, IdKind::Message);
        Outcome {
            next: SessionModel { state: StateModel::AwaitingPeerKey, last_id: id, ..s },
            actions: seq![
                ActionModel::Send(
                    frame_of(EnvelopeType::ConnectionAccept, id, s.identity.public_key),
                ),
            ],
        }
    } else {
        refused(s)
    }
}

/// The transport failed or was closed: the session ends. A session that had
/// ended already says nothing more.
pub open spec fn on_transport_lost(s: SessionModel) -> Outcome {
    if s.state is Closed {
        ignored(s)
    } else {
        aborted(s, Fault::Transport)
    }
}

/// The connecting side has, or has not, agreed on a secret with the peer.
/// With a secret the session is authenticated and answers with its `Login`;
/// without one it ends.
pub open spec fn connected(
    s: SessionModel,
    agreement: Result<Seq<u8>, Fault>,
    now: Option<u64>,
) -> Outcome {
    match agreement {
        Ok(secret) => {
            let id = next_id(s.last_id, now, IdKind::Message);
            Outcome {
                next: SessionModel { state: StateModel::Authenticated(secret), last_id: id, ..s },
                actions: seq![ActionModel::Send(frame_of(EnvelopeType::Login, id, s.login))],
            }
        },
        Err(fault) => aborted(s, fault),
    }
}

/// The accepting side has, or has not, agreed on a secret with the peer.
/// With a secret the session is authenticated; without one it ends.
pub open spec fn admitted(s: SessionModel, agreement: Result<Seq<u8>, Fault>) -> Outcome {
    match agreement {
        Ok(secret) => Outcome {
            next: SessionModel { state: StateModel::Authenticated(secret), ..s },
            actions: seq![],
        },
        Err(fault) => aborted(s, fault),
    }
}

/// The connecting side received the peer's greeting with this key. A key of
/// the wrong length ends the session with a protocol fault; a key of 32 bytes
/// gives the secret, and the session answers with its `Login`.
pub open spec fn on_peer_key(s: SessionModel, peer_key: Seq<u8>, now: Option<u64>) -> Outcome {
    connected(s, agreed(s.private_key, peer_key), now)
}

/// The accepting side received the peer's `Login`. A payload that holds no
/// identity, or one whose key has the wrong length, ends the session with a
/// protocol fault; an identity with a key of 32 bytes gives the secret.
pub open spec fn on_login(s: SessionModel, payload: Seq<u8>) -> Outcome {
    match parsed_user(payload) {
        Some(peer) => admitted(s, agreed(s.private_key, peer.public_key)),
        None => aborted(s, Fault::Protocol),
    }
}

/// The message that an opened body gives to the presentation layer, or the
/// fault where the body did not open.
pub open spec fn delivery(
    envelope_id: u64,
    sender: Seq<char>,
    channel: Seq<char>,
    opened: Result<Seq<u8>, Fault>,
) -> ActionModel {
    match opened {
        Ok(text) => ActionModel::Deliver(
            ChatEventModel { sender, channel, timestamp: timestamp_of(envelope_id), text },
        ),
        Err(fault) => ActionModel::Report(fault),
    }
}

/// An authenticated session received a `Message` envelope. A payload that is
/// no chat payload is reported as a protocol fault, a body that does not open
/// under the session's secret as a crypto fault; neither ends the session.
pub open spec fn on_message(s: SessionModel, secret: Seq<u8>, e: EnvelopeModel) -> Outcome {
    match payload_decoding(e.payload) {
        Some(p) => Outcome {
            next: s,
            actions: seq![
                delivery(e.id, p.sender_name, p.channel_name, decrypted(p.body, secret)),
            ],
        },
        None => faulted(s, Fault::Protocol),
    }
}

/// A frame arrived. What it means depends on the state: the greeting counts
/// while connecting, the login while the peer's key is awaited, a message
/// once authenticated. Everything else is ignored.
pub open spec fn on_inbound(s: SessionModel, frame: Seq<u8>, now: Option<u64>) -> Outcome {
    let e = decoding(frame);
    match s.state {
        StateModel::Connecting => if e.kind == EnvelopeType::ConnectionAccept {
            on_peer_key(s, e.payload, now)
        } else {
            ignored(s)
        },
        StateModel::AwaitingPeerKey => if e.kind == EnvelopeType::Login {
            on_login(s, e.payload)
        } else {
            ignored(s)
        },
        StateModel::Authenticated(secret) => if e.kind == EnvelopeType::Message {
            on_message(s, secret, e)
        } else {
            ignored(s)
        },
        _ => ignored(s),
    }
}

/// The frame of one chunk: a `Message` envelope around a chat payload whose
/// body is the sealed chunk.
pub open spec fn message_frame(
    sender: Seq<char>,
    channel: Seq<char>,
    sealed: Seq<u8>,
    id: u64,
) -> Seq<u8> {
    frame_of(
        EnvelopeType::Message,
        id,
        payload_encoding(
            ChatPayloadModel { sender_name: sender, channel_name: channel, body: sealed },
        ),
    )
}

/// The frames of the chunks of one text, in the chunks' order. Each chunk is
/// sealed on its own and gets the identifier after that of the chunk before
/// it.
pub open spec fn outbound_frames(
    sender: Seq<char>,
    channel: Seq<char>,
    secret: Seq<u8>,
    chunks: Seq<Seq<u8>>,
    last_id: u64,
    now: Option<u64>,
) -> Seq<ActionModel>
    decreases chunks.len(),
{
    if chunks.len() == 0 {
        seq![]
    } else {
        let id = next_id(last_id, now, IdKind::Message);
        seq![
            ActionModel::Send(
                message_frame(sender, channel, siv_sealed(secret, fixed_nonce(), chunks[0]), id),
            ),
        ] + outbound_frames(sender, channel, secret, chunks.drop_first(), id, now)
    }
}

/// The identifier given out last after `count` more envelopes.
pub open spec fn last_id_after(last_id: u64, now: Option<u64>, count: nat) -> u64
    decreases count,
{
    if count == 0 {
        last_id
    } else {
        last_id_after(next_id(last_id, now, IdKind::Message), now, (count - 1) as nat)
    }
}

/// The length of the longest chunk of a text: the chunk size, or the whole
/// text where that is shorter.
pub open spec fn longest_chunk(text_len: nat, chunk_size: nat) -> nat {
    if text_len < chunk_size {
        text_len
    } else {
        chunk_size
    }
}

/// Whether a text can be sent under these names: the frame of its longest
/// chunk, eight bytes of lengths, the two names, the chunk and its tag, is
/// not too long for an envelope.
pub open spec fn frames_fit(
    sender: Seq<char>,
    channel: Seq<char>,
    text_len: nat,
    chunk_size: nat,
) -> bool {
    8 + encode_utf8(sender).len() + encode_utf8(channel).len() + longest_chunk(
        text_len,
        chunk_size,
    ) + TAG_LEN <= MAX_PAYLOAD_LEN
}

/// The text that the holder of `secret` reads out of what an action puts on
/// the wire: what the body of a sent `Message` frame opens to. `None` for an
/// action that sends no such frame, or one whose body does not open.
pub open spec fn received_text(action: ActionModel, secret: Seq<u8>) -> Option<Seq<u8>> {
    match action {
        ActionModel::Send(frame) => match payload_decoding(decoding(frame).payload) {
            Some(p) => match decrypted(p.body, secret) {
                Ok(text) => if decoding(frame).kind == EnvelopeType::Message {
                    Some(text)
                } else {
                    None
                },
                Err(_) => None,
            },
            None => None,
        },
        _ => None,
    }
}

/// The texts that the holder of `secret` reads out of a list of actions, in
/// the actions' order; an action that carries none counts as an empty text.
pub open spec fn received_texts(actions: Seq<ActionModel>, secret: Seq<u8>) -> Seq<Seq<u8>> {
    actions.map_values(
        |action: ActionModel|
            match received_text(action, secret) {
                Some(text) => text,
                None => Seq::empty(),
            },
    )
}

/// Whether `actions` carry `text` to the holder of `secret`, in pieces of at
/// most `chunk_size` bytes: there is one action for each chunk of the text,
/// in the chunks' order; each sends a frame whose body opens to its chunk;
/// and what is read out of them, put together, is the text.
pub open spec fn carries(
    actions: Seq<ActionModel>,
    secret: Seq<u8>,
    text: Seq<u8>,
    chunk_size: nat,
) -> bool {
    &&& actions.len() == chunks_of(text, chunk_size).len()
    &&& forall|i: int|
        0 <= i < actions.len() ==> received_text(#[trigger] actions[i], secret) == Some(
            chunks_of(text, chunk_size)[i],
        )
    &&& forall|i: int|
        0 <= i < actions.len() ==> (#[trigger] received_texts(actions, secret)[i]).len()
            <= chunk_size
    &&& received_texts(actions, secret) == chunks_of(text, chunk_size)
    &&& concat(received_texts(actions, secret)) == text
}

/// What is owed of the actions that answer a request to send `text`: an
/// authenticated session carries the text to whoever holds its secret,
/// where the frames of the text fit an envelope.
pub open spec fn outbound_carried(
    s: SessionModel,
    text: Seq<u8>,
    channel: Seq<char>,
    actions: Seq<ActionModel>,
) -> bool {
    match s.state {
        StateModel::Authenticated(secret) => frames_fit(
            s.identity.username,
            channel,
            text.len(),
            s.chunk_size,
        ) ==> carries(actions, secret, text, s.chunk_size),
        _ => true,
    }
}

/// What is owed of the actions that answer an event, where the event is a
/// request to send.
pub open spec fn event_carried(
    s: SessionModel,
    event: EventModel,
    actions: Seq<ActionModel>,
) -> bool {
    match event {
        EventModel::Outbound { text, channel } => outbound_carried(s, text, channel, actions),
        _ => true,
    }
}

/// The presentation layer asks for a text to be sent. An authenticated
/// session sends one frame for each chunk of the text, in the chunks' order;
/// where the names are so long that a frame would not fit an envelope, that
/// is a protocol fault and nothing is sent. In every other state the request
/// is refused.
pub open spec fn on_outbound(
    s: SessionModel,
    text: Seq<u8>,
    channel: Seq<char>,
    now: Option<u64>,
) -> Outcome {
    match s.state {
        StateModel::Authenticated(secret) => if frames_fit(
            s.identity.username,
            channel,
            text.len(),
            s.chunk_size,
        ) {
            let chunks = chunks_of(text, s.chunk_size);
            Outcome {
                next: SessionModel { last_id: last_id_after(s.last_id, now, chunks.len()), ..s },
                actions: outbound_frames(
                    s.identity.username,
                    channel,
                    secret,
                    chunks,
                    s.last_id,
                    now,
                ),
            }
        } else {
            faulted(s, Fault::Protocol)
        },
        _ => refused(s),
    }
}

/// The session's next value and its actions, for an event and a clock that
/// reads `now`.
pub open spec fn step_of(s: SessionModel, event: EventModel, now: Option<u64>) -> Outcome {
    match event {
        EventModel::Connect(address) => on_connect(s, address),
        EventModel::Accept => on_accept(s, now),
        EventModel::Inbound(frame) => on_inbound(s, frame, now),
        EventModel::Outbound { text, channel } => on_outbound(s, text, channel, now),
        EventModel::TransportLost => on_transport_lost(s),
    }
}

/// Every step leaves a session valid.
pub proof fn lemma_step_keeps_valid(s: SessionModel, event: EventModel, now: Option<u64>)
    requires
        valid(s),
    ensures
        valid(step_of(s, event, now).next),
{
}

/// `Closed` is the end: a closed session stays as it is, whatever happens,
/// and asks for nothing to be opened, sent or delivered.
pub proof fn lemma_closed_is_terminal(s: SessionModel, event: EventModel, now: Option<u64>)
    requires
        s.state is Closed,
    ensures
        step_of(s, event, now).next == s,
        forall|i: int|
            0 <= i < step_of(s, event, now).actions.len() ==> step_of(s, event, now).actions[i]
                is Report,
{
}

/// Only an authenticated session delivers chat messages, and only an
/// authenticated session sends them: in every other state no step delivers
/// anything, and a request to send is answered with a fault alone.
pub proof fn lemma_chat_needs_authentication(s: SessionModel, event: EventModel, now: Option<u64>)
    requires
        !(s.state is Authenticated),
    ensures
        forall|i: int|
            0 <= i < step_of(s, event, now).actions.len() ==> !(step_of(s, event, now).actions[i]
                is Deliver),
        event is Outbound ==> step_of(s, event, now) == refused(s),
{
}

/// A session gets authenticated by its handshake alone. The connecting side
/// gets there on the peer's greeting with a key of 32 bytes, and answers with
/// exactly one frame, its `Login`; the accepting side gets there on a `Login`
/// whose identity has a key of 32 bytes.
pub proof fn lemma_authentication_by_handshake(
    s: SessionModel,
    event: EventModel,
    now: Option<u64>,
)
    requires
        !(s.state is Authenticated),
        step_of(s, event, now).next.state is Authenticated,
    ensures
        event is Inbound,
        s.state is Connecting ==> {
            &&& decoding(event->Inbound_0).kind == EnvelopeType::ConnectionAccept
            &&& decoding(event->Inbound_0).payload.len() == KEY_LEN
            &&& step_of(s, event, now).actions == seq![
                ActionModel::Send(
                    frame_of(EnvelopeType::Login, step_of(s, event, now).next.last_id, s.login),
                ),
            ]
        },
        !(s.state is Connecting) ==> {
            &&& s.state is AwaitingPeerKey
            &&& decoding(event->Inbound_0).kind == EnvelopeType::Login
            &&& parsed_user(decoding(event->Inbound_0).payload) is Some
            &&& parsed_user(decoding(event->Inbound_0).payload)->0.public_key.len() == KEY_LEN
            &&& step_of(s, event, now).actions.len() == 0
        },
{
}

/// A handshake with a key of the wrong length ends the session: a greeting
/// whose payload is not 32 bytes, or a `Login` that holds no identity or one
/// whose key is not 32 bytes, closes the session with a protocol fault, and
/// no secret is derived.
pub proof fn lemma_malformed_key_aborts(s: SessionModel, frame: Seq<u8>, now: Option<u64>)
    requires
        ({
            let e = decoding(frame);
            ||| s.state is Connecting && e.kind == EnvelopeType::ConnectionAccept
                && e.payload.len() != KEY_LEN
            ||| s.state is AwaitingPeerKey && e.kind == EnvelopeType::Login && (parsed_user(
                e.payload,
            ) is None || parsed_user(e.payload)->0.public_key.len() != KEY_LEN)
        }),
    ensures
        on_inbound(s, frame, now) == aborted(s, Fault::Protocol),
        on_inbound(s, frame, now).next.state is Closed,
{
}

/// The accepting side reads the `Login` that the connecting side wrote:
/// where the login payload parses as an identity with a key of 32 bytes, the
/// accepting side is authenticated by its frame, with the secret that its
/// private key and that public key agree on.
pub proof fn lemma_login_admitted(
    acceptor: SessionModel,
    peer: UserModel,
    login: Seq<u8>,
    id: u64,
    now: Option<u64>,
)
    requires
        acceptor.state is AwaitingPeerKey,
        login.len() <= MAX_PAYLOAD_LEN,
        parsed_user(login) == Some(peer),
        peer.public_key.len() == KEY_LEN,
    ensures
        on_inbound(acceptor, frame_of(EnvelopeType::Login, id, login), now).next == (SessionModel {
            state: StateModel::Authenticated(
                x25519_shared(acceptor.private_key, peer.public_key),
            ),
            ..acceptor
        }),
        on_inbound(acceptor, frame_of(EnvelopeType::Login, id, login), now).actions.len() == 0,
{
    lemma_decode_encode(EnvelopeModel { kind: EnvelopeType::Login, id, payload: login });
}

/// The chunks of one text go out in their order: there is one frame for each
/// chunk, the frame at place `i` holds chunk `i`, sealed, and carries the
/// identifier that follows that of the frame before it.
pub proof fn lemma_outbound_frames(
    sender: Seq<char>,
    channel: Seq<char>,
    secret: Seq<u8>,
    chunks: Seq<Seq<u8>>,
    last_id: u64,
    now: Option<u64>,
    i: int,
)
    requires
        0 <= i < chunks.len(),
    ensures
        outbound_frames(sender, channel, secret, chunks, last_id, now).len() == chunks.len(),
        outbound_frames(sender, channel, secret, chunks, last_id, now)[i] == ActionModel::Send(
            message_frame(
                sender,
                channel,
                siv_sealed(secret, fixed_nonce(), chunks[i]),
                last_id_after(last_id, now, (i + 1) as nat),
            ),
        ),
        last_id_after(last_id, now, (i + 1) as nat) == next_id(
            last_id_after(last_id, now, i as nat),
            now,
            IdKind::Message,
        ),
    decreases chunks.len(),
{
    let first = next_id(last_id, now, IdKind::Message);
    let rest = chunks.drop_first();
    lemma_outbound_count(sender, channel, secret, chunks, last_id, now);
    lemma_outbound_count(sender, channel, secret, rest, first, now);
    lemma_last_id_step(last_id, now, i as nat);
    if i == 0 {
        assert(last_id_after(first, now, 0) == first);
    } else {
        lemma_outbound_frames(sender, channel, secret, rest, first, now, i - 1);
        assert(outbound_frames(sender, channel, secret, chunks, last_id, now)[i]
            == outbound_frames(sender, channel, secret, rest, first, now)[i - 1]);
    }
}

/// There is one frame for each chunk.
pub proof fn lemma_outbound_count(
    sender: Seq<char>,
    channel: Seq<char>,
    secret: Seq<u8>,
    chunks: Seq<Seq<u8>>,
    last_id: u64,
    now: Option<u64>,
)
    ensures
        outbound_frames(sender, channel, secret, chunks, last_id, now).len() == chunks.len(),
    decreases chunks.len(),
{
    if chunks.len() > 0 {
        lemma_outbound_count(
            sender,
            channel,
            secret,
            chunks.drop_first(),
            next_id(last_id, now, IdKind::Message),
            now,
        );
    }
}

/// The identifier after `count + 1` envelopes is the one that follows the
/// identifier after `count`.
pub proof fn lemma_last_id_step(last_id: u64, now: Option<u64>, count: nat)
    ensures
        last_id_after(last_id, now, count + 1) == next_id(
            last_id_after(last_id, now, count),
            now,
            IdKind::Message,
        ),
    decreases count,
{
    let first = next_id(last_id, now, IdKind::Message);
    if count == 0 {
        assert(last_id_after(first, now, 0) == first);
    } else {
        lemma_last_id_step(first, now, (count - 1) as nat);
    }
}

/// A frame made of a sealed chunk gives the chunk back to whoever can open
/// the sealed bytes: where `sealed` opens to `text` under `secret`, the text
/// read out of the frame is `text`.
pub proof fn lemma_frame_opens(
    secret: Seq<u8>,
    sender: Seq<char>,
    channel: Seq<char>,
    sealed: Seq<u8>,
    id: u64,
    text: Seq<u8>,
)
    requires
        name_fits(sender),
        name_fits(channel),
        8 + encode_utf8(sender).len() + encode_utf8(channel).len() + sealed.len()
            <= MAX_PAYLOAD_LEN,
        decrypted(sealed, secret) == Ok::<Seq<u8>, Fault>(text),
    ensures
        received_text(ActionModel::Send(message_frame(sender, channel, sealed, id)), secret)
            == Some(text),
{
    let p = ChatPayloadModel { sender_name: sender, channel_name: channel, body: sealed };
    let e = EnvelopeModel { kind: EnvelopeType::Message, id, payload: payload_encoding(p) };
    lemma_payload_len(p);
    lemma_payload_round_trip(p);
    lemma_decode_encode(e);
}

/// Actions that open, one by one and in order, to the chunks of a text carry
/// the text: what is read out of them is the chunks, no piece is longer than
/// the chunk size, and the pieces together are the text.
pub proof fn lemma_chunks_carried(
    actions: Seq<ActionModel>,
    secret: Seq<u8>,
    text: Seq<u8>,
    chunk_size: nat,
)
    requires
        chunk_size > 0,
        actions.len() == chunks_of(text, chunk_size).len(),
        forall|i: int|
            0 <= i < actions.len() ==> received_text(#[trigger] actions[i], secret) == Some(
                chunks_of(text, chunk_size)[i],
            ),
    ensures
        carries(actions, secret, text, chunk_size),
{
    let chunks = chunks_of(text, chunk_size);
    assert(received_texts(actions, secret) =~= chunks);
    lemma_chunks_cover(text, chunk_size);
    assert forall|i: int| 0 <= i < actions.len() implies (#[trigger] received_texts(
        actions,
        secret,
    )[i]).len() <= chunk_size by {
        lemma_chunks_bounded(text, chunk_size, i);
    }
}

/// A frame that one side made of a sealed chunk is read by an authenticated
/// session as that chunk's message: the receiver delivers the sender's name,
/// the channel, the time that the identifier carries and the text that the
/// body opens to under the receiver's secret, or reports that it did not
/// open. Its state stays as it was.
pub proof fn lemma_message_received(
    receiver: SessionModel,
    secret: Seq<u8>,
    sender: Seq<char>,
    channel: Seq<char>,
    sealed: Seq<u8>,
    id: u64,
    now: Option<u64>,
)
    requires
        receiver.state == StateModel::Authenticated(secret),
        name_fits(sender),
        name_fits(channel),
        8 + encode_utf8(sender).len() + encode_utf8(channel).len() + sealed.len()
            <= MAX_PAYLOAD_LEN,
    ensures
        on_inbound(receiver, message_frame(sender, channel, sealed, id), now).next == receiver,
        on_inbound(receiver, message_frame(sender, channel, sealed, id), now).actions == seq![
            delivery(id, sender, channel, decrypted(sealed, secret)),
        ],
{
    let p = ChatPayloadModel { sender_name: sender, channel_name: channel, body: sealed };
    let e = EnvelopeModel { kind: EnvelopeType::Message, id, payload: payload_encoding(p) };
    lemma_payload_len(p);
    lemma_payload_round_trip(p);
    lemma_decode_encode(e);
}

} // verus!
