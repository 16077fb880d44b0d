//! The per-connection state machine.
//!
//! A session decides; it does no input or output. Its caller opens the
//! transport, waits for the next frame or the next request from the
//! presentation layer, hands each to the session as an event, and carries
//! out the actions that come back, in their order.

use vstd::prelude::*;
use vstd::utf8::encode_utf8;
use crate::chunker::{chunks_of, lemma_chunks_bounded, split};
use crate::cipher::{bytes_result, decrypt, encrypt};
use crate::envelope::{Envelope, EnvelopeType, MAX_PAYLOAD_LEN};
use crate::fault::Fault;
use crate::id::{clock_millis, extract_timestamp, IdGenerator, IdKind};
use crate::keys::{
    derive_public, derive_shared, secret_result, x25519_public, PrivateKey, SharedSecret,
};
use crate::payload::{lemma_payload_len, name_fits, ChatPayload};
use crate::protocol::{
    aborted, admitted, connected, delivery, event_carried, frames_fit, initial, last_id_after,
    lemma_chunks_carried, lemma_frame_opens, message_frame, on_accept, on_connect, on_inbound,
    on_outbound, on_transport_lost, outbound_carried, outbound_frames, phase_of, received_text,
    refused, step_of, valid, ActionModel, ChatEventModel, EventModel, Phase, SessionModel,
    StateModel, DEFAULT_CHUNK_SIZE, MAX_CHUNK_SIZE,
};
use crate::user::{identity_msgpack, parsed_user, User, UserModel, MAX_FIELD_LEN};
use crate::wire::byte_views;

verus! {

/// Where a session stands.
pub enum SessionState {
    /// Nothing has happened yet.
    Disconnected,
    /// The transport is being opened; the peer's greeting is awaited.
    Connecting,
    /// The peer's key is awaited or, on the connecting side, just arrived.
    AwaitingPeerKey,
    /// Both sides hold the secret; chat messages flow.
    Authenticated(SharedSecret),
    /// The end. Nothing is sent any more.
    Closed,
}

/// What happened, as the session's caller reports it.
#[derive(Debug)]
pub enum Event {
    /// The local side asks to be connected to this address.
    Connect(String),
    /// The local side has accepted a connection and is to greet the peer.
    Accept,
    /// A frame arrived on the transport.
    Inbound(Vec<u8>),
    /// The presentation layer asks for a text to be sent to a channel.
    Outbound { text: Vec<u8>, channel: String },
    /// The transport failed or was closed.
    TransportLost,
}

/// A chat message for the presentation layer.
#[derive(Debug)]
pub struct ChatEvent {
    pub sender: String,
    pub channel: String,
    /// Milliseconds since the Unix epoch, as the sender's envelope says.
    pub timestamp: u64,
    pub text: Vec<u8>,
}

/// What the session's caller is to do.
#[derive(Debug)]
pub enum Action {
    /// Open the transport to this address.
    Open(String),
    /// Write this frame to the transport.
    Send(Vec<u8>),
    /// Hand this message to the presentation layer.
    Deliver(ChatEvent),
    /// Surface this fault.
    Report(Fault),
}

impl View for SessionState {
    type V = StateModel;

    open spec fn view(&self) -> StateModel {
        match self {
            SessionState::Disconnected => StateModel::Disconnected,
            SessionState::Connecting => StateModel::Connecting,
            SessionState::AwaitingPeerKey => StateModel::AwaitingPeerKey,
            SessionState::Authenticated(secret) => StateModel::Authenticated(secret@),
            SessionState::Closed => StateModel::Closed,
        }
    }
}

impl View for Event {
    type V = EventModel;

    open spec fn view(&self) -> EventModel {
        match self {
            Event::Connect(address) => EventModel::Connect(address@),
            Event::Accept => EventModel::Accept,
            Event::Inbound(frame) => EventModel::Inbound(frame@),
            Event::Outbound { text, channel } => EventModel::Outbound {
                text: text@,
                channel: channel@,
            },
            Event::TransportLost => EventModel::TransportLost,
        }
    }
}

impl View for ChatEvent {
    type V = ChatEventModel;

    open spec fn view(&self) -> ChatEventModel {
        ChatEventModel {
            sender: self.sender@,
            channel: self.channel@,
            timestamp: self.timestamp,
            text: self.text@,
        }
    }
}

impl View for Action {
    type V = ActionModel;

    open spec fn view(&self) -> ActionModel {
        match self {
            Action::Open(address) => ActionModel::Open(address@),
            Action::Send(frame) => ActionModel::Send(frame@),
            Action::Deliver(event) => ActionModel::Deliver(event@),
            Action::Report(fault) => ActionModel::Report(*fault),
        }
    }
}

/// What a list of actions holds.
pub open spec fn action_views(actions: Seq<Action>) -> Seq<ActionModel> {
    actions.map_values(|a: Action| a@)
}

/// One connection's session: the local identity, its key pair, the
/// identifiers it gives out, and where the handshake stands.
pub struct Session {
    state: SessionState,
    identity: User,
    private_key: PrivateKey,
    ids: IdGenerator,
    chunk_size: usize,
    login: Vec<u8>,
}

impl View for Session {
    type V = SessionModel;

    closed spec fn view(&self) -> SessionModel {
        SessionModel {
            state: self.state@,
            identity: self.identity@,
            private_key: self.private_key@,
            last_id: self.ids@,
            chunk_size: self.chunk_size as nat,
            login: self.login@,
        }
    }
}

/// A list of one action.
fn only(action: Action) -> (actions: Vec<Action>)
    ensures
        action_views(actions@) == seq![action@],
{
    let mut actions: Vec<Action> = Vec::new();
    actions.push(action);
    assert(action_views(actions@) =~= seq![action@]);
    actions
}

/// An empty list of actions.
fn nothing() -> (actions: Vec<Action>)
    ensures
        action_views(actions@) == Seq::<ActionModel>::empty(),
{
    let actions: Vec<Action> = Vec::new();
    assert(action_views(actions@) =~= Seq::<ActionModel>::empty());
    actions
}

/// The frame of one chunk that was sealed already: a `Message` envelope with
/// this identifier around a chat payload of sender, channel and sealed body.
/// Fails with `Fault::Protocol` exactly when a name is too long to be
/// written or the payload too long for an envelope.
pub fn frame_message(sender: &str, channel: &str, sealed: Vec<u8>, id: u64) -> (frame: Result<
    Vec<u8>,
    Fault,
>)
    ensures
        match frame {
            Ok(bytes) => {
                &&& name_fits(sender@)
                &&& name_fits(channel@)
                &&& 8 + encode_utf8(sender@).len() + encode_utf8(channel@).len() + sealed@.len()
                    <= MAX_PAYLOAD_LEN
                &&& bytes@ == message_frame(sender@, channel@, sealed@, id)
            },
            Err(fault) => {
                &&& fault == Fault::Protocol
                &&& !(name_fits(sender@) && name_fits(channel@) && 8 + encode_utf8(sender@).len()
                    + encode_utf8(channel@).len() + sealed@.len() <= MAX_PAYLOAD_LEN)
            },
        },
{
    let payload = ChatPayload::new(sender.to_owned(), channel.to_owned(), sealed);
    match payload.to_bytes() {
        Err(fault) => Err(fault),
        Ok(bytes) => {
            proof {
                lemma_payload_len(payload@);
            }
            let envelope = Envelope { kind: EnvelopeType::Message, id, payload: bytes };
            envelope.encode()
        },
    }
}

/// Whether a text of `text_len` bytes can be sent under these names in
/// chunks of `chunk_size` bytes: whether the frame of its longest chunk fits
/// an envelope.
pub fn text_fits(sender: &str, channel: &str, text_len: usize, chunk_size: usize) -> (fits: bool)
    ensures
        fits == frames_fit(sender@, channel@, text_len as nat, chunk_size as nat),
{
    let sender_len: usize = sender.as_bytes().len();
    let channel_len: usize = channel.as_bytes().len();
    let longest: usize = if text_len < chunk_size {
        text_len
    } else {
        chunk_size
    };
    if sender_len > MAX_PAYLOAD_LEN || channel_len > MAX_PAYLOAD_LEN || longest
        > MAX_PAYLOAD_LEN {
        return false;
    }
    let total: u64 = 8 + sender_len as u64 + channel_len as u64 + longest as u64 + 16;
    total <= MAX_PAYLOAD_LEN as u64
}

/// What the presentation layer gets for a `Message` envelope whose body was,
/// or was not, opened: the chat message with the time that the envelope's
/// identifier carries, or the fault.
pub fn deliver(
    envelope_id: u64,
    sender: String,
    channel: String,
    opened: Result<Vec<u8>, Fault>,
) -> (action: Action)
    ensures
        action@ == delivery(envelope_id, sender@, channel@, bytes_result(opened)),
{
    match opened {
        Ok(text) => Action::Deliver(
            ChatEvent { sender, channel, timestamp: extract_timestamp(envelope_id), text },
        ),
        Err(fault) => Action::Report(fault),
    }
}

impl Session {
    #[verifier::type_invariant]
    spec fn well_formed(&self) -> bool {
        valid(self@)
    }

    /// A session, not yet connected, for an identity whose serialized form
    /// is `login`. The identity gets the public key that belongs to
    /// `private_key`. Fails with `Fault::Protocol` exactly when `login` is
    /// too long for an envelope.
    pub fn with_login(
        identity: User,
        private_key: PrivateKey,
        ids: IdGenerator,
        login: Vec<u8>,
    ) -> (session: Result<Session, Fault>)
        ensures
            match session {
                Ok(s) => {
                    &&& login@.len() <= MAX_PAYLOAD_LEN
                    &&& valid(s@)
                    &&& s@ == initial(
                        UserModel { public_key: x25519_public(private_key@), ..identity@ },
                        private_key@,
                        ids@,
                        login@,
                    )
                },
                Err(fault) => login@.len() > MAX_PAYLOAD_LEN && fault == Fault::Protocol,
            },
    {
        if login.len() > MAX_PAYLOAD_LEN {
            return Err(Fault::Protocol);
        }
        let mut identity = identity;
        let public_key = derive_public(&private_key);
        identity.set_public_key(public_key.to_bytes());
        Ok(
            Session {
                state: SessionState::Disconnected,
                identity,
                private_key,
                ids,
                chunk_size: DEFAULT_CHUNK_SIZE,
                login,
            },
        )
    }

    /// A session, not yet connected, for an identity. The identity gets the
    /// public key that belongs to `private_key` and is serialized for the
    /// session's `Login`. Fails with `Fault::Protocol` exactly when the
    /// name is too long to be serialized or the serialized identity is too
    /// long for an envelope; a name of up to `MAX_PAYLOAD_LEN - 84` bytes is
    /// never too long. The peer that reads the `Login` reads this identity.
    pub fn new(identity: User, private_key: PrivateKey, ids: IdGenerator) -> (session: Result<
        Session,
        Fault,
    >)
        ensures
            session is Ok <==> encode_utf8(identity.username@).len() <= MAX_FIELD_LEN
                && identity_msgpack(
                identity.id,
                identity.username@,
                x25519_public(private_key@),
            ).len() <= MAX_PAYLOAD_LEN,
            encode_utf8(identity.username@).len() + 84 <= MAX_PAYLOAD_LEN ==> session is Ok,
            match session {
                Ok(s) => {
                    &&& valid(s@)
                    &&& parsed_user(s@.login) == Some(s@.identity)
                    &&& s@ == initial(
                        UserModel { public_key: x25519_public(private_key@), ..identity@ },
                        private_key@,
                        ids@,
                        identity_msgpack(
                            identity.id,
                            identity.username@,
                            x25519_public(private_key@),
                        ),
                    )
                },
                Err(fault) => fault == Fault::Protocol,
            },
    {
        let mut identity = identity;
        let public_key = derive_public(&private_key);
        identity.set_public_key(public_key.to_bytes());
        match identity.to_bytes() {
            Some(login) => Session::with_login(identity, private_key, ids, login),
            None => Err(Fault::Protocol),
        }
    }

    /// Where the session stands.
    pub fn phase(&self) -> (phase: Phase)
        ensures
            phase == phase_of(self@.state),
    {
        match &self.state {
            SessionState::Disconnected => Phase::Disconnected,
            SessionState::Connecting => Phase::Connecting,
            SessionState::AwaitingPeerKey => Phase::AwaitingPeerKey,
            SessionState::Authenticated(_) => Phase::Authenticated,
            SessionState::Closed => Phase::Closed,
        }
    }

    /// The local identity.
    pub fn identity(&self) -> (identity: &User)
        ensures
            identity@ == self@.identity,
    {
        &self.identity
    }

    /// The secret that was agreed on, once the session is authenticated.
    pub fn shared_key(&self) -> (key: Option<Vec<u8>>)
        ensures
            match key {
                Some(k) => self@.state == StateModel::Authenticated(k@),
                None => !(self@.state is Authenticated),
            },
    {
        match &self.state {
            SessionState::Authenticated(secret) => Some(secret.to_bytes()),
            _ => None,
        }
    }

    /// The identifier that the session gave out last.
    pub fn last_id(&self) -> (last: u64)
        ensures
            last == self@.last_id,
    {
        self.ids.last_id()
    }

    /// The size of the pieces that outbound texts are split into.
    pub fn chunk_size(&self) -> (size: usize)
        ensures
            size == self@.chunk_size,
            0 < size <= MAX_CHUNK_SIZE,
    {
        proof {
            use_type_invariant(self);
        }
        self.chunk_size
    }

    /// Sets the size of the pieces that outbound texts are split into.
    /// Fails with `Fault::Protocol`, and changes nothing, exactly when the
    /// size is 0 or more than `MAX_CHUNK_SIZE`.
    pub fn set_chunk_size(&mut self, chunk_size: usize) -> (done: Result<(), Fault>)
        ensures
            match done {
                Ok(_) => 0 < chunk_size <= MAX_CHUNK_SIZE && final(self)@ == (SessionModel {
                    chunk_size: chunk_size as nat,
                    ..old(self)@
                }),
                Err(fault) => !(0 < chunk_size <= MAX_CHUNK_SIZE) && fault == Fault::Protocol
                    && final(self)@ == old(self)@,
            },
            valid(final(self)@),
    {
        proof {
            use_type_invariant(&*self);
        }
        if chunk_size == 0 || chunk_size > MAX_CHUNK_SIZE {
            return Err(Fault::Protocol);
        }
        self.chunk_size = chunk_size;
        Ok(())
    }

    /// Refuses a request that the state does not allow.
    fn refuse(&self) -> (actions: Vec<Action>)
        ensures
            action_views(actions@) == refused(self@).actions,
    {
        match &self.state {
            SessionState::Closed => only(Action::Report(Fault::Transport)),
            _ => only(Action::Report(Fault::Protocol)),
        }
    }

    /// Ends the session over a fault.
    fn abort(&mut self, fault: Fault) -> (actions: Vec<Action>)
        ensures
            final(self)@ == aborted(old(self)@, fault).next,
            action_views(actions@) == aborted(old(self)@, fault).actions,
    {
        proof {
            use_type_invariant(&*self);
        }
        self.state = SessionState::Closed;
        only(Action::Report(fault))
    }

    /// The local side asks to be connected to `address`.
    pub fn connect(&mut self, address: String) -> (actions: Vec<Action>)
        ensures
            final(self)@ == on_connect(old(self)@, address@).next,
            action_views(actions@) == on_connect(old(self)@, address@).actions,
            valid(final(self)@),
    {
        proof {
            use_type_invariant(&*self);
        }
        match &self.state {
            SessionState::Disconnected => {
                self.state = SessionState::Connecting;
                only(Action::Open(address))
            },
            _ => self.refuse(),
        }
    }

    /// The local side has accepted a connection, at a time when the clock
    /// reads `now`: the session greets the peer with its public key.
    pub fn accept_at(&mut self, now: Option<u64>) -> (actions: Vec<Action>)
        ensures
            final(self)@ == on_accept(old(self)@, now).next,
            action_views(actions@) == on_accept(old(self)@, now).actions,
            valid(final(self)@),
    {
        proof {
            use_type_invariant(&*self);
        }
        match &self.state {
            SessionState::Disconnected => {
                let id = self.ids.generate_at(now, IdKind::Message);
                let greeting = Envelope {
                    kind: EnvelopeType::ConnectionAccept,
                    id,
                    payload: self.identity.public_key.clone(),
                };
                assert(greeting.payload@ =~= self.identity.public_key@);
                self.state = SessionState::AwaitingPeerKey;
                match greeting.encode() {
                    Ok(frame) => only(Action::Send(frame)),
                    Err(fault) => only(Action::Report(fault)),
                }
            },
            _ => self.refuse(),
        }
    }

    /// The transport failed or was closed.
    pub fn transport_lost(&mut self) -> (actions: Vec<Action>)
        ensures
            final(self)@ == on_transport_lost(old(self)@).next,
            action_views(actions@) == on_transport_lost(old(self)@).actions,
            valid(final(self)@),
    {
        proof {
            use_type_invariant(&*self);
        }
        match &self.state {
            SessionState::Closed => nothing(),
            _ => self.abort(Fault::Transport),
        }
    }

    /// Ends the handshake of the connecting side, given what the key
    /// agreement came to: with a secret the session is authenticated and
    /// answers with its `Login`; without one it ends. In any state but
    /// `Connecting` and `AwaitingPeerKey` the call is refused.
    pub fn complete_connect(
        &mut self,
        agreement: Result<SharedSecret, Fault>,
        now: Option<u64>,
    ) -> (actions: Vec<Action>)
        ensures
            old(self)@.state is Connecting || old(self)@.state is AwaitingPeerKey ==> {
                &&& final(self)@ == connected(old(self)@, secret_result(agreement), now).next
                &&& action_views(actions@) == connected(
                    old(self)@,
                    secret_result(agreement),
                    now,
                ).actions
            },
            !(old(self)@.state is Connecting || old(self)@.state is AwaitingPeerKey) ==> {
                &&& final(self)@ == old(self)@
                &&& action_views(actions@) == refused(old(self)@).actions
            },
            valid(final(self)@),
    {
        proof {
            use_type_invariant(&*self);
        }
        match &self.state {
            SessionState::Connecting | SessionState::AwaitingPeerKey => {},
            _ => {
                return self.refuse();
            },
        }
        match agreement {
            Err(fault) => self.abort(fault),
            Ok(secret) => {
                let id = self.ids.generate_at(now, IdKind::Message);
                let login = Envelope {
                    kind: EnvelopeType::Login,
                    id,
                    payload: self.login.clone(),
                };
                assert(login.payload@ =~= self.login@);
                self.state = SessionState::Authenticated(secret);
                match login.encode() {
                    Ok(frame) => only(Action::Send(frame)),
                    Err(fault) => only(Action::Report(fault)),
                }
            },
        }
    }

    /// Ends the handshake of the accepting side, given what the key
    /// agreement came to: with a secret the session is authenticated;
    /// without one it ends. In any state but `AwaitingPeerKey` the call is
    /// refused.
    pub fn complete_accept(&mut self, agreement: Result<SharedSecret, Fault>) -> (actions: Vec<
        Action,
    >)
        ensures
            old(self)@.state is AwaitingPeerKey ==> {
                &&& final(self)@ == admitted(old(self)@, secret_result(agreement)).next
                &&& action_views(actions@) == admitted(
                    old(self)@,
                    secret_result(agreement),
                ).actions
            },
            !(old(self)@.state is AwaitingPeerKey) ==> {
                &&& final(self)@ == old(self)@
                &&& action_views(actions@) == refused(old(self)@).actions
            },
            valid(final(self)@),
    {
        proof {
            use_type_invariant(&*self);
        }
        match &self.state {
            SessionState::AwaitingPeerKey => {},
            _ => {
                return self.refuse();
            },
        }
        match agreement {
            Err(fault) => self.abort(fault),
            Ok(secret) => {
                self.state = SessionState::Authenticated(secret);
                nothing()
            },
        }
    }

    /// A frame arrived, at a time when the clock reads `now`.
    pub fn receive_at(&mut self, frame: &[u8], now: Option<u64>) -> (actions: Vec<Action>)
        ensures
            final(self)@ == on_inbound(old(self)@, frame@, now).next,
            action_views(actions@) == on_inbound(old(self)@, frame@, now).actions,
            valid(final(self)@),
    {
        proof {
            use_type_invariant(&*self);
        }
        let envelope = Envelope::decode(frame);
        match &self.state {
            SessionState::Connecting => match envelope.kind {
                EnvelopeType::ConnectionAccept => {
                    self.state = SessionState::AwaitingPeerKey;
                    let agreement = derive_shared(&self.private_key, envelope.payload.as_slice());
                    self.complete_connect(agreement, now)
                },
                _ => nothing(),
            },
            SessionState::AwaitingPeerKey => match envelope.kind {
                EnvelopeType::Login => match User::parse(envelope.payload.as_slice()) {
                    Some(peer) => {
                        let agreement = derive_shared(
                            &self.private_key,
                            peer.public_key.as_slice(),
                        );
                        self.complete_accept(agreement)
                    },
                    None => self.abort(Fault::Protocol),
                },
                _ => nothing(),
            },
            SessionState::Authenticated(secret) => match envelope.kind {
                EnvelopeType::Message => match ChatPayload::from_bytes(
                    envelope.payload.as_slice(),
                ) {
                    Ok(payload) => {
                        let opened = decrypt(payload.body.as_slice(), secret);
                        only(
                            deliver(envelope.id, payload.sender_name, payload.channel_name, opened),
                        )
                    },
                    Err(fault) => only(Action::Report(fault)),
                },
                _ => nothing(),
            },
            _ => nothing(),
        }
    }

    /// The presentation layer asks for `text` to be sent to `channel`, at a
    /// time when the clock reads `now`.
    ///
    /// What an authenticated session sends carries the text, where its
    /// frames fit an envelope: whoever holds the session's secret opens the
    /// frames, in their order, to the chunks of the text, none longer than
    /// the chunk size, and the chunks put together are the text.
    pub fn send_at(&mut self, text: &[u8], channel: &str, now: Option<u64>) -> (actions: Vec<
        Action,
    >)
        ensures
            final(self)@ == on_outbound(old(self)@, text@, channel@, now).next,
            action_views(actions@) == on_outbound(old(self)@, text@, channel@, now).actions,
            outbound_carried(old(self)@, text@, channel@, action_views(actions@)),
            valid(final(self)@),
    {
        proof {
            use_type_invariant(&*self);
        }
        let secret = match &self.state {
            SessionState::Authenticated(secret) => secret.clone(),
            _ => {
                return self.refuse();
            },
        };
        if !text_fits(self.identity.username.as_str(), channel, text.len(), self.chunk_size) {
            return only(Action::Report(Fault::Protocol));
        }
        let chunks = split(text, self.chunk_size);
        let ghost start = self@;
        let ghost all = byte_views(chunks@);
        let ghost sender = self.identity.username@;
        let mut actions: Vec<Action> = nothing();
        let mut i: usize = 0;
        assert(all.skip(0) =~= all);
        while i < chunks.len()
            invariant
                i <= chunks.len(),
                all == byte_views(chunks@),
                all == chunks_of(text@, start.chunk_size),
                valid(start),
                start.state == StateModel::Authenticated(secret@),
                sender == start.identity.username,
                frames_fit(sender, channel@, text@.len(), start.chunk_size),
                self@ == (SessionModel { last_id: self.ids@, ..start }),
                action_views(actions@) + outbound_frames(
                    sender,
                    channel@,
                    secret@,
                    all.skip(i as int),
                    self.ids@,
                    now,
                ) == outbound_frames(sender, channel@, secret@, all, start.last_id, now),
                last_id_after(self.ids@, now, (all.len() - i) as nat) == last_id_after(
                    start.last_id,
                    now,
                    all.len(),
                ),
                actions@.len() == i,
                forall|j: int|
                    0 <= j < i ==> received_text(#[trigger] action_views(actions@)[j], secret@)
                        == Some(all[j]),
            decreases chunks.len() - i,
        {
            let ghost rest = all.skip(i as int);
            let ghost before = action_views(actions@);
            let ghost last = self.ids@;
            proof {
                lemma_chunks_bounded(text@, start.chunk_size, i as int);
                assert(rest[0] == chunks@[i as int]@);
                assert(rest.drop_first() =~= all.skip(i + 1));
            }
            let id = self.ids.generate_at(now, IdKind::Message);
            let action = match encrypt(chunks[i].as_slice(), &secret) {
                Ok(sealed) => {
                    proof {
                        lemma_frame_opens(secret@, sender, channel@, sealed@, id, all[i as int]);
                    }
                    match frame_message(self.identity.username.as_str(), channel, sealed, id) {
                        Ok(frame) => Action::Send(frame),
                        Err(fault) => Action::Report(fault),
                    }
                },
                Err(fault) => Action::Report(fault),
            };
            assert(received_text(action@, secret@) == Some(all[i as int]));
            actions.push(action);
            i += 1;
            proof {
                assert(action_views(actions@) =~= before.push(action@));
                assert(before.push(action@) + outbound_frames(
                    sender,
                    channel@,
                    secret@,
                    all.skip(i as int),
                    id,
                    now,
                ) =~= before + outbound_frames(sender, channel@, secret@, rest, last, now));
            }
        }
        proof {
            lemma_chunks_carried(action_views(actions@), secret@, text@, start.chunk_size);
        }
        actions
    }

    /// Takes one event, at a time when the clock reads `now`, and says what
    /// is to be done.
    pub fn step_at(&mut self, event: Event, now: Option<u64>) -> (actions: Vec<Action>)
        ensures
            final(self)@ == step_of(old(self)@, event@, now).next,
            action_views(actions@) == step_of(old(self)@, event@, now).actions,
            event_carried(old(self)@, event@, action_views(actions@)),
            valid(final(self)@),
    {
        match event {
            Event::Connect(address) => self.connect(address),
            Event::Accept => self.accept_at(now),
            Event::Inbound(frame) => self.receive_at(frame.as_slice(), now),
            Event::Outbound { text, channel } => self.send_at(
                text.as_slice(),
                channel.as_str(),
                now,
            ),
            Event::TransportLost => self.transport_lost(),
        }
    }

    /// Takes one event and says what is to be done. The identifiers of what
    /// is sent are made of the current time.
    pub fn step(&mut self, event: Event) -> (actions: Vec<Action>)
        ensures
            exists|now: Option<u64>|
                final(self)@ == step_of(old(self)@, event@, now).next && action_views(actions@)
                    == step_of(old(self)@, event@, now).actions,
            event_carried(old(self)@, event@, action_views(actions@)),
            valid(final(self)@),
    {
        let now = clock_millis();
        self.step_at(event, now)
    }
}

} // verus!
