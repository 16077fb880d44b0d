//! Protocol engine of an end-to-end encrypted chat carried over a relay.
//!
//! A client and the accepting side of a connection agree on a secret with
//! one X25519 key pair each, and then exchange chat messages whose bodies
//! are sealed under that secret. This crate holds everything that both ends
//! share, and nothing that touches a socket, a file or a screen:
//!
//! * [`id`]: identifiers that grow strictly and carry their time,
//! * [`user`]: a participant's identity,
//! * [`envelope`] and [`payload`]: the two layouts on the wire,
//! * [`keys`] and [`cipher`]: key agreement and the symmetric cipher,
//! * [`chunker`]: the splitting of outbound texts,
//! * [`protocol`] and [`session`]: the state machine of one connection, as
//!   mathematics and as code.

pub mod chunker;
pub mod cipher;
pub mod envelope;
pub mod fault;
pub mod id;
pub mod keys;
pub mod payload;
pub mod protocol;
pub mod session;
pub mod user;
pub mod wire;
