//! A verified core for an append-only, cryptographically authenticated
//! messaging stream.
//!
//! A publisher (the author) and any number of subscribers exchange a
//! topologically ordered sequence of messages over an untrusted,
//! unordered, content-addressed transport. Message addresses derive
//! deterministically from an evolving per-publisher cursor; message bodies
//! are wrapped and unwrapped through a duplex sponge that chains secret
//! state across messages; participants are authenticated by Ed25519
//! signatures and pre-shared keys; and a reorder-tolerant reader
//! reassembles the stream in parent-before-child order.
//!
//! The layers, leaves first: [`sponge`] (the duplex construction),
//! [`ddml`] (the schema-driven codec), [`id`] and [`address`] (participants
//! and deterministic addressing), [`message`] (the wire schemas),
//! [`transport`] (the medium port), [`user`] (the per-user state machine)
//! and [`messages`] (the reader).

#![allow(unused_imports)]

pub mod address;
pub mod ddml;
pub mod error;
pub mod id;
pub mod message;
pub mod messages;
pub mod sponge;
pub mod transport;
pub mod user;
