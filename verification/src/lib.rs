//! Core of a store-and-forward relay for end-to-end-encrypted messages.
//!
//! The library verifies the four components that make up the relay's logic:
//! request authentication against a device's identity key (`auth`), the
//! asynchronous key-exchange handshake between two devices (`handshake`),
//! mailbox fan-out and deliver-once retrieval (`mailbox`), and the
//! change-notification fan-out to connected clients (`realtime`). The
//! relational store the relay persists into is modelled by `store::RelayState`;
//! callers that keep rows elsewhere mirror these transitions.

pub mod auth;
pub mod codec;
pub mod crypto;
pub mod errors;
pub mod handshake;
pub mod mailbox;
pub mod models;
pub mod node_keys;
pub mod realtime;
pub mod store;
