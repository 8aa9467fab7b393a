//! Peer-to-peer connections that are set up through a small signaling server.
//!
//! One peer registers its offer with the server and gets a connection code; another one that knows
//! the code fetches the offer and sends its answer. This library holds what both peers and the
//! server decide and compute. It does no I/O: whoever uses it carries out the actions that it asks
//! for and tells it what came of them.
//!
//! - [`text`]: lines, prefixes and white space.
//! - [`codec`]: what other crates do: Base64, Zstandard, JSON, UTF-8, SDP.
//! - [`description`]: session descriptions and the text in which they are exchanged.
//! - [`event_stream`]: the stream in which the server answers a registration.
//! - [`p2p`]: the events, the messages and the end of a connection.
//! - [`negotiation`]: the steps to an offer or an answer.
//! - [`connect`]: the requests to the server.
//! - [`signaling`]: the server.
//! - [`chat`]: a chat over a connection.

pub mod chat;
pub mod codec;
pub mod connect;
pub mod description;
pub mod event_stream;
pub mod negotiation;
pub mod p2p;
pub mod signaling;
pub mod text;
