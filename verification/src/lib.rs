//! A WebRTC signaling-and-transport gateway core.
//!
//! The library covers the protocol logic of the gateway: the signaling state
//! machine that drives offer, candidate exchange and answer; SDP parsing and
//! answer synthesis; the packet demultiplexer that splits one unreliable
//! connection into logical sub-streams by first-byte classification; and the
//! SRTP key derivation from DTLS exported keying material.  All I/O (the
//! WebSocket channel, the ICE agent, the DTLS handshake itself) lives in the
//! surrounding program, which calls into these verified functions for every
//! decision and transformation.

pub mod bytes;
pub mod config;
pub mod error;
pub mod handler;
pub mod helpers;
pub mod keys;
pub mod mux;
pub mod sdp;
