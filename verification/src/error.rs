use vstd::prelude::*;

verus! {

/// Errors of the session-management service surface.
#[derive(Debug, Clone, PartialEq, Eq)]
pub enum ServerError {
    CreatePeerConnectionError(String),
    GetStatsError(String, String),
    InternalError(String),
    InvalidSessionError(String),
    InvalidStateError(String),
    InvalidTimeStampError(String),
    ParseError(String),
}

/// Errors of the signaling gateway, a closed taxonomy: every failure of the
/// offer/candidate/answer pipeline is reported as one of these kinds, never
/// as a raw library error.
#[derive(Debug, Clone, PartialEq, Eq)]
pub enum OfferWebSocketError {
    /// An inbound signaling message did not have the shape the current
    /// message state expects.
    ParseFailed,
    /// An outbound signaling message could not be serialized.
    SerializeFailed,
    /// The inbound WebSocket message type is not usable in the current state.
    InvalidMessage,
    /// The offer SDP could not be parsed, or lacks a required attribute.
    InvalidSDP(String),
    /// The ICE agent could not be configured.
    InvalidAgentConfig,
    /// Candidate gathering failed.
    GatheringError,
    /// Writing to the WebSocket sink failed.
    WebSocketWriteError,
    /// Any other failure, with a diagnostic detail.
    InternalError(String),
    /// The DTLS handshake negotiated no SRTP protection profile.
    NoProtectionProfile,
    /// The negotiated SRTP protection profile is not one this gateway knows.
    InvalidProtectionProfile,
}

} // verus!
