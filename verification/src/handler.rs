use vstd::prelude::*;
use crate::error::OfferWebSocketError;
use crate::keys::{
    extract_protection_profile, profile_choice, spec_client_block, spec_key_len, spec_salt_len,
    spec_server_block, NegotiatedProfile, ProtectionProfile,
};
use crate::sdp::{
    key_ice_pwd, key_ice_ufrag, key_setup, mode_of_setup, scan_media, spec_create_answer,
    spec_parse_lines, spec_sdp_ok, spec_split_lines, ActiveMode, SdpConfig, SessionDescription,
};

verus! {

/// Which signaling payload the session expects next.  Strictly monotonic:
/// `Offer` to `Candidate` to `CandidatesEnd`, never back.
#[derive(Debug, Clone, Copy, PartialEq, Eq, Structural)]
pub enum ProxyMessageState {
    Offer,
    Candidate,
    CandidatesEnd,
}

/// Where ICE work stands.  Informational; later logic branches on the
/// `a=setup` role, not on this.
#[derive(Debug, Clone, Copy, PartialEq, Eq, Structural)]
pub enum ProxyAgentState {
    New,
    Gathering,
    ICEReady,
}

/// This gateway's role in connectivity and key exchange: the client dials
/// ICE and plays the DTLS client; the server accepts ICE and plays the DTLS
/// server.
#[derive(Debug, Clone, Copy, PartialEq, Eq, Structural)]
pub enum HandshakeRole {
    Client,
    Server,
}

/// The setup-driven role: `a=setup:active` makes this gateway dial ICE and
/// play DTLS client; `passive` and `actpass` make it accept ICE and play
/// DTLS server.
pub open spec fn spec_connect_role(mode: ActiveMode) -> HandshakeRole {
    match mode {
        ActiveMode::Active => HandshakeRole::Client,
        ActiveMode::Passive => HandshakeRole::Server,
        ActiveMode::ActivePassive => HandshakeRole::Server,
    }
}

/// The role the offer's `a=setup` mode assigns to this gateway.
pub fn connect_role(mode: &ActiveMode) -> (r: HandshakeRole)
    ensures
        r == spec_connect_role(*mode),
{
    match mode {
        ActiveMode::Active => HandshakeRole::Client,
        ActiveMode::Passive => HandshakeRole::Server,
        ActiveMode::ActivePassive => HandshakeRole::Server,
    }
}

/// Setup-driven role, end to end: the role this gateway takes for an offer
/// is decided by the offer's last `a=setup` value alone — `active` makes it
/// dial ICE and play DTLS client, `passive` and `actpass` (and, leniently,
/// anything unrecognized) make it accept ICE and play DTLS server.
pub proof fn lemma_setup_driven_role(setup_value: Seq<u8>)
    ensures
        setup_value == crate::sdp::val_active() ==> spec_connect_role(mode_of_setup(setup_value))
            is Client,
        setup_value != crate::sdp::val_active() ==> spec_connect_role(mode_of_setup(setup_value))
            is Server,
{
}

/// One inbound signaling message after JSON decoding: the two fields the
/// wire protocol may carry.  Which one must be present depends on the
/// session's current message state.
pub struct InboundMessage {
    pub sdp: Option<Vec<u8>>,
    pub candidate: Option<Vec<u8>>,
}

/// What the surrounding program must do after a message is handled.
pub enum HandlerAction {
    /// A valid offer was accepted: create the ICE agent, start gathering,
    /// and stream each gathered candidate to the peer.
    StartHandshake,
    /// Hand this remote candidate to the ICE agent.  A malformed candidate
    /// is logged and dropped there, never fatal.
    AddRemoteCandidate(Vec<u8>),
    /// The end-of-candidates marker arrived: send the answer, perform the
    /// ICE connect and DTLS handshake in this role, derive the SRTP keys,
    /// and enter the read loop.
    ConnectAndRead(HandshakeRole),
    /// Nothing; messages after the exchange is complete are ignored.
    Ignore,
}

/// One signaling session's state machine: the message state, the ICE agent
/// state, and the values handed from step to step.  The surrounding program
/// owns the I/O; every decision is made here.
pub struct ProxyHandler {
    pub message_state: ProxyMessageState,
    pub ice_state: ProxyAgentState,
    pub offer: Option<SessionDescription>,
    pub sdp_config: Option<SdpConfig>,
    pub protection_profile: Option<ProtectionProfile>,
}

/// The whole effect of handling an offer text: on a parseable offer with
/// both ICE credentials and a `setup` attribute, the session stores the
/// offer and its configuration, moves to candidate exchange and starts
/// gathering; a document that does not parse changes nothing; one that
/// parses but lacks a required attribute has already moved the message
/// state forward (as the driving loop does) but stores nothing.
pub open spec fn offer_transition(
    pre: ProxyHandler,
    post: ProxyHandler,
    sdp_text: Seq<u8>,
    fingerprint: Seq<u8>,
    r: Result<HandlerAction, OfferWebSocketError>,
) -> bool {
    let parse_ok = spec_sdp_ok(sdp_text);
    let offer = spec_parse_lines(spec_split_lines(sdp_text));
    let media = offer.media_descriptions;
    let cfg_ok = scan_media(media, key_ice_ufrag()) is Some && scan_media(media, key_ice_pwd())
        is Some && scan_media(media, key_setup()) is Some;
    match r {
        Ok(action) => {
            &&& parse_ok
            &&& cfg_ok
            &&& action is StartHandshake
            &&& post.message_state is Candidate
            &&& post.ice_state is Gathering
            &&& (match post.offer {
                Some(o) => o@ == offer,
                None => false,
            })
            &&& (match post.sdp_config {
                Some(c) => {
                    &&& scan_media(media, key_ice_ufrag()) == Some(c.remote_ice_username@)
                    &&& scan_media(media, key_ice_pwd()) == Some(c.remote_ice_password@)
                    &&& (match scan_media(media, key_setup()) {
                        Some(v) => c.active_mode == mode_of_setup(v),
                        None => false,
                    })
                    &&& c.fingerprint@ == fingerprint
                },
                None => false,
            })
            &&& post.protection_profile == pre.protection_profile
        },
        Err(e) => {
            &&& e is InvalidSDP
            &&& !(parse_ok && cfg_ok)
            &&& (if parse_ok {
                post.message_state is Candidate
            } else {
                post.message_state == pre.message_state
            })
            &&& post.ice_state == pre.ice_state
            &&& post.offer == pre.offer
            &&& post.sdp_config == pre.sdp_config
            &&& post.protection_profile == pre.protection_profile
        },
    }
}

/// The whole effect of handling a candidate payload.  A non-empty candidate
/// is handed on to the ICE agent and nothing changes.  The empty string is
/// the end-of-candidates marker: the session moves to `CandidatesEnd` and,
/// when an offer was configured, orders the connect; without a
/// configuration that order cannot be given.
pub open spec fn candidate_transition(
    pre: ProxyHandler,
    post: ProxyHandler,
    candidate: Seq<u8>,
    r: Result<HandlerAction, OfferWebSocketError>,
) -> bool {
    match r {
        Ok(action) => {
            &&& (candidate.len() == 0 ==> {
                &&& pre.sdp_config is Some
                &&& post.message_state is CandidatesEnd
                &&& (match pre.sdp_config {
                    Some(c) => action == HandlerAction::ConnectAndRead(
                        spec_connect_role(c.active_mode),
                    ),
                    None => false,
                })
            })
            &&& (candidate.len() > 0 ==> {
                &&& post.message_state == pre.message_state
                &&& (match action {
                    HandlerAction::AddRemoteCandidate(c) => c@ == candidate,
                    _ => false,
                })
            })
            &&& post.ice_state == pre.ice_state
            &&& post.offer == pre.offer
            &&& post.sdp_config == pre.sdp_config
            &&& post.protection_profile == pre.protection_profile
        },
        Err(e) => {
            &&& candidate.len() == 0
            &&& pre.sdp_config is None
            &&& e is InternalError
            &&& post.message_state is CandidatesEnd
            &&& post.ice_state == pre.ice_state
            &&& post.offer == pre.offer
            &&& post.sdp_config == pre.sdp_config
            &&& post.protection_profile == pre.protection_profile
        },
    }
}

impl ProxyHandler {
    /// A fresh session: an offer is expected first, nothing is stored yet.
    pub fn new() -> (h: ProxyHandler)
        ensures
            h.message_state is Offer,
            h.ice_state is New,
            h.offer is None,
            h.sdp_config is None,
            h.protection_profile is None,
    {
        ProxyHandler {
            message_state: ProxyMessageState::Offer,
            ice_state: ProxyAgentState::New,
            offer: None,
            sdp_config: None,
            protection_profile: None,
        }
    }

    /// Handles the offer text of the first signaling message.
    pub fn handle_offer(&mut self, sdp_text: &Vec<u8>, fingerprint: Vec<u8>) -> (r: Result<
        HandlerAction,
        OfferWebSocketError,
    >)
        ensures
            offer_transition(*old(self), *final(self), sdp_text@, fingerprint@, r),
    {
        let offer = match crate::sdp::unmarshal_sdp(sdp_text) {
            Ok(o) => o,
            Err(e) => {
                return Err(e);
            },
        };
        self.message_state = ProxyMessageState::Candidate;
        let cfg = match crate::sdp::parse_sdp_config(&offer, fingerprint) {
            Ok(c) => c,
            Err(e) => {
                return Err(e);
            },
        };
        self.sdp_config = Some(cfg);
        self.offer = Some(offer);
        self.ice_state = ProxyAgentState::Gathering;
        Ok(HandlerAction::StartHandshake)
    }

    /// Handles a candidate payload: a remote candidate line, or the empty
    /// end-of-candidates marker.
    ///
    /// The answer is deliberately sent on receipt of the remote's
    /// end-of-candidates marker — not on local gathering completion, which
    /// only gates when the gathered candidates are streamed out.
    pub fn handle_candidate(&mut self, candidate: &Vec<u8>) -> (r: Result<
        HandlerAction,
        OfferWebSocketError,
    >)
        ensures
            candidate_transition(*old(self), *final(self), candidate@, r),
    {
        if candidate.len() == 0 {
            self.message_state = ProxyMessageState::CandidatesEnd;
            let role = match &self.sdp_config {
                Some(cfg) => connect_role(&cfg.active_mode),
                None => {
                    return Err(
                        OfferWebSocketError::InternalError(String::from_str("NoSdpConfig")),
                    );
                },
            };
            return Ok(HandlerAction::ConnectAndRead(role));
        }
        Ok(HandlerAction::AddRemoteCandidate(crate::bytes::copy_bytes(candidate)))
    }

    /// Dispatches one inbound signaling message by the current message
    /// state.  A message without the field that state expects is
    /// `InvalidMessage` and changes nothing; anything arriving after the
    /// exchange completed is ignored.
    pub fn handle_message(&mut self, msg: InboundMessage, fingerprint: Vec<u8>) -> (r: Result<
        HandlerAction,
        OfferWebSocketError,
    >)
        ensures
            old(self).message_state is CandidatesEnd ==> r == Ok::<
                HandlerAction,
                OfferWebSocketError,
            >(HandlerAction::Ignore) && *final(self) == *old(self),
            (old(self).message_state is Offer && msg.sdp is None) ==> r == Err::<
                HandlerAction,
                OfferWebSocketError,
            >(OfferWebSocketError::InvalidMessage) && *final(self) == *old(self),
            (old(self).message_state is Candidate && msg.candidate is None) ==> r == Err::<
                HandlerAction,
                OfferWebSocketError,
            >(OfferWebSocketError::InvalidMessage) && *final(self) == *old(self),
            (old(self).message_state is Offer && msg.sdp is Some) ==> (match msg.sdp {
                Some(t) => offer_transition(*old(self), *final(self), t@, fingerprint@, r),
                None => false,
            }),
            (old(self).message_state is Candidate && msg.candidate is Some) ==> (match msg.candidate {
                Some(c) => candidate_transition(*old(self), *final(self), c@, r),
                None => false,
            }),
    {
        match self.message_state {
            ProxyMessageState::Offer => {
                match msg.sdp {
                    Some(text) => self.handle_offer(&text, fingerprint),
                    None => Err(OfferWebSocketError::InvalidMessage),
                }
            },
            ProxyMessageState::Candidate => {
                match msg.candidate {
                    Some(c) => self.handle_candidate(&c),
                    None => Err(OfferWebSocketError::InvalidMessage),
                }
            },
            ProxyMessageState::CandidatesEnd => Ok(HandlerAction::Ignore),
        }
    }

    /// The parsed configuration, once an offer was accepted.
    pub fn get_sdp_config(&self) -> (r: Result<&SdpConfig, OfferWebSocketError>)
        ensures
            match r {
                Ok(c) => self.sdp_config == Some(*c),
                Err(e) => self.sdp_config is None && e is InternalError,
            },
    {
        match &self.sdp_config {
            Some(c) => Ok(c),
            None => Err(OfferWebSocketError::InternalError(String::from_str("NoSdpConfig"))),
        }
    }

    /// The derived SRTP keys, once the DTLS handshake completed.
    pub fn get_protection_profile(&self) -> (r: Result<&ProtectionProfile, OfferWebSocketError>)
        ensures
            match r {
                Ok(p) => self.protection_profile == Some(*p),
                Err(e) => self.protection_profile is None && e is InternalError,
            },
    {
        match &self.protection_profile {
            Some(p) => Ok(p),
            None => Err(
                OfferWebSocketError::InternalError(
                    String::from_str("failed to get protection profile"),
                ),
            ),
        }
    }

    /// Synthesizes the answer to the stored offer, with the gateway's local
    /// ICE credentials; an answer can only be built after an offer was
    /// accepted.
    pub fn create_answer(&self, local_username: Vec<u8>, local_password: Vec<u8>) -> (r: Result<
        SessionDescription,
        OfferWebSocketError,
    >)
        ensures
            match r {
                Ok(ans) => (match (self.offer, self.sdp_config) {
                    (Some(o), Some(c)) => ans@ == spec_create_answer(
                        o@,
                        local_username@,
                        local_password@,
                        c.active_mode,
                        c.fingerprint@,
                    ),
                    _ => false,
                }),
                Err(e) => (self.offer is None || self.sdp_config is None) && e is InternalError,
            },
    {
        let offer = match &self.offer {
            Some(o) => o,
            None => {
                return Err(
                    OfferWebSocketError::InternalError(String::from_str("CreateAnswerError")),
                );
            },
        };
        let cfg = match &self.sdp_config {
            Some(c) => c,
            None => {
                return Err(OfferWebSocketError::InternalError(String::from_str("NoSdpConfig")));
            },
        };
        Ok(
            crate::sdp::create_answer(
                offer,
                local_username,
                local_password,
                &cfg.active_mode,
                &cfg.fingerprint,
            ),
        )
    }

    /// Reads the DTLS layer's negotiated-profile report and the exported
    /// keying material into this session's protection profile.
    pub fn extract_srtp_info(
        &mut self,
        selected: Option<NegotiatedProfile>,
        material: &Vec<u8>,
    ) -> (r: Result<(), OfferWebSocketError>)
        requires
            material@.len() >= 60,
        ensures
            match r {
                Ok(_) => {
                    &&& (match final(self).protection_profile {
                        Some(p) => {
                            &&& selected == Some(profile_choice(p.kind))
                            &&& p.client_key@ == spec_client_block(
                                material@,
                                spec_key_len(p.kind),
                                spec_salt_len(p.kind),
                            )
                            &&& p.server_key@ == spec_server_block(
                                material@,
                                spec_key_len(p.kind),
                                spec_salt_len(p.kind),
                            )
                        },
                        None => false,
                    })
                    &&& final(self).message_state == old(self).message_state
                    &&& final(self).ice_state == old(self).ice_state
                    &&& final(self).offer == old(self).offer
                    &&& final(self).sdp_config == old(self).sdp_config
                },
                Err(e) => {
                    &&& *final(self) == *old(self)
                    &&& (match selected {
                        None => e == OfferWebSocketError::NoProtectionProfile,
                        Some(c) => c is Unrecognized && e
                            == OfferWebSocketError::InvalidProtectionProfile,
                    })
                },
            },
    {
        match extract_protection_profile(selected, material) {
            Ok(p) => {
                self.protection_profile = Some(p);
                Ok(())
            },
            Err(e) => Err(e),
        }
    }
}

} // verus!
