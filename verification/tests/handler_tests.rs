use rtc_gateway::error::OfferWebSocketError;
use rtc_gateway::handler::{
    connect_role, HandlerAction, HandshakeRole, InboundMessage, ProxyHandler, ProxyMessageState,
};
use rtc_gateway::keys::NegotiatedProfile;
use rtc_gateway::sdp::ActiveMode;

fn offer_message(setup: &str) -> InboundMessage {
    let text = format!(
        "v=0\r\nm=video 9 RTP 96\r\na=ice-ufrag:abc\r\na=ice-pwd:xyz123456789\r\na=setup:{}\r\n",
        setup
    );
    InboundMessage {
        sdp: Some(text.as_bytes().to_vec()),
        candidate: None,
    }
}

fn candidate_message(candidate: &str) -> InboundMessage {
    InboundMessage {
        sdp: None,
        candidate: Some(candidate.as_bytes().to_vec()),
    }
}

fn fingerprint() -> Vec<u8> {
    b"AB:CD".to_vec()
}

#[test]
fn it_maps_setup_to_the_connect_role() {
    // Setup-driven role: active means this gateway dials ICE and plays
    // DTLS client; passive and actpass mean it accepts and serves.
    assert_eq!(connect_role(&ActiveMode::Active), HandshakeRole::Client);
    assert_eq!(connect_role(&ActiveMode::Passive), HandshakeRole::Server);
    assert_eq!(
        connect_role(&ActiveMode::ActivePassive),
        HandshakeRole::Server
    );
}

#[test]
fn it_rejects_a_candidate_before_any_offer() {
    // State machine rejects out-of-order input: a candidate-shaped message
    // in the offer state is an error, not a crash, and changes nothing.
    let mut h = ProxyHandler::new();
    let r = h.handle_message(candidate_message("candidate:1"), fingerprint());
    assert!(matches!(r, Err(OfferWebSocketError::InvalidMessage)));
    assert_eq!(h.message_state, ProxyMessageState::Offer);
    // a valid offer is still accepted afterwards
    let r = h.handle_message(offer_message("actpass"), fingerprint());
    assert!(matches!(r, Ok(HandlerAction::StartHandshake)));
    assert_eq!(h.message_state, ProxyMessageState::Candidate);
}

#[test]
fn it_rejects_a_malformed_offer() {
    let mut h = ProxyHandler::new();
    let msg = InboundMessage {
        sdp: Some(b"no version line".to_vec()),
        candidate: None,
    };
    let r = h.handle_message(msg, fingerprint());
    assert!(matches!(r, Err(OfferWebSocketError::InvalidSDP(_))));
    assert_eq!(h.message_state, ProxyMessageState::Offer);
    assert!(h.sdp_config.is_none());
}

#[test]
fn it_accepts_an_offer_and_stores_its_config() {
    let mut h = ProxyHandler::new();
    let r = h.handle_message(offer_message("actpass"), fingerprint());
    assert!(matches!(r, Ok(HandlerAction::StartHandshake)));
    let cfg = h.get_sdp_config().unwrap();
    assert_eq!(cfg.remote_ice_username, b"abc".to_vec());
    assert_eq!(cfg.remote_ice_password, b"xyz123456789".to_vec());
    assert_eq!(cfg.active_mode, ActiveMode::ActivePassive);
    assert_eq!(cfg.fingerprint, fingerprint());
}

#[test]
fn it_forwards_a_nonempty_candidate() {
    let mut h = ProxyHandler::new();
    h.handle_message(offer_message("actpass"), fingerprint())
        .unwrap();
    let r = h.handle_message(candidate_message("candidate:1 1 udp 1 1.2.3.4 5 typ host"),
        fingerprint());
    match r {
        Ok(HandlerAction::AddRemoteCandidate(c)) => {
            assert_eq!(c, b"candidate:1 1 udp 1 1.2.3.4 5 typ host".to_vec());
        }
        _ => panic!("expected the candidate to be forwarded"),
    }
    assert_eq!(h.message_state, ProxyMessageState::Candidate);
}

#[test]
fn it_connects_exactly_once_on_the_empty_candidate_marker() {
    // Scenario: the empty-string candidate in Candidate state moves the
    // session to CandidatesEnd and triggers answer synthesis and the ICE
    // connect exactly once; duplicate markers are ignored.
    let mut h = ProxyHandler::new();
    h.handle_message(offer_message("actpass"), fingerprint())
        .unwrap();
    let r = h.handle_message(candidate_message(""), fingerprint());
    assert!(matches!(
        r,
        Ok(HandlerAction::ConnectAndRead(HandshakeRole::Server))
    ));
    assert_eq!(h.message_state, ProxyMessageState::CandidatesEnd);
    // a duplicate marker is ignored
    let r = h.handle_message(candidate_message(""), fingerprint());
    assert!(matches!(r, Ok(HandlerAction::Ignore)));
    assert_eq!(h.message_state, ProxyMessageState::CandidatesEnd);
}

#[test]
fn it_ignores_a_second_offer_after_candidates_end() {
    // State machine rejects out-of-order input: an offer arriving after
    // CandidatesEnd is ignored.
    let mut h = ProxyHandler::new();
    h.handle_message(offer_message("actpass"), fingerprint())
        .unwrap();
    h.handle_message(candidate_message(""), fingerprint())
        .unwrap();
    let r = h.handle_message(offer_message("active"), fingerprint());
    assert!(matches!(r, Ok(HandlerAction::Ignore)));
    assert_eq!(h.message_state, ProxyMessageState::CandidatesEnd);
}

#[test]
fn it_dials_as_client_for_an_active_offer() {
    // Setup-driven role over the whole flow: a=setup:active makes the
    // gateway the ICE dialer and DTLS client.
    let mut h = ProxyHandler::new();
    h.handle_message(offer_message("active"), fingerprint())
        .unwrap();
    let r = h.handle_message(candidate_message(""), fingerprint());
    assert!(matches!(
        r,
        Ok(HandlerAction::ConnectAndRead(HandshakeRole::Client))
    ));
}

#[test]
fn it_builds_the_answer_from_the_stored_offer() {
    let mut h = ProxyHandler::new();
    h.handle_message(offer_message("actpass"), fingerprint())
        .unwrap();
    let ans = h
        .create_answer(b"localuser".to_vec(), b"localpass".to_vec())
        .unwrap();
    let text = rtc_gateway::sdp::marshal_sdp(&ans);
    let text = String::from_utf8(text).unwrap();
    assert!(text.contains("a=setup:active"));
    assert!(text.contains("a=ice-ufrag:localuser"));
    assert!(text.contains("a=ice-pwd:localpass"));
    assert!(!text.contains("abc"));
    assert!(!text.contains("xyz123456789"));
}

#[test]
fn it_refuses_an_answer_before_an_offer() {
    let h = ProxyHandler::new();
    let r = h.create_answer(b"u".to_vec(), b"p".to_vec());
    assert!(matches!(r, Err(OfferWebSocketError::InternalError(_))));
}

#[test]
fn it_errors_on_the_marker_without_a_configuration() {
    // The driving loop moved the state forward but no offer was configured:
    // the connect order cannot be given.
    let mut h = ProxyHandler::new();
    h.message_state = ProxyMessageState::Candidate;
    let r = h.handle_message(candidate_message(""), fingerprint());
    assert!(matches!(r, Err(OfferWebSocketError::InternalError(_))));
    assert_eq!(h.message_state, ProxyMessageState::CandidatesEnd);
}

#[test]
fn it_stores_the_protection_profile_from_exported_material() {
    let mut h = ProxyHandler::new();
    let material: Vec<u8> = (0u8..64).collect();
    h.extract_srtp_info(Some(NegotiatedProfile::Aes128CmSha1_80), &material)
        .unwrap();
    let p = h.get_protection_profile().unwrap();
    let mut server: Vec<u8> = (16u8..32).collect();
    server.extend(46u8..60);
    assert_eq!(p.server_key, server);
}

#[test]
fn it_reports_missing_and_unknown_profiles() {
    let mut h = ProxyHandler::new();
    let material: Vec<u8> = (0u8..64).collect();
    let r = h.extract_srtp_info(None, &material);
    assert!(matches!(r, Err(OfferWebSocketError::NoProtectionProfile)));
    let r = h.extract_srtp_info(Some(NegotiatedProfile::Unrecognized), &material);
    assert!(matches!(
        r,
        Err(OfferWebSocketError::InvalidProtectionProfile)
    ));
    assert!(h.get_protection_profile().is_err());
}
