use rtc_gateway::error::OfferWebSocketError;
use rtc_gateway::sdp::{
    create_answer, marshal_sdp, parse_sdp_config, unmarshal_sdp, ActiveMode, Attribute,
    MediaDescription, SdpLine, SessionDescription,
};

fn offer_text() -> Vec<u8> {
    let text = "v=0\r\n\
                o=- 123 2 IN IP4 127.0.0.1\r\n\
                s=-\r\n\
                t=0 0\r\n\
                m=video 9 UDP/TLS/RTP/SAVPF 96\r\n\
                a=ice-ufrag:abc\r\n\
                a=ice-pwd:xyz123456789\r\n\
                a=setup:actpass\r\n\
                a=sendrecv\r\n\
                a=fingerprint:sha-256 AA:BB\r\n\
                m=audio 9 UDP/TLS/RTP/SAVPF 111\r\n\
                a=ice-ufrag:abc\r\n\
                a=ice-pwd:xyz123456789\r\n\
                a=setup:actpass\r\n\
                a=sendonly\r\n";
    text.as_bytes().to_vec()
}

fn attr_values<'a>(section: &'a MediaDescription, key: &str) -> Vec<Option<&'a [u8]>> {
    let mut out = Vec::new();
    for line in &section.lines {
        if let SdpLine::Attribute(a) = line {
            if a.key == key.as_bytes() {
                out.push(a.value.as_deref());
            }
        }
    }
    out
}

#[test]
fn it_parses_an_offer_into_sections() {
    let sdp = unmarshal_sdp(&offer_text()).unwrap();
    assert_eq!(sdp.session_lines.len(), 4);
    assert_eq!(sdp.media_descriptions.len(), 2);
    assert_eq!(
        sdp.media_descriptions[0].media_line,
        b"m=video 9 UDP/TLS/RTP/SAVPF 96".to_vec()
    );
    assert_eq!(sdp.media_descriptions[0].lines.len(), 5);
    assert_eq!(sdp.media_descriptions[1].lines.len(), 4);
}

#[test]
fn it_parses_attributes_and_bare_attributes() {
    let sdp = unmarshal_sdp(&offer_text()).unwrap();
    let video = &sdp.media_descriptions[0];
    assert_eq!(attr_values(video, "ice-ufrag"), vec![Some(b"abc".as_slice())]);
    assert_eq!(attr_values(video, "sendrecv"), vec![None]);
    assert_eq!(
        attr_values(video, "fingerprint"),
        vec![Some(b"sha-256 AA:BB".as_slice())]
    );
}

#[test]
fn it_rejects_text_without_version_line() {
    let r = unmarshal_sdp(&b"hello world\r\n".to_vec());
    assert!(matches!(r, Err(OfferWebSocketError::InvalidSDP(_))));
    let r = unmarshal_sdp(&Vec::new());
    assert!(matches!(r, Err(OfferWebSocketError::InvalidSDP(_))));
}

#[test]
fn it_marshals_what_it_parsed() {
    let text = offer_text();
    let sdp = unmarshal_sdp(&text).unwrap();
    assert_eq!(marshal_sdp(&sdp), text);
}

#[test]
fn it_parses_sdp_config_from_an_offer() {
    // Scenario: two media sections, actpass, ice-ufrag abc / ice-pwd
    // xyz123456789: the parse succeeds with ActivePassive.
    let sdp = unmarshal_sdp(&offer_text()).unwrap();
    let cfg = parse_sdp_config(&sdp, b"AB:CD".to_vec()).unwrap();
    assert_eq!(cfg.remote_ice_username, b"abc".to_vec());
    assert_eq!(cfg.remote_ice_password, b"xyz123456789".to_vec());
    assert_eq!(cfg.active_mode, ActiveMode::ActivePassive);
    assert_eq!(cfg.fingerprint, b"AB:CD".to_vec());
}

#[test]
fn it_parses_active_and_passive_setup() {
    for (setup, mode) in [
        ("active", ActiveMode::Active),
        ("passive", ActiveMode::Passive),
        ("actpass", ActiveMode::ActivePassive),
        ("holdconn", ActiveMode::ActivePassive),
    ] {
        let text = format!(
            "v=0\r\nm=video 9 RTP 96\r\na=ice-ufrag:u\r\na=ice-pwd:p\r\na=setup:{}\r\n",
            setup
        );
        let sdp = unmarshal_sdp(&text.as_bytes().to_vec()).unwrap();
        let cfg = parse_sdp_config(&sdp, Vec::new()).unwrap();
        assert_eq!(cfg.active_mode, mode);
    }
}

#[test]
fn it_takes_the_last_occurrence_of_a_credential() {
    let text = "v=0\r\nm=video 9 RTP 96\r\na=ice-ufrag:first\r\na=setup:actpass\r\n\
                a=ice-pwd:p\r\nm=audio 9 RTP 111\r\na=ice-ufrag:second\r\n";
    let sdp = unmarshal_sdp(&text.as_bytes().to_vec()).unwrap();
    let cfg = parse_sdp_config(&sdp, Vec::new()).unwrap();
    assert_eq!(cfg.remote_ice_username, b"second".to_vec());
}

#[test]
fn it_rejects_an_offer_missing_ice_username() {
    let text = "v=0\r\nm=video 9 RTP 96\r\na=ice-pwd:p\r\na=setup:actpass\r\n";
    let sdp = unmarshal_sdp(&text.as_bytes().to_vec()).unwrap();
    let r = parse_sdp_config(&sdp, Vec::new());
    assert!(matches!(r, Err(OfferWebSocketError::InvalidSDP(_))));
}

#[test]
fn it_rejects_an_offer_missing_ice_password() {
    let text = "v=0\r\nm=video 9 RTP 96\r\na=ice-ufrag:u\r\na=setup:actpass\r\n";
    let sdp = unmarshal_sdp(&text.as_bytes().to_vec()).unwrap();
    let r = parse_sdp_config(&sdp, Vec::new());
    assert!(matches!(r, Err(OfferWebSocketError::InvalidSDP(_))));
}

#[test]
fn it_rejects_an_offer_missing_setup() {
    let text = "v=0\r\nm=video 9 RTP 96\r\na=ice-ufrag:u\r\na=ice-pwd:p\r\n";
    let sdp = unmarshal_sdp(&text.as_bytes().to_vec()).unwrap();
    let r = parse_sdp_config(&sdp, Vec::new());
    assert!(matches!(r, Err(OfferWebSocketError::InvalidSDP(_))));
}

#[test]
fn it_creates_an_answer_with_rewritten_attributes() {
    // Scenario: the generated answer has a=setup:active in both sections and
    // the gateway's own credentials, never abc / xyz123456789.
    let sdp = unmarshal_sdp(&offer_text()).unwrap();
    let ans = create_answer(
        &sdp,
        b"localuser".to_vec(),
        b"localpass".to_vec(),
        &ActiveMode::ActivePassive,
        &b"AB:CD".to_vec(),
    );
    assert_eq!(ans.media_descriptions.len(), 2);
    assert_eq!(ans.session_lines.len(), sdp.session_lines.len());
    for (i, section) in ans.media_descriptions.iter().enumerate() {
        assert_eq!(section.media_line, sdp.media_descriptions[i].media_line);
        assert_eq!(
            attr_values(section, "setup"),
            vec![Some(b"active".as_slice())]
        );
        assert_eq!(
            attr_values(section, "ice-ufrag"),
            vec![Some(b"localuser".as_slice())]
        );
        assert_eq!(
            attr_values(section, "ice-pwd"),
            vec![Some(b"localpass".as_slice())]
        );
    }
    // sendrecv and sendonly both became bare recvonly
    assert_eq!(attr_values(&ans.media_descriptions[0], "sendrecv"), vec![]);
    assert_eq!(
        attr_values(&ans.media_descriptions[0], "recvonly"),
        vec![None]
    );
    assert_eq!(attr_values(&ans.media_descriptions[1], "sendonly"), vec![]);
    assert_eq!(
        attr_values(&ans.media_descriptions[1], "recvonly"),
        vec![None]
    );
    // the fingerprint is the gateway's, prefixed sha-256
    assert_eq!(
        attr_values(&ans.media_descriptions[0], "fingerprint"),
        vec![Some(b"sha-256 AB:CD".as_slice())]
    );
}

#[test]
fn it_flips_setup_active_to_passive_in_the_answer() {
    let text = "v=0\r\nm=video 9 RTP 96\r\na=setup:active\r\n";
    let sdp = unmarshal_sdp(&text.as_bytes().to_vec()).unwrap();
    let ans = create_answer(
        &sdp,
        b"u".to_vec(),
        b"p".to_vec(),
        &ActiveMode::Active,
        &b"F".to_vec(),
    );
    assert_eq!(
        attr_values(&ans.media_descriptions[0], "setup"),
        vec![Some(b"passive".as_slice())]
    );
}

#[test]
fn it_passes_unknown_attributes_through_unchanged() {
    let text = "v=0\r\nm=video 9 RTP 96\r\na=mid:0\r\nc=IN IP4 0.0.0.0\r\n";
    let sdp = unmarshal_sdp(&text.as_bytes().to_vec()).unwrap();
    let ans = create_answer(
        &sdp,
        b"u".to_vec(),
        b"p".to_vec(),
        &ActiveMode::Passive,
        &b"F".to_vec(),
    );
    assert_eq!(
        attr_values(&ans.media_descriptions[0], "mid"),
        vec![Some(b"0".as_slice())]
    );
    assert!(ans.media_descriptions[0]
        .lines
        .iter()
        .any(|l| matches!(l, SdpLine::Other(t) if t == b"c=IN IP4 0.0.0.0")));
}

#[test]
fn it_marshals_attributes_with_and_without_values() {
    let sdp = SessionDescription {
        session_lines: vec![SdpLine::Other(b"v=0".to_vec())],
        media_descriptions: vec![MediaDescription {
            media_line: b"m=video 9 RTP 96".to_vec(),
            lines: vec![
                SdpLine::Attribute(Attribute {
                    key: b"recvonly".to_vec(),
                    value: None,
                }),
                SdpLine::Attribute(Attribute {
                    key: b"mid".to_vec(),
                    value: Some(b"0".to_vec()),
                }),
            ],
        }],
    };
    let out = marshal_sdp(&sdp);
    assert_eq!(
        out,
        b"v=0\r\nm=video 9 RTP 96\r\na=recvonly\r\na=mid:0\r\n".to_vec()
    );
}

#[test]
fn it_parses_what_it_marshals() {
    let sdp = SessionDescription {
        session_lines: vec![
            SdpLine::Other(b"v=0".to_vec()),
            SdpLine::Other(b"s=-".to_vec()),
            SdpLine::Attribute(Attribute {
                key: b"group".to_vec(),
                value: Some(b"BUNDLE 0 1".to_vec()),
            }),
        ],
        media_descriptions: vec![MediaDescription {
            media_line: b"m=video 9 UDP/TLS/RTP/SAVPF 96".to_vec(),
            lines: vec![
                SdpLine::Attribute(Attribute {
                    key: b"recvonly".to_vec(),
                    value: None,
                }),
                SdpLine::Other(b"c=IN IP4 0.0.0.0".to_vec()),
            ],
        }],
    };
    let text = marshal_sdp(&sdp);
    let back = unmarshal_sdp(&text).unwrap();
    assert_eq!(marshal_sdp(&back), text);
    assert_eq!(back.session_lines.len(), 3);
    assert_eq!(back.media_descriptions.len(), 1);
    assert_eq!(back.media_descriptions[0].lines.len(), 2);
    assert!(matches!(
        &back.media_descriptions[0].lines[0],
        SdpLine::Attribute(a) if a.key == b"recvonly" && a.value.is_none()
    ));
}
