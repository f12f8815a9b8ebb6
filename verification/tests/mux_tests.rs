use rtc_gateway::mux::{match_range, match_srtp, take_read, MatchRange, Mux, RecvOutcome};

fn dtls_range() -> MatchRange {
    MatchRange {
        lower: 20,
        upper: 63,
    }
}

fn srtp_range() -> MatchRange {
    MatchRange {
        lower: 128,
        upper: 191,
    }
}

#[test]
fn it_delivers_each_packet_to_the_matching_endpoint_in_order() {
    // Mux demultiplexing determinism: packets go to exactly one endpoint,
    // the first registered match, in receipt order.
    let mut mux = Mux::new();
    let dtls = mux.new_endpoint(dtls_range());
    let srtp = mux.new_endpoint(srtp_range());

    assert_eq!(mux.dispatch(vec![22, 1, 2, 3]), Some(dtls));
    assert_eq!(mux.dispatch(vec![128, 0, 0, 0]), Some(srtp));
    assert_eq!(mux.dispatch(vec![63, 9]), Some(dtls));

    match mux.recv(dtls) {
        RecvOutcome::Packet(p) => assert_eq!(p, vec![22, 1, 2, 3]),
        _ => panic!("expected the first dtls packet"),
    }
    match mux.recv(dtls) {
        RecvOutcome::Packet(p) => assert_eq!(p, vec![63, 9]),
        _ => panic!("expected the second dtls packet"),
    }
    assert!(matches!(mux.recv(dtls), RecvOutcome::Empty));
    match mux.recv(srtp) {
        RecvOutcome::Packet(p) => assert_eq!(p, vec![128, 0, 0, 0]),
        _ => panic!("expected the srtp packet"),
    }
}

#[test]
fn it_prefers_the_first_registered_endpoint_among_overlapping_matches() {
    let mut mux = Mux::new();
    let first = mux.new_endpoint(MatchRange {
        lower: 0,
        upper: 255,
    });
    let second = mux.new_endpoint(MatchRange {
        lower: 0,
        upper: 255,
    });
    assert_eq!(mux.dispatch(vec![42]), Some(first));
    assert!(matches!(mux.recv(second), RecvOutcome::Empty));
    assert!(matches!(mux.recv(first), RecvOutcome::Packet(_)));
}

#[test]
fn it_drops_a_packet_no_endpoint_matches() {
    // Unmatched packet is dropped: delivered to no endpoint.
    let mut mux = Mux::new();
    let dtls = mux.new_endpoint(dtls_range());
    let srtp = mux.new_endpoint(srtp_range());
    assert_eq!(mux.dispatch(vec![200, 1]), None);
    assert_eq!(mux.dispatch(vec![]), None);
    assert!(matches!(mux.recv(dtls), RecvOutcome::Empty));
    assert!(matches!(mux.recv(srtp), RecvOutcome::Empty));
}

#[test]
fn it_closes_an_endpoint_idempotently() {
    let mut mux = Mux::new();
    let dtls = mux.new_endpoint(dtls_range());
    let srtp = mux.new_endpoint(srtp_range());
    assert_eq!(mux.dispatch(vec![30]), Some(dtls));
    mux.close(dtls);
    assert!(matches!(mux.recv(dtls), RecvOutcome::Closed));
    mux.close(dtls);
    assert!(matches!(mux.recv(dtls), RecvOutcome::Closed));
    // a closed endpoint no longer matches; the packet is dropped here
    assert_eq!(mux.dispatch(vec![30]), None);
    // the other endpoint still works
    assert_eq!(mux.dispatch(vec![130, 0, 0, 0]), Some(srtp));
}

#[test]
fn it_matches_first_bytes_against_a_range() {
    let r = MatchRange {
        lower: 20,
        upper: 63,
    };
    assert!(match_range(&r, &vec![20]));
    assert!(match_range(&r, &vec![63, 200]));
    assert!(!match_range(&r, &vec![19]));
    assert!(!match_range(&r, &vec![64]));
    assert!(!match_range(&r, &vec![]));
}

#[test]
fn it_classifies_rtp_and_rtcp() {
    // RTP: first byte in [128, 191], second byte not an RTCP packet type.
    assert!(match_srtp(&vec![128, 96, 0, 1]));
    assert!(match_srtp(&vec![191, 0, 0, 0]));
    // RTCP: second byte in [192, 223]
    assert!(!match_srtp(&vec![128, 200, 0, 1]));
    assert!(!match_srtp(&vec![129, 192, 0, 0]));
    // outside the media range entirely
    assert!(!match_srtp(&vec![22, 96, 0, 1]));
    assert!(!match_srtp(&vec![]));
}

#[test]
fn it_reads_at_most_one_datagram_up_to_the_limit() {
    let packet = vec![1u8, 2, 3, 4, 5];
    assert_eq!(take_read(&packet, 3), vec![1, 2, 3]);
    assert_eq!(take_read(&packet, 5), vec![1, 2, 3, 4, 5]);
    assert_eq!(take_read(&packet, 100), vec![1, 2, 3, 4, 5]);
    assert_eq!(take_read(&packet, 0), Vec::<u8>::new());
}
