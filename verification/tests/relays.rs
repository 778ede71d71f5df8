use volcano::packet::params::{RTCRtpCodecCapability, RTCRtpCodecParameters, RTPCodecType};
use volcano::rtc::relay::error::Error;
use volcano::rtc::relay::peer::{receive, CloseStep, IceRole, Outcome, Peer, PeerMeta};

fn peer() -> Peer {
    Peer::new(PeerMeta { peer_id: "peer".to_owned(), room_id: "room".to_owned() })
}

#[test]
fn requests_leave_nothing_behind() {
    let mut peer = peer();
    let first = peer.request(1);
    let second = peer.request(2);
    assert_eq!(first.len(), 26);
    assert!(first != second);
    assert_eq!(peer.pending_requests.len(), 2);
    let answered = Outcome::Answered(Some(vec![1, 2]));
    assert_eq!(peer.request_done(&first, answered).ok(), Some(vec![1, 2]));
    assert!(matches!(
        peer.request_done(&second, Outcome::Timeout),
        Err(Error::ErrRelayRequestTimeout)
    ));
    assert!(peer.pending_requests.is_empty());
    peer.open_request("id".to_owned(), 3);
    assert!(matches!(
        peer.request_done("id", Outcome::Answered(None)),
        Err(Error::ErrRelayRequestEmptyRespose)
    ));
}

#[test]
fn signals_are_answered_once() {
    let mut peer = peer();
    assert!(matches!(peer.answer(false), Err(Error::ErrRelayPeerSignalDone)));
    assert_eq!(peer.ice_role, IceRole::Unspecified);
    assert!(peer.answer(true).is_ok());
    assert_eq!(peer.ice_role, IceRole::Controlled);
    peer.start();
    assert!(peer.ready);
}

#[test]
fn transports_are_stopped_in_order() {
    let mut peer = peer();
    peer.track_added(10, 1);
    peer.receiver_started(2);
    peer.on_close();
    assert_eq!(
        peer.close(),
        vec![
            CloseStep::StopSender(1),
            CloseStep::StopReceiver(2),
            CloseStep::StopSctp,
            CloseStep::StopDtls,
            CloseStep::StopIce,
            CloseStep::Tell,
        ]
    );
}

#[test]
fn tracks_are_received_by_source_and_layer() {
    let reception = receive("video/VP8", 7, "f".to_owned());
    assert_eq!(reception.codec_type, RTPCodecType::Video);
    assert_eq!(reception.encodings.len(), 2);
    assert_eq!(reception.encodings[0].ssrc, 7);
    assert_eq!(reception.encodings[1].rid, "f");
    assert_eq!(receive("text/plain", 0, String::new()).encodings.len(), 1);

    let capability = RTCRtpCodecCapability {
        mime_type: "video/VP8".to_owned(),
        clock_rate: 90_000,
        channels: 0,
        sdp_fmtp_line: String::new(),
        rtcp_feedback: vec![],
    };
    let codec = RTCRtpCodecParameters { capability, payload_type: 96 };
    let signal = peer().add_track("s".to_owned(), "t".to_owned(), codec, 9, 96);
    assert_eq!(signal.encodings.ssrc, 9);
    assert_eq!(signal.encodings.payload_type, 96);
    assert_eq!(signal.track_meta.track_id, "t");
}

#[test]
fn relay_errors_have_messages() {
    assert_eq!(Error::ErrRelayPeerNotReady.message(), "relay peer is not ready");
    assert_eq!(Error::ErrRelayPeerSignalDone.message(), "relay peer signal already called");
    assert_eq!(
        Error::ErrRelaySignalDCNotReady.message(),
        "relay peer data channel is not ready"
    );
    assert_eq!(Error::ErrRelaySendDataFailed.message(), "relay peer send data failed");
    assert_eq!(Error::ErrRelayRequestTimeout.message(), "relay request timeout");
    assert_eq!(Error::ErrRelayRequestEmptyRespose.message(), "relay request empty response");
}
