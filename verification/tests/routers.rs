use volcano::packet::params::{
    RTCRtpCodecCapability, RTCRtpCodecParameters, RTCRtpParameters, RTPCodecType,
};
use volcano::peer::streams::StreamTracks;
use volcano::rtc::config::RouterConfig;
use volcano::session::room::RoomEvent;
use volcano::track::error::Error;
use volcano::track::router::{DownTrackPlan, LocalRouter, RemoteTrack, RtcpEvent, RtcpStep};

fn codec(mime: &str) -> RTCRtpCodecParameters {
    RTCRtpCodecParameters {
        capability: RTCRtpCodecCapability {
            mime_type: mime.to_owned(),
            clock_rate: 48_000,
            channels: 0,
            sdp_fmtp_line: String::new(),
            rtcp_feedback: vec![],
        },
        payload_type: 96,
    }
}

fn track(id: &str, rid: &str, ssrc: u32, mime: &str, kind: RTPCodecType) -> RemoteTrack {
    RemoteTrack {
        id: id.to_owned(),
        rid: rid.to_owned(),
        stream_id: "stream".to_owned(),
        ssrc,
        kind,
        codec: codec(mime),
    }
}

fn agreed(mime: &str) -> RTCRtpParameters {
    RTCRtpParameters { header_extensions: vec![], codecs: vec![codec(mime)] }
}

fn router() -> LocalRouter {
    let mut config = RouterConfig::default();
    config.max_packet_track = 100;
    config.audio_level_interval = 100;
    config.audio_level_threshold = 70;
    config.audio_level_filter = 50;
    LocalRouter::new("router".to_owned(), "room".to_owned(), config)
}

#[test]
fn receivers_are_published_once() {
    let mut router = router();
    router.register_on_add_receiver_track();
    router.register_on_del_receiver_track();
    assert!(router.on_del_receiver_track);
    let video = |rid: &str, ssrc: u32| track("v", rid, ssrc, "video/VP8", RTPCodecType::Video);
    let first = router.add_receiver(
        video("q", 1),
        "v".to_owned(),
        "stream".to_owned(),
        &agreed("video/VP8"),
        0,
    );
    assert_eq!(first.receiver, "v");
    assert!(first.published);
    assert!(first.tells);
    assert_eq!(first.layer, Some(0));
    let second = router.add_receiver(
        video("f", 2),
        "v".to_owned(),
        "stream".to_owned(),
        &agreed("video/VP8"),
        0,
    );
    assert!(!second.published);
    assert_eq!(second.layer, Some(2));
    assert_eq!(router.receivers.len(), 1);
    assert_eq!(router.receivers.get("v").unwrap().ssrc(2), 2);
    assert_eq!(router.add_down_tracks(false, None), vec!["v".to_owned()]);
    assert!(router.add_down_tracks(true, None).is_empty());
    assert_eq!(router.add_down_tracks(false, Some("x".to_owned())), vec!["x".to_owned()]);
}

#[test]
fn down_tracks_are_sent() {
    let mut router = router();
    router.add_receiver(
        track("v", "", 1, "video/VP8", RTPCodecType::Video),
        "v".to_owned(),
        "stream".to_owned(),
        &agreed("video/VP8"),
        0,
    );
    let mut subscribed = StreamTracks::new();
    assert!(matches!(
        router.plan_down_track("x", &subscribed),
        Err(Error::ErrNoReceiverFound)
    ));
    let mut numbers = vec![41, 42];
    while let Some(number) = numbers.pop() {
        let local = match router.plan_down_track("v", &subscribed) {
            Ok(DownTrackPlan::Create(local)) => local,
            _ => panic!("a track was to be created"),
        };
        assert_eq!(local.id, "v");
        assert_eq!(local.stream_id, "stream");
        let sent = router.add_down_track(
            "sub".to_owned(),
            &mut subscribed,
            "v",
            local,
            5,
            &vec![0, 6],
            number,
            0,
        );
        // The first track of a stream opens the stream, and the receiver has it from there on: it
        // does not take the second one, which counts as sent all the same
        assert!(sent.is_ok());
        let layers = &router.receivers.get("v").unwrap().layers;
        assert_eq!(layers[0].as_ref().unwrap().down_tracks.len(), 1);
        assert_eq!(subscribed.get_tracks("stream").unwrap().len(), (42 - number) as usize);
    }
    assert_eq!(subscribed.find("stream", "v"), Some(41));
    assert!(matches!(
        router.plan_down_track("v", &subscribed),
        Ok(DownTrackPlan::Exists(41))
    ));
    assert!(router.down_track_closed(&mut subscribed, "stream", "v", true));
    assert_eq!(subscribed.find("stream", "v"), None);
}

#[test]
fn voices_are_heard() {
    let mut router = router();
    router.add_receiver(
        track("a", "", 1, "audio/opus", RTPCodecType::Audio),
        "a".to_owned(),
        "stream".to_owned(),
        &agreed("audio/opus"),
        0,
    );
    for _ in 0..3 {
        router.observe_level("stream", true, 20);
    }
    match router.start_audio_observer_task() {
        Some(RoomEvent::VoiceActivity { room_id, stream_ids }) => {
            assert_eq!(room_id, "room");
            assert_eq!(stream_ids, vec!["stream".to_owned()]);
        }
        _ => panic!("a voice was to be heard"),
    }
    assert!(router.start_audio_observer_task().is_none());
    router.receiver_closed(RTPCodecType::Audio, "stream");
    assert!(router.audio_observer.is_empty());
}

#[test]
fn sender_reports_reach_the_buffers() {
    let mut router = router();
    router.add_receiver(
        track("v", "", 1, "video/VP8", RTPCodecType::Video),
        "v".to_owned(),
        "stream".to_owned(),
        &agreed("video/VP8"),
        0,
    );
    let mut raw = vec![0x80, 200, 0, 6, 0, 0, 0, 1];
    raw.extend_from_slice(&[0, 0, 0, 0, 0, 0, 0, 9]);
    raw.extend_from_slice(&[0, 0, 0, 8]);
    raw.extend_from_slice(&[0; 8]);
    assert!(router.read_reports(1, &raw, 7));
    let buffer = router.buffer_factory.get_rtp_buffer(1).unwrap();
    assert_eq!(buffer.get_sender_report_data(), (8, 9, 7));
    assert!(!router.read_reports(1, &[1, 2, 3], 7));
}

/// Feedback on how 65535 packets arrived: eight runs of the longest kind, and one more chunk.
fn arrivals(last: [u8; 2]) -> Vec<u8> {
    let mut raw = vec![0x8F, 205, 0, 9, 0, 0, 0, 1, 0, 0, 0, 2, 0, 0, 0xFF, 0xFF, 0, 0, 0, 0];
    for _ in 0..8 {
        raw.extend_from_slice(&[0x1F, 0xFF]);
    }
    raw.extend_from_slice(&last);
    raw.extend_from_slice(&[0, 0]);
    raw
}

#[test]
fn sender_reports_are_read_behind_long_feedback() {
    let report = [
        0x80, 200, 0, 6, 0, 0, 0, 1, 0, 0, 0, 0, 0, 0, 0, 9, 0, 0, 0, 8, 0, 0, 0, 0, 0, 0, 0, 0,
    ];
    // A last run of 7 packets, a list of 7 packets, and a list of 14 packets, with which there are
    // more packets than can be counted
    for (last, read) in [([0x00, 0x07], true), ([0xC0, 0x00], true), ([0x80, 0x00], false)] {
        let mut router = router();
        router.add_receiver(
            track("v", "", 1, "video/VP8", RTPCodecType::Video),
            "v".to_owned(),
            "stream".to_owned(),
            &agreed("video/VP8"),
            0,
        );
        let mut raw = arrivals(last);
        assert_eq!(raw.len(), 40);
        raw.extend_from_slice(&report);
        assert_eq!(router.read_reports(1, &raw, 7), read);
        let buffer = router.buffer_factory.get_rtp_buffer(1).unwrap();
        assert_eq!(buffer.get_sender_report_data(), if read { (8, 9, 7) } else { (0, 0, 0) });
    }
}

#[test]
fn rtcp_is_written_while_it_can_be() {
    let mut router = router();
    assert_eq!(router.id(), "router");
    assert_eq!(router.send_rtcp(RtcpEvent::Packets), RtcpStep::Continue);
    router.set_rtcp_writer();
    assert_eq!(router.send_rtcp(RtcpEvent::Packets), RtcpStep::Write);
    assert_eq!(router.send_rtcp(RtcpEvent::Stop), RtcpStep::Stop);
}
