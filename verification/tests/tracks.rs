use volcano::buffer::bucket::Bucket;
use volcano::buffer::codec::VP8;
use volcano::packet::buffer::ExtPacket;
use volcano::packet::factory::AtomicFactory;
use volcano::packet::nack::NackPair;
use volcano::packet::params::{
    RTCPFeedback, RTCRtpCodecCapability, RTCRtpCodecParameters, RTPCodecType,
};
use volcano::packet::rtp::{Header, Packet};
use volcano::track::downtrack::{
    codec_parameters_fuzzy_search, DownTrack, DownTrackInfo, DownTrackType, Forwarded, RtxEncoding,
};
use volcano::track::error::{ConfigError, ConfigErrorValue, Error};
use volcano::track::feedback::{make_answer, FirEntry, RtcpPacket};
use volcano::track::receive::ReadEvent;
use volcano::track::receiver::{
    ingestion_step, IngestionEvent, IngestionStep, ReceiverLayer, WebRTCReceiver,
};
use volcano::track::sequencer::{AtomicSequencer, PacketMeta};
use volcano::track::simulcast::spatial_layer;

fn capability(mime: &str) -> RTCRtpCodecCapability {
    RTCRtpCodecCapability {
        mime_type: mime.to_owned(),
        clock_rate: 90_000,
        channels: 0,
        sdp_fmtp_line: String::new(),
        rtcp_feedback: vec![],
    }
}

fn codec(mime: &str, payload_type: u8) -> RTCRtpCodecParameters {
    RTCRtpCodecParameters { capability: capability(mime), payload_type }
}

fn track(id: &str, mime: &str) -> DownTrack {
    DownTrack::new(
        capability(mime),
        id.to_owned(),
        String::new(),
        "stream".to_owned(),
        "cname".to_owned(),
        100,
        0,
    )
}

fn bound_track(id: &str, mime: &str) -> DownTrack {
    let mut dt = track(id, mime);
    assert_eq!(dt.down_track_local.bind(77, &vec![codec(mime, 96)]).ok(), Some(0));
    dt
}

fn ext(sn: u16, timestamp: u32, ssrc: u32, key_frame: bool, head: bool) -> ExtPacket {
    let header = Header {
        version: 2,
        padding: false,
        extension: false,
        marker: false,
        payload_type: 100,
        sequence_number: sn,
        timestamp,
        ssrc,
        csrc: vec![],
        extension_profile: 0,
        extensions: vec![],
        extensions_padding: 0,
    };
    ExtPacket {
        head,
        cycle: 0,
        arrival: 1_000_000_000,
        packet: Packet { header, payload: vec![0x10, 0x00, 1] },
        key_frame,
        payload: VP8::default(),
    }
}

fn receiver() -> WebRTCReceiver {
    WebRTCReceiver::new(
        "peer".to_owned(),
        "track".to_owned(),
        String::new(),
        "stream".to_owned(),
        codec("video/VP8", 96),
        RTPCodecType::Video,
    )
}

#[test]
fn pushed_packets_are_sent_again() {
    let mut sequencer = AtomicSequencer::new(4);
    assert!(sequencer.push(10, 110, 1, 0, true).is_none());
    sequencer.push(12, 112, 3, 0, true);
    // A late packet: the next one is known already
    assert_eq!(sequencer.push(11, 111, 2, 0, false).unwrap().source_seq_no, 12);
    let sent = sequencer.get_seq_no_pairs(&[110, 111, 112, 113], 1_000);
    let sources: Vec<u16> = sent.iter().map(|meta| meta.source_seq_no).collect();
    assert_eq!(sources, vec![10, 11, 12]);
    // Not at once
    assert!(sequencer.get_seq_no_pairs(&[110], 1_100).is_empty());
    assert_eq!(sequencer.get_seq_no_pairs(&[110], 1_101).len(), 1);
    // Too old
    sequencer.push(14, 114, 4, 0, true);
    assert!(sequencer.get_seq_no_pairs(&[110], 9_000).is_empty());
    assert_eq!(sequencer.get_seq_no_pairs(&[111], 9_000).len(), 1);
}

#[test]
fn vp8_parts_are_kept() {
    let mut meta = PacketMeta::default();
    meta.set_vp8_payload_meta(200, 40_000);
    assert_eq!(meta.get_vp8_payload_meta(), (200, 40_000));
}

#[test]
fn layers_are_named() {
    assert_eq!(spatial_layer("q"), 0);
    assert_eq!(spatial_layer("h"), 1);
    assert_eq!(spatial_layer("f"), 2);
    assert_eq!(spatial_layer(""), 0);
    assert_eq!(DownTrackType::SimpleDownTrack.name(), "Simple");
    assert_eq!(DownTrackType::SimulcastDownTrack.name(), "Simulcast");
    assert_eq!(DownTrackInfo::default().last_ssrc, 0);
}

#[test]
fn codecs_are_found_by_their_name() {
    let haystack = vec![codec("audio/opus", 111), codec("video/vp8", 96)];
    assert_eq!(codec_parameters_fuzzy_search(&capability("video/VP8"), &haystack), Some(1));
    assert_eq!(codec_parameters_fuzzy_search(&capability("video/H264"), &haystack), None);
    let mut exact = codec("video/vp8", 97);
    exact.capability.sdp_fmtp_line = "profile".to_owned();
    exact.capability.rtcp_feedback =
        vec![RTCPFeedback { typ: "nack".to_owned(), parameter: String::new() }];
    let mut needle = capability("video/VP8");
    needle.sdp_fmtp_line = "profile".to_owned();
    let haystack = vec![codec("video/vp8", 96), exact];
    assert_eq!(codec_parameters_fuzzy_search(&needle, &haystack), Some(1));
}

#[test]
fn binding_a_track() {
    let mut dt = track("id", "video/VP8");
    assert!(!dt.bound());
    assert!(matches!(
        dt.down_track_local.bind(77, &vec![codec("audio/opus", 111)]),
        Err(Error::ErrUnsupportedCodec)
    ));
    assert_eq!(dt.down_track_local.bind(77, &vec![codec("video/VP8", 96)]).ok(), Some(0));
    assert!(dt.bound());
    assert_eq!(dt.ssrc(), 77);
    assert_eq!(dt.payload_type(), 96);
    assert_eq!(dt.mime(), "video/vp8");
    assert_eq!(dt.kind(), RTPCodecType::Video);
    assert_eq!(dt.id(), "id");
    assert_eq!(dt.stream_id(), "stream");
    dt.down_track_local.unbind();
    assert!(!dt.bound());
}

#[test]
fn simple_tracks_wait_for_a_key_frame() {
    let mut dt = bound_track("id", "video/VP8");
    match dt.forward_rtp(&ext(100, 1_000, 5, false, false), 0, true) {
        Forwarded::AskKeyFrameOnce { sender_ssrc, media_ssrc } => {
            assert_eq!((sender_ssrc, media_ssrc), (77, 5));
        }
        _ => panic!("a key frame was to be asked for"),
    }
    assert!(matches!(
        dt.forward_rtp(&ext(100, 1_000, 5, false, false), 0, false),
        Forwarded::Nothing
    ));
    match dt.forward_rtp(&ext(101, 1_000, 5, true, true), 0, true) {
        Forwarded::Packet(header) => {
            assert_eq!(header.sequence_number, 101);
            assert_eq!(header.timestamp, 1_000);
            assert_eq!(header.ssrc, 77);
            assert_eq!(header.payload_type, 96);
        }
        _ => panic!("a packet was to be sent"),
    }
    assert_eq!(dt.last_sn, 101);
    // Out of sync again, it goes on where it was
    dt.down_track_local.re_sync = true;
    match dt.forward_rtp(&ext(501, 9_000, 6, true, true), 0, true) {
        Forwarded::Packet(header) => {
            assert_eq!(header.sequence_number, 102);
            assert_eq!(header.timestamp, 1_001);
        }
        _ => panic!("a packet was to be sent"),
    }
}

#[test]
fn muted_and_unbound_tracks_send_nothing() {
    let mut dt = track("id", "audio/opus");
    assert!(matches!(
        dt.forward_rtp(&ext(1, 1, 5, false, true), 0, true),
        Forwarded::Nothing
    ));
    let mut dt = bound_track("id", "audio/opus");
    dt.mute(true);
    assert!(matches!(
        dt.forward_rtp(&ext(1, 1, 5, false, true), 0, true),
        Forwarded::Nothing
    ));
    dt.mute(false);
    assert!(matches!(
        dt.forward_rtp(&ext(2, 1, 5, false, true), 0, true),
        Forwarded::Packet(_)
    ));
}

#[test]
fn layers_of_a_down_track() {
    let mut dt = bound_track("id", "video/VP8");
    dt.set_track_type(DownTrackType::SimulcastDownTrack);
    dt.set_initial_layers(1, 2);
    assert_eq!(dt.current_spatial_layer(), 1);
    dt.set_max_spatial_layer(2);
    dt.set_max_temporal_layer(3);
    dt.set_last_ssrc(9);
    assert_eq!(dt.down_track_local.last_ssrc, 9);
    assert!(dt.set_target_spatial_layer(2, false).is_ok());
    assert_eq!(dt.target_spatial_layer, 2);
    assert!(matches!(
        dt.set_target_spatial_layer(3, false),
        Err(Error::ReceiverLayerNotAvailable(3))
    ));
    assert!(dt.set_target_spatial_layer(3, true).is_ok());
    assert_eq!(dt.max_spatial_layer, 3);
    dt.switch_spatial_layer_forced(0);
    assert_eq!(dt.current_spatial_layer(), 0);
    dt.set_transceiver(4, &vec![0, 88]);
    assert_eq!(dt.transceiver, Some(4));
    assert_eq!(RtxEncoding::new(88, 10).ssrc, 88);
}

#[test]
fn sources_are_described() {
    let dt = bound_track("id", "video/VP8");
    let chunks = dt.create_source_description_chunks();
    assert_eq!(chunks.len(), 1);
    assert_eq!(chunks[0].source, 77);
    assert_eq!(chunks[0].cname, "cname");
    assert!(track("id", "video/VP8").create_source_description_chunks().is_empty());
}

#[test]
fn up_tracks_become_layers() {
    let mut simulcast = WebRTCReceiver::new(
        "peer".to_owned(),
        "track".to_owned(),
        "q".to_owned(),
        "stream".to_owned(),
        codec("video/VP8", 96),
        RTPCodecType::Video,
    );
    assert!(simulcast.is_simulcast);
    assert_eq!(simulcast.add_up_track("q", 1, false), Some(0));
    assert_eq!(simulcast.add_up_track("f", 3, false), Some(2));
    assert_eq!(simulcast.ssrc(2), 3);
    assert_eq!(simulcast.ssrc(1), 0);
    assert_eq!(simulcast.get_available_layer(true), 2);
    assert_eq!(simulcast.get_available_layer(false), 0);
    assert_eq!(simulcast.layer(0).unwrap().spatial_layer(), 0);
    assert!(simulcast.layer(1).is_none());
}

#[test]
fn down_tracks_of_a_receiver() {
    let mut rx = receiver();
    assert!(matches!(
        rx.store_down_track(0, track("a", "video/VP8")),
        Err(Error::ReceiverLayerNotAvailable(0))
    ));
    rx.add_up_track("", 1, false);
    assert!(rx.add_down_track(track("a", "video/VP8"), 0).is_ok());
    assert!(rx.down_track_subscribed(0, &track("a", "video/VP8")));
    assert!(!rx.down_track_subscribed(0, &track("b", "video/VP8")));
    assert!(matches!(rx.delete_down_track(0, "b"), Ok(None)));
    match rx.delete_down_track(0, "a") {
        Ok(Some(found)) => assert_eq!(found.id(), "a"),
        _ => panic!("the track was to be found"),
    }
    assert!(!rx.down_track_subscribed(0, &track("a", "video/VP8")));
    assert!(matches!(
        rx.delete_down_track(1, "a"),
        Err(Error::FullSpatialLayer(1))
    ));
    rx.add_down_track(track("c", "video/VP8"), 0).unwrap();
    assert_eq!(rx.close_tracks(), vec!["c".to_owned()]);
    assert!(rx.closed);
    assert!(matches!(
        rx.add_down_track(track("d", "video/VP8"), 0),
        Err(Error::ReceiverClosed)
    ));
}

#[test]
fn received_packets_are_forwarded() {
    let mut rx = receiver();
    rx.add_up_track("", 5, false);
    rx.add_down_track(bound_track("a", "video/VP8"), 0).unwrap();
    let event = ReadEvent::Packet(ext(1, 1, 5, true, true));
    let outcome = rx.forward_rtp_packet_with(0, event, 9, 1_000).ok().unwrap();
    assert_eq!(outcome.forwarded.len(), 1);
    assert!(matches!(outcome.forwarded[0], Forwarded::Packet(_)));
    assert!(outcome.pli.is_none());
    assert!(rx.forward_rtp_packet_with(0, ReadEvent::BufferClosed, 9, 1_000).is_ok());
    assert!(matches!(
        rx.forward_rtp_packet_with(0, ReadEvent::Closed, 9, 1_000),
        Err(Error::ErrChannelSend)
    ));
    assert!(rx.forward_rtp_packet_with(1, ReadEvent::Closed, 9, 1_000).is_ok());
}

#[test]
fn lag_asks_for_a_key_frame() {
    let mut rx = receiver();
    rx.add_up_track("", 5, false);
    let outcome = rx.forward_rtp_packet(0, ReadEvent::Lagged, 1_000).ok().unwrap();
    assert_eq!(outcome.pli.unwrap().media_ssrc, 5);
    // Not again at once
    let outcome = rx.forward_rtp_packet_with(0, ReadEvent::Lagged, 9, 1_001).ok().unwrap();
    assert!(outcome.pli.is_none());
    assert!(rx.is_recent_pli(500, 1_002));
    assert!(rx.send_pli(1, 2, 5_000).is_some());
}

#[test]
fn requests_for_pictures_are_readdressed() {
    let rx = receiver();
    let pkts = vec![
        RtcpPacket::PictureLossIndication { sender_ssrc: 1, media_ssrc: 2 },
        RtcpPacket::PictureLossIndication { sender_ssrc: 3, media_ssrc: 4 },
        RtcpPacket::FullIntraRequest {
            sender_ssrc: 1,
            media_ssrc: 2,
            fir: vec![FirEntry { ssrc: 8, sequence_number: 9 }],
        },
        RtcpPacket::TransportLayerNack {
            nacks: vec![NackPair { packet_id: 1, lost_packets: 0 }],
        },
        RtcpPacket::Other,
    ];
    let forwarded = rx.handle_rtcp(&pkts, 70, 80);
    assert_eq!(forwarded.len(), 2);
    assert!(matches!(
        forwarded[0],
        RtcpPacket::PictureLossIndication { sender_ssrc: 80, media_ssrc: 70 }
    ));
    match &forwarded[1] {
        RtcpPacket::FullIntraRequest { sender_ssrc, media_ssrc, fir } => {
            assert_eq!((*sender_ssrc, *media_ssrc), (80, 70));
            assert_eq!(fir[0].ssrc, 8);
        }
        _ => panic!("a full intra request was expected"),
    }
    assert!(rx.handle_rtcp(&pkts, 0, 80).is_empty());
}

#[test]
fn stored_packets_are_sent_again() {
    let mut rx = receiver();
    rx.add_up_track("", 5, false);
    let mut factory = AtomicFactory::new();
    let buffer = factory.get_or_new_buffer(5);
    let mut bucket = Bucket::new(15_000);
    let raw = [0x80, 100, 0, 9, 0, 0, 0, 1, 0, 0, 0, 5, 0xAA];
    bucket.add_packet(&raw, 9, true).unwrap();
    buffer.buffer.bucket = Some(bucket);
    let dt = bound_track("a", "video/VP8");
    let mut meta = PacketMeta::default();
    meta.source_seq_no = 9;
    meta.target_seq_no = 400;
    meta.timestamp = 4_000;
    let mut missing = PacketMeta::default();
    missing.source_seq_no = 8;
    let out = rx.retransmit_packets(&dt, &vec![missing, meta], &factory);
    assert_eq!(out.len(), 1);
    assert_eq!(out[0].size, raw.len());
    assert_eq!(out[0].packet.header.sequence_number, 400);
    assert_eq!(out[0].packet.header.timestamp, 4_000);
    assert_eq!(out[0].packet.header.ssrc, 77);
    assert_eq!(out[0].packet.header.payload_type, 96);
    assert_eq!(out[0].packet.payload, vec![0xAA]);
    assert!(make_answer(None, &meta, &dt).is_none());

    assert_eq!(rx.get_bitrates(&factory), vec![0]);
    assert_eq!(rx.get_max_temporal_layers(&factory), vec![0]);
    factory.get_or_new_buffer(5).set_sender_report_data(1, 2, 3);
    assert_eq!(rx.get_sender_report_time(0, &factory), (1, 2));
}

#[test]
fn packets_that_arrived_are_sent_again() {
    let mut rx = receiver();
    rx.add_up_track("", 5, false);
    let mut factory = AtomicFactory::new();
    let buffer = factory.get_or_new_buffer(5);
    buffer.bound = true;
    buffer.buffer.bucket = Some(Bucket::new(15_000));
    buffer.write(ext(9, 1, 5, false, true).packet, 1, 1);
    let dt = bound_track("a", "video/VP8");
    let mut meta = PacketMeta::default();
    meta.source_seq_no = 9;
    meta.target_seq_no = 400;
    let out = rx.retransmit_packets(&dt, &vec![meta], &factory);
    assert_eq!(out.len(), 1);
    assert_eq!(out[0].size, 15);
    assert_eq!(out[0].packet.header.sequence_number, 400);
    assert_eq!(out[0].packet.payload, vec![0x10, 0x00, 1]);
}

#[test]
fn tracks_are_taken_out_by_their_place() {
    let mut layer = ReceiverLayer::new(5, 1);
    layer.run_ingestion();
    layer.down_tracks = vec![track("a", "video/VP8"), track("a", "video/VP8")];
    layer.down_tracks[0].transceiver = Some(1);
    layer.down_tracks[1].transceiver = Some(2);
    assert_eq!(layer.take_down_track(1).transceiver, Some(2));
    assert_eq!(layer.down_tracks[0].transceiver, Some(1));
    assert!(layer.is_active());
    assert_eq!(layer.take_down_track(0).transceiver, Some(1));
    assert!(!layer.is_active());
}

#[test]
fn ingestion_goes_on_until_it_fails() {
    assert_eq!(ingestion_step(IngestionEvent::Packet), IngestionStep::HandOn);
    assert_eq!(ingestion_step(IngestionEvent::Failed), IngestionStep::Stop);
    assert_eq!(ingestion_step(IngestionEvent::Active(true)), IngestionStep::Continue);
    assert_eq!(ingestion_step(IngestionEvent::Active(false)), IngestionStep::Stop);
    let mut layer = ReceiverLayer::new(5, 1);
    layer.run_ingestion();
    assert!(layer.is_active());
    assert!(layer.remove_down_track("a").is_none());
}

#[test]
fn track_errors_have_messages() {
    let mut messages: Vec<String> = vec![
        Error::ErrTransportExists,
        Error::ErrNoTransportEstablished,
        Error::ErrOfferIgnored,
        Error::ErrTurnNoneAuthKey,
        Error::ErrInvalidTrack,
        Error::ErrNoSubscriber,
        Error::ErrDataChannelNotExists,
        Error::ErrNoReceiverFound,
        Error::ErrChannelSend,
        Error::ReceiverLayerNotAvailable(2),
        Error::ReceiverClosed,
        Error::DuplicatedTrack(1),
        Error::FullSpatialLayer(1),
        Error::ErrUnsupportedCodec,
    ]
    .iter()
    .map(|error| error.message())
    .collect();
    assert_eq!(messages[0], "rtc transport already exists for this connection");
    assert_eq!(messages[1], "no rtc transport exists for this Peer");
    assert_eq!(messages[2], "offered ignored");
    assert_eq!(messages[3], "cannot get auth key from user map");
    assert_eq!(messages[4], "received track is not valid");
    assert_eq!(messages[5], "no subscriber for this peer");
    assert_eq!(messages[6], "data channel doesn't exist");
    assert_eq!(messages[7], "no receiver found");
    assert_eq!(messages[8], "channel send error");
    assert_eq!(messages[9], "receiver layer #2 is not available");
    assert_eq!(messages[10], "receiver is closed");
    assert_eq!(messages[11], "track is already added in layer #1");
    assert_eq!(messages[12], "spatial layer #1 is currently full");
    let count = messages.len();
    messages.sort();
    messages.dedup();
    assert_eq!(messages.len(), count);
    assert!(!ConfigError { value: ConfigErrorValue::IOError }.message().is_empty());
}

#[test]
fn stats_are_looked_at_every_twenty_seconds() {
    let mut dt = track("a", "video/VP8");
    dt.packet_sent_count = 410;
    assert_eq!(dt.look_at_stats(19_999), None);
    assert_eq!(dt.packet_sent_count, 410);
    assert_eq!(dt.look_at_stats(20_000), Some(20));
    assert_eq!(dt.packet_sent_count, 0);
    assert_eq!(dt.last_stats, 20_000);
    assert_eq!(dt.look_at_stats(30_000), None);
    // The clock went back.
    assert_eq!(dt.look_at_stats(0), None);
}

#[test]
fn muted_tracks_forward_no_feedback() {
    let mut dt = bound_track("a", "video/VP8");
    dt.set_last_ssrc(5);
    dt.mute(false);
    assert_eq!(dt.down_track_local.feedback_ssrcs(), Some((5, 77)));
    dt.mute(true);
    assert_eq!(dt.down_track_local.feedback_ssrcs(), None);
}

#[test]
fn receivers_take_other_metadata() {
    let mut receiver = receiver();
    receiver.set_track_meta("other".to_owned(), "elsewhere".to_owned());
    assert_eq!(receiver.track_id, "other");
    assert_eq!(receiver.stream_id, "elsewhere");
}
