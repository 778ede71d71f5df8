use volcano::buffer;
use volcano::buffer::buffer::ReadStep;
use volcano::buffer::error::BufferError;
use volcano::packet;
use volcano::packet::buffer::{BufferPacketType, Options};
use volcano::packet::params::{
    kind_of, track_settings, RTCPFeedback, RTCRtpCodecCapability, RTCRtpCodecParameters,
    RTCRtpHeaderExtensionParameters, RTCRtpParameters, RTPCodecType, AUDIO_LEVEL_URI,
    TRANSPORT_CC_URI,
};
use volcano::packet::rtp::{Extension, Header, Packet};
use volcano::packet::sequence::FeedbackPacket;

fn header(sn: u16, timestamp: u32) -> Header {
    Header {
        version: 2,
        padding: false,
        extension: false,
        marker: false,
        payload_type: 96,
        sequence_number: sn,
        timestamp,
        ssrc: 7,
        csrc: vec![],
        extension_profile: 0,
        extensions: vec![],
        extensions_padding: 0,
    }
}

fn packet_of(sn: u16, timestamp: u32, payload: &[u8]) -> Packet {
    Packet { header: header(sn, timestamp), payload: payload.to_vec() }
}

fn params(mime: &str, feedback: &[&str], extensions: &[(&str, u8)]) -> RTCRtpParameters {
    let rtcp_feedback = feedback
        .iter()
        .map(|typ| RTCPFeedback { typ: typ.to_string(), parameter: String::new() })
        .collect();
    let capability = RTCRtpCodecCapability {
        mime_type: mime.to_owned(),
        clock_rate: 48_000,
        channels: 0,
        sdp_fmtp_line: String::new(),
        rtcp_feedback,
    };
    let header_extensions = extensions
        .iter()
        .map(|(uri, id)| RTCRtpHeaderExtensionParameters { uri: uri.to_string(), id: *id })
        .collect();
    RTCRtpParameters {
        header_extensions,
        codecs: vec![RTCRtpCodecParameters { capability, payload_type: 96 }],
    }
}

#[test]
fn kinds_are_told_by_their_mime_type() {
    assert_eq!(kind_of("video/VP8"), RTPCodecType::Video);
    assert_eq!(kind_of("audio/opus"), RTPCodecType::Audio);
    assert_eq!(kind_of("text/plain"), RTPCodecType::Unspecified);
    assert_eq!(BufferPacketType::RTPBufferPacket.value(), 1);
    assert_eq!(BufferPacketType::RTCPBufferPacket.value(), 2);
}

#[test]
fn settings_are_read_in_lower_case() {
    let settings = track_settings(&params(
        "VIDEO/VP8",
        &["goog-remb", "nack", "transport-cc"],
        &[(TRANSPORT_CC_URI, 5)],
    ));
    assert_eq!(settings.mime, "video/vp8");
    assert_eq!(settings.kind, RTPCodecType::Video);
    assert!(settings.remb);
    assert!(settings.nack);
    assert!(settings.twcc);
    assert_eq!(settings.twcc_ext, Some(5));
    assert_eq!(settings.audio_ext, None);
}

#[test]
fn packets_wait_until_the_buffer_is_bound() {
    let mut buffer = packet::atomic_buffer::AtomicBuffer::new(7);
    let early = buffer.write(packet_of(1, 10, &[0x10, 0x00]), 100, 100);
    assert!(early.packet.is_none());
    assert_eq!(buffer.pending_packets.len(), 1);
    let out = buffer.bind(&params("video/vp8", &[], &[]), Options { max_bitrate: 5 }, 200);
    assert_eq!(out.len(), 1);
    assert!(out[0].key_frame);
    assert_eq!(out[0].arrival, 100);
    assert!(buffer.bound);
    assert_eq!(buffer.pending_packets.len(), 0);
    assert_eq!(buffer.buffer.max_bitrate, 5);
    assert_eq!(buffer.get_status().packet_count, 1);
    assert_eq!(buffer.get_status().total_byte, 2);
    assert!(matches!(buffer.read(), Err(BufferError::ErrPacketNotFound)));
}

#[test]
fn lost_video_packets_are_asked_for() {
    let mut buffer = packet::atomic_buffer::AtomicBuffer::new(7);
    buffer.bind(&params("video/vp8", &["nack"], &[]), Options { max_bitrate: 0 }, 0);
    assert!(buffer.write(packet_of(1, 10, &[0x10, 0x00]), 1, 1).feedback.is_some());
    let written = buffer.write(packet_of(10, 10, &[0x10, 0x01]), 2, 2);
    let feedback = written.feedback.unwrap();
    assert_eq!(feedback.len(), 1);
    match &feedback[0] {
        FeedbackPacket::TransportLayerNack { media_ssrc, nacks } => {
            assert_eq!(*media_ssrc, 7);
            assert_eq!(nacks[0].packet_id, 2);
            assert_eq!(nacks[0].lost_packets, 0b11111);
        }
        _ => panic!("a nack was expected"),
    }
    assert!(!written.packet.unwrap().key_frame);
}

#[test]
fn extensions_are_told() {
    let mut buffer = packet::atomic_buffer::AtomicBuffer::new(7);
    let agreed = params("audio/opus", &[], &[(AUDIO_LEVEL_URI, 3), (TRANSPORT_CC_URI, 4)]);
    buffer.bind(&agreed, Options { max_bitrate: 0 }, 0);
    let mut pkt = packet_of(1, 10, &[1]);
    pkt.header.extension = true;
    pkt.header.extensions.push(Extension { id: 3, payload: vec![0x85] });
    pkt.header.extensions.push(Extension { id: 4, payload: vec![0x01, 0x02] });
    let written = buffer.write(pkt, 1, 1);
    assert_eq!(written.audio_level, Some((true, 5)));
    // Nobody has asked for transport wide sequence numbers
    assert_eq!(written.transport_cc, None);
    assert!(written.packet.unwrap().head);

    let mut video = packet::atomic_buffer::AtomicBuffer::new(8);
    let agreed = params("video/h264", &["transport-cc"], &[(TRANSPORT_CC_URI, 4)]);
    video.bind(&agreed, Options { max_bitrate: 0 }, 0);
    let mut pkt = packet_of(1, 10, &[0x65]);
    pkt.header.extension = true;
    pkt.header.marker = true;
    pkt.header.extensions.push(Extension { id: 4, payload: vec![0x01, 0x02] });
    let written = video.write(pkt, 9, 9);
    assert_eq!(written.transport_cc, Some((0x102, 9, true)));
    assert!(written.packet.unwrap().key_frame);
}

#[test]
fn heads_of_audio_come_once_a_second() {
    let mut buffer = packet::atomic_buffer::AtomicBuffer::new(7);
    buffer.bind(&params("audio/opus", &[], &[]), Options { max_bitrate: 0 }, 0);
    assert!(buffer.write(packet_of(1, 1_000, &[1]), 1, 1).packet.unwrap().head);
    assert!(!buffer.write(packet_of(2, 2_000, &[1]), 2, 2).packet.unwrap().head);
    assert!(buffer.write(packet_of(3, 49_001, &[1]), 3, 3).packet.unwrap().head);
    assert_eq!(buffer.buffer.latest_timestamp, 49_001);
}

#[test]
fn sender_reports_are_kept() {
    let mut buffer = packet::atomic_buffer::AtomicBuffer::new(7);
    buffer.set_sender_report_data(1, 2, 3);
    assert_eq!(buffer.get_sender_report_data(), (1, 2, 3));
    assert_eq!(buffer.bitrate(), 0);
    assert_eq!(buffer.max_temporal_layer(), 0);
    let mut out = [0u8; 4];
    assert_eq!(buffer.get_packet(&mut out, 1), Ok(0));
    buffer.buffer.closed = true;
    assert_eq!(buffer.get_packet(&mut out, 1), Err(BufferError::ErrIOEof));
}

#[test]
fn extended_packets_are_read_in_their_order() {
    let mut buffer = buffer::atomic_buffer::AtomicBuffer::new(7);
    assert!(matches!(buffer.read(), Err(BufferError::ErrNilPacket)));
    let (res, out) = buffer.write(packet_of(1, 10, &[0x10, 0x00]), 5);
    assert!(res.is_ok());
    assert!(out.is_none());
    assert_eq!(buffer.read().unwrap().header.sequence_number, 1);
    let out = buffer.bind(&params("video/vp8", &[], &[]), Options { max_bitrate: 0 });
    assert_eq!(out.len(), 1);
    let (res, out) = buffer.write(packet_of(2, 11, &[0x10, 0x01]), 6);
    assert!(res.is_ok());
    assert!(out.is_some());
    match buffer.read_extended() {
        Ok(ReadStep::Packet(packet)) => {
            assert_eq!(packet.packet.header.sequence_number, 1);
            assert!(packet.key_frame);
        }
        _ => panic!("a packet was expected"),
    }
    match buffer.read_extended() {
        Ok(ReadStep::Packet(packet)) => assert_eq!(packet.packet.header.sequence_number, 2),
        _ => panic!("a packet was expected"),
    }
    assert!(matches!(buffer.read_extended(), Ok(ReadStep::Wait(10))));
    buffer.buffer.closed = true;
    assert!(matches!(buffer.read_extended(), Err(BufferError::ErrIOEof)));
    assert!(matches!(buffer.read(), Err(BufferError::ErrIOEof)));
}

#[test]
fn packets_are_stored_as_they_are_sent() {
    let wire = [0x80, 96, 1, 2, 0, 0, 0, 10, 0, 0, 0, 7, 0x10, 0x00];
    let mut buffer = buffer::atomic_buffer::AtomicBuffer::new(7);
    buffer.bind(&params("video/vp8", &[], &[]), Options { max_bitrate: 0 });
    let _ = buffer.write(packet_of(258, 10, &[0x10, 0x00]), 5);
    let mut out = [0u8; 20];
    assert_eq!(buffer.get_packet(&mut out, 258), Ok(14));
    assert_eq!(&out[..14], &wire);
    assert_eq!(buffer.get_packet(&mut out, 257), Err(BufferError::ErrPacketNotFound));
    assert_eq!(buffer.get_status().packet_count, 1);
    assert_eq!(buffer.get_status().total_byte, 14);
    buffer.set_sender_report_data(4, 5, 6);
    assert_eq!(buffer.get_sender_report_data(), (4, 5, 6));

    let mut buffer = packet::atomic_buffer::AtomicBuffer::new(7);
    buffer.bind(&params("video/vp8", &[], &[]), Options { max_bitrate: 0 }, 0);
    buffer.write(packet_of(258, 10, &[0x10, 0x00]), 5, 5);
    let mut out = [0u8; 20];
    assert_eq!(buffer.get_packet(&mut out, 258), Ok(14));
    assert_eq!(&out[..14], &wire);
    assert_eq!(buffer.get_status().total_byte, 2);
}

#[test]
fn extensions_and_sources_are_stored() {
    let mut buffer = packet::atomic_buffer::AtomicBuffer::new(7);
    buffer.bind(&params("video/vp8", &[], &[]), Options { max_bitrate: 0 }, 0);
    let mut pkt = packet_of(1, 10, &[0x10, 0x00]);
    pkt.header.csrc = vec![9];
    pkt.header.extension = true;
    pkt.header.extension_profile = 0xBEDE;
    pkt.header.extensions.push(Extension { id: 3, payload: vec![0x85] });
    pkt.header.extensions_padding = 2;
    buffer.write(pkt, 1, 1);
    let mut out = [0u8; 40];
    assert_eq!(buffer.get_packet(&mut out, 1), Ok(26));
    assert_eq!(&out[12..26], &[0, 0, 0, 9, 0xBE, 0xDE, 0, 1, 0x30, 0x85, 0, 0, 0x10, 0x00]);
}

#[test]
fn packets_that_cannot_be_written_are_not_stored() {
    let mut buffer = packet::atomic_buffer::AtomicBuffer::new(7);
    buffer.bind(&params("video/vp8", &[], &[]), Options { max_bitrate: 0 }, 0);
    let mut many = packet_of(1, 10, &[0x10, 0x00]);
    many.header.csrc = vec![9; 16];
    assert!(buffer.write(many, 1, 1).packet.is_some());
    // An element without a byte, and one with padding that it has no room for
    let mut hollow = packet_of(2, 10, &[0x10, 0x00]);
    hollow.header.extension = true;
    hollow.header.extension_profile = 0xBEDE;
    hollow.header.extensions.push(Extension { id: 3, payload: vec![] });
    assert!(buffer.write(hollow, 2, 2).packet.is_some());
    let mut padded = packet_of(3, 10, &[0x10, 0x00]);
    padded.header.extension = true;
    padded.header.extension_profile = 0xBEDE;
    padded.header.extensions_padding = usize::MAX;
    assert!(buffer.write(padded, 3, 3).packet.is_some());
    let mut out = [0u8; 20];
    for sn in 1..=3 {
        assert_eq!(buffer.get_packet(&mut out, sn), Err(BufferError::ErrPacketNotFound));
    }
    assert_eq!(buffer.get_status().packet_count, 3);
}

#[test]
fn the_bitrate_is_calculated_once_a_second() {
    let mut buffer = packet::atomic_buffer::AtomicBuffer::new(7);
    buffer.bind(&params("audio/opus", &[], &[]), Options { max_bitrate: 0 }, 0);
    buffer.write(packet_of(1, 10, &[1; 100]), 1_000, 1_000);
    assert_eq!(buffer.buffer.last_report, Some(1_000));
    buffer.write(packet_of(2, 20, &[1; 100]), 500_000_000, 500_000_000);
    assert_eq!(buffer.bitrate(), 0);
    // 300 bytes in two seconds
    buffer.write(packet_of(3, 30, &[1; 100]), 2_000_001_000, 2_000_001_000);
    assert_eq!(buffer.bitrate(), 1_200);
    assert_eq!(buffer.buffer.bitrate_helper, 0);
    assert_eq!(buffer.buffer.last_report, Some(2_000_001_000));
    // A packet from before the report
    buffer.write(packet_of(4, 40, &[1; 10]), 1_000, 1_000);
    assert_eq!(buffer.bitrate(), 1_200);
    assert_eq!(buffer.buffer.bitrate_helper, 10);
}

#[test]
fn cycles_are_counted_from_the_first_packet_on() {
    let mut buffer = buffer::atomic_buffer::AtomicBuffer::new(1);
    for sn in [65535u16, 0, 65534] {
        buffer.calc(packet_of(sn, 0, &[]), 0);
    }
    for (sn, head, cycle) in [(65535u16, true, 0u32), (0, true, 65536), (65534, false, 65536)] {
        match buffer.read_extended() {
            Ok(ReadStep::Packet(packet)) => {
                assert_eq!(packet.packet.header.sequence_number, sn);
                assert_eq!(packet.head, head);
                assert_eq!(packet.cycle, cycle);
            }
            _ => panic!("a packet was expected"),
        }
    }
}

#[test]
fn factories_create_buffers_once() {
    let mut factory = packet::factory::AtomicFactory::new();
    assert!(factory.get_rtp_buffer(1).is_none());
    factory.get_or_new_buffer(1).set_sender_report_data(9, 9, 9);
    factory.get_or_new_buffer(2);
    assert_eq!(factory.get_or_new_buffer(1).get_sender_report_data(), (9, 9, 9));
    assert_eq!(factory.get_rtp_buffer(2).unwrap().buffer.media_ssrc, 2);
    assert!(factory.get_rtcp_buffer(1).is_none());
    factory.get_or_new_rtcp_buffer(1).set_on_packets();
    assert!(factory.get_or_new_rtcp_buffer(1).on_packets);
    assert_eq!(factory.get_rtcp_buffer(1).unwrap().send_packets(vec![1, 2]), Some(vec![1, 2]));
    assert_eq!(factory.get_or_new_rtcp_buffer(3).send_packets(vec![1, 2]), None);

    let mut factory = buffer::factory::AtomicFactory::new();
    factory.get_or_new_buffer(1).set_sender_report_data(8, 8, 8);
    assert_eq!(factory.get_or_new_buffer(1).get_sender_report_data(), (8, 8, 8));
    factory.get_or_new_rtcp_buffer(1).set_on_packets();
    assert!(factory.get_or_new_rtcp_buffer(1).on_packets);
    assert!(!factory.get_or_new_rtcp_buffer(2).on_packets);
}
