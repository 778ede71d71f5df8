use volcano::buffer::error::BufferError;
use volcano::buffer::rtcp_reader::RTCPReader;
use volcano::packet::parse::check_elements;
use volcano::packet::report::{check_reports, parse_reports, Report};

fn sender_report() -> Vec<u8> {
    let mut raw = vec![0x80, 200, 0, 6];
    raw.extend_from_slice(&[0, 0, 0, 7]);
    raw.extend_from_slice(&[0, 0, 0, 0, 0, 0, 1, 2]);
    raw.extend_from_slice(&[0, 0, 3, 4]);
    raw.extend_from_slice(&[0; 8]);
    raw
}

#[test]
fn sender_reports_are_parsed() {
    let reports = parse_reports(&sender_report()).unwrap();
    assert_eq!(reports.len(), 1);
    assert!(matches!(reports[0], Report::SenderReport { rtp_time: 0x304, ntp_time: 0x102 }));
}

#[test]
fn compound_packets_are_parsed() {
    let mut raw = sender_report();
    // A goodbye of one source
    raw.extend_from_slice(&[0x81, 203, 0, 1, 0, 0, 0, 7]);
    let reports = parse_reports(&raw).unwrap();
    assert_eq!(reports.len(), 2);
    assert!(matches!(reports[1], Report::Other));
}

#[test]
fn broken_reports_are_refused() {
    assert!(parse_reports(&[]).is_none());
    assert!(parse_reports(&[0x80, 200, 0, 6, 1]).is_none());
    assert!(check_reports(&sender_report()));
    // A full intra request with half an entry
    let raw = [0x84, 206, 0, 3, 0, 0, 0, 1, 0, 0, 0, 2, 0, 0, 0, 0];
    assert!(!check_reports(&raw));
    assert!(parse_reports(&raw).is_none());
}

#[test]
fn readers_hand_reports_on() {
    let mut reader = RTCPReader::new();
    let read = reader.write(&sender_report()).ok().unwrap();
    assert!(read.packets.is_none());
    assert_eq!(reader.write(&[1, 2]).err(), Some(BufferError::ErrRTCP));
    reader.set_on_packets();
    let read = reader.write(&sender_report()).ok().unwrap();
    assert_eq!(read.packets.unwrap().len(), 1);
    assert_eq!(reader.hand_on(vec![Report::Other]).packets.unwrap().len(), 1);
}

#[test]
fn extension_elements_stay_within_the_packet() {
    let mut raw = vec![0x90, 96, 0, 1, 0, 0, 0, 1, 0, 0, 0, 7];
    raw.extend_from_slice(&[0xBE, 0xDE, 0, 1, 0x30, 0x85, 0, 0]);
    assert!(check_elements(&raw));
    let last = raw.len() - 4;
    raw[last] = 0x3F;
    assert!(!check_elements(&raw));
}
