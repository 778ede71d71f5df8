use volcano::buffer::bucket::{distance, Bucket, MAX_PACKET_SIZE};
use volcano::buffer::error::BufferError;

#[test]
fn test_distance() {
    // 65535 <- 0
    assert_eq!(distance(0, 65535), 1);
    // 65534 <- 65535 <- 0 <- 1
    assert_eq!(distance(1, 65534), 3);
    assert_eq!(distance(100, 90), 10);
    assert_eq!(distance(65535, 0), 65535);
}

#[test]
fn test_bucket_low_capacity() {
    let mut bucket = Bucket::new(MAX_PACKET_SIZE);
    let pkt = vec![0x01; MAX_PACKET_SIZE];
    assert!(bucket.add_packet(&pkt, 1, true).is_ok(), "Bucket should have enough capacity");
}

#[test]
fn test_add_packets() {
    // This bucket has a capacity for 3 packets
    let mut bucket = Bucket::new(MAX_PACKET_SIZE * 3);
    assert!(!bucket.init, "Bucket should not be initialized");
    assert_eq!(bucket.max_steps, 2, "Bucket step should not be higher than 2");

    // First packet is... the first one
    let pkt = vec![0x01; 500];
    let res1 = bucket.add_packet(&pkt, 100, true);
    assert!(res1.is_ok());

    assert_eq!(bucket.head_sn, 100, "100 should be the last SN");
    assert!(bucket.init, "Bucket should be initialized");

    // Second packet is a new one
    let pkt2 = vec![0x02; 500];
    let res2 = bucket.add_packet(&pkt2, 102, true);
    assert!(res2.is_ok());

    assert_eq!(bucket.head_sn, 102, "102 should be the last SN");
    assert_eq!(bucket.step, 1, "Step should be 1");

    // Third packet is late
    let pkt3 = vec![0x03; 1_000];
    let res3 = bucket.add_packet(&pkt3, 101, false);
    assert!(res3.is_ok());
    assert_eq!(bucket.head_sn, 102, "102 should be the last SN");

    assert_eq!(bucket.step, 2, "Step should be 2");
}

#[test]
fn test_add_wraparound() {
    let mut bucket = Bucket::new(1_000);
    bucket.init = true;
    bucket.head_sn = 65535;

    let pkt = vec![0x01; 500];

    let res = bucket.add_packet(&pkt, 0, true);
    assert!(res.is_ok());

    assert_eq!(bucket.head_sn, 0, "Head should be 0");
    assert_eq!(bucket.step, 0, "Step 0");
}

#[test]
fn oversized_packets_are_refused() {
    let mut bucket = Bucket::new(MAX_PACKET_SIZE * 3);
    let pkt = vec![0x01; MAX_PACKET_SIZE + 1];
    assert_eq!(bucket.add_packet(&pkt, 1, true), Err(BufferError::ErrLargePacket));
}

#[test]
fn packets_are_found_by_their_sequence_number() {
    let mut bucket = Bucket::new(MAX_PACKET_SIZE * 5);
    let first = [0x80, 0x60, 0x01, 0x00, 7, 7];
    let second = [0x80, 0x60, 0x01, 0x02, 8];
    let late = [0x80, 0x60, 0x01, 0x01, 9, 9, 9];
    bucket.add_packet(&first, 0x100, true).unwrap();
    bucket.add_packet(&second, 0x102, true).unwrap();
    bucket.add_packet(&late, 0x101, false).unwrap();

    assert_eq!(bucket.get(0x100), Some(first.to_vec()));
    assert_eq!(bucket.get(0x101), Some(late.to_vec()));
    assert_eq!(bucket.get(0x102), Some(second.to_vec()));
    assert_eq!(bucket.get(0x103), None);
    assert_eq!(bucket.get(0x0FF), None);

    let mut buf = [0u8; 16];
    assert_eq!(bucket.get_packet(&mut buf, 0x0FF), Err(BufferError::ErrPacketNotFound));
    assert_eq!(bucket.get_packet(&mut buf, 0x101), Ok(7));
    assert_eq!(&buf[..7], &late);
    let mut small = [0u8; 3];
    assert_eq!(bucket.get_packet(&mut small, 0x101), Err(BufferError::ErrBufferTooSmall));
}

#[test]
fn duplicates_and_old_packets_are_refused() {
    let mut bucket = Bucket::new(MAX_PACKET_SIZE * 3);
    let pkt = [0x80, 0x60, 0x00, 0x0A];
    let again = [0x80, 0x60, 0x00, 0x09];
    bucket.add_packet(&again, 9, true).unwrap();
    bucket.add_packet(&pkt, 10, true).unwrap();
    assert_eq!(bucket.add_packet(&again, 9, false), Err(BufferError::ErrRTXPacket));
    assert_eq!(bucket.add_packet(&again, 1, false), Err(BufferError::ErrPacketTooOld));
    // What was there before is still found
    assert_eq!(bucket.get(9), Some(again.to_vec()));
    assert_eq!(bucket.get(10), Some(pkt.to_vec()));
}

#[test]
fn a_full_bucket_drops_the_oldest_packets() {
    let mut bucket = Bucket::new(MAX_PACKET_SIZE * 3);
    for sn in 1u8..=5 {
        bucket.add_packet(&[0x80, 0x60, 0x00, sn, sn], sn as u16, true).unwrap();
    }
    assert_eq!(bucket.get(2), None);
    assert_eq!(bucket.get(3), Some(vec![0x80, 0x60, 0x00, 3, 3]));
    assert_eq!(bucket.get(4), Some(vec![0x80, 0x60, 0x00, 4, 4]));
    assert_eq!(bucket.get(5), Some(vec![0x80, 0x60, 0x00, 5, 5]));
}

#[test]
fn packets_that_do_not_fit_are_refused() {
    let mut bucket = Bucket::new(1_000);
    assert_eq!(bucket.add_packet(&[0; 1_001], 1, true), Err(BufferError::ErrBufferTooSmall));
}

#[test]
fn errors_have_messages() {
    assert_eq!(BufferError::ErrPacketNotFound.message(), "packet not found in cache");
    assert_eq!(BufferError::ErrBufferTooSmall.message(), "buffer too small");
    assert_eq!(BufferError::ErrPacketTooOld.message(), "received packet too old");
    assert_eq!(BufferError::ErrRTXPacket.message(), "packet already received");
    assert_eq!(BufferError::ErrShortPacket.message(), "packet is not large enough");
    assert_eq!(BufferError::ErrNilPacket.message(), "invalid nil packet");
    assert_eq!(BufferError::ErrIOEof.message(), "io EOF");
    assert_eq!(BufferError::ErrRTCP.message(), "rtcp error");
}

#[test]
fn an_empty_bucket_has_no_packet() {
    let bucket = Bucket::new(4_500);
    assert_eq!(bucket.get(0), None);
    assert_eq!(bucket.get(1), None);
    let mut buf = [0u8; 8];
    assert_eq!(bucket.get_packet(&mut buf, 0), Err(BufferError::ErrPacketNotFound));

    // A slot that was only reserved holds no packet either
    let mut bucket = Bucket::new(MAX_PACKET_SIZE * 3);
    bucket.add_packet(&[0x80, 0x60, 0xFF, 0xFF], 65535, true).unwrap();
    bucket.add_packet(&[0x80, 0x60, 0x00, 0x01], 1, true).unwrap();
    assert_eq!(bucket.get(0), None);
    let late = [0x80, 0x60, 0x00, 0x00, 5];
    bucket.add_packet(&late, 0, false).unwrap();
    assert_eq!(bucket.get(0), Some(late.to_vec()));
    assert_eq!(bucket.add_packet(&late, 0, false), Err(BufferError::ErrRTXPacket));
}

#[test]
fn lost_packets_keep_their_slots() {
    let mut bucket = Bucket::new(MAX_PACKET_SIZE * 3);
    let packet = |sn: u8| [0x80, 0x60, 0x00, sn, sn];
    bucket.add_packet(&packet(100), 100, true).unwrap();
    bucket.add_packet(&packet(102), 102, true).unwrap();
    assert_eq!(bucket.get(100), Some(packet(100).to_vec()));
    bucket.add_packet(&packet(101), 101, false).unwrap();
    for sn in 100u8..=102 {
        assert_eq!(bucket.get(sn as u16), Some(packet(sn).to_vec()));
    }
    // The next gap takes the slots of the two oldest packets
    bucket.add_packet(&packet(104), 104, true).unwrap();
    assert_eq!(bucket.get(101), None);
    assert_eq!(bucket.get(102), Some(packet(102).to_vec()));
    assert_eq!(bucket.get(103), None);
    assert_eq!(bucket.get(104), Some(packet(104).to_vec()));
    // A gap that is longer than the bucket
    bucket.add_packet(&packet(120), 120, true).unwrap();
    assert_eq!(bucket.get(120), Some(packet(120).to_vec()));
    bucket.add_packet(&packet(119), 119, false).unwrap();
    assert_eq!(bucket.get(119), Some(packet(119).to_vec()));
}

#[test]
fn packets_without_a_header_are_stored() {
    let mut bucket = Bucket::new(MAX_PACKET_SIZE * 3);
    assert_eq!(bucket.get(0), None);
    assert_eq!(bucket.add_packet(&[], 0, true), Ok(vec![]));
    // The bytes where the sequence number belongs are zero
    assert_eq!(bucket.get(0), Some(vec![]));
    assert_eq!(bucket.add_packet(&[], 0, false), Err(BufferError::ErrRTXPacket));
    let mut buf = [7u8; 4];
    assert_eq!(bucket.get_packet(&mut buf, 0), Ok(0));
    assert_eq!(buf, [7; 4]);
    // A packet without a sequence number of its own is not found under another one
    assert_eq!(bucket.add_packet(&[1, 2], 1, true), Ok(vec![1, 2]));
    assert_eq!(bucket.get(1), None);
    // The next slot was never used
    assert_eq!(bucket.get(65535), None);
}
