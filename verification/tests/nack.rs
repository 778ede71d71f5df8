use volcano::packet::nack::{Nack, NackPair, NackQueue, MAX_NACK_TIMES};
use volcano::packet::sequence::{FeedbackPacket, SequenceTracker};

#[test]
fn lost_packets_are_asked_for_in_pairs() {
    let mut queue = NackQueue::new();
    assert_eq!(queue.pairs(100), (None, false));
    for sn in [5, 3, 4, 3, 30] {
        queue.push(sn);
    }
    assert_eq!(queue.nacks.len(), 4);
    let (pairs, key_frame) = queue.pairs(100);
    assert_eq!(
        pairs,
        Some(vec![
            NackPair { packet_id: 3, lost_packets: 0b11 },
            NackPair { packet_id: 30, lost_packets: 0 },
        ])
    );
    assert!(!key_frame);
    assert_eq!(queue.remove(4), Some(Nack::new(4, 1)));
    assert_eq!(queue.remove(4), None);
}

#[test]
fn the_most_recent_packets_are_waited_for() {
    let mut queue = NackQueue::new();
    queue.push(97);
    queue.push(98);
    queue.push(99);
    let (pairs, _) = queue.pairs(100);
    assert_eq!(pairs, Some(vec![NackPair { packet_id: 97, lost_packets: 0 }]));
}

#[test]
fn a_key_frame_is_asked_for_in_the_end() {
    let mut queue = NackQueue::new();
    queue.push(10);
    for _ in 0..MAX_NACK_TIMES {
        let (pairs, key_frame) = queue.pairs(100);
        assert_eq!(pairs, Some(vec![NackPair { packet_id: 10, lost_packets: 0 }]));
        assert!(!key_frame);
    }
    let (pairs, key_frame) = queue.pairs(100);
    assert_eq!(pairs, Some(vec![]));
    assert!(key_frame);
    assert_eq!(queue.key_frame_seq_number, 10);
    assert_eq!(queue.pairs(100), (None, false));
}

#[test]
fn gaps_are_fed_back() {
    let mut tracker = SequenceTracker::new();
    tracker.nack = true;
    tracker.nacker = Some(NackQueue::new());
    tracker.calculate_nack(10, true);
    tracker.calculate_nack(15, false);
    tracker.calculate_nack(20, false);
    // A late packet is no longer lost
    tracker.calculate_nack(12, false);
    let packets = tracker.feed_back(7).unwrap();
    assert_eq!(packets.len(), 1);
    match &packets[0] {
        FeedbackPacket::TransportLayerNack { media_ssrc, nacks } => {
            assert_eq!(*media_ssrc, 7);
            assert_eq!(nacks.len(), 1);
            assert_eq!(nacks[0].packet_id, 11);
            // 13, 14, 16 and 17
            assert_eq!(nacks[0].lost_packets, 0b110110);
        }
        _ => panic!("a nack was expected"),
    }
    assert_eq!(tracker.into_extended_sn(20), 20);
}

#[test]
fn sequence_numbers_wrap_around() {
    let mut tracker = SequenceTracker::new();
    tracker.calculate_nack(65534, true);
    tracker.calculate_nack(1, false);
    assert_eq!(tracker.cycles, 65536);
    assert_eq!(tracker.max_seq_no, 1);
    assert_eq!(tracker.into_extended_sn(1), 65537);
    assert!(tracker.feed_back(7).is_none());
}

fn lost_between(first: u16, second: u16) -> (SequenceTracker, Vec<u32>) {
    let mut tracker = SequenceTracker::new();
    tracker.nack = true;
    tracker.nacker = Some(NackQueue::new());
    tracker.calculate_nack(first, true);
    tracker.calculate_nack(second, false);
    let lost = tracker.nacker.as_ref().unwrap().nacks.iter().map(|nack| nack.seq_number).collect();
    (tracker, lost)
}

#[test]
fn gaps_across_a_turn_are_found() {
    let (mut tracker, lost) = lost_between(65534, 1);
    assert_eq!(tracker.cycles, 65536);
    assert_eq!(lost, vec![65535, 65536]);
    // Both arrive late
    tracker.calculate_nack(65535, false);
    tracker.calculate_nack(0, false);
    assert_eq!(tracker.nacker.unwrap().nacks.len(), 0);
}

#[test]
fn gaps_across_half_a_turn_are_found() {
    let (mut tracker, lost) = lost_between(32766, 32770);
    assert_eq!(lost, vec![32767, 32768, 32769]);
    tracker.calculate_nack(32768, false);
    tracker.calculate_nack(32767, false);
    // A newer packet does not change the number of a late one
    tracker.calculate_nack(32771, false);
    tracker.calculate_nack(32769, false);
    assert_eq!(tracker.nacker.unwrap().nacks.len(), 0);
}

#[test]
fn pairs_are_in_order_and_as_few_as_can_be() {
    let mut queue = NackQueue::new();
    for sn in [36, 18, 1, 34, 17] {
        queue.push(sn);
    }
    let (pairs, _) = queue.pairs(100);
    let pairs = pairs.unwrap();
    assert_eq!(
        pairs,
        vec![
            // 17
            NackPair { packet_id: 1, lost_packets: 0x8000 },
            // 34
            NackPair { packet_id: 18, lost_packets: 0x8000 },
            NackPair { packet_id: 36, lost_packets: 0 },
        ]
    );
    for sn in [1u16, 17, 18, 34, 36] {
        let names = |pair: &&NackPair| {
            let ahead = sn.wrapping_sub(pair.packet_id);
            ahead == 0 || ahead <= 16 && pair.lost_packets & (1 << (ahead - 1)) != 0
        };
        assert_eq!(pairs.iter().filter(names).count(), 1);
    }
}

#[test]
fn the_last_packets_of_a_turn_have_a_pair_each() {
    let mut queue = NackQueue::new();
    queue.push(65519);
    queue.push(65535);
    let (pairs, _) = queue.pairs(65600);
    assert_eq!(pairs, Some(vec![NackPair { packet_id: 65519, lost_packets: 0x8000 }]));

    let mut queue = NackQueue::new();
    queue.push(65530);
    queue.push(65535);
    let (pairs, _) = queue.pairs(65600);
    assert_eq!(
        pairs,
        Some(vec![
            NackPair { packet_id: 65530, lost_packets: 0 },
            NackPair { packet_id: 65535, lost_packets: 0 },
        ])
    );
}
