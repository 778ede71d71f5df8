use vstd::prelude::*;

use crate::buffer::bucket::{ahead_by, distance};
use crate::packet::nack::{NackPair, NackQueue};

verus! {

/// One turn of the 16-bit sequence numbers.
pub const MAX_SEQUENCE_NUMBER: u32 = 0x1_0000;

/// Feedback to the sender of a track.
pub enum FeedbackPacket {
    /// Asks for lost packets.
    TransportLayerNack { media_ssrc: u32, nacks: Vec<NackPair> },
    /// Asks for a key frame.
    PictureLossIndication { media_ssrc: u32 },
}

/// Whether `packets` is the feedback that asks for the packets in `pairs`, and for a key frame.
pub open spec fn is_feedback(
    packets: Seq<FeedbackPacket>,
    ssrc: u32,
    pairs: Seq<NackPair>,
    key_frame: bool,
) -> bool {
    let asks_packets: int = if pairs.len() > 0 {
        1
    } else {
        0
    };
    let asks_frame: int = if key_frame {
        1
    } else {
        0
    };
    &&& packets.len() == asks_packets + asks_frame
    &&& pairs.len() > 0 ==> (packets[0] matches FeedbackPacket::TransportLayerNack {
        media_ssrc,
        nacks,
    } && media_ssrc == ssrc && nacks@ == pairs)
    &&& key_frame ==> packets[asks_packets] == (FeedbackPacket::PictureLossIndication {
        media_ssrc: ssrc,
    })
}

/// The 32-bit number of a packet that is at most half a turn older than the packet `max_seq_no`: its
/// 16-bit number, and the turns before it.
pub open spec fn extended(cycles: u32, max_seq_no: u16, sn: u16) -> u32 {
    if sn >= 0x8000 && max_seq_no < 0x8000 {
        ((cycles - MAX_SEQUENCE_NUMBER + sn) % 0x1_0000_0000) as u32
    } else {
        (cycles + sn) as u32
    }
}

/// The queue of lost packets with the packets of `lost` added to it.
pub open spec fn with_lost(queue: Map<u32, u8>, lost: Set<u32>) -> Map<u32, u8> {
    Map::new(
        |sn: u32| queue.contains_key(sn) || lost.contains(sn),
        |sn: u32|
            if queue.contains_key(sn) {
                queue[sn]
            } else {
                0
            },
    )
}

/// Follows the sequence numbers of a track, and which packets are lost.
pub struct SequenceTracker {
    /// The turns of the sequence numbers that are complete, in packets.
    pub cycles: u32,
    /// The highest sequence number received.
    pub max_seq_no: u16,
    /// Whether lost packets are asked for.
    pub nack: bool,
    pub nacker: Option<NackQueue>,
}

impl SequenceTracker {
    /// What every operation keeps.
    pub open spec fn wf(&self) -> bool {
        &&& self.cycles % MAX_SEQUENCE_NUMBER == 0
        &&& self.nacker matches Some(queue) ==> queue.wf()
    }

    /// The lost packets, with how often each was asked for.
    pub open spec fn lost(&self) -> Map<u32, u8> {
        match self.nacker {
            Some(queue) => queue@,
            None => Map::empty(),
        }
    }

    /// The number of turns when the newer packet `sn` arrives, in packets.
    pub open spec fn cycles_at(&self, sn: u16) -> u32 {
        if sn < self.max_seq_no {
            ((self.cycles + MAX_SEQUENCE_NUMBER) % 0x1_0000_0000) as u32
        } else {
            self.cycles
        }
    }

    /// The extended number of the packet that is `i` steps older than the newer packet `sn`.
    pub open spec fn skipped(&self, sn: u16, i: int) -> u32 {
        ((self.cycles_at(sn) + sn - i) % 0x1_0000_0000) as u32
    }

    /// The packets that the newer packet `sn` shows to be lost, up to `end` steps older than it.
    pub open spec fn gap_up_to(&self, sn: u16, end: int) -> Set<u32> {
        Set::new(|ext: u32| exists|i: int| 1 <= i < end && ext == #[trigger] self.skipped(sn, i))
    }

    /// The packets that the newer packet `sn` shows to be lost.
    pub open spec fn gap(&self, sn: u16) -> Set<u32> {
        self.gap_up_to(sn, ahead_by(sn, self.max_seq_no))
    }

    /// Whether `sn` is newer than all packets before it.
    pub open spec fn is_newer(&self, sn: u16) -> bool {
        ahead_by(sn, self.max_seq_no) < 0x8000
    }

    /// Whether `after` is this tracker once the packet `sn` has arrived.
    pub open spec fn becomes(&self, after: SequenceTracker, sn: u16, first: bool) -> bool {
        &&& after.nack == self.nack
        &&& after.nacker is Some == self.nacker is Some
        &&& after.nacker matches Some(queue) ==> queue.key_frame_seq_number
            == self.nacker->Some_0.key_frame_seq_number
        &&& after.max_seq_no == if first || self.is_newer(sn) {
            sn
        } else {
            self.max_seq_no
        }
        &&& after.cycles == if !first && self.is_newer(sn) {
            self.cycles_at(sn)
        } else {
            self.cycles
        }
        &&& after.lost() == if first || !self.nack || self.nacker is None {
            self.lost()
        } else if self.is_newer(sn) {
            with_lost(self.lost(), self.gap(sn))
        } else {
            self.lost().remove(extended(self.cycles, self.max_seq_no, sn))
        }
    }

    /// Whether `after` is this tracker with an empty queue where lost packets are asked for.
    pub open spec fn restarts(&self, after: SequenceTracker, asks_nack: bool) -> bool {
        &&& after.cycles == self.cycles
        &&& after.max_seq_no == self.max_seq_no
        &&& after.nack == (self.nack || asks_nack)
        &&& asks_nack ==> (after.nacker matches Some(queue) && queue@ == Map::<u32, u8>::empty()
            && queue.key_frame_seq_number == 0)
        &&& !asks_nack ==> after.nacker == self.nacker
    }

    pub fn new() -> (tracker: Self)
        ensures
            tracker.wf(),
            tracker.cycles == 0,
            tracker.max_seq_no == 0,
            !tracker.nack,
            tracker.nacker is None,
    {
        SequenceTracker { cycles: 0, max_seq_no: 0, nack: false, nacker: None }
    }

    /// Takes note of the packet `sn`.
    ///
    /// # Responsabilities
    /// - Update max SN
    /// - Add missing sequence numbers to nack queue
    /// - Remove old missing sequence numbers from nack queue
    pub fn calculate_nack(&mut self, sn: u16, first: bool)
        requires
            old(self).wf(),
        ensures
            final(self).wf(),
            old(self).becomes(*final(self), sn, first),
    {
        let ahead: u16 = distance(sn, self.max_seq_no);
        if first {
            self.max_seq_no = sn;
            return ;
        }
        let ghost before = *self;
        if ahead < 0x8000 {
            // new SN
            if sn < self.max_seq_no {
                self.cycles = self.cycles.wrapping_add(MAX_SEQUENCE_NUMBER);
            }
            self.max_seq_no = sn;
            if self.nack {
                self.push_gap(sn, ahead, Ghost(before));
            }
        } else if self.nack {
            // High distance, sequence number should be removed
            let ext_sn: u32 = self.into_extended_sn(sn);
            if let Some(nacker) = self.nacker.as_mut() {
                nacker.remove(ext_sn);
            }
        }
    }

    /// Adds the `ahead` packets in front of the newer packet `sn` to the queue.
    fn push_gap(&mut self, sn: u16, ahead: u16, Ghost(before): Ghost<SequenceTracker>)
        requires
            old(self).wf(),
            before.cycles_at(sn) == old(self).cycles,
            old(self).max_seq_no == sn,
            before.lost() == old(self).lost(),
            ahead < 0x8000,
        ensures
            final(self).wf(),
            final(self).cycles == old(self).cycles,
            final(self).max_seq_no == old(self).max_seq_no,
            final(self).nack == old(self).nack,
            final(self).nacker is Some == old(self).nacker is Some,
            final(self).nacker matches Some(queue) ==> queue.key_frame_seq_number
                == old(self).nacker->Some_0.key_frame_seq_number,
            final(self).lost() == if old(self).nacker is Some {
                with_lost(old(self).lost(), before.gap_up_to(sn, ahead as int))
            } else {
                old(self).lost()
            },
    {
        let ghost start = *self;
        let mut i: u16 = 1;
        if self.nacker.is_none() {
            return ;
        }
        assert(self.lost() =~= with_lost(self.lost(), before.gap_up_to(sn, 1)));
        while i < ahead
            invariant
                1 <= i,
                i <= ahead || (i == 1 && ahead == 0),
                self.wf(),
                self.nacker is Some,
                start.nacker is Some,
                self.nacker->Some_0.key_frame_seq_number
                    == start.nacker->Some_0.key_frame_seq_number,
                self.cycles == start.cycles,
                self.max_seq_no == start.max_seq_no,
                self.nack == start.nack,
                before.cycles_at(sn) == start.cycles,
                start.max_seq_no == sn,
                ahead < 0x8000,
                self.lost() == with_lost(start.lost(), before.gap_up_to(sn, i as int)),
            decreases ahead - i,
        {
            let msn: u16 = sn.wrapping_sub(i);
            let ext_sn: u32 = self.into_extended_sn(msn);
            let ghost so_far = self.lost();
            if let Some(nacker) = self.nacker.as_mut() {
                nacker.push(ext_sn);
            }
            proof {
                let wider = before.gap_up_to(sn, i + 1);
                let narrow = before.gap_up_to(sn, i as int);
                lemma_extended(self.cycles, sn, msn);
                assert(ahead_by(sn, msn) == i);
                assert(ext_sn == before.skipped(sn, i as int));
                assert forall|x: u32| #[trigger] wider.contains(x) <==> narrow.contains(x) || x
                    == ext_sn by {
                    if wider.contains(x) {
                        let k = choose|k: int| 1 <= k < i + 1 && x == #[trigger] before.skipped(sn, k);
                        assert(x == before.skipped(sn, k));
                    }
                    if narrow.contains(x) {
                        let k = choose|k: int| 1 <= k < i && x == #[trigger] before.skipped(sn, k);
                        assert(x == before.skipped(sn, k));
                    }
                }
                assert(self.lost() =~= with_lost(start.lost(), wider));
            }
            i = i + 1;
        }
        assert(ahead == 0 ==> before.gap_up_to(sn, 1) =~= before.gap_up_to(sn, 0));
    }

    /// Converts a 16-bit sequence number into 32-bit extended sequence number,
    /// based on actual cycle count and last sequence number got.
    pub fn into_extended_sn(&self, sn: u16) -> (ext_sn: u32)
        requires
            self.wf(),
        ensures
            ext_sn == extended(self.cycles, self.max_seq_no, sn),
    {
        if sn >= 0x8000 && self.max_seq_no < 0x8000 {
            // Example: cycles (65536) - 65536 = 0, 0 + sn (32768) = 32768
            self.cycles.wrapping_sub(MAX_SEQUENCE_NUMBER) + sn as u32
        } else {
            // Example: cycles (65536) + sn (1001) = 66537
            self.cycles + sn as u32
        }
    }

    /// The extended sequence number of the latest packet.
    pub open spec fn head(&self) -> u32 {
        (self.cycles + self.max_seq_no) as u32
    }

    /// Whether `after` is this tracker once the feedback that `sent` holds was built, if lost
    /// packets are followed at all.
    pub open spec fn fed_back(
        &self,
        after: SequenceTracker,
        ssrc: u32,
        sent: Option<Vec<FeedbackPacket>>,
    ) -> bool {
        match (self.nacker, after.nacker, sent) {
            (None, None, None) => after == *self,
            (Some(before), Some(queue), Some(packets)) => {
                &&& before.after_round(queue, self.head())
                &&& is_feedback(
                    packets@,
                    ssrc,
                    before.pairs_of_round(self.head()),
                    queue.key_frame_seq_number != before.key_frame_seq_number,
                )
                &&& after == SequenceTracker { nacker: after.nacker, ..*self }
            },
            _ => false,
        }
    }

    /// Builds feedback packets, if lost packets are followed at all.
    pub fn feed_back(&mut self, media_ssrc: u32) -> (sent: Option<Vec<FeedbackPacket>>)
        requires
            old(self).wf(),
        ensures
            final(self).wf(),
            old(self).fed_back(*final(self), media_ssrc, sent),
    {
        if self.nacker.is_some() {
            Some(self.build_feedback_packets(media_ssrc))
        } else {
            None
        }
    }

    /// Build RTCP feedback packets (NACK and PLI) based on detected loss.
    ///
    /// # Returns
    /// - RTCP packets vector ready to be sent (may be empty)
    pub fn build_feedback_packets(&mut self, media_ssrc: u32) -> (packets: Vec<FeedbackPacket>)
        requires
            old(self).wf(),
        ensures
            final(self).wf(),
            *final(self) == (SequenceTracker { nacker: final(self).nacker, ..*old(self) }),
            match (old(self).nacker, final(self).nacker) {
                (None, None) => packets@.len() == 0,
                (Some(before), Some(after)) => {
                    &&& before.after_round(after, old(self).head())
                    &&& is_feedback(
                        packets@,
                        media_ssrc,
                        before.pairs_of_round(old(self).head()),
                        after.key_frame_seq_number != before.key_frame_seq_number,
                    )
                },
                _ => false,
            },
    {
        let mut pkts: Vec<FeedbackPacket> = Vec::new();
        let seq_number: u32 = self.cycles + self.max_seq_no as u32;
        if let Some(nacker) = self.nacker.as_mut() {
            let (nacks, ask_key_frame) = nacker.pairs(seq_number);
            // Add NACKs
            if let Some(nacks) = nacks {
                if nacks.len() > 0 {
                    pkts.push(FeedbackPacket::TransportLayerNack { media_ssrc, nacks });
                }
            }
            // Add PLI
            if ask_key_frame {
                pkts.push(FeedbackPacket::PictureLossIndication { media_ssrc });
            }
        }
        pkts
    }
}

/// The extended number of a packet is as many steps below the one of the latest packet as the packet
/// is older.
proof fn lemma_extended(cycles: u32, max_seq_no: u16, sn: u16)
    requires
        cycles % MAX_SEQUENCE_NUMBER == 0,
        ahead_by(max_seq_no, sn) <= 0x8000,
    ensures
        extended(cycles, max_seq_no, sn) == (cycles + max_seq_no - ahead_by(max_seq_no, sn))
            % 0x1_0000_0000,
{
}

/// A packet that was taken for lost and then arrives is no longer asked for, whatever gap it was lost
/// in: the newer packet `sn` adds it to the queue under the number under which it is taken out again
/// when it arrives.
pub proof fn law_late_packet_is_no_longer_lost(
    before: SequenceTracker,
    after: SequenceTracker,
    last: SequenceTracker,
    sn: u16,
    late: u16,
)
    requires
        before.wf(),
        before.nack,
        before.nacker is Some,
        before.is_newer(sn),
        0 < ahead_by(sn, late) < ahead_by(sn, before.max_seq_no),
        before.becomes(after, sn, false),
        after.becomes(last, late, false),
    ensures
        ({
            let ext = extended(after.cycles, after.max_seq_no, late);
            &&& after.lost().contains_key(ext)
            &&& last.lost() == after.lost().remove(ext)
        }),
{
    let i = ahead_by(sn, late);
    lemma_extended(after.cycles, sn, late);
    assert(extended(after.cycles, sn, late) == before.skipped(sn, i));
    assert(ahead_by(late, sn) >= 0x8000);
}

/// A packet keeps its extended number when a newer packet arrives, as long as it is at most half a
/// turn older than that.
pub proof fn law_extended_number_stays(tracker: SequenceTracker, sn: u16, late: u16)
    requires
        tracker.wf(),
        tracker.is_newer(sn),
        ahead_by(sn, tracker.max_seq_no) + ahead_by(tracker.max_seq_no, late) <= 0x8000,
    ensures
        extended(tracker.cycles_at(sn), sn, late) == extended(
            tracker.cycles,
            tracker.max_seq_no,
            late,
        ),
{
    lemma_extended(tracker.cycles, tracker.max_seq_no, late);
    lemma_extended(tracker.cycles_at(sn), sn, late);
}

/// A packet is newer where it is less than half a turn ahead of the latest one. A newer packet becomes
/// the latest one, and the extended number of the latest packet grows by as many steps; an older one
/// changes neither. The first packet of all starts the numbers.
pub proof fn law_latest_packet_moves_forward(
    before: SequenceTracker,
    after: SequenceTracker,
    sn: u16,
    first: bool,
)
    requires
        before.wf(),
        before.becomes(after, sn, first),
    ensures
        ({
            let ahead = (sn - before.max_seq_no) % 0x1_0000;
            &&& first ==> after.max_seq_no == sn && after.cycles == before.cycles
            &&& !first && ahead < 0x8000 ==> after.max_seq_no == sn && after.head() == (before.head()
                + ahead) % 0x1_0000_0000
            &&& !first && ahead >= 0x8000 ==> after.max_seq_no == before.max_seq_no && after.head()
                == before.head()
        }),
{
}

/// Just the packets between the latest one and a newer one are taken for lost, each with the extended
/// number that it has. They were not asked for yet. What was lost before stays lost.
pub proof fn law_gap_is_taken_for_lost(
    before: SequenceTracker,
    after: SequenceTracker,
    sn: u16,
    ext: u32,
)
    requires
        before.wf(),
        before.nack,
        before.nacker is Some,
        before.becomes(after, sn, false),
        (sn - before.max_seq_no) % 0x1_0000 < 0x8000,
    ensures
        after.lost().contains_key(ext) <==> before.lost().contains_key(ext) || (exists|k: int|
            0 < k < (sn - before.max_seq_no) % 0x1_0000 && ext == #[trigger] steps_behind(
                before.head(),
                k,
            )),
        before.lost().contains_key(ext) ==> after.lost()[ext] == before.lost()[ext],
        after.lost().contains_key(ext) && !before.lost().contains_key(ext) ==> after.lost()[ext]
            == 0,
{
    let ahead = (sn - before.max_seq_no) % 0x1_0000;
    let gap = before.gap(sn);
    assert(gap.contains(ext) <==> exists|k: int|
        0 < k < ahead && ext == #[trigger] steps_behind(before.head(), k)) by {
        assert((before.cycles_at(sn) + sn) % 0x1_0000_0000 == (before.head() + ahead)
            % 0x1_0000_0000);
        if gap.contains(ext) {
            let i = choose|i: int| 1 <= i < ahead && ext == #[trigger] before.skipped(sn, i);
            lemma_same_place(before, sn, i, ahead - i);
            assert(ext == steps_behind(before.head(), ahead - i));
        }
        if exists|k: int| 0 < k < ahead && ext == #[trigger] steps_behind(before.head(), k) {
            let k = choose|k: int| 0 < k < ahead && ext == #[trigger] steps_behind(before.head(), k);
            lemma_same_place(before, sn, ahead - k, k);
            assert(ext == before.skipped(sn, ahead - k));
        }
    }
}

/// The extended number of the packet that comes `k` steps behind the packet `head`.
pub open spec fn steps_behind(head: u32, k: int) -> u32 {
    ((head + k) % 0x1_0000_0000) as u32
}

/// A packet of a gap, counted from either end.
proof fn lemma_same_place(tracker: SequenceTracker, sn: u16, i: int, k: int)
    requires
        tracker.wf(),
        tracker.is_newer(sn),
        0 <= i,
        0 <= k,
        i + k == (sn - tracker.max_seq_no) % 0x1_0000,
    ensures
        tracker.skipped(sn, i) == steps_behind(tracker.head(), k),
{
}

/// A late packet is taken out of those that are lost, and no other one is. Nothing is taken for lost
/// where lost packets are not asked for.
pub proof fn law_late_packet_takes_out_only_itself(
    before: SequenceTracker,
    after: SequenceTracker,
    sn: u16,
    ext: u32,
)
    requires
        before.wf(),
        before.becomes(after, sn, false),
    ensures
        (sn - before.max_seq_no) % 0x1_0000 >= 0x8000 && before.nack && before.nacker is Some ==> (
        after.lost().contains_key(ext) <==> before.lost().contains_key(ext) && ext != (before.head()
            - (before.max_seq_no - sn) % 0x1_0000) % 0x1_0000_0000),
        !before.nack || before.nacker is None ==> after.lost() == before.lost(),
{
    if (sn - before.max_seq_no) % 0x1_0000 >= 0x8000 {
        lemma_extended(before.cycles, before.max_seq_no, sn);
    }
}

/// Feedback goes to the source of the track. It names just the packets of the round, and a key frame
/// is asked for just where a packet was given up that is newer than those before.
pub proof fn law_feedback_asks_for_what_is_lost(
    packets: Seq<FeedbackPacket>,
    ssrc: u32,
    pairs: Seq<NackPair>,
    key_frame: bool,
)
    requires
        is_feedback(packets, ssrc, pairs, key_frame),
    ensures
        pairs.len() == 0 && !key_frame ==> packets.len() == 0,
        forall|i: int|
            0 <= i < packets.len() ==> match #[trigger] packets[i] {
                FeedbackPacket::TransportLayerNack { media_ssrc, nacks } => media_ssrc == ssrc
                    && nacks@ == pairs && pairs.len() > 0,
                FeedbackPacket::PictureLossIndication { media_ssrc } => media_ssrc == ssrc
                    && key_frame,
            },
        pairs.len() > 0 ==> exists|i: int|
            0 <= i < packets.len() && (#[trigger] packets[i]) is TransportLayerNack,
        key_frame ==> exists|i: int|
            0 <= i < packets.len() && (#[trigger] packets[i]) is PictureLossIndication,
        packets.len() <= 2,
{
    if pairs.len() > 0 {
        assert(packets[0] is TransportLayerNack);
    }
    if key_frame {
        assert(packets[packets.len() - 1] is PictureLossIndication);
    }
}

/// Where lost packets are followed, a round asks for what is due, and for a key frame just where one is
/// waited for that was not asked for before. Where they are not followed nothing happens.
pub proof fn law_round_asks_for_what_is_due(
    before: SequenceTracker,
    after: SequenceTracker,
    ssrc: u32,
    sent: Option<Vec<FeedbackPacket>>,
)
    requires
        before.fed_back(after, ssrc, sent),
    ensures
        sent is Some <==> before.nacker is Some,
        after.nacker is Some <==> before.nacker is Some,
        before.nacker is None ==> after == before,
        after.cycles == before.cycles,
        after.max_seq_no == before.max_seq_no,
        after.nack == before.nack,
        sent matches Some(packets) ==> {
            let asks = after.nacker->0.key_frame_seq_number
                != before.nacker->0.key_frame_seq_number;
            &&& (exists|i: int|
                0 <= i < packets@.len() && (#[trigger] packets@[i]) is PictureLossIndication)
                <==> asks
            &&& (exists|i: int|
                0 <= i < packets@.len() && (#[trigger] packets@[i]) is TransportLayerNack)
                <==> before.nacker->0.pairs_of_round(before.head()).len() > 0
        },
{
    if let Some(packets) = sent {
        let asks = after.nacker->0.key_frame_seq_number != before.nacker->0.key_frame_seq_number;
        let pairs = before.nacker->0.pairs_of_round(before.head());
        law_feedback_asks_for_what_is_lost(packets@, ssrc, pairs, asks);
    }
}

} // verus!
