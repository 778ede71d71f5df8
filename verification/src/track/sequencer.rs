use std::collections::BTreeMap;
use vstd::prelude::*;

use crate::buffer::bucket::{ahead_by, distance, lemma_ahead_adds};

verus! {

/// How long a packet is not sent again, in milliseconds.
pub const IGNORE_RETRANSMISSION: u8 = 100;

/// What a down track remembers of a packet that it has sent.
#[derive(Debug, Eq, PartialEq, Clone, Copy, Structural)]
pub struct PacketMeta {
    // Original sequence number from stream.
    // The original sequence number is used to find the original
    // packet from publisher
    pub source_seq_no: u16,
    // Modified sequence number after offset.
    // This sequence number is used for the associated
    // down track, is modified according the offsets, and
    // must not be shared
    pub target_seq_no: u16,
    // Modified timestamp for current associated
    // down track.
    pub timestamp: u32,
    // The last time this packet was nack requested.
    // Sometimes clients request the same packet more than once, so keep
    // track of the requested packets helps to avoid writing multiple times
    // the same packet.
    // The resolution is 1 ms counting after the sequencer start time.
    pub last_nack: u128,
    // Spatial layer of packet
    pub layer: u8,
    // Information that differs depending the codec
    pub misc: u32,
}

/// The VP8 part of a packet in one number: the temporal level zero index above the picture ID.
pub open spec fn vp8_meta(tlz0_idx: u8, pic_id: u16) -> u32 {
    (tlz0_idx * 0x1_0000 + pic_id) as u32
}

impl Default for PacketMeta {
    fn default() -> (meta: Self)
        ensures
            meta == (PacketMeta {
                source_seq_no: 0,
                target_seq_no: 0,
                timestamp: 0,
                last_nack: 0,
                layer: 0,
                misc: 0,
            }),
    {
        PacketMeta {
            source_seq_no: 0,
            target_seq_no: 0,
            timestamp: 0,
            last_nack: 0,
            layer: 0,
            misc: 0,
        }
    }
}

impl PacketMeta {
    pub fn set_vp8_payload_meta(&mut self, tlz0_idx: u8, pic_id: u16)
        ensures
            *final(self) == (PacketMeta { misc: vp8_meta(tlz0_idx, pic_id), ..*old(self) }),
    {
        self.misc = tlz0_idx as u32 * 0x1_0000 + pic_id as u32;
    }

    pub fn get_vp8_payload_meta(&self) -> (res: (u8, u16))
        ensures
            res.0 == self.misc / 0x1_0000 % 0x100,
            res.1 == self.misc % 0x1_0000,
    {
        ((self.misc / 0x1_0000 % 0x100) as u8, (self.misc % 0x1_0000) as u16)
    }
}

/// What was set as the VP8 part of a packet is what is got.
pub proof fn law_vp8_meta_round_trip(tlz0_idx: u8, pic_id: u16)
    ensures
        vp8_meta(tlz0_idx, pic_id) / 0x1_0000 % 0x100 == tlz0_idx,
        vp8_meta(tlz0_idx, pic_id) % 0x1_0000 == pic_id,
{
}

/// Remembers the last packets that a down track has sent, by their sequence numbers.
pub struct Sequencer {
    pub init: bool,
    pub max: u32,
    pub seq: BTreeMap<u32, PacketMeta>,
    /// The slot of the latest packet.
    pub step: u32,
    pub head_sn: u16,
}

impl Sequencer {
    /// What every operation keeps.
    pub open spec fn wf(&self) -> bool {
        self.step < self.max
    }

    /// Whether the sequencer has a slot for the packet.
    pub open spec fn covers(&self, sn: u16) -> bool {
        ahead_by(self.head_sn, sn) < self.max
    }

    /// The slot of a packet.
    pub open spec fn slot(&self, sn: u16) -> u32 {
        ((self.step - ahead_by(self.head_sn, sn)) % (self.max as int)) as u32
    }

    /// What is known of the packet `sn`, if it is remembered.
    pub open spec fn packet(&self, sn: u16) -> Option<PacketMeta> {
        let slot = self.slot(sn);
        if self.covers(sn) && self.seq@.contains_key(slot) && self.seq@[slot].target_seq_no == sn {
            Some(self.seq@[slot])
        } else {
            None
        }
    }

    /// The packet `sn` to send again at `now`, unless it was sent again lately.
    pub open spec fn request(&self, sn: u16, now: u128) -> Option<PacketMeta> {
        match self.packet(sn) {
            Some(meta) if meta.last_nack == 0 || now - meta.last_nack > IGNORE_RETRANSMISSION => Some(
                PacketMeta { last_nack: now, ..meta },
            ),
            _ => None,
        }
    }

    /// Whether `after` is this sequencer once the packet `sn` was asked for at `now`.
    pub open spec fn requested(&self, after: Sequencer, sn: u16, now: u128) -> bool {
        &&& after == Sequencer { seq: after.seq, ..*self }
        &&& after.seq@ == match self.request(sn, now) {
            Some(meta) => self.seq@.insert(self.slot(sn), meta),
            None => self.seq@,
        }
    }

    /// Where the latest packet is, when the packet `off_sn` is pushed.
    pub open spec fn moved(self, off_sn: u16, head: bool) -> Sequencer {
        let head_sn = if self.init {
            self.head_sn
        } else {
            off_sn
        };
        if head {
            Sequencer {
                init: true,
                head_sn: off_sn,
                step: ((self.step + ahead_by(off_sn, head_sn)) % (self.max as int)) as u32,
                ..self
            }
        } else {
            Sequencer { init: true, head_sn, ..self }
        }
    }

    pub fn new(max_track: u32) -> (sequencer: Self)
        requires
            max_track > 0,
        ensures
            sequencer.wf(),
            sequencer.max == max_track,
            !sequencer.init,
            sequencer.step == 0,
            sequencer.head_sn == 0,
            sequencer.seq@ == Map::<u32, PacketMeta>::empty(),
    {
        Self { max: max_track, seq: BTreeMap::new(), init: false, step: 0, head_sn: 0 }
    }

    fn find_slot(&self, sn: u16) -> (res: Option<u32>)
        requires
            self.wf(),
        ensures
            res == if self.covers(sn) {
                Some(self.slot(sn))
            } else {
                None
            },
            res matches Some(slot) ==> slot < self.max,
    {
        let delta: u32 = distance(self.head_sn, sn) as u32;
        // Skip underflow
        if delta >= self.max {
            return None;
        }
        proof {
            lemma_slot(self.step as int, delta as int, self.max as int);
        }
        if self.step >= delta {
            Some(self.step - delta)
        } else {
            Some(self.max - (delta - self.step))
        }
    }

    fn lookup(&self, slot: u32) -> (res: Option<PacketMeta>)
        ensures
            res == if self.seq@.contains_key(slot) {
                Some(self.seq@[slot])
            } else {
                None
            },
    {
        broadcast use vstd::laws_cmp::group_laws_cmp;

        match self.seq.get(&slot) {
            Some(meta) => Some(*meta),
            None => None,
        }
    }

    fn store(&mut self, slot: u32, meta: PacketMeta)
        ensures
            *final(self) == (Sequencer { seq: final(self).seq, ..*old(self) }),
            final(self).seq@ == old(self).seq@.insert(slot, meta),
    {
        broadcast use vstd::laws_cmp::group_laws_cmp;

        let _replaced = self.seq.insert(slot, meta);
    }

    fn find(&self, sn: u16) -> (res: Option<PacketMeta>)
        requires
            self.wf(),
        ensures
            res == self.packet(sn),
    {
        match self.find_slot(sn) {
            None => None,
            Some(slot) => match self.lookup(slot) {
                Some(meta) if meta.target_seq_no == sn => Some(meta),
                _ => None,
            },
        }
    }
}

/// A slot, without the remainder.
proof fn lemma_slot(step: int, delta: int, max: int)
    requires
        0 <= step < max,
        0 <= delta < max,
    ensures
        (step - delta) % max == if step >= delta {
            step - delta
        } else {
            max - (delta - step)
        },
{
    if step >= delta {
        vstd::arithmetic::div_mod::lemma_small_mod((step - delta) as nat, max as nat);
    } else {
        vstd::arithmetic::div_mod::lemma_mod_add_multiples_vanish(step - delta, max);
        vstd::arithmetic::div_mod::lemma_small_mod((max - (delta - step)) as nat, max as nat);
    }
}

/// The sequencer of a down track.
pub struct AtomicSequencer {
    pub sequencer: Sequencer,
}

/// Whether `states` and `out` are the states of a sequencer and the packets to send again, while
/// the packets `sns` are asked for one after the other.
pub open spec fn answered(
    states: Seq<Sequencer>,
    out: Seq<PacketMeta>,
    sns: Seq<u16>,
    now: u128,
) -> bool
    decreases sns.len(),
{
    if sns.len() == 0 {
        states.len() == 1 && out.len() == 0
    } else {
        let before = states[states.len() - 2];
        &&& states.len() == sns.len() + 1
        &&& before.requested(states.last(), sns.last(), now)
        &&& match before.request(sns.last(), now) {
            Some(meta) => out.len() > 0 && out.last() == meta && answered(
                states.drop_last(),
                out.drop_last(),
                sns.drop_last(),
                now,
            ),
            None => answered(states.drop_last(), out, sns.drop_last(), now),
        }
    }
}

impl AtomicSequencer {
    /// What every operation keeps.
    pub open spec fn wf(&self) -> bool {
        self.sequencer.wf()
    }

    /// Whether this is a new sequencer that remembers `max_track` packets.
    pub open spec fn is_new(&self, max_track: u32) -> bool {
        &&& self.wf()
        &&& self.sequencer.max == max_track
        &&& !self.sequencer.init
        &&& self.sequencer.step == 0
        &&& self.sequencer.head_sn == 0
        &&& self.sequencer.seq@ == Map::<u32, PacketMeta>::empty()
    }

    pub fn new(max_track: u32) -> (sequencer: Self)
        requires
            max_track > 0,
        ensures
            sequencer.is_new(max_track),
    {
        Self { sequencer: Sequencer::new(max_track) }
    }

    /// Inserts a new RTP packet into the sequencer and returns the next ordered packet (if available).
    ///
    /// This method handles sequence number tracking, reordering logic, and step management to ensure
    /// packets are found in the correct order, even when received out of sequence. A packet that is
    /// older than all that the sequencer has slots for is not remembered.
    ///
    /// # Arguments
    ///
    /// * `sn` - Original sequence number of the incoming packet.
    /// * `off_sn` - Offset sequence number used for synchronization.
    /// * `timestamp` - RTP timestamp of the packet.
    /// * `layer` - Spatial/temporal layer index.
    /// * `head` - If true, resets or updates the head reference for sequencing.
    ///
    pub fn push(&mut self, sn: u16, off_sn: u16, timestamp: u32, layer: u8, head: bool) -> (res:
        Option<PacketMeta>)
        requires
            old(self).wf(),
        ensures
            final(self).wf(),
            old(self).sequencer.pushed(final(self).sequencer, sn, off_sn, timestamp, layer, head),
            res == final(self).sequencer.packet(((off_sn + 1) % 0x1_0000) as u16),
    {
        // Is the first packet?
        if !self.sequencer.init {
            self.sequencer.head_sn = off_sn;
            self.sequencer.init = true;
        }
        if head {
            let ahead: u16 = distance(off_sn, self.sequencer.head_sn);
            let step: u64 = (self.sequencer.step as u64 + ahead as u64) % self.sequencer.max as u64;
            self.sequencer.step = step as u32;
            self.sequencer.head_sn = off_sn;
        }
        if let Some(slot) = self.sequencer.find_slot(off_sn) {
            self.sequencer.store(
                slot,
                PacketMeta {
                    source_seq_no: sn,
                    target_seq_no: off_sn,
                    timestamp,
                    last_nack: 0,
                    layer,
                    misc: 0,
                },
            );
        }
        self.sequencer.find(off_sn.wrapping_add(1))
    }

    /// Gets a list of packets matching the requested sequence numbers for retransmission,
    /// filtering out recently retransmitted packets to avoid flooding.
    ///
    /// # Arguments
    /// * `seq_nos` - Slice of sequence numbers to look up for retransmission.
    /// * `ref_time` - Milliseconds since the sequencer was created.
    ///
    /// # Returns
    /// A vector of `PacketMeta` objects ready to be retransmitted.
    pub fn get_seq_no_pairs(&mut self, seq_nos: &[u16], ref_time: u128) -> (meta: Vec<PacketMeta>)
        requires
            old(self).wf(),
        ensures
            final(self).wf(),
            exists|states: Seq<Sequencer>|
                {
                    &&& #[trigger] answered(states, meta@, seq_nos@, ref_time)
                    &&& states[0] == old(self).sequencer
                    &&& states.last() == final(self).sequencer
                },
    {
        let mut meta: Vec<PacketMeta> = Vec::new();
        let ghost mut states: Seq<Sequencer> = seq![self.sequencer];
        let mut i: usize = 0;
        assert(seq_nos@.take(0) =~= Seq::<u16>::empty());
        while i < seq_nos.len()
            invariant
                self.wf(),
                i <= seq_nos@.len(),
                states.len() == i + 1,
                states[0] == old(self).sequencer,
                states.last() == self.sequencer,
                answered(states, meta@, seq_nos@.take(i as int), ref_time),
            decreases seq_nos@.len() - i,
        {
            let sn: u16 = seq_nos[i];
            let ghost before = self.sequencer;
            let ghost so_far = meta@;
            if let Some(pkt) = self.sequencer.find(sn) {
                if pkt.last_nack == 0 || ref_time.saturating_sub(pkt.last_nack)
                    > IGNORE_RETRANSMISSION as u128 {
                    if let Some(slot) = self.sequencer.find_slot(sn) {
                        let sent = PacketMeta {
                            source_seq_no: pkt.source_seq_no,
                            target_seq_no: pkt.target_seq_no,
                            timestamp: pkt.timestamp,
                            last_nack: ref_time,
                            layer: pkt.layer,
                            misc: pkt.misc,
                        };
                        self.sequencer.store(slot, sent);
                        meta.push(sent);
                    }
                }
            }
            i = i + 1;
            proof {
                let longer = states.push(self.sequencer);
                let sns = seq_nos@.take(i as int);
                assert(longer.drop_last() =~= states);
                assert(longer[longer.len() - 2] == before);
                assert(sns.drop_last() =~= seq_nos@.take(i - 1));
                assert(sns.last() == sn);
                assert(before.requested(self.sequencer, sn, ref_time));
                if before.request(sn, ref_time) is Some {
                    assert(meta@.drop_last() =~= so_far);
                }
                states = longer;
            }
        }
        assert(seq_nos@.take(i as int) =~= seq_nos@);
        meta
    }
}

impl Sequencer {
    /// Whether `after` is this sequencer once a packet was pushed.
    pub open spec fn pushed(
        &self,
        after: Sequencer,
        sn: u16,
        off_sn: u16,
        timestamp: u32,
        layer: u8,
        head: bool,
    ) -> bool {
        let moved = self.moved(off_sn, head);
        &&& after == Sequencer { seq: after.seq, ..moved }
        &&& after.seq@ == if moved.covers(off_sn) {
            self.seq@.insert(
                moved.slot(off_sn),
                PacketMeta {
                    source_seq_no: sn,
                    target_seq_no: off_sn,
                    timestamp,
                    last_nack: 0,
                    layer,
                    misc: 0,
                },
            )
        } else {
            self.seq@
        }
    }
}

/// A packet that was pushed can be asked for: it is found under the number that it was sent with,
/// and names the number that it came with.
pub proof fn law_pushed_packet_is_found(
    before: Sequencer,
    after: Sequencer,
    sn: u16,
    off_sn: u16,
    timestamp: u32,
    layer: u8,
    head: bool,
    now: u128,
)
    requires
        before.wf(),
        before.pushed(after, sn, off_sn, timestamp, layer, head),
        before.moved(off_sn, head).covers(off_sn),
    ensures
        after.request(off_sn, now) == Some(
            PacketMeta {
                source_seq_no: sn,
                target_seq_no: off_sn,
                timestamp,
                last_nack: now,
                layer,
                misc: 0,
            },
        ),
{
}

/// A packet that was sent again is not sent again within [IGNORE_RETRANSMISSION] milliseconds.
pub proof fn law_not_sent_again_at_once(
    before: Sequencer,
    after: Sequencer,
    sn: u16,
    now: u128,
    later: u128,
)
    requires
        before.wf(),
        before.request(sn, now) is Some,
        before.requested(after, sn, now),
        0 < now,
        later - now <= IGNORE_RETRANSMISSION,
    ensures
        after.request(sn, later) is None,
{
}

/// The latest packet takes the place of no packet that the sequencer still has a slot for.
pub proof fn law_head_keeps_the_recent(
    before: Sequencer,
    after: Sequencer,
    sn: u16,
    off_sn: u16,
    timestamp: u32,
    layer: u8,
    other: u16,
)
    requires
        before.wf(),
        before.init,
        before.pushed(after, sn, off_sn, timestamp, layer, true),
        other != off_sn,
        ahead_by(off_sn, before.head_sn) + ahead_by(before.head_sn, other) < before.max,
        ahead_by(off_sn, before.head_sn) + ahead_by(before.head_sn, other) < 0x1_0000,
    ensures
        after.packet(other) == before.packet(other),
{
    let gap = ahead_by(off_sn, before.head_sn);
    let behind = ahead_by(before.head_sn, other);
    let max = before.max as int;
    lemma_ahead_adds(off_sn, before.head_sn, other);
    lemma_slot(before.step as int, behind, max);
    lemma_step_forward(before.step as int, gap, max);
    lemma_slot(after.step as int, behind + gap, max);
    lemma_slot(after.step as int, 0, max);
}

/// A late packet takes the place of no other packet.
pub proof fn law_late_keeps_the_others(
    before: Sequencer,
    after: Sequencer,
    sn: u16,
    off_sn: u16,
    timestamp: u32,
    layer: u8,
    other: u16,
)
    requires
        before.wf(),
        before.init,
        before.pushed(after, sn, off_sn, timestamp, layer, false),
        other != off_sn,
    ensures
        after.packet(other) == before.packet(other),
{
    let max = before.max as int;
    if before.covers(other) && before.covers(off_sn) {
        lemma_slot(before.step as int, ahead_by(before.head_sn, other), max);
        lemma_slot(before.step as int, ahead_by(before.head_sn, off_sn), max);
    }
}

/// A step forward, without the remainder.
proof fn lemma_step_forward(step: int, gap: int, max: int)
    requires
        0 <= step < max,
        0 <= gap < max,
    ensures
        (step + gap) % max == if step + gap < max {
            step + gap
        } else {
            step + gap - max
        },
{
    if step + gap < max {
        vstd::arithmetic::div_mod::lemma_small_mod((step + gap) as nat, max as nat);
    } else {
        vstd::arithmetic::div_mod::lemma_mod_add_multiples_vanish(step + gap - max, max);
        vstd::arithmetic::div_mod::lemma_small_mod((step + gap - max) as nat, max as nat);
    }
}

/// The latest packet can always be asked for again, and so can a late one that is less than as many
/// packets older than the latest one as the sequencer remembers.
pub proof fn law_recent_packet_can_be_asked_for(
    before: Sequencer,
    after: Sequencer,
    sn: u16,
    off_sn: u16,
    timestamp: u32,
    layer: u8,
    head: bool,
    now: u128,
)
    requires
        before.wf(),
        before.pushed(after, sn, off_sn, timestamp, layer, head),
        head || !before.init || (before.head_sn - off_sn) % 0x1_0000 < before.max,
    ensures
        after.request(off_sn, now) matches Some(meta) && {
            &&& meta.source_seq_no == sn
            &&& meta.target_seq_no == off_sn
            &&& meta.timestamp == timestamp
            &&& meta.layer == layer
        },
        head ==> after.head_sn == off_sn,
        !head && before.init ==> after.head_sn == before.head_sn,
{
}

/// What is sent again bears the number that was asked for. A packet that was sent again is sent once
/// more just where more than 100 milliseconds went by.
pub proof fn law_sent_again_after_a_while(
    before: Sequencer,
    after: Sequencer,
    sn: u16,
    now: u128,
    later: u128,
)
    requires
        before.wf(),
        before.requested(after, sn, now),
        before.request(sn, now) is Some,
        0 < now <= later,
    ensures
        before.request(sn, now)->Some_0.target_seq_no == sn,
        later - now > 100 <==> after.request(sn, later) is Some,
        after.request(sn, later) matches Some(meta) ==> meta.target_seq_no == sn
            && meta.source_seq_no == before.request(sn, now)->Some_0.source_seq_no,
{
}

/// Asking for a packet does not change what is remembered of another one.
pub proof fn law_request_keeps_the_others(
    before: Sequencer,
    after: Sequencer,
    sn: u16,
    other: u16,
    now: u128,
)
    requires
        before.wf(),
        before.requested(after, sn, now),
        other != sn,
    ensures
        after.packet(other) == before.packet(other),
{
    let max = before.max as int;
    if before.covers(other) && before.covers(sn) {
        lemma_slot(before.step as int, ahead_by(before.head_sn, other), max);
        lemma_slot(before.step as int, ahead_by(before.head_sn, sn), max);
    }
}

/// Of the packets that are asked for, each answer is for one of them, and there are not more answers
/// than questions.
pub proof fn law_answers_are_for_what_was_asked(
    states: Seq<Sequencer>,
    out: Seq<PacketMeta>,
    sns: Seq<u16>,
    now: u128,
)
    requires
        answered(states, out, sns, now),
    ensures
        out.len() <= sns.len(),
        forall|i: int|
            0 <= i < out.len() ==> sns.contains((#[trigger] out[i]).target_seq_no) && out[i].last_nack
                == now,
    decreases sns.len(),
{
    if sns.len() > 0 {
        let before = states[states.len() - 2];
        let shorter = sns.drop_last();
        let fewer = if before.request(sns.last(), now) is Some {
            out.drop_last()
        } else {
            out
        };
        law_answers_are_for_what_was_asked(states.drop_last(), fewer, shorter, now);
        assert forall|i: int| 0 <= i < out.len() implies sns.contains(
            (#[trigger] out[i]).target_seq_no,
        ) && out[i].last_nack == now by {
            if i < fewer.len() {
                assert(fewer[i] == out[i]);
                let k = choose|k: int|
                    0 <= k < shorter.len() && shorter[k] == fewer[i].target_seq_no;
                assert(sns[k] == fewer[i].target_seq_no);
            } else {
                assert(sns[sns.len() - 1] == out[i].target_seq_no);
            }
        }
    }
}

} // verus!
