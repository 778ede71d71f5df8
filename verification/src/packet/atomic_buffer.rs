use vstd::prelude::*;

use crate::buffer::bucket::Bucket;
use crate::buffer::error::{BufferError, Result};
use crate::packet::buffer::{
    new_bucket, Buffer, ExtPacket, Options, Stats, AUDIO_POOL_LEN, VIDEO_POOL_LEN,
};
use crate::packet::nack::NackQueue;
use crate::packet::params::{settings_of, track_settings, RTCRtpParameters, RTPCodecType};
use crate::packet::rtp::{
    audio_level, read_audio_level, read_transport_cc, transport_sequence, Header, Packet,
};
use crate::packet::sequence::{law_round_asks_for_what_is_due, FeedbackPacket};

verus! {

/// A packet that arrived before its track was bound.
pub struct PendingPacket {
    /// Arrival time in nanoseconds since the buffer was created.
    pub arrival: u64,
    pub packet: Packet,
}

/// What came of a packet.
pub struct Written {
    /// The packet for the readers of the track.
    pub packet: Option<ExtPacket>,
    /// Feedback to the sender of the track.
    pub feedback: Option<Vec<FeedbackPacket>>,
    /// The transport wide sequence number, the arrival time and the marker.
    pub transport_cc: Option<(u16, u64, bool)>,
    /// Whether there is voice, and how loud it is.
    pub audio_level: Option<(bool, u8)>,
}

/// The buffer of a track, from the first packet on.
pub struct AtomicBuffer {
    pub audio_ext: u8,
    pub audio_level: bool,
    pub bound: bool,
    pub buffer: Buffer,
    pub pending_packets: Vec<PendingPacket>,
    pub twcc: bool,
    pub twcc_ext: u8,
}

/// Whether `states` and `out` are the states of a buffer and the results while the pending packets
/// are processed, in the order in which they arrived.
pub open spec fn processed_in_order(
    states: Seq<Buffer>,
    out: Seq<ExtPacket>,
    pending: Seq<PendingPacket>,
    now: u64,
) -> bool {
    &&& states.len() == pending.len() + 1
    &&& out.len() == pending.len()
    &&& forall|i: int|
        0 <= i < pending.len() ==> caught_up(#[trigger] states[i], states[i + 1], out[i], pending[i], now)
}

/// Whether `after` is the buffer `before` once a pending packet was processed.
#[verifier::opaque]
pub open spec fn caught_up(
    before: Buffer,
    after: Buffer,
    ep: ExtPacket,
    pending: PendingPacket,
    now: u64,
) -> bool {
    before.processed(after, ep, pending.packet, pending.arrival, now)
}

/// Processes a packet that arrived before its track was bound.
fn catch_up(buffer: &mut Buffer, pending: PendingPacket, now: u64) -> (ep: ExtPacket)
    requires
        old(buffer).wf(),
    ensures
        final(buffer).wf(),
        caught_up(*old(buffer), *final(buffer), ep, pending, now),
{
    reveal(caught_up);
    buffer.process_rtp_packet(pending.packet, pending.arrival, now)
}

/// Processing one more packet.
proof fn lemma_processed_one_more(
    states: Seq<Buffer>,
    out: Seq<ExtPacket>,
    pending: Seq<PendingPacket>,
    now: u64,
    after: Buffer,
    ep: ExtPacket,
    next: PendingPacket,
)
    requires
        processed_in_order(states, out, pending, now),
        caught_up(states.last(), after, ep, next, now),
    ensures
        processed_in_order(states.push(after), out.push(ep), pending.push(next), now),
{
    let longer = states.push(after);
    let done = pending.push(next);
    assert forall|i: int| 0 <= i < done.len() implies caught_up(
        #[trigger] longer[i],
        longer[i + 1],
        out.push(ep)[i],
        done[i],
        now,
    ) by {
        if i < pending.len() {
            assert(caught_up(states[i], states[i + 1], out[i], pending[i], now));
        }
    }
}

impl AtomicBuffer {
    /// What every operation keeps.
    pub open spec fn wf(&self) -> bool {
        self.buffer.wf()
    }

    /// Whether this is the buffer of a track of which no packet has arrived.
    pub open spec fn is_new(&self, ssrc: u32) -> bool {
        &&& self.wf()
        &&& self.buffer.is_new(ssrc)
        &&& !self.bound
        &&& self.pending_packets@.len() == 0
        &&& !self.twcc
        &&& self.twcc_ext == 0
        &&& !self.audio_level
        &&& self.audio_ext == 0
    }

    pub fn new(ssrc: u32) -> (buffer: Self)
        ensures
            buffer.is_new(ssrc),
    {
        Self {
            audio_ext: 0,
            audio_level: false,
            bound: false,
            buffer: Buffer::new(ssrc),
            pending_packets: Vec::new(),
            twcc: false,
            twcc_ext: 0,
        }
    }

    /// The transport wide sequence number of a packet, if there is someone to tell.
    pub open spec fn transport_cc_of(&self, header: Header, arrival: u64) -> Option<
        (u16, u64, bool),
    > {
        if !self.twcc {
            None
        } else {
            match header.extension_payload(self.twcc_ext) {
                None => None,
                Some(ext) => match transport_sequence(ext) {
                    None => None,
                    Some(sequence) => Some((sequence, arrival, header.marker)),
                },
            }
        }
    }

    /// The audio level of a packet, if there is someone to tell.
    pub open spec fn audio_level_of(&self, header: Header) -> Option<(bool, u8)> {
        if !self.audio_level {
            None
        } else {
            match header.extension_payload(self.audio_ext) {
                None => None,
                Some(ext) => audio_level(ext),
            }
        }
    }

    /// Whether `after` is the buffer `before` of a track once a packet was processed and the
    /// feedback was built.
    pub open spec fn wrote(
        before: Buffer,
        after: Buffer,
        ep: ExtPacket,
        sent: Option<Vec<FeedbackPacket>>,
        packet: Packet,
        arrival: u64,
        now: u64,
    ) -> bool {
        exists|mid: Buffer|
            {
                &&& #[trigger] before.processed(mid, ep, packet, arrival, now)
                &&& mid.seq.fed_back(after.seq, mid.media_ssrc, sent)
                &&& after == Buffer { seq: after.seq, ..mid }
            }
    }

    /// Whether `after` and `res` come of a packet.
    pub open spec fn written(
        &self,
        after: AtomicBuffer,
        res: Written,
        pkt: Packet,
        arrival: u64,
        now: u64,
    ) -> bool {
        &&& after == AtomicBuffer {
            buffer: after.buffer,
            pending_packets: after.pending_packets,
            ..*self
        }
        &&& if self.bound {
            &&& after.pending_packets == self.pending_packets
            &&& res.packet matches Some(ep) && Self::wrote(
                self.buffer,
                after.buffer,
                ep,
                res.feedback,
                pkt,
                arrival,
                now,
            )
            &&& res.transport_cc == self.transport_cc_of(pkt.header, arrival)
            &&& res.audio_level == self.audio_level_of(pkt.header)
        } else {
            &&& after.buffer == self.buffer
            &&& after.pending_packets@ == self.pending_packets@.push(
                PendingPacket { arrival, packet: pkt },
            )
            &&& res.packet is None
            &&& res.feedback is None
            &&& res.transport_cc is None
            &&& res.audio_level is None
        }
    }

    /// Adds a RTP Packet, out of order, new packet may be arrived later
    #[verifier::rlimit(30)]
    pub fn write(&mut self, pkt: Packet, arrival: u64, now: u64) -> (res: Written)
        requires
            old(self).wf(),
        ensures
            final(self).wf(),
            *final(self) == (AtomicBuffer {
                buffer: final(self).buffer,
                pending_packets: final(self).pending_packets,
                ..*old(self)
            }),
            !old(self).bound ==> {
                &&& final(self).buffer == old(self).buffer
                &&& final(self).pending_packets@ == old(self).pending_packets@.push(
                    PendingPacket { arrival, packet: pkt },
                )
                &&& res.packet is None
                &&& res.feedback is None
                &&& res.transport_cc is None
                &&& res.audio_level is None
            },
            old(self).bound ==> {
                &&& final(self).pending_packets == old(self).pending_packets
                &&& res.packet matches Some(ep) && Self::wrote(
                    old(self).buffer,
                    final(self).buffer,
                    ep,
                    res.feedback,
                    pkt,
                    arrival,
                    now,
                )
                &&& res.transport_cc == old(self).transport_cc_of(pkt.header, arrival)
                &&& res.audio_level == old(self).audio_level_of(pkt.header)
            },
            old(self).written(*final(self), res, pkt, arrival, now),
    {
        if !self.bound {
            self.pending_packets.push(PendingPacket { arrival, packet: pkt });
            return Written { packet: None, feedback: None, transport_cc: None, audio_level: None };
        }
        let transport_cc = self.read_transport_cc_of(&pkt.header, arrival);
        let audio_level = self.read_audio_level_of(&pkt.header);
        let ep = self.buffer.process_rtp_packet(pkt, arrival, now);
        let ghost mid = self.buffer;
        assert(old(self).buffer.processed(mid, ep, pkt, arrival, now));
        let ssrc: u32 = self.buffer.media_ssrc;
        let feedback = self.buffer.seq.feed_back(ssrc);
        assert(Self::wrote(old(self).buffer, self.buffer, ep, feedback, pkt, arrival, now));
        Written { packet: Some(ep), feedback, transport_cc, audio_level }
    }

    fn read_transport_cc_of(&self, header: &Header, arrival: u64) -> (res: Option<
        (u16, u64, bool),
    >)
        ensures
            res == self.transport_cc_of(*header, arrival),
    {
        if self.twcc {
            if let Some(ext) = header.get_extension(self.twcc_ext) {
                if let Some(sequence) = read_transport_cc(ext) {
                    return Some((sequence, arrival, header.marker));
                }
            }
        }
        None
    }

    fn read_audio_level_of(&self, header: &Header) -> (res: Option<(bool, u8)>)
        ensures
            res == self.audio_level_of(*header),
    {
        if self.audio_level {
            if let Some(ext) = header.get_extension(self.audio_ext) {
                return read_audio_level(ext);
            }
        }
        None
    }

    /// Whether the packet can be read: a buffer hands its packets out as they are written.
    pub fn read(&self) -> (res: Result<Packet>)
        ensures
            res == Err::<Packet, BufferError>(BufferError::ErrPacketNotFound),
    {
        Err(BufferError::ErrPacketNotFound)
    }

    /// Whether `after` is this buffer with what was agreed on for its track.
    pub open spec fn configured(
        &self,
        after: AtomicBuffer,
        params: RTCRtpParameters,
        o: Options,
    ) -> bool {
        let settings = settings_of(params);
        let asks_nack = settings.kind is Video && settings.nack;
        &&& after.buffer.mime@ == settings.mime
        &&& after.buffer == Buffer {
            clock_rate: params.codecs@[0].capability.clock_rate,
            max_bitrate: o.max_bitrate,
            mime: after.buffer.mime,
            codec_type: settings.kind,
            bucket: after.buffer.bucket,
            remb: self.buffer.remb || settings.kind is Video && settings.remb,
            seq: after.buffer.seq,
            ..self.buffer
        }
        &&& new_bucket(after.buffer.bucket, self.buffer.bucket, settings.kind)
        &&& self.buffer.seq.restarts(after.buffer.seq, asks_nack)
        &&& after.twcc == (self.twcc || settings.kind is Video && settings.twcc)
        &&& after.twcc_ext == match settings.twcc_ext {
            Some(id) => id,
            None => self.twcc_ext,
        }
        &&& after.audio_level == (self.audio_level || settings.kind is Audio
            && settings.audio_ext is Some)
        &&& after.audio_ext == match settings.audio_ext {
            Some(id) if settings.kind is Audio => id,
            _ => self.audio_ext,
        }
        &&& after.bound == self.bound
        &&& after.pending_packets == self.pending_packets
    }

    /// Whether `after` is this buffer with what was agreed on for its track, and `out` is what came
    /// of the packets that arrived before.
    pub open spec fn bound_to(
        &self,
        after: AtomicBuffer,
        params: RTCRtpParameters,
        o: Options,
        now: u64,
        out: Seq<ExtPacket>,
    ) -> bool {
        exists|ready: AtomicBuffer, states: Seq<Buffer>|
            {
                &&& #[trigger] self.configured(ready, params, o)
                &&& #[trigger] processed_in_order(states, out, self.pending_packets@, now)
                &&& states[0] == ready.buffer
                &&& after == AtomicBuffer {
                    buffer: states.last(),
                    bound: true,
                    pending_packets: after.pending_packets,
                    ..ready
                }
                &&& after.pending_packets@.len() == 0
            }
    }

    /// Takes over what was agreed on for the track, and processes the packets that arrived before.
    ///
    /// # Returns
    /// - The packets for the readers of the track
    #[verifier::rlimit(30)]
    pub fn bind(&mut self, params: &RTCRtpParameters, o: Options, now: u64) -> (out: Vec<ExtPacket>)
        requires
            old(self).wf(),
            params.codecs@.len() > 0,
        ensures
            final(self).wf(),
            final(self).bound,
            final(self).pending_packets@.len() == 0,
            old(self).bound_to(*final(self), *params, o, now, out@),
    {
        self.configure(params, o);
        let ghost ready = *self;
        let ghost mut states: Seq<Buffer> = seq![self.buffer];
        let ghost waiting = self.pending_packets@;
        let mut out: Vec<ExtPacket> = Vec::new();
        let ghost mut done: int = 0;
        assert(waiting.skip(0) =~= waiting);
        while self.pending_packets.len() > 0
            invariant
                self.wf(),
                0 <= done <= waiting.len(),
                self.pending_packets@ == waiting.skip(done),
                *self == (AtomicBuffer {
                    buffer: self.buffer,
                    pending_packets: self.pending_packets,
                    ..ready
                }),
                states.len() == done + 1,
                states[0] == ready.buffer,
                states.last() == self.buffer,
                processed_in_order(states, out@, waiting.take(done), now),
            decreases self.pending_packets@.len(),
        {
            let pp = self.pending_packets.remove(0);
            assert(pp == waiting[done]);
            let ext_packet = catch_up(&mut self.buffer, pp, now);
            let ghost so_far = out@;
            out.push(ext_packet);
            proof {
                assert(waiting.take(done + 1) =~= waiting.take(done).push(pp));
                lemma_processed_one_more(
                    states,
                    so_far,
                    waiting.take(done),
                    now,
                    self.buffer,
                    ext_packet,
                    pp,
                );
                states = states.push(self.buffer);
                done = done + 1;
                assert(self.pending_packets@ =~= waiting.skip(done));
            }
        }
        self.bound = true;
        proof {
            assert(done == waiting.len());
            assert(waiting.take(done) =~= waiting);
            assert(processed_in_order(states, out@, old(self).pending_packets@, now));
            assert(old(self).configured(ready, *params, o));
        }
        out
    }

    /// Takes over what was agreed on for the track.
    fn configure(&mut self, params: &RTCRtpParameters, o: Options)
        requires
            old(self).wf(),
            params.codecs@.len() > 0,
        ensures
            final(self).wf(),
            old(self).configured(*final(self), *params, o),
    {
        let settings = track_settings(params);
        self.buffer.clock_rate = params.codecs[0].capability.clock_rate;
        self.buffer.max_bitrate = o.max_bitrate;
        self.buffer.codec_type = settings.kind;
        self.buffer.mime = settings.mime;
        if let Some(id) = settings.twcc_ext {
            self.twcc_ext = id;
        }
        match settings.kind {
            RTPCodecType::Video => {
                self.buffer.bucket = Some(Bucket::new(VIDEO_POOL_LEN));
                if settings.remb {
                    self.buffer.remb = true;
                }
                if settings.twcc {
                    self.twcc = true;
                }
                if settings.nack {
                    self.buffer.seq.nack = true;
                    self.buffer.seq.nacker = Some(NackQueue::new());
                }
            },
            RTPCodecType::Audio => {
                self.buffer.bucket = Some(Bucket::new(AUDIO_POOL_LEN));
                if let Some(id) = settings.audio_ext {
                    self.audio_level = true;
                    self.audio_ext = id;
                }
            },
            RTPCodecType::Unspecified => {},
        }
    }

    pub fn bitrate(&self) -> (bitrate: u64)
        ensures
            bitrate == self.buffer.bitrate,
    {
        self.buffer.bitrate
    }

    /// Copies the packet with the sequence number `sn` to the front of `buff` and returns its size.
    pub fn get_packet(&self, buff: &mut [u8], sn: u16) -> (res: Result<usize>)
        requires
            self.wf(),
        ensures
            final(buff)@.len() == old(buff)@.len(),
            self.buffer.closed ==> res == Err::<usize, BufferError>(BufferError::ErrIOEof)
                && final(buff)@ == old(buff)@,
            !self.buffer.closed && self.buffer.bucket is None ==> res == Ok::<usize, BufferError>(0)
                && final(buff)@ == old(buff)@,
            !self.buffer.closed && self.buffer.bucket is Some ==> self.buffer.bucket->Some_0.copied(
                res,
                old(buff)@,
                final(buff)@,
                sn,
            ),
    {
        if self.buffer.closed {
            return Err(BufferError::ErrIOEof);
        }
        if let Some(bucket) = &self.buffer.bucket {
            return bucket.get_packet(buff, sn);
        }
        Ok(0)
    }

    pub fn get_sender_report_data(&self) -> (res: (u32, u64, i64))
        ensures
            res == (
                self.buffer.last_srrtp_time,
                self.buffer.last_srntp_time,
                self.buffer.last_sr_recv,
            ),
    {
        (self.buffer.last_srrtp_time, self.buffer.last_srntp_time, self.buffer.last_sr_recv)
    }

    pub fn get_status(&self) -> (stats: Stats)
        ensures
            stats == self.buffer.stats,
    {
        self.buffer.stats
    }

    pub fn max_temporal_layer(&self) -> (layer: i32)
        ensures
            layer == self.buffer.max_temporal_layer,
    {
        self.buffer.max_temporal_layer
    }

    /// Takes note of a sender report that arrived at `recv`.
    pub fn set_sender_report_data(&mut self, rtp_time: u32, ntp_time: u64, recv: i64)
        ensures
            *final(self) == (AtomicBuffer { buffer: final(self).buffer, ..*old(self) }),
            final(self).buffer == (Buffer {
                last_srrtp_time: rtp_time,
                last_srntp_time: ntp_time,
                last_sr_recv: recv,
                ..old(self).buffer
            }),
    {
        self.buffer.last_srrtp_time = rtp_time;
        self.buffer.last_srntp_time = ntp_time;
        self.buffer.last_sr_recv = recv;
    }
}

/// No packet is lost while a track is not bound: they wait in the order in which they came, and
/// nothing is told of them. Once the track is bound, each packet is handed on at once.
pub proof fn law_packets_wait_for_the_track_to_be_bound(
    before: AtomicBuffer,
    after: AtomicBuffer,
    res: Written,
    pkt: Packet,
    arrival: u64,
    now: u64,
)
    requires
        before.written(after, res, pkt, arrival, now),
    ensures
        !before.bound ==> {
            &&& res.packet is None
            &&& after.pending_packets@.len() == before.pending_packets@.len() + 1
            &&& after.pending_packets@.last().packet == pkt
            &&& after.pending_packets@.last().arrival == arrival
            &&& after.pending_packets@.drop_last() == before.pending_packets@
            &&& after.buffer == before.buffer
        },
        before.bound ==> {
            &&& after.pending_packets == before.pending_packets
            &&& res.packet matches Some(ep) && ep.packet == pkt && ep.arrival == arrival
        },
        after.bound == before.bound,
{
    if !before.bound {
        assert(after.pending_packets@.drop_last() =~= before.pending_packets@);
    }
}

/// When a track is bound, the packets that waited are handed on, each once, in the order in which they
/// came, and with the times at which they arrived. None waits any longer.
pub proof fn law_waiting_packets_are_handed_on(
    before: AtomicBuffer,
    after: AtomicBuffer,
    params: RTCRtpParameters,
    o: Options,
    now: u64,
    out: Seq<ExtPacket>,
)
    requires
        before.bound_to(after, params, o, now, out),
    ensures
        after.bound,
        after.pending_packets@.len() == 0,
        out.len() == before.pending_packets@.len(),
        forall|i: int|
            0 <= i < out.len() ==> (#[trigger] out[i]).packet == before.pending_packets@[i].packet
                && out[i].arrival == before.pending_packets@[i].arrival,
{
    let (ready, states) = choose|ready: AtomicBuffer, states: Seq<Buffer>|
        {
            &&& #[trigger] before.configured(ready, params, o)
            &&& #[trigger] processed_in_order(states, out, before.pending_packets@, now)
            &&& states[0] == ready.buffer
            &&& after == AtomicBuffer {
                buffer: states.last(),
                bound: true,
                pending_packets: after.pending_packets,
                ..ready
            }
            &&& after.pending_packets@.len() == 0
        };
    assert forall|i: int| 0 <= i < out.len() implies (#[trigger] out[i]).packet
        == before.pending_packets@[i].packet && out[i].arrival
        == before.pending_packets@[i].arrival by {
        assert(caught_up(states[i], states[i + 1], out[i], before.pending_packets@[i], now));
        reveal(caught_up);
    }
}

/// A video track keeps 750000 bytes of packets and an audio track 37500, from the start on. Lost
/// packets are asked for in a video track whose codec supports it, and the loudness is told of in an
/// audio track with the extension for it.
pub proof fn law_track_is_set_up_by_its_kind(
    before: AtomicBuffer,
    after: AtomicBuffer,
    params: RTCRtpParameters,
    o: Options,
)
    requires
        before.configured(after, params, o),
        params.codecs@.len() > 0,
    ensures
        ({
            let settings = settings_of(params);
            &&& after.buffer.clock_rate == params.codecs@[0].capability.clock_rate
            &&& after.buffer.codec_type == settings.kind
            &&& after.buffer.mime@ == settings.mime
            &&& after.buffer.max_bitrate == o.max_bitrate
            &&& settings.kind is Video ==> (after.buffer.bucket matches Some(bucket)
                && bucket.capacity == 750_000 && !bucket.init)
            &&& settings.kind is Audio ==> (after.buffer.bucket matches Some(bucket)
                && bucket.capacity == 37_500 && !bucket.init)
            &&& settings.kind is Video && settings.nack ==> after.buffer.seq.nack
                && after.buffer.seq.nacker is Some
            &&& settings.kind is Audio ==> after.buffer.seq.nack == before.buffer.seq.nack
            &&& settings.kind is Video && !settings.nack ==> after.buffer.seq.nack
                == before.buffer.seq.nack
            &&& settings.kind is Audio ==> (settings.audio_ext matches Some(id) ==> after.audio_level
                && after.audio_ext == id)
            &&& settings.kind is Video ==> after.audio_level == before.audio_level
            &&& settings.kind is Video && settings.twcc ==> after.twcc
            &&& settings.kind is Video && settings.remb ==> after.buffer.remb
            &&& settings.twcc_ext matches Some(id) ==> after.twcc_ext == id
        }),
{
}

/// The loudness of a packet is told of where the track is set up for it, by the element with the id
/// that was agreed on.
pub proof fn law_loudness_is_that_of_the_packet(
    before: AtomicBuffer,
    after: AtomicBuffer,
    res: Written,
    pkt: Packet,
    arrival: u64,
    now: u64,
)
    requires
        before.written(after, res, pkt, arrival, now),
        before.bound,
    ensures
        !before.audio_level ==> res.audio_level is None,
        before.audio_level ==> match pkt.header.extension_payload(before.audio_ext) {
            Some(ext) => res.audio_level == audio_level(ext),
            None => res.audio_level is None,
        },
        !before.twcc ==> res.transport_cc is None,
        before.twcc ==> match pkt.header.extension_payload(before.twcc_ext) {
            Some(ext) if ext.len() >= 2 => res.transport_cc == Some(
                ((ext[0] * 0x100 + ext[1]) as u16, arrival, pkt.header.marker),
            ),
            _ => res.transport_cc is None,
        },
{
}

/// What comes of a packet that is written is what comes of it in the buffer of the track; the feedback
/// that is built on the way changes nothing but what is known of lost packets.
pub proof fn law_written_packet_is_counted(
    before: Buffer,
    after: Buffer,
    ep: ExtPacket,
    sent: Option<Vec<FeedbackPacket>>,
    packet: Packet,
    arrival: u64,
    now: u64,
)
    requires
        AtomicBuffer::wrote(before, after, ep, sent, packet, arrival, now),
        before.stats.packet_count < u32::MAX,
        before.stats.total_byte + packet.payload@.len() <= u64::MAX,
    ensures
        after.stats.packet_count == before.stats.packet_count + 1,
        after.stats.total_byte == before.stats.total_byte + packet.payload@.len(),
        after.media_ssrc == before.media_ssrc,
        after.clock_rate == before.clock_rate,
        after.codec_type == before.codec_type,
        after.mime == before.mime,
        after.closed == before.closed,
        after.seq.nack == before.seq.nack,
        sent is Some <==> before.seq.nacker is Some,
{
    let mid = choose|mid: Buffer|
        {
            &&& #[trigger] before.processed(mid, ep, packet, arrival, now)
            &&& mid.seq.fed_back(after.seq, mid.media_ssrc, sent)
            &&& after == Buffer { seq: after.seq, ..mid }
        };
    law_round_asks_for_what_is_due(mid.seq, after.seq, mid.media_ssrc, sent);
}

} // verus!
