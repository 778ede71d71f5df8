use vstd::prelude::*;

use crate::buffer::bucket::Bucket;
use crate::buffer::buffer::{Buffer, Calculated, PendingPackets, ReadStep, READ_WAIT_MILLIS};
use crate::buffer::error::{BufferError, Result};
use crate::packet::buffer::{
    new_bucket, Options, Stats, AUDIO_POOL_LEN, VIDEO_POOL_LEN,
};
use crate::packet::nack::NackQueue;
use crate::packet::params::{settings_of, track_settings, RTCRtpParameters, RTPCodecType};
use crate::packet::parse::fields_of;
use crate::packet::rtp::Packet;
use crate::packet::wire::{spells, to_wire, wire_of};

verus! {

/// The buffer of a track, from the first packet on.
pub struct AtomicBuffer {
    pub buffer: Buffer,
}

/// Whether `after` is the buffer `before` once a packet was processed, with the bytes that are sent of
/// it.
pub open spec fn taken_in(
    before: Buffer,
    after: Buffer,
    out: Calculated,
    packet: Packet,
    arrival_time: i64,
) -> bool {
    let wire = wire_of(fields_of(packet));
    &&& before.calculated(after, out, packet, wire, arrival_time)
    &&& spells(wire, fields_of(packet))
}

/// Whether `after` is the buffer `before` once a pending packet was processed.
#[verifier::opaque]
pub open spec fn caught_up(
    before: Buffer,
    after: Buffer,
    out: Calculated,
    pending: PendingPackets,
) -> bool {
    taken_in(before, after, out, pending.packet, pending.arrival_time as i64)
}

/// Whether `states` and `out` are the states of a buffer and the results while the pending packets
/// are processed, in the order in which they arrived.
pub open spec fn caught_up_in_order(
    states: Seq<Buffer>,
    out: Seq<Calculated>,
    pending: Seq<PendingPackets>,
) -> bool {
    &&& states.len() == pending.len() + 1
    &&& out.len() == pending.len()
    &&& forall|i: int|
        0 <= i < pending.len() ==> caught_up(#[trigger] states[i], states[i + 1], out[i], pending[i])
}

/// Processing one more packet.
proof fn lemma_caught_up_one_more(
    states: Seq<Buffer>,
    out: Seq<Calculated>,
    pending: Seq<PendingPackets>,
    after: Buffer,
    calculated: Calculated,
    next: PendingPackets,
)
    requires
        caught_up_in_order(states, out, pending),
        caught_up(states.last(), after, calculated, next),
    ensures
        caught_up_in_order(states.push(after), out.push(calculated), pending.push(next)),
{
    let longer = states.push(after);
    let done = pending.push(next);
    assert forall|i: int| 0 <= i < done.len() implies caught_up(
        #[trigger] longer[i],
        longer[i + 1],
        out.push(calculated)[i],
        done[i],
    ) by {
        if i < pending.len() {
            assert(caught_up(states[i], states[i + 1], out[i], pending[i]));
        }
    }
}

impl AtomicBuffer {
    /// What every operation keeps.
    pub open spec fn wf(&self) -> bool {
        self.buffer.wf()
    }

    /// Whether nothing has been stored yet, of the track with the given SSRC.
    pub open spec fn is_new(&self, ssrc: u32) -> bool {
        self.buffer.is_new(ssrc)
    }

    pub fn new(ssrc: u32) -> (buffer: Self)
        ensures
            buffer.is_new(ssrc),
    {
        Self { buffer: Buffer::new(ssrc) }
    }

    /// Updates the buffer with the given packet.
    pub fn calc(&mut self, packet: Packet, arrival_time: i64) -> (out: Calculated)
        requires
            old(self).wf(),
        ensures
            final(self).wf(),
            taken_in(old(self).buffer, final(self).buffer, out, packet, arrival_time),
    {
        let content = to_wire(&packet);
        self.buffer.calc_with(packet, &content, arrival_time)
    }

    /// Adds a RTP Packet, out of order, new packet may be arrived later
    pub fn write(&mut self, pkt: Packet, arrival_nanos: u32) -> (res: (
        Result<u32>,
        Option<Calculated>,
    ))
        requires
            old(self).wf(),
        ensures
            final(self).wf(),
            res.0 == Ok::<u32, BufferError>(0),
            !old(self).buffer.bound ==> {
                &&& res.1 is None
                &&& final(self).buffer == (Buffer {
                    pending_packets: final(self).buffer.pending_packets,
                    ..old(self).buffer
                })
                &&& final(self).buffer.pending_packets@ == old(self).buffer.pending_packets@.push(
                    PendingPackets { arrival_time: arrival_nanos as u64, packet: pkt },
                )
            },
            old(self).buffer.bound ==> (res.1 matches Some(out) && taken_in(
                old(self).buffer,
                final(self).buffer,
                out,
                pkt,
                arrival_nanos as i64,
            )),
            arrived(*old(self), *final(self), pkt, arrival_nanos, res.1),
    {
        if !self.buffer.bound {
            self.buffer.pending_packets.push(
                PendingPackets { arrival_time: arrival_nanos as u64, packet: pkt },
            );
            return (Ok(0), None);
        }
        let out = self.calc(pkt, arrival_nanos as i64);
        (Ok(0), Some(out))
    }

    /// The packet that is to be read next, of those that arrived before the track was bound.
    pub fn read(&self) -> (res: Result<&Packet>)
        requires
            self.wf(),
        ensures
            ({
                let next = self.buffer.last_packet_read as int;
                if self.buffer.closed {
                    res == Err::<&Packet, BufferError>(BufferError::ErrIOEof)
                } else if next < self.buffer.pending_packets@.len() {
                    res == Ok::<&Packet, BufferError>(&self.buffer.pending_packets@[next].packet)
                } else {
                    res == Err::<&Packet, BufferError>(BufferError::ErrNilPacket)
                }
            }),
    {
        if self.buffer.closed {
            return Err(BufferError::ErrIOEof);
        }
        let next: usize = self.buffer.last_packet_read as usize;
        if self.buffer.pending_packets.len() > next {
            return Ok(&self.buffer.pending_packets[next].packet);
        }
        Err(BufferError::ErrNilPacket)
    }

    /// Finds the first ext packet in buffer and returns it. A reader tries until there is one.
    pub fn read_extended(&mut self) -> (res: Result<ReadStep>)
        ensures
            old(self).buffer.closed ==> res == Err::<ReadStep, BufferError>(BufferError::ErrIOEof)
                && *final(self) == *old(self),
            !old(self).buffer.closed && old(self).buffer.ext_packets@.len() == 0 ==> res == Ok::<
                ReadStep,
                BufferError,
            >(ReadStep::Wait(READ_WAIT_MILLIS)) && *final(self) == *old(self),
            !old(self).buffer.closed && old(self).buffer.ext_packets@.len() > 0 ==> {
                &&& res == Ok::<ReadStep, BufferError>(
                    ReadStep::Packet(old(self).buffer.ext_packets@[0]),
                )
                &&& final(self).buffer.ext_packets@ == old(self).buffer.ext_packets@.skip(1)
                &&& final(self).buffer == (Buffer {
                    ext_packets: final(self).buffer.ext_packets,
                    ..old(self).buffer
                })
            },
            // The packets are read in the order in which they were handed to the readers
            res matches Ok(ReadStep::Packet(packet)) ==> old(self).buffer.ext_packets@ == seq![
                packet,
            ] + final(self).buffer.ext_packets@,
    {
        if self.buffer.closed {
            return Err(BufferError::ErrIOEof);
        }
        if self.buffer.ext_packets.len() == 0 {
            return Ok(ReadStep::Wait(READ_WAIT_MILLIS));
        }
        assert(self.buffer.ext_packets@ =~= seq![self.buffer.ext_packets@[0]]
            + self.buffer.ext_packets@.skip(1));
        match self.buffer.ext_packets.pop_front() {
            Some(packet) => Ok(ReadStep::Packet(packet)),
            None => Ok(ReadStep::Wait(READ_WAIT_MILLIS)),
        }
    }

    /// Whether `after` is this buffer with what was agreed on for its track.
    pub open spec fn configured(
        &self,
        after: Buffer,
        params: RTCRtpParameters,
        o: Options,
    ) -> bool {
        let settings = settings_of(params);
        let before = self.buffer;
        let asks_nack = settings.kind is Video && settings.nack;
        &&& after.mime@ == settings.mime
        &&& after == Buffer {
            clock_rate: params.codecs@[0].capability.clock_rate,
            max_bitrate: o.max_bitrate,
            mime: after.mime,
            codec_type: settings.kind,
            bucket: after.bucket,
            remb: before.remb || settings.kind is Video && settings.remb,
            seq: after.seq,
            twcc: before.twcc || settings.kind is Video && settings.twcc,
            twcc_ext: match settings.twcc_ext {
                Some(id) => id,
                None => before.twcc_ext,
            },
            audio_level: before.audio_level || settings.kind is Audio && settings.audio_ext is Some,
            audio_ext: match settings.audio_ext {
                Some(id) if settings.kind is Audio => id,
                _ => before.audio_ext,
            },
            ..before
        }
        &&& new_bucket(after.bucket, before.bucket, settings.kind)
        &&& before.seq.restarts(after.seq, asks_nack)
    }

    /// Takes over what was agreed on for the track.
    fn configure(&mut self, params: &RTCRtpParameters, o: Options)
        requires
            old(self).wf(),
            params.codecs@.len() > 0,
        ensures
            final(self).wf(),
            old(self).configured(final(self).buffer, *params, o),
    {
        let settings = track_settings(params);
        self.buffer.clock_rate = params.codecs[0].capability.clock_rate;
        self.buffer.max_bitrate = o.max_bitrate;
        self.buffer.codec_type = settings.kind;
        self.buffer.mime = settings.mime;
        if let Some(id) = settings.twcc_ext {
            self.buffer.twcc_ext = id;
        }
        match settings.kind {
            RTPCodecType::Video => {
                self.buffer.bucket = Some(Bucket::new(VIDEO_POOL_LEN));
                if settings.remb {
                    self.buffer.remb = true;
                }
                if settings.twcc {
                    self.buffer.twcc = true;
                }
                if settings.nack {
                    self.buffer.seq.nack = true;
                    self.buffer.seq.nacker = Some(NackQueue::new());
                }
            },
            RTPCodecType::Audio => {
                self.buffer.bucket = Some(Bucket::new(AUDIO_POOL_LEN));
                if let Some(id) = settings.audio_ext {
                    self.buffer.audio_level = true;
                    self.buffer.audio_ext = id;
                }
            },
            RTPCodecType::Unspecified => {},
        }
    }

    /// Processes a packet that arrived before its track was bound.
    fn catch_up(&mut self, pending: PendingPackets) -> (out: Calculated)
        requires
            old(self).wf(),
        ensures
            final(self).wf(),
            caught_up(old(self).buffer, final(self).buffer, out, pending),
    {
        reveal(caught_up);
        self.calc(pending.packet, pending.arrival_time as i64)
    }

    /// Takes over what was agreed on for the track, and processes the packets that arrived before.
    #[verifier::rlimit(30)]
    pub fn bind(&mut self, params: &RTCRtpParameters, o: Options) -> (out: Vec<Calculated>)
        requires
            old(self).wf(),
            params.codecs@.len() > 0,
        ensures
            final(self).wf(),
            final(self).buffer.bound,
            final(self).buffer.pending_packets@.len() == 0,
            exists|ready: Buffer, states: Seq<Buffer>|
                {
                    &&& #[trigger] old(self).configured(ready, *params, o)
                    &&& #[trigger] caught_up_in_order(
                        states,
                        out@,
                        old(self).buffer.pending_packets@,
                    )
                    &&& states[0] == (Buffer {
                        pending_packets: final(self).buffer.pending_packets,
                        ..ready
                    })
                    &&& final(self).buffer == (Buffer { bound: true, ..states.last() })
                },
            bound_with(*old(self), *final(self), *params, o, out@),
    {
        self.configure(params, o);
        let ghost ready = self.buffer;
        let mut pending: Vec<PendingPackets> = Vec::new();
        std::mem::swap(&mut pending, &mut self.buffer.pending_packets);
        let ghost emptied = self.buffer;
        let ghost mut states: Seq<Buffer> = seq![self.buffer];
        let ghost waiting = pending@;
        let mut out: Vec<Calculated> = Vec::new();
        let ghost mut done: int = 0;
        assert(waiting.skip(0) =~= waiting);
        while pending.len() > 0
            invariant
                self.wf(),
                0 <= done <= waiting.len(),
                pending@ == waiting.skip(done),
                states.len() == done + 1,
                states[0] == emptied,
                states.last() == self.buffer,
                self.buffer.pending_packets == emptied.pending_packets,
                caught_up_in_order(states, out@, waiting.take(done)),
            decreases pending@.len(),
        {
            let pp = pending.remove(0);
            assert(pp == waiting[done]);
            let ghost so_far = out@;
            let ghost before = self.buffer;
            let calculated = self.catch_up(pp);
            out.push(calculated);
            proof {
                lemma_pending_kept(before, self.buffer, calculated, pp);
                assert(waiting.take(done + 1) =~= waiting.take(done).push(pp));
                lemma_caught_up_one_more(
                    states,
                    so_far,
                    waiting.take(done),
                    self.buffer,
                    calculated,
                    pp,
                );
                states = states.push(self.buffer);
                done = done + 1;
                assert(pending@ =~= waiting.skip(done));
            }
        }
        self.buffer.bound = true;
        proof {
            assert(waiting.take(done) =~= waiting);
            assert(old(self).configured(ready, *params, o));
            assert(caught_up_in_order(states, out@, old(self).buffer.pending_packets@));
        }
        out
    }

    pub fn bitrate(&self) -> (bitrate: u64)
        ensures
            bitrate == self.buffer.bitrate,
    {
        self.buffer.bitrate
    }

    /// Copies the packet with the sequence number `sn` to the front of `buff` and returns its size.
    pub fn get_packet(&self, buff: &mut [u8], sn: u16) -> (res: Result<usize>)
        requires
            self.wf(),
        ensures
            final(buff)@.len() == old(buff)@.len(),
            self.buffer.closed ==> res == Err::<usize, BufferError>(BufferError::ErrIOEof)
                && final(buff)@ == old(buff)@,
            !self.buffer.closed && self.buffer.bucket is None ==> res == Ok::<usize, BufferError>(0)
                && final(buff)@ == old(buff)@,
            !self.buffer.closed && self.buffer.bucket is Some ==> self.buffer.bucket->Some_0.copied(
                res,
                old(buff)@,
                final(buff)@,
                sn,
            ),
    {
        if self.buffer.closed {
            return Err(BufferError::ErrIOEof);
        }
        if let Some(bucket) = &self.buffer.bucket {
            return bucket.get_packet(buff, sn);
        }
        Ok(0)
    }

    pub fn get_sender_report_data(&self) -> (res: (u32, u64, i64))
        ensures
            res == (
                self.buffer.last_srrtp_time,
                self.buffer.last_srntp_time,
                self.buffer.last_sr_recv,
            ),
    {
        (self.buffer.last_srrtp_time, self.buffer.last_srntp_time, self.buffer.last_sr_recv)
    }

    pub fn get_status(&self) -> (stats: Stats)
        ensures
            stats == self.buffer.stats,
    {
        self.buffer.stats
    }

    pub fn max_temporal_layer(&self) -> (layer: i32)
        ensures
            layer == self.buffer.max_temporal_layer,
    {
        self.buffer.max_temporal_layer
    }

    /// Takes note of a sender report that arrived at `recv`.
    pub fn set_sender_report_data(&mut self, rtp_time: u32, ntp_time: u64, recv: i64)
        ensures
            final(self).buffer == (Buffer {
                last_srrtp_time: rtp_time,
                last_srntp_time: ntp_time,
                last_sr_recv: recv,
                ..old(self).buffer
            }),
    {
        self.buffer.last_srrtp_time = rtp_time;
        self.buffer.last_srntp_time = ntp_time;
        self.buffer.last_sr_recv = recv;
    }
}

/// Processing a packet does not touch the packets that wait.
proof fn lemma_pending_kept(
    before: Buffer,
    after: Buffer,
    out: Calculated,
    pending: PendingPackets,
)
    requires
        caught_up(before, after, out, pending),
    ensures
        after.pending_packets == before.pending_packets,
{
    reveal(caught_up);
}

/// Whether `after` is the buffer `before` once a packet arrived, and `out` is what came of it.
pub open spec fn arrived(
    before: AtomicBuffer,
    after: AtomicBuffer,
    pkt: Packet,
    arrival_nanos: u32,
    out: Option<Calculated>,
) -> bool {
    if before.buffer.bound {
        out matches Some(calculated) && taken_in(
            before.buffer,
            after.buffer,
            calculated,
            pkt,
            arrival_nanos as i64,
        )
    } else {
        &&& out is None
        &&& after.buffer == (Buffer { pending_packets: after.buffer.pending_packets, ..before.buffer })
        &&& after.buffer.pending_packets@ == before.buffer.pending_packets@.push(
            PendingPackets { arrival_time: arrival_nanos as u64, packet: pkt },
        )
    }
}

/// Whether `after` is the buffer `before` with what was agreed on for its track, and `out` is what
/// came of the packets that arrived before.
pub open spec fn bound_with(
    before: AtomicBuffer,
    after: AtomicBuffer,
    params: RTCRtpParameters,
    o: Options,
    out: Seq<Calculated>,
) -> bool {
    exists|ready: Buffer, states: Seq<Buffer>|
        {
            &&& #[trigger] before.configured(ready, params, o)
            &&& #[trigger] caught_up_in_order(states, out, before.buffer.pending_packets@)
            &&& states[0] == (Buffer { pending_packets: after.buffer.pending_packets, ..ready })
            &&& after.buffer == (Buffer { bound: true, ..states.last() })
        }
}

/// A packet waits until the track is bound, behind those that arrived before it, and nothing comes of
/// it till then.
pub proof fn law_packets_wait_until_the_track_is_bound(
    before: AtomicBuffer,
    after: AtomicBuffer,
    pkt: Packet,
    arrival_nanos: u32,
    out: Option<Calculated>,
)
    requires
        arrived(before, after, pkt, arrival_nanos, out),
    ensures
        out is Some <==> before.buffer.bound,
        !before.buffer.bound ==> {
            let waiting = after.buffer.pending_packets@;
            &&& waiting.len() == before.buffer.pending_packets@.len() + 1
            &&& waiting.drop_last() =~= before.buffer.pending_packets@
            &&& waiting.last().packet == pkt
            &&& waiting.last().arrival_time == arrival_nanos
            &&& after.buffer.stats == before.buffer.stats
            &&& after.buffer.ext_packets == before.buffer.ext_packets
            &&& after.buffer.seq == before.buffer.seq
        },
        before.buffer.bound ==> before.buffer.calculated(
            after.buffer,
            out->0,
            pkt,
            wire_of(fields_of(pkt)),
            arrival_nanos as i64,
        ),
{
}

/// Once the track is bound, something comes of every packet that waited, in the order in which they
/// arrived: each is counted.
pub proof fn law_packets_that_waited_are_counted(
    before: AtomicBuffer,
    after: AtomicBuffer,
    params: RTCRtpParameters,
    o: Options,
    out: Seq<Calculated>,
)
    requires
        bound_with(before, after, params, o, out),
        before.buffer.stats.packet_count + before.buffer.pending_packets@.len() <= u32::MAX,
    ensures
        out.len() == before.buffer.pending_packets@.len(),
        after.buffer.bound,
        after.buffer.stats.packet_count == before.buffer.stats.packet_count
            + before.buffer.pending_packets@.len(),
        after.buffer.media_ssrc == before.buffer.media_ssrc,
        after.buffer.mime@ == settings_of(params).mime,
{
    let (ready, states) = choose|ready: Buffer, states: Seq<Buffer>|
        {
            &&& #[trigger] before.configured(ready, params, o)
            &&& #[trigger] caught_up_in_order(states, out, before.buffer.pending_packets@)
            &&& states[0] == (Buffer { pending_packets: after.buffer.pending_packets, ..ready })
            &&& after.buffer == (Buffer { bound: true, ..states.last() })
        };
    lemma_each_is_counted(
        states,
        out,
        before.buffer.pending_packets@,
        before.buffer.pending_packets@.len() as int,
    );
}

/// Each packet that waited is counted once.
proof fn lemma_each_is_counted(
    states: Seq<Buffer>,
    out: Seq<Calculated>,
    pending: Seq<PendingPackets>,
    upto: int,
)
    requires
        caught_up_in_order(states, out, pending),
        0 <= upto <= pending.len(),
        states[0].stats.packet_count + pending.len() <= u32::MAX,
    ensures
        states[upto].stats.packet_count == states[0].stats.packet_count + upto,
        states[upto].media_ssrc == states[0].media_ssrc,
        states[upto].mime == states[0].mime,
    decreases upto,
{
    if upto > 0 {
        lemma_each_is_counted(states, out, pending, upto - 1);
        assert(caught_up(states[upto - 1], states[upto], out[upto - 1], pending[upto - 1]));
        reveal(caught_up);
    }
}

/// A video track keeps 750000 bytes of packets and an audio track 37500, from the start on. Lost
/// packets are asked for in a video track whose codec supports it, and the loudness is told of in an
/// audio track with the extension for it.
pub proof fn law_buffer_is_set_up_by_its_kind(
    before: AtomicBuffer,
    after: Buffer,
    params: RTCRtpParameters,
    o: Options,
)
    requires
        before.configured(after, params, o),
        params.codecs@.len() > 0,
    ensures
        ({
            let settings = settings_of(params);
            let was = before.buffer;
            &&& after.clock_rate == params.codecs@[0].capability.clock_rate
            &&& after.codec_type == settings.kind
            &&& after.mime@ == settings.mime
            &&& after.max_bitrate == o.max_bitrate
            &&& after.media_ssrc == was.media_ssrc
            &&& after.pending_packets == was.pending_packets
            &&& settings.kind is Video ==> (after.bucket matches Some(bucket) && bucket.capacity
                == 750_000 && !bucket.init)
            &&& settings.kind is Audio ==> (after.bucket matches Some(bucket) && bucket.capacity
                == 37_500 && !bucket.init)
            &&& settings.kind is Unspecified ==> after.bucket == was.bucket
            &&& settings.kind is Video && settings.nack ==> after.seq.nack
                && after.seq.nacker is Some
            &&& settings.kind !is Video || !settings.nack ==> after.seq.nack == was.seq.nack
                && after.seq.nacker == was.seq.nacker
            &&& settings.kind is Audio ==> (settings.audio_ext matches Some(id) ==> after.audio_level
                && after.audio_ext == id)
            &&& settings.kind is Video ==> after.audio_level == was.audio_level && after.audio_ext
                == was.audio_ext
            &&& settings.kind is Video && settings.twcc ==> after.twcc
            &&& settings.kind !is Video || !settings.twcc ==> after.twcc == was.twcc
            &&& settings.kind is Video && settings.remb ==> after.remb
            &&& settings.kind !is Video || !settings.remb ==> after.remb == was.remb
            &&& settings.twcc_ext matches Some(id) ==> after.twcc_ext == id
        }),
{
}

} // verus!
