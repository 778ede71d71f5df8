use vstd::prelude::*;

use crate::buffer::bucket::{law_stored_packet_is_found, Bucket};
use crate::buffer::codec::{
    bytes_before_frame, h264_keyframe, is_h264_keyframe, is_later_timestamp, later,
    law_h264_key_frame_by_its_type, law_vp8_fields_are_read_in_their_order,
    law_vp8_key_frame_starts_with_an_even_byte, vp8_blank, vp8_parsed, vp8_result, VP8,
};
use crate::packet::params::RTPCodecType;
use crate::packet::parse::{elements_fit, fields_of, parsed_packet};
use crate::packet::rtp::Packet;
use crate::packet::sequence::SequenceTracker;
use crate::packet::wire::{bytes_of, has_packet_sizes, is_plain, spells, to_wire, wire_of};
use crate::text::same;

verus! {

/// How many packets are looked at to learn what a track is like.
pub const INITIAL_PACKET_PROBE_COUNT: u8 = 25;

/// Nanoseconds between two reports.
pub const REPORT_DELTA: u64 = 1_000_000_000;

/// Bytes that are kept of a video track.
pub const VIDEO_POOL_LEN: usize = 750_000;

/// Bytes that are kept of an audio track.
pub const AUDIO_POOL_LEN: usize = 37_500;

/// The kind of packets that a buffer holds.
#[derive(Debug, Eq, PartialEq, Clone, Copy, Structural)]
pub enum BufferPacketType {
    RTPBufferPacket,
    RTCPBufferPacket,
}

impl BufferPacketType {
    /// The number of the kind.
    pub fn value(&self) -> (value: i32)
        ensures
            value == match *self {
                BufferPacketType::RTPBufferPacket => 1i32,
                BufferPacketType::RTCPBufferPacket => 2i32,
            },
    {
        match self {
            BufferPacketType::RTPBufferPacket => 1,
            BufferPacketType::RTCPBufferPacket => 2,
        }
    }
}

/// A packet with what the buffer knows of it.
pub struct ExtPacket {
    pub head: bool,
    pub cycle: u32,
    /// Arrival time in nanoseconds since the buffer was created.
    pub arrival: u64,
    pub packet: Packet,
    pub key_frame: bool,
    pub payload: VP8,
}

/// Counters of a track.
#[derive(Debug, Eq, PartialEq, Clone, Copy, Structural)]
pub struct Stats {
    pub last_expected: u32,
    pub last_received: u32,
    /// Number of packets received from this source.
    pub packet_count: u32,
    pub total_byte: u64,
}

impl Default for Stats {
    fn default() -> (stats: Self)
        ensures
            stats == no_stats(),
    {
        Stats { last_expected: 0, last_received: 0, packet_count: 0, total_byte: 0 }
    }
}

/// The counters at the start.
pub open spec fn no_stats() -> Stats {
    Stats { last_expected: 0, last_received: 0, packet_count: 0, total_byte: 0 }
}

/// Limits of a buffer.
#[derive(Debug, Eq, PartialEq, Clone, Copy, Structural)]
pub struct Options {
    pub max_bitrate: u64,
}

impl Default for Options {
    fn default() -> (options: Self)
        ensures
            options.max_bitrate == 0,
    {
        Options { max_bitrate: 0 }
    }
}

/// Stores the packets of a track, and what is known of the track.
///
/// All times are in nanoseconds since the buffer was created.
pub struct Buffer {
    pub bucket: Option<Bucket>,
    pub seq: SequenceTracker,
    pub codec_type: RTPCodecType,
    pub media_ssrc: u32,
    pub clock_rate: u32,
    pub max_bitrate: u64,
    /// When the last packet was reported.
    pub last_report: Option<u64>,
    pub closed: bool,
    pub mime: String,
    // supported feedbacks
    pub remb: bool,
    pub min_packet_probe: u8,
    pub max_temporal_layer: i32,
    pub bitrate: u64,
    pub bitrate_helper: u64,
    /// Last sender report NTP timestamp
    pub last_srntp_time: u64,
    /// Last sender report RTP timestamp
    pub last_srrtp_time: u32,
    /// Subsecond nanos when the last sender report arrived
    pub last_sr_recv: i64,
    /// The lowest sequence number received in packet probe.
    pub base_sn: u16,
    pub stats: Stats,
    /// The latest timestamp received on a packet.
    /// The timestamp reflects the sampling instant of the first octet in the RTP data packet.
    pub latest_timestamp: u32,
    /// The latest timestamp received on a packet marked as head.
    /// When there is no head, you should mark as head the first frame incoming every second.
    pub latest_head_timestamp: u32,
    /// When the last packet has arrived.
    pub last_arrival: Option<u64>,
}

/// What the payload of a packet says of its picture, in a track of the given type.
pub open spec fn picture(mime: Seq<char>, payload: Seq<u8>) -> VP8 {
    if mime == "video/vp8"@ {
        vp8_parsed(vp8_blank(), payload)
    } else {
        vp8_blank()
    }
}

/// Whether the payload belongs to a key frame, in a track of the given type.
pub open spec fn starts_picture(mime: Seq<char>, payload: Seq<u8>) -> bool {
    if mime == "video/vp8"@ {
        picture(mime, payload).is_key_frame
    } else {
        mime == "video/h264"@ && h264_keyframe(payload)
    }
}

/// The bits per second when `bytes` bytes came in `delta` nanoseconds, or the highest number that
/// there is where they are more.
pub open spec fn bitrate_of(bytes: u64, delta: int) -> u64 {
    let exact = 8 * bytes * REPORT_DELTA / delta;
    if exact <= u64::MAX {
        exact as u64
    } else {
        u64::MAX
    }
}

/// Whether `after` is the bucket of a track of the given kind, which had the bucket `before`.
pub open spec fn new_bucket(
    after: Option<Bucket>,
    before: Option<Bucket>,
    kind: RTPCodecType,
) -> bool {
    match kind {
        RTPCodecType::Audio => after matches Some(bucket) && bucket.is_empty_with(AUDIO_POOL_LEN),
        RTPCodecType::Video => after matches Some(bucket) && bucket.is_empty_with(VIDEO_POOL_LEN),
        RTPCodecType::Unspecified => after == before,
    }
}

impl Buffer {
    /// What every operation keeps.
    pub open spec fn wf(&self) -> bool {
        &&& self.seq.wf()
        &&& self.bucket matches Some(bucket) ==> bucket.wf()
    }

    /// Whether no packet was counted yet.
    pub open spec fn is_first(&self) -> bool {
        self.stats.packet_count == 0
    }

    /// The counters with a packet of `len` bytes added.
    pub open spec fn counted(&self, len: int) -> Stats {
        Stats {
            total_byte: ((self.stats.total_byte + len) % 0x1_0000_0000_0000_0000) as u64,
            packet_count: ((self.stats.packet_count + 1) % 0x1_0000_0000) as u32,
            ..self.stats
        }
    }

    /// The timestamp of the last head, when a packet with the timestamp `ts` arrives.
    pub open spec fn head_base(&self, ts: u32) -> u32 {
        if self.counted(0).packet_count == 1 {
            ts
        } else {
            self.latest_head_timestamp
        }
    }

    /// Whether a second of audio went by since the last head.
    pub open spec fn head_is_due(&self, ts: u32) -> bool {
        (self.head_base(ts) + self.clock_rate) % 0x1_0000_0000 < ts
    }

    /// Whether the packet starts a stretch of audio.
    pub open spec fn is_head(&self, marker: bool, ts: u32) -> bool {
        self.codec_type is Audio && (marker || self.counted(0).packet_count == 1
            || self.head_is_due(ts))
    }

    /// When the last report was, when a packet arrives.
    pub open spec fn report_base(&self, arrival: u64) -> Option<u64> {
        if self.is_first() {
            Some(arrival)
        } else {
            self.last_report
        }
    }

    /// How much later than the last report the packet is.
    pub open spec fn report_delta(&self, arrival: u64) -> int {
        match self.report_base(arrival) {
            Some(last) if last < arrival => arrival - last,
            _ => 0,
        }
    }

    /// The bytes since the last report.
    pub open spec fn pending_bytes(&self, len: int) -> u64 {
        ((self.bitrate_helper + len) % 0x1_0000_0000_0000_0000) as u64
    }

    /// Whether the packet closes a report.
    pub open spec fn reports(&self, arrival: u64) -> bool {
        self.report_delta(arrival) >= REPORT_DELTA
    }

    /// Whether `after` is this buffer once `packet` was processed, with the bytes that are sent of it,
    /// and `ep` what came of it.
    pub open spec fn processed(
        &self,
        after: Buffer,
        ep: ExtPacket,
        packet: Packet,
        arrival: u64,
        now: u64,
    ) -> bool {
        let wire = wire_of(fields_of(packet));
        &&& self.processed_with(after, ep, packet, wire, arrival, now)
        &&& spells(wire, fields_of(packet))
    }

    /// Whether `after` is this buffer once `packet`, with the bytes `wire`, was processed, and `ep`
    /// what came of it. A packet that cannot be written has no bytes, and is not stored.
    pub open spec fn processed_with(
        &self,
        after: Buffer,
        ep: ExtPacket,
        packet: Packet,
        wire: Option<Seq<u8>>,
        arrival: u64,
        now: u64,
    ) -> bool {
        let sn = packet.header.sequence_number;
        let ts = packet.header.timestamp;
        let len = packet.payload@.len() as int;
        let vp8 = picture(self.mime@, packet.payload@);
        let probes = self.min_packet_probe < INITIAL_PACKET_PROBE_COUNT;
        &&& self.seq.becomes(after.seq, sn, self.is_first())
        &&& match (self.bucket, after.bucket) {
            (None, None) => true,
            (Some(b), Some(a)) => match wire {
                Some(bytes) => b.offered(a, bytes, sn, sn == after.seq.max_seq_no),
                None => a == b,
            },
            _ => false,
        }
        &&& after == Buffer {
            seq: after.seq,
            bucket: after.bucket,
            stats: self.counted(len),
            last_arrival: Some(arrival),
            base_sn: if self.is_first() || probes && sn < self.base_sn {
                sn
            } else {
                self.base_sn
            },
            latest_head_timestamp: if !(self.codec_type is Audio) {
                self.latest_head_timestamp
            } else if self.head_is_due(ts) {
                ts
            } else {
                self.head_base(ts)
            },
            max_temporal_layer: if probes && self.mime@ == "video/vp8"@ && self.max_temporal_layer
                < vp8.tid {
                vp8.tid as i32
            } else {
                self.max_temporal_layer
            },
            min_packet_probe: if probes {
                (self.min_packet_probe + 1) as u8
            } else {
                self.min_packet_probe
            },
            latest_timestamp: if later(ts, self.latest_timestamp) {
                ts
            } else {
                self.latest_timestamp
            },
            bitrate: if self.reports(arrival) {
                bitrate_of(self.pending_bytes(len), self.report_delta(arrival))
            } else {
                self.bitrate
            },
            bitrate_helper: if self.reports(arrival) {
                0
            } else {
                self.pending_bytes(len)
            },
            last_report: if self.reports(arrival) || self.report_base(arrival) is None {
                Some(now)
            } else {
                self.report_base(arrival)
            },
            ..*self
        }
        &&& ep == ExtPacket {
            head: self.is_head(packet.header.marker, ts),
            cycle: after.seq.cycles,
            arrival,
            packet,
            key_frame: starts_picture(self.mime@, packet.payload@),
            payload: vp8,
        }
    }

    /// Whether this is the buffer of a track of which nothing is known.
    pub open spec fn is_new(&self, ssrc: u32) -> bool {
        &&& self.wf()
        &&& self.media_ssrc == ssrc
        &&& self.bucket is None
        &&& self.seq.nacker is None
        &&& self.seq.cycles == 0
        &&& self.seq.max_seq_no == 0
        &&& !self.seq.nack
        &&& self.codec_type is Unspecified
        &&& self.clock_rate == 0
        &&& self.max_bitrate == 0
        &&& self.last_report is None
        &&& !self.closed
        &&& self.mime@.len() == 0
        &&& !self.remb
        &&& self.min_packet_probe == 0
        &&& self.max_temporal_layer == 0
        &&& self.bitrate == 0
        &&& self.bitrate_helper == 0
        &&& self.last_srntp_time == 0
        &&& self.last_srrtp_time == 0
        &&& self.last_sr_recv == 0
        &&& self.base_sn == 0
        &&& self.stats == no_stats()
        &&& self.latest_timestamp == 0
        &&& self.latest_head_timestamp == 0
        &&& self.last_arrival is None
    }

    pub fn new(ssrc: u32) -> (buffer: Self)
        ensures
            buffer.is_new(ssrc),
    {
        Self {
            bucket: None,
            seq: SequenceTracker::new(),
            codec_type: RTPCodecType::Unspecified,
            media_ssrc: ssrc,
            clock_rate: 0,
            max_bitrate: 0,
            last_report: None,
            closed: false,
            mime: String::new(),
            remb: false,
            min_packet_probe: 0,
            max_temporal_layer: 0,
            bitrate: 0,
            bitrate_helper: 0,
            last_srntp_time: 0,
            last_srrtp_time: 0,
            last_sr_recv: 0,
            base_sn: 0,
            stats: Stats { last_expected: 0, last_received: 0, packet_count: 0, total_byte: 0 },
            latest_timestamp: 0,
            latest_head_timestamp: 0,
            last_arrival: None,
        }
    }

    /// Updates this buffer with the given packet and its arrival time.
    /// The packet is added to the bucket and returned as [ExtPacket].
    /// # Responsabilites
    /// - NACK calculation
    /// - Buffer stats
    /// - Store ExtPackets
    /// - Calculate bitrate
    pub fn process_rtp_packet(&mut self, packet: Packet, arrival: u64, now: u64) -> (ep: ExtPacket)
        requires
            old(self).wf(),
        ensures
            final(self).wf(),
            old(self).processed(*final(self), ep, packet, arrival, now),
    {
        let wire = to_wire(&packet);
        self.process_with(packet, &wire, arrival, now)
    }

    /// Updates this buffer with the given packet, whose bytes are `wire`, if it can be written.
    #[verifier::rlimit(30)]
    pub fn process_with(
        &mut self,
        packet: Packet,
        wire: &Option<Vec<u8>>,
        arrival: u64,
        now: u64,
    ) -> (ep: ExtPacket)
        requires
            old(self).wf(),
        ensures
            final(self).wf(),
            old(self).processed_with(*final(self), ep, packet, bytes_of(*wire), arrival, now),
    {
        let sn: u16 = packet.header.sequence_number;
        let ts: u32 = packet.header.timestamp;
        let first = self.stats.packet_count == 0;
        if first {
            self.base_sn = sn;
            self.last_report = Some(arrival);
        }
        self.seq.calculate_nack(sn, first);

        let latest = sn == self.seq.max_seq_no;
        if let Some(bytes) = wire {
            if let Some(bucket) = self.bucket.as_mut() {
                let _stored = bucket.add_packet(bytes, sn, latest);
            }
        }
        let size: u64 = packet.payload.len() as u64;
        self.stats = Stats {
            last_expected: self.stats.last_expected,
            last_received: self.stats.last_received,
            packet_count: self.stats.packet_count.wrapping_add(1),
            total_byte: self.stats.total_byte.wrapping_add(size),
        };
        self.bitrate_helper = self.bitrate_helper.wrapping_add(size);
        self.last_arrival = Some(arrival);

        let head = self.mark_head(packet.header.marker, ts);
        let (key_frame, payload) = self.look_at_picture(&packet.payload);
        self.probe(sn, payload.tid);
        self.update_timestamp(ts, arrival);
        self.report(arrival, now);
        ExtPacket { head, cycle: self.seq.cycles, arrival, packet, key_frame, payload }
    }

    /// Decides whether the packet that was just counted starts a stretch of audio.
    fn mark_head(&mut self, marker: bool, ts: u32) -> (head: bool)
        ensures
            ({
                let base = if old(self).stats.packet_count == 1 {
                    ts
                } else {
                    old(self).latest_head_timestamp
                };
                let is_due = (base + old(self).clock_rate) % 0x1_0000_0000 < ts;
                let audio = old(self).codec_type is Audio;
                &&& head == (audio && (marker || old(self).stats.packet_count == 1 || is_due))
                &&& *final(self) == Buffer {
                    latest_head_timestamp: if !audio {
                        old(self).latest_head_timestamp
                    } else if is_due {
                        ts
                    } else {
                        base
                    },
                    ..*old(self)
                }
            }),
    {
        match self.codec_type {
            RTPCodecType::Audio => {
                let mut head = marker;
                // Set initial timestamp for first packet
                if self.stats.packet_count == 1 {
                    head = true;
                    self.latest_head_timestamp = ts;
                }
                if self.latest_head_timestamp.wrapping_add(self.clock_rate) < ts {
                    self.latest_head_timestamp = ts;
                    head = true;
                }
                head
            },
            _ => false,
        }
    }

    /// Reads what the payload says of its picture.
    fn look_at_picture(&self, payload: &Vec<u8>) -> (res: (bool, VP8))
        ensures
            res.0 == starts_picture(self.mime@, payload@),
            res.1 == picture(self.mime@, payload@),
    {
        if same(self.mime.as_str(), "video/vp8") {
            let mut vp8: VP8 = VP8::default();
            let _parsed = vp8.unmarshal(payload);
            (vp8.is_key_frame, vp8)
        } else if same(self.mime.as_str(), "video/h264") {
            (is_h264_keyframe(payload), VP8::default())
        } else {
            (false, VP8::default())
        }
    }

    /// Learns from one of the first packets what the track is like.
    fn probe(&mut self, sn: u16, tid: u8)
        ensures
            ({
                let probes = old(self).min_packet_probe < INITIAL_PACKET_PROBE_COUNT;
                *final(self) == Buffer {
                    base_sn: if probes && sn < old(self).base_sn {
                        sn
                    } else {
                        old(self).base_sn
                    },
                    max_temporal_layer: if probes && old(self).mime@ == "video/vp8"@
                        && old(self).max_temporal_layer < tid {
                        tid as i32
                    } else {
                        old(self).max_temporal_layer
                    },
                    min_packet_probe: if probes {
                        (old(self).min_packet_probe + 1) as u8
                    } else {
                        old(self).min_packet_probe
                    },
                    ..*old(self)
                }
            }),
    {
        if self.min_packet_probe < INITIAL_PACKET_PROBE_COUNT {
            if sn < self.base_sn {
                self.base_sn = sn;
            }
            if same(self.mime.as_str(), "video/vp8") {
                if self.max_temporal_layer < tid as i32 {
                    self.max_temporal_layer = tid as i32;
                }
            }
            self.min_packet_probe = self.min_packet_probe + 1;
        }
    }

    /// Updates latest timestamp based on reported timestamp and time when the packet arrived.
    fn update_timestamp(&mut self, rtp_timestamp: u32, arrival: u64)
        ensures
            *final(self) == if later(rtp_timestamp, old(self).latest_timestamp) {
                Buffer {
                    latest_timestamp: rtp_timestamp,
                    last_arrival: Some(arrival),
                    ..*old(self)
                }
            } else {
                *old(self)
            },
    {
        // if first time update or the timestamp is later (factoring timestamp wrap around)
        if is_later_timestamp(rtp_timestamp, self.latest_timestamp) {
            self.latest_timestamp = rtp_timestamp;
            self.last_arrival = Some(arrival);
        }
    }

    /// Computes the bitrate when a report is due.
    fn report(&mut self, arrival: u64, now: u64)
        ensures
            ({
                let delta = match old(self).last_report {
                    Some(last) if last < arrival => arrival - last,
                    _ => 0,
                };
                let reports = delta >= REPORT_DELTA;
                *final(self) == Buffer {
                    bitrate: if reports {
                        bitrate_of(old(self).bitrate_helper, delta as int)
                    } else {
                        old(self).bitrate
                    },
                    bitrate_helper: if reports {
                        0
                    } else {
                        old(self).bitrate_helper
                    },
                    last_report: if reports || old(self).last_report is None {
                        Some(now)
                    } else {
                        old(self).last_report
                    },
                    ..*old(self)
                }
            }),
    {
        let delta: u64 = match self.last_report {
            Some(last) => arrival.saturating_sub(last),
            None => 0,
        };
        if delta >= REPORT_DELTA {
            self.bitrate = to_bitrate(self.bitrate_helper, delta);
            self.last_report = Some(now);
            self.bitrate_helper = 0;
        }
        if self.last_report.is_none() {
            self.last_report = Some(now);
        }
    }
}

/// Computes the bits per second when `bytes` bytes came in `delta` nanoseconds.
pub(crate) fn to_bitrate(bytes: u64, delta: u64) -> (bitrate: u64)
    requires
        delta > 0,
    ensures
        bitrate == bitrate_of(bytes, delta as int),
{
    assert(8 * bytes * REPORT_DELTA <= u128::MAX) by (nonlinear_arith)
        requires
            bytes <= u64::MAX,
            REPORT_DELTA == 1_000_000_000,
    ;
    let bits: u128 = 8 * bytes as u128 * REPORT_DELTA as u128;
    let exact: u128 = bits / delta as u128;
    if exact <= u64::MAX as u128 {
        exact as u64
    } else {
        u64::MAX
    }
}

/// What a read gives back of a write: a plain packet that the bucket has room for, whether it is the
/// latest one or late, is found in the bucket under its number, and the bytes that are found spell
/// that packet.
pub proof fn law_processed_packet_is_read_back(
    before: Buffer,
    after: Buffer,
    ep: ExtPacket,
    packet: Packet,
    arrival: u64,
    now: u64,
)
    requires
        before.wf(),
        after.wf(),
        before.processed(after, ep, packet, arrival, now),
        before.bucket is Some,
        is_plain(fields_of(packet)),
        has_packet_sizes(fields_of(packet)),
        before.bucket->Some_0.add_error(
            (12 + 4 * packet.header.csrc@.len() + packet.payload@.len()) as int,
            packet.header.sequence_number,
            packet.header.sequence_number == after.seq.max_seq_no,
        ) is None,
    ensures
        after.bucket matches Some(bucket) && bucket.packet(packet.header.sequence_number) matches Some(
            bytes,
        ) && elements_fit(bytes) && parsed_packet(bytes) == Some(fields_of(packet)),
{
    let sn = packet.header.sequence_number;
    let bytes = wire_of(fields_of(packet))->Some_0;
    let latest = sn == after.seq.max_seq_no;
    law_stored_packet_is_found(before.bucket->Some_0, after.bucket->Some_0, bytes, sn, latest);
}

/// A packet is handed on whole, with the time of its arrival and the turns of the sequence numbers
/// that it belongs to.
pub proof fn law_packet_is_handed_on_whole(
    before: Buffer,
    after: Buffer,
    ep: ExtPacket,
    packet: Packet,
    wire: Option<Seq<u8>>,
    arrival: u64,
    now: u64,
)
    requires
        before.processed_with(after, ep, packet, wire, arrival, now),
    ensures
        ep.packet == packet,
        ep.arrival == arrival,
        ep.cycle == after.seq.cycles,
        after.last_arrival == Some(arrival),
{
}

/// What counts as a key frame is up to the codec. In a VP8 track it is a payload that starts a
/// partition and whose frame starts with an even byte; in an H.264 track a single unit is one where
/// it is a slice of one; packets of other tracks never count as one.
pub proof fn law_key_frames_are_recognised(
    before: Buffer,
    after: Buffer,
    ep: ExtPacket,
    packet: Packet,
    wire: Option<Seq<u8>>,
    arrival: u64,
    now: u64,
)
    requires
        before.processed_with(after, ep, packet, wire, arrival, now),
        packet.payload@.len() > 0,
    ensures
        ({
            let p = packet.payload@;
            &&& before.mime@ == "video/vp8"@ && vp8_result(p) is Ok ==> (ep.key_frame <==> p[0] / 0x10
                % 2 == 1 && p[bytes_before_frame(p)] % 2 == 0)
            &&& before.mime@ == "video/vp8"@ && vp8_result(p) is Err ==> !ep.key_frame
            &&& before.mime@ == "video/vp8"@ && vp8_result(p) is Ok && p[0] >= 0x80
                ==> ep.payload.temporal_supported == (p[1] / 0x20 % 2 == 1)
            &&& before.mime@ == "video/h264"@ && p[0] % 0x20 < 24 ==> (ep.key_frame <==> p[0] % 0x20
                == 5)
            &&& before.mime@ != "video/vp8"@ && before.mime@ != "video/h264"@ ==> !ep.key_frame
        }),
{
    reveal_strlit("video/vp8");
    reveal_strlit("video/h264");
    assert("video/vp8"@.len() == 9 && "video/h264"@.len() == 10);
    let p = packet.payload@;
    if vp8_result(p) is Ok {
        law_vp8_key_frame_starts_with_an_even_byte(vp8_blank(), p);
        if p[0] >= 0x80 {
            law_vp8_fields_are_read_in_their_order(vp8_blank(), p);
        }
    }
    law_h264_key_frame_by_its_type(p);
}

/// Each packet counts once, and with all bytes of its payload.
pub proof fn law_packets_and_bytes_are_counted(
    before: Buffer,
    after: Buffer,
    ep: ExtPacket,
    packet: Packet,
    wire: Option<Seq<u8>>,
    arrival: u64,
    now: u64,
)
    requires
        before.processed_with(after, ep, packet, wire, arrival, now),
        before.stats.packet_count < u32::MAX,
        before.stats.total_byte + packet.payload@.len() <= u64::MAX,
    ensures
        after.stats.packet_count == before.stats.packet_count + 1,
        after.stats.total_byte == before.stats.total_byte + packet.payload@.len(),
{
}

/// The bitrate is that of the time since the last report, once that was at least a second: the bits
/// that came in the meantime, over the time that went by. Until then it stays, and the bytes add up.
pub proof fn law_bitrate_is_bits_over_time(
    before: Buffer,
    after: Buffer,
    ep: ExtPacket,
    packet: Packet,
    wire: Option<Seq<u8>>,
    arrival: u64,
    now: u64,
    last: u64,
)
    requires
        before.processed_with(after, ep, packet, wire, arrival, now),
        before.stats.packet_count > 0,
        before.last_report == Some(last),
        before.bitrate_helper + packet.payload@.len() <= 0xFFFF_FFFF,
    ensures
        arrival - last < 1_000_000_000 ==> after.bitrate == before.bitrate && after.last_report
            == before.last_report && after.bitrate_helper == before.bitrate_helper
            + packet.payload@.len(),
        arrival - last >= 1_000_000_000 ==> {
            let bits = 8 * (before.bitrate_helper + packet.payload@.len());
            let span = arrival - last;
            &&& after.bitrate * span <= bits * 1_000_000_000 < (after.bitrate + 1) * span
            &&& after.bitrate_helper == 0
            &&& after.last_report == Some(now)
        },
{
    let len = packet.payload@.len() as int;
    let bytes = before.pending_bytes(len);
    assert(bytes == before.bitrate_helper + len);
    if arrival - last >= 1_000_000_000 {
        law_bitrate_of(bytes, arrival - last);
    }
}

/// A bitrate is the bits over the time that they took, in whole bits per second.
pub proof fn law_bitrate_of(bytes: u64, span: int)
    requires
        bytes <= 0xFFFF_FFFF,
        1_000_000_000 <= span,
    ensures
        bitrate_of(bytes, span) * span <= 8 * bytes * 1_000_000_000 < (bitrate_of(bytes, span) + 1)
            * span,
{
    let exact = 8 * bytes * REPORT_DELTA;
    assert(exact == 8 * bytes * 1_000_000_000);
    vstd::arithmetic::div_mod::lemma_fundamental_div_mod(exact, span);
    vstd::arithmetic::div_mod::lemma_mod_bound(exact, span);
    let rate = exact / span;
    assert(rate <= u64::MAX) by {
        vstd::arithmetic::div_mod::lemma_div_is_ordered_by_denominator(exact, 1_000_000_000, span);
    }
    assert(rate * span == span * rate) by (nonlinear_arith);
    assert((rate + 1) * span == span * rate + span) by (nonlinear_arith);
}

/// Of an audio track the first packet is a head, and so is one that is marked, or that comes more
/// than a second behind the last head by its timestamp; other packets are none. Packets of other
/// tracks are none.
pub proof fn law_heads_of_audio_are_marked(
    before: Buffer,
    after: Buffer,
    ep: ExtPacket,
    packet: Packet,
    wire: Option<Seq<u8>>,
    arrival: u64,
    now: u64,
)
    requires
        before.processed_with(after, ep, packet, wire, arrival, now),
        before.stats.packet_count < u32::MAX,
    ensures
        ({
            let ts = packet.header.timestamp;
            let last = before.latest_head_timestamp;
            let audio = before.codec_type is Audio;
            &&& !audio ==> !ep.head && after.latest_head_timestamp == last
            &&& audio && before.stats.packet_count == 0 ==> ep.head && after.latest_head_timestamp
                == ts
            &&& audio && packet.header.marker ==> ep.head
            &&& audio && before.stats.packet_count > 0 && last + before.clock_rate < 0x1_0000_0000
                ==> {
                &&& last + before.clock_rate < ts ==> ep.head && after.latest_head_timestamp == ts
                &&& last + before.clock_rate >= ts && !packet.header.marker ==> !ep.head
                &&& last + before.clock_rate >= ts ==> after.latest_head_timestamp == last
            }
        }),
{
}

/// The lowest number of the first 25 packets is where a track starts, and no later packet changes
/// that. Their highest temporal layer is that of the track, in a VP8 track.
pub proof fn law_track_starts_with_the_lowest_number(
    before: Buffer,
    after: Buffer,
    ep: ExtPacket,
    packet: Packet,
    wire: Option<Seq<u8>>,
    arrival: u64,
    now: u64,
)
    requires
        before.processed_with(after, ep, packet, wire, arrival, now),
    ensures
        before.stats.packet_count == 0 ==> after.base_sn == packet.header.sequence_number,
        before.stats.packet_count > 0 && before.min_packet_probe < 25 ==> after.base_sn
            <= before.base_sn && after.base_sn <= packet.header.sequence_number && (after.base_sn
            == before.base_sn || after.base_sn == packet.header.sequence_number),
        before.stats.packet_count > 0 && before.min_packet_probe >= 25 ==> after.base_sn
            == before.base_sn && after.max_temporal_layer == before.max_temporal_layer,
        before.min_packet_probe < 25 ==> after.min_packet_probe == before.min_packet_probe + 1,
        after.max_temporal_layer >= before.max_temporal_layer,
        before.min_packet_probe < 25 && before.mime@ == "video/vp8"@ ==> after.max_temporal_layer
            >= ep.payload.tid && (after.max_temporal_layer == ep.payload.tid
            || after.max_temporal_layer == before.max_temporal_layer),
{
}

/// The latest timestamp is that of the packet where it is later, by up to a quarter of the circle,
/// and stays where the packet is older by as much.
pub proof fn law_latest_timestamp_moves_forward(
    before: Buffer,
    after: Buffer,
    ep: ExtPacket,
    packet: Packet,
    wire: Option<Seq<u8>>,
    arrival: u64,
    now: u64,
)
    requires
        before.processed_with(after, ep, packet, wire, arrival, now),
    ensures
        0 < packet.header.timestamp - before.latest_timestamp < 0x4000_0000
            ==> after.latest_timestamp == packet.header.timestamp,
        0 < before.latest_timestamp - packet.header.timestamp < 0x4000_0000
            ==> after.latest_timestamp == before.latest_timestamp,
        before.latest_timestamp >= 0xC000_0000 && packet.header.timestamp < 0x4000_0000
            ==> after.latest_timestamp == packet.header.timestamp,
{
}

/// A packet leaves alone what was agreed on for the track.
pub proof fn law_packet_keeps_the_settings(
    before: Buffer,
    after: Buffer,
    ep: ExtPacket,
    packet: Packet,
    wire: Option<Seq<u8>>,
    arrival: u64,
    now: u64,
)
    requires
        before.processed_with(after, ep, packet, wire, arrival, now),
    ensures
        after.media_ssrc == before.media_ssrc,
        after.clock_rate == before.clock_rate,
        after.codec_type == before.codec_type,
        after.max_bitrate == before.max_bitrate,
        after.mime == before.mime,
        after.remb == before.remb,
        after.closed == before.closed,
        after.seq.nack == before.seq.nack,
        after.last_srntp_time == before.last_srntp_time,
        after.last_srrtp_time == before.last_srrtp_time,
        after.last_sr_recv == before.last_sr_recv,
        after.bucket is Some <==> before.bucket is Some,
{
}

/// A track of a kind that is not known keeps the bucket that it had; an audio track and a video track
/// get one of their own, with nothing in it.
pub proof fn law_bucket_is_made_for_a_known_kind(
    after: Option<Bucket>,
    before: Option<Bucket>,
    kind: RTPCodecType,
)
    requires
        new_bucket(after, before, kind),
    ensures
        kind is Unspecified ==> after == before,
        kind is Audio || kind is Video ==> (after matches Some(bucket) && !bucket.init),
        kind is Audio ==> after->0.capacity == 37_500,
        kind is Video ==> after->0.capacity == 750_000,
{
}

/// Nothing is counted before the first packet.
pub proof fn law_counters_start_at_zero(buffer: Buffer, ssrc: u32)
    requires
        buffer.is_new(ssrc),
    ensures
        buffer.stats.packet_count == 0,
        buffer.stats.total_byte == 0,
        buffer.stats.last_expected == 0,
        buffer.stats.last_received == 0,
        buffer.is_first(),
        buffer.media_ssrc == ssrc,
        !buffer.closed,
{
}

} // verus!
