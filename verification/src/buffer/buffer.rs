use std::collections::VecDeque;
use vstd::prelude::*;

use crate::buffer::bucket::{law_stored_packet_is_found, rtp_sn, Bucket};
use crate::buffer::bytes::{be16, peek_u16};
use crate::buffer::codec::{
    bytes_before_frame, is_h264_keyframe, is_later_timestamp, later, law_h264_key_frame_by_its_type,
    law_vp8_key_frame_starts_with_an_even_byte, vp8_blank, vp8_result, VP8,
};
use crate::packet::buffer::{
    bitrate_of, law_bitrate_of, no_stats, picture, starts_picture, Stats, REPORT_DELTA,
};
use crate::packet::params::RTPCodecType;
use crate::packet::rtp::{audio_level, read_audio_level, Header, Packet};
use crate::packet::sequence::{FeedbackPacket, SequenceTracker};
use crate::packet::wire::bytes_of;
use crate::text::same;

verus! {

/// How many packets are looked at to learn what a track is like.
pub const PACKET_PROBE_COUNT: i32 = 25;

/// How long a reader waits for the next packet, in milliseconds.
pub const READ_WAIT_MILLIS: u64 = 10;

/// A packet that arrived before its track was bound.
pub struct PendingPackets {
    pub arrival_time: u64,
    pub packet: Packet,
}

/// A packet with what the buffer knows of it.
pub struct ExtPacket {
    pub head: bool,
    pub cycle: u32,
    pub arrival: i64,
    pub packet: Packet,
    pub key_frame: bool,
    pub payload: VP8,
}

/// Stores the packets of a track, and what is known of the track.
pub struct Buffer {
    pub bucket: Option<Bucket>,
    pub seq: SequenceTracker,
    pub codec_type: RTPCodecType,
    pub ext_packets: VecDeque<ExtPacket>,
    pub pending_packets: Vec<PendingPackets>,
    pub media_ssrc: u32,
    pub clock_rate: u32,
    pub max_bitrate: u64,
    pub last_report: i64,
    pub twcc_ext: u8,
    pub audio_ext: u8,
    pub bound: bool,
    pub closed: bool,
    pub mime: String,
    // supported feedbacks
    pub remb: bool,
    pub twcc: bool,
    pub audio_level: bool,
    pub min_packet_probe: i32,
    pub last_packet_read: i32,
    pub max_temporal_layer: i32,
    pub bitrate: u64,
    pub bitrate_helper: u64,
    pub last_srntp_time: u64,
    pub last_srrtp_time: u32,
    /// Represents wall clock of the most recent sender report arrival
    pub last_sr_recv: i64,
    pub base_sn: u16,
    pub stats: Stats,
    /// latest received RTP timestamp on packet
    pub latest_timestamp: u32,
    /// Time of the latest timestamp (in nanos since unix epoch)
    pub latest_timestamp_time: i64,
}

/// What came of a packet, for those who are to be told.
pub struct Calculated {
    /// The transport wide sequence number, the arrival time and the marker.
    pub transport_cc: Option<(u16, i64, bool)>,
    /// Whether there is voice, and how loud it is.
    pub audio_level: Option<(bool, u8)>,
    /// Feedback to the sender of the track.
    pub feedback: Option<Vec<FeedbackPacket>>,
}

impl Calculated {
    /// Nobody is told anything.
    pub open spec fn is_nothing(&self) -> bool {
        self.transport_cc is None && self.audio_level is None && self.feedback is None
    }
}

/// What a reader of the track does next.
pub enum ReadStep {
    /// Takes the packet.
    Packet(ExtPacket),
    /// Waits that many milliseconds and tries again.
    Wait(u64),
}

/// Whether the payload can be read, in a track of the given type.
pub open spec fn readable(mime: Seq<char>, payload: Seq<u8>) -> bool {
    mime == "video/vp8"@ ==> vp8_result(payload) is Ok
}

impl Buffer {
    /// What every operation keeps.
    pub open spec fn wf(&self) -> bool {
        &&& self.seq.wf()
        &&& self.bucket matches Some(bucket) ==> bucket.wf()
        &&& 0 <= self.last_packet_read
    }

    /// Whether this is the buffer of a track of which nothing has arrived.
    pub open spec fn is_new(&self, ssrc: u32) -> bool {
        &&& self.wf()
        &&& self.media_ssrc == ssrc
        &&& self.bucket is None
        &&& self.seq.nacker is None
        &&& self.seq.cycles == 0
        &&& self.seq.max_seq_no == 0
        &&& !self.seq.nack
        &&& self.codec_type is Unspecified
        &&& self.ext_packets@.len() == 0
        &&& self.pending_packets@.len() == 0
        &&& self.clock_rate == 0
        &&& self.max_bitrate == 0
        &&& self.last_report == 0
        &&& self.twcc_ext == 0
        &&& self.audio_ext == 0
        &&& !self.bound
        &&& !self.closed
        &&& self.mime@.len() == 0
        &&& !self.remb
        &&& !self.twcc
        &&& !self.audio_level
        &&& self.min_packet_probe == 0
        &&& self.last_packet_read == 0
        &&& self.max_temporal_layer == 0
        &&& self.bitrate == 0
        &&& self.bitrate_helper == 0
        &&& self.last_srntp_time == 0
        &&& self.last_srrtp_time == 0
        &&& self.last_sr_recv == 0
        &&& self.base_sn == 0
        &&& self.stats == no_stats()
        &&& self.latest_timestamp == 0
        &&& self.latest_timestamp_time == 0
    }

    pub fn new(ssrc: u32) -> (buffer: Self)
        ensures
            buffer.is_new(ssrc),
    {
        Self {
            bucket: None,
            seq: SequenceTracker::new(),
            codec_type: RTPCodecType::Unspecified,
            ext_packets: VecDeque::new(),
            pending_packets: Vec::new(),
            media_ssrc: ssrc,
            clock_rate: 0,
            max_bitrate: 0,
            last_report: 0,
            twcc_ext: 0,
            audio_ext: 0,
            bound: false,
            closed: false,
            mime: String::new(),
            remb: false,
            twcc: false,
            audio_level: false,
            min_packet_probe: 0,
            last_packet_read: 0,
            max_temporal_layer: 0,
            bitrate: 0,
            bitrate_helper: 0,
            last_srntp_time: 0,
            last_srrtp_time: 0,
            last_sr_recv: 0,
            base_sn: 0,
            stats: Stats { last_expected: 0, last_received: 0, packet_count: 0, total_byte: 0 },
            latest_timestamp: 0,
            latest_timestamp_time: 0,
        }
    }

    /// Whether `after` is this buffer once a packet with the bytes `content` was stored and counted.
    /// A packet that cannot be written has no bytes, and is not stored.
    pub open spec fn received(
        &self,
        after: Buffer,
        sn: u16,
        content: Option<Seq<u8>>,
        arrival_time: i64,
    ) -> bool {
        let first = self.stats.packet_count == 0;
        let size = match content {
            Some(bytes) => bytes.len(),
            None => 0,
        };
        &&& self.seq.becomes(after.seq, sn, first)
        &&& match (self.bucket, after.bucket) {
            (None, None) => true,
            (Some(b), Some(a)) => match content {
                Some(bytes) => b.offered(a, bytes, sn, sn == after.seq.max_seq_no),
                None => a == b,
            },
            _ => false,
        }
        &&& after == Buffer {
            seq: after.seq,
            bucket: after.bucket,
            base_sn: if first {
                sn
            } else {
                self.base_sn
            },
            last_report: if first {
                arrival_time
            } else {
                self.last_report
            },
            stats: Stats {
                total_byte: ((self.stats.total_byte + size) % 0x1_0000_0000_0000_0000) as u64,
                packet_count: ((self.stats.packet_count + 1) % 0x1_0000_0000) as u32,
                ..self.stats
            },
            bitrate_helper: ((self.bitrate_helper + size) % 0x1_0000_0000_0000_0000) as u64,
            ..*self
        }
    }

    /// How much later than the last report the packet is, as a signed 64-bit number.
    pub open spec fn report_delta(&self, arrival_time: i64) -> int {
        let delta = arrival_time - self.last_report;
        if delta > i64::MAX {
            delta - 0x1_0000_0000_0000_0000
        } else if delta < i64::MIN {
            delta + 0x1_0000_0000_0000_0000
        } else {
            delta
        }
    }

    /// Whether `after` is this buffer, which has stored `packet`, once the packet was looked at and
    /// handed to the readers.
    pub open spec fn examined(&self, after: Buffer, packet: Packet, arrival_time: i64) -> bool {
        let sn = packet.header.sequence_number;
        let ts = packet.header.timestamp;
        let vp8 = picture(self.mime@, packet.payload@);
        let probes = self.min_packet_probe < PACKET_PROBE_COUNT;
        let is_later = self.latest_timestamp_time == 0 || later(ts, self.latest_timestamp);
        let delta = self.report_delta(arrival_time);
        let reports = delta >= REPORT_DELTA;
        &&& after.ext_packets@ == self.ext_packets@.push(
            ExtPacket {
                head: sn == self.seq.max_seq_no,
                cycle: self.seq.cycles,
                arrival: arrival_time,
                packet,
                key_frame: starts_picture(self.mime@, packet.payload@),
                payload: vp8,
            },
        )
        &&& after == Buffer {
            seq: after.seq,
            ext_packets: after.ext_packets,
            base_sn: if probes && sn < self.base_sn {
                sn
            } else {
                self.base_sn
            },
            max_temporal_layer: if probes && self.mime@ == "video/vp8"@ && self.max_temporal_layer
                < vp8.tid {
                vp8.tid as i32
            } else {
                self.max_temporal_layer
            },
            min_packet_probe: if probes {
                (self.min_packet_probe + 1) as i32
            } else {
                self.min_packet_probe
            },
            latest_timestamp: if is_later {
                ts
            } else {
                self.latest_timestamp
            },
            latest_timestamp_time: if is_later {
                arrival_time
            } else {
                self.latest_timestamp_time
            },
            bitrate: if reports {
                bitrate_of(self.bitrate_helper, delta)
            } else {
                self.bitrate
            },
            last_report: if reports {
                arrival_time
            } else {
                self.last_report
            },
            bitrate_helper: if reports {
                0
            } else {
                self.bitrate_helper
            },
            ..*self
        }
    }

    /// What those who are to be told learn from the header of a packet.
    pub open spec fn told(&self, header: Header, arrival_time: i64, out: Calculated) -> bool {
        &&& out.transport_cc == match header.extension_payload(self.twcc_ext) {
            Some(ext) if self.twcc && ext.len() > 1 => Some(
                (be16(ext[0], ext[1]) as u16, arrival_time, header.marker),
            ),
            _ => None,
        }
        &&& out.audio_level == match header.extension_payload(self.audio_ext) {
            Some(ext) if self.audio_level => audio_level(ext),
            _ => None,
        }
    }

    /// Whether `after` and `out` come of the packet with the bytes `content`.
    pub open spec fn calculated(
        &self,
        after: Buffer,
        out: Calculated,
        packet: Packet,
        content: Option<Seq<u8>>,
        arrival_time: i64,
    ) -> bool {
        exists|mid: Buffer|
            {
                &&& #[trigger] self.received(
                    mid,
                    packet.header.sequence_number,
                    content,
                    arrival_time,
                )
                &&& if readable(self.mime@, packet.payload@) {
                    &&& mid.examined(after, packet, arrival_time)
                    &&& mid.seq.fed_back(after.seq, self.media_ssrc, out.feedback)
                    &&& self.told(packet.header, arrival_time, out)
                } else {
                    after == mid && out.is_nothing()
                }
            }
    }

    /// Stores and counts a packet.
    fn receive(&mut self, sn: u16, content: &Option<Vec<u8>>, arrival_time: i64)
        requires
            old(self).wf(),
        ensures
            final(self).wf(),
            old(self).received(*final(self), sn, bytes_of(*content), arrival_time),
    {
        let first = self.stats.packet_count == 0;
        if first {
            self.base_sn = sn;
            self.last_report = arrival_time;
        }
        self.seq.calculate_nack(sn, first);
        let latest = sn == self.seq.max_seq_no;
        let mut size: u64 = 0;
        if let Some(bytes) = content {
            size = bytes.len() as u64;
            if let Some(bucket) = self.bucket.as_mut() {
                let _stored = bucket.add_packet(bytes, sn, latest);
            }
        }
        self.stats = Stats {
            last_expected: self.stats.last_expected,
            last_received: self.stats.last_received,
            packet_count: self.stats.packet_count.wrapping_add(1),
            total_byte: self.stats.total_byte.wrapping_add(size),
        };
        self.bitrate_helper = self.bitrate_helper.wrapping_add(size);
    }

    /// Learns from one of the first packets what the track is like.
    fn probe(&mut self, sn: u16, tid: u8)
        ensures
            ({
                let probes = old(self).min_packet_probe < PACKET_PROBE_COUNT;
                *final(self) == Buffer {
                    base_sn: if probes && sn < old(self).base_sn {
                        sn
                    } else {
                        old(self).base_sn
                    },
                    max_temporal_layer: if probes && old(self).mime@ == "video/vp8"@
                        && old(self).max_temporal_layer < tid {
                        tid as i32
                    } else {
                        old(self).max_temporal_layer
                    },
                    min_packet_probe: if probes {
                        (old(self).min_packet_probe + 1) as i32
                    } else {
                        old(self).min_packet_probe
                    },
                    ..*old(self)
                }
            }),
    {
        if self.min_packet_probe < PACKET_PROBE_COUNT {
            if sn < self.base_sn {
                self.base_sn = sn;
            }
            if same(self.mime.as_str(), "video/vp8") {
                if self.max_temporal_layer < tid as i32 {
                    self.max_temporal_layer = tid as i32;
                }
            }
            self.min_packet_probe = self.min_packet_probe + 1;
        }
    }

    /// Computes the bitrate when a report is due.
    fn report(&mut self, arrival_time: i64)
        ensures
            ({
                let delta = old(self).report_delta(arrival_time);
                *final(self) == if delta >= REPORT_DELTA {
                    Buffer {
                        bitrate: bitrate_of(old(self).bitrate_helper, delta),
                        last_report: arrival_time,
                        bitrate_helper: 0,
                        ..*old(self)
                    }
                } else {
                    *old(self)
                }
            }),
    {
        let diff: i64 = arrival_time.wrapping_sub(self.last_report);
        if diff >= REPORT_DELTA as i64 {
            self.bitrate = crate::packet::buffer::to_bitrate(self.bitrate_helper, diff as u64);
            self.last_report = arrival_time;
            self.bitrate_helper = 0;
        }
    }

    fn tell(&self, header: &Header, arrival_time: i64) -> (res: (
        Option<(u16, i64, bool)>,
        Option<(bool, u8)>,
    ))
        ensures
            forall|out: Calculated|
                out.transport_cc == res.0 && out.audio_level == res.1 ==> #[trigger] self.told(
                    *header,
                    arrival_time,
                    out,
                ),
    {
        let mut transport_cc: Option<(u16, i64, bool)> = None;
        if self.twcc {
            if let Some(ext) = header.get_extension(self.twcc_ext) {
                if ext.len() > 1 {
                    transport_cc = Some((peek_u16(ext, 0), arrival_time, header.marker));
                }
            }
        }
        let mut level: Option<(bool, u8)> = None;
        if self.audio_level {
            if let Some(ext) = header.get_extension(self.audio_ext) {
                level = read_audio_level(ext);
            }
        }
        (transport_cc, level)
    }

    /// Reads what the payload says of its picture, if it can be read.
    fn look_at_picture(&self, payload: &Vec<u8>) -> (res: Option<(bool, VP8)>)
        ensures
            res is Some <==> readable(self.mime@, payload@),
            res matches Some((key_frame, vp8)) ==> key_frame == starts_picture(
                self.mime@,
                payload@,
            ) && vp8 == picture(self.mime@, payload@),
    {
        if same(self.mime.as_str(), "video/vp8") {
            let mut vp8: VP8 = VP8::default();
            match vp8.unmarshal(payload) {
                Ok(()) => Some((vp8.is_key_frame, vp8)),
                Err(_) => None,
            }
        } else if same(self.mime.as_str(), "video/h264") {
            Some((is_h264_keyframe(payload), VP8::default()))
        } else {
            Some((false, VP8::default()))
        }
    }

    /// Updates this buffer with the given packet, whose bytes are `content`, if it can be written.
    #[verifier::rlimit(30)]
    pub fn calc_with(
        &mut self,
        packet: Packet,
        content: &Option<Vec<u8>>,
        arrival_time: i64,
    ) -> (out: Calculated)
        requires
            old(self).wf(),
        ensures
            final(self).wf(),
            old(self).calculated(
                *final(self),
                out,
                packet,
                bytes_of(*content),
                arrival_time,
            ),
    {
        let sn: u16 = packet.header.sequence_number;
        let ts: u32 = packet.header.timestamp;
        self.receive(sn, content, arrival_time);
        let ghost mid = *self;
        let (key_frame, payload) = match self.look_at_picture(&packet.payload) {
            None => {
                let out = Calculated { transport_cc: None, audio_level: None, feedback: None };
                assert(old(self).received(
                    mid,
                    packet.header.sequence_number,
                    bytes_of(*content),
                    arrival_time,
                ));
                return out;
            },
            Some(found) => found,
        };
        let (transport_cc, level) = self.tell(&packet.header, arrival_time);
        let head = sn == self.seq.max_seq_no;
        let cycle: u32 = self.seq.cycles;
        self.probe(sn, payload.tid);
        self.ext_packets.push_back(
            ExtPacket { head, cycle, arrival: arrival_time, packet, key_frame, payload },
        );
        // if first time update or the timestamp is later (factoring timestamp wrap around)
        if self.latest_timestamp_time == 0 || is_later_timestamp(ts, self.latest_timestamp) {
            self.latest_timestamp = ts;
            self.latest_timestamp_time = arrival_time;
        }
        let ssrc: u32 = self.media_ssrc;
        let feedback = self.seq.feed_back(ssrc);
        self.report(arrival_time);
        let out = Calculated { transport_cc, audio_level: level, feedback };
        proof {
            assert(old(self).received(
                mid,
                packet.header.sequence_number,
                bytes_of(*content),
                arrival_time,
            ));
            assert(mid.examined(*self, packet, arrival_time));
            assert(old(self).told(packet.header, arrival_time, out)) by {
                assert(mid.told(packet.header, arrival_time, out));
            }
        }
        out
    }
}

/// A packet that can be read is handed to the readers behind those before it, whole, and with the
/// time of its arrival; it is marked as the head where no packet before it has a higher number. One
/// that cannot be read is handed to nobody, and nobody is told of it.
pub proof fn law_readable_packet_is_handed_to_the_readers(
    before: Buffer,
    after: Buffer,
    out: Calculated,
    packet: Packet,
    content: Option<Seq<u8>>,
    arrival_time: i64,
)
    requires
        before.calculated(after, out, packet, content, arrival_time),
    ensures
        ({
            let sn = packet.header.sequence_number;
            let reads = before.mime@ != "video/vp8"@ || vp8_result(packet.payload@) is Ok;
            &&& reads ==> {
                let handed = after.ext_packets@.last();
                &&& after.ext_packets@.len() == before.ext_packets@.len() + 1
                &&& after.ext_packets@.drop_last() == before.ext_packets@
                &&& handed.packet == packet
                &&& handed.arrival == arrival_time
                &&& handed.cycle == after.seq.cycles
                &&& handed.head <==> sn == after.seq.max_seq_no
            }
            &&& !reads ==> after.ext_packets == before.ext_packets && out.feedback is None
                && out.audio_level is None && out.transport_cc is None
        }),
{
    let mid = choose|mid: Buffer|
        {
            &&& #[trigger] before.received(
                mid,
                packet.header.sequence_number,
                content,
                arrival_time,
            )
            &&& if readable(before.mime@, packet.payload@) {
                &&& mid.examined(after, packet, arrival_time)
                &&& mid.seq.fed_back(after.seq, before.media_ssrc, out.feedback)
                &&& before.told(packet.header, arrival_time, out)
            } else {
                after == mid && out.is_nothing()
            }
        };
    if readable(before.mime@, packet.payload@) {
        assert(after.ext_packets@.drop_last() =~= before.ext_packets@);
    }
}

/// What counts as a key frame is up to the codec, as it is for the readers of a track.
pub proof fn law_key_frames_are_handed_on(
    before: Buffer,
    after: Buffer,
    out: Calculated,
    packet: Packet,
    content: Option<Seq<u8>>,
    arrival_time: i64,
)
    requires
        before.calculated(after, out, packet, content, arrival_time),
        packet.payload@.len() > 0,
        before.mime@ == "video/vp8"@ ==> vp8_result(packet.payload@) is Ok,
    ensures
        ({
            let p = packet.payload@;
            let handed = after.ext_packets@.last();
            &&& before.mime@ == "video/vp8"@ ==> (handed.key_frame <==> p[0] / 0x10 % 2 == 1
                && p[bytes_before_frame(p)] % 2 == 0)
            &&& before.mime@ == "video/h264"@ && p[0] % 0x20 < 24 ==> (handed.key_frame <==> p[0]
                % 0x20 == 5)
            &&& before.mime@ != "video/vp8"@ && before.mime@ != "video/h264"@ ==> !handed.key_frame
        }),
{
    reveal_strlit("video/vp8");
    reveal_strlit("video/h264");
    assert("video/vp8"@.len() == 9 && "video/h264"@.len() == 10);
    let p = packet.payload@;
    if vp8_result(p) is Ok {
        law_vp8_key_frame_starts_with_an_even_byte(vp8_blank(), p);
    }
    law_h264_key_frame_by_its_type(p);
}

/// Each packet counts once, and with all its bytes. The first packet starts the numbers and the time
/// of the reports.
pub proof fn law_received_packets_are_counted(
    before: Buffer,
    after: Buffer,
    out: Calculated,
    packet: Packet,
    content: Option<Seq<u8>>,
    arrival_time: i64,
)
    requires
        before.calculated(after, out, packet, content, arrival_time),
        before.stats.packet_count < u32::MAX,
        content matches Some(bytes) ==> before.stats.total_byte + bytes.len() <= u64::MAX,
    ensures
        after.stats.packet_count == before.stats.packet_count + 1,
        content matches Some(bytes) ==> after.stats.total_byte == before.stats.total_byte
            + bytes.len(),
        before.stats.packet_count == 0 ==> after.base_sn == packet.header.sequence_number,
        after.mime == before.mime,
        after.media_ssrc == before.media_ssrc,
        after.bound == before.bound,
        after.closed == before.closed,
        after.pending_packets == before.pending_packets,
        after.max_temporal_layer >= before.max_temporal_layer,
{
}

/// The bitrate is that of the time since the last report, once that was at least a second.
pub proof fn law_reported_bitrate_is_bits_over_time(
    before: Buffer,
    after: Buffer,
    out: Calculated,
    packet: Packet,
    bytes: Seq<u8>,
    arrival_time: i64,
)
    requires
        before.calculated(after, out, packet, Some(bytes), arrival_time),
        before.stats.packet_count > 0,
        before.mime@ == "video/vp8"@ ==> vp8_result(packet.payload@) is Ok,
        0 <= before.last_report,
        0 <= arrival_time,
        before.bitrate_helper + bytes.len() <= 0xFFFF_FFFF,
    ensures
        ({
            let span = arrival_time - before.last_report;
            let bits = 8 * (before.bitrate_helper + bytes.len());
            &&& span < 1_000_000_000 ==> after.bitrate == before.bitrate && after.last_report
                == before.last_report && after.bitrate_helper == before.bitrate_helper
                + bytes.len()
            &&& span >= 1_000_000_000 ==> {
                &&& after.bitrate * span <= bits * 1_000_000_000 < (after.bitrate + 1) * span
                &&& after.bitrate_helper == 0
                &&& after.last_report == arrival_time
            }
        }),
{
    let span = arrival_time - before.last_report;
    let sum = (before.bitrate_helper + bytes.len()) as u64;
    assert(sum == before.bitrate_helper + bytes.len());
    assert(exists|mid: Buffer|
        {
            &&& #[trigger] before.received(
                mid,
                packet.header.sequence_number,
                Some(bytes),
                arrival_time,
            )
            &&& mid.bitrate_helper == sum
            &&& mid.examined(after, packet, arrival_time)
        });
    if span >= 1_000_000_000 {
        law_bitrate_of(sum, span);
        assert(after.bitrate == bitrate_of(sum, span));
    }
}

/// The loudness of a packet is told of where the track is set up for it, by the element with the id
/// that was agreed on, and so is its transport wide sequence number.
pub proof fn law_loudness_of_a_packet_is_told(
    buffer: Buffer,
    header: Header,
    arrival_time: i64,
    out: Calculated,
)
    requires
        buffer.told(header, arrival_time, out),
    ensures
        !buffer.audio_level ==> out.audio_level is None,
        buffer.audio_level ==> match header.extension_payload(buffer.audio_ext) {
            Some(ext) => out.audio_level == audio_level(ext),
            None => out.audio_level is None,
        },
        !buffer.twcc ==> out.transport_cc is None,
        buffer.twcc ==> match header.extension_payload(buffer.twcc_ext) {
            Some(ext) if ext.len() >= 2 => out.transport_cc == Some(
                ((256 * ext[0] + ext[1]) as u16, arrival_time, header.marker),
            ),
            _ => out.transport_cc is None,
        },
{
}

/// A packet that has arrived is found in the bucket of its track, as it was written, where the bucket
/// has room for it.
pub proof fn law_arrived_packet_is_found(
    before: Buffer,
    after: Buffer,
    out: Calculated,
    packet: Packet,
    bytes: Seq<u8>,
    arrival_time: i64,
)
    requires
        before.wf(),
        after.wf(),
        before.calculated(after, out, packet, Some(bytes), arrival_time),
        before.bucket is Some,
        bytes.len() >= 4,
        rtp_sn(bytes) == packet.header.sequence_number,
        before.bucket->0.add_error(
            bytes.len() as int,
            packet.header.sequence_number,
            packet.header.sequence_number == after.seq.max_seq_no,
        ) is None,
    ensures
        after.bucket is Some,
        after.bucket->0.packet(packet.header.sequence_number) == Some(bytes),
{
    let sn = packet.header.sequence_number;
    law_stored_packet_is_found(
        before.bucket->0,
        after.bucket->0,
        bytes,
        sn,
        sn == after.seq.max_seq_no,
    );
}

/// Nothing is known of a track before its first packet but the SSRC.
pub proof fn law_nothing_is_known_of_a_new_track(buffer: Buffer, ssrc: u32)
    requires
        buffer.is_new(ssrc),
    ensures
        buffer.media_ssrc == ssrc,
        !buffer.bound && !buffer.closed,
        buffer.bucket is None,
        buffer.ext_packets@.len() == 0 && buffer.pending_packets@.len() == 0,
        buffer.stats.packet_count == 0 && buffer.stats.total_byte == 0,
        buffer.bitrate == 0 && buffer.bitrate_helper == 0 && buffer.last_report == 0,
        buffer.max_temporal_layer == 0 && buffer.min_packet_probe == 0,
        !buffer.twcc && !buffer.audio_level && !buffer.remb,
        !buffer.seq.nack && buffer.seq.nacker is None,
        buffer.latest_timestamp == 0 && buffer.latest_timestamp_time == 0,
        buffer.last_srntp_time == 0 && buffer.last_srrtp_time == 0 && buffer.last_sr_recv == 0,
{
}

} // verus!
