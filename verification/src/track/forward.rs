use vstd::prelude::*;

use crate::packet::buffer::ExtPacket;
use crate::packet::params::{codec_type_of, RTPCodecType};
use crate::text::same;
use crate::track::downtrack::{
    arrival_millis, followed_layer, less, DownTrack, DownTrackInternal, DownTrackType,
    Forwarded, SentHeader, SECONDS_PER_STAT,
};
use crate::track::simulcast::SimulcastTrackHelpers;

verus! {

/// Whether the packet comes from another source than the last one.
pub open spec fn ssrc_changes(track: DownTrack, ep: ExtPacket) -> bool {
    track.down_track_local.last_ssrc != ep.packet.header.ssrc
}

/// The clock cycles between two points in time in milliseconds, at least one.
pub open spec fn gap_cycles(from: u32, to: u32) -> u32 {
    let cycles = less(to as int, from as int) * 90 % 0x1_0000_0000 / 1000;
    if cycles == 0 {
        1
    } else {
        cycles as u32
    }
}

fn cycles_between(from: u32, to: u32) -> (td: u32)
    ensures
        td == gap_cycles(from, to),
{
    let tdiff: u32 = to.saturating_sub(from);  // ms
    let td: u32 = tdiff.wrapping_mul(90) / 1000;  // clock cycles
    if td == 0 {
        1
    } else {
        td
    }
}

/// The offset that puts the timestamp `ts` `td` cycles behind `last`.
fn offset_from(ts: u32, last: u32, td: u32) -> (offset: u32)
    ensures
        offset == (ts - (last + td)) % 0x1_0000_0000,
{
    ts.wrapping_sub(last.wrapping_add(td))
}

/// The offset that puts the sequence number `sn` directly behind `last`.
fn offset_behind(sn: u16, last: u16) -> (offset: u16)
    ensures
        offset == (sn - last - 1) % 0x1_0000,
{
    sn.wrapping_sub(last).wrapping_sub(1)
}

impl DownTrack {
    /// Whether a simple track that is out of sync waits for a key frame.
    pub open spec fn simple_waits(&self, key_frame: bool) -> bool {
        &&& self.down_track_local.re_sync
        &&& codec_type_of(self.down_track_local.media_codec.mime_type@) is Video
        &&& !key_frame
    }

    /// The simple track once it is in sync with the packet: it goes on where it was.
    pub open spec fn synced(self, ep: ExtPacket) -> DownTrack {
        let header = ep.packet.header;
        let goes_on = self.last_sn != 0;
        if self.down_track_local.re_sync {
            DownTrack {
                sn_offset: if goes_on {
                    less(less(header.sequence_number as int, self.last_sn as int), 1) as u16
                } else {
                    self.sn_offset
                },
                ts_offset: if goes_on {
                    less(less(header.timestamp as int, self.last_ts as int), 1) as u32
                } else {
                    self.ts_offset
                },
                down_track_local: DownTrackInternal {
                    last_ssrc: header.ssrc,
                    re_sync: false,
                    ..self.down_track_local
                },
                ..self
            }
        } else {
            self
        }
    }

    /// The sequence number and the timestamp that a simple track in sync sends a packet with.
    pub open spec fn simple_target(&self, ep: ExtPacket) -> (u16, u32) {
        (
            ((ep.packet.header.sequence_number - self.sn_offset) % 0x1_0000) as u16,
            less(ep.packet.header.timestamp as int, self.ts_offset as int) as u32,
        )
    }

    /// Whether `after` is the simple track in sync once it has counted the packet.
    pub open spec fn simple_counted(&self, after: DownTrack, ep: ExtPacket) -> bool {
        let (new_sn, new_ts) = self.simple_target(ep);
        &&& self.down_track_local.sequencer.sequencer.pushed(
            after.down_track_local.sequencer.sequencer,
            ep.packet.header.sequence_number,
            new_sn,
            new_ts,
            0,
            ep.head,
        )
        &&& after == DownTrack {
            octet_count: ep.packet.payload@.len() as u32,
            packet_count: 1,
            last_sn: if ep.head {
                new_sn
            } else {
                self.last_sn
            },
            last_ts: if ep.head {
                new_ts
            } else {
                self.last_ts
            },
            packet_sent_count: if self.down_track_local.write_stream {
                ((self.packet_sent_count + 1) % 0x1_0000_0000) as u32
            } else {
                self.packet_sent_count
            },
            down_track_local: DownTrackInternal {
                sequencer: after.down_track_local.sequencer,
                ..self.down_track_local
            },
            ..*self
        }
    }

    /// Whether `after` and `out` come of forwarding a packet on a simple track.
    pub open spec fn simple_forwarded(
        &self,
        after: DownTrack,
        out: Forwarded,
        ep: ExtPacket,
        receiver_alive: bool,
    ) -> bool {
        let local = self.down_track_local;
        let (new_sn, new_ts) = self.synced(ep).simple_target(ep);
        if self.simple_waits(ep.key_frame) {
            &&& after == *self
            &&& out == if receiver_alive {
                Forwarded::AskKeyFrameOnce {
                    sender_ssrc: local.ssrc,
                    media_ssrc: ep.packet.header.ssrc,
                }
            } else {
                Forwarded::Nothing
            }
        } else {
            &&& self.synced(ep).simple_counted(after, ep)
            &&& out == if local.write_stream {
                Forwarded::Packet(
                    SentHeader {
                        sequence_number: new_sn,
                        timestamp: new_ts,
                        ssrc: local.ssrc,
                        payload_type: local.payload_type,
                    },
                )
            } else {
                Forwarded::Nothing
            }
        }
    }

    /// Gets in sync with the packet.
    fn sync(&mut self, ep: &ExtPacket)
        ensures
            *final(self) == old(self).synced(*ep),
    {
        if self.down_track_local.re_sync {
            if self.last_sn != 0 {
                self.sn_offset = ep.packet.header.sequence_number.saturating_sub(
                    self.last_sn,
                ).saturating_sub(1);
                self.ts_offset = ep.packet.header.timestamp.saturating_sub(
                    self.last_ts,
                ).saturating_sub(1);
            }
            self.down_track_local.last_ssrc = ep.packet.header.ssrc;
            self.down_track_local.re_sync = false;
        }
    }

    /// Counts the packet on a simple track in sync.
    ///
    /// # Returns
    /// - The sequence number and the timestamp that it is sent with
    #[verifier::rlimit(60)]
    fn count_simple(&mut self, ep: &ExtPacket) -> (target: (u16, u32))
        requires
            old(self).wf(),
        ensures
            final(self).wf(),
            old(self).simple_counted(*final(self), *ep),
            target == old(self).simple_target(*ep),
    {
        let sn: u16 = ep.packet.header.sequence_number;
        let new_sn: u16 = sn.wrapping_sub(self.sn_offset);
        let new_ts: u32 = ep.packet.header.timestamp.saturating_sub(self.ts_offset);
        self.update_stats(ep.packet.payload.len() as u32);
        let _next = self.down_track_local.sequencer.push(sn, new_sn, new_ts, 0, ep.head);
        if ep.head {
            self.last_sn = new_sn;
            self.last_ts = new_ts;
        }
        if self.down_track_local.write_stream {
            self.packet_sent_count = self.packet_sent_count.wrapping_add(1);
        }
        (new_sn, new_ts)
    }

    fn forward_simple_rtp(&mut self, ep: &ExtPacket, receiver_alive: bool) -> (out: Forwarded)
        requires
            old(self).wf(),
        ensures
            final(self).wf(),
            old(self).simple_forwarded(*final(self), out, *ep, receiver_alive),
    {
        let ssrc: u32 = self.ssrc();
        if self.down_track_local.re_sync {
            match self.down_track_local.kind() {
                RTPCodecType::Video => {
                    if !ep.key_frame {
                        if receiver_alive {
                            return Forwarded::AskKeyFrameOnce {
                                sender_ssrc: ssrc,
                                media_ssrc: ep.packet.header.ssrc,
                            };
                        }
                        return Forwarded::Nothing;
                    }
                },
                _ => {},
            }
        }
        self.sync(ep);
        let (new_sn, new_ts) = self.count_simple(ep);
        if self.down_track_local.write_stream {
            return Forwarded::Packet(
                SentHeader {
                    sequence_number: new_sn,
                    timestamp: new_ts,
                    ssrc,
                    payload_type: self.down_track_local.payload_type,
                },
            );
        }
        Forwarded::Nothing
    }

    /// Whether a simulcast track that is out of sync waits for a key frame.
    pub open spec fn simulcast_waits(&self, key_frame: bool, receiver_alive: bool) -> bool {
        receiver_alive && self.down_track_local.re_sync && !key_frame
    }

    /// The track once it has started over with the packet, where the packet comes from another source
    /// or the track is out of sync.
    pub open spec fn restarted(self, ep: ExtPacket) -> DownTrack {
        let helpers = self.simulcast;
        let re_sync = self.down_track_local.re_sync;
        let refers = helpers.temporal_supported && self.down_track_local.mime@ == "video/vp8"@;
        let referred = SimulcastTrackHelpers {
            p_ref_pic_id: helpers.l_pic_id,
            ref_pic_id: ep.payload.picture_id,
            p_ref_tlz_idx: helpers.l_tlz_idx,
            ref_tlz_idx: ep.payload.tl0_picture_idx,
            ..helpers
        };
        if ssrc_changes(self, ep) || re_sync {
            DownTrack {
                simulcast: SimulcastTrackHelpers {
                    l_ts_calc: if re_sync && helpers.l_ts_calc != 0 {
                        arrival_millis(ep.arrival)
                    } else {
                        helpers.l_ts_calc
                    },
                    ..if refers {
                        referred
                    } else {
                        helpers
                    }
                },
                down_track_local: DownTrackInternal { re_sync: false, ..self.down_track_local },
                ..self
            }
        } else {
            self
        }
    }

    /// The clock cycles between the last packet and the first one of another source.
    pub open spec fn source_gap(&self, ep: ExtPacket) -> u32 {
        gap_cycles(self.simulcast.l_ts_calc, arrival_millis(ep.arrival))
    }

    /// Whether the track switches to another source with the packet.
    pub open spec fn switches_source(&self, ep: ExtPacket) -> bool {
        self.simulcast.l_ts_calc != 0 && ssrc_changes(*self, ep)
    }

    /// The track with offsets that fit the packet: those of another source are chosen so that it
    /// goes on where the last one was, and the first packet of all is sent as it is.
    pub open spec fn aligned(self, ep: ExtPacket) -> DownTrack {
        let header = ep.packet.header;
        if self.switches_source(ep) {
            DownTrack {
                sn_offset: ((header.sequence_number - self.last_sn - 1) % 0x1_0000) as u16,
                ts_offset: ((header.timestamp - (self.last_ts + self.source_gap(ep)))
                    % 0x1_0000_0000) as u32,
                down_track_local: DownTrackInternal {
                    last_ssrc: header.ssrc,
                    ..self.down_track_local
                },
                ..self
            }
        } else if self.simulcast.l_ts_calc == 0 {
            DownTrack {
                last_sn: header.sequence_number,
                last_ts: header.timestamp,
                simulcast: SimulcastTrackHelpers {
                    temporal_supported: if self.down_track_local.mime@ == "video/vp8"@ {
                        ep.payload.temporal_supported
                    } else {
                        self.simulcast.temporal_supported
                    },
                    ..self.simulcast
                },
                ..self
            }
        } else {
            self
        }
    }

    /// The sequence number and the timestamp that an aligned track sends the packet with.
    pub open spec fn simulcast_target(&self, ep: ExtPacket) -> (u16, u32) {
        (
            ((ep.packet.header.sequence_number - self.sn_offset) % 0x1_0000) as u16,
            ((ep.packet.header.timestamp - self.ts_offset) % 0x1_0000_0000) as u32,
        )
    }

    /// The aligned track once it has counted the packet. `temporal` says whether the packets before
    /// had temporal layers.
    pub open spec fn counted(self, ep: ExtPacket, temporal: bool) -> DownTrack {
        let (new_sn, new_ts) = self.simulcast_target(ep);
        DownTrack {
            temporal_layer: if temporal && self.down_track_local.mime@ == "video/vp8"@ {
                followed_layer(self.temporal_layer, ep.payload.tid)
            } else {
                self.temporal_layer
            },
            octet_count: ((self.octet_count + (ep.packet.payload@.len() as u32))
                % 0x1_0000_0000) as u32,
            packet_count: ((self.packet_count + 1) % 0x1_0000_0000) as u32,
            last_sn: if ep.head {
                new_sn
            } else {
                self.last_sn
            },
            last_ts: if ep.head {
                new_ts
            } else {
                self.last_ts
            },
            simulcast: SimulcastTrackHelpers {
                l_ts_calc: arrival_millis(ep.arrival),
                ..self.simulcast
            },
            ..self
        }
    }

    /// Whether `after` and `out` come of forwarding a packet on a simulcast track.
    pub open spec fn simulcast_forwarded(
        &self,
        after: DownTrack,
        out: Forwarded,
        ep: ExtPacket,
        layer: u8,
        receiver_alive: bool,
    ) -> bool {
        let local = self.down_track_local;
        let ready = self.restarted(ep).aligned(ep);
        let (new_sn, new_ts) = ready.simulcast_target(ep);
        if self.current_spatial_layer != layer {
            after == *self && out is Nothing
        } else if self.simulcast_waits(ep.key_frame, receiver_alive) {
            &&& after == *self
            &&& out == Forwarded::AskKeyFrame {
                sender_ssrc: local.ssrc,
                media_ssrc: ep.packet.header.ssrc,
            }
        } else {
            &&& after == ready.counted(ep, self.simulcast.temporal_supported)
            &&& out == if local.write_stream {
                Forwarded::Packet(
                    SentHeader {
                        sequence_number: new_sn,
                        timestamp: new_ts,
                        ssrc: local.ssrc,
                        payload_type: local.payload_type,
                    },
                )
            } else {
                Forwarded::Nothing
            }
        }
    }

    /// Starts over with the packet, where it comes from another source or the track is out of sync.
    fn restart(&mut self, ep: &ExtPacket, now: u32)
        requires
            now == arrival_millis(ep.arrival),
        ensures
            *final(self) == old(self).restarted(*ep),
    {
        let re_sync = self.down_track_local.re_sync;
        if self.down_track_local.last_ssrc != ep.packet.header.ssrc || re_sync {
            if re_sync && self.simulcast.l_ts_calc != 0 {
                self.simulcast.l_ts_calc = now;
            }
            if self.simulcast.temporal_supported {
                if same(self.down_track_local.mime.as_str(), "video/vp8") {
                    self.simulcast.p_ref_pic_id = self.simulcast.l_pic_id;
                    self.simulcast.ref_pic_id = ep.payload.picture_id;
                    self.simulcast.p_ref_tlz_idx = self.simulcast.l_tlz_idx;
                    self.simulcast.ref_tlz_idx = ep.payload.tl0_picture_idx;
                }
            }
            self.down_track_local.re_sync = false;
        }
    }

    /// Chooses offsets that fit the packet.
    fn align(&mut self, ep: &ExtPacket, now: u32)
        requires
            now == arrival_millis(ep.arrival),
        ensures
            *final(self) == old(self).aligned(*ep),
    {
        let sn: u16 = ep.packet.header.sequence_number;
        let ts: u32 = ep.packet.header.timestamp;
        if self.simulcast.l_ts_calc != 0 && self.down_track_local.last_ssrc
            != ep.packet.header.ssrc {
            self.down_track_local.last_ssrc = ep.packet.header.ssrc;
            let td: u32 = cycles_between(self.simulcast.l_ts_calc, now);
            self.ts_offset = offset_from(ts, self.last_ts, td);
            self.sn_offset = offset_behind(sn, self.last_sn);
        } else if self.simulcast.l_ts_calc == 0 {
            self.last_ts = ts;
            self.last_sn = sn;
            if same(self.down_track_local.mime.as_str(), "video/vp8") {
                self.simulcast.temporal_supported = ep.payload.temporal_supported;
            }
        }
    }

    /// Counts the packet.
    ///
    /// # Returns
    /// - The sequence number and the timestamp that it is sent with
    fn count(&mut self, ep: &ExtPacket, now: u32, temporal: bool) -> (target: (u16, u32))
        requires
            now == arrival_millis(ep.arrival),
        ensures
            *final(self) == old(self).counted(*ep, temporal),
            target == old(self).simulcast_target(*ep),
    {
        let new_sn: u16 = ep.packet.header.sequence_number.wrapping_sub(self.sn_offset);
        let new_ts: u32 = ep.packet.header.timestamp.wrapping_sub(self.ts_offset);
        if temporal && same(self.down_track_local.mime.as_str(), "video/vp8") {
            self.set_vp8_temporal_layer(ep.payload.tid);
        }
        self.octet_count = self.octet_count.wrapping_add(ep.packet.payload.len() as u32);
        self.packet_count = self.packet_count.wrapping_add(1);
        if ep.head {
            self.last_sn = new_sn;
            self.last_ts = new_ts;
        }
        self.simulcast.l_ts_calc = now;
        (new_sn, new_ts)
    }

    /// Follows the temporal layer that was asked for.
    fn set_vp8_temporal_layer(&mut self, tid: u8)
        ensures
            *final(self) == (DownTrack {
                temporal_layer: followed_layer(old(self).temporal_layer, tid),
                ..*old(self)
            }),
    {
        let current: u32 = self.temporal_layer % 0x1_0000;
        let target: u32 = self.temporal_layer / 0x1_0000;
        if target != current {
            if tid as u32 <= target {
                self.temporal_layer = target * 0x1_0000 + target;
            }
        }
    }

    fn forward_simulcast_rtp(&mut self, ep: &ExtPacket, layer: u8, receiver_alive: bool) -> (out:
        Forwarded)
        requires
            old(self).wf(),
        ensures
            final(self).wf(),
            old(self).simulcast_forwarded(*final(self), out, *ep, layer, receiver_alive),
    {
        if self.current_spatial_layer() != layer {
            return Forwarded::Nothing;
        }
        let ssrc: u32 = self.ssrc();
        let temporal_supported = self.simulcast.temporal_supported;
        // expected wrap around 1_193 hours
        let now: u32 = (ep.arrival / 1_000_000 % 0x1_0000_0000) as u32;
        if receiver_alive && self.down_track_local.re_sync && !ep.key_frame {
            return Forwarded::AskKeyFrame {
                sender_ssrc: ssrc,
                media_ssrc: ep.packet.header.ssrc,
            };
        }
        self.restart(ep, now);
        self.align(ep, now);
        let (new_sn, new_ts) = self.count(ep, now, temporal_supported);
        if self.down_track_local.write_stream {
            return Forwarded::Packet(
                SentHeader {
                    sequence_number: new_sn,
                    timestamp: new_ts,
                    ssrc,
                    payload_type: self.down_track_local.payload_type,
                },
            );
        }
        Forwarded::Nothing
    }

    /// Whether `after` and `out` come of forwarding a packet.
    pub open spec fn forwarded(
        &self,
        after: DownTrack,
        out: Forwarded,
        pkt: ExtPacket,
        layer: usize,
        receiver_alive: bool,
    ) -> bool {
        if !self.down_track_local.enabled || !self.down_track_local.bound {
            after == *self && out is Nothing
        } else if self.track_type is SimpleDownTrack {
            self.simple_forwarded(after, out, pkt, receiver_alive)
        } else {
            self.simulcast_forwarded(after, out, pkt, (layer % 0x100) as u8, receiver_alive)
        }
    }

    /// Forwards an Extended Packet from a track receiver to the local track.
    /// # Arguments
    /// - `pkt`: Extended packet.
    /// - `layer`: Layer of the track (ignored for simple tracks).
    /// - `receiver_alive`: Whether the receiver of the track is still there.
    pub fn forward_rtp(&mut self, pkt: &ExtPacket, layer: usize, receiver_alive: bool) -> (out:
        Forwarded)
        requires
            old(self).wf(),
        ensures
            final(self).wf(),
            old(self).forwarded(*final(self), out, *pkt, layer, receiver_alive),
    {
        if !self.down_track_local.enabled {
            return Forwarded::Nothing;
        }
        if !self.bound() {
            return Forwarded::Nothing;
        }
        let layer_u8: u8 = (layer % 0x100) as u8;
        match self.track_type {
            DownTrackType::SimpleDownTrack => self.forward_simple_rtp(pkt, receiver_alive),
            DownTrackType::SimulcastDownTrack => self.forward_simulcast_rtp(
                pkt,
                layer_u8,
                receiver_alive,
            ),
        }
    }

    /// Looks at how many packets were sent, every [SECONDS_PER_STAT] seconds.
    ///
    /// # Returns
    /// - Packets per second, if it was time to look
    pub fn look_at_stats(&mut self, now: u64) -> (res: Option<u32>)
        ensures
            ({
                let is_time = now - old(self).last_stats >= SECONDS_PER_STAT * 1000;
                &&& res == if is_time {
                    Some((old(self).packet_sent_count / SECONDS_PER_STAT) as u32)
                } else {
                    None
                }
                &&& *final(self) == if is_time {
                    DownTrack { packet_sent_count: 0, last_stats: now, ..*old(self) }
                } else {
                    *old(self)
                }
            }),
    {
        if now >= self.last_stats && now - self.last_stats >= SECONDS_PER_STAT as u64 * 1000 {
            let count: u32 = self.packet_sent_count / SECONDS_PER_STAT;
            self.packet_sent_count = 0;
            self.last_stats = now;
            return Some(count);
        }
        None
    }
}

/// A simple track goes on where it was: once it is in sync again, the packet has the number behind
/// the last one that was sent, and a timestamp behind the last one. The numbers of a source that
/// starts below the last one are left as they are.
pub proof fn law_simple_track_goes_on(track: DownTrack, ep: ExtPacket)
    requires
        track.down_track_local.re_sync,
        0 < track.last_sn < ep.packet.header.sequence_number,
        track.last_ts < ep.packet.header.timestamp,
    ensures
        track.synced(ep).simple_target(ep) == (
            (track.last_sn + 1) as u16,
            (track.last_ts + 1) as u32,
        ),
{
}

/// A simulcast track goes on where it was: the first packet of another source has the number behind
/// the last one that was sent, and its timestamp is as far behind the last one as the packets
/// arrived.
pub proof fn law_simulcast_track_goes_on(track: DownTrack, ep: ExtPacket)
    requires
        track.switches_source(ep),
    ensures
        track.aligned(ep).simulcast_target(ep) == (
            ((track.last_sn + 1) % 0x1_0000) as u16,
            ((track.last_ts + track.source_gap(ep)) % 0x1_0000_0000) as u32,
        ),
{
}

/// A track that is muted or not bound sends nothing, and stays as it was.
pub proof fn law_muted_track_sends_nothing(
    before: DownTrack,
    after: DownTrack,
    out: Forwarded,
    ep: ExtPacket,
    layer: usize,
    receiver_alive: bool,
)
    requires
        before.forwarded(after, out, ep, layer, receiver_alive),
        !before.down_track_local.enabled || !before.down_track_local.bound,
    ensures
        out is Nothing,
        after == before,
{
}

/// A simulcast track sends the packets of the layer that it is on, once it is in sync, and no packet
/// of another layer.
pub proof fn law_only_the_current_layer_is_sent(
    before: DownTrack,
    after: DownTrack,
    out: Forwarded,
    ep: ExtPacket,
    layer: usize,
    receiver_alive: bool,
)
    requires
        before.forwarded(after, out, ep, layer, receiver_alive),
        before.track_type is SimulcastDownTrack,
        before.down_track_local.enabled,
        before.down_track_local.bound,
        layer < 0x100,
    ensures
        layer != before.current_spatial_layer ==> out is Nothing && after == before,
        layer == before.current_spatial_layer && !before.down_track_local.re_sync
            && before.down_track_local.write_stream ==> out is Packet,
        layer == before.current_spatial_layer && ep.key_frame
            && before.down_track_local.write_stream ==> out is Packet,
{
}

/// A simple track sends the packets of every layer, once it is in sync. An audio track need not wait
/// for a key frame.
pub proof fn law_simple_track_sends_every_packet(
    before: DownTrack,
    after: DownTrack,
    out: Forwarded,
    ep: ExtPacket,
    layer: usize,
    receiver_alive: bool,
)
    requires
        before.forwarded(after, out, ep, layer, receiver_alive),
        before.track_type is SimpleDownTrack,
        before.down_track_local.enabled,
        before.down_track_local.bound,
        before.down_track_local.write_stream,
        !before.down_track_local.re_sync || ep.key_frame || !(codec_type_of(
            before.down_track_local.media_codec.mime_type@,
        ) is Video),
    ensures
        out is Packet,
        !after.down_track_local.re_sync,
        after.packet_sent_count == (before.packet_sent_count + 1) % 0x1_0000_0000,
{
}

/// A video track that is out of sync waits for a key frame: it sends no other packet, asks the source
/// of the packet for a key frame where there is still someone to ask, and stays as it was. With the
/// key frame it is in sync.
pub proof fn law_video_waits_for_a_key_frame(
    before: DownTrack,
    after: DownTrack,
    out: Forwarded,
    ep: ExtPacket,
    layer: usize,
    receiver_alive: bool,
)
    requires
        before.forwarded(after, out, ep, layer, receiver_alive),
        before.down_track_local.enabled,
        before.down_track_local.bound,
        before.down_track_local.re_sync,
        codec_type_of(before.down_track_local.media_codec.mime_type@) is Video,
        before.track_type is SimulcastDownTrack ==> layer == before.current_spatial_layer,
    ensures
        !ep.key_frame && receiver_alive && before.track_type is SimpleDownTrack ==> out == (
        Forwarded::AskKeyFrameOnce {
            sender_ssrc: before.down_track_local.ssrc,
            media_ssrc: ep.packet.header.ssrc,
        }) && after == before,
        !ep.key_frame && receiver_alive && before.track_type is SimulcastDownTrack ==> out == (
        Forwarded::AskKeyFrame {
            sender_ssrc: before.down_track_local.ssrc,
            media_ssrc: ep.packet.header.ssrc,
        }) && after == before,
        !ep.key_frame && !receiver_alive && before.track_type is SimpleDownTrack ==> out is Nothing
            && after == before,
        ep.key_frame ==> !after.down_track_local.re_sync,
        ep.key_frame && before.down_track_local.write_stream ==> out is Packet,
        ep.key_frame && !before.down_track_local.write_stream ==> out is Nothing,
{
}

/// What is sent bears the SSRC and the payload type that the track was bound with. The last packet
/// that is remembered is the latest one that was sent, by the number and the timestamp that it was
/// sent with.
pub proof fn law_sent_packet_is_remembered(
    before: DownTrack,
    after: DownTrack,
    header: SentHeader,
    ep: ExtPacket,
    layer: usize,
    receiver_alive: bool,
)
    requires
        before.forwarded(after, Forwarded::Packet(header), ep, layer, receiver_alive),
    ensures
        header.ssrc == before.down_track_local.ssrc,
        header.payload_type == before.down_track_local.payload_type,
        ep.head ==> after.last_sn == header.sequence_number && after.last_ts == header.timestamp,
        !ep.head && before.track_type is SimpleDownTrack ==> after.last_sn == before.last_sn
            && after.last_ts == before.last_ts,
        !ep.head && before.track_type is SimulcastDownTrack && before.simulcast.l_ts_calc != 0
            && !before.down_track_local.re_sync ==> after.last_sn == before.last_sn && after.last_ts == before.last_ts,
{
}

/// Forwarding a packet leaves alone what it has nothing to do with: the layers that were asked for,
/// the names of the track, what it was bound with, and whether it is muted.
pub proof fn law_forwarding_keeps_the_rest(
    before: DownTrack,
    after: DownTrack,
    out: Forwarded,
    ep: ExtPacket,
    layer: usize,
    receiver_alive: bool,
)
    requires
        before.forwarded(after, out, ep, layer, receiver_alive),
    ensures
        after.cname == before.cname,
        after.closed == before.closed,
        after.track_type == before.track_type,
        after.current_spatial_layer == before.current_spatial_layer,
        after.target_spatial_layer == before.target_spatial_layer,
        after.max_spatial_layer == before.max_spatial_layer,
        after.max_temporal_layer == before.max_temporal_layer,
        after.temporal_layer / 0x1_0000 == before.temporal_layer / 0x1_0000,
        after.transceiver == before.transceiver,
        after.rtx == before.rtx,
        after.last_stats == before.last_stats,
        after.down_track_local.id == before.down_track_local.id,
        after.down_track_local.rid == before.down_track_local.rid,
        after.down_track_local.stream_id == before.down_track_local.stream_id,
        after.down_track_local.ssrc == before.down_track_local.ssrc,
        after.down_track_local.payload_type == before.down_track_local.payload_type,
        after.down_track_local.mime == before.down_track_local.mime,
        after.down_track_local.media_codec == before.down_track_local.media_codec,
        after.down_track_local.bound == before.down_track_local.bound,
        after.down_track_local.enabled == before.down_track_local.enabled,
        after.down_track_local.write_stream == before.down_track_local.write_stream,
        after.down_track_local.re_sync ==> before.down_track_local.re_sync,
{
}

/// Between two packets of one source a simulcast track keeps the distances: the numbers and the
/// timestamps that they are sent with are as far apart as those that they came with.
pub proof fn law_simulcast_track_keeps_the_distances(
    before: DownTrack,
    between: DownTrack,
    after: DownTrack,
    first: SentHeader,
    second: SentHeader,
    ep1: ExtPacket,
    ep2: ExtPacket,
    layer: usize,
    receiver_alive: bool,
)
    requires
        before.track_type is SimulcastDownTrack,
        before.forwarded(between, Forwarded::Packet(first), ep1, layer, receiver_alive),
        between.forwarded(after, Forwarded::Packet(second), ep2, layer, receiver_alive),
        ep2.packet.header.ssrc == between.down_track_local.last_ssrc,
    ensures
        (second.sequence_number - first.sequence_number) % 0x1_0000 == (
        ep2.packet.header.sequence_number - ep1.packet.header.sequence_number) % 0x1_0000,
        (second.timestamp - first.timestamp) % 0x1_0000_0000 == (ep2.packet.header.timestamp
            - ep1.packet.header.timestamp) % 0x1_0000_0000,
{
    lemma_simulcast_sent(before, between, first, ep1, layer, receiver_alive);
    lemma_simulcast_sent(between, after, second, ep2, layer, receiver_alive);
    let (one, two) = (ep1.packet.header, ep2.packet.header);
    lemma_same_offset(
        one.sequence_number as int,
        two.sequence_number as int,
        after.sn_offset as int,
        0x1_0000,
    );
    lemma_same_offset(
        one.timestamp as int,
        two.timestamp as int,
        after.ts_offset as int,
        0x1_0000_0000,
    );
}

/// An offset that is taken from two numbers leaves their distance as it is.
proof fn lemma_same_offset(one: int, two: int, offset: int, circle: int)
    requires
        0 < circle,
    ensures
        ((two - offset) % circle - (one - offset) % circle) % circle == (two - one) % circle,
{
    vstd::arithmetic::div_mod::lemma_sub_mod_noop(two - offset, one - offset, circle);
    assert(two - offset - (one - offset) == two - one);
}

/// What a simulcast track sends, by the offsets that it has afterwards.
proof fn lemma_simulcast_sent(
    before: DownTrack,
    after: DownTrack,
    header: SentHeader,
    ep: ExtPacket,
    layer: usize,
    receiver_alive: bool,
)
    requires
        before.track_type is SimulcastDownTrack,
        before.forwarded(after, Forwarded::Packet(header), ep, layer, receiver_alive),
    ensures
        header.sequence_number == (ep.packet.header.sequence_number - after.sn_offset) % 0x1_0000,
        header.timestamp == (ep.packet.header.timestamp - after.ts_offset) % 0x1_0000_0000,
        !after.down_track_local.re_sync,
        after.simulcast.l_ts_calc == arrival_millis(ep.arrival),
        ep.packet.header.ssrc == before.down_track_local.last_ssrc ==> after.sn_offset
            == before.sn_offset && after.ts_offset == before.ts_offset,
        ep.packet.header.ssrc != before.down_track_local.last_ssrc && before.simulcast.l_ts_calc
            != 0 && !before.down_track_local.re_sync ==> {
            &&& header.sequence_number == (before.last_sn + 1) % 0x1_0000
            &&& header.timestamp == (before.last_ts + gap_cycles(
                before.simulcast.l_ts_calc,
                arrival_millis(ep.arrival),
            )) % 0x1_0000_0000
            &&& after.down_track_local.last_ssrc == ep.packet.header.ssrc
        },
{
}

/// What a simple track sends, by the offsets that it has afterwards.
proof fn lemma_simple_sent(
    before: DownTrack,
    after: DownTrack,
    header: SentHeader,
    ep: ExtPacket,
    layer: usize,
    receiver_alive: bool,
)
    requires
        before.track_type is SimpleDownTrack,
        before.forwarded(after, Forwarded::Packet(header), ep, layer, receiver_alive),
    ensures
        header.sequence_number == (ep.packet.header.sequence_number - after.sn_offset) % 0x1_0000,
        header.timestamp == less(ep.packet.header.timestamp as int, after.ts_offset as int),
        !after.down_track_local.re_sync,
        !before.down_track_local.re_sync ==> after.sn_offset == before.sn_offset && after.ts_offset
            == before.ts_offset,
{
}

/// Between two packets a simple track in sync keeps the distance of their numbers, and that of their
/// timestamps where the first one is not cut off.
pub proof fn law_simple_track_keeps_the_distances(
    before: DownTrack,
    between: DownTrack,
    after: DownTrack,
    first: SentHeader,
    second: SentHeader,
    ep1: ExtPacket,
    ep2: ExtPacket,
    layer: usize,
    receiver_alive: bool,
)
    requires
        before.track_type is SimpleDownTrack,
        before.forwarded(between, Forwarded::Packet(first), ep1, layer, receiver_alive),
        between.forwarded(after, Forwarded::Packet(second), ep2, layer, receiver_alive),
        ep1.packet.header.timestamp <= ep2.packet.header.timestamp,
        first.timestamp > 0,
    ensures
        (second.sequence_number - first.sequence_number) % 0x1_0000 == (
        ep2.packet.header.sequence_number - ep1.packet.header.sequence_number) % 0x1_0000,
        second.timestamp - first.timestamp == ep2.packet.header.timestamp
            - ep1.packet.header.timestamp,
{
    lemma_simple_sent(before, between, first, ep1, layer, receiver_alive);
    lemma_simple_sent(between, after, second, ep2, layer, receiver_alive);
    lemma_same_offset(
        ep1.packet.header.sequence_number as int,
        ep2.packet.header.sequence_number as int,
        after.sn_offset as int,
        0x1_0000,
    );
}

/// A subscriber does not notice that the source of a simulcast track changes: the first packet of the
/// new source is sent with the number behind that of the latest packet of the old one. Its timestamp
/// is ahead of that of the latest packet by at least one cycle, and by 90 cycles for every second
/// between the arrivals.
pub proof fn law_change_of_source_is_seamless(
    before: DownTrack,
    between: DownTrack,
    after: DownTrack,
    first: SentHeader,
    second: SentHeader,
    ep1: ExtPacket,
    ep2: ExtPacket,
    layer1: usize,
    layer2: usize,
    receiver_alive: bool,
)
    requires
        before.track_type is SimulcastDownTrack,
        before.forwarded(between, Forwarded::Packet(first), ep1, layer1, receiver_alive),
        ep1.head,
        // Another layer may have become the current one
        (DownTrack { current_spatial_layer: (layer2 % 0x100) as u8, ..between }).forwarded(
            after,
            Forwarded::Packet(second),
            ep2,
            layer2,
            receiver_alive,
        ),
        ep2.packet.header.ssrc != between.down_track_local.last_ssrc,
        ep1.arrival / 1_000_000 % 0x1_0000_0000 != 0,
    ensures
        second.sequence_number == (first.sequence_number + 1) % 0x1_0000,
        after.down_track_local.last_ssrc == ep2.packet.header.ssrc,
        ({
            let ahead = (second.timestamp - first.timestamp) % 0x1_0000_0000;
            let elapsed = ep2.arrival as int / 1_000_000 - ep1.arrival as int / 1_000_000;
            &&& ahead >= 1
            &&& 0 <= elapsed < 40_000_000 && ep2.arrival / 1_000_000 < 0x1_0000_0000 ==> (ahead == 1
                && elapsed * 90 < 2000 || ahead * 1000 <= elapsed * 90 < (ahead + 1) * 1000)
        }),
{
    let switched = DownTrack { current_spatial_layer: (layer2 % 0x100) as u8, ..between };
    law_sent_packet_is_remembered(before, between, first, ep1, layer1, receiver_alive);
    lemma_simulcast_sent(before, between, first, ep1, layer1, receiver_alive);
    lemma_simulcast_sent(switched, after, second, ep2, layer2, receiver_alive);
    lemma_gap_ahead(first.timestamp, second.timestamp, ep1.arrival, ep2.arrival);
}

/// How far ahead a timestamp is that was put behind another one by the gap between two arrivals.
proof fn lemma_gap_ahead(first: u32, second: u32, arrival1: u64, arrival2: u64)
    requires
        second == (first + gap_cycles(arrival_millis(arrival1), arrival_millis(arrival2)))
            % 0x1_0000_0000,
    ensures
        ({
            let ahead = (second - first) % 0x1_0000_0000;
            let elapsed = arrival2 as int / 1_000_000 - arrival1 as int / 1_000_000;
            &&& ahead >= 1
            &&& 0 <= elapsed < 40_000_000 && arrival2 / 1_000_000 < 0x1_0000_0000 ==> (ahead == 1
                && elapsed * 90 < 2000 || ahead * 1000 <= elapsed * 90 < (ahead + 1) * 1000)
        }),
{
}

/// The first packet of all is sent as it came.
pub proof fn law_first_packet_is_sent_as_it_is(
    before: DownTrack,
    after: DownTrack,
    header: SentHeader,
    ep: ExtPacket,
    layer: usize,
    receiver_alive: bool,
)
    requires
        before.forwarded(after, Forwarded::Packet(header), ep, layer, receiver_alive),
        before.sn_offset == 0,
        before.ts_offset == 0,
        before.last_sn == 0,
        before.simulcast.l_ts_calc == 0,
    ensures
        header.sequence_number == ep.packet.header.sequence_number,
        header.timestamp == ep.packet.header.timestamp,
{
}

/// A packet that a simple track sends as the latest one can be asked for again, under the number that
/// it was sent with.
pub proof fn law_sent_packet_can_be_asked_for(
    before: DownTrack,
    after: DownTrack,
    header: SentHeader,
    ep: ExtPacket,
    layer: usize,
    receiver_alive: bool,
    now: u128,
)
    requires
        before.wf(),
        before.track_type is SimpleDownTrack,
        before.forwarded(after, Forwarded::Packet(header), ep, layer, receiver_alive),
        ep.head,
    ensures
        after.down_track_local.sequencer.sequencer.request(header.sequence_number, now) matches Some(
            meta,
        ) && meta.source_seq_no == ep.packet.header.sequence_number && meta.target_seq_no
            == header.sequence_number && meta.timestamp == header.timestamp,
{
}

/// A simulcast track counts every packet and every byte that it sends, a simple one the last packet.
pub proof fn law_packets_are_counted(
    before: DownTrack,
    after: DownTrack,
    header: SentHeader,
    ep: ExtPacket,
    layer: usize,
    receiver_alive: bool,
)
    requires
        before.forwarded(after, Forwarded::Packet(header), ep, layer, receiver_alive),
        ep.packet.payload@.len() < 0x1_0000_0000,
    ensures
        before.track_type is SimulcastDownTrack ==> after.packet_count == (before.packet_count + 1)
            % 0x1_0000_0000 && after.octet_count == (before.octet_count
            + ep.packet.payload@.len()) % 0x1_0000_0000,
        before.track_type is SimpleDownTrack ==> after.packet_count == 1 && after.octet_count
            == ep.packet.payload@.len(),
{
}

/// Whether a layered track has temporal layers is what its first packet says, where it is VP8; a track
/// of another type, and every later packet, leaves that as it was.
pub proof fn law_first_packet_tells_of_temporal_layers(
    before: DownTrack,
    after: DownTrack,
    sent: SentHeader,
    ep: ExtPacket,
    layer: usize,
    receiver_alive: bool,
)
    requires
        before.track_type is SimulcastDownTrack,
        before.forwarded(after, Forwarded::Packet(sent), ep, layer, receiver_alive),
        !before.down_track_local.re_sync,
    ensures
        before.simulcast.l_ts_calc == 0 && before.down_track_local.mime@ == "video/vp8"@
            ==> after.simulcast.temporal_supported == ep.payload.temporal_supported,
        before.simulcast.l_ts_calc != 0 || before.down_track_local.mime@ != "video/vp8"@
            ==> after.simulcast.temporal_supported == before.simulcast.temporal_supported,
{
}

} // verus!
