use vstd::prelude::*;

use crate::packet::buffer::ExtPacket;
use crate::packet::params::{
    codec_type_of, kind_of, RTCRtpCodecCapability, RTCRtpCodecParameters, RTPCodecType,
};
use crate::text::{lowercase, same, starts_with, to_lowercase};
use crate::track::error::{Error, Result};
use crate::track::sequencer::AtomicSequencer;
use crate::track::simulcast::SimulcastTrackHelpers;

verus! {

/// Seconds between two looks at how many packets were sent.
pub const SECONDS_PER_STAT: u32 = 20;

/// How many packets are remembered to be sent again with their own SSRC.
pub const RTX_MAX_SN: u16 = 1000;

#[derive(Debug, Eq, PartialEq, Clone, Copy, Structural)]
pub enum DownTrackType {
    /// Simple down track. It should be assigned to layer 0.
    SimpleDownTrack,
    /// Simulcast down track. It should be assigned in a layer between 0 and 2.
    SimulcastDownTrack,
}

impl Default for DownTrackType {
    fn default() -> (track_type: Self)
        ensures
            track_type is SimpleDownTrack,
    {
        DownTrackType::SimpleDownTrack
    }
}

impl DownTrackType {
    /// The name of the type.
    pub fn name(&self) -> (name: String)
        ensures
            name@ == match *self {
                DownTrackType::SimpleDownTrack => "Simple"@,
                DownTrackType::SimulcastDownTrack => "Simulcast"@,
            },
    {
        match self {
            DownTrackType::SimpleDownTrack => "Simple".to_owned(),
            DownTrackType::SimulcastDownTrack => "Simulcast".to_owned(),
        }
    }
}

/// A summary of a down track.
pub struct DownTrackInfo {
    pub layer: u8,
    pub last_ssrc: u32,
    pub track_type: DownTrackType,
    pub payload: Vec<u8>,
}

impl Default for DownTrackInfo {
    fn default() -> (info: Self)
        ensures
            info.layer == 0,
            info.last_ssrc == 0,
            info.track_type is SimpleDownTrack,
            info.payload@.len() == 0,
    {
        DownTrackInfo {
            layer: 0,
            last_ssrc: 0,
            track_type: DownTrackType::SimpleDownTrack,
            payload: Vec::new(),
        }
    }
}

/// The end of a down track that is bound to a peer connection.
pub struct DownTrackInternal {
    pub id: String,
    pub rid: String,
    pub bound: bool,
    pub mime: String,
    pub ssrc: u32,
    pub stream_id: String,
    pub max_sn: u16,
    pub payload_type: u8,
    pub sequencer: AtomicSequencer,
    /// Whether the track is enabled (unmuted).
    pub enabled: bool,
    /// Whether the track is re-synced.
    pub re_sync: bool,
    pub last_ssrc: u32,
    /// Codec capability of the track.
    pub media_codec: RTCRtpCodecCapability,
    /// Whether there is a stream to write to.
    pub write_stream: bool,
}

/// Whether the two codecs are of the same type, whatever the case of the letters.
pub open spec fn same_mime(a: RTCRtpCodecCapability, b: RTCRtpCodecCapability) -> bool {
    lowercase(a.mime_type@) == lowercase(b.mime_type@)
}

/// Whether the two codecs are of the same type and have the same parameters.
pub open spec fn same_codec(a: RTCRtpCodecCapability, b: RTCRtpCodecCapability) -> bool {
    same_mime(a, b) && a.sdp_fmtp_line@ == b.sdp_fmtp_line@
}

/// The place of the first codec that fits, from `from` on: one that is the same, or where `exact`
/// is not asked for one of the same type.
pub open spec fn first_fit(
    needle: RTCRtpCodecCapability,
    haystack: Seq<RTCRtpCodecParameters>,
    exact: bool,
    from: int,
) -> Option<int>
    decreases haystack.len() - from,
{
    if from < 0 || from >= haystack.len() {
        None
    } else if if exact {
        same_codec(needle, haystack[from].capability)
    } else {
        same_mime(needle, haystack[from].capability)
    } {
        Some(from)
    } else {
        first_fit(needle, haystack, exact, from + 1)
    }
}

/// The place of the codec that a track is bound to.
pub open spec fn fuzzy_fit(
    needle: RTCRtpCodecCapability,
    haystack: Seq<RTCRtpCodecParameters>,
) -> Option<int> {
    match first_fit(needle, haystack, true, 0) {
        Some(at) => Some(at),
        None => first_fit(needle, haystack, false, 0),
    }
}

fn find_fit(
    needle: &RTCRtpCodecCapability,
    haystack: &Vec<RTCRtpCodecParameters>,
    exact: bool,
) -> (res: Option<usize>)
    ensures
        match first_fit(*needle, haystack@, exact, 0) {
            Some(at) => (res matches Some(found) && found == at) && 0 <= at < haystack@.len(),
            None => res is None,
        },
{
    let wanted = to_lowercase(needle.mime_type.as_str());
    let mut i: usize = 0;
    while i < haystack.len()
        invariant
            i <= haystack@.len(),
            wanted@ == lowercase(needle.mime_type@),
            first_fit(*needle, haystack@, exact, 0) == first_fit(
                *needle,
                haystack@,
                exact,
                i as int,
            ),
        decreases haystack@.len() - i,
    {
        let capability = &haystack[i].capability;
        let offered = to_lowercase(capability.mime_type.as_str());
        if same(wanted.as_str(), offered.as_str()) && (!exact || same(
            needle.sdp_fmtp_line.as_str(),
            capability.sdp_fmtp_line.as_str(),
        )) {
            return Some(i);
        }
        i = i + 1;
    }
    None
}

/// Finds the codec that a track is bound to: the same one, or else one of the same type.
pub fn codec_parameters_fuzzy_search(
    needle: &RTCRtpCodecCapability,
    haystack: &Vec<RTCRtpCodecParameters>,
) -> (res: Option<usize>)
    ensures
        match fuzzy_fit(*needle, haystack@) {
            Some(at) => (res matches Some(found) && found == at) && 0 <= at < haystack@.len(),
            None => res is None,
        },
{
    match find_fit(needle, haystack, true) {
        Some(at) => Some(at),
        None => find_fit(needle, haystack, false),
    }
}

impl DownTrackInternal {
    /// What every operation keeps.
    pub open spec fn wf(&self) -> bool {
        self.max_sn > 0 && self.sequencer.wf()
    }

    /// Whether this end, which remembers `max_track` packets, was never bound.
    pub open spec fn is_unbound(&self, max_track: u16) -> bool {
        &&& self.wf()
        &&& self.max_sn == max_track
        &&& self.sequencer.is_new(max_track as u32)
        &&& !self.bound
        &&& self.mime@.len() == 0
        &&& self.ssrc == 0
        &&& self.payload_type == 0
        &&& !self.enabled
        &&& !self.re_sync
        &&& self.last_ssrc == 0
        &&& !self.write_stream
    }

    /// Creates the end of a track with the given ids, which remembers `max_track` packets.
    pub fn new(
        c: RTCRtpCodecCapability,
        id: String,
        rid: String,
        stream_id: String,
        max_track: u16,
    ) -> (track: Self)
        requires
            max_track > 0,
        ensures
            track.is_unbound(max_track),
            track.media_codec == c,
            track.id == id,
            track.rid == rid,
            track.stream_id == stream_id,
    {
        Self {
            media_codec: c,
            id,
            rid,
            bound: false,
            mime: String::new(),
            ssrc: 0,
            stream_id,
            max_sn: max_track,
            payload_type: 0,
            sequencer: AtomicSequencer::new(max_track as u32),
            enabled: false,
            re_sync: false,
            last_ssrc: 0,
            write_stream: false,
        }
    }

    /// Whether this is the same track as `other`.
    pub open spec fn is_same(&self, other: DownTrackInternal) -> bool {
        self.stream_id@ == other.stream_id@ && self.id@ == other.id@
    }

    /// Whether this is the same track as `other`.
    pub fn same_track(&self, other: &DownTrackInternal) -> (res: bool)
        ensures
            res == self.is_same(*other),
    {
        same(self.stream_id.as_str(), other.stream_id.as_str()) && same(
            self.id.as_str(),
            other.id.as_str(),
        )
    }

    /// Whether `after` and `res` come of binding the track to a peer connection.
    pub open spec fn bound_with(
        &self,
        after: DownTrackInternal,
        ssrc: u32,
        codecs: Seq<RTCRtpCodecParameters>,
        res: Result<usize>,
    ) -> bool {
        match fuzzy_fit(self.media_codec, codecs) {
            None => {
                &&& res == Err::<usize, Error>(Error::ErrUnsupportedCodec)
                &&& after == *self
            },
            Some(at) => {
                &&& res matches Ok(found) && found == at
                &&& 0 <= at < codecs.len()
                &&& after.mime@ == lowercase(codecs[at].capability.mime_type@)
                &&& after == DownTrackInternal {
                    ssrc,
                    payload_type: codecs[at].payload_type,
                    re_sync: true,
                    enabled: true,
                    write_stream: true,
                    bound: true,
                    mime: after.mime,
                    sequencer: after.sequencer,
                    ..*self
                }
            },
        }
    }

    /// Binds the track to a peer connection that sends with the given SSRC and supports `codecs`.
    ///
    /// # Returns
    /// - The place of the codec that the track is sent with
    /// - `Error::ErrUnsupportedCodec` if none fits
    pub fn bind(&mut self, ssrc: u32, codecs: &Vec<RTCRtpCodecParameters>) -> (res: Result<usize>)
        requires
            old(self).wf(),
        ensures
            final(self).wf(),
            match fuzzy_fit(old(self).media_codec, codecs@) {
                None => {
                    &&& res == Err::<usize, Error>(Error::ErrUnsupportedCodec)
                    &&& *final(self) == *old(self)
                },
                Some(at) => {
                    &&& res matches Ok(found) && found == at
                    &&& 0 <= at < codecs@.len()
                    &&& final(self).mime@ == lowercase(codecs@[at].capability.mime_type@)
                    &&& *final(self) == (DownTrackInternal {
                        ssrc,
                        payload_type: codecs@[at].payload_type,
                        re_sync: true,
                        enabled: true,
                        write_stream: true,
                        bound: true,
                        mime: final(self).mime,
                        sequencer: final(self).sequencer,
                        ..*old(self)
                    })
                    &&& if "video/"@.is_prefix_of(old(self).media_codec.mime_type@) {
                        final(self).sequencer.is_new(old(self).max_sn as u32)
                    } else {
                        final(self).sequencer == old(self).sequencer
                    }
                },
            },
            old(self).bound_with(*final(self), ssrc, codecs@, res),
    {
        let at: usize = match codec_parameters_fuzzy_search(&self.media_codec, codecs) {
            None => {
                return Err(Error::ErrUnsupportedCodec);
            },
            Some(at) => at,
        };
        self.ssrc = ssrc;
        self.payload_type = codecs[at].payload_type;
        self.re_sync = true;
        self.enabled = true;
        self.write_stream = true;
        self.mime = to_lowercase(codecs[at].capability.mime_type.as_str());
        if starts_with(self.media_codec.mime_type.as_str(), "video/") {
            self.sequencer = AtomicSequencer::new(self.max_sn as u32);
        }
        self.bound = true;
        Ok(at)
    }

    pub fn unbind(&mut self)
        ensures
            *final(self) == (DownTrackInternal { bound: false, ..*old(self) }),
    {
        self.bound = false;
    }

    /// What the receiver of the track needs to forward feedback: the last SSRC that was received and
    /// the one that is sent. A muted track forwards none.
    pub fn feedback_ssrcs(&self) -> (res: Option<(u32, u32)>)
        ensures
            res == if self.enabled {
                Some((self.last_ssrc, self.ssrc))
            } else {
                None
            },
    {
        if self.enabled {
            Some((self.last_ssrc, self.ssrc))
        } else {
            None
        }
    }

    pub fn kind(&self) -> (kind: RTPCodecType)
        ensures
            kind == codec_type_of(self.media_codec.mime_type@),
    {
        kind_of(self.media_codec.mime_type.as_str())
    }
}

/// Packets that are sent again with their own SSRC.
pub struct RtxEncoding {
    pub ssrc: u32,
    pub sequencer: AtomicSequencer,
}

impl RtxEncoding {
    pub fn new(ssrc: u32, max_sn: u16) -> (rtx: Self)
        requires
            max_sn > 0,
        ensures
            rtx.ssrc == ssrc,
            rtx.sequencer.is_new(max_sn as u32),
    {
        Self { ssrc, sequencer: AtomicSequencer::new(max_sn as u32) }
    }
}

/// The source of a track, for those who receive it.
pub struct SourceDescriptionChunk {
    pub source: u32,
    pub cname: String,
}

/// The fields of a header that differ from the packet that was received.
#[derive(Debug, Eq, PartialEq, Clone, Copy, Structural)]
pub struct SentHeader {
    pub sequence_number: u16,
    pub timestamp: u32,
    pub ssrc: u32,
    pub payload_type: u8,
}

/// What becomes of a packet that is forwarded.
#[derive(Debug, Eq, PartialEq, Clone, Copy, Structural)]
pub enum Forwarded {
    /// Nothing is sent.
    Nothing,
    /// A key frame is asked for, unless that was done lately.
    AskKeyFrameOnce { sender_ssrc: u32, media_ssrc: u32 },
    /// A key frame is asked for.
    AskKeyFrame { sender_ssrc: u32, media_ssrc: u32 },
    /// The packet is sent with these fields in its header.
    Packet(SentHeader),
}

/// A track that is sent to a peer.
pub struct DownTrack {
    /// Canonical name defined by RFC 3550 6.5.1
    pub cname: String,
    /// Close flag
    pub closed: bool,
    pub track_type: DownTrackType,
    /// Packet payload stored in buffer.
    pub payload: Vec<u8>,
    pub current_spatial_layer: u8,
    pub target_spatial_layer: u8,
    /// Temporal layer of the track. Always 0 for simple tracks.
    ///
    /// Highest 2 bytes represent a target layer, and the lowest 2 bytes represent the current layer.
    pub temporal_layer: u32,
    /// Offset from last packet's SN
    pub sn_offset: u16,
    /// Offset from last packet's timestamp
    pub ts_offset: u32,
    pub last_sn: u16,
    pub last_ts: u32,
    /// Simulcast track helpers.
    pub simulcast: SimulcastTrackHelpers,
    /// Maximum spatial layer of the track.
    pub max_spatial_layer: u8,
    /// Maximum temporal layer of the track.
    pub max_temporal_layer: u32,
    /// The number of the RTCP transceiver of the track.
    pub transceiver: Option<u64>,
    pub octet_count: u32,
    pub packet_count: u32,
    pub packet_sent_count: u32,
    /// When the packets that were sent were last looked at, in milliseconds.
    pub last_stats: u64,
    pub down_track_local: DownTrackInternal,
    pub rtx: Option<RtxEncoding>,
}

/// `a - b`, or 0 where `b` is larger.
pub open spec fn less(a: int, b: int) -> int {
    if a > b {
        a - b
    } else {
        0
    }
}

/// The temporal layer after a packet of the layer `tid`: where the current layer is not the target
/// layer, it becomes that layer with the first packet that is not above it.
pub open spec fn followed_layer(layer: u32, tid: u8) -> u32 {
    let current = layer % 0x1_0000;
    let target = layer / 0x1_0000;
    if target != current && tid <= target {
        (target * 0x1_0000 + target) as u32
    } else {
        layer
    }
}

/// When a packet arrived, in milliseconds.
pub open spec fn arrival_millis(arrival: u64) -> u32 {
    (arrival as int / 1_000_000 % 0x1_0000_0000) as u32
}

impl DownTrack {
    /// What every operation keeps.
    pub open spec fn wf(&self) -> bool {
        self.down_track_local.wf()
    }

    /// Creates a new simple down track with the given codec.
    pub fn new(
        c: RTCRtpCodecCapability,
        id: String,
        rid: String,
        stream_id: String,
        cname: String,
        max_track: u16,
        now: u64,
    ) -> (track: Self)
        requires
            max_track > 0,
        ensures
            track.wf(),
            track.is_fresh(cname, now),
            track.down_track_local.media_codec == c,
            track.down_track_local.id == id,
            track.down_track_local.rid == rid,
            track.down_track_local.stream_id == stream_id,
            track.down_track_local.is_unbound(max_track),
    {
        Self::new_track_local(cname, DownTrackInternal::new(c, id, rid, stream_id, max_track), now)
    }

    /// Whether nothing was sent on this track yet.
    pub open spec fn is_fresh(&self, cname: String, now: u64) -> bool {
        &&& self.cname == cname
        &&& !self.closed
        &&& self.track_type is SimpleDownTrack
        &&& self.payload@.len() == 0
        &&& self.current_spatial_layer == 0
        &&& self.target_spatial_layer == 0
        &&& self.temporal_layer == 0
        &&& self.sn_offset == 0
        &&& self.ts_offset == 0
        &&& self.last_sn == 0
        &&& self.last_ts == 0
        &&& self.simulcast.is_blank()
        &&& self.max_spatial_layer == 0
        &&& self.max_temporal_layer == 0
        &&& self.transceiver is None
        &&& self.octet_count == 0
        &&& self.packet_count == 0
        &&& self.packet_sent_count == 0
        &&& self.last_stats == now
        &&& self.rtx is None
    }

    /// Creates a new simple `DownTrack` from a `DownTrackInternal` and the ID of the peer where this belongs to.
    pub fn new_track_local(cname: String, track: DownTrackInternal, now: u64) -> (down_track: Self)
        requires
            track.wf(),
        ensures
            down_track.wf(),
            down_track.is_fresh(cname, now),
            down_track.down_track_local == track,
    {
        Self {
            cname,
            closed: false,
            track_type: DownTrackType::SimpleDownTrack,
            payload: Vec::new(),
            current_spatial_layer: 0,
            target_spatial_layer: 0,
            temporal_layer: 0,
            sn_offset: 0,
            ts_offset: 0,
            last_sn: 0,
            last_ts: 0,
            simulcast: SimulcastTrackHelpers::new(),
            max_spatial_layer: 0,
            max_temporal_layer: 0,
            transceiver: None,
            octet_count: 0,
            packet_count: 0,
            packet_sent_count: 0,
            last_stats: now,
            down_track_local: track,
            rtx: None,
        }
    }

    /// Returns true if the track is bound to a receiver.
    pub fn bound(&self) -> (bound: bool)
        ensures
            bound == self.down_track_local.bound,
    {
        self.down_track_local.bound
    }

    /// Creates a source description chunk for the track.
    /// # Returns
    /// A vector of source description chunks, may be empty
    pub fn create_source_description_chunks(&self) -> (chunks: Vec<SourceDescriptionChunk>)
        ensures
            chunks@.len() == if self.down_track_local.bound {
                1nat
            } else {
                0
            },
            self.down_track_local.bound ==> chunks@[0].source == self.down_track_local.ssrc
                && chunks@[0].cname@ == self.cname@,
    {
        let mut chunks: Vec<SourceDescriptionChunk> = Vec::new();
        if self.bound() {
            chunks.push(SourceDescriptionChunk { source: self.ssrc(), cname: self.cname.clone() });
        }
        chunks
    }

    /// Current spatial layer of the track.
    pub fn current_spatial_layer(&self) -> (layer: u8)
        ensures
            layer == self.current_spatial_layer,
    {
        self.current_spatial_layer
    }

    /// ID of the track.
    pub fn id(&self) -> (id: String)
        ensures
            id@ == self.down_track_local.id@,
    {
        self.down_track_local.id.clone()
    }

    pub fn kind(&self) -> (kind: RTPCodecType)
        ensures
            kind == codec_type_of(self.down_track_local.media_codec.mime_type@),
    {
        self.down_track_local.kind()
    }

    /// Mime type of the track.
    pub fn mime(&self) -> (mime: String)
        ensures
            mime@ == self.down_track_local.mime@,
    {
        self.down_track_local.mime.clone()
    }

    /// Payload type of the track.
    pub fn payload_type(&self) -> (payload_type: u8)
        ensures
            payload_type == self.down_track_local.payload_type,
    {
        self.down_track_local.payload_type
    }

    /// SSRC of the track.
    pub fn ssrc(&self) -> (ssrc: u32)
        ensures
            ssrc == self.down_track_local.ssrc,
    {
        self.down_track_local.ssrc
    }

    pub fn stream_id(&self) -> (stream_id: String)
        ensures
            stream_id@ == self.down_track_local.stream_id@,
    {
        self.down_track_local.stream_id.clone()
    }

    /// # Arguments
    /// - `val`: If `true`, track is muted. Otherwise, track is enabled.
    pub fn mute(&mut self, val: bool)
        ensures
            *final(self) == (DownTrack {
                down_track_local: DownTrackInternal {
                    enabled: !val,
                    re_sync: old(self).down_track_local.re_sync || val
                        && old(self).down_track_local.enabled,
                    ..old(self).down_track_local
                },
                ..*old(self)
            }),
    {
        if self.down_track_local.enabled != val {
            return ;
        }
        self.down_track_local.enabled = !val;
        if val {
            self.down_track_local.re_sync = val;
        }
    }

    /// Asks whether a function may be registered that is called when the track is closed: only the
    /// first one may.
    pub fn on_close(&mut self) -> (registers: bool)
        ensures
            registers == !old(self).closed,
            *final(self) == (DownTrack { closed: true, ..*old(self) }),
    {
        let registers = !self.closed;
        self.closed = true;
        registers
    }

    /// Sets the initial layers of the track.
    pub fn set_initial_layers(&mut self, spatial_layer: u8, temporal_layer: u32)
        ensures
            *final(self) == (DownTrack {
                current_spatial_layer: spatial_layer,
                target_spatial_layer: spatial_layer,
                temporal_layer,
                ..*old(self)
            }),
    {
        self.current_spatial_layer = spatial_layer;
        self.target_spatial_layer = spatial_layer;
        self.temporal_layer = temporal_layer;
    }

    /// Sets the last SSRC of the track.
    pub fn set_last_ssrc(&mut self, val: u32)
        ensures
            *final(self) == (DownTrack {
                down_track_local: DownTrackInternal {
                    last_ssrc: val,
                    ..old(self).down_track_local
                },
                ..*old(self)
            }),
    {
        self.down_track_local.last_ssrc = val;
    }

    /// Sets the maximum spatial layer of the track.
    pub fn set_max_spatial_layer(&mut self, val: u8)
        ensures
            *final(self) == (DownTrack { max_spatial_layer: val, ..*old(self) }),
    {
        self.max_spatial_layer = val;
    }

    /// Sets the maximum temporal layer of the track.
    pub fn set_max_temporal_layer(&mut self, val: u32)
        ensures
            *final(self) == (DownTrack { max_temporal_layer: val, ..*old(self) }),
    {
        self.max_temporal_layer = val;
    }

    /// Sets the [DownTrackType] of the track.
    pub fn set_track_type(&mut self, track_type: DownTrackType)
        ensures
            *final(self) == (DownTrack { track_type, ..*old(self) }),
    {
        self.track_type = track_type;
    }

    /// Sets the transceiver of the track, whose encodings have the given SSRCs to send packets again
    /// with, or 0.
    pub fn set_transceiver(&mut self, transceiver: u64, rtx_ssrcs: &Vec<u32>)
        ensures
            *final(self) == (DownTrack {
                transceiver: Some(transceiver),
                rtx: final(self).rtx,
                ..*old(self)
            }),
            match first_ssrc(rtx_ssrcs@) {
                None => final(self).rtx is None,
                Some(ssrc) => final(self).rtx matches Some(rtx) && rtx.ssrc == ssrc
                    && rtx.sequencer.is_new(RTX_MAX_SN as u32),
            },
    {
        let rtx = match find_ssrc(rtx_ssrcs) {
            None => None,
            Some(ssrc) => Some(RtxEncoding::new(ssrc, RTX_MAX_SN)),
        };
        self.transceiver = Some(transceiver);
        self.rtx = rtx;
    }

    /// Sets the spatial layer of the track.
    /// # Arguments
    /// - `target_layer`: Target spatial layer.
    /// - `set_as_max`: If true, sets the target layer as the maximum spatial layer.
    /// # Errors
    /// - `Error::ReceiverLayerNotAvailable(target)` if the target layer is higher than max.
    /// - `Error::ErrInvalidTrack` if the track is simple
    pub fn set_target_spatial_layer(&mut self, target_layer: u8, set_as_max: bool) -> (res: Result<
        (),
    >)
        ensures
            res == old(self).target_result(target_layer, set_as_max),
            *final(self) == old(self).targeted(target_layer, set_as_max),
    {
        match self.track_type {
            DownTrackType::SimulcastDownTrack => {
                // Case 1: current is the target
                if self.current_spatial_layer == target_layer {
                    if set_as_max && self.max_spatial_layer < target_layer {
                        self.max_spatial_layer = target_layer;
                    }
                    return Ok(());
                }
                // Validation
                if self.max_spatial_layer < target_layer {
                    if set_as_max {
                        self.set_max_spatial_layer(target_layer);
                    } else {
                        // Target should not be higher than max
                        return Err(Error::ReceiverLayerNotAvailable(target_layer as usize));
                    }
                }
                // Update
                self.target_spatial_layer = target_layer;
                return Ok(());
            },
            _ => {},
        }
        Err(Error::ErrInvalidTrack)
    }

    /// What comes of setting the spatial layer.
    pub open spec fn target_result(&self, target_layer: u8, set_as_max: bool) -> Result<()> {
        if self.track_type is SimpleDownTrack {
            Err(Error::ErrInvalidTrack)
        } else if self.current_spatial_layer != target_layer && self.max_spatial_layer
            < target_layer && !set_as_max {
            Err(Error::ReceiverLayerNotAvailable(target_layer as usize))
        } else {
            Ok(())
        }
    }

    /// The track with its spatial layer set, where it can be.
    pub open spec fn targeted(self, target_layer: u8, set_as_max: bool) -> DownTrack {
        if self.target_result(target_layer, set_as_max) is Err {
            self
        } else {
            DownTrack {
                max_spatial_layer: if set_as_max && self.max_spatial_layer < target_layer {
                    target_layer
                } else {
                    self.max_spatial_layer
                },
                target_spatial_layer: if self.current_spatial_layer == target_layer {
                    self.target_spatial_layer
                } else {
                    target_layer
                },
                ..self
            }
        }
    }

    /// Switches the spatial layer of the track.
    /// No checks in the target layer are performed.
    /// # Arguments
    /// - `layer`: Target spatial layer.
    pub fn switch_spatial_layer_forced(&mut self, layer: u8)
        ensures
            *final(self) == (DownTrack { current_spatial_layer: layer, ..*old(self) }),
    {
        self.current_spatial_layer = layer;
    }

    /// Switches the temporal layer of the track.
    /// Not working for simple tracks.
    /// # Arguments
    /// - `target_layer`: Target temporal layer.
    /// - `set_as_max`: If true, sets the target layer as the maximum temporal layer.
    pub fn switch_temporal_layer(&mut self, target_layer: u32, set_as_max: bool)
        ensures
            *final(self) == if old(self).track_type is SimulcastDownTrack && old(self).temporal_layer
                != target_layer {
                DownTrack {
                    temporal_layer: target_layer,
                    max_temporal_layer: if set_as_max {
                        target_layer
                    } else {
                        old(self).max_temporal_layer
                    },
                    ..*old(self)
                }
            } else {
                *old(self)
            },
    {
        match self.track_type {
            DownTrackType::SimulcastDownTrack => {
                if self.temporal_layer == target_layer {
                    return ;
                }
                self.temporal_layer = target_layer;
                if set_as_max {
                    self.max_temporal_layer = target_layer;
                }
            },
            _ => {},
        }
    }

    /// Requests the track to update its stats.
    /// # Arguments
    /// - `packet_len`: Length of the packet.
    pub fn update_stats(&mut self, packet_len: u32)
        ensures
            *final(self) == (DownTrack { octet_count: packet_len, packet_count: 1, ..*old(self) }),
    {
        self.octet_count = packet_len;
        self.packet_count = 1;
    }

    /// Whether this is the same track as `other`, for the same peer.
    pub open spec fn is_same(&self, other: DownTrack) -> bool {
        self.cname@ == other.cname@ && self.down_track_local.is_same(other.down_track_local)
    }

    /// Whether this is the same track as `other`, for the same peer.
    pub fn same_track(&self, other: &DownTrack) -> (res: bool)
        ensures
            res == self.is_same(*other),
    {
        same(self.cname.as_str(), other.cname.as_str()) && self.down_track_local.same_track(
            &other.down_track_local,
        )
    }
}

fn find_ssrc(ssrcs: &Vec<u32>) -> (res: Option<u32>)
    ensures
        res == first_ssrc(ssrcs@),
{
    let mut i: usize = 0;
    assert(ssrcs@.skip(0) =~= ssrcs@);
    while i < ssrcs.len()
        invariant
            i <= ssrcs@.len(),
            first_ssrc(ssrcs@) == first_ssrc(ssrcs@.skip(i as int)),
        decreases ssrcs@.len() - i,
    {
        if ssrcs[i] > 0 {
            return Some(ssrcs[i]);
        }
        assert(ssrcs@.skip(i as int).skip(1) =~= ssrcs@.skip(i + 1));
        i = i + 1;
    }
    None
}

/// The first SSRC that is not 0.
pub open spec fn first_ssrc(ssrcs: Seq<u32>) -> Option<u32>
    decreases ssrcs.len(),
{
    if ssrcs.len() == 0 {
        None
    } else if ssrcs[0] > 0 {
        Some(ssrcs[0])
    } else {
        first_ssrc(ssrcs.skip(1))
    }
}

/// A track is told to switch to another layer where it is a simulcast track, and the layer is at most
/// the highest one that is allowed, or becomes the highest one. It stays on its layer until then.
pub proof fn law_track_switches_where_it_may(track: DownTrack, target: u8, set_as_max: bool)
    ensures
        ({
            let after = track.targeted(target, set_as_max);
            let res = track.target_result(target, set_as_max);
            &&& track.track_type is SimpleDownTrack ==> after == track && res == Err::<(), Error>(
                Error::ErrInvalidTrack,
            )
            &&& track.track_type is SimulcastDownTrack && track.current_spatial_layer != target && (
            set_as_max || target <= track.max_spatial_layer) ==> after.target_spatial_layer == target
                && res is Ok
            &&& track.track_type is SimulcastDownTrack && track.current_spatial_layer != target
                && !set_as_max && target > track.max_spatial_layer ==> after == track && res
                == Err::<(), Error>(Error::ReceiverLayerNotAvailable(target as usize))
            &&& track.track_type is SimulcastDownTrack && track.current_spatial_layer == target
                ==> after.target_spatial_layer == track.target_spatial_layer && res is Ok
            &&& after.current_spatial_layer == track.current_spatial_layer
            &&& after.max_spatial_layer >= track.max_spatial_layer
            &&& !set_as_max ==> after.max_spatial_layer == track.max_spatial_layer
            &&& set_as_max && track.track_type is SimulcastDownTrack ==> after.max_spatial_layer
                >= target
            &&& after.down_track_local == track.down_track_local
        }),
{
}

/// The temporal layer becomes the one that was asked for with the first packet that does not go above
/// it, and stays until then.
pub proof fn law_temporal_layer_follows_the_packets(layer: u32, tid: u8)
    ensures
        ({
            let target = layer / 0x1_0000;
            let after = followed_layer(layer, tid);
            &&& after / 0x1_0000 == target
            &&& tid <= target ==> after % 0x1_0000 == target
            &&& tid > target ==> after == layer
        }),
{
}

/// The codec that a track is bound to has the type of the track. Where one has the same parameters too,
/// it is one of those, and the first one. There is none just where no codec has the type.
pub proof fn law_codec_of_the_same_type_is_found(
    needle: RTCRtpCodecCapability,
    haystack: Seq<RTCRtpCodecParameters>,
)
    ensures
        match fuzzy_fit(needle, haystack) {
            Some(at) => {
                &&& 0 <= at < haystack.len()
                &&& lowercase(haystack[at].capability.mime_type@) == lowercase(needle.mime_type@)
                &&& (exists|i: int|
                    0 <= i < haystack.len() && lowercase(
                        (#[trigger] haystack[i]).capability.mime_type@,
                    ) == lowercase(needle.mime_type@) && haystack[i].capability.sdp_fmtp_line@
                        == needle.sdp_fmtp_line@) ==> haystack[at].capability.sdp_fmtp_line@
                    == needle.sdp_fmtp_line@
                &&& forall|i: int|
                    0 <= i < at && lowercase((#[trigger] haystack[i]).capability.mime_type@)
                        == lowercase(needle.mime_type@) ==> haystack[i].capability.sdp_fmtp_line@
                        != needle.sdp_fmtp_line@
            },
            None => forall|i: int|
                0 <= i < haystack.len() ==> lowercase(
                    (#[trigger] haystack[i]).capability.mime_type@,
                ) != lowercase(needle.mime_type@),
        },
{
    lemma_first_fit(needle, haystack, true, 0);
    lemma_first_fit(needle, haystack, false, 0);
}

proof fn lemma_first_fit(
    needle: RTCRtpCodecCapability,
    haystack: Seq<RTCRtpCodecParameters>,
    exact: bool,
    from: int,
)
    requires
        0 <= from,
    ensures
        match first_fit(needle, haystack, exact, from) {
            Some(at) => {
                &&& from <= at < haystack.len()
                &&& same_mime(needle, haystack[at].capability)
                &&& exact ==> same_codec(needle, haystack[at].capability)
                &&& forall|i: int|
                    from <= i < at ==> !same_codec(needle, (#[trigger] haystack[i]).capability) && (
                    !exact ==> !same_mime(needle, haystack[i].capability))
            },
            None => forall|i: int|
                from <= i < haystack.len() ==> !same_codec(
                    needle,
                    (#[trigger] haystack[i]).capability,
                ) && (!exact ==> !same_mime(needle, haystack[i].capability)),
        },
    decreases haystack.len() - from,
{
    if from < haystack.len() {
        lemma_first_fit(needle, haystack, exact, from + 1);
    }
}

/// The SSRC to send packets again with is the first one that is given. Zeros stand for none.
pub proof fn law_first_given_ssrc_is_taken(ssrcs: Seq<u32>, at: int)
    requires
        0 <= at <= ssrcs.len(),
        forall|i: int| 0 <= i < at ==> ssrcs[i] == 0,
        at < ssrcs.len() ==> ssrcs[at] > 0,
    ensures
        first_ssrc(ssrcs) == if at < ssrcs.len() {
            Some(ssrcs[at])
        } else {
            None
        },
    decreases at,
{
    if at > 0 {
        assert(ssrcs[0] == 0);
        law_first_given_ssrc_is_taken(ssrcs.skip(1), at - 1);
    }
}

/// A track that was bound sends from the first key frame on, with the SSRC that it was bound with and
/// the payload type of the codec that was agreed on.
pub proof fn law_bound_track_sends_from_the_first_key_frame(
    track: DownTrack,
    local: DownTrackInternal,
    ssrc: u32,
    codecs: Seq<RTCRtpCodecParameters>,
    found: usize,
    next: DownTrack,
    out: Forwarded,
    ep: ExtPacket,
    alive: bool,
)
    requires
        track.down_track_local.bound_with(local, ssrc, codecs, Ok(found)),
        (DownTrack { down_track_local: local, ..track }).forwarded(
            next,
            out,
            ep,
            track.current_spatial_layer as usize,
            alive,
        ),
    ensures
        found < codecs.len(),
        local.bound && local.enabled,
        local.id == track.down_track_local.id,
        local.stream_id == track.down_track_local.stream_id,
        local.mime@ == lowercase(codecs[found as int].capability.mime_type@),
        ep.key_frame ==> (out matches Forwarded::Packet(header) && header.ssrc == ssrc
            && header.payload_type == codecs[found as int].payload_type),
        !ep.key_frame && alive && codec_type_of(local.media_codec.mime_type@) is Video ==> !(
        out is Packet) && !(out is Nothing),
{
    law_codec_of_the_same_type_is_found(track.down_track_local.media_codec, codecs);
}

/// A track is bound just where a codec of its type is offered, and stays as it was otherwise.
pub proof fn law_track_is_bound_where_a_codec_fits(
    before: DownTrackInternal,
    after: DownTrackInternal,
    ssrc: u32,
    codecs: Seq<RTCRtpCodecParameters>,
    res: Result<usize>,
)
    requires
        before.bound_with(after, ssrc, codecs, res),
    ensures
        res is Ok <==> exists|i: int|
            0 <= i < codecs.len() && lowercase((#[trigger] codecs[i]).capability.mime_type@)
                == lowercase(before.media_codec.mime_type@),
        res is Err ==> after == before && res == Err::<usize, Error>(Error::ErrUnsupportedCodec),
        res matches Ok(found) ==> lowercase(codecs[found as int].capability.mime_type@) == lowercase(
            before.media_codec.mime_type@,
        ) && after.ssrc == ssrc && after.re_sync && after.write_stream,
{
    law_codec_of_the_same_type_is_found(before.media_codec, codecs);
}

/// A track is told from others by its peer, its stream and its id together, whatever else is known of
/// it.
pub proof fn law_track_is_known_by_peer_stream_and_id(a: DownTrack, b: DownTrack)
    ensures
        a.is_same(b) ==> a.cname@ == b.cname@,
        a.is_same(b) ==> a.down_track_local.stream_id@ == b.down_track_local.stream_id@,
        a.is_same(b) ==> a.down_track_local.id@ == b.down_track_local.id@,
        a.is_same(a),
        a.is_same(b) <==> b.is_same(a),
        a.cname == b.cname && a.down_track_local.stream_id == b.down_track_local.stream_id
            && a.down_track_local.id == b.down_track_local.id ==> a.is_same(b),
{
}

/// A new end of a track is silent: it is not bound, has no SSRC and no payload type, and remembers no
/// packet that could be sent again.
pub proof fn law_new_end_is_silent(local: DownTrackInternal, max_track: u16, sn: u16)
    requires
        local.is_unbound(max_track),
    ensures
        !local.bound,
        !local.enabled,
        !local.write_stream,
        local.ssrc == 0,
        local.payload_type == 0,
        local.last_ssrc == 0,
        local.mime@.len() == 0,
        local.sequencer.sequencer.packet(sn) is None,
{
}

/// What is left of a number is never below zero.
pub proof fn law_what_is_left_is_not_negative(a: int, b: int)
    ensures
        less(a, b) >= 0,
        a >= b ==> less(a, b) + b == a,
        a < b ==> less(a, b) == 0,
{
}

/// A fresh track is for its peer, and has sent nothing.
pub proof fn law_fresh_track_has_sent_nothing(track: DownTrack, cname: String, now: u64)
    requires
        track.is_fresh(cname, now),
    ensures
        track.cname == cname,
        !track.closed,
        track.track_type is SimpleDownTrack,
        track.current_spatial_layer == 0 && track.target_spatial_layer == 0
            && track.max_spatial_layer == 0,
        track.temporal_layer == 0 && track.max_temporal_layer == 0,
        track.sn_offset == 0 && track.ts_offset == 0,
        track.last_sn == 0 && track.last_ts == 0,
        track.octet_count == 0 && track.packet_count == 0 && track.packet_sent_count == 0,
        track.transceiver is None && track.rtx is None,
        track.last_stats == now,
{
}

} // verus!
