use vstd::prelude::*;

use crate::buffer::bytes::copy_range;
use crate::buffer::codec::{vp8_result, VP8};
use crate::packet::atomic_buffer::AtomicBuffer;
use crate::packet::factory::AtomicFactory;
use crate::packet::nack::NackPair;
use crate::packet::parse::{
    check_elements, elements_fit, fields_of, parse_packet, parsed_packet, PacketFields,
};
use crate::packet::rtp::Packet;
use crate::text::{same, views};
use crate::track::downtrack::DownTrack;
use crate::track::receiver::{ReceiverLayer, WebRTCReceiver, LAYERS};
use crate::track::sequencer::PacketMeta;

verus! {

/// Room for the largest packet.
pub const MAX_READ: usize = 65535;

/// An entry of a full intra request.
#[derive(Debug, Eq, PartialEq, Clone, Copy, Structural)]
pub struct FirEntry {
    pub ssrc: u32,
    pub sequence_number: u8,
}

/// An RTCP packet from someone who receives a track.
pub enum RtcpPacket {
    PictureLossIndication { sender_ssrc: u32, media_ssrc: u32 },
    FullIntraRequest { sender_ssrc: u32, media_ssrc: u32, fir: Vec<FirEntry> },
    ReceiverEstimatedMaximumBitrate { bitrate: u64 },
    /// The share of packets that was lost, of each source.
    ReceiverReport { fraction_lost: Vec<u8> },
    TransportLayerNack { nacks: Vec<NackPair> },
    Other,
}

/// What is forwarded of a packet: requests for a key frame, with the SSRCs of the track.
pub open spec fn readdressed(pkt: RtcpPacket, last_ssrc: u32, ssrc: u32) -> RtcpPacket {
    match pkt {
        RtcpPacket::PictureLossIndication { .. } => RtcpPacket::PictureLossIndication {
            sender_ssrc: ssrc,
            media_ssrc: last_ssrc,
        },
        RtcpPacket::FullIntraRequest { fir, .. } => RtcpPacket::FullIntraRequest {
            sender_ssrc: ssrc,
            media_ssrc: last_ssrc,
            fir,
        },
        other => other,
    }
}

/// Whether there is a request for a picture among the packets.
pub open spec fn asks_picture(pkts: Seq<RtcpPacket>) -> bool {
    exists|i: int| 0 <= i < pkts.len() && (#[trigger] pkts[i]) is PictureLossIndication
}

/// Whether there is a full intra request among the packets.
pub open spec fn asks_intra(pkts: Seq<RtcpPacket>) -> bool {
    exists|i: int| 0 <= i < pkts.len() && (#[trigger] pkts[i]) is FullIntraRequest
}

/// The packets to forward: the first request for a picture and the first full intra request, in
/// their order, with the SSRCs of the track.
pub open spec fn to_forward(pkts: Seq<RtcpPacket>, last_ssrc: u32, ssrc: u32) -> Seq<RtcpPacket>
    decreases pkts.len(),
{
    if pkts.len() == 0 {
        seq![]
    } else {
        let before = to_forward(pkts.drop_last(), last_ssrc, ssrc);
        let pkt = pkts.last();
        if pkt is PictureLossIndication && !asks_picture(pkts.drop_last()) || pkt is FullIntraRequest
            && !asks_intra(pkts.drop_last()) {
            before.push(readdressed(pkt, last_ssrc, ssrc))
        } else {
            before
        }
    }
}

/// A packet that is sent again, and how many bytes were stored of it.
pub struct Resent {
    pub packet: Packet,
    pub size: usize,
}

/// What a packet that is sent again holds, and how many bytes were stored of it.
pub open spec fn resent_fields(resent: Seq<Resent>) -> Seq<(PacketFields, usize)> {
    resent.map_values(|r: Resent| (fields_of(r.packet), r.size))
}

/// The bytes that are stored of a packet, if there are any.
pub open spec fn stored_bytes(buffer: AtomicBuffer, sn: u16) -> Option<Seq<u8>> {
    if buffer.buffer.closed {
        None
    } else {
        match buffer.buffer.bucket {
            None => Some(seq![]),
            Some(bucket) => bucket.packet(sn),
        }
    }
}

/// Whether a packet that is sent again on the track must be a VP8 packet.
pub open spec fn needs_vp8(track: DownTrack) -> bool {
    track.simulcast.temporal_supported && track.down_track_local.mime@ == "video/vp8"@
}

/// The packet as it is sent again on the track.
pub open spec fn addressed(
    fields: PacketFields,
    meta: PacketMeta,
    track: DownTrack,
) -> PacketFields {
    let ((version, padding, extension, marker, _), (_, _, _, csrc), rest, payload) = fields;
    (
        (version, padding, extension, marker, track.down_track_local.payload_type),
        (meta.target_seq_no, meta.timestamp, track.down_track_local.ssrc, csrc),
        rest,
        payload,
    )
}

/// The packet that is sent again of the one that was parsed.
pub open spec fn answer(
    fields: Option<PacketFields>,
    meta: PacketMeta,
    track: DownTrack,
) -> Option<PacketFields> {
    match fields {
        Some(found) if !needs_vp8(track) || vp8_result(found.3) is Ok => Some(
            addressed(found, meta, track),
        ),
        _ => None,
    }
}

/// Makes the packet that is sent again of the one that was parsed.
///
/// # Returns
/// - None if the packet could not be parsed, or is not the VP8 packet that the track needs
pub fn make_answer(parsed: Option<Packet>, meta: &PacketMeta, track: &DownTrack) -> (res: Option<
    Packet,
>)
    ensures
        match parsed {
            None => res is None,
            Some(packet) => match answer(Some(fields_of(packet)), *meta, *track) {
                None => res is None,
                Some(fields) => res matches Some(found) && fields_of(found) == fields,
            },
        },
{
    match parsed {
        None => None,
        Some(packet) => {
            let mut p = packet;
            p.header.sequence_number = meta.target_seq_no;
            p.header.timestamp = meta.timestamp;
            p.header.ssrc = track.ssrc();
            p.header.payload_type = track.payload_type();
            if track.simulcast.temporal_supported {
                if same(track.down_track_local.mime.as_str(), "video/vp8") {
                    let mut vp8: VP8 = VP8::default();
                    if vp8.unmarshal(&p.payload).is_err() {
                        return None;
                    }
                }
            }
            Some(p)
        },
    }
}

impl WebRTCReceiver {
    /// The buffers of the layers are known to the factory, and sound.
    pub open spec fn known_to(&self, factory: AtomicFactory) -> bool {
        &&& factory.wf()
        &&& forall|ssrc: u32| #[trigger]
            factory.factory.rtp_buffers@.contains_key(ssrc)
                ==> factory.factory.rtp_buffers@[ssrc].wf()
        &&& forall|i: int|
            0 <= i < self.layers@.len() && (#[trigger] self.layers@[i]) is Some
                ==> factory.factory.rtp_buffers@.contains_key(self.layers@[i]->Some_0.ssrc)
    }

    /// The RTCP packets to forward to the sender of the track: the first request for a picture and
    /// the first full intra request. The feedback of someone who was sent nothing yet is ignored.
    ///
    /// # Arguments
    /// - `last_ssrc`: The last SSRC that was received
    /// - `ssrc`: The SSRC that is sent
    pub fn handle_rtcp(&self, pkts: &Vec<RtcpPacket>, last_ssrc: u32, ssrc: u32) -> (fwd_pkts: Vec<
        RtcpPacket,
    >)
        ensures
            same_packets(
                fwd_pkts@,
                if last_ssrc == 0 {
                    seq![]
                } else {
                    to_forward(pkts@, last_ssrc, ssrc)
                },
            ),
            last_ssrc == 0 ==> fwd_pkts@.len() == 0,
            last_ssrc != 0 ==> same_packets(fwd_pkts@, to_forward(pkts@, last_ssrc, ssrc)),
    {
        let mut fwd_pkts: Vec<RtcpPacket> = Vec::new();
        if last_ssrc == 0 {
            return fwd_pkts;
        }
        let mut pli_once = true;
        let mut fir_once = true;
        let mut i: usize = 0;
        assert(pkts@.take(0) =~= Seq::<RtcpPacket>::empty());
        while i < pkts.len()
            invariant
                i <= pkts@.len(),
                pli_once == !asks_picture(pkts@.take(i as int)),
                fir_once == !asks_intra(pkts@.take(i as int)),
                same_packets(fwd_pkts@, to_forward(pkts@.take(i as int), last_ssrc, ssrc)),
            decreases pkts@.len() - i,
        {
            proof {
                let now = pkts@.take(i + 1);
                let was = pkts@.take(i as int);
                assert(now.drop_last() =~= was);
                assert(now.last() == pkts@[i as int]);
                lemma_asks(pkts@, i as int);
            }
            match &pkts[i] {
                RtcpPacket::PictureLossIndication { .. } => {
                    if pli_once {
                        fwd_pkts.push(
                            RtcpPacket::PictureLossIndication {
                                sender_ssrc: ssrc,
                                media_ssrc: last_ssrc,
                            },
                        );
                        pli_once = false;
                    }
                },
                RtcpPacket::FullIntraRequest { fir, .. } => {
                    if fir_once {
                        fwd_pkts.push(
                            RtcpPacket::FullIntraRequest {
                                sender_ssrc: ssrc,
                                media_ssrc: last_ssrc,
                                fir: copy_fir(fir),
                            },
                        );
                        fir_once = false;
                    }
                },
                _ => {},
            }
            i = i + 1;
        }
        assert(pkts@.take(i as int) =~= pkts@);
        fwd_pkts
    }

    /// The bitrates of the layers that exist.
    pub open spec fn bitrates(&self, factory: AtomicFactory, upto: int) -> Seq<u64>
        decreases upto,
    {
        if upto <= 0 {
            seq![]
        } else {
            let before = self.bitrates(factory, upto - 1);
            match self.layers@[upto - 1] {
                Some(layer) => before.push(
                    factory.factory.rtp_buffers@[layer.ssrc].buffer.bitrate,
                ),
                None => before,
            }
        }
    }

    /// Bitrates of each layer.
    pub fn get_bitrates(&self, factory: &AtomicFactory) -> (bitrates: Vec<u64>)
        requires
            self.wf(),
            self.known_to(*factory),
        ensures
            bitrates@ == self.bitrates(*factory, LAYERS as int),
    {
        let mut bitrates: Vec<u64> = Vec::new();
        let mut i: usize = 0;
        while i < LAYERS
            invariant
                self.wf(),
                self.known_to(*factory),
                i <= LAYERS,
                bitrates@ == self.bitrates(*factory, i as int),
            decreases LAYERS - i,
        {
            if let Some(layer) = &self.layers[i] {
                if let Some(buffer) = factory.get_rtp_buffer(layer.ssrc) {
                    bitrates.push(buffer.bitrate());
                }
            }
            i = i + 1;
        }
        bitrates
    }

    /// The maximum temporal layers of the layers that exist.
    pub open spec fn temporal_layers(&self, factory: AtomicFactory, upto: int) -> Seq<i32>
        decreases upto,
    {
        if upto <= 0 {
            seq![]
        } else {
            let before = self.temporal_layers(factory, upto - 1);
            match self.layers@[upto - 1] {
                Some(layer) => before.push(
                    factory.factory.rtp_buffers@[layer.ssrc].buffer.max_temporal_layer,
                ),
                None => before,
            }
        }
    }

    /// Returns the maximum temporal layer of each layer.
    pub fn get_max_temporal_layers(&self, factory: &AtomicFactory) -> (layers: Vec<i32>)
        requires
            self.wf(),
            self.known_to(*factory),
        ensures
            layers@ == self.temporal_layers(*factory, LAYERS as int),
    {
        let mut layers: Vec<i32> = Vec::new();
        let mut i: usize = 0;
        while i < LAYERS
            invariant
                self.wf(),
                self.known_to(*factory),
                i <= LAYERS,
                layers@ == self.temporal_layers(*factory, i as int),
            decreases LAYERS - i,
        {
            if let Some(layer) = &self.layers[i] {
                if let Some(buffer) = factory.get_rtp_buffer(layer.ssrc) {
                    layers.push(buffer.max_temporal_layer());
                }
            }
            i = i + 1;
        }
        layers
    }

    /// Gets the timestamps of the last Sender Report (SR) for a given layer: the RTP timestamp and
    /// the NTP timestamp, or zeros where there is no such layer.
    pub fn get_sender_report_time(&self, layer: usize, factory: &AtomicFactory) -> (res: (u32, u64))
        requires
            self.known_to(*factory),
        ensures
            res == match self.layer_at(layer as int) {
                None => (0u32, 0u64),
                Some(found) => {
                    let buffer = factory.factory.rtp_buffers@[found.ssrc].buffer;
                    (buffer.last_srrtp_time, buffer.last_srntp_time)
                },
            },
    {
        if let Some(found) = self.layer(layer) {
            assert(self.layers@[layer as int] is Some);
            if let Some(buffer) = factory.get_rtp_buffer(found.ssrc) {
                let (rtp_ts, ntp_ts, _) = buffer.get_sender_report_data();
                return (rtp_ts, ntp_ts);
            }
        }
        (0, 0)
    }

    /// The packet that is sent again for `meta`, and how many bytes were stored of it.
    pub open spec fn resent_for(
        &self,
        track: DownTrack,
        meta: PacketMeta,
        factory: AtomicFactory,
    ) -> Option<(PacketFields, usize)> {
        match self.layer_at(meta.layer as int) {
            None => None,
            Some(layer) => match stored_bytes(
                factory.factory.rtp_buffers@[layer.ssrc],
                meta.source_seq_no,
            ) {
                None => None,
                Some(raw) => if !elements_fit(raw) {
                    None
                } else {
                    match answer(parsed_packet(raw), meta, track) {
                        None => None,
                        Some(fields) => Some((fields, raw.len() as usize)),
                    }
                },
            },
        }
    }

    /// The packets that are sent again, up to the first one whose layer does not exist.
    pub open spec fn resent(
        &self,
        track: DownTrack,
        packets: Seq<PacketMeta>,
        factory: AtomicFactory,
    ) -> Seq<(PacketFields, usize)>
        decreases packets.len(),
    {
        if packets.len() == 0 || self.layer_at(packets[0].layer as int) is None {
            seq![]
        } else {
            let rest = self.resent(track, packets.skip(1), factory);
            match self.resent_for(track, packets[0], factory) {
                None => rest,
                Some(first) => seq![first] + rest,
            }
        }
    }

    /// Looks up one packet to send again.
    fn retransmit_packet(
        &self,
        track: &DownTrack,
        meta: &PacketMeta,
        layer: &ReceiverLayer,
        factory: &AtomicFactory,
    ) -> (res: Option<Resent>)
        requires
            self.known_to(*factory),
            self.layer_at(meta.layer as int) == Some(*layer),
        ensures
            match self.resent_for(*track, *meta, *factory) {
                None => res is None,
                Some(found) => res matches Some(resent) && (fields_of(resent.packet), resent.size)
                    == found,
            },
    {
        assert(self.layers@[meta.layer as int] is Some);
        let buffer = match factory.get_rtp_buffer(layer.ssrc) {
            None => {
                return None;
            },
            Some(buffer) => buffer,
        };
        let mut data: Vec<u8> = vec![0; MAX_READ];
        let read = buffer.get_packet(data.as_mut_slice(), meta.source_seq_no);
        match read {
            Err(_) => {
                proof {
                    if buffer.buffer.bucket is Some {
                        lemma_packet_size(buffer.buffer.bucket->Some_0, meta.source_seq_no);
                    }
                }
                None
            },
            Ok(size) => {
                proof {
                    if buffer.buffer.bucket is Some {
                        lemma_packet_size(buffer.buffer.bucket->Some_0, meta.source_seq_no);
                    }
                }
                let raw = copy_range(&data, 0, size);
                assert(stored_bytes(*buffer, meta.source_seq_no) == Some(raw@)) by {
                    assert(raw@ =~= stored_bytes(*buffer, meta.source_seq_no)->Some_0);
                }
                if !check_elements(&raw) {
                    return None;
                }
                match make_answer(parse_packet(&raw), meta, track) {
                    None => None,
                    Some(packet) => Some(Resent { packet, size }),
                }
            },
        }
    }

    /// Looks up all given packets to retransmit them into a given [DownTrack].
    /// # Arguments
    /// - `track`: [DownTrack] used to retransmit packets.
    /// - `packets`: Packets to retransmit.
    pub fn retransmit_packets(
        &self,
        track: &DownTrack,
        packets: &Vec<PacketMeta>,
        factory: &AtomicFactory,
    ) -> (out: Vec<Resent>)
        requires
            self.known_to(*factory),
        ensures
            resent_fields(out@) == self.resent(*track, packets@, *factory),
    {
        let mut out: Vec<Resent> = Vec::new();
        let mut i: usize = 0;
        let ghost all = self.resent(*track, packets@, *factory);
        proof {
            assert(packets@.skip(0) =~= packets@);
            assert(resent_fields(out@) =~= seq![]);
            assert(resent_fields(out@) + self.resent(*track, packets@.skip(0), *factory) =~= all);
        }
        while i < packets.len()
            invariant
                self.known_to(*factory),
                i <= packets@.len(),
                all == self.resent(*track, packets@, *factory),
                all == resent_fields(out@) + self.resent(
                    *track,
                    packets@.skip(i as int),
                    *factory,
                ),
            decreases packets@.len() - i,
        {
            let ghost so_far = out@;
            proof {
                assert(packets@.skip(i as int).skip(1) =~= packets@.skip(i + 1));
            }
            match self.layer(packets[i].layer as usize) {
                None => {
                    assert(resent_fields(out@) + seq![] =~= resent_fields(out@));
                    return out;
                },
                Some(layer) => {
                    if let Some(resent) = self.retransmit_packet(track, &packets[i], layer, factory) {
                        out.push(resent);
                        assert(resent_fields(out@) =~= resent_fields(so_far).push(
                            (fields_of(resent.packet), resent.size),
                        ));
                    }
                },
            }
            i = i + 1;
            assert(all =~= resent_fields(out@) + self.resent(
                *track,
                packets@.skip(i as int),
                *factory,
            ));
        }
        proof {
            assert(packets@.skip(i as int) =~= seq![]);
            assert(resent_fields(out@) + seq![] =~= resent_fields(out@));
        }
        out
    }

    /// The ids of the down tracks of all layers.
    pub open spec fn all_ids(&self, upto: int) -> Seq<Seq<char>>
        decreases upto,
    {
        if upto <= 0 {
            seq![]
        } else {
            let before = self.all_ids(upto - 1);
            match self.layers@[upto - 1] {
                Some(layer) => before + layer.down_tracks@.map_values(
                    |dt: DownTrack| dt.down_track_local.id@,
                ),
                None => before,
            }
        }
    }

    /// Sets the receiver to closed state.
    ///
    /// # Returns
    /// - Ids of the down tracks to close, layer by layer
    pub fn close_tracks(&mut self) -> (ids: Vec<String>)
        requires
            old(self).wf(),
        ensures
            final(self).wf(),
            *final(self) == (WebRTCReceiver { closed: true, ..*old(self) }),
            views(ids@) == old(self).all_ids(LAYERS as int),
    {
        let mut ids: Vec<String> = Vec::new();
        let mut i: usize = 0;
        assert(views(ids@) =~= seq![]);
        while i < LAYERS
            invariant
                self.wf(),
                *self == *old(self),
                i <= LAYERS,
                views(ids@) == self.all_ids(i as int),
            decreases LAYERS - i,
        {
            if let Some(layer) = &self.layers[i] {
                let tracks = &layer.down_tracks;
                let ghost so_far = views(ids@);
                let ghost names = tracks@.map_values(|dt: DownTrack| dt.down_track_local.id@);
                let mut k: usize = 0;
                assert(views(ids@) =~= so_far + names.take(0));
                while k < tracks.len()
                    invariant
                        k <= tracks@.len(),
                        names == tracks@.map_values(|dt: DownTrack| dt.down_track_local.id@),
                        views(ids@) == so_far + names.take(k as int),
                    decreases tracks@.len() - k,
                {
                    let ghost before = ids@;
                    ids.push(tracks[k].id());
                    assert(views(ids@) =~= views(before).push(names[k as int]));
                    assert(names.take(k + 1) =~= names.take(k as int).push(names[k as int]));
                    k = k + 1;
                    assert(views(ids@) =~= so_far + names.take(k as int));
                }
                assert(names.take(k as int) =~= names);
            }
            i = i + 1;
        }
        self.closed = true;
        ids
    }
}

/// Whether two lists of packets say the same.
pub open spec fn same_packets(a: Seq<RtcpPacket>, b: Seq<RtcpPacket>) -> bool {
    a.len() == b.len() && forall|i: int| 0 <= i < a.len() ==> same_packet(#[trigger] a[i], b[i])
}

/// Whether two packets say the same.
pub open spec fn same_packet(a: RtcpPacket, b: RtcpPacket) -> bool {
    match (a, b) {
        (
            RtcpPacket::FullIntraRequest { sender_ssrc: s1, media_ssrc: m1, fir: f1 },
            RtcpPacket::FullIntraRequest { sender_ssrc: s2, media_ssrc: m2, fir: f2 },
        ) => s1 == s2 && m1 == m2 && f1@ == f2@,
        _ => a == b,
    }
}

fn copy_fir(fir: &Vec<FirEntry>) -> (res: Vec<FirEntry>)
    ensures
        res@ == fir@,
{
    let mut res: Vec<FirEntry> = Vec::new();
    let mut i: usize = 0;
    while i < fir.len()
        invariant
            i <= fir@.len(),
            res@ == fir@.take(i as int),
        decreases fir@.len() - i,
    {
        res.push(fir[i]);
        i = i + 1;
    }
    assert(fir@.take(i as int) =~= fir@);
    res
}

/// Whether there are requests among the first packets.
proof fn lemma_asks(pkts: Seq<RtcpPacket>, i: int)
    requires
        0 <= i < pkts.len(),
    ensures
        asks_picture(pkts.take(i + 1)) == (asks_picture(pkts.take(i))
            || pkts[i] is PictureLossIndication),
        asks_intra(pkts.take(i + 1)) == (asks_intra(pkts.take(i)) || pkts[i] is FullIntraRequest),
{
    let now = pkts.take(i + 1);
    let was = pkts.take(i);
    if asks_picture(was) {
        let k = choose|k: int| 0 <= k < was.len() && (#[trigger] was[k]) is PictureLossIndication;
        assert(now[k] is PictureLossIndication);
    }
    if asks_intra(was) {
        let k = choose|k: int| 0 <= k < was.len() && (#[trigger] was[k]) is FullIntraRequest;
        assert(now[k] is FullIntraRequest);
    }
    assert(now[i] == pkts[i]);
    if asks_picture(now) && !(pkts[i] is PictureLossIndication) {
        let k = choose|k: int| 0 <= k < now.len() && (#[trigger] now[k]) is PictureLossIndication;
        assert(was[k] is PictureLossIndication);
    }
    if asks_intra(now) && !(pkts[i] is FullIntraRequest) {
        let k = choose|k: int| 0 <= k < now.len() && (#[trigger] now[k]) is FullIntraRequest;
        assert(was[k] is FullIntraRequest);
    }
}

/// A stored packet is no larger than the largest packet.
proof fn lemma_packet_size(bucket: crate::buffer::bucket::Bucket, sn: u16)
    requires
        bucket.wf(),
    ensures
        bucket.packet(sn) matches Some(pkt) ==> pkt.len() <= MAX_READ,
{
}

/// Of the feedback of a subscriber just requests for key frames go on to the source of the track, each
/// kind once: they are asked for in the name of the track, and of the source whose packets it sends.
pub proof fn law_key_frames_are_asked_for_once(pkts: Seq<RtcpPacket>, last_ssrc: u32, ssrc: u32)
    ensures
        ({
            let sent = to_forward(pkts, last_ssrc, ssrc);
            &&& forall|i: int|
                0 <= i < sent.len() ==> match #[trigger] sent[i] {
                    RtcpPacket::PictureLossIndication { sender_ssrc, media_ssrc } => sender_ssrc
                        == ssrc && media_ssrc == last_ssrc,
                    RtcpPacket::FullIntraRequest { sender_ssrc, media_ssrc, .. } => sender_ssrc
                        == ssrc && media_ssrc == last_ssrc,
                    _ => false,
                }
            &&& (exists|i: int|
                0 <= i < sent.len() && (#[trigger] sent[i]) is PictureLossIndication) <==> (exists|
                i: int,
            |
                0 <= i < pkts.len() && (#[trigger] pkts[i]) is PictureLossIndication)
            &&& (exists|i: int| 0 <= i < sent.len() && (#[trigger] sent[i]) is FullIntraRequest)
                <==> (exists|i: int|
                0 <= i < pkts.len() && (#[trigger] pkts[i]) is FullIntraRequest)
            &&& forall|i: int, j: int|
                0 <= i < sent.len() && 0 <= j < sent.len() && (#[trigger] sent[i]) is PictureLossIndication
                    && (#[trigger] sent[j]) is PictureLossIndication ==> i == j
            &&& forall|i: int, j: int|
                0 <= i < sent.len() && 0 <= j < sent.len() && (#[trigger] sent[i]) is FullIntraRequest
                    && (#[trigger] sent[j]) is FullIntraRequest ==> i == j
        }),
    decreases pkts.len(),
{
    let sent = to_forward(pkts, last_ssrc, ssrc);
    if pkts.len() > 0 {
        let shorter = pkts.drop_last();
        law_key_frames_are_asked_for_once(shorter, last_ssrc, ssrc);
        let before = to_forward(shorter, last_ssrc, ssrc);
        assert(pkts.take(pkts.len() - 1) =~= shorter);
        assert(pkts.take(pkts.len() as int) =~= pkts);
        lemma_asks(pkts, pkts.len() - 1);
        assert(asks_picture(pkts) <==> (exists|i: int|
            0 <= i < pkts.len() && (#[trigger] pkts[i]) is PictureLossIndication));
        assert(asks_intra(pkts) <==> (exists|i: int|
            0 <= i < pkts.len() && (#[trigger] pkts[i]) is FullIntraRequest));
        if sent.len() > before.len() {
            assert(sent[sent.len() - 1] == readdressed(pkts.last(), last_ssrc, ssrc));
        }
        if exists|i: int| 0 <= i < before.len() && (#[trigger] before[i]) is PictureLossIndication {
            let i = choose|i: int|
                0 <= i < before.len() && (#[trigger] before[i]) is PictureLossIndication;
            assert(sent[i] == before[i]);
        }
        if exists|i: int| 0 <= i < before.len() && (#[trigger] before[i]) is FullIntraRequest {
            let i = choose|i: int|
                0 <= i < before.len() && (#[trigger] before[i]) is FullIntraRequest;
            assert(sent[i] == before[i]);
        }
        assert forall|i: int| 0 <= i < before.len() implies sent[i] == #[trigger] before[i] by {}
        assert(asks_picture(shorter) <==> exists|i: int|
            0 <= i < before.len() && (#[trigger] before[i]) is PictureLossIndication);
        assert(asks_intra(shorter) <==> exists|i: int|
            0 <= i < before.len() && (#[trigger] before[i]) is FullIntraRequest);
        if exists|i: int| 0 <= i < sent.len() && (#[trigger] sent[i]) is PictureLossIndication {
            let i = choose|i: int|
                0 <= i < sent.len() && (#[trigger] sent[i]) is PictureLossIndication;
            if i < before.len() {
                assert(before[i] is PictureLossIndication);
            }
        }
        if exists|i: int| 0 <= i < sent.len() && (#[trigger] sent[i]) is FullIntraRequest {
            let i = choose|i: int| 0 <= i < sent.len() && (#[trigger] sent[i]) is FullIntraRequest;
            if i < before.len() {
                assert(before[i] is FullIntraRequest);
            }
        }
        assert forall|i: int, j: int|
            0 <= i < sent.len() && 0 <= j < sent.len() && (#[trigger] sent[i]) is PictureLossIndication
                && (#[trigger] sent[j]) is PictureLossIndication implies i == j by {
            if i < before.len() {
                assert(before[i] is PictureLossIndication);
            }
            if j < before.len() {
                assert(before[j] is PictureLossIndication);
            }
        }
        assert forall|i: int, j: int|
            0 <= i < sent.len() && 0 <= j < sent.len() && (#[trigger] sent[i]) is FullIntraRequest
                && (#[trigger] sent[j]) is FullIntraRequest implies i == j by {
            if i < before.len() {
                assert(before[i] is FullIntraRequest);
            }
            if j < before.len() {
                assert(before[j] is FullIntraRequest);
            }
        }
    }
}

/// A packet that is sent again is the one that is stored under the number that it came with. It has
/// the number and the timestamp that it was sent with before, and the SSRC and the payload type of the
/// track; its payload and the rest of its header are as they came.
pub proof fn law_resent_packet_is_the_stored_one(
    receiver: WebRTCReceiver,
    track: DownTrack,
    meta: PacketMeta,
    factory: AtomicFactory,
)
    ensures
        receiver.resent_for(track, meta, factory) matches Some((fields, size)) ==> {
            &&& receiver.layer_at(meta.layer as int) matches Some(layer) && stored_bytes(
                factory.factory.rtp_buffers@[layer.ssrc],
                meta.source_seq_no,
            ) matches Some(raw) && parsed_packet(raw) matches Some(stored) && {
                &&& size == raw.len() as usize
                &&& fields.0.0 == stored.0.0
                &&& fields.0.1 == stored.0.1
                &&& fields.0.2 == stored.0.2
                &&& fields.0.3 == stored.0.3
                &&& fields.1.3 == stored.1.3
                &&& fields.2 == stored.2
                &&& fields.3 == stored.3
            }
            &&& fields.0.4 == track.down_track_local.payload_type
            &&& fields.1.0 == meta.target_seq_no
            &&& fields.1.1 == meta.timestamp
            &&& fields.1.2 == track.down_track_local.ssrc
        },
{
}

/// All packets that are asked for and can be sent again are, in the order in which they are asked for.
pub proof fn law_packets_are_resent_in_order(
    receiver: WebRTCReceiver,
    track: DownTrack,
    packets: Seq<PacketMeta>,
    factory: AtomicFactory,
)
    requires
        forall|i: int|
            0 <= i < packets.len() ==> receiver.resent_for(
                track,
                #[trigger] packets[i],
                factory,
            ) is Some,
    ensures
        receiver.resent(track, packets, factory).len() == packets.len(),
        forall|i: int|
            0 <= i < packets.len() ==> Some(receiver.resent(track, packets, factory)[i])
                == receiver.resent_for(track, #[trigger] packets[i], factory),
    decreases packets.len(),
{
    if packets.len() > 0 {
        let rest = packets.skip(1);
        assert(receiver.resent_for(track, packets[0], factory) is Some);
        assert forall|i: int| 0 <= i < rest.len() implies receiver.resent_for(
            track,
            #[trigger] rest[i],
            factory,
        ) is Some by {
            assert(rest[i] == packets[i + 1]);
        }
        law_packets_are_resent_in_order(receiver, track, rest, factory);
        assert forall|i: int| 0 <= i < packets.len() implies Some(
            receiver.resent(track, packets, factory)[i],
        ) == receiver.resent_for(track, #[trigger] packets[i], factory) by {
            if i > 0 {
                assert(rest[i - 1] == packets[i]);
            }
        }
    }
}

/// Closing a receiver closes every down track of every layer.
pub proof fn law_every_track_is_closed_with_its_receiver(
    receiver: WebRTCReceiver,
    layer: int,
    i: int,
    upto: int,
)
    requires
        receiver.wf(),
        0 <= layer < upto <= LAYERS,
        receiver.layers@[layer] matches Some(found) && 0 <= i < found.down_tracks@.len(),
    ensures
        receiver.layers@[layer] matches Some(found) && receiver.all_ids(upto).contains(
            found.down_tracks@[i].down_track_local.id@,
        ),
    decreases upto,
{
    let found = receiver.layers@[layer]->Some_0;
    let id = found.down_tracks@[i].down_track_local.id@;
    let before = receiver.all_ids(upto - 1);
    let all = receiver.all_ids(upto);
    if layer == upto - 1 {
        let names = found.down_tracks@.map_values(|dt: DownTrack| dt.down_track_local.id@);
        assert(all == before + names);
        assert(all[before.len() + i] == names[i]);
    } else {
        law_every_track_is_closed_with_its_receiver(receiver, layer, i, upto - 1);
        let at = choose|at: int| 0 <= at < before.len() && before[at] == id;
        assert(all[at] == id);
    }
}

/// A packet that was parsed is sent again unless the track needs its VP8 descriptor and cannot read
/// it. It keeps its payload, and gets the numbers of the track.
pub proof fn law_readable_packet_is_sent_again(
    fields: PacketFields,
    meta: PacketMeta,
    track: DownTrack,
)
    ensures
        !track.simulcast.temporal_supported ==> answer(Some(fields), meta, track) is Some,
        track.down_track_local.mime@ != "video/vp8"@ ==> answer(Some(fields), meta, track) is Some,
        track.simulcast.temporal_supported && track.down_track_local.mime@ == "video/vp8"@ ==> (
        answer(Some(fields), meta, track) is Some <==> vp8_result(fields.3) is Ok),
        answer(None, meta, track) is None,
        answer(Some(fields), meta, track) matches Some(sent) ==> {
            let ((_, _, _, marked, _), _, elements, payload) = fields;
            let ((_, _, _, marker, payload_type), (sn, ts, ssrc, _), rest, content) = sent;
            &&& payload_type == track.down_track_local.payload_type
            &&& marker == marked
            &&& sn == meta.target_seq_no
            &&& ts == meta.timestamp
            &&& ssrc == track.down_track_local.ssrc
            &&& rest == elements
            &&& content == payload
        },
{
}

/// The bytes of a packet are those in the bucket of its track; a track that is closed has none.
pub proof fn law_stored_bytes_are_those_of_the_bucket(buffer: AtomicBuffer, sn: u16)
    ensures
        buffer.buffer.closed ==> stored_bytes(buffer, sn) is None,
        !buffer.buffer.closed ==> match buffer.buffer.bucket {
            Some(bucket) => stored_bytes(buffer, sn) == bucket.packet(sn),
            None => stored_bytes(buffer, sn) matches Some(bytes) && bytes.len() == 0,
        },
{
}

/// A packet that is stored and can be read is sent again where its layer exists; one whose extension
/// does not fit is not.
pub proof fn law_stored_packet_is_sent_again(
    receiver: WebRTCReceiver,
    track: DownTrack,
    meta: PacketMeta,
    factory: AtomicFactory,
    layer: ReceiverLayer,
    raw: Seq<u8>,
)
    requires
        receiver.layer_at(meta.layer as int) == Some(layer),
        stored_bytes(factory.factory.rtp_buffers@[layer.ssrc], meta.source_seq_no) == Some(raw),
    ensures
        elements_fit(raw) && parsed_packet(raw) is Some && !track.simulcast.temporal_supported
            ==> receiver.resent_for(track, meta, factory) is Some,
        elements_fit(raw) ==> (receiver.resent_for(track, meta, factory) is Some <==> answer(
            parsed_packet(raw),
            meta,
            track,
        ) is Some),
        !elements_fit(raw) ==> receiver.resent_for(track, meta, factory) is None,
{
}

/// What is told of the bitrates and of the temporal layers is told of each layer that there is, in
/// their order.
pub proof fn law_each_layer_is_told_of(receiver: WebRTCReceiver, factory: AtomicFactory, upto: int)
    requires
        0 <= upto <= receiver.layers@.len(),
    ensures
        receiver.bitrates(factory, upto).len() == receiver.temporal_layers(factory, upto).len()
            <= upto,
        forall|i: int|
            0 <= i < upto && (#[trigger] receiver.layers@[i]) is Some ==> receiver.bitrates(
                factory,
                upto,
            ).contains(
                factory.factory.rtp_buffers@[receiver.layers@[i]->0.ssrc].buffer.bitrate,
            ),
        (forall|i: int| 0 <= i < upto ==> (#[trigger] receiver.layers@[i]) is Some)
            ==> receiver.bitrates(factory, upto).len() == upto && forall|i: int|
            0 <= i < upto ==> #[trigger] receiver.bitrates(factory, upto)[i]
                == factory.factory.rtp_buffers@[receiver.layers@[i]->0.ssrc].buffer.bitrate
                && receiver.temporal_layers(factory, upto)[i]
                == factory.factory.rtp_buffers@[receiver.layers@[i]->0.ssrc].buffer.max_temporal_layer,
        (forall|i: int| 0 <= i < upto ==> (#[trigger] receiver.layers@[i]) is None)
            ==> receiver.bitrates(factory, upto).len() == 0,
    decreases upto,
{
    if upto > 0 {
        law_each_layer_is_told_of(receiver, factory, upto - 1);
        let before = receiver.bitrates(factory, upto - 1);
        let now = receiver.bitrates(factory, upto);
        assert forall|i: int|
            0 <= i < upto && (#[trigger] receiver.layers@[i]) is Some implies now.contains(
            factory.factory.rtp_buffers@[receiver.layers@[i]->0.ssrc].buffer.bitrate,
        ) by {
            let told = factory.factory.rtp_buffers@[receiver.layers@[i]->0.ssrc].buffer.bitrate;
            if i < upto - 1 {
                assert(before.contains(told));
                let k = choose|k: int| 0 <= k < before.len() && before[k] == told;
                assert(now[k] == told);
            } else {
                assert(now[now.len() - 1] == told);
            }
        }
        if forall|i: int| 0 <= i < upto ==> (#[trigger] receiver.layers@[i]) is Some {
            assert(receiver.layers@[upto - 1] is Some);
            assert forall|i: int| 0 <= i < upto implies #[trigger] now[i]
                == factory.factory.rtp_buffers@[receiver.layers@[i]->0.ssrc].buffer.bitrate
                && receiver.temporal_layers(factory, upto)[i]
                == factory.factory.rtp_buffers@[receiver.layers@[i]->0.ssrc].buffer.max_temporal_layer by {
                if i < upto - 1 {
                    assert(now[i] == before[i]);
                }
            }
        }
        if forall|i: int| 0 <= i < upto ==> (#[trigger] receiver.layers@[i]) is None {
            assert(receiver.layers@[upto - 1] is None);
        }
    }
}

} // verus!
