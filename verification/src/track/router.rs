use vstd::prelude::*;

use crate::packet::atomic_buffer::AtomicBuffer;
use crate::packet::buffer::{Buffer, ExtPacket, Options};
use crate::packet::factory::AtomicFactory;
use crate::packet::params::{
    Capability, RTCPFeedback, RTCRtpCodecCapability, RTCRtpCodecParameters, RTCRtpParameters,
    RTPCodecType,
};
use crate::packet::report::{parse_reports, readable_reports, Report};
use crate::packet::rtcp::RTCPForwarder;
use crate::peer::streams::{
    law_first_track_with_the_id_is_found, number_of, StreamTracks, TrackRef,
};
use crate::registry::Registry;
use crate::rtc::config::RouterConfig;
use crate::session::room::RoomEvent;
use crate::text::views;
use crate::track::audio_observer::{expected_power, AudioObserver, AudioStream};
use crate::track::downtrack::{
    first_ssrc, law_first_given_ssrc_is_taken, DownTrack, DownTrackInternal, RTX_MAX_SN,
};
use crate::track::error::{Error, Result};
use crate::track::receiver::{
    available_layer, law_available_layer_is_the_best_or_the_lowest, WebRTCReceiver, LAYERS,
};
use crate::track::simulcast::layer_of;

verus! {

/// A track that comes in from a client.
pub struct RemoteTrack {
    pub id: String,
    pub rid: String,
    pub stream_id: String,
    pub ssrc: u32,
    pub kind: RTPCodecType,
    pub codec: RTCRtpCodecParameters,
}

/// What became of a track that came in.
pub struct AddedReceiver {
    /// The name of the receiver of the track.
    pub receiver: String,
    /// Whether the receiver is new, so that its track is to be published.
    pub published: bool,
    /// Whether someone has registered to hear of new receivers.
    pub tells: bool,
    /// The layer whose packets are to be read, if the receiver is open.
    pub layer: Option<usize>,
    /// The packets that arrived before.
    pub packets: Vec<ExtPacket>,
}

/// How a track is sent to a subscriber.
pub enum DownTrackPlan {
    /// It is sent already, as the track with this number.
    Exists(u64),
    /// It is sent as a new track, once a transceiver was added for it.
    Create(DownTrackInternal),
}

/// What the task that sends RTCP packets hears.
#[derive(Debug, Eq, PartialEq, Clone, Copy, Structural)]
pub enum RtcpEvent {
    /// There are packets to send.
    Packets,
    /// There will be no packets any longer.
    Closed,
    /// The router stops.
    Stop,
}

/// What the task that sends RTCP packets does.
#[derive(Debug, Eq, PartialEq, Clone, Copy, Structural)]
pub enum RtcpStep {
    Write,
    Continue,
    Stop,
}

/// Forwards the tracks of a peer to those who subscribe to them.
pub struct LocalRouter {
    pub id: String,
    pub room_id: String,
    pub audio_observer: AudioObserver,
    pub config: RouterConfig,
    pub receivers: Registry<WebRTCReceiver>,
    pub buffer_factory: AtomicFactory,
    /// Whether someone has registered to write RTCP packets.
    pub rtcp_writer: bool,
    /// Whether someone has registered to hear of new receivers.
    pub on_add_receiver_track: bool,
    /// Whether someone has registered to hear of receivers that are gone.
    pub on_del_receiver_track: bool,
}

/// All buffers are well-formed.
pub open spec fn buffers_wf(factory: AtomicFactory) -> bool {
    &&& factory.wf()
    &&& forall|ssrc: u32| #[trigger]
        factory.factory.rtp_buffers@.contains_key(ssrc) ==> factory.factory.rtp_buffers@[ssrc].wf()
}

/// All receivers are well-formed, and their buffers are known.
pub open spec fn receivers_wf(
    receivers: Map<Seq<char>, WebRTCReceiver>,
    factory: AtomicFactory,
) -> bool {
    forall|name: Seq<char>| #[trigger]
        receivers.contains_key(name) ==> receivers[name].wf() && receivers[name].known_to(factory)
}

/// Whether `after` are the buffers `before` once the one of a track was bound, and `out` is what
/// came of the packets that arrived before.
pub open spec fn buffer_bound(
    before: Map<u32, AtomicBuffer>,
    after: Map<u32, AtomicBuffer>,
    ssrc: u32,
    params: RTCRtpParameters,
    o: Options,
    now: u64,
    out: Seq<ExtPacket>,
) -> bool {
    &&& after == before.insert(ssrc, after[ssrc])
    &&& exists|start: AtomicBuffer|
        {
            &&& if before.contains_key(ssrc) {
                start == before[ssrc]
            } else {
                start.is_new(ssrc)
            }
            &&& #[trigger] start.bound_to(after[ssrc], params, o, now, out)
        }
}

/// Whether `after` is the observer `before` once a track of a stream came in: a stream with voice is
/// observed.
pub open spec fn stream_observed(
    before: AudioObserver,
    after: AudioObserver,
    kind: RTPCodecType,
    stream_id: Seq<char>,
) -> bool {
    &&& after == AudioObserver { streams: after.streams, ..before }
    &&& if kind is Audio {
        &&& after.streams@.len() == before.streams@.len() + 1
        &&& after.streams@.drop_last() == before.streams@
        &&& after.streams@.last().id@ == stream_id
        &&& after.streams@.last().sum == 0
        &&& after.streams@.last().total == 0
    } else {
        after.streams == before.streams
    }
}

/// The RTCP forwarder of a track, once someone has registered for its packets.
pub open spec fn forwarder_used(before: Map<u32, RTCPForwarder>, ssrc: u32) -> RTCPForwarder {
    if before.contains_key(ssrc) {
        RTCPForwarder { on_packets: true, ..before[ssrc] }
    } else {
        RTCPForwarder { ssrc, on_packets: true }
    }
}

/// Whether this is the receiver of a track that no packet was read of.
pub open spec fn is_new_receiver(receiver: WebRTCReceiver, peer_id: Seq<char>, track: RemoteTrack) -> bool {
    &&& receiver.peer_id@ == peer_id
    &&& receiver.track_id@ == track.id@
    &&& receiver.track_rid@ == track.rid@
    &&& receiver.stream_id@ == track.stream_id@
    &&& receiver.codec == track.codec
    &&& receiver.kind == track.kind
    &&& receiver.is_simulcast == (track.rid@.len() > 0)
    &&& !receiver.closed
    &&& receiver.last_pli is None
    &&& receiver.layers@.len() == LAYERS
    &&& forall|i: int| 0 <= i < LAYERS ==> (#[trigger] receiver.layers@[i]) is None
}

/// Whether `after` is the receiver `before` once a track came in, whose packets are read in `layer`.
pub open spec fn took_track(
    before: WebRTCReceiver,
    after: WebRTCReceiver,
    rid: Seq<char>,
    ssrc: u32,
    best_quality_first: bool,
    layer: Option<usize>,
) -> bool {
    if before.closed {
        layer is None && after == before
    } else {
        &&& layer == Some(layer_of(rid))
        &&& before.up_track_added(after, ssrc, layer_of(rid) as int, best_quality_first)
    }
}

/// The name of the receiver that a track comes in at.
pub open spec fn receiver_name(
    receivers: Map<Seq<char>, WebRTCReceiver>,
    track: RemoteTrack,
    track_id: Seq<char>,
) -> Seq<char> {
    if receivers.contains_key(track.id@) {
        track.id@
    } else {
        track_id
    }
}

/// Whether `start` is the receiver that a track comes in at: the one that is known, or a new one.
pub open spec fn comes_in_at(
    receivers: Map<Seq<char>, WebRTCReceiver>,
    start: WebRTCReceiver,
    peer_id: Seq<char>,
    track: RemoteTrack,
) -> bool {
    if receivers.contains_key(track.id@) {
        start == receivers[track.id@]
    } else {
        is_new_receiver(start, peer_id, track)
    }
}

/// Whether `after` are the receivers `before` once a track came in.
pub open spec fn receiver_joined(
    before: Map<Seq<char>, WebRTCReceiver>,
    after: Map<Seq<char>, WebRTCReceiver>,
    peer_id: Seq<char>,
    track: RemoteTrack,
    track_id: Seq<char>,
    best_quality_first: bool,
    layer: Option<usize>,
) -> bool {
    let name = receiver_name(before, track, track_id);
    &&& after == before.insert(name, after[name])
    &&& exists|start: WebRTCReceiver|
        {
            &&& #[trigger] comes_in_at(before, start, peer_id, track)
            &&& took_track(
                start,
                after[name],
                track.rid@,
                track.ssrc,
                best_quality_first,
                layer,
            )
        }
}

/// The codec that a track is sent to a subscriber with.
pub open spec fn sent_capability(codec: Capability) -> Capability {
    Capability {
        rtcp_feedback: seq![
            ("goog-remb"@, ""@),
            ("nack"@, ""@),
            ("nack"@, "pli"@),
        ],
        ..codec
    }
}

/// How many packets are remembered of a track that is sent to a subscriber.
pub open spec fn track_capacity(config: RouterConfig) -> int {
    config.max_packet_track as int % 0x1_0000
}

/// Whether this is the end of a new track for the packets of a receiver.
pub open spec fn is_local_end(
    local: DownTrackInternal,
    receiver: WebRTCReceiver,
    codec: Capability,
    capacity: int,
) -> bool {
    &&& local.is_unbound(capacity as u16)
    &&& local.media_codec@ == codec
    &&& local.id@ == receiver.track_id@
    &&& local.rid@ == receiver.track_rid@
    &&& local.stream_id@ == receiver.stream_id@
    &&& local.max_sn == capacity
}

/// Creates the end of a new track for the packets of a receiver.
pub fn new_local_end(
    codec: RTCRtpCodecCapability,
    receiver: &WebRTCReceiver,
    capacity: u16,
) -> (local: DownTrackInternal)
    requires
        capacity > 0,
    ensures
        is_local_end(local, *receiver, codec@, capacity as int),
{
    DownTrackInternal::new(
        codec,
        receiver.track_id.clone(),
        receiver.track_rid.clone(),
        receiver.stream_id.clone(),
        capacity,
    )
}

/// Whether this is a new down track for the peer `cname`, which is sent with a transceiver.
pub open spec fn is_sent_track(
    track: DownTrack,
    cname: Seq<char>,
    local: DownTrackInternal,
    transceiver: u64,
    rtx_ssrcs: Seq<u32>,
    now: u64,
) -> bool {
    &&& track.wf()
    &&& track.cname@ == cname
    &&& track.down_track_local == local
    &&& track.transceiver == Some(transceiver)
    &&& match first_ssrc(rtx_ssrcs) {
        None => track.rtx is None,
        Some(ssrc) => track.rtx matches Some(rtx) && rtx.ssrc == ssrc && rtx.sequencer.is_new(
            RTX_MAX_SN as u32,
        ),
    }
    &&& (DownTrack { transceiver: None, rtx: None, ..track }).is_fresh(track.cname, now)
}

/// Creates a new down track for the peer `cname`, which is sent with a transceiver.
pub fn new_sent_track(
    cname: String,
    local: DownTrackInternal,
    transceiver: u64,
    rtx_ssrcs: &Vec<u32>,
    now: u64,
) -> (track: DownTrack)
    requires
        local.wf(),
    ensures
        is_sent_track(track, cname@, local, transceiver, rtx_ssrcs@, now),
{
    let mut track = DownTrack::new_track_local(cname, local, now);
    let ghost fresh = track;
    track.set_transceiver(transceiver, rtx_ssrcs);
    assert((DownTrack { transceiver: None, rtx: None, ..track }) == fresh);
    track
}

fn bind_buffer(
    factory: &mut AtomicFactory,
    ssrc: u32,
    params: &RTCRtpParameters,
    o: Options,
    now: u64,
) -> (out: Vec<ExtPacket>)
    requires
        buffers_wf(*old(factory)),
        params.codecs@.len() > 0,
    ensures
        buffers_wf(*final(factory)),
        final(factory).factory.rtcp_readers == old(factory).factory.rtcp_readers,
        buffer_bound(
            old(factory).factory.rtp_buffers@,
            final(factory).factory.rtp_buffers@,
            ssrc,
            *params,
            o,
            now,
            out@,
        ),
{
    let ghost before = factory.factory.rtp_buffers@;
    let buffer = factory.get_or_new_buffer(ssrc);
    let ghost start = *buffer;
    let out = buffer.bind(params, o, now);
    proof {
        assert(start.bound_to(factory.factory.rtp_buffers@[ssrc], *params, o, now, out@));
    }
    out
}

fn join_receiver(
    receivers: &mut Registry<WebRTCReceiver>,
    peer_id: &str,
    track: RemoteTrack,
    track_id: String,
    best_quality_first: bool,
) -> (res: (String, bool, Option<usize>))
    requires
        old(receivers).wf(),
        forall|name: Seq<char>| #[trigger]
            old(receivers)@.contains_key(name) ==> old(receivers)@[name].wf(),
    ensures
        final(receivers).wf(),
        final(receivers)@[res.0@].wf(),
        res.0@ == receiver_name(old(receivers)@, track, track_id@),
        res.1 == !old(receivers)@.contains_key(track.id@),
        receiver_joined(
            old(receivers)@,
            final(receivers)@,
            peer_id@,
            track,
            track_id@,
            best_quality_first,
            res.2,
        ),
{
    let ghost before = receivers@;
    let ghost came = track;
    let ssrc: u32 = track.ssrc;
    let rid = track.rid.clone();
    let known = receivers.contains(track.id.as_str());
    let name = if known {
        track.id.clone()
    } else {
        track_id
    };
    let mut receiver: WebRTCReceiver = match receivers.remove(name.as_str()) {
        Some(found) if known => found,
        _ => WebRTCReceiver::new(
            peer_id.to_owned(),
            track.id,
            track.rid,
            track.stream_id,
            track.codec,
            track.kind,
        ),
    };
    let ghost start = receiver;
    assert(comes_in_at(before, start, peer_id@, came));
    let layer = receiver.add_up_track(rid.as_str(), ssrc, best_quality_first);
    let ghost after = receiver;
    let _none = receivers.insert(name.clone(), receiver);
    proof {
        assert(receivers@ =~= before.insert(name@, after));
        assert(took_track(
            start,
            receivers@[name@],
            came.rid@,
            came.ssrc,
            best_quality_first,
            layer,
        ));
    }
    (name, !known, layer)
}

/// A receiver whose track came in knows its buffer, and the others know theirs.
proof fn lemma_known(
    before: Map<Seq<char>, WebRTCReceiver>,
    after: Map<Seq<char>, WebRTCReceiver>,
    was: AtomicFactory,
    now: AtomicFactory,
    peer_id: Seq<char>,
    track: RemoteTrack,
    track_id: Seq<char>,
    best_quality_first: bool,
    layer: Option<usize>,
)
    requires
        receivers_wf(before, was),
        buffers_wf(now),
        forall|ssrc: u32| #[trigger]
            was.factory.rtp_buffers@.contains_key(ssrc) ==> now.factory.rtp_buffers@.contains_key(
                ssrc,
            ),
        now.factory.rtp_buffers@.contains_key(track.ssrc),
        receiver_joined(before, after, peer_id, track, track_id, best_quality_first, layer),
        after[receiver_name(before, track, track_id)].wf(),
    ensures
        receivers_wf(after, now),
{
    let name = receiver_name(before, track, track_id);
    assert forall|other: Seq<char>| #[trigger] after.contains_key(other) implies after[other].wf()
        && after[other].known_to(now) by {
        if other != name {
            assert(before.contains_key(other));
            assert(after[other] == before[other]);
            assert(before[other].known_to(was));
        } else {
            let start = choose|start: WebRTCReceiver|
                {
                    &&& #[trigger] comes_in_at(before, start, peer_id, track)
                    &&& took_track(
                        start,
                        after[name],
                        track.rid@,
                        track.ssrc,
                        best_quality_first,
                        layer,
                    )
                };
            if before.contains_key(track.id@) {
                assert(before[name].known_to(was));
            }
            let end = after[name];
            assert forall|i: int|
                0 <= i < end.layers@.len() && (#[trigger] end.layers@[i])
                    is Some implies now.factory.rtp_buffers@.contains_key(
                end.layers@[i]->Some_0.ssrc,
            ) by {
                if !start.closed && i == layer_of(track.rid@) {
                } else {
                    assert(start.layers@[i] is Some);
                }
            }
        }
    }
}

impl LocalRouter {
    /// What every operation keeps.
    pub open spec fn wf(&self) -> bool {
        &&& self.receivers.wf()
        &&& buffers_wf(self.buffer_factory)
        &&& receivers_wf(self.receivers@, self.buffer_factory)
    }

    pub fn new(id: String, room_id: String, config: RouterConfig) -> (router: Self)
        ensures
            router.wf(),
            router.id == id,
            router.room_id == room_id,
            router.config == config,
            router.receivers@ == Map::<Seq<char>, WebRTCReceiver>::empty(),
            router.buffer_factory.factory.rtp_buffers@ == Map::<u32, AtomicBuffer>::empty(),
            router.buffer_factory.factory.rtcp_readers@ == Map::<u32, RTCPForwarder>::empty(),
            router.audio_observer.threshold == if config.audio_level_threshold > 127 {
                127
            } else {
                config.audio_level_threshold
            },
            router.audio_observer.interval == config.audio_level_interval,
            router.audio_observer.expected == expected_power(
                config.audio_level_interval,
                config.audio_level_filter,
            ),
            router.audio_observer.streams@.len() == 0,
            router.audio_observer.previous@.len() == 0,
            !router.rtcp_writer,
            !router.on_add_receiver_track,
            !router.on_del_receiver_track,
    {
        Self {
            id,
            room_id,
            audio_observer: AudioObserver::new(
                config.audio_level_threshold,
                config.audio_level_interval,
                config.audio_level_filter,
            ),
            config,
            receivers: Registry::new(),
            buffer_factory: AtomicFactory::new(),
            rtcp_writer: false,
            on_add_receiver_track: false,
            on_del_receiver_track: false,
        }
    }

    pub fn id(&self) -> (id: String)
        ensures
            id@ == self.id@,
    {
        self.id.clone()
    }

    /// Takes note that someone has registered to hear of new receivers.
    pub fn register_on_add_receiver_track(&mut self)
        ensures
            *final(self) == (LocalRouter { on_add_receiver_track: true, ..*old(self) }),
    {
        self.on_add_receiver_track = true;
    }

    /// Takes note that someone has registered to hear of receivers that are gone.
    pub fn register_on_del_receiver_track(&mut self)
        ensures
            *final(self) == (LocalRouter { on_del_receiver_track: true, ..*old(self) }),
    {
        self.on_del_receiver_track = true;
    }

    /// Takes note that someone has registered to write RTCP packets.
    pub fn set_rtcp_writer(&mut self)
        ensures
            *final(self) == (LocalRouter { rtcp_writer: true, ..*old(self) }),
    {
        self.rtcp_writer = true;
    }

    /// Decides what the task that sends RTCP packets does. Packets are lost where nobody has
    /// registered to write them.
    pub fn send_rtcp(&self, event: RtcpEvent) -> (step: RtcpStep)
        ensures
            step == match event {
                RtcpEvent::Packets => if self.rtcp_writer {
                    RtcpStep::Write
                } else {
                    RtcpStep::Continue
                },
                RtcpEvent::Closed => RtcpStep::Continue,
                RtcpEvent::Stop => RtcpStep::Stop,
            },
    {
        match event {
            RtcpEvent::Packets => {
                if self.rtcp_writer {
                    RtcpStep::Write
                } else {
                    RtcpStep::Continue
                }
            },
            RtcpEvent::Closed => RtcpStep::Continue,
            RtcpEvent::Stop => RtcpStep::Stop,
        }
    }

    /// Whether `after` is this router, and `added` is what became of a track, once it came in.
    pub open spec fn took_in(
        &self,
        after: LocalRouter,
        track: RemoteTrack,
        track_id: Seq<char>,
        stream_id: Seq<char>,
        params: RTCRtpParameters,
        now: u64,
        added: AddedReceiver,
    ) -> bool {
        &&& after == LocalRouter {
            audio_observer: after.audio_observer,
            receivers: after.receivers,
            buffer_factory: after.buffer_factory,
            ..*self
        }
        &&& stream_observed(self.audio_observer, after.audio_observer, track.kind, stream_id)
        &&& after.buffer_factory.factory.rtcp_readers@
            == self.buffer_factory.factory.rtcp_readers@.insert(
            track.ssrc,
            forwarder_used(self.buffer_factory.factory.rtcp_readers@, track.ssrc),
        )
        &&& buffer_bound(
            self.buffer_factory.factory.rtp_buffers@,
            after.buffer_factory.factory.rtp_buffers@,
            track.ssrc,
            params,
            Options { max_bitrate: self.config.max_bandwidth },
            now,
            added.packets@,
        )
        &&& receiver_joined(
            self.receivers@,
            after.receivers@,
            self.id@,
            track,
            track_id,
            self.config.simulcast.best_quality_first,
            added.layer,
        )
        &&& added.receiver@ == receiver_name(self.receivers@, track, track_id)
        &&& added.published == !self.receivers@.contains_key(track.id@)
        &&& added.tells == (added.published && self.on_add_receiver_track)
    }

    /// Takes in a track of the peer: its packets are buffered, its voice is observed, and it is read
    /// in a layer of its receiver, which is created where there is none.
    ///
    /// # Arguments
    /// - `track_id`: The name of the receiver, if it is new
    /// - `stream_id`: The stream whose voice is observed
    /// - `params`: What was agreed on for the track
    pub fn add_receiver(
        &mut self,
        track: RemoteTrack,
        track_id: String,
        stream_id: String,
        params: &RTCRtpParameters,
        now: u64,
    ) -> (added: AddedReceiver)
        requires
            old(self).wf(),
            params.codecs@.len() > 0,
        ensures
            final(self).wf(),
            old(self).took_in(*final(self), track, track_id@, stream_id@, *params, now, added),
    {
        let ghost before = self.receivers@;
        let ghost was = self.buffer_factory;
        let ssrc: u32 = track.ssrc;
        match track.kind {
            RTPCodecType::Audio => {
                let ghost streams = self.audio_observer.streams@;
                self.audio_observer.add_stream(stream_id);
                assert(self.audio_observer.streams@.drop_last() =~= streams);
            },
            _ => {},
        }
        let forwarder = self.buffer_factory.get_or_new_rtcp_buffer(ssrc);
        forwarder.set_on_packets();
        let best_quality_first = self.config.simulcast.best_quality_first;
        let (receiver, published, layer) = join_receiver(
            &mut self.receivers,
            self.id.as_str(),
            track,
            track_id,
            best_quality_first,
        );
        let o = Options { max_bitrate: self.config.max_bandwidth };
        let packets = bind_buffer(&mut self.buffer_factory, ssrc, params, o, now);
        proof {
            lemma_known(
                before,
                self.receivers@,
                was,
                self.buffer_factory,
                self.id@,
                track,
                track_id@,
                best_quality_first,
                layer,
            );
        }
        AddedReceiver {
            receiver,
            published,
            tells: published && self.on_add_receiver_track,
            layer,
            packets,
        }
    }

    /// Plans how the track of a receiver is sent to a subscriber.
    ///
    /// # Arguments
    /// - `subscribed`: The tracks that are sent to the subscriber
    ///
    /// # Returns
    /// - `Error::ErrNoReceiverFound` if there is no such receiver
    pub fn plan_down_track(&self, receiver: &str, subscribed: &StreamTracks) -> (res: Result<
        DownTrackPlan,
    >)
        requires
            self.wf(),
            subscribed.wf(),
            track_capacity(self.config) > 0,
        ensures
            match res {
                Err(error) => !self.receivers@.contains_key(receiver@) && error
                    == Error::ErrNoReceiverFound,
                Ok(plan) => {
                    let found = self.receivers@[receiver@];
                    &&& self.receivers@.contains_key(receiver@)
                    &&& match number_of(
                        subscribed.of_stream(found.stream_id@),
                        found.track_id@,
                    ) {
                        Some(number) => plan == DownTrackPlan::Exists(number),
                        None => plan matches DownTrackPlan::Create(local) && is_local_end(
                            local,
                            found,
                            sent_capability(found.codec.capability@),
                            track_capacity(self.config),
                        ),
                    }
                },
            },
            router_planned(*self, receiver@, *subscribed, res),
    {
        let found = match self.receivers.get(receiver) {
            None => {
                return Err(Error::ErrNoReceiverFound);
            },
            Some(found) => found,
        };
        // Returns track if exists
        if let Some(number) = subscribed.find(found.stream_id.as_str(), found.track_id.as_str()) {
            return Ok(DownTrackPlan::Exists(number));
        }
        let capacity: u16 = (self.config.max_packet_track % 0x1_0000) as u16;
        Ok(
            DownTrackPlan::Create(
                new_local_end(sent_codec(&found.codec.capability), found, capacity),
            ),
        )
    }

    /// Stores a down track in the layer of a receiver that is available for it.
    ///
    /// # Returns
    /// - What the receiver says to the track
    pub fn store_down_track(&mut self, receiver: &str, track: DownTrack) -> (res: Result<()>)
        requires
            old(self).wf(),
            track.wf(),
            old(self).receivers@.contains_key(receiver@),
        ensures
            final(self).wf(),
            *final(self) == (LocalRouter { receivers: final(self).receivers, ..*old(self) }),
            final(self).receivers@ == old(self).receivers@.insert(
                receiver@,
                final(self).receivers@[receiver@],
            ),
            sent_to(
                old(self).receivers@[receiver@],
                final(self).receivers@[receiver@],
                track,
                old(self).config.simulcast.best_quality_first,
                res,
            ),
    {
        let best_quality_first = self.config.simulcast.best_quality_first;
        let ghost before = self.receivers@;
        let mut found: WebRTCReceiver = match self.receivers.remove(receiver) {
            Some(found) => found,
            None => {
                assert(false);
                return Err(Error::ErrNoReceiverFound);
            },
        };
        let ghost was = found;
        let res = send_to(&mut found, track, best_quality_first);
        let ghost after = found;
        let _none = self.receivers.insert(receiver.to_owned(), found);
        proof {
            assert(before[receiver@].known_to(self.buffer_factory));
            assert(self.receivers@ =~= before.insert(receiver@, after));
            assert forall|name: Seq<char>| #[trigger] self.receivers@.contains_key(name) implies
                self.receivers@[name].wf() && self.receivers@[name].known_to(
                self.buffer_factory,
            ) by {
                if name != receiver@ {
                    assert(before.contains_key(name));
                } else {
                    lemma_same_ssrcs(
                        was,
                        after,
                        track,
                        best_quality_first,
                        res,
                        self.buffer_factory,
                    );
                }
            }
        }
        res
    }

    /// Sends the track of a receiver to a subscriber, for whom a transceiver was added. It counts as
    /// one of the subscriber's tracks even where the receiver does not take it.
    ///
    /// # Arguments
    /// - `subscriber_id`: Who the track is sent to
    /// - `subscribed`: The tracks that are sent to the subscriber
    /// - `local`: The end of the track, as it was planned
    /// - `number`: The number of the new track
    pub fn add_down_track(
        &mut self,
        subscriber_id: String,
        subscribed: &mut StreamTracks,
        receiver: &str,
        local: DownTrackInternal,
        transceiver: u64,
        rtx_ssrcs: &Vec<u32>,
        number: u64,
        now: u64,
    ) -> (res: Result<()>)
        requires
            old(self).wf(),
            old(subscribed).wf(),
            local.wf(),
            old(self).receivers@.contains_key(receiver@),
        ensures
            final(self).wf(),
            final(subscribed).wf(),
            *final(self) == (LocalRouter { receivers: final(self).receivers, ..*old(self) }),
            final(self).receivers@ == old(self).receivers@.insert(
                receiver@,
                final(self).receivers@[receiver@],
            ),
            res == Ok::<(), Error>(()),
            exists|said: Result<()>| #[trigger]
                sent_new_track(
                    old(self).receivers@[receiver@],
                    final(self).receivers@[receiver@],
                    subscriber_id@,
                    local,
                    transceiver,
                    rtx_ssrcs@,
                    now,
                    old(self).config.simulcast.best_quality_first,
                    said,
                ),
            ({
                let stream_id = old(self).receivers@[receiver@].stream_id@;
                let known = old(subscribed)@.contains_key(stream_id);
                final(subscribed)@ == old(subscribed)@.insert(
                    stream_id,
                    if known {
                        old(subscribed)@[stream_id].push((local.id@, number))
                    } else {
                        seq![]
                    },
                )
            }),
    {
        let id = local.id.clone();
        let stream_id = match self.receivers.get(receiver) {
            Some(found) => found.stream_id.clone(),
            None => {
                assert(false);
                return Err(Error::ErrNoReceiverFound);
            },
        };
        let track = new_sent_track(subscriber_id, local, transceiver, rtx_ssrcs, now);
        subscribed.push_known(stream_id, TrackRef { id, number });
        assert(is_sent_track(track, subscriber_id@, local, transceiver, rtx_ssrcs@, now));
        let ghost before = self.receivers@[receiver@];
        let ghost best_quality_first = self.config.simulcast.best_quality_first;
        let _said = self.store_down_track(receiver, track);
        assert(sent_new_track(
            before,
            self.receivers@[receiver@],
            subscriber_id@,
            local,
            transceiver,
            rtx_ssrcs@,
            now,
            best_quality_first,
            _said,
        ));
        Ok(())
    }

    /// The receivers whose tracks are sent to a subscriber: the given one, or all of them. Someone
    /// who subscribes on their own is sent none. Whoever is sent a track is to agree with the server
    /// on it.
    pub fn add_down_tracks(&self, no_auto_subscribe: bool, receiver: Option<String>) -> (names: Vec<
        String,
    >)
        requires
            self.wf(),
        ensures
            views(names@) == if no_auto_subscribe {
                seq![]
            } else {
                match receiver {
                    Some(name) => seq![name@],
                    None => self.receivers.order(),
                }
            },
    {
        let mut names: Vec<String> = Vec::new();
        if no_auto_subscribe {
            assert(views(names@) =~= seq![]);
            return names;
        }
        match receiver {
            Some(name) => {
                names.push(name);
                assert(views(names@) =~= seq![name@]);
            },
            None => {
                let n: usize = self.receivers.len();
                let ghost order = self.receivers.order();
                let mut i: usize = 0;
                assert(views(names@) =~= order.take(0));
                while i < n
                    invariant
                        self.wf(),
                        order == self.receivers.order(),
                        i <= n == order.len(),
                        views(names@) == order.take(i as int),
                    decreases n - i,
                {
                    let ghost before = names@;
                    let (name, _) = self.receivers.at(i);
                    names.push(name.clone());
                    assert(views(names@) =~= views(before).push(order[i as int]));
                    assert(order.take(i + 1) =~= order.take(i as int).push(order[i as int]));
                    i = i + 1;
                }
                assert(order.take(n as int) =~= order);
            },
        }
        names
    }

    /// Takes note of a closed down track: where its sender was taken out of the connection of the
    /// subscriber, the track is forgotten.
    ///
    /// # Returns
    /// - Whether the subscriber is to agree with the server on it
    pub fn down_track_closed(
        &self,
        subscribed: &mut StreamTracks,
        stream_id: &str,
        id: &str,
        removed: bool,
    ) -> (negotiates: bool)
        requires
            old(subscribed).wf(),
        ensures
            final(subscribed).wf(),
            negotiates == removed,
            final(subscribed)@ == if removed && old(subscribed)@.contains_key(stream_id@) {
                old(subscribed)@.insert(
                    stream_id@,
                    old(subscribed)@[stream_id@].filter(
                        |track: (Seq<char>, u64)| track.0 != id@,
                    ),
                )
            } else {
                old(subscribed)@
            },
    {
        if removed {
            subscribed.remove_down_track(stream_id, id);
        }
        removed
    }

    /// Takes note of the audio level of a stream, if there is voice.
    pub fn observe_level(&mut self, stream_id: &str, voice: bool, level: u8)
        requires
            old(self).wf(),
        ensures
            final(self).wf(),
            *final(self) == (LocalRouter {
                audio_observer: final(self).audio_observer,
                ..*old(self)
            }),
            !voice ==> final(self).audio_observer == old(self).audio_observer,
            voice ==> level_observed(
                old(self).audio_observer,
                final(self).audio_observer,
                stream_id@,
                level,
            ),
    {
        if voice {
            self.audio_observer.observe(stream_id, level);
        }
    }

    /// Takes note that a receiver was closed. The voice of its stream is not observed any longer.
    pub fn receiver_closed(&mut self, kind: RTPCodecType, stream_id: &str)
        requires
            old(self).wf(),
        ensures
            final(self).wf(),
            *final(self) == (LocalRouter {
                audio_observer: final(self).audio_observer,
                ..*old(self)
            }),
            final(self).audio_observer == (AudioObserver {
                streams: final(self).audio_observer.streams,
                ..old(self).audio_observer
            }),
            final(self).audio_observer.streams@ == if kind is Audio {
                old(self).audio_observer.streams@.filter(
                    |stream: AudioStream| stream.id@ != stream_id@,
                )
            } else {
                old(self).audio_observer.streams@
            },
    {
        match kind {
            RTPCodecType::Audio => {
                self.audio_observer.remove_stream(stream_id);
            },
            _ => {},
        }
    }

    /// Looks for voice activity, once per interval.
    ///
    /// # Returns
    /// - [RoomEvent::VoiceActivity], if someone else speaks than the last time
    pub fn start_audio_observer_task(&mut self) -> (event: Option<RoomEvent>)
        requires
            old(self).wf(),
        ensures
            final(self).wf(),
            *final(self) == (LocalRouter {
                audio_observer: final(self).audio_observer,
                ..*old(self)
            }),
            old(self).audio_observer.streams@.len() == 0 ==> event is None && *final(self) == *old(
                self,
            ),
            old(self).audio_observer.streams@.len() > 0 ==> match event {
                None => old(self).audio_observer.calculated(final(self).audio_observer, None),
                Some(activity) => (activity matches RoomEvent::VoiceActivity { room_id, stream_ids }
                    && room_id@ == old(self).room_id@ && old(self).audio_observer.calculated(
                    final(self).audio_observer,
                    Some(views(stream_ids@)),
                )),
            },
    {
        if self.audio_observer.is_empty() {
            return None;
        }
        match self.audio_observer.calc() {
            Some(stream_ids) => Some(
                RoomEvent::VoiceActivity { room_id: self.room_id.clone(), stream_ids },
            ),
            None => None,
        }
    }

    /// Takes note of what the sender of a track tells about it.
    pub fn take_reports(&mut self, ssrc: u32, reports: &Vec<Report>, recv: i64)
        requires
            old(self).wf(),
            old(self).buffer_factory.factory.rtp_buffers@.contains_key(ssrc),
        ensures
            final(self).wf(),
            *final(self) == (LocalRouter {
                buffer_factory: final(self).buffer_factory,
                ..*old(self)
            }),
            final(self).buffer_factory.factory.rtcp_readers
                == old(self).buffer_factory.factory.rtcp_readers,
            final(self).buffer_factory.factory.rtp_buffers@
                == old(self).buffer_factory.factory.rtp_buffers@.insert(
                ssrc,
                reported(
                    old(self).buffer_factory.factory.rtp_buffers@[ssrc],
                    reports@,
                    recv,
                ),
            ),
    {
        let ghost was = self.buffer_factory;
        let buffer = self.buffer_factory.get_or_new_buffer(ssrc);
        note_reports(buffer, reports, recv);
        proof {
            assert(buffers_wf(self.buffer_factory));
            assert forall|name: Seq<char>| #[trigger] self.receivers@.contains_key(name) implies
                self.receivers@[name].wf() && self.receivers@[name].known_to(
                self.buffer_factory,
            ) by {
                assert(self.receivers@[name].known_to(was));
            }
        }
    }

    /// Reads the RTCP packets of a track, and takes note of what its sender tells about it.
    ///
    /// # Returns
    /// - Whether the bytes are RTCP packets
    pub fn read_reports(&mut self, ssrc: u32, raw: &[u8], recv: i64) -> (read: bool)
        requires
            old(self).wf(),
            old(self).buffer_factory.factory.rtp_buffers@.contains_key(ssrc),
        ensures
            final(self).wf(),
            *final(self) == (LocalRouter {
                buffer_factory: final(self).buffer_factory,
                ..*old(self)
            }),
            final(self).buffer_factory.factory.rtcp_readers
                == old(self).buffer_factory.factory.rtcp_readers,
            match readable_reports(raw@) {
                None => !read && *final(self) == *old(self),
                Some(reports) => read && final(self).buffer_factory.factory.rtp_buffers@
                    == old(self).buffer_factory.factory.rtp_buffers@.insert(
                    ssrc,
                    reported(old(self).buffer_factory.factory.rtp_buffers@[ssrc], reports, recv),
                ),
            },
    {
        match parse_reports(raw) {
            None => false,
            Some(reports) => {
                self.take_reports(ssrc, &reports, recv);
                true
            },
        }
    }
}

/// Whether `after` is the observer `before` once a level was observed.
pub open spec fn level_observed(
    before: AudioObserver,
    after: AudioObserver,
    stream_id: Seq<char>,
    level: u8,
) -> bool {
    let at = crate::track::audio_observer::place_of(before.streams@, stream_id);
    &&& after == AudioObserver { streams: after.streams, ..before }
    &&& after.streams@ == if at < before.streams@.len() && level <= before.threshold {
        let stream = before.streams@[at];
        before.streams@.update(
            at,
            AudioStream {
                sum: crate::track::audio_observer::wrapped(stream.sum + level),
                total: crate::track::audio_observer::wrapped(stream.total + 1),
                ..stream
            },
        )
    } else {
        before.streams@
    }
}

/// The buffer once its sender told about the track. The last sender report counts.
pub open spec fn reported(buffer: AtomicBuffer, reports: Seq<Report>, recv: i64) -> AtomicBuffer
    decreases reports.len(),
{
    if reports.len() == 0 {
        buffer
    } else {
        let before = reported(buffer, reports.drop_last(), recv);
        match reports.last() {
            Report::SenderReport { rtp_time, ntp_time } => AtomicBuffer {
                buffer: Buffer {
                    last_srrtp_time: rtp_time,
                    last_srntp_time: ntp_time,
                    last_sr_recv: recv,
                    ..before.buffer
                },
                ..before
            },
            Report::Other => before,
        }
    }
}

fn note_reports(buffer: &mut AtomicBuffer, reports: &Vec<Report>, recv: i64)
    requires
        old(buffer).wf(),
    ensures
        final(buffer).wf(),
        *final(buffer) == reported(*old(buffer), reports@, recv),
{
    let ghost before = *buffer;
    let mut i: usize = 0;
    assert(reports@.take(0) =~= Seq::<Report>::empty());
    while i < reports.len()
        invariant
            i <= reports@.len(),
            buffer.wf(),
            *buffer == reported(before, reports@.take(i as int), recv),
        decreases reports@.len() - i,
    {
        assert(reports@.take(i + 1).drop_last() =~= reports@.take(i as int));
        match reports[i] {
            Report::SenderReport { rtp_time, ntp_time } => {
                buffer.set_sender_report_data(rtp_time, ntp_time, recv);
            },
            Report::Other => {},
        }
        i = i + 1;
    }
    assert(reports@.take(i as int) =~= reports@);
}

/// The codec that a track is sent to a subscriber with.
fn sent_codec(codec: &RTCRtpCodecCapability) -> (sent: RTCRtpCodecCapability)
    ensures
        sent@ == sent_capability(codec@),
{
    let mut rtcp_feedback: Vec<RTCPFeedback> = Vec::new();
    rtcp_feedback.push(RTCPFeedback { typ: "goog-remb".to_owned(), parameter: "".to_owned() });
    rtcp_feedback.push(RTCPFeedback { typ: "nack".to_owned(), parameter: "".to_owned() });
    rtcp_feedback.push(RTCPFeedback { typ: "nack".to_owned(), parameter: "pli".to_owned() });
    let sent = RTCRtpCodecCapability {
        mime_type: codec.mime_type.clone(),
        clock_rate: codec.clock_rate,
        channels: codec.channels,
        sdp_fmtp_line: codec.sdp_fmtp_line.clone(),
        rtcp_feedback,
    };
    assert(sent@.rtcp_feedback =~= sent_capability(codec@).rtcp_feedback);
    sent
}

/// Whether `after` is the receiver `before` once a down track was stored in the layer that is
/// available for it, with the result `res`.
pub open spec fn sent_to(
    before: WebRTCReceiver,
    after: WebRTCReceiver,
    track: DownTrack,
    best_quality_first: bool,
    res: Result<()>,
) -> bool {
    let layer: usize = if before.is_simulcast {
        available_layer(before.layers@, best_quality_first)
    } else {
        0
    };
    if before.closed {
        res == Err::<(), Error>(Error::ReceiverClosed) && after == before
    } else if before.subscribed(layer as int, track) {
        res == Err::<(), Error>(Error::DuplicatedTrack(layer)) && after == before
    } else {
        res == Ok::<(), Error>(()) && before.stored(
            after,
            layer as int,
            before.prepared(track, layer),
        )
    }
}

/// Whether `after` is the receiver `before` once a new down track for the peer `cname` was stored.
pub open spec fn sent_new_track(
    before: WebRTCReceiver,
    after: WebRTCReceiver,
    cname: Seq<char>,
    local: DownTrackInternal,
    transceiver: u64,
    rtx_ssrcs: Seq<u32>,
    now: u64,
    best_quality_first: bool,
    res: Result<()>,
) -> bool {
    exists|track: DownTrack|
        {
            &&& #[trigger] is_sent_track(track, cname, local, transceiver, rtx_ssrcs, now)
            &&& sent_to(before, after, track, best_quality_first, res)
        }
}

/// Stores a down track in the layer of a receiver that is available for it.
pub fn send_to(receiver: &mut WebRTCReceiver, track: DownTrack, best_quality_first: bool) -> (res:
    Result<()>)
    requires
        old(receiver).wf(),
        track.wf(),
    ensures
        final(receiver).wf(),
        sent_to(*old(receiver), *final(receiver), track, best_quality_first, res),
{
    let layer: usize = receiver.get_available_layer(best_quality_first);
    receiver.add_down_track(track, layer)
}

/// Storing a down track keeps the SSRCs of the layers.
pub proof fn lemma_same_ssrcs(
    before: WebRTCReceiver,
    after: WebRTCReceiver,
    track: DownTrack,
    best_quality_first: bool,
    res: Result<()>,
    factory: AtomicFactory,
)
    requires
        before.wf(),
        before.known_to(factory),
        sent_to(before, after, track, best_quality_first, res),
    ensures
        after.known_to(factory),
{
    assert forall|i: int|
        0 <= i < after.layers@.len() && (#[trigger] after.layers@[i])
            is Some implies factory.factory.rtp_buffers@.contains_key(
        after.layers@[i]->Some_0.ssrc,
    ) by {
        assert(before.layers@[i] is Some);
    }
}

/// A track that comes in gets a receiver, under its own id where that is known, which takes the track
/// as the source of the layer of its resolution. A track is published just once, and a receiver that
/// is closed takes none. The receivers of other tracks are left alone.
pub proof fn law_track_that_comes_in_is_received(
    before: LocalRouter,
    after: LocalRouter,
    track: RemoteTrack,
    track_id: Seq<char>,
    stream_id: Seq<char>,
    params: RTCRtpParameters,
    now: u64,
    added: AddedReceiver,
)
    requires
        before.wf(),
        before.took_in(after, track, track_id, stream_id, params, now, added),
    ensures
        added.published <==> !before.receivers@.contains_key(track.id@),
        before.receivers@.contains_key(track.id@) ==> added.receiver@ == track.id@,
        !before.receivers@.contains_key(track.id@) ==> added.receiver@ == track_id,
        after.receivers@.contains_key(added.receiver@),
        ({
            let receiver = after.receivers@[added.receiver@];
            let open = added.published || !before.receivers@[track.id@].closed;
            &&& open ==> added.layer == Some(layer_of(track.rid@)) && receiver.ssrc_at(
                layer_of(track.rid@) as int,
            ) == track.ssrc
            &&& !open ==> added.layer is None && receiver == before.receivers@[track.id@]
            &&& added.published ==> {
                &&& receiver.track_id@ == track.id@
                &&& receiver.stream_id@ == track.stream_id@
                &&& receiver.kind == track.kind
                &&& receiver.codec == track.codec
                &&& !receiver.closed
                &&& receiver.is_simulcast <==> track.rid@.len() > 0
            }
        }),
        forall|name: Seq<char>|
            name != added.receiver@ ==> (#[trigger] after.receivers@.contains_key(name)
                <==> before.receivers@.contains_key(name)) && (before.receivers@.contains_key(name)
                ==> after.receivers@[name] == before.receivers@[name]),
{
}

/// The packets of a track that comes in are buffered under its SSRC from there on, with what was
/// agreed on for it, and the buffers of other tracks are left alone. The voice of an audio track is
/// observed for its stream, and the one of a video track is not.
pub proof fn law_track_that_comes_in_is_buffered(
    before: LocalRouter,
    after: LocalRouter,
    track: RemoteTrack,
    track_id: Seq<char>,
    stream_id: Seq<char>,
    params: RTCRtpParameters,
    now: u64,
    added: AddedReceiver,
    other: u32,
)
    requires
        before.wf(),
        before.took_in(after, track, track_id, stream_id, params, now, added),
        params.codecs@.len() > 0,
        other != track.ssrc,
    ensures
        after.buffer_factory.factory.rtp_buffers@.contains_key(track.ssrc),
        after.buffer_factory.factory.rtp_buffers@[track.ssrc].bound,
        after.buffer_factory.factory.rtcp_readers@.contains_key(track.ssrc),
        after.buffer_factory.factory.rtcp_readers@[track.ssrc].on_packets,
        after.buffer_factory.factory.rtp_buffers@.contains_key(other)
            <==> before.buffer_factory.factory.rtp_buffers@.contains_key(other),
        before.buffer_factory.factory.rtp_buffers@.contains_key(other)
            ==> after.buffer_factory.factory.rtp_buffers@[other]
            == before.buffer_factory.factory.rtp_buffers@[other],
        !before.buffer_factory.factory.rtp_buffers@.contains_key(track.ssrc)
            ==> added.packets@.len() == 0,
        track.kind is Audio ==> exists|i: int|
            0 <= i < after.audio_observer.streams@.len() && (
            #[trigger] after.audio_observer.streams@[i]).id@ == stream_id,
        track.kind is Video ==> after.audio_observer == before.audio_observer,
{
    let buffers = before.buffer_factory.factory.rtp_buffers@;
    let bound = after.buffer_factory.factory.rtp_buffers@;
    let o = Options { max_bitrate: before.config.max_bandwidth };
    let start = choose|start: AtomicBuffer|
        {
            &&& if buffers.contains_key(track.ssrc) {
                start == buffers[track.ssrc]
            } else {
                start.is_new(track.ssrc)
            }
            &&& #[trigger] start.bound_to(bound[track.ssrc], params, o, now, added.packets@)
        };
    assert(start.bound_to(bound[track.ssrc], params, o, now, added.packets@));
    if track.kind is Audio {
        let streams = after.audio_observer.streams@;
        assert(streams[streams.len() - 1].id@ == stream_id);
    }
}

/// A subscriber is sent the quality that comes first: the track is put on the best layer that there is,
/// or on the lowest one, and is on that layer from there on. A receiver without simulcast has one
/// layer.
pub proof fn law_subscriber_is_sent_the_quality_that_comes_first(
    before: WebRTCReceiver,
    after: WebRTCReceiver,
    track: DownTrack,
    best_quality_first: bool,
    res: Result<()>,
    other: int,
)
    requires
        before.wf(),
        sent_to(before, after, track, best_quality_first, res),
        res is Ok,
        0 <= other < LAYERS,
        before.layers@[other] is Some,
    ensures
        exists|layer: int|
            #![trigger after.layers@[layer]]
            {
                &&& 0 <= layer < LAYERS
                &&& before.layers@[layer] matches Some(was) && after.layers@[layer] matches Some(now)
                    && now.down_tracks@.len() == was.down_tracks@.len() + 1
                    && now.down_tracks@.last().is_same(track)
                    && now.down_tracks@.last().current_spatial_layer == layer
                &&& before.is_simulcast && best_quality_first ==> other <= layer
                &&& before.is_simulcast && !best_quality_first ==> other >= layer
                &&& !before.is_simulcast ==> layer == 0
            },
{
    let layer: usize = if before.is_simulcast {
        available_layer(before.layers@, best_quality_first)
    } else {
        0
    };
    law_available_layer_is_the_best_or_the_lowest(before.layers@, best_quality_first, other);
    let now = after.layers@[layer as int]->Some_0;
    assert(now.down_tracks@.last() == before.prepared(track, layer));
}

/// A track is sent with the codec that it came with, and subscribers may ask for lost packets, for key
/// frames, and tell their bitrate.
pub proof fn law_track_is_sent_with_its_codec(codec: Capability)
    ensures
        sent_capability(codec).mime_type == codec.mime_type,
        sent_capability(codec).clock_rate == codec.clock_rate,
        sent_capability(codec).channels == codec.channels,
        sent_capability(codec).sdp_fmtp_line == codec.sdp_fmtp_line,
        sent_capability(codec).rtcp_feedback.contains(("nack"@, ""@)),
        sent_capability(codec).rtcp_feedback.contains(("nack"@, "pli"@)),
        sent_capability(codec).rtcp_feedback.contains(("goog-remb"@, ""@)),
{
    let list = sent_capability(codec).rtcp_feedback;
    assert(list[0] == ("goog-remb"@, ""@) && list[1] == ("nack"@, ""@) && list[2] == (
        "nack"@,
        "pli"@,
    ));
}

/// The last sender report counts, whatever else is told along with it. Without one the times stay, and
/// nothing else is changed by reports.
pub proof fn law_last_sender_report_counts(
    buffer: AtomicBuffer,
    reports: Seq<Report>,
    recv: i64,
    at: int,
)
    requires
        0 <= at <= reports.len(),
        at > 0 ==> reports[at - 1] is SenderReport,
        forall|i: int| at <= i < reports.len() ==> (#[trigger] reports[i]) is Other,
    ensures
        ({
            let after = reported(buffer, reports, recv);
            &&& at == 0 ==> after == buffer
            &&& at > 0 ==> (reports[at - 1] matches Report::SenderReport { rtp_time, ntp_time }
                && after.buffer.last_srrtp_time == rtp_time && after.buffer.last_srntp_time
                == ntp_time && after.buffer.last_sr_recv == recv)
            &&& after.buffer.bucket == buffer.buffer.bucket
            &&& after.buffer.stats == buffer.buffer.stats
            &&& after.bound == buffer.bound
        }),
    decreases reports.len(),
{
    if reports.len() > 0 {
        let shorter = reports.drop_last();
        if at == reports.len() {
            lemma_reports_keep_the_rest(buffer, shorter, recv);
        } else {
            assert(reports[reports.len() - 1] is Other);
            if at > 0 {
                assert(shorter[at - 1] == reports[at - 1]);
            }
            assert forall|i: int| at <= i < shorter.len() implies (#[trigger] shorter[i])
                is Other by {
                assert(shorter[i] == reports[i]);
            }
            law_last_sender_report_counts(buffer, shorter, recv, at);
        }
    }
}

proof fn lemma_reports_keep_the_rest(buffer: AtomicBuffer, reports: Seq<Report>, recv: i64)
    ensures
        reported(buffer, reports, recv).buffer.bucket == buffer.buffer.bucket,
        reported(buffer, reports, recv).buffer.stats == buffer.buffer.stats,
        reported(buffer, reports, recv).bound == buffer.bound,
    decreases reports.len(),
{
    if reports.len() > 0 {
        lemma_reports_keep_the_rest(buffer, reports.drop_last(), recv);
    }
}

/// A level is observed of its stream as it is by the observer itself.
pub proof fn law_level_reaches_the_observer(
    before: AudioObserver,
    after: AudioObserver,
    stream_id: Seq<char>,
    level: u8,
)
    requires
        level_observed(before, after, stream_id, level),
    ensures
        before.observed(after, stream_id, level),
{
}

/// A new down track is for the peer and the end that it was made for; it sends nothing yet, and
/// resends on a stream of its own just where the transceiver has one.
pub proof fn law_new_track_is_for_its_peer(
    track: DownTrack,
    cname: Seq<char>,
    local: DownTrackInternal,
    transceiver: u64,
    rtx_ssrcs: Seq<u32>,
    now: u64,
)
    requires
        is_sent_track(track, cname, local, transceiver, rtx_ssrcs, now),
    ensures
        track.cname@ == cname,
        track.down_track_local == local,
        track.transceiver == Some(transceiver),
        !track.closed,
        track.sn_offset == 0,
        track.ts_offset == 0,
        track.last_sn == 0,
        track.last_ts == 0,
        track.packet_count == 0,
        track.octet_count == 0,
        rtx_ssrcs.len() == 0 ==> track.rtx is None,
        rtx_ssrcs.len() > 0 && rtx_ssrcs[0] != 0 ==> (track.rtx matches Some(rtx) && rtx.ssrc
            == rtx_ssrcs[0]),
{
    if rtx_ssrcs.len() > 0 && rtx_ssrcs[0] != 0 {
        law_first_given_ssrc_is_taken(rtx_ssrcs, 0);
    }
}

/// Whether `res` is how the track of a receiver is sent to a subscriber.
pub open spec fn router_planned(
    router: LocalRouter,
    receiver: Seq<char>,
    subscribed: StreamTracks,
    res: Result<DownTrackPlan>,
) -> bool {
    match res {
        Err(error) => !router.receivers@.contains_key(receiver) && error
            == Error::ErrNoReceiverFound,
        Ok(plan) => {
            let found = router.receivers@[receiver];
            &&& router.receivers@.contains_key(receiver)
            &&& match number_of(subscribed.of_stream(found.stream_id@), found.track_id@) {
                Some(number) => plan == DownTrackPlan::Exists(number),
                None => plan matches DownTrackPlan::Create(local) && is_local_end(
                    local,
                    found,
                    sent_capability(found.codec.capability@),
                    track_capacity(router.config),
                ),
            }
        },
    }
}

/// A track that the subscriber has already is not made again; one that it does not have is made with
/// the id and the stream of the receiver. Only a receiver that is not known fails.
pub proof fn law_track_is_made_once_for_a_subscriber(
    router: LocalRouter,
    receiver: Seq<char>,
    subscribed: StreamTracks,
    res: Result<DownTrackPlan>,
)
    requires
        router_planned(router, receiver, subscribed, res),
    ensures
        res is Ok <==> router.receivers@.contains_key(receiver),
        res matches Err(error) ==> error == Error::ErrNoReceiverFound,
        res matches Ok(plan) ==> {
            let found = router.receivers@[receiver];
            let sent = subscribed.of_stream(found.stream_id@);
            &&& plan is Create <==> forall|i: int|
                0 <= i < sent.len() ==> (#[trigger] sent[i]).0 != found.track_id@
            &&& forall|i: int|
                0 <= i < sent.len() && (#[trigger] sent[i]).0 == found.track_id@ && (forall|k: int|
                    0 <= k < i ==> (#[trigger] sent[k]).0 != found.track_id@) ==> plan
                    == DownTrackPlan::Exists(sent[i].1)
            &&& plan matches DownTrackPlan::Create(local) ==> local.id@ == found.track_id@
                && local.stream_id@ == found.stream_id@ && local.rid@ == found.track_rid@
        },
{
    if let Ok(plan) = res {
        let found = router.receivers@[receiver];
        law_first_track_with_the_id_is_found(
            subscribed.of_stream(found.stream_id@),
            found.track_id@,
        );
    }
}

/// A new receiver is that of its track, and is made for layers just where the track has one.
pub proof fn law_new_receiver_is_that_of_its_track(
    receiver: WebRTCReceiver,
    peer_id: Seq<char>,
    track: RemoteTrack,
)
    requires
        is_new_receiver(receiver, peer_id, track),
    ensures
        receiver.peer_id@ == peer_id,
        receiver.track_id@ == track.id@,
        receiver.track_rid@ == track.rid@,
        receiver.stream_id@ == track.stream_id@,
        receiver.codec == track.codec,
        receiver.kind == track.kind,
        receiver.is_simulcast <==> track.rid@.len() > 0,
        !receiver.closed,
        forall|layer: int| receiver.layer_at(layer) is None,
{
}

/// A track that comes in changes nothing of its router but the receivers, the buffers and the streams
/// that are observed. Someone has registered for the RTCP packets of the track from then on, and those
/// of the other tracks are not touched.
pub proof fn law_router_stays_itself(
    before: LocalRouter,
    after: LocalRouter,
    track: RemoteTrack,
    track_id: Seq<char>,
    stream_id: Seq<char>,
    params: RTCRtpParameters,
    now: u64,
    added: AddedReceiver,
    other: u32,
)
    requires
        before.took_in(after, track, track_id, stream_id, params, now, added),
        other != track.ssrc,
    ensures
        after.id == before.id,
        after.room_id == before.room_id,
        after.config == before.config,
        after.rtcp_writer == before.rtcp_writer,
        ({
            let was = before.buffer_factory.factory.rtcp_readers@;
            let now = after.buffer_factory.factory.rtcp_readers@;
            &&& now.contains_key(track.ssrc)
            &&& now[track.ssrc].on_packets
            &&& was.contains_key(track.ssrc) ==> now[track.ssrc].ssrc == was[track.ssrc].ssrc
            &&& !was.contains_key(track.ssrc) ==> now[track.ssrc].ssrc == track.ssrc
            &&& now.contains_key(other) <==> was.contains_key(other)
            &&& was.contains_key(other) ==> now[other] == was[other]
        }),
{
}

/// A track is published just where no receiver has its name yet, and told of where someone has
/// registered for it. The voice of an audio track is observed from then on, and counts from zero.
pub proof fn law_new_track_is_published_and_observed(
    before: LocalRouter,
    after: LocalRouter,
    track: RemoteTrack,
    track_id: Seq<char>,
    stream_id: Seq<char>,
    params: RTCRtpParameters,
    now: u64,
    added: AddedReceiver,
)
    requires
        before.took_in(after, track, track_id, stream_id, params, now, added),
    ensures
        added.published <==> !before.receivers@.contains_key(track.id@),
        added.tells ==> added.published && before.on_add_receiver_track,
        added.published && before.on_add_receiver_track ==> added.tells,
        track.kind is Audio ==> {
            let heard = after.audio_observer.streams@;
            &&& heard.len() == before.audio_observer.streams@.len() + 1
            &&& heard.last().id@ == stream_id
            &&& heard.last().sum == 0
            &&& heard.last().total == 0
            &&& heard.drop_last() == before.audio_observer.streams@
        },
        track.kind !is Audio ==> after.audio_observer.streams == before.audio_observer.streams,
        after.audio_observer.expected == before.audio_observer.expected,
        after.audio_observer.threshold == before.audio_observer.threshold,
{
}

} // verus!
