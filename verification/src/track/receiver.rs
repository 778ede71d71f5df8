use vstd::prelude::*;

use crate::packet::buffer::ExtPacket;
use crate::packet::params::{RTCRtpCodecParameters, RTPCodecType};
use crate::text::same;
use crate::track::downtrack::{less, DownTrack, DownTrackInternal, DownTrackType, Forwarded};
use crate::track::error::{Error, Result};
use crate::track::forward::law_only_the_current_layer_is_sent;
use crate::track::simulcast::{layer_of, spatial_layer};

verus! {

/// How many spatial layers a receiver has.
pub const LAYERS: usize = 3;

/// How long a key frame is not asked for again, in milliseconds.
pub const PLI_THRESHOLD_MILLIS: u64 = 500;

/// A spatial layer of a track: the track that comes in, and those that go out.
pub struct ReceiverLayer {
    /// Whether the packets of the layer are read.
    pub active: bool,
    pub disposed_tracks: Vec<DownTrack>,
    pub down_tracks: Vec<DownTrack>,
    pub spatial: u8,
    /// SSRC of the track that comes in, which is that of its buffer too.
    pub ssrc: u32,
}

/// The place of the first track with the given id, or the number of tracks.
pub open spec fn track_place(tracks: Seq<DownTrack>, id: Seq<char>) -> int
    decreases tracks.len(),
{
    if tracks.len() == 0 || tracks[0].down_track_local.id@ == id {
        0
    } else {
        1 + track_place(tracks.skip(1), id)
    }
}

/// All tracks are well-formed.
pub open spec fn all_wf(tracks: Seq<DownTrack>) -> bool {
    forall|i: int| 0 <= i < tracks.len() ==> (#[trigger] tracks[i]).wf()
}

fn find_track(tracks: &Vec<DownTrack>, id: &str) -> (at: usize)
    ensures
        at == track_place(tracks@, id@),
        at <= tracks@.len(),
{
    let mut i: usize = 0;
    assert(tracks@.skip(0) =~= tracks@);
    while i < tracks.len()
        invariant
            i <= tracks@.len(),
            track_place(tracks@, id@) == i + track_place(tracks@.skip(i as int), id@),
        decreases tracks@.len() - i,
    {
        if same(tracks[i].down_track_local.id.as_str(), id) {
            return i;
        }
        assert(tracks@.skip(i as int).skip(1) =~= tracks@.skip(i + 1));
        i = i + 1;
    }
    i
}

/// Whether the track is among the tracks.
pub open spec fn holds_track(tracks: Seq<DownTrack>, dt: DownTrack) -> bool {
    exists|i: int| 0 <= i < tracks.len() && (#[trigger] tracks[i]).is_same(dt)
}

fn has_track(tracks: &Vec<DownTrack>, dt: &DownTrack) -> (res: bool)
    ensures
        res == holds_track(tracks@, *dt),
{
    let mut i: usize = 0;
    while i < tracks.len()
        invariant
            i <= tracks@.len(),
            forall|k: int| 0 <= k < i ==> !(#[trigger] tracks@[k]).is_same(*dt),
        decreases tracks@.len() - i,
    {
        if tracks[i].same_track(dt) {
            return true;
        }
        i = i + 1;
    }
    false
}

/// The tracks without the one at `at`, whose place the last one takes.
pub open spec fn swap_removed(tracks: Seq<DownTrack>, at: int) -> Seq<DownTrack> {
    tracks.update(at, tracks.last()).drop_last()
}

impl ReceiverLayer {
    /// What every operation keeps.
    pub open spec fn wf(&self) -> bool {
        all_wf(self.down_tracks@) && all_wf(self.disposed_tracks@)
    }

    /// Creates the layer for a track with the given SSRC.
    pub fn new(ssrc: u32, spatial_layer: u8) -> (layer: Self)
        ensures
            layer.is_new(ssrc, spatial_layer),
    {
        Self {
            active: false,
            disposed_tracks: Vec::new(),
            down_tracks: Vec::new(),
            spatial: spatial_layer,
            ssrc,
        }
    }

    /// Whether this is a layer that nothing goes out of yet.
    pub open spec fn is_new(&self, ssrc: u32, spatial_layer: u8) -> bool {
        &&& !self.active
        &&& self.disposed_tracks@.len() == 0
        &&& self.down_tracks@.len() == 0
        &&& self.spatial == spatial_layer
        &&& self.ssrc == ssrc
    }

    /// Moves every down track into disposed tracks.
    pub fn dispose_all_down_tracks(&mut self)
        ensures
            *final(self) == (ReceiverLayer {
                disposed_tracks: final(self).disposed_tracks,
                down_tracks: final(self).down_tracks,
                ..*old(self)
            }),
            final(self).down_tracks@.len() == 0,
            final(self).disposed_tracks@ == old(self).disposed_tracks@ + old(self).down_tracks@,
    {
        self.disposed_tracks.append(&mut self.down_tracks);
    }

    pub fn is_active(&self) -> (active: bool)
        ensures
            active == self.active,
    {
        self.active
    }

    /// Takes note that the packets of the layer are read from now on.
    pub fn run_ingestion(&mut self)
        ensures
            *final(self) == (ReceiverLayer { active: true, ..*old(self) }),
    {
        self.active = true;
    }

    /// Takes the track at the given place out of the layer. A layer that nothing goes out of is not
    /// read any longer.
    ///
    /// # Returns
    /// - The track, which is to be closed
    pub fn take_down_track(&mut self, at: usize) -> (dt: DownTrack)
        requires
            old(self).wf(),
            at < old(self).down_tracks@.len(),
        ensures
            final(self).wf(),
            dt == old(self).down_tracks@[at as int],
            final(self).down_tracks@ == swap_removed(old(self).down_tracks@, at as int),
            *final(self) == (ReceiverLayer {
                active: old(self).active && final(self).down_tracks@.len() > 0,
                down_tracks: final(self).down_tracks,
                ..*old(self)
            }),
    {
        let ghost before = self.down_tracks@;
        let dt = self.down_tracks.swap_remove(at);
        assert(self.down_tracks@ =~= swap_removed(before, at as int));
        if self.down_tracks.len() == 0 {
            self.active = false;
        }
        dt
    }

    /// Takes the track with the given id out of the layer. A layer that nothing goes out of is not
    /// read any longer.
    pub fn remove_down_track(&mut self, id: &str) -> (res: Option<DownTrack>)
        requires
            old(self).wf(),
        ensures
            final(self).wf(),
            ({
                let at = track_place(old(self).down_tracks@, id@);
                if at < old(self).down_tracks@.len() {
                    &&& 0 <= at
                    &&& res == Some(old(self).down_tracks@[at])
                    &&& final(self).down_tracks@ == swap_removed(old(self).down_tracks@, at)
                    &&& *final(self) == (ReceiverLayer {
                        active: old(self).active && final(self).down_tracks@.len() > 0,
                        down_tracks: final(self).down_tracks,
                        ..*old(self)
                    })
                } else {
                    res is None && *final(self) == *old(self)
                }
            }),
    {
        let at: usize = find_track(&self.down_tracks, id);
        if at >= self.down_tracks.len() {
            return None;
        }
        Some(self.take_down_track(at))
    }

    pub fn spatial_layer(&self) -> (layer: u8)
        ensures
            layer == self.spatial,
    {
        self.spatial
    }

    /// Sets the spatial layer of every track, where it can be, and moves it into disposed tracks.
    fn retarget(&mut self, target_layer: u8)
        requires
            old(self).wf(),
        ensures
            final(self).wf(),
            old(self).retargeted(*final(self), target_layer),
    {
        let ghost before = self.down_tracks@;
        let mut i: usize = 0;
        while i < self.down_tracks.len()
            invariant
                self.wf(),
                *self == (ReceiverLayer { down_tracks: self.down_tracks, ..*old(self) }),
                i <= before.len() == self.down_tracks@.len(),
                forall|k: int|
                    0 <= k < i ==> self.down_tracks@[k] == (#[trigger] before[k]).targeted(
                        target_layer,
                        false,
                    ),
                forall|k: int| i <= k < before.len() ==> self.down_tracks@[k] == before[k],
            decreases before.len() - i,
        {
            let _res = self.down_tracks[i].set_target_spatial_layer(target_layer, false);
            i = i + 1;
        }
        assert(self.down_tracks@ =~= before.map_values(
            |track: DownTrack| track.targeted(target_layer, false),
        ));
        self.dispose_all_down_tracks();
    }

    /// Whether `after` is this layer once its tracks were told to switch to another layer.
    pub open spec fn retargeted(&self, after: ReceiverLayer, target_layer: u8) -> bool {
        &&& after == ReceiverLayer {
            disposed_tracks: after.disposed_tracks,
            down_tracks: after.down_tracks,
            ..*self
        }
        &&& after.down_tracks@.len() == 0
        &&& after.disposed_tracks@ == self.disposed_tracks@ + self.down_tracks@.map_values(
            |track: DownTrack| track.targeted(target_layer, false),
        )
    }
}

/// What the reader of a layer hears.
#[derive(Debug, Eq, PartialEq, Clone, Copy, Structural)]
pub enum IngestionEvent {
    /// A packet was read.
    Packet,
    /// Nothing can be read any longer.
    Failed,
    /// The layer was switched on or off.
    Active(bool),
}

/// What the reader of a layer does.
#[derive(Debug, Eq, PartialEq, Clone, Copy, Structural)]
pub enum IngestionStep {
    /// Hands the packet on.
    HandOn,
    /// Reads the next packet.
    Continue,
    /// Stops.
    Stop,
}

/// Decides what the reader of a layer does.
pub fn ingestion_step(event: IngestionEvent) -> (step: IngestionStep)
    ensures
        step == match event {
            IngestionEvent::Packet => IngestionStep::HandOn,
            IngestionEvent::Failed => IngestionStep::Stop,
            IngestionEvent::Active(active) => if active {
                IngestionStep::Continue
            } else {
                IngestionStep::Stop
            },
        },
{
    match event {
        IngestionEvent::Packet => IngestionStep::HandOn,
        IngestionEvent::Failed => IngestionStep::Stop,
        IngestionEvent::Active(active) => {
            if active {
                IngestionStep::Continue
            } else {
                IngestionStep::Stop
            }
        },
    }
}

/// A request for a key frame.
#[derive(Debug, Eq, PartialEq, Clone, Copy, Structural)]
pub struct PictureLossIndication {
    pub sender_ssrc: u32,
    pub media_ssrc: u32,
}

/// A receiver of a media track, and of the tracks that its packets are forwarded to.
///
/// It contains 3 layers for simulcast tracks. For simple tracks, a single layer (#0) is used.
pub struct WebRTCReceiver {
    pub peer_id: String,
    pub track_id: String,
    pub track_rid: String,
    pub stream_id: String,
    pub kind: RTPCodecType,
    pub closed: bool,
    /// When a key frame was last asked for, in milliseconds.
    pub last_pli: Option<u64>,
    pub codec: RTCRtpCodecParameters,
    pub layers: Vec<Option<ReceiverLayer>>,
    pub is_simulcast: bool,
}

/// A layer is well-formed where it is, and knows its place.
pub open spec fn layer_wf(layers: Seq<Option<ReceiverLayer>>, i: int) -> bool {
    layers[i] matches Some(layer) ==> layer.wf() && layer.spatial == i
}

/// The layer that is available for the next track: the first one, or where the best quality is
/// asked for the last one, of those from `from` on.
pub open spec fn available_layer(
    layers: Seq<Option<ReceiverLayer>>,
    best_quality_first: bool,
) -> usize {
    if best_quality_first {
        if layers[2] is Some {
            2
        } else if layers[1] is Some {
            1
        } else {
            0
        }
    } else {
        if layers[0] is Some {
            0
        } else if layers[1] is Some {
            1
        } else if layers[2] is Some {
            2
        } else {
            0
        }
    }
}

impl WebRTCReceiver {
    /// What every operation keeps.
    pub open spec fn wf(&self) -> bool {
        &&& self.layers@.len() == LAYERS
        &&& forall|i: int| 0 <= i < LAYERS ==> #[trigger] layer_wf(self.layers@, i)
    }

    /// The layer with the given number, if there is one.
    pub open spec fn layer_at(&self, layer: int) -> Option<ReceiverLayer> {
        if 0 <= layer < self.layers@.len() {
            self.layers@[layer]
        } else {
            None
        }
    }

    /// SSRC of the track in a layer, or 0.
    pub open spec fn ssrc_at(&self, layer: int) -> u32 {
        match self.layer_at(layer) {
            Some(found) => found.ssrc,
            None => 0,
        }
    }

    pub fn new(
        peer_id: String,
        track_id: String,
        track_rid: String,
        stream_id: String,
        codec: RTCRtpCodecParameters,
        kind: RTPCodecType,
    ) -> (receiver: Self)
        ensures
            receiver.wf(),
            receiver.peer_id == peer_id,
            receiver.track_id == track_id,
            receiver.track_rid == track_rid,
            receiver.stream_id == stream_id,
            receiver.codec == codec,
            receiver.kind == kind,
            receiver.is_simulcast == (track_rid@.len() > 0),
            !receiver.closed,
            receiver.last_pli is None,
            forall|i: int| 0 <= i < LAYERS ==> (#[trigger] receiver.layers@[i]) is None,
    {
        let is_simulcast = !same(track_rid.as_str(), "");
        proof {
            reveal_strlit("");
            assert(track_rid@.len() == 0 ==> track_rid@ =~= ""@);
        }
        let mut layers: Vec<Option<ReceiverLayer>> = Vec::new();
        layers.push(None);
        layers.push(None);
        layers.push(None);
        Self {
            peer_id,
            track_id,
            track_rid,
            stream_id,
            kind,
            closed: false,
            last_pli: None,
            codec,
            layers,
            is_simulcast,
        }
    }

    /// Whether a key frame was asked for within the last `threshold` milliseconds. If not, it is
    /// taken to be asked for now.
    pub fn is_recent_pli(&mut self, threshold: u64, now: u64) -> (recent: bool)
        ensures
            recent == (old(self).last_pli matches Some(last) && less(now as int, last as int)
                < threshold),
            *final(self) == if recent {
                *old(self)
            } else {
                WebRTCReceiver { last_pli: Some(now), ..*old(self) }
            },
    {
        match self.last_pli {
            Some(last) => {
                if now.saturating_sub(last) < threshold {
                    true
                } else {
                    self.last_pli = Some(now);
                    false
                }
            },
            None => {
                self.last_pli = Some(now);
                false
            },
        }
    }

    /// Whether `after` and `res` come of asking for a key frame.
    pub open spec fn pli_sent(
        &self,
        after: WebRTCReceiver,
        res: Option<PictureLossIndication>,
        sender_ssrc: u32,
        media_ssrc: u32,
        now: u64,
    ) -> bool {
        let recent = self.last_pli matches Some(last) && now - last < PLI_THRESHOLD_MILLIS;
        &&& res == if recent {
            None
        } else {
            Some(PictureLossIndication { sender_ssrc, media_ssrc })
        }
        &&& after == if recent {
            *self
        } else {
            WebRTCReceiver { last_pli: Some(now), ..*self }
        }
    }

    /// The request for a key frame to send, unless one was sent within the last half second.
    pub fn send_pli(&mut self, sender_ssrc: u32, media_ssrc: u32, now: u64) -> (res: Option<
        PictureLossIndication,
    >)
        ensures
            ({
                let recent = old(self).last_pli matches Some(last) && now - last
                    < PLI_THRESHOLD_MILLIS;
                &&& res == if recent {
                    None
                } else {
                    Some(PictureLossIndication { sender_ssrc, media_ssrc })
                }
                &&& *final(self) == if recent {
                    *old(self)
                } else {
                    WebRTCReceiver { last_pli: Some(now), ..*old(self) }
                }
            }),
            old(self).pli_sent(*final(self), res, sender_ssrc, media_ssrc, now),
    {
        if self.is_recent_pli(PLI_THRESHOLD_MILLIS, now) {
            None
        } else {
            Some(PictureLossIndication { sender_ssrc, media_ssrc })
        }
    }

    pub fn layer(&self, layer: usize) -> (res: Option<&ReceiverLayer>)
        ensures
            match self.layer_at(layer as int) {
                None => res is None,
                Some(found) => res == Some(&found),
            },
    {
        if layer < self.layers.len() {
            match &self.layers[layer] {
                Some(found) => Some(found),
                None => None,
            }
        } else {
            None
        }
    }

    /// Sets the metadata of the tracks.
    pub fn set_track_meta(&mut self, track_id: String, stream_id: String)
        ensures
            *final(self) == (WebRTCReceiver { track_id, stream_id, ..*old(self) }),
    {
        self.stream_id = stream_id;
        self.track_id = track_id;
    }

    /// SSRC of the track located in a given spatial (quality) layer.
    /// # Returns
    /// - SSRC of the track located in the given spatial layer.
    /// - If the layer is out of bounds, returns 0.
    /// - If the track is not bound to the layer, returns 0.
    pub fn ssrc(&self, layer: usize) -> (ssrc: u32)
        ensures
            ssrc == self.ssrc_at(layer as int),
    {
        match self.layer(layer) {
            Some(found) => found.ssrc,
            None => 0,
        }
    }

    /// Whether the tracks of a layer are told to switch to the layer that a new track came in for.
    pub open spec fn switches(
        &self,
        layer: int,
        target: int,
        best_quality_first: bool,
        has_best: bool,
        has_lowest: bool,
    ) -> bool {
        &&& self.is_simulcast
        &&& best_quality_first ==> (has_best || target == 2) && layer < target
        &&& !best_quality_first ==> (has_lowest || target == 0) && layer > target
    }

    /// Whether `after` is this receiver once a track came in for the layer `target`.
    pub open spec fn up_track_added(
        &self,
        after: WebRTCReceiver,
        ssrc: u32,
        target: int,
        best_quality_first: bool,
    ) -> bool {
        &&& after == WebRTCReceiver { layers: after.layers, ..*self }
        &&& after.layers@.len() == LAYERS
        &&& after.layers@[target] matches Some(layer) && layer.is_new(ssrc, target as u8)
        &&& forall|i: int|
            0 <= i < LAYERS && i != target ==> layer_after(
                self.layers@[i],
                #[trigger] after.layers@[i],
                self.switches(
                    i,
                    target,
                    best_quality_first,
                    self.layers@[2] is Some,
                    self.layers@[0] is Some,
                ),
                target as u8,
            )
    }

    /// Adds an upstream track to forward packets from.
    ///
    /// # Arguments
    /// - `rid`: Restriction id of the track.
    /// - `ssrc`: SSRC of the track.
    /// - `best_quality_first`: If true and the track is simulcast, the tracks of lower layers switch to the new one.
    ///   If false, those of higher layers do.
    ///
    /// # Returns
    /// - `None` if the receiver is closed.
    /// - `Some(layer)` where `layer` is the layer assigned for the uptrack.
    pub fn add_up_track(&mut self, rid: &str, ssrc: u32, best_quality_first: bool) -> (res: Option<
        usize,
    >)
        requires
            old(self).wf(),
        ensures
            final(self).wf(),
            old(self).closed ==> res is None && *final(self) == *old(self),
            !old(self).closed ==> res == Some(layer_of(rid@)) && old(self).up_track_added(
                *final(self),
                ssrc,
                layer_of(rid@) as int,
                best_quality_first,
            ),
    {
        if self.closed {
            return None;
        }
        let layer: usize = spatial_layer(rid);
        // Create or update the layer
        self.layers.set(layer, Some(ReceiverLayer::new(ssrc, layer as u8)));
        assert forall|i: int| 0 <= i < LAYERS implies #[trigger] layer_wf(self.layers@, i) by {
            assert(layer_wf(old(self).layers@, i));
        }
        if self.is_simulcast {
            let has_best = self.layers[2].is_some();
            let has_lowest = self.layers[0].is_some();
            if best_quality_first && (has_best || layer == 2) {
                self.switch_layers(0, layer, layer);
            } else if !best_quality_first && (has_lowest || layer == 0) {
                self.switch_layers(layer + 1, LAYERS, layer);
            }
        }
        Some(layer)
    }

    /// Tells the tracks of the layers `from..to` to switch to the layer `target`.
    fn switch_layers(&mut self, from: usize, to: usize, target: usize)
        requires
            old(self).wf(),
            from <= to <= LAYERS,
            target < LAYERS,
        ensures
            final(self).wf(),
            *final(self) == (WebRTCReceiver { layers: final(self).layers, ..*old(self) }),
            forall|i: int|
                0 <= i < LAYERS ==> layer_after(
                    old(self).layers@[i],
                    #[trigger] final(self).layers@[i],
                    from <= i < to,
                    target as u8,
                ),
    {
        let ghost before = self.layers@;
        let mut i: usize = from;
        while i < to
            invariant
                self.wf(),
                from <= i <= to <= LAYERS,
                *self == (WebRTCReceiver { layers: self.layers, ..*old(self) }),
                before.len() == LAYERS,
                forall|k: int|
                    0 <= k < LAYERS ==> layer_after(
                        before[k],
                        #[trigger] self.layers@[k],
                        from <= k < i,
                        target as u8,
                    ),
            decreases to - i,
        {
            let ghost so_far = self.layers@;
            assert(layer_wf(self.layers@, i as int));
            assert(so_far[i as int] == before[i as int]);
            if let Some(layer) = self.layers[i].as_mut() {
                layer.retarget(target as u8);
            }
            proof {
                assert forall|k: int| 0 <= k < LAYERS implies #[trigger] layer_wf(
                    self.layers@,
                    k,
                ) by {
                    assert(layer_wf(so_far, k));
                }
                assert forall|k: int| 0 <= k < LAYERS implies layer_after(
                    before[k],
                    #[trigger] self.layers@[k],
                    from <= k < i + 1,
                    target as u8,
                ) by {
                    if k != i {
                        assert(self.layers@[k] == so_far[k]);
                    }
                }
            }
            i = i + 1;
        }
    }

    /// Whether a down track counts as stored in a layer. There is no place for it in a layer that
    /// does not exist.
    pub open spec fn subscribed(&self, layer: int, dt: DownTrack) -> bool {
        match self.layer_at(layer) {
            Some(found) => holds_track(found.down_tracks@, dt),
            None => true,
        }
    }

    pub fn down_track_subscribed(&self, layer: usize, dt: &DownTrack) -> (res: bool)
        ensures
            res == self.subscribed(layer as int, *dt),
    {
        match self.layer(layer) {
            None => true,
            Some(found) => has_track(&found.down_tracks, dt),
        }
    }

    /// The down track as it is stored in a layer.
    pub open spec fn prepared(&self, track: DownTrack, layer: usize) -> DownTrack {
        if self.is_simulcast {
            DownTrack {
                current_spatial_layer: layer as u8,
                target_spatial_layer: layer as u8,
                temporal_layer: 2,
                max_spatial_layer: 2,
                max_temporal_layer: 2,
                track_type: DownTrackType::SimulcastDownTrack,
                down_track_local: DownTrackInternal {
                    last_ssrc: self.ssrc_at(layer as int),
                    ..track.down_track_local
                },
                ..track
            }
        } else {
            DownTrack {
                current_spatial_layer: 0,
                target_spatial_layer: 0,
                temporal_layer: 0,
                track_type: DownTrackType::SimpleDownTrack,
                ..track
            }
        }
    }

    /// Whether `after` and `res` come of adding a down track to a layer.
    pub open spec fn down_track_added(
        &self,
        after: WebRTCReceiver,
        track: DownTrack,
        layer: usize,
        res: Result<()>,
    ) -> bool {
        if self.closed {
            res == Err::<(), Error>(Error::ReceiverClosed) && after == *self
        } else if self.subscribed(layer as int, track) {
            res == Err::<(), Error>(Error::DuplicatedTrack(layer)) && after == *self
        } else {
            res == Ok::<(), Error>(()) && self.stored(
                after,
                layer as int,
                self.prepared(track, layer),
            )
        }
    }

    /// Stores a [DownTrack] in this receiver.
    ///
    /// # Arguments
    /// - `track`: [DownTrack] to store.
    /// - `layer`: Where the downtrack will be stored. The layer should be provided by [Self::get_available_layer]
    ///
    /// # Errors
    /// - `Error::ReceiverClosed` if the receiver is closed
    /// - `Error::DuplicatedTrack` if the track is stored in the layer, or there is no such layer
    pub fn add_down_track(&mut self, track: DownTrack, layer: usize) -> (res: Result<()>)
        requires
            old(self).wf(),
            track.wf(),
        ensures
            final(self).wf(),
            old(self).closed ==> res == Err::<(), Error>(Error::ReceiverClosed) && *final(self)
                == *old(self),
            !old(self).closed && old(self).subscribed(layer as int, track) ==> res == Err::<
                (),
                Error,
            >(Error::DuplicatedTrack(layer)) && *final(self) == *old(self),
            !old(self).closed && !old(self).subscribed(layer as int, track) ==> res == Ok::<
                (),
                Error,
            >(()) && old(self).stored(
                *final(self),
                layer as int,
                old(self).prepared(track, layer),
            ),
            old(self).down_track_added(*final(self), track, layer, res),
    {
        if self.closed {
            return Err(Error::ReceiverClosed);
        }
        if self.down_track_subscribed(layer, &track) {
            return Err(Error::DuplicatedTrack(layer));
        }
        let mut track = track;
        if self.is_simulcast {
            track.set_initial_layers(layer as u8, 2);
            track.set_max_spatial_layer(2);
            track.set_max_temporal_layer(2);
            track.set_last_ssrc(self.ssrc(layer));
            track.set_track_type(DownTrackType::SimulcastDownTrack);
        } else {
            track.set_initial_layers(0, 0);
            track.set_track_type(DownTrackType::SimpleDownTrack);
        }
        match self.store_down_track(layer, track) {
            Ok(_) => Ok(()),
            Err(err) => Err(err),
        }
    }

    /// Whether `after` is this receiver with a down track stored in a layer.
    pub open spec fn stored(&self, after: WebRTCReceiver, layer: int, track: DownTrack) -> bool {
        &&& self.layer_at(layer) matches Some(before) && after.layer_at(layer) matches Some(found)
            && found.down_tracks@ == before.down_tracks@.push(track) && found == (ReceiverLayer {
            down_tracks: found.down_tracks,
            ..before
        })
        &&& after.layers@ == self.layers@.update(layer, after.layers@[layer])
        &&& after == WebRTCReceiver { layers: after.layers, ..*self }
    }

    /// Stores a down track in a layer, and returns how many there are.
    pub fn store_down_track(&mut self, layer: usize, dt: DownTrack) -> (res: Result<usize>)
        requires
            old(self).wf(),
            dt.wf(),
        ensures
            final(self).wf(),
            match old(self).layer_at(layer as int) {
                None => res == Err::<usize, Error>(Error::ReceiverLayerNotAvailable(layer))
                    && *final(self) == *old(self),
                Some(before) => {
                    &&& old(self).stored(*final(self), layer as int, dt)
                    &&& res matches Ok(len) && len == before.down_tracks@.len() + 1
                },
            },
    {
        if self.layer(layer).is_none() {
            return Err(Error::ReceiverLayerNotAvailable(layer));
        }
        let ghost so_far = self.layers@;
        assert(layer_wf(self.layers@, layer as int));
        let mut len: usize = 0;
        if let Some(found) = self.layers[layer].as_mut() {
            found.down_tracks.push(dt);
            len = found.down_tracks.len();
        }
        proof {
            assert forall|k: int| 0 <= k < LAYERS implies #[trigger] layer_wf(self.layers@, k) by {
                assert(layer_wf(so_far, k));
            }
            assert(self.layers@ =~= so_far.update(layer as int, self.layers@[layer as int]));
        }
        Ok(len)
    }

    /// Gets the next available layer for the next track.
    ///
    /// # Arguments
    /// - `best_quality_first`: If true, returns the highest quality layer available. Otherwise, returns the lowest available.
    ///
    /// # Returns
    /// - Layer index (0-2) if an available layer is found for a simulcast track.
    /// - Layer 0 for a simple track.
    pub fn get_available_layer(&self, best_quality_first: bool) -> (layer: usize)
        requires
            self.wf(),
        ensures
            layer == if self.is_simulcast {
                available_layer(self.layers@, best_quality_first)
            } else {
                0
            },
    {
        let mut layer: usize = 0;
        if self.is_simulcast {
            let mut idx: usize = 0;
            while idx < LAYERS
                invariant
                    self.wf(),
                    self.is_simulcast,
                    idx <= LAYERS,
                    !best_quality_first ==> layer == 0 && forall|k: int|
                        0 <= k < idx ==> (#[trigger] self.layers@[k]) is None,
                    best_quality_first ==> layer < LAYERS && (layer == 0 || self.layers@[layer as int] is Some)
                        && layer <= idx,
                    best_quality_first ==> forall|k: int|
                        layer < k < idx ==> (#[trigger] self.layers@[k]) is None,
                decreases LAYERS - idx,
            {
                if self.layers[idx].is_some() {
                    layer = idx;
                    if !best_quality_first {
                        return layer;
                    }
                }
                idx = idx + 1;
            }
        }
        layer
    }

    /// Removes the downtrack with matching `id` on given `layer`.
    ///
    /// # Returns
    /// - The downtrack, which is to be closed, if there was one
    ///
    /// # Errors
    /// - `Error::ReceiverClosed` if the receiver is closed
    /// - `Error::FullSpatialLayer` if there is no such layer
    pub fn delete_down_track(&mut self, layer: usize, id: &str) -> (res: Result<Option<DownTrack>>)
        requires
            old(self).wf(),
        ensures
            final(self).wf(),
            old(self).closed ==> res == Err::<Option<DownTrack>, Error>(Error::ReceiverClosed)
                && *final(self) == *old(self),
            !old(self).closed && old(self).layer_at(layer as int) is None ==> res == Err::<
                Option<DownTrack>,
                Error,
            >(Error::FullSpatialLayer(layer as u8)) && *final(self) == *old(self),
            !old(self).closed && old(self).layer_at(layer as int) is Some ==> {
                let before = old(self).layers@[layer as int]->Some_0;
                let at = track_place(before.down_tracks@, id@);
                &&& *final(self) == (WebRTCReceiver { layers: final(self).layers, ..*old(self) })
                &&& res == Ok::<Option<DownTrack>, Error>(
                    if at < before.down_tracks@.len() {
                        Some(before.down_tracks@[at])
                    } else {
                        None
                    },
                )
                &&& final(self).layers@ == old(self).layers@.update(
                    layer as int,
                    final(self).layers@[layer as int],
                )
                &&& final(self).layers@[layer as int] matches Some(after) && if at
                    < before.down_tracks@.len() {
                    &&& after.down_tracks@ == swap_removed(before.down_tracks@, at)
                    &&& after == ReceiverLayer {
                        active: before.active && after.down_tracks@.len() > 0,
                        down_tracks: after.down_tracks,
                        ..before
                    }
                } else {
                    after == before
                }
            },
    {
        if self.closed {
            return Err(Error::ReceiverClosed);
        }
        if self.layer(layer).is_none() {
            return Err(Error::FullSpatialLayer(layer as u8));
        }
        let ghost so_far = self.layers@;
        assert(layer_wf(self.layers@, layer as int));
        let mut removed: Option<DownTrack> = None;
        if let Some(found) = self.layers[layer].as_mut() {
            removed = found.remove_down_track(id);
        }
        proof {
            assert forall|k: int| 0 <= k < LAYERS implies #[trigger] layer_wf(self.layers@, k) by {
                assert(layer_wf(so_far, k));
            }
            assert(self.layers@ =~= so_far.update(layer as int, self.layers@[layer as int]));
        }
        Ok(removed)
    }
}

/// Whether `after` is the layer `before`, whose tracks were told to switch where `switches` says so.
pub open spec fn layer_after(
    before: Option<ReceiverLayer>,
    after: Option<ReceiverLayer>,
    switches: bool,
    target: u8,
) -> bool {
    match (before, after) {
        (Some(b), Some(a)) => if switches {
            b.retargeted(a, target)
        } else {
            a == b
        },
        (None, None) => true,
        _ => false,
    }
}

/// A down track that was stored in a layer counts as stored there, so that it is not stored twice.
pub proof fn law_stored_track_is_subscribed(
    before: WebRTCReceiver,
    after: WebRTCReceiver,
    layer: usize,
    track: DownTrack,
)
    requires
        before.stored(after, layer as int, before.prepared(track, layer)),
    ensures
        after.subscribed(layer as int, track),
{
    let found = after.layer_at(layer as int)->Some_0;
    let last = found.down_tracks@.len() - 1;
    assert(found.down_tracks@[last] == before.prepared(track, layer));
    assert(found.down_tracks@[last].is_same(track));
}

/// A track that was added to a layer of a simulcast receiver is on that layer, and takes its packets
/// from the source of that layer: once it is bound, enabled and in sync, it sends every packet of the
/// layer, and none of another one. It stands behind the tracks that were there, under its own names.
pub proof fn law_added_track_gets_the_packets_of_its_layer(
    before: WebRTCReceiver,
    after: WebRTCReceiver,
    track: DownTrack,
    layer: usize,
    res: Result<()>,
)
    requires
        before.wf(),
        before.is_simulcast,
        before.down_track_added(after, track, layer, res),
        res is Ok,
    ensures
        layer < LAYERS,
        after.ssrc_at(layer as int) == before.ssrc_at(layer as int),
        after.layers@[layer as int] matches Some(found) && {
            let stored = found.down_tracks@.last();
            &&& before.layers@[layer as int] matches Some(was) && found.down_tracks@.drop_last()
                == was.down_tracks@
            &&& stored.current_spatial_layer == layer
            &&& stored.target_spatial_layer == layer
            &&& stored.max_spatial_layer == LAYERS - 1
            &&& stored.temporal_layer == 2
            &&& stored.max_temporal_layer == 2
            &&& stored.track_type is SimulcastDownTrack
            &&& stored.down_track_local.last_ssrc == found.ssrc
            &&& stored.cname == track.cname
            &&& stored.transceiver == track.transceiver
            &&& stored.down_track_local.id == track.down_track_local.id
            &&& stored.down_track_local.stream_id == track.down_track_local.stream_id
            &&& stored.down_track_local.media_codec == track.down_track_local.media_codec
            &&& forall|next: DownTrack, out: Forwarded, ep: ExtPacket, at: usize, alive: bool|
                {
                    &&& #[trigger] stored.forwarded(next, out, ep, at, alive)
                    &&& at < LAYERS
                    &&& stored.down_track_local.bound
                    &&& stored.down_track_local.enabled
                    &&& stored.down_track_local.write_stream
                    &&& !stored.down_track_local.re_sync
                } ==> (out is Packet <==> at == layer)
        },
{
    let found = after.layers@[layer as int]->Some_0;
    let was = before.layers@[layer as int]->Some_0;
    assert(found.down_tracks@.drop_last() =~= was.down_tracks@);
    let stored = found.down_tracks@.last();
    assert forall|next: DownTrack, out: Forwarded, ep: ExtPacket, at: usize, alive: bool|
        {
            &&& #[trigger] stored.forwarded(next, out, ep, at, alive)
            &&& at < LAYERS
            &&& stored.down_track_local.bound
            &&& stored.down_track_local.enabled
            &&& stored.down_track_local.write_stream
            &&& !stored.down_track_local.re_sync
        } implies (out is Packet <==> at == layer) by {
        law_only_the_current_layer_is_sent(stored, next, out, ep, at, alive);
    }
}

/// A track that was added to a receiver without simulcast is a simple one, which sends the packets of
/// every layer.
pub proof fn law_added_track_is_simple_without_simulcast(
    before: WebRTCReceiver,
    after: WebRTCReceiver,
    track: DownTrack,
    layer: usize,
    res: Result<()>,
)
    requires
        before.wf(),
        !before.is_simulcast,
        before.down_track_added(after, track, layer, res),
        res is Ok,
    ensures
        layer < LAYERS,
        after.layers@[layer as int] matches Some(found) && {
            let stored = found.down_tracks@.last();
            &&& stored.track_type is SimpleDownTrack
            &&& stored.current_spatial_layer == 0
            &&& stored.target_spatial_layer == 0
            &&& stored.temporal_layer == 0
            &&& stored.max_spatial_layer == track.max_spatial_layer
            &&& stored.max_temporal_layer == track.max_temporal_layer
            &&& stored.down_track_local == track.down_track_local
            &&& stored.cname == track.cname
        },
{
}

/// A track is added just where the receiver is open, the layer exists and does not have the track
/// yet. Otherwise the receiver stays as it was. Other layers stay as they were in any case.
pub proof fn law_track_is_added_once_to_an_open_receiver(
    before: WebRTCReceiver,
    after: WebRTCReceiver,
    track: DownTrack,
    layer: usize,
    res: Result<()>,
)
    requires
        before.wf(),
        before.down_track_added(after, track, layer, res),
    ensures
        res is Ok <==> !before.closed && layer < LAYERS && (before.layers@[layer as int] matches Some(
            found,
        ) && forall|i: int|
            0 <= i < found.down_tracks@.len() ==> !((
            #[trigger] found.down_tracks@[i]).down_track_local.id@ == track.down_track_local.id@
                && found.down_tracks@[i].down_track_local.stream_id@
                == track.down_track_local.stream_id@ && found.down_tracks@[i].cname@
                == track.cname@)),
        res is Err ==> after == before,
        before.closed ==> res == Err::<(), Error>(Error::ReceiverClosed),
        !before.closed && res is Err ==> res == Err::<(), Error>(Error::DuplicatedTrack(layer)),
        forall|i: int|
            0 <= i < LAYERS && i != layer ==> #[trigger] after.layers@[i] == before.layers@[i],
        after.closed == before.closed,
        after.is_simulcast == before.is_simulcast,
{
    if layer < LAYERS && before.layers@[layer as int] is Some {
        let tracks = before.layers@[layer as int]->Some_0.down_tracks@;
        if holds_track(tracks, track) {
            let i = choose|i: int| 0 <= i < tracks.len() && (#[trigger] tracks[i]).is_same(track);
            assert(tracks[i].is_same(track));
            assert(tracks[i].down_track_local.id@ == track.down_track_local.id@);
        }
    }
}

/// The layer for the next track exists where any does. Where the best quality comes first, there is
/// none above it, and otherwise none below it.
pub proof fn law_available_layer_is_the_best_or_the_lowest(
    layers: Seq<Option<ReceiverLayer>>,
    best_quality_first: bool,
    other: int,
)
    requires
        layers.len() == LAYERS,
        0 <= other < LAYERS,
        layers[other] is Some,
    ensures
        available_layer(layers, best_quality_first) < LAYERS,
        layers[available_layer(layers, best_quality_first) as int] is Some,
        best_quality_first ==> other <= available_layer(layers, best_quality_first),
        !best_quality_first ==> other >= available_layer(layers, best_quality_first),
{
}

/// A track that comes in is the source of the layer of its resolution, from which nothing goes out
/// yet. The other layers keep their sources.
pub proof fn law_up_track_is_the_source_of_its_layer(
    before: WebRTCReceiver,
    after: WebRTCReceiver,
    ssrc: u32,
    target: int,
    best_quality_first: bool,
    other: int,
)
    requires
        before.wf(),
        0 <= target < LAYERS,
        0 <= other < LAYERS,
        before.up_track_added(after, ssrc, target, best_quality_first),
    ensures
        after.ssrc_at(target) == ssrc,
        after.layers@[target] matches Some(layer) && layer.spatial == target
            && layer.down_tracks@.len() == 0 && layer.disposed_tracks@.len() == 0,
        other != target ==> after.ssrc_at(other) == before.ssrc_at(other) && (
        after.layers@[other] is Some <==> before.layers@[other] is Some),
        after.closed == before.closed,
        after.track_id == before.track_id,
        after.stream_id == before.stream_id,
{
    assert(layer_after(
        before.layers@[other],
        after.layers@[other],
        before.switches(
            other,
            target,
            best_quality_first,
            before.layers@[2] is Some,
            before.layers@[0] is Some,
        ),
        target as u8,
    ) || other == target);
}

/// When the track with the best quality comes in and the best quality comes first, the tracks of all
/// lower layers are told to switch to it, and those of higher layers stay; when the lowest one comes
/// first, the tracks of all higher layers are told to switch. None is lost: those that are told to
/// switch wait among the disposed ones of their layer.
pub proof fn law_tracks_switch_to_the_wanted_quality(
    before: WebRTCReceiver,
    after: WebRTCReceiver,
    ssrc: u32,
    target: int,
    best_quality_first: bool,
    other: int,
    i: int,
)
    requires
        before.wf(),
        0 <= target < LAYERS,
        0 <= other < LAYERS,
        other != target,
        before.up_track_added(after, ssrc, target, best_quality_first),
        before.layers@[other] matches Some(was) && 0 <= i < was.down_tracks@.len(),
    ensures
        before.layers@[other] matches Some(was) && after.layers@[other] matches Some(now) && {
            let track = was.down_tracks@[i];
            let moved = now.disposed_tracks@[was.disposed_tracks@.len() + i];
            // Where the track goes up to the best layer, or down to the lowest one
            let leaves = before.is_simulcast && if best_quality_first {
                other < target && (target == 2 || before.layers@[2] is Some)
            } else {
                other > target && (target == 0 || before.layers@[0] is Some)
            };
            &&& !leaves ==> now == was
            &&& leaves ==> {
                &&& now.down_tracks@.len() == 0
                &&& now.disposed_tracks@.len() == was.disposed_tracks@.len()
                    + was.down_tracks@.len()
                &&& moved.down_track_local == track.down_track_local
                &&& moved.cname == track.cname
                &&& moved.current_spatial_layer == track.current_spatial_layer
                &&& track.track_type is SimulcastDownTrack && track.current_spatial_layer != target
                    && track.max_spatial_layer >= target ==> moved.target_spatial_layer == target
                &&& track.track_type is SimulcastDownTrack && track.current_spatial_layer != target
                    && track.max_spatial_layer < target ==> moved == track
                &&& track.track_type is SimpleDownTrack ==> moved == track
            }
        },
{
    assert(layer_after(
        before.layers@[other],
        after.layers@[other],
        before.switches(
            other,
            target,
            best_quality_first,
            before.layers@[2] is Some,
            before.layers@[0] is Some,
        ),
        target as u8,
    ));
}

/// The track that is taken out of a layer by its id is the first one with that id. All others stay.
pub proof fn law_only_the_named_track_is_taken(tracks: Seq<DownTrack>, id: Seq<char>)
    ensures
        0 <= track_place(tracks, id) <= tracks.len(),
        track_place(tracks, id) < tracks.len() ==> tracks[track_place(
            tracks,
            id,
        )].down_track_local.id@ == id,
        forall|i: int|
            0 <= i < track_place(tracks, id) ==> (#[trigger] tracks[i]).down_track_local.id@ != id,
        track_place(tracks, id) < tracks.len() ==> swap_removed(
            tracks,
            track_place(tracks, id),
        ).to_multiset() == tracks.to_multiset().remove(tracks[track_place(tracks, id)]),
    decreases tracks.len(),
{
    if tracks.len() > 0 && tracks[0].down_track_local.id@ != id {
        let rest = tracks.skip(1);
        law_only_the_named_track_is_taken(rest, id);
        let at = track_place(rest, id);
        assert forall|i: int| 0 <= i < 1 + at implies (#[trigger] tracks[i]).down_track_local.id@
            != id by {
            if i > 0 {
                assert(rest[i - 1] == tracks[i]);
            }
        }
    }
    let at = track_place(tracks, id);
    if at < tracks.len() {
        lemma_swap_removed(tracks, at);
    }
}

/// Taking out a track and putting the last one in its place leaves the others.
proof fn lemma_swap_removed(tracks: Seq<DownTrack>, at: int)
    requires
        0 <= at < tracks.len(),
    ensures
        swap_removed(tracks, at).to_multiset() == tracks.to_multiset().remove(tracks[at]),
{
    broadcast use vstd::seq_lib::group_to_multiset_ensures;

    let last = tracks.last();
    let swapped = tracks.update(at, last);
    assert(swapped.drop_last() =~= swapped.remove(swapped.len() - 1));
    vstd::seq_lib::to_multiset_update(tracks, at, last);
    vstd::seq_lib::to_multiset_remove(swapped, swapped.len() - 1);
    let before = tracks.to_multiset();
    assert(before.insert(last).remove(tracks[at]).remove(last) =~= before.remove(tracks[at])) by {
        assert(before.count(tracks[at]) > 0) by {
            assert(tracks.contains(tracks[at]));
        }
        assert(before.count(last) > 0) by {
            assert(tracks.contains(tracks[tracks.len() - 1]));
        }
    }
}

/// A key frame is asked for at most every half second: a request follows another one just where at
/// least 500 milliseconds went by, and it is sent where none was sent before.
pub proof fn law_key_frames_are_asked_for_every_half_second(
    before: WebRTCReceiver,
    after: WebRTCReceiver,
    res: Option<PictureLossIndication>,
    sender_ssrc: u32,
    media_ssrc: u32,
    now: u64,
    next: WebRTCReceiver,
    again: Option<PictureLossIndication>,
    later: u64,
)
    requires
        before.pli_sent(after, res, sender_ssrc, media_ssrc, now),
        after.pli_sent(next, again, sender_ssrc, media_ssrc, later),
        now <= later,
    ensures
        before.last_pli is None ==> res is Some,
        res matches Some(pli) ==> pli.sender_ssrc == sender_ssrc && pli.media_ssrc == media_ssrc,
        res is Some ==> (again is Some <==> later - now >= 500),
        res is None ==> after == before,
        after.layers == before.layers,
        after.closed == before.closed,
{
}

/// A track counts as stored in a layer that holds it, and in a layer that does not exist, where it
/// cannot be stored.
pub proof fn law_track_is_subscribed_where_it_is_held(
    receiver: WebRTCReceiver,
    layer: int,
    dt: DownTrack,
)
    ensures
        receiver.layer_at(layer) is None ==> receiver.subscribed(layer, dt),
        receiver.layer_at(layer) matches Some(found) ==> (receiver.subscribed(layer, dt)
            <==> exists|i: int|
            0 <= i < found.down_tracks@.len() && (#[trigger] found.down_tracks@[i]).is_same(dt)),
{
}

} // verus!
