use vstd::prelude::*;

use crate::packet::buffer::ExtPacket;
use crate::track::downtrack::{DownTrack, Forwarded};
use crate::track::error::{Error, Result};
use crate::track::forward::{
    law_forwarding_keeps_the_rest, law_only_the_current_layer_is_sent,
};
use crate::track::receiver::{
    all_wf, law_only_the_named_track_is_taken, layer_wf, swap_removed, track_place,
    PictureLossIndication, ReceiverLayer, WebRTCReceiver, LAYERS, PLI_THRESHOLD_MILLIS,
};

verus! {

/// What the reader of a layer hears.
pub enum ReadEvent {
    /// A packet arrived.
    Packet(ExtPacket),
    /// Packets were missed.
    Lagged,
    /// No packet will arrive any longer.
    Closed,
    /// The buffer of the layer was closed.
    BufferClosed,
}

/// What comes of an event of a layer.
pub struct ForwardOutcome {
    /// What becomes of a packet on each down track of the layer.
    pub forwarded: Vec<Forwarded>,
    /// Down tracks to close.
    pub closed: Vec<DownTrack>,
    /// A request for a key frame to send.
    pub pli: Option<PictureLossIndication>,
}

/// The down tracks of a layer, those to close, and whether the layer is read, while disposed tracks
/// return to it.
pub type Returning = (Seq<DownTrack>, Seq<DownTrack>, bool);

/// A disposed track returns to the layer. One that comes from another layer takes the place of the
/// track with its id, which is closed.
pub open spec fn return_track(so_far: Returning, dt: DownTrack, spatial: u8) -> Returning {
    let (tracks, closed, active) = so_far;
    let at = track_place(tracks, dt.down_track_local.id@);
    let back = DownTrack { current_spatial_layer: spatial, ..dt };
    if dt.current_spatial_layer != spatial && at < tracks.len() {
        (
            swap_removed(tracks, at).push(back),
            closed.push(tracks[at]),
            active && tracks.len() > 1,
        )
    } else {
        (tracks.push(back), closed, active)
    }
}

/// Disposed tracks return to the layer, one after the other.
pub open spec fn return_tracks(start: Returning, disposed: Seq<DownTrack>, spatial: u8) -> Returning
    decreases disposed.len(),
{
    if disposed.len() == 0 {
        start
    } else {
        return_track(
            return_tracks(start, disposed.drop_last(), spatial),
            disposed.last(),
            spatial,
        )
    }
}

impl ReceiverLayer {
    /// Whether `after` is this layer once its disposed tracks have returned, and `closed` holds the
    /// tracks to close.
    pub open spec fn returned(&self, after: ReceiverLayer, closed: Seq<DownTrack>) -> bool {
        let result = return_tracks(
            (self.down_tracks@, seq![], self.active),
            self.disposed_tracks@,
            self.spatial,
        );
        &&& after == ReceiverLayer {
            active: result.2,
            down_tracks: after.down_tracks,
            disposed_tracks: after.disposed_tracks,
            ..*self
        }
        &&& after.down_tracks@ == result.0
        &&& after.disposed_tracks@.len() == 0
        &&& closed == result.1
    }

    /// Lets the disposed tracks return to the layer.
    ///
    /// # Returns
    /// - Tracks to close
    pub fn remove_disposed_tracks(&mut self) -> (closed: Vec<DownTrack>)
        requires
            old(self).wf(),
        ensures
            final(self).wf(),
            old(self).returned(*final(self), closed@),
    {
        let mut disposed: Vec<DownTrack> = Vec::new();
        std::mem::swap(&mut disposed, &mut self.disposed_tracks);
        let ghost waiting = disposed@;
        let ghost start: Returning = (self.down_tracks@, seq![], self.active);
        let ghost mut done: int = 0;
        let mut closed: Vec<DownTrack> = Vec::new();
        let spatial: u8 = self.spatial;
        proof {
            assert(waiting.take(0) =~= Seq::<DownTrack>::empty());
            assert(waiting.skip(0) =~= waiting);
        }
        while disposed.len() > 0
            invariant
                self.wf(),
                all_wf(waiting),
                spatial == self.spatial,
                0 <= done <= waiting.len(),
                disposed@ == waiting.skip(done),
                self.disposed_tracks@.len() == 0,
                *self == (ReceiverLayer {
                    active: self.active,
                    down_tracks: self.down_tracks,
                    disposed_tracks: self.disposed_tracks,
                    ..*old(self)
                }),
                (self.down_tracks@, closed@, self.active) == return_tracks(
                    start,
                    waiting.take(done),
                    spatial,
                ),
            decreases disposed@.len(),
        {
            let ghost so_far: Returning = (self.down_tracks@, closed@, self.active);
            let mut dt = disposed.remove(0);
            proof {
                assert(dt == waiting[done]);
                assert(dt.wf());
                assert(waiting.take(done + 1).drop_last() =~= waiting.take(done));
                assert(waiting.take(done + 1).last() == dt);
                assert(disposed@ =~= waiting.skip(done + 1));
                done = done + 1;
            }
            let ghost given = dt;
            if dt.current_spatial_layer() != spatial {
                let id = dt.id();
                if let Some(replaced) = self.remove_down_track(id.as_str()) {
                    closed.push(replaced);
                }
            }
            dt.switch_spatial_layer_forced(spatial);
            self.down_tracks.push(dt);
            proof {
                let result = return_track(so_far, given, spatial);
                assert(self.down_tracks@ =~= result.0);
                assert(closed@ =~= result.1);
                assert(self.active == result.2);
            }
        }
        assert(waiting.take(done) =~= waiting);
        closed
    }

    /// Whether `after` is this layer once a packet was forwarded to its tracks.
    pub open spec fn all_forwarded(
        &self,
        after: ReceiverLayer,
        out: Seq<Forwarded>,
        pkt: ExtPacket,
        layer: usize,
    ) -> bool {
        &&& after == ReceiverLayer { down_tracks: after.down_tracks, ..*self }
        &&& after.down_tracks@.len() == self.down_tracks@.len()
        &&& out.len() == self.down_tracks@.len()
        &&& forall|i: int|
            0 <= i < out.len() ==> track_forwarded(
                self.down_tracks@[i],
                after.down_tracks@[i],
                #[trigger] out[i],
                pkt,
                layer,
            )
    }

    /// Forwards a packet to every track of the layer.
    pub fn forward(&mut self, pkt: &ExtPacket, layer: usize) -> (out: Vec<Forwarded>)
        requires
            old(self).wf(),
        ensures
            final(self).wf(),
            old(self).all_forwarded(*final(self), out@, *pkt, layer),
    {
        let ghost before = self.down_tracks@;
        let mut out: Vec<Forwarded> = Vec::new();
        let mut i: usize = 0;
        while i < self.down_tracks.len()
            invariant
                self.wf(),
                *self == (ReceiverLayer { down_tracks: self.down_tracks, ..*old(self) }),
                i <= before.len() == self.down_tracks@.len(),
                out@.len() == i,
                forall|k: int|
                    0 <= k < i ==> track_forwarded(
                        before[k],
                        self.down_tracks@[k],
                        #[trigger] out@[k],
                        *pkt,
                        layer,
                    ),
                forall|k: int| i <= k < before.len() ==> self.down_tracks@[k] == before[k],
            decreases before.len() - i,
        {
            let ghost so_far = self.down_tracks@;
            let forwarded = forward_to(&mut self.down_tracks[i], pkt, layer);
            out.push(forwarded);
            proof {
                assert(self.down_tracks@ =~= so_far.update(i as int, self.down_tracks@[i as int]));
                assert forall|k: int| 0 <= k < i + 1 implies track_forwarded(
                    before[k],
                    self.down_tracks@[k],
                    #[trigger] out@[k],
                    *pkt,
                    layer,
                ) by {}
            }
            i = i + 1;
        }
        out
    }
}

/// Whether `after` and `out` come of forwarding a packet on the track `before`, whose receiver is
/// there.
#[verifier::opaque]
pub open spec fn track_forwarded(
    before: DownTrack,
    after: DownTrack,
    out: Forwarded,
    pkt: ExtPacket,
    layer: usize,
) -> bool {
    before.forwarded(after, out, pkt, layer, true)
}

fn forward_to(track: &mut DownTrack, pkt: &ExtPacket, layer: usize) -> (out: Forwarded)
    requires
        old(track).wf(),
    ensures
        final(track).wf(),
        track_forwarded(*old(track), *final(track), out, *pkt, layer),
{
    reveal(track_forwarded);
    track.forward_rtp(pkt, layer, true)
}

impl WebRTCReceiver {
    /// Whether `after` is this receiver with the layer `layer` changed to `found`.
    pub open spec fn with_layer(
        &self,
        after: WebRTCReceiver,
        layer: int,
        found: ReceiverLayer,
    ) -> bool {
        &&& after == WebRTCReceiver { layers: after.layers, ..*self }
        &&& after.layers@ == self.layers@.update(layer, Some(found))
    }

    /// Whether `after` is this receiver, and `res` is the result, once the reader of a layer heard
    /// `event`.
    pub open spec fn handled(
        &self,
        after: WebRTCReceiver,
        res: Result<ForwardOutcome>,
        layer: usize,
        event: ReadEvent,
        sender_ssrc: u32,
        now: u64,
    ) -> bool {
        &&& res is Err <==> self.layer_at(layer as int) is Some && event is Closed
        &&& res matches Err(err) ==> err == Error::ErrChannelSend && after == *self
        &&& res matches Ok(outcome) ==> match self.layer_at(layer as int) {
            None => outcome.is_nothing() && after == *self,
            Some(before) => match event {
                ReadEvent::Packet(pkt) => exists|ready: ReceiverLayer|
                    #![trigger ready.down_tracks]
                    {
                        &&& if pkt.key_frame {
                            before.returned(ready, outcome.closed@)
                        } else {
                            ready == before && outcome.closed@.len() == 0
                        }
                        &&& after.layer_at(layer as int) matches Some(found) && ready.all_forwarded(
                            found,
                            outcome.forwarded@,
                            pkt,
                            layer,
                        ) && self.with_layer(after, layer as int, found)
                        &&& outcome.pli is None
                    },
                ReadEvent::Lagged => {
                    let recent = self.last_pli matches Some(last) && now - last
                        < PLI_THRESHOLD_MILLIS;
                    &&& outcome.forwarded@.len() == 0
                    &&& outcome.closed@.len() == 0
                    &&& outcome.pli == if recent {
                        None
                    } else {
                        Some(PictureLossIndication { sender_ssrc, media_ssrc: before.ssrc })
                    }
                    &&& after == if recent {
                        *self
                    } else {
                        WebRTCReceiver { last_pli: Some(now), ..*self }
                    }
                },
                ReadEvent::BufferClosed => {
                    &&& outcome.forwarded@.len() == 0
                    &&& outcome.pli is None
                    &&& after.layer_at(layer as int) matches Some(found) && before.returned(
                        found,
                        outcome.closed@,
                    ) && self.with_layer(after, layer as int, found)
                },
                ReadEvent::Closed => false,
            },
        }
    }

    /// Handles what the reader of a layer hears: a packet is forwarded to the down tracks of the
    /// layer. With a key frame, and when the buffer is closed, the disposed tracks return first.
    ///
    /// # Arguments
    /// - `layer`: Layer to listen.
    /// - `sender_ssrc`: SSRC to ask for a key frame with.
    ///
    /// # Errors
    /// - `Error::ErrChannelSend` if no packet will arrive any longer
    #[verifier::rlimit(30)]
    pub fn forward_rtp_packet_with(
        &mut self,
        layer: usize,
        event: ReadEvent,
        sender_ssrc: u32,
        now: u64,
    ) -> (res: Result<ForwardOutcome>)
        requires
            old(self).wf(),
        ensures
            final(self).wf(),
            old(self).handled(*final(self), res, layer, event, sender_ssrc, now),
    {
        let mut outcome = ForwardOutcome {
            forwarded: Vec::new(),
            closed: Vec::new(),
            pli: None,
        };
        if self.layer(layer).is_none() {
            return Ok(outcome);
        }
        let ghost so_far = self.layers@;
        assert(layer_wf(self.layers@, layer as int));
        match event {
            ReadEvent::Packet(pkt) => {
                if let Some(found) = self.layers[layer].as_mut() {
                    if pkt.key_frame {
                        outcome.closed = found.remove_disposed_tracks();
                    }
                    let ghost ready = *found;
                    outcome.forwarded = found.forward(&pkt, layer);
                    assert(ready.down_tracks == ready.down_tracks);
                }
            },
            ReadEvent::Lagged => {
                let media_ssrc: u32 = self.ssrc(layer);
                outcome.pli = self.send_pli(sender_ssrc, media_ssrc, now);
                return Ok(outcome);
            },
            ReadEvent::Closed => {
                return Err(Error::ErrChannelSend);
            },
            ReadEvent::BufferClosed => {
                if let Some(found) = self.layers[layer].as_mut() {
                    outcome.closed = found.remove_disposed_tracks();
                }
            },
        }
        proof {
            assert forall|k: int| 0 <= k < LAYERS implies #[trigger] layer_wf(self.layers@, k) by {
                assert(layer_wf(so_far, k));
            }
            assert(self.layers@ =~= so_far.update(layer as int, self.layers@[layer as int]));
        }
        Ok(outcome)
    }
}

impl WebRTCReceiver {
    /// Handles what the reader of a layer hears. A key frame is asked for with an SSRC by chance.
    ///
    /// # Arguments
    /// - `layer`: Layer to listen.
    ///
    /// # Errors
    /// - `Error::ErrChannelSend` if no packet will arrive any longer
    pub fn forward_rtp_packet(&mut self, layer: usize, event: ReadEvent, now: u64) -> (res: Result<
        ForwardOutcome,
    >)
        requires
            old(self).wf(),
        ensures
            final(self).wf(),
            exists|sender_ssrc: u32| #[trigger]
                old(self).handled(*final(self), res, layer, event, sender_ssrc, now),
    {
        self.forward_rtp_packet_with(layer, event, random_ssrc(), now)
    }
}

/// Calls `rand::random`, which returns any number.
#[verifier::external_body]
fn random_ssrc() -> (ssrc: u32) {
    rand::random::<u32>()
}

impl ForwardOutcome {
    /// Nothing comes of the event.
    pub open spec fn is_nothing(&self) -> bool {
        self.forwarded@.len() == 0 && self.closed@.len() == 0 && self.pli is None
    }
}

/// A packet of a layer is sent on every track of the layer that is ready for it: one that is bound,
/// enabled, in sync, and either simple or on that layer. Other layers are left alone.
pub proof fn law_packet_goes_to_every_track_of_its_layer(
    before: WebRTCReceiver,
    after: WebRTCReceiver,
    outcome: ForwardOutcome,
    layer: usize,
    pkt: ExtPacket,
    sender_ssrc: u32,
    now: u64,
    i: int,
)
    requires
        before.wf(),
        before.handled(after, Ok(outcome), layer, ReadEvent::Packet(pkt), sender_ssrc, now),
        !pkt.key_frame,
        before.layer_at(layer as int) matches Some(found) && 0 <= i < found.down_tracks@.len(),
    ensures
        before.layer_at(layer as int) matches Some(found) && {
            let track = found.down_tracks@[i];
            let local = track.down_track_local;
            &&& outcome.forwarded@.len() == found.down_tracks@.len()
            &&& local.bound && local.enabled && local.write_stream && !local.re_sync && (
            track.track_type is SimpleDownTrack || track.current_spatial_layer == layer)
                ==> outcome.forwarded@[i] is Packet
            &&& !local.bound || !local.enabled || track.track_type is SimulcastDownTrack
                && track.current_spatial_layer != layer ==> outcome.forwarded@[i] is Nothing
            &&& after.layer_at(layer as int) matches Some(next) && next.down_tracks@.len()
                == found.down_tracks@.len() && next.down_tracks@[i].is_same(track)
        },
        forall|k: int|
            0 <= k < LAYERS && k != layer ==> #[trigger] after.layers@[k] == before.layers@[k],
        outcome.pli is None,
        outcome.closed@.len() == 0,
{
    let found = before.layer_at(layer as int)->Some_0;
    let next = after.layer_at(layer as int)->Some_0;
    assert(track_forwarded(
        found.down_tracks@[i],
        next.down_tracks@[i],
        outcome.forwarded@[i],
        pkt,
        layer,
    ));
    reveal(track_forwarded);
    let track = found.down_tracks@[i];
    if track.track_type is SimulcastDownTrack && track.down_track_local.enabled
        && track.down_track_local.bound {
        law_only_the_current_layer_is_sent(
            track,
            next.down_tracks@[i],
            outcome.forwarded@[i],
            pkt,
            layer,
            true,
        );
    }
    law_forwarding_keeps_the_rest(
        track,
        next.down_tracks@[i],
        outcome.forwarded@[i],
        pkt,
        layer,
        true,
    );
}

/// The tracks, once they are on the layer `spatial`.
pub open spec fn let_in(tracks: Seq<DownTrack>, spatial: u8) -> Seq<DownTrack> {
    tracks.map_values(|dt: DownTrack| DownTrack { current_spatial_layer: spatial, ..dt })
}

/// A key frame lets the tracks that wait for a layer in: they are on it from there on, and none waits
/// any longer. No track gets lost: each is on the layer afterwards, or was replaced and is closed.
pub proof fn law_waiting_tracks_are_let_in(
    before: ReceiverLayer,
    after: ReceiverLayer,
    closed: Seq<DownTrack>,
)
    requires
        before.returned(after, closed),
    ensures
        after.disposed_tracks@.len() == 0,
        after.down_tracks@.to_multiset().add(closed.to_multiset())
            == before.down_tracks@.to_multiset().add(
            let_in(before.disposed_tracks@, before.spatial).to_multiset(),
        ),
        after.ssrc == before.ssrc,
        after.spatial == before.spatial,
        before.disposed_tracks@.len() == 0 ==> after.down_tracks@ == before.down_tracks@
            && closed.len() == 0,
        before.disposed_tracks@.len() > 0 ==> after.down_tracks@.last().current_spatial_layer
            == before.spatial,
{
    let start: Returning = (before.down_tracks@, seq![], before.active);
    lemma_returned_all(start, before.disposed_tracks@, before.spatial);
    assert(Seq::<DownTrack>::empty().to_multiset() =~= vstd::multiset::Multiset::empty()) by {
        broadcast use vstd::seq_lib::group_to_multiset_ensures;

    }
    assert(before.down_tracks@.to_multiset().add(vstd::multiset::Multiset::empty())
        =~= before.down_tracks@.to_multiset());
}

proof fn lemma_returned_all(start: Returning, disposed: Seq<DownTrack>, spatial: u8)
    ensures
        ({
            let result = return_tracks(start, disposed, spatial);
            result.0.to_multiset().add(result.1.to_multiset()) == start.0.to_multiset().add(
                start.1.to_multiset(),
            ).add(
                let_in(disposed, spatial).to_multiset(),
            )
        }),
    decreases disposed.len(),
{
    broadcast use vstd::seq_lib::group_to_multiset_ensures;

    let result = return_tracks(start, disposed, spatial);
    if disposed.len() == 0 {
        assert(let_in(disposed, spatial) =~= Seq::<DownTrack>::empty());
        assert(Seq::<DownTrack>::empty().to_multiset() =~= vstd::multiset::Multiset::empty());
        assert(result.0.to_multiset().add(result.1.to_multiset()) =~= start.0.to_multiset().add(
            start.1.to_multiset(),
        ).add(let_in(disposed, spatial).to_multiset()));
    } else {
        let shorter = disposed.drop_last();
        let last = disposed.last();
        lemma_returned_all(start, shorter, spatial);
        let so_far = return_tracks(start, shorter, spatial);
        let back = DownTrack { current_spatial_layer: spatial, ..last };
        assert(let_in(disposed, spatial) =~= let_in(shorter, spatial).push(back));
        assert(let_in(disposed, spatial).to_multiset() =~= let_in(
            shorter,
            spatial,
        ).to_multiset().insert(back));
        let (tracks, closed, _) = so_far;
        let at = track_place(tracks, last.down_track_local.id@);
        law_only_the_named_track_is_taken(tracks, last.down_track_local.id@);
        if last.current_spatial_layer != spatial && at < tracks.len() {
            assert(tracks.to_multiset().count(tracks[at]) > 0) by {
                assert(tracks.contains(tracks[at]));
            }
            assert(result.0.to_multiset() =~= tracks.to_multiset().remove(tracks[at]).insert(
                back,
            ));
            assert(result.1.to_multiset() =~= closed.to_multiset().insert(tracks[at]));
        } else {
            assert(result.0.to_multiset() =~= tracks.to_multiset().insert(back));
        }
        let (t, c) = (tracks.to_multiset(), closed.to_multiset());
        let all = start.0.to_multiset().add(start.1.to_multiset());
        assert(result.0.to_multiset().add(result.1.to_multiset()) =~= t.add(c).insert(back));
        assert(all.add(let_in(shorter, spatial).to_multiset()).insert(back) =~= all.add(
            let_in(shorter, spatial).to_multiset().insert(back),
        ));
    }
}

/// Where packets were missed, the source of the layer is asked for a key frame, unless it was asked
/// for one within the last half second. Nothing is sent.
pub proof fn law_missed_packets_ask_for_a_key_frame(
    before: WebRTCReceiver,
    after: WebRTCReceiver,
    outcome: ForwardOutcome,
    layer: usize,
    sender_ssrc: u32,
    now: u64,
)
    requires
        before.wf(),
        before.handled(after, Ok(outcome), layer, ReadEvent::Lagged, sender_ssrc, now),
        before.layer_at(layer as int) is Some,
    ensures
        outcome.forwarded@.len() == 0,
        after.layers == before.layers,
        (before.last_pli is None || now >= before.last_pli->Some_0 + 500) ==> (outcome.pli matches Some(
            pli,
        ) && pli.sender_ssrc == sender_ssrc && pli.media_ssrc == before.ssrc_at(layer as int))
            && after.last_pli == Some(now),
        before.last_pli matches Some(last) ==> (now < last + 500 ==> outcome.pli is None && after
            == before),
{
}

/// A track that returns to a layer is in it from then on, as one of that layer. Where it takes the
/// place of the one with its id, that one is closed; the layer is read as before, unless the track
/// that was replaced was the only one.
pub proof fn law_returning_track_replaces_its_like(
    so_far: Returning,
    dt: DownTrack,
    spatial: u8,
    at: int,
)
    requires
        0 <= at < so_far.0.len(),
        so_far.0[at].down_track_local.id@ == dt.down_track_local.id@,
        forall|i: int|
            0 <= i < at ==> (#[trigger] so_far.0[i]).down_track_local.id@
                != dt.down_track_local.id@,
        dt.current_spatial_layer != spatial,
    ensures
        ({
            let (tracks, closed, active) = return_track(so_far, dt, spatial);
            &&& tracks.len() == so_far.0.len()
            &&& tracks.last().current_spatial_layer == spatial
            &&& tracks.last().is_same(dt)
            &&& closed.len() == so_far.1.len() + 1
            &&& closed.last() == so_far.0[at]
            &&& so_far.0.len() > 1 ==> active == so_far.2
            &&& so_far.0.len() == 1 ==> !active
        }),
{
    lemma_place_of_like(so_far.0, dt.down_track_local.id@, at);
}

/// The place of a track is the first with its id.
proof fn lemma_place_of_like(tracks: Seq<DownTrack>, id: Seq<char>, at: int)
    requires
        0 <= at < tracks.len(),
        tracks[at].down_track_local.id@ == id,
        forall|i: int| 0 <= i < at ==> (#[trigger] tracks[i]).down_track_local.id@ != id,
    ensures
        track_place(tracks, id) == at,
    decreases at,
{
    if at > 0 {
        assert(tracks[0].down_track_local.id@ != id);
        let rest = tracks.skip(1);
        assert forall|i: int| 0 <= i < at - 1 implies (#[trigger] rest[i]).down_track_local.id@
            != id by {
            assert(rest[i] == tracks[i + 1]);
        }
        lemma_place_of_like(rest, id, at - 1);
    }
}

/// The reading of a layer fails once no packet will arrive any longer, and only then; a layer that does
/// not exist has nothing to read. Neither changes anything.
pub proof fn law_reading_ends_with_the_channel(
    before: WebRTCReceiver,
    after: WebRTCReceiver,
    res: Result<ForwardOutcome>,
    layer: usize,
    event: ReadEvent,
    sender_ssrc: u32,
    now: u64,
)
    requires
        before.handled(after, res, layer, event, sender_ssrc, now),
    ensures
        event is Closed && before.layer_at(layer as int) is Some ==> (res matches Err(error) && error
            == Error::ErrChannelSend) && after == before,
        event !is Closed ==> res is Ok,
        before.layer_at(layer as int) is None ==> after == before && (res matches Ok(outcome)
            && outcome.forwarded@.len() == 0 && outcome.closed@.len() == 0 && outcome.pli is None),
{
}

/// Forwarding a packet changes nothing of a layer but its tracks.
pub proof fn law_forwarding_keeps_the_layer(
    before: ReceiverLayer,
    after: ReceiverLayer,
    out: Seq<Forwarded>,
    pkt: ExtPacket,
    layer: usize,
)
    requires
        before.all_forwarded(after, out, pkt, layer),
    ensures
        after.ssrc == before.ssrc,
        after.spatial == before.spatial,
        after.active == before.active,
        after.disposed_tracks == before.disposed_tracks,
        after.down_tracks@.len() == before.down_tracks@.len() == out.len(),
{
}

} // verus!
