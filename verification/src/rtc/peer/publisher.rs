use vstd::prelude::*;

use crate::packet::params::RTCRtpParameters;
use crate::peer::answer::{AnswerAction, AnswerEvent};
use crate::peer::api::API_CHANNEL_LABEL;
use crate::peer::error::Error;
use crate::peer::ice::{candidates_of, CandidateQueue, RTCIceCandidateInit};
use crate::peer::sdp::{described_version, read_version};
use crate::peer::subscriber::IceConnectionState;
use crate::rtc::config::RouterConfig;
use crate::session::room::{
    grown_stream, has_track, law_added_track_belongs_to_its_user, lemma_stream_place, with_track, Room,
    RoomEvent, Stream,
};
use crate::text::{same, views};
use crate::track::router::{AddedReceiver, LocalRouter, RemoteTrack};

verus! {

/// A track that a client publishes.
pub struct PublisherTrack {
    pub track: String,
    /// The name of the receiver of the track.
    pub receiver: String,
    // This will be used in the future for tracks that will be relayed as clients or servers
    // This is for SVC and Simulcast where you will be able to chose if the relayed peer just
    // want a single track (for recording/ processing) or get all the tracks (for load balancing)
    pub client_relay: bool,
}

/// Receives the tracks of a client.
pub struct Publisher {
    pub id: String,
    pub router: LocalRouter,
    pub tracks: Vec<PublisherTrack>,
    pub candidates: CandidateQueue,
    pub session_version: u64,
    /// Whether someone has registered to hear of the state of the connection.
    pub on_ice_connection_state_change: bool,
}

/// What is to be done with a channel that a client opened.
#[derive(Debug, Eq, PartialEq, Clone, Copy, Structural)]
pub enum ChannelOpened {
    /// It exists to force ICE candidates.
    Ignore,
    /// It belongs to the room.
    AddToRoom,
}

/// What a new state of the connection asks for.
#[derive(Debug, Eq, PartialEq, Clone, Copy, Structural)]
pub struct StateChange {
    /// Whoever has registered is told.
    pub tells: bool,
    /// The router is stopped and the connection is closed.
    pub closes: bool,
}

/// What became of a track that a client publishes in a room.
pub struct PublishedTrack {
    pub added: AddedReceiver,
    /// The peers that the track is sent to.
    pub publish_to: Vec<(String, u64)>,
    /// What the room is told.
    pub events: Vec<RoomEvent>,
}

/// Tracks of a stream, each with its layer.
pub open spec fn layers_of(list: Seq<(String, String)>) -> Seq<(Seq<char>, Seq<char>)> {
    list.map_values(|track: (String, String)| (track.0@, track.1@))
}

/// The streams of a user once the tracks were added to a stream.
pub open spec fn with_tracks(
    streams: Seq<Stream>,
    stream_id: Seq<char>,
    list: Seq<(Seq<char>, Seq<char>)>,
) -> Seq<Stream>
    decreases list.len(),
{
    if list.len() == 0 {
        streams
    } else {
        with_track(
            with_tracks(streams, stream_id, list.drop_last()),
            stream_id,
            list.last().0,
            list.last().1.len() > 0,
        )
    }
}

/// Whether the event tells of the track at `i` of those that were added to a stream.
pub open spec fn tells_of_track(
    event: RoomEvent,
    room_id: Seq<char>,
    user_id: Seq<char>,
    streams: Seq<Stream>,
    stream_id: Seq<char>,
    list: Seq<(Seq<char>, Seq<char>)>,
    i: int,
) -> bool {
    event matches RoomEvent::TrackAdded { room_id: id, uid, track, stream } && id@ == room_id
        && uid@ == user_id && track@ == list[i].0 && stream@ == grown_stream(
        with_tracks(streams, stream_id, list.take(i)),
        stream_id,
        list[i].0,
        list[i].1.len() > 0,
    )
}

/// Whether an offer tells of a newer session than the one that was agreed on.
pub open spec fn is_newer(current: Option<u64>, offered: Option<u64>) -> bool {
    match (current, offered) {
        (Some(c), Some(o)) => o > c,
        _ => false,
    }
}

/// The version of a session description, if there is one.
pub open spec fn version_in(sdp: Option<String>) -> Option<u64> {
    match sdp {
        Some(text) => described_version(text@),
        None => None,
    }
}

impl Publisher {
    /// What every operation keeps.
    pub open spec fn wf(&self) -> bool {
        self.router.wf()
    }

    pub fn new(id: String, room_id: String, config: RouterConfig) -> (publisher: Self)
        ensures
            publisher.wf(),
            publisher.id@ == id@,
            publisher.router.id@ == id@,
            publisher.router.room_id == room_id,
            publisher.router.config == config,
            publisher.router.rtcp_writer,
            publisher.router.receivers@.dom() == Set::<Seq<char>>::empty(),
            publisher.tracks@.len() == 0,
            publisher.candidates.waiting@.len() == 0,
            publisher.session_version == 0,
            !publisher.on_ice_connection_state_change,
    {
        let mut router = LocalRouter::new(id.clone(), room_id, config);
        router.set_rtcp_writer();
        assert(router.receivers@.dom() =~= Set::<Seq<char>>::empty());
        Self {
            id,
            router,
            tracks: Vec::new(),
            candidates: CandidateQueue::new(),
            session_version: 0,
            on_ice_connection_state_change: false,
        }
    }

    /// The names of the tracks that the client publishes.
    pub fn get_tracks(&self) -> (tracks: Vec<String>)
        ensures
            views(tracks@) == self.tracks@.map_values(|track: PublisherTrack| track.track@),
    {
        let mut tracks: Vec<String> = Vec::new();
        let mut i: usize = 0;
        while i < self.tracks.len()
            invariant
                i <= self.tracks@.len(),
                tracks@.len() == i,
                forall|k: int| 0 <= k < i ==> (#[trigger] tracks@[k])@ == self.tracks@[k].track@,
            decreases self.tracks@.len() - i,
        {
            tracks.push(self.tracks[i].track.clone());
            i = i + 1;
        }
        assert(views(tracks@) =~= self.tracks@.map_values(|track: PublisherTrack| track.track@));
        tracks
    }

    pub fn router(&self) -> (router: &LocalRouter)
        ensures
            *router == self.router,
    {
        &self.router
    }

    pub fn session_version(&self) -> (version: u64)
        ensures
            version == self.session_version,
    {
        self.session_version
    }

    /// Adds a candidate to this peer.
    /// If the connection does not have a remote description yet, candidates are stored.
    pub fn add_ice_candidate(
        &mut self,
        candidate: RTCIceCandidateInit,
        has_remote_description: bool,
    ) -> (res: Option<RTCIceCandidateInit>)
        ensures
            *final(self) == (Publisher { candidates: final(self).candidates, ..*old(self) }),
            has_remote_description ==> res == Some(candidate) && final(self).candidates
                == old(self).candidates,
            !has_remote_description ==> res is None && final(self).candidates.waiting@
                == old(self).candidates.waiting@.push(candidate),
    {
        self.candidates.add_ice_candidate(candidate, has_remote_description)
    }

    /// Whether `after` is this publisher once a session was offered, by the versions of the session
    /// that was agreed on and of the one that is offered.
    pub open spec fn offered(
        &self,
        after: Publisher,
        current: Option<u64>,
        offered: Option<u64>,
    ) -> bool {
        &&& after == Publisher {
            candidates: after.candidates,
            session_version: match current {
                Some(version) => version,
                None => self.session_version,
            },
            ..*self
        }
        &&& is_newer(current, offered) ==> after.candidates.waiting@.len() == 0
        &&& !is_newer(current, offered) ==> after.candidates == self.candidates
    }

    /// Takes note of the versions of the session that was agreed on and of the one that is offered.
    /// Candidates of an older session are forgotten.
    pub fn note_versions(&mut self, current: Option<u64>, offered: Option<u64>)
        ensures
            old(self).offered(*final(self), current, offered),
    {
        if let Some(c) = current {
            if let Some(o) = offered {
                if o > c {
                    self.candidates.clear();
                }
            }
            self.session_version = c;
        }
    }

    /// Starts to answer an offer.
    ///
    /// # Arguments
    /// - `current`: The description of the session that was agreed on
    ///
    /// # Returns
    /// - The offer, to set it as the remote description
    pub fn answer(&mut self, current: Option<String>, offer: String) -> (action: AnswerAction)
        ensures
            action == AnswerAction::SetRemoteDescription(offer),
            old(self).offered(*final(self), version_in(current), described_version(offer@)),
    {
        let agreed = match &current {
            Some(text) => read_version(text.as_str()),
            None => None,
        };
        self.note_versions(agreed, read_version(offer.as_str()));
        AnswerAction::SetRemoteDescription(offer)
    }

    /// Decides what is to be done next to answer an offer that was started to be answered.
    pub fn answer_step(&self, event: AnswerEvent) -> (action: AnswerAction)
        requires
            event !is Offered,
        ensures
            match event {
                AnswerEvent::Offered { .. } => false,
                AnswerEvent::RemoteSet(Ok(_)) => action matches AnswerAction::AddCandidates(list)
                    && candidates_of(list@) == candidates_of(self.candidates.waiting@),
                AnswerEvent::AnswerCreated(Ok(sdp)) => action == AnswerAction::SetLocalDescription(
                    sdp,
                ),
                AnswerEvent::LocalSet(Ok(sdp)) => action == AnswerAction::Reply(sdp),
                AnswerEvent::RemoteSet(Err(reason)) | AnswerEvent::AnswerCreated(Err(reason))
                | AnswerEvent::LocalSet(Err(reason)) => action == AnswerAction::Fail(
                    Error::ErrRTC(reason),
                ),
            },
    {
        match event {
            AnswerEvent::Offered { sdp, .. } => AnswerAction::SetRemoteDescription(sdp),
            AnswerEvent::RemoteSet(Ok(_)) => AnswerAction::AddCandidates(self.candidates.copies()),
            AnswerEvent::AnswerCreated(Ok(sdp)) => AnswerAction::SetLocalDescription(sdp),
            AnswerEvent::LocalSet(Ok(sdp)) => AnswerAction::Reply(sdp),
            AnswerEvent::RemoteSet(Err(reason)) => AnswerAction::Fail(Error::ErrRTC(reason)),
            AnswerEvent::AnswerCreated(Err(reason)) => AnswerAction::Fail(Error::ErrRTC(reason)),
            AnswerEvent::LocalSet(Err(reason)) => AnswerAction::Fail(Error::ErrRTC(reason)),
        }
    }

    /// Takes note that the connection is closed on purpose. Nobody is told of its state any longer.
    pub fn close(&mut self)
        ensures
            *final(self) == (Publisher { on_ice_connection_state_change: false, ..*old(self) }),
    {
        // Remove ice connection state change handler
        self.on_ice_connection_state_change = false;
    }

    /// Takes note that someone has registered to hear of the state of the connection.
    pub fn on_ice_connection_state_change(&mut self)
        ensures
            *final(self) == (Publisher { on_ice_connection_state_change: true, ..*old(self) }),
    {
        self.on_ice_connection_state_change = true;
    }

    /// Decides what a new state of the connection asks for.
    pub fn state_changed(&self, state: IceConnectionState) -> (change: StateChange)
        ensures
            change.tells == self.on_ice_connection_state_change,
            change.closes == (state == IceConnectionState::Failed || state
                == IceConnectionState::Closed),
    {
        let closes = match state {
            IceConnectionState::Failed => true,
            IceConnectionState::Closed => true,
            _ => false,
        };
        StateChange { tells: self.on_ice_connection_state_change, closes }
    }

    /// Decides what is to be done with a channel that the client opened.
    pub fn on_data_channel(&self, label: &str) -> (opened: ChannelOpened)
        ensures
            opened == if label@ == API_CHANNEL_LABEL@ {
                ChannelOpened::Ignore
            } else {
                ChannelOpened::AddToRoom
            },
    {
        // Ignore our default channel, exists to force ICE candidates.
        if same(label, API_CHANNEL_LABEL) {
            ChannelOpened::Ignore
        } else {
            ChannelOpened::AddToRoom
        }
    }

    /// Takes in a track that the client publishes.
    pub fn on_track(&mut self, track: RemoteTrack, params: &RTCRtpParameters, now: u64) -> (added:
        AddedReceiver)
        requires
            old(self).wf(),
            params.codecs@.len() > 0,
        ensures
            final(self).wf(),
            *final(self) == (Publisher {
                router: final(self).router,
                tracks: final(self).tracks,
                ..*old(self)
            }),
            old(self).router.took_in(
                final(self).router,
                track,
                track.id@,
                track.stream_id@,
                *params,
                now,
                added,
            ),
            final(self).tracks@.len() == old(self).tracks@.len() + 1,
            final(self).tracks@.drop_last() == old(self).tracks@,
            final(self).tracks@.last().track@ == track.id@,
            final(self).tracks@.last().receiver@ == track.id@,
            final(self).tracks@.last().client_relay == added.published,
    {
        let id = track.id.clone();
        let name = track.id.clone();
        let stream_id = track.stream_id.clone();
        let added = self.router.add_receiver(track, name, stream_id, params, now);
        let ghost before = self.tracks@;
        self.tracks.push(
            PublisherTrack {
                track: id,
                receiver: added.receiver.clone(),
                client_relay: added.published,
            },
        );
        assert(self.tracks@.drop_last() =~= before);
        added
    }

    /// Takes in a track that the client publishes in a room. A new track is sent to all others, and
    /// the room is told of the tracks that came with it.
    ///
    /// # Arguments
    /// - `recv_tracks`: The tracks of the receiver, each with its layer
    pub fn on_track_in_room(
        &mut self,
        room: &mut Room,
        track: RemoteTrack,
        recv_tracks: &Vec<(String, String)>,
        params: &RTCRtpParameters,
        now: u64,
    ) -> (res: PublishedTrack)
        requires
            old(self).wf(),
            old(room).wf(),
            params.codecs@.len() > 0,
        ensures
            final(self).wf(),
            final(room).wf(),
            *final(self) == (Publisher {
                router: final(self).router,
                tracks: final(self).tracks,
                ..*old(self)
            }),
            old(self).router.took_in(
                final(self).router,
                track,
                track.id@,
                track.stream_id@,
                *params,
                now,
                res.added,
            ),
            final(self).tracks@.len() == old(self).tracks@.len() + 1,
            final(self).tracks@.drop_last() == old(self).tracks@,
            final(self).tracks@.last().track@ == track.id@,
            final(self).tracks@.last().receiver@ == track.id@,
            final(self).tracks@.last().client_relay == res.added.published,
            res.added.published ==> res.publish_to@.map_values(|peer: (String, u64)| peer.0@)
                == old(room).others(old(self).router.id@),
            forall|i: int|
                0 <= i < res.publish_to@.len() ==> old(room).peers@.contains_key(
                    (#[trigger] res.publish_to@[i]).0@,
                ) && old(room).peers@[res.publish_to@[i].0@] == res.publish_to@[i].1,
            !res.added.published ==> res.publish_to@.len() == 0,
            announced(
                *old(room),
                *final(room),
                res.events@,
                old(self).id@,
                track.stream_id@,
                layers_of(recv_tracks@),
            ),
    {
        let stream_id = track.stream_id.clone();
        let added = self.on_track(track, params, now);
        let publish_to: Vec<(String, u64)> = if added.published {
            room.other_peers(self.router.id.as_str())
        } else {
            Vec::new()
        };
        let events = self.announce_tracks(room, stream_id.as_str(), recv_tracks);
        PublishedTrack { added, publish_to, events }
    }

    /// Tells a room of tracks that came in.
    pub fn announce_tracks(
        &self,
        room: &mut Room,
        stream_id: &str,
        recv_tracks: &Vec<(String, String)>,
    ) -> (events: Vec<RoomEvent>)
        requires
            old(room).wf(),
        ensures
            final(room).wf(),
            announced(
                *old(room),
                *final(room),
                events@,
                self.id@,
                stream_id@,
                layers_of(recv_tracks@),
            ),
    {
        let ghost before = *room;
        let ghost list = layers_of(recv_tracks@);
        let ghost streams = room.streams(self.id@);
        let mut events: Vec<RoomEvent> = Vec::new();
        let mut i: usize = 0;
        proof {
            assert(list.take(0) =~= seq![]);
            assert(with_tracks(streams, stream_id@, list.take(0)) == streams);
            if before.users().contains_key(self.id@) {
                assert(before.users().insert(self.id@, streams) =~= before.users());
            }
        }
        while i < recv_tracks.len()
            invariant
                room.wf(),
                list == layers_of(recv_tracks@),
                streams == before.streams(self.id@),
                i <= recv_tracks@.len(),
                *room == (Room { user_streams: room.user_streams, ..before }),
                i == 0 ==> *room == before,
                room.streams(self.id@) == with_tracks(streams, stream_id@, list.take(i as int)),
                i > 0 ==> room.users() == before.users().insert(
                    self.id@,
                    with_tracks(streams, stream_id@, list.take(i as int)),
                ),
                events@.len() == i,
                forall|k: int|
                    0 <= k < i ==> tells_of_track(
                        #[trigger] events@[k],
                        before.id@,
                        self.id@,
                        streams,
                        stream_id@,
                        list,
                        k,
                    ),
            decreases recv_tracks@.len() - i,
        {
            let ghost so_far = room.users();
            let ghost had = with_tracks(streams, stream_id@, list.take(i as int));
            let (track_id, track_rid) = &recv_tracks[i];
            let simulcast = !same(track_rid.as_str(), "");
            proof {
                reveal_strlit("");
                assert(track_rid@.len() == 0 ==> track_rid@ =~= ""@);
                assert(list[i as int] == (track_id@, track_rid@));
                assert(list.take(i + 1).drop_last() =~= list.take(i as int));
                assert(list.take(i + 1).last() == list[i as int]);
            }
            let event = room.add_user_track(
                self.id.clone(),
                stream_id.to_owned(),
                track_id.clone(),
                simulcast,
            );
            events.push(event);
            proof {
                let now = with_tracks(streams, stream_id@, list.take(i + 1));
                assert(now == with_track(had, stream_id@, track_id@, simulcast));
                assert(room.users() =~= before.users().insert(self.id@, now));
            }
            i = i + 1;
        }
        assert(list.take(i as int) =~= list);
        events
    }
}

/// Whether `after` is the room `before`, and `events` are what it is told, once tracks of a user were
/// added to a stream.
pub open spec fn announced(
    before: Room,
    after: Room,
    events: Seq<RoomEvent>,
    user_id: Seq<char>,
    stream_id: Seq<char>,
    list: Seq<(Seq<char>, Seq<char>)>,
) -> bool {
    &&& after == Room { user_streams: after.user_streams, ..before }
    &&& after.users() == if list.len() == 0 {
        before.users()
    } else {
        before.users().insert(
            user_id,
            with_tracks(before.streams(user_id), stream_id, list),
        )
    }
    &&& events.len() == list.len()
    &&& forall|i: int|
        0 <= i < events.len() ==> tells_of_track(
            #[trigger] events[i],
            before.id@,
            user_id,
            before.streams(user_id),
            stream_id,
            list,
            i,
        )
}

/// The candidates that wait belong to the session that was agreed on: they are forgotten just where a
/// newer one is offered. The version that was agreed on is remembered.
pub proof fn law_candidates_belong_to_their_session(
    before: Publisher,
    after: Publisher,
    current: Option<u64>,
    offered: Option<u64>,
)
    requires
        before.offered(after, current, offered),
    ensures
        current is Some && offered is Some && offered->0 > current->0
            ==> after.candidates.waiting@.len() == 0,
        current is None || offered is None || offered->0 <= current->0 ==> after.candidates
            == before.candidates,
        current matches Some(version) ==> after.session_version == version,
        current is None ==> after.session_version == before.session_version,
        after.router == before.router,
        after.tracks == before.tracks,
{
}

/// Each track that came in is among the streams of its user, and the tracks that were there stay.
pub proof fn law_announced_tracks_belong_to_their_user(
    streams: Seq<Stream>,
    stream_id: Seq<char>,
    list: Seq<(Seq<char>, Seq<char>)>,
    known: Seq<char>,
)
    ensures
        forall|i: int|
            0 <= i < list.len() ==> has_track(
                with_tracks(streams, stream_id, list),
                (#[trigger] list[i]).0,
            ),
        has_track(streams, known) ==> has_track(with_tracks(streams, stream_id, list), known),
    decreases list.len(),
{
    if list.len() > 0 {
        let rest = list.drop_last();
        let had = with_tracks(streams, stream_id, rest);
        let layered = list.last().1.len() > 0;
        law_announced_tracks_belong_to_their_user(streams, stream_id, rest, known);
        law_added_track_belongs_to_its_user(had, stream_id, list.last().0, layered, known);
        assert forall|i: int| 0 <= i < list.len() implies has_track(
            with_tracks(streams, stream_id, list),
            (#[trigger] list[i]).0,
        ) by {
            if i < rest.len() {
                assert(rest[i] == list[i]);
            }
            law_added_track_belongs_to_its_user(
                had,
                stream_id,
                list.last().0,
                layered,
                list[i].0,
            );
        }
    }
}

/// The room is told of each track in turn, as one of its user, and the streams of the others stay as
/// they were. A stream that comes in with a layered track is told to be layered.
pub proof fn law_room_is_told_of_each_track(
    before: Room,
    after: Room,
    events: Seq<RoomEvent>,
    user_id: Seq<char>,
    stream_id: Seq<char>,
    list: Seq<(Seq<char>, Seq<char>)>,
    other: Seq<char>,
)
    requires
        announced(before, after, events, user_id, stream_id, list),
        other != user_id,
    ensures
        events.len() == list.len(),
        forall|i: int|
            0 <= i < list.len() ==> ((#[trigger] events[i]) matches RoomEvent::TrackAdded {
                room_id,
                uid,
                track,
                stream,
            } && room_id@ == before.id@ && uid@ == user_id && track@ == list[i].0 && stream@.id
                == stream_id && stream@.tracks.last() == list[i].0),
        list.len() > 0 && (forall|k: int|
            0 <= k < before.streams(user_id).len() ==> (#[trigger] before.streams(user_id)[k]).id
                != stream_id) ==> (events[0] matches RoomEvent::TrackAdded {
            room_id,
            uid,
            track,
            stream,
        } && (stream@.simulcast <==> list[0].1.len() > 0)),
        after.streams(other) == before.streams(other),
        after.users().contains_key(other) <==> before.users().contains_key(other),
        list.len() > 0 ==> after.users().contains_key(user_id),
        after.peers == before.peers,
        after.tracks == before.tracks,
{
    let streams = before.streams(user_id);
    assert forall|i: int| 0 <= i < list.len() implies ((
    #[trigger] events[i]) matches RoomEvent::TrackAdded { room_id, uid, track, stream } && room_id@
        == before.id@ && uid@ == user_id && track@ == list[i].0 && stream@.id == stream_id
        && stream@.tracks.last() == list[i].0) by {
        let had = with_tracks(streams, stream_id, list.take(i));
        assert(tells_of_track(events[i], before.id@, user_id, streams, stream_id, list, i));
        lemma_stream_place(had, stream_id);
    }
    if list.len() > 0 {
        assert(tells_of_track(events[0], before.id@, user_id, streams, stream_id, list, 0));
        assert(list.take(0) =~= seq![]);
        assert(with_tracks(streams, stream_id, list.take(0)) == streams);
        lemma_stream_place(streams, stream_id);
    }
}

} // verus!
