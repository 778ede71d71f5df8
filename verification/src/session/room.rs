use vstd::prelude::*;

use crate::registry::Registry;
use crate::text::{clone_all, same, views};

verus! {

/// A stream of a user, and its tracks.
pub struct UserStream {
    pub id: String,
    pub tracks: Vec<String>,
    pub simulcast: bool,
}

/// A stream of a user, and its tracks.
pub ghost struct Stream {
    pub id: Seq<char>,
    pub tracks: Seq<Seq<char>>,
    pub simulcast: bool,
}

impl View for UserStream {
    type V = Stream;

    open spec fn view(&self) -> Stream {
        Stream { id: self.id@, tracks: views(self.tracks@), simulcast: self.simulcast }
    }
}

impl UserStream {
    /// A copy of the stream.
    pub fn copy(&self) -> (stream: UserStream)
        ensures
            stream@ == self@,
    {
        UserStream {
            id: self.id.clone(),
            tracks: clone_all(&self.tracks),
            simulcast: self.simulcast,
        }
    }
}

/// The streams in a list.
pub open spec fn streams_of(list: Seq<UserStream>) -> Seq<Stream> {
    list.map_values(|stream: UserStream| stream@)
}

/// The place of the first stream with the given id, or the number of streams.
pub open spec fn stream_place(streams: Seq<Stream>, id: Seq<char>) -> nat
    decreases streams.len(),
{
    if streams.len() == 0 || streams[0].id == id {
        0
    } else {
        1 + stream_place(streams.skip(1), id)
    }
}

/// The stream that a track belongs to, once it was added.
pub open spec fn grown_stream(
    streams: Seq<Stream>,
    stream_id: Seq<char>,
    track_id: Seq<char>,
    simulcast: bool,
) -> Stream {
    let at = stream_place(streams, stream_id) as int;
    if at < streams.len() {
        Stream { tracks: streams[at].tracks.push(track_id), ..streams[at] }
    } else {
        Stream { id: stream_id, tracks: seq![track_id], simulcast }
    }
}

/// The streams of a user, once a track was added: to its stream, or to a new one.
pub open spec fn with_track(
    streams: Seq<Stream>,
    stream_id: Seq<char>,
    track_id: Seq<char>,
    simulcast: bool,
) -> Seq<Stream> {
    let at = stream_place(streams, stream_id) as int;
    let stream = grown_stream(streams, stream_id, track_id, simulcast);
    if at < streams.len() {
        streams.update(at, stream)
    } else {
        streams.push(stream)
    }
}

/// Whether the track belongs to one of the streams.
pub open spec fn has_track(streams: Seq<Stream>, track_id: Seq<char>) -> bool {
    exists|i: int| 0 <= i < streams.len() && (#[trigger] streams[i]).tracks.contains(track_id)
}

/// The tracks of the streams.
pub open spec fn tracks_in(streams: Seq<Stream>) -> Set<Seq<char>> {
    Set::new(|track: Seq<char>| has_track(streams, track))
}

fn find_stream(streams: &Vec<UserStream>, id: &str) -> (at: usize)
    ensures
        at == stream_place(streams_of(streams@), id@),
        at <= streams@.len(),
{
    let ghost all = streams_of(streams@);
    let mut i: usize = 0;
    assert(all.skip(0) =~= all);
    while i < streams.len()
        invariant
            all == streams_of(streams@),
            i <= streams@.len(),
            stream_place(all, id@) == i + stream_place(all.skip(i as int), id@),
        decreases streams@.len() - i,
    {
        assert(all.skip(i as int)[0] == streams@[i as int]@);
        if same(streams[i].id.as_str(), id) {
            return i;
        }
        assert(all.skip(i as int).skip(1) =~= all.skip(i + 1));
        i = i + 1;
    }
    i
}

fn copy_streams(streams: &Vec<UserStream>) -> (res: Vec<UserStream>)
    ensures
        streams_of(res@) == streams_of(streams@),
{
    let mut res: Vec<UserStream> = Vec::new();
    let mut i: usize = 0;
    while i < streams.len()
        invariant
            i <= streams@.len(),
            res@.len() == i,
            forall|k: int| 0 <= k < i ==> (#[trigger] res@[k])@ == streams@[k]@,
        decreases streams@.len() - i,
    {
        res.push(streams[i].copy());
        i = i + 1;
    }
    assert(streams_of(res@) =~= streams_of(streams@));
    res
}

/// Room event which displays information happening in a WebRTC session.
pub enum RoomEvent {
    /// This room was created.
    RoomCreated(String),
    /// This room is closed.
    RoomClosed(String),
    /// A peer joined this room. [UserStream]s should be received by client before the local subscriber starts sending tasks.
    RoomInfo(RoomInfo),
    /// Some down tracks were removed. The client must know about these tracks.
    TracksRemoved { removed_tracks: Vec<String>, room_id: String },
    /// The router observes voice activity from published tracks
    VoiceActivity { room_id: String, stream_ids: Vec<String> },
    /// This room observes voice activity from published tracks.
    UserSpeaking { room_id: String, uid: String, sids: Vec<String> },
    /// A new user joined this room. This event is triggered since a second peer joins.
    UserJoined { room_id: String, uid: String },
    /// Local publisher receives a remote track from an user.
    TrackAdded { room_id: String, uid: String, track: String, stream: UserStream },
    /// User leaves this room. This event is not triggered when this room becomes empty.
    UserLeft { room_id: String, uid: String },
}

/// Who is in a room, with which streams.
pub struct RoomInfo {
    pub id: String,
    pub users: Vec<(String, Vec<UserStream>)>,
}

/// Room consisting of clients which can communicate with one another
///
/// Peers and local tracks stand in it by their numbers.
pub struct Room {
    pub id: String,
    /// The room is already closed
    pub closed: bool,
    /// The labels of the data channels that clients opened.
    pub labels: Registry<()>,
    /// The labels of the data channels that every subscriber is given.
    pub data_channels: Vec<String>,
    pub user_streams: Registry<Vec<UserStream>>,
    pub peers: Registry<u64>,
    pub tracks: Registry<u64>,
}

impl Room {
    /// What every operation keeps.
    pub open spec fn wf(&self) -> bool {
        self.labels.wf() && self.user_streams.wf() && self.peers.wf() && self.tracks.wf()
    }

    /// The users in the room, with their streams.
    pub open spec fn users(&self) -> Map<Seq<char>, Seq<Stream>> {
        self.user_streams@.map_values(|streams: Vec<UserStream>| streams_of(streams@))
    }

    /// Create a new Room and initialise internal maps
    pub fn new(id: String) -> (room: Self)
        ensures
            room.wf(),
            room.id == id,
            !room.closed,
            room.labels@ == Map::<Seq<char>, ()>::empty(),
            room.data_channels@.len() == 0,
            room.users() == Map::<Seq<char>, Seq<Stream>>::empty(),
            room.peers@ == Map::<Seq<char>, u64>::empty(),
            room.tracks@ == Map::<Seq<char>, u64>::empty(),
    {
        let room = Room {
            id,
            closed: false,
            labels: Registry::new(),
            data_channels: Vec::new(),
            user_streams: Registry::new(),
            peers: Registry::new(),
            tracks: Registry::new(),
        };
        assert(room.users() =~= Map::<Seq<char>, Seq<Stream>>::empty());
        room
    }

    pub fn add_peer(&mut self, id: String, peer: u64)
        requires
            old(self).wf(),
        ensures
            final(self).wf(),
            *final(self) == (Room { peers: final(self).peers, ..*old(self) }),
            final(self).peers@ == old(self).peers@.insert(id@, peer),
    {
        let _before = self.peers.insert(id, peer);
    }

    pub fn close(&mut self)
        ensures
            *final(self) == (Room { closed: true, ..*old(self) }),
    {
        self.closed = true;
    }

    pub fn get_peer(&self, peer_id: &str) -> (res: Option<u64>)
        requires
            self.wf(),
        ensures
            res == if self.peers@.contains_key(peer_id@) {
                Some(self.peers@[peer_id@])
            } else {
                None
            },
    {
        match self.peers.get(peer_id) {
            Some(peer) => Some(*peer),
            None => None,
        }
    }

    pub fn is_closed(&self) -> (closed: bool)
        ensures
            closed == self.closed,
    {
        self.closed
    }

    pub fn is_empty(&self) -> (res: bool)
        requires
            self.wf(),
        ensures
            res == (self.users() == Map::<Seq<char>, Seq<Stream>>::empty()),
    {
        proof {
            self.lemma_empty();
        }
        self.user_streams.is_empty()
    }

    proof fn lemma_empty(&self)
        ensures
            self.users() == Map::<Seq<char>, Seq<Stream>>::empty() <==> self.user_streams@ == Map::<
                Seq<char>,
                Vec<UserStream>,
            >::empty(),
    {
        if self.users() == Map::<Seq<char>, Seq<Stream>>::empty() {
            assert forall|id: Seq<char>| !#[trigger] self.user_streams@.contains_key(id) by {
                assert(!self.users().contains_key(id));
            }
            assert(self.user_streams@ =~= Map::<Seq<char>, Vec<UserStream>>::empty());
        }
        if self.user_streams@ == Map::<Seq<char>, Vec<UserStream>>::empty() {
            assert(self.users() =~= Map::<Seq<char>, Seq<Stream>>::empty());
        }
    }

    /// Takes a peer out of the room.
    ///
    /// # Returns
    /// - The peer, which is to be closed, if it was in the room
    /// - How many peers are left
    pub fn remove_peer(&mut self, peer_id: &str) -> (res: (Option<u64>, usize))
        requires
            old(self).wf(),
        ensures
            final(self).wf(),
            *final(self) == (Room { peers: final(self).peers, ..*old(self) }),
            final(self).peers@ == old(self).peers@.remove(peer_id@),
            res.0 == if old(self).peers@.contains_key(peer_id@) {
                Some(old(self).peers@[peer_id@])
            } else {
                None
            },
            res.1 == final(self).peers.order().len(),
    {
        let peer = self.peers.remove(peer_id);
        (peer, self.peers.len())
    }

    /// Get all user IDs currently in the room
    pub fn get_user_ids(&self) -> (ids: Vec<String>)
        requires
            self.wf(),
        ensures
            views(ids@) == self.user_streams.order(),
    {
        let mut ids: Vec<String> = Vec::new();
        let n: usize = self.user_streams.len();
        let ghost order = self.user_streams.order();
        let mut i: usize = 0;
        assert(views(ids@) =~= order.take(0));
        while i < n
            invariant
                self.wf(),
                order == self.user_streams.order(),
                i <= n == order.len(),
                views(ids@) == order.take(i as int),
            decreases n - i,
        {
            let ghost before = ids@;
            let (id, _) = self.user_streams.at(i);
            ids.push(id.clone());
            assert(views(ids@) =~= views(before).push(order[i as int]));
            assert(order.take(i + 1) =~= order.take(i as int).push(order[i as int]));
            i = i + 1;
        }
        assert(order.take(n as int) =~= order);
        ids
    }

    /// Check if a user is in a room
    pub fn in_room(&self, id: &str) -> (res: bool)
        requires
            self.wf(),
        ensures
            res == self.users().contains_key(id@),
    {
        self.user_streams.contains(id)
    }

    /// Adds an user into this room
    ///
    /// # Returns
    /// - [RoomEvent::UserJoined], if there is someone to hear it
    pub fn add_user(&mut self, user_id: String) -> (event: Option<RoomEvent>)
        requires
            old(self).wf(),
        ensures
            final(self).wf(),
            *final(self) == (Room { user_streams: final(self).user_streams, ..*old(self) }),
            final(self).users() == old(self).users().insert(user_id@, seq![]),
            event is None <==> old(self).users() == Map::<Seq<char>, Seq<Stream>>::empty(),
            event matches Some(joined) ==> (joined matches RoomEvent::UserJoined { room_id, uid }
                && room_id@ == old(self).id@ && uid@ == user_id@),
            came(*old(self), *final(self), user_id@, event),
    {
        let mut event: Option<RoomEvent> = None;
        if !self.is_empty() {
            event = Some(
                RoomEvent::UserJoined { room_id: self.id.clone(), uid: user_id.clone() },
            );
        }
        let ghost before = self.user_streams@;
        let none: Vec<UserStream> = Vec::new();
        let _before = self.user_streams.insert(user_id, none);
        proof {
            assert(streams_of(none@) =~= seq![]);
            assert(self.users() =~= old(self).users().insert(user_id@, seq![]));
        }
        event
    }

    /// The streams of a user, or none.
    pub open spec fn streams(&self, user_id: Seq<char>) -> Seq<Stream> {
        if self.users().contains_key(user_id) {
            self.users()[user_id]
        } else {
            seq![]
        }
    }

    /// Adds a track for the given user, looking up for existing streams and pushing
    ///
    /// # Returns
    /// - [RoomEvent::TrackAdded]
    pub fn add_user_track(
        &mut self,
        user_id: String,
        stream_id: String,
        track_id: String,
        simulcast: bool,
    ) -> (event: RoomEvent)
        requires
            old(self).wf(),
        ensures
            final(self).wf(),
            *final(self) == (Room { user_streams: final(self).user_streams, ..*old(self) }),
            final(self).users() == old(self).users().insert(
                user_id@,
                with_track(old(self).streams(user_id@), stream_id@, track_id@, simulcast),
            ),
            event matches RoomEvent::TrackAdded { room_id, uid, track, stream } && room_id@
                == old(self).id@ && uid@ == user_id@ && track@ == track_id@ && stream@
                == grown_stream(old(self).streams(user_id@), stream_id@, track_id@, simulcast),
            published(
                *old(self),
                *final(self),
                user_id@,
                stream_id@,
                track_id@,
                simulcast,
                event,
            ),
    {
        let ghost before = self.users();
        let mut list: Vec<UserStream> = match self.user_streams.remove(user_id.as_str()) {
            Some(list) => list,
            // Does not exist user (very rare), insert them
            None => Vec::new(),
        };
        proof {
            assert(streams_of(list@) =~= old(self).streams(user_id@));
            assert(self.users() =~= before.remove(user_id@));
        }
        let updated = add_track_to(&mut list, stream_id, track_id.clone(), simulcast);
        let uid = user_id.clone();
        let ghost grown = list@;
        let _before = self.user_streams.insert(user_id, list);
        proof {
            assert(self.users() =~= before.insert(user_id@, streams_of(grown)));
        }
        RoomEvent::TrackAdded { room_id: self.id.clone(), uid, track: track_id, stream: updated }
    }

    /// Who is in the room, with which streams.
    pub fn get_room_info(&self) -> (info: RoomInfo)
        requires
            self.wf(),
        ensures
            info.id@ == self.id@,
            info.users@.len() == self.user_streams.order().len(),
            forall|i: int|
                0 <= i < info.users@.len() ==> {
                    let (id, streams) = #[trigger] info.users@[i];
                    &&& id@ == self.user_streams.order()[i]
                    &&& self.users().contains_key(id@)
                    &&& streams_of(streams@) == self.users()[id@]
                },
    {
        let mut users: Vec<(String, Vec<UserStream>)> = Vec::new();
        let n: usize = self.user_streams.len();
        let mut i: usize = 0;
        while i < n
            invariant
                self.wf(),
                i <= n == self.user_streams.order().len(),
                users@.len() == i,
                forall|k: int|
                    0 <= k < i ==> {
                        let (id, streams) = #[trigger] users@[k];
                        &&& id@ == self.user_streams.order()[k]
                        &&& self.users().contains_key(id@)
                        &&& streams_of(streams@) == self.users()[id@]
                    },
            decreases n - i,
        {
            let (id, streams) = self.user_streams.at(i);
            users.push((id.clone(), copy_streams(streams)));
            i = i + 1;
        }
        RoomInfo { id: self.id.clone(), users }
    }

    /// Remove a user from the room, and close the tracks.
    ///
    /// # Returns
    /// - [RoomEvent::UserLeft], if there is someone to hear it
    pub fn remove_user(&mut self, id: &str) -> (event: Option<RoomEvent>)
        requires
            old(self).wf(),
        ensures
            final(self).wf(),
            *final(self) == (Room {
                user_streams: final(self).user_streams,
                tracks: final(self).tracks,
                ..*old(self)
            }),
            final(self).users() == old(self).users().remove(id@),
            final(self).tracks@ == old(self).tracks@.remove_keys(
                tracks_in(old(self).streams(id@)),
            ),
            event is None <==> final(self).users() == Map::<Seq<char>, Seq<Stream>>::empty(),
            event matches Some(left) ==> (left matches RoomEvent::UserLeft { room_id, uid }
                && room_id@ == old(self).id@ && uid@ == id@),
            went(*old(self), *final(self), id@, event),
    {
        // Find all associated track information
        let ghost before = self.users();
        let ghost tracks = self.tracks@;
        let removed = self.user_streams.remove(id);
        proof {
            assert(self.users() =~= before.remove(id@));
        }
        match removed {
            Some(streams) => {
                assert(streams_of(streams@) == old(self).streams(id@));
                self.close_tracks(&streams);
            },
            None => {
                assert(self.tracks@ =~= tracks.remove_keys(
                    tracks_in(old(self).streams(id@)),
                ));
            },
        }
        if !self.is_empty() {
            // Let everyone know we left
            Some(RoomEvent::UserLeft { room_id: self.id.clone(), uid: id.to_owned() })
        } else {
            None
        }
    }

    /// Closes the tracks of the streams.
    fn close_tracks(&mut self, streams: &Vec<UserStream>)
        requires
            old(self).wf(),
        ensures
            final(self).wf(),
            *final(self) == (Room { tracks: final(self).tracks, ..*old(self) }),
            final(self).tracks@ == old(self).tracks@.remove_keys(
                tracks_in(streams_of(streams@)),
            ),
    {
        let ghost before = self.tracks@;
        let ghost all = streams_of(streams@);
        let mut i: usize = 0;
        assert(self.tracks@ =~= before.remove_keys(
            tracks_in(all.take(0)),
        ));
        while i < streams.len()
            invariant
                self.wf(),
                *self == (Room { tracks: self.tracks, ..*old(self) }),
                all == streams_of(streams@),
                i <= streams@.len(),
                self.tracks@ == before.remove_keys(
                    tracks_in(all.take(i as int)),
                ),
            decreases streams@.len() - i,
        {
            let list = &streams[i].tracks;
            let ghost names = views(list@);
            let ghost outer = self.tracks@;
            let mut k: usize = 0;
            assert(self.tracks@ =~= outer.remove_keys(
                Set::new(|track: Seq<char>| names.take(0).contains(track)),
            ));
            while k < list.len()
                invariant
                    self.wf(),
                    *self == (Room { tracks: self.tracks, ..*old(self) }),
                    names == views(list@),
                    k <= list@.len(),
                    self.tracks@ == outer.remove_keys(
                        Set::new(|track: Seq<char>| names.take(k as int).contains(track)),
                    ),
                decreases list@.len() - k,
            {
                self.close_track(list[k].as_str());
                proof {
                    lemma_contains_one_more(names, k as int);
                    assert(self.tracks@ =~= outer.remove_keys(
                        Set::new(|track: Seq<char>| names.take(k + 1).contains(track)),
                    ));
                }
                k = k + 1;
            }
            proof {
                assert(names.take(k as int) =~= names);
                assert(all[i as int].tracks == names);
                lemma_has_one_more(all, i as int);
                assert(self.tracks@ =~= before.remove_keys(
                    tracks_in(all.take(i + 1)),
                ));
            }
            i = i + 1;
        }
        assert(all.take(i as int) =~= all);
    }

    /// Add a local track
    pub fn add_track(&mut self, id: String, local_track: u64)
        requires
            old(self).wf(),
        ensures
            final(self).wf(),
            *final(self) == (Room { tracks: final(self).tracks, ..*old(self) }),
            final(self).tracks@ == old(self).tracks@.insert(id@, local_track),
    {
        let _before = self.tracks.insert(id, local_track);
    }

    /// Get a local track
    pub fn get_track(&self, id: &str) -> (res: Option<u64>)
        requires
            self.wf(),
        ensures
            res == if self.tracks@.contains_key(id@) {
                Some(self.tracks@[id@])
            } else {
                None
            },
    {
        match self.tracks.get(id) {
            Some(track) => Some(*track),
            None => None,
        }
    }

    /// Remove a local track
    ///
    /// # Returns
    /// - [RoomEvent::TracksRemoved]
    pub fn remove_track(&mut self, id: String) -> (event: RoomEvent)
        requires
            old(self).wf(),
        ensures
            final(self).wf(),
            *final(self) == (Room { tracks: final(self).tracks, ..*old(self) }),
            final(self).tracks@ == old(self).tracks@.remove(id@),
            event matches RoomEvent::TracksRemoved { removed_tracks, room_id } && views(
                removed_tracks@,
            ) == seq![id@] && room_id@ == old(self).id@,
    {
        self.close_track(id.as_str());
        let mut removed_tracks: Vec<String> = Vec::new();
        removed_tracks.push(id);
        assert(views(removed_tracks@) =~= seq![id@]);
        RoomEvent::TracksRemoved { removed_tracks, room_id: self.id.clone() }
    }

    /// Close local track
    fn close_track(&mut self, id: &str)
        requires
            old(self).wf(),
        ensures
            final(self).wf(),
            *final(self) == (Room { tracks: final(self).tracks, ..*old(self) }),
            final(self).tracks@ == old(self).tracks@.remove(id@),
    {
        let _track = self.tracks.remove(id);
    }

    /// The peers in the room but for the one with the given id, in the order in which they are
    /// walked.
    pub open spec fn others(&self, id: Seq<char>) -> Seq<Seq<char>> {
        self.peers.order().filter(other_than(id))
    }

    /// The peers that a track of the given peer is published to, and that the given peer is
    /// subscribed to: all but that peer.
    pub fn other_peers(&self, id: &str) -> (res: Vec<(String, u64)>)
        requires
            self.wf(),
        ensures
            res@.map_values(|found: (String, u64)| found.0@) == self.others(id@),
            forall|i: int|
                0 <= i < res@.len() ==> self.peers@.contains_key((#[trigger] res@[i]).0@)
                    && self.peers@[res@[i].0@] == res@[i].1,
    {
        let mut res: Vec<(String, u64)> = Vec::new();
        let n: usize = self.peers.len();
        let ghost order = self.peers.order();
        let ghost keep = other_than(id@);
        let ghost first = |found: (String, u64)| found.0@;
        let mut i: usize = 0;
        proof {
            reveal(Seq::filter);
            assert(order.take(0) =~= seq![]);
            assert(res@.map_values(first) =~= order.take(0).filter(keep));
        }
        while i < n
            invariant
                self.wf(),
                order == self.peers.order(),
                keep == other_than(id@),
                first == (|found: (String, u64)| found.0@),
                i <= n == order.len(),
                res@.map_values(first) == order.take(i as int).filter(keep),
                forall|k: int|
                    0 <= k < res@.len() ==> self.peers@.contains_key((#[trigger] res@[k]).0@)
                        && self.peers@[res@[k].0@] == res@[k].1,
            decreases n - i,
        {
            let ghost before = res@;
            let (peer_id, peer) = self.peers.at(i);
            proof {
                assert(order.take(i + 1) =~= order.take(i as int).push(order[i as int]));
                order.take(i as int).lemma_filter_push(order[i as int], keep);
            }
            if !same(peer_id.as_str(), id) {
                res.push((peer_id.clone(), *peer));
                assert(res@.map_values(first) =~= before.map_values(first).push(order[i as int]));
            }
            i = i + 1;
        }
        assert(order.take(n as int) =~= order);
        res
    }
}

/// Whether a peer is not the one with the given id.
pub open spec fn other_than(id: Seq<char>) -> spec_fn(Seq<char>) -> bool {
    |peer: Seq<char>| peer != id
}

/// Adds a track to its stream, or to a new one, and returns the stream.
fn add_track_to(
    streams: &mut Vec<UserStream>,
    stream_id: String,
    track_id: String,
    simulcast: bool,
) -> (updated: UserStream)
    ensures
        streams_of(final(streams)@) == with_track(
            streams_of(old(streams)@),
            stream_id@,
            track_id@,
            simulcast,
        ),
        updated@ == grown_stream(streams_of(old(streams)@), stream_id@, track_id@, simulcast),
{
    let ghost before = streams@;
    let at: usize = find_stream(streams, stream_id.as_str());
    if at < streams.len() {
        // Exists stream with same id, push track id in stream
        let ghost tracks = streams@[at as int].tracks@;
        streams[at].tracks.push(track_id);
        proof {
            assert(views(streams@[at as int].tracks@) =~= views(tracks).push(track_id@));
            assert(streams_of(streams@) =~= with_track(
                streams_of(before),
                stream_id@,
                track_id@,
                simulcast,
            ));
        }
        streams[at].copy()
    } else {
        // Does not exist stream with that id, push stream
        let mut tracks: Vec<String> = Vec::new();
        tracks.push(track_id);
        assert(views(tracks@) =~= seq![track_id@]);
        let stream = UserStream { id: stream_id, tracks, simulcast };
        let updated = stream.copy();
        streams.push(stream);
        assert(streams_of(streams@) =~= with_track(
            streams_of(before),
            stream_id@,
            track_id@,
            simulcast,
        ));
        updated
    }
}

proof fn lemma_contains_one_more(names: Seq<Seq<char>>, k: int)
    requires
        0 <= k < names.len(),
    ensures
        forall|track: Seq<char>| #[trigger]
            names.take(k + 1).contains(track) <==> names.take(k).contains(track) || track
                == names[k],
{
    let now = names.take(k + 1);
    let was = names.take(k);
    assert(now =~= was.push(names[k]));
    assert forall|track: Seq<char>| #[trigger] names.take(k + 1).contains(track) <==> names.take(
        k,
    ).contains(track) || track == names[k] by {
        if names.take(k).contains(track) {
            let i = choose|i: int| 0 <= i < was.len() && was[i] == track;
            assert(now[i] == track);
        }
        if names.take(k + 1).contains(track) && track != names[k] {
            let i = choose|i: int| 0 <= i < now.len() && now[i] == track;
            assert(was[i] == track);
        }
        assert(now[k] == names[k]);
    }
}

proof fn lemma_has_one_more(all: Seq<Stream>, i: int)
    requires
        0 <= i < all.len(),
    ensures
        forall|track: Seq<char>| #[trigger]
            has_track(all.take(i + 1), track) <==> has_track(all.take(i), track)
                || all[i].tracks.contains(track),
{
    let now = all.take(i + 1);
    let was = all.take(i);
    assert forall|track: Seq<char>| #[trigger] has_track(now, track) <==> has_track(was, track)
        || all[i].tracks.contains(track) by {
        if has_track(was, track) {
            let k = choose|k: int| 0 <= k < was.len() && (#[trigger] was[k]).tracks.contains(track);
            assert(now[k].tracks.contains(track));
        }
        if all[i].tracks.contains(track) {
            assert(now[i].tracks.contains(track));
        }
        if has_track(now, track) && !all[i].tracks.contains(track) {
            let k = choose|k: int| 0 <= k < now.len() && (#[trigger] now[k]).tracks.contains(track);
            assert(was[k].tracks.contains(track));
        }
    }
}

/// A track that was added belongs to the streams of its user, and so do those that did before.
pub proof fn law_added_track_belongs_to_its_user(
    streams: Seq<Stream>,
    stream_id: Seq<char>,
    track_id: Seq<char>,
    simulcast: bool,
    other: Seq<char>,
)
    ensures
        has_track(with_track(streams, stream_id, track_id, simulcast), track_id),
        has_track(streams, other) ==> has_track(
            with_track(streams, stream_id, track_id, simulcast),
            other,
        ),
{
    let at = stream_place(streams, stream_id) as int;
    let grown = grown_stream(streams, stream_id, track_id, simulcast);
    let after = with_track(streams, stream_id, track_id, simulcast);
    lemma_stream_place_in_range(streams, stream_id);
    assert(after[at] == grown);
    assert(grown.tracks.last() == track_id);
    assert(grown.tracks.contains(track_id));
    if has_track(streams, other) {
        let i = choose|i: int|
            0 <= i < streams.len() && (#[trigger] streams[i]).tracks.contains(other);
        if i == at {
            let k = choose|k: int| 0 <= k < streams[i].tracks.len() && streams[i].tracks[k] == other;
            assert(grown.tracks[k] == other);
        } else {
            assert(after[i] == streams[i]);
        }
    }
}

/// The place of a stream is that of one of the streams, or the one behind them.
proof fn lemma_stream_place_in_range(streams: Seq<Stream>, id: Seq<char>)
    ensures
        0 <= stream_place(streams, id) <= streams.len(),
    decreases streams.len(),
{
    if streams.len() > 0 && streams[0].id != id {
        lemma_stream_place_in_range(streams.skip(1), id);
    }
}

/// Whether the user came into the room, and was told to those who were in it.
pub open spec fn came(
    before: Room,
    after: Room,
    user: Seq<char>,
    event: Option<RoomEvent>,
) -> bool {
    &&& after == (Room { user_streams: after.user_streams, ..before })
    &&& after.users() == before.users().insert(user, seq![])
    &&& event is None <==> before.users() == Map::<Seq<char>, Seq<Stream>>::empty()
    &&& event matches Some(told) ==> (told matches RoomEvent::UserJoined { room_id, uid }
        && room_id@ == before.id@ && uid@ == user)
}

/// Whether the user went out of the room with its tracks, and those who stay were told.
pub open spec fn went(
    before: Room,
    after: Room,
    user: Seq<char>,
    event: Option<RoomEvent>,
) -> bool {
    &&& after == (Room { user_streams: after.user_streams, tracks: after.tracks, ..before })
    &&& after.users() == before.users().remove(user)
    &&& after.tracks@ == before.tracks@.remove_keys(tracks_in(before.streams(user)))
    &&& event is None <==> after.users() == Map::<Seq<char>, Seq<Stream>>::empty()
    &&& event matches Some(told) ==> (told matches RoomEvent::UserLeft { room_id, uid }
        && room_id@ == before.id@ && uid@ == user)
}

/// Whether the track was added to the streams of the user, and is told.
pub open spec fn published(
    before: Room,
    after: Room,
    user: Seq<char>,
    stream_id: Seq<char>,
    track_id: Seq<char>,
    simulcast: bool,
    event: RoomEvent,
) -> bool {
    &&& after == (Room { user_streams: after.user_streams, ..before })
    &&& after.users() == before.users().insert(
        user,
        with_track(before.streams(user), stream_id, track_id, simulcast),
    )
    &&& event matches RoomEvent::TrackAdded { room_id, uid, track, stream } && room_id@
        == before.id@ && uid@ == user && track@ == track_id && stream@ == grown_stream(
        before.streams(user),
        stream_id,
        track_id,
        simulcast,
    )
}

/// A user is in the room from when it came until it went, without tracks at first, and nobody else is
/// touched.
pub proof fn law_user_is_in_the_room_until_it_goes(
    before: Room,
    inside: Room,
    after: Room,
    user: Seq<char>,
    hello: Option<RoomEvent>,
    farewell: Option<RoomEvent>,
)
    requires
        came(before, inside, user, hello),
        went(inside, after, user, farewell),
    ensures
        inside.users().contains_key(user),
        inside.users()[user].len() == 0,
        !after.users().contains_key(user),
        after.peers == before.peers,
        after.tracks@ =~= before.tracks@,
        forall|other: Seq<char>|
            other != user ==> (#[trigger] inside.users().contains_key(other)
                <==> before.users().contains_key(other)) && inside.streams(other)
                == before.streams(other),
        forall|other: Seq<char>|
            other != user ==> (#[trigger] after.users().contains_key(other)
                <==> before.users().contains_key(other)) && after.streams(other)
                == before.streams(other),
{
    assert forall|track: Seq<char>| !has_track(inside.streams(user), track) by {}
}

/// Whoever is in a room is told who comes and who goes, by the room and the user.
pub proof fn law_those_in_the_room_are_told(
    before: Room,
    after: Room,
    user: Seq<char>,
    other: Seq<char>,
    event: Option<RoomEvent>,
)
    requires
        other != user,
        before.users().contains_key(other),
    ensures
        came(before, after, user, event) ==> (event matches Some(told) && (
        told matches RoomEvent::UserJoined { room_id, uid } && room_id@ == before.id@ && uid@
            == user)),
        went(before, after, user, event) ==> (event matches Some(told) && (
        told matches RoomEvent::UserLeft { room_id, uid } && room_id@ == before.id@ && uid@
            == user)),
{
    if went(before, after, user, event) {
        assert(after.users().contains_key(other));
    }
}

/// Nobody is told of the first who comes nor of the last who goes.
pub proof fn law_nobody_is_told_in_an_empty_room(
    before: Room,
    after: Room,
    user: Seq<char>,
    event: Option<RoomEvent>,
)
    requires
        forall|other: Seq<char>| other != user ==> !#[trigger] before.users().contains_key(other),
    ensures
        came(before, after, user, event) && !before.users().contains_key(user) ==> event is None,
        went(before, after, user, event) ==> event is None,
{
    if came(before, after, user, event) && !before.users().contains_key(user) {
        assert(before.users() =~= Map::<Seq<char>, Seq<Stream>>::empty());
    }
    if went(before, after, user, event) {
        assert(after.users() =~= Map::<Seq<char>, Seq<Stream>>::empty());
    }
}

/// The tracks of a user go with it, and no others.
pub proof fn law_tracks_go_with_their_user(
    before: Room,
    after: Room,
    user: Seq<char>,
    event: Option<RoomEvent>,
    track: Seq<char>,
)
    requires
        went(before, after, user, event),
    ensures
        (exists|i: int|
            0 <= i < before.streams(user).len() && (#[trigger] before.streams(
                user,
            )[i]).tracks.contains(track)) ==> !after.tracks@.contains_key(track),
        (forall|i: int|
            0 <= i < before.streams(user).len() ==> !(#[trigger] before.streams(
                user,
            )[i]).tracks.contains(track)) && before.tracks@.contains_key(track)
            ==> after.tracks@.contains_key(track) && after.tracks@[track] == before.tracks@[track],
{
}

/// A track is told with its stream, which its user has from then on. The streams of the others stay
/// as they were.
pub proof fn law_published_track_is_told_with_its_stream(
    before: Room,
    after: Room,
    user: Seq<char>,
    stream_id: Seq<char>,
    track_id: Seq<char>,
    simulcast: bool,
    event: RoomEvent,
)
    requires
        published(before, after, user, stream_id, track_id, simulcast, event),
    ensures
        event matches RoomEvent::TrackAdded { room_id, uid, track, stream } && room_id@
            == before.id@ && uid@ == user && track@ == track_id && stream@.id == stream_id
            && stream@.tracks.last() == track_id && after.streams(user).contains(stream@),
        has_track(after.streams(user), track_id),
        forall|other: Seq<char>|
            other != user ==> #[trigger] after.streams(other) == before.streams(other),
{
    let streams = before.streams(user);
    let at = stream_place(streams, stream_id) as int;
    lemma_stream_place(streams, stream_id);
    law_added_track_belongs_to_its_user(streams, stream_id, track_id, simulcast, track_id);
    assert(after.streams(user)[at] == grown_stream(streams, stream_id, track_id, simulcast));
}

/// A track joins the first stream with the id, behind the tracks that are in it; the other streams
/// stay as they were.
pub proof fn law_track_joins_its_stream(
    streams: Seq<Stream>,
    at: int,
    track_id: Seq<char>,
    simulcast: bool,
)
    requires
        0 <= at < streams.len(),
        forall|i: int| 0 <= i < at ==> (#[trigger] streams[i]).id != streams[at].id,
    ensures
        with_track(streams, streams[at].id, track_id, simulcast).len() == streams.len(),
        with_track(streams, streams[at].id, track_id, simulcast)[at].id == streams[at].id,
        with_track(streams, streams[at].id, track_id, simulcast)[at].simulcast
            == streams[at].simulcast,
        with_track(streams, streams[at].id, track_id, simulcast)[at].tracks
            == streams[at].tracks.push(track_id),
        forall|i: int|
            0 <= i < streams.len() && i != at ==> #[trigger] with_track(
                streams,
                streams[at].id,
                track_id,
                simulcast,
            )[i] == streams[i],
{
    lemma_stream_place(streams, streams[at].id);
    let place = stream_place(streams, streams[at].id) as int;
    if place > at {
        assert(streams[at].id != streams[at].id);
    }
    if place < at {
        assert(streams[place].id == streams[at].id);
    }
}

/// A track of a stream that the user does not have yet comes with a stream of its own, behind the
/// others.
pub proof fn law_track_brings_its_stream(
    streams: Seq<Stream>,
    stream_id: Seq<char>,
    track_id: Seq<char>,
    simulcast: bool,
)
    requires
        forall|i: int| 0 <= i < streams.len() ==> (#[trigger] streams[i]).id != stream_id,
    ensures
        with_track(streams, stream_id, track_id, simulcast).len() == streams.len() + 1,
        with_track(streams, stream_id, track_id, simulcast).drop_last() == streams,
        with_track(streams, stream_id, track_id, simulcast).last().id == stream_id,
        with_track(streams, stream_id, track_id, simulcast).last().tracks == seq![track_id],
        with_track(streams, stream_id, track_id, simulcast).last().simulcast == simulcast,
{
    lemma_stream_place(streams, stream_id);
    let place = stream_place(streams, stream_id) as int;
    if place < streams.len() {
        assert(streams[place].id == stream_id);
    }
    assert(with_track(streams, stream_id, track_id, simulcast).drop_last() =~= streams);
}

/// The place of a stream is the first with its id.
pub proof fn lemma_stream_place(streams: Seq<Stream>, id: Seq<char>)
    ensures
        0 <= stream_place(streams, id) <= streams.len(),
        stream_place(streams, id) < streams.len() ==> streams[stream_place(streams, id) as int].id
            == id,
        forall|i: int|
            0 <= i < stream_place(streams, id) && i < streams.len() ==> (#[trigger] streams[i]).id
                != id,
    decreases streams.len(),
{
    if streams.len() > 0 && streams[0].id != id {
        let rest = streams.skip(1);
        lemma_stream_place(rest, id);
        assert forall|i: int|
            0 <= i < stream_place(streams, id) && i < streams.len() implies (#[trigger] streams[i]).id
            != id by {
            if i > 0 {
                assert(rest[i - 1] == streams[i]);
            }
        }
    }
}

} // verus!
