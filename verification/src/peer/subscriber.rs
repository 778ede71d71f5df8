use vstd::prelude::*;

use crate::packet::params::RTCRtpCodecCapability;
use crate::peer::ice::{CandidateQueue, RTCIceCandidateInit};
use crate::peer::negotiation::{Negotiation, NegotiationEvent, NegotiationStep, RTCOfferOptions};
use crate::peer::sdp::{described_version, read_version};
use crate::registry::Registry;
use crate::text::{same, views};
use crate::track::downtrack::DownTrackInternal;
use crate::track::receiver::WebRTCReceiver;
use crate::track::router::{is_local_end, new_local_end};

verus! {

/// How often a source description is sent.
pub const REPORT_TIMES: u8 = 6;

/// Milliseconds between two source descriptions.
pub const REPORT_INTERVAL_MILLIS: u64 = 20;

/// Where the connection to a peer stands.
#[derive(Debug, Eq, PartialEq, Clone, Copy, Structural)]
pub enum IceConnectionState {
    Unspecified,
    New,
    Checking,
    Connected,
    Completed,
    Disconnected,
    Failed,
    Closed,
}

/// A track that is sent to a subscriber.
pub struct LocalTrack {
    /// The number of the down track.
    pub number: u64,
    pub stream_id: String,
    /// The number of the transceiver that the track is sent with.
    pub transceiver: Option<u64>,
}

/// A track that is sent to a subscriber.
pub ghost struct SentTrack {
    pub number: u64,
    pub stream_id: Seq<char>,
    pub transceiver: Option<u64>,
}

impl View for LocalTrack {
    type V = SentTrack;

    open spec fn view(&self) -> SentTrack {
        SentTrack {
            number: self.number,
            stream_id: self.stream_id@,
            transceiver: self.transceiver,
        }
    }
}

/// A channel for messages to a client.
pub struct DataChannel {
    pub label: String,
    pub number: u64,
}

/// What could not be sent.
#[derive(Debug, Eq, PartialEq, Clone, Copy, Structural)]
pub enum SendError {
    /// The channel is not open.
    ErrClosedPipe,
}

/// What is to be done to unsubscribe a track.
#[derive(Debug, Eq, PartialEq, Clone, Copy, Structural)]
pub enum Unsubscribe {
    Nothing,
    /// The sender of the transceiver with this number is to be taken out of the connection.
    RemoveSender(u64),
}

/// Sends tracks to a client.
pub struct Subscriber {
    pub id: String,
    pub no_auto_subscribe: bool,
    /// The tracks, by id.
    pub tracks: Registry<LocalTrack>,
    /// The ids of the tracks, by stream.
    pub stream_tracks: Registry<Vec<String>>,
    pub channels: Registry<u64>,
    pub candidates: CandidateQueue,
    pub negotiation: Negotiation,
    /// Whether someone has registered to send offers.
    pub on_offer: bool,
    pub api_channel: u64,
    pub api_channel_open: bool,
    pub session_version: u64,
}

/// The place of the first id, or the number of ids.
pub open spec fn id_place(ids: Seq<Seq<char>>, id: Seq<char>) -> int
    decreases ids.len(),
{
    if ids.len() == 0 || ids[0] == id {
        0
    } else {
        1 + id_place(ids.skip(1), id)
    }
}

/// The ids without the first one that is `id`, whose place the last one takes.
pub open spec fn without_id(ids: Seq<Seq<char>>, id: Seq<char>) -> Seq<Seq<char>> {
    let at = id_place(ids, id);
    if at < ids.len() {
        ids.update(at, ids.last()).drop_last()
    } else {
        ids
    }
}

/// The streams once a track was taken out of its stream. A stream without tracks is forgotten.
pub open spec fn stream_without(
    streams: Map<Seq<char>, Seq<Seq<char>>>,
    stream_id: Seq<char>,
    track_id: Seq<char>,
) -> Map<Seq<char>, Seq<Seq<char>>> {
    if streams.contains_key(stream_id) {
        let left = without_id(streams[stream_id], track_id);
        if left.len() == 0 {
            streams.remove(stream_id)
        } else {
            streams.insert(stream_id, left)
        }
    } else {
        streams
    }
}

/// The streams once a track was added to its stream.
pub open spec fn stream_with(
    streams: Map<Seq<char>, Seq<Seq<char>>>,
    stream_id: Seq<char>,
    track_id: Seq<char>,
) -> Map<Seq<char>, Seq<Seq<char>>> {
    streams.insert(
        stream_id,
        if streams.contains_key(stream_id) {
            streams[stream_id].push(track_id)
        } else {
            seq![track_id]
        },
    )
}

/// The numbers of the tracks with the given ids. Ids without a track are left out.
pub open spec fn numbers_of(tracks: Map<Seq<char>, SentTrack>, ids: Seq<Seq<char>>) -> Seq<u64>
    decreases ids.len(),
{
    if ids.len() == 0 {
        seq![]
    } else {
        let before = numbers_of(tracks, ids.drop_last());
        if tracks.contains_key(ids.last()) {
            before.push(tracks[ids.last()].number)
        } else {
            before
        }
    }
}

fn find_id(ids: &Vec<String>, id: &str) -> (at: usize)
    ensures
        at == id_place(views(ids@), id@),
        at <= ids@.len(),
{
    let ghost all = views(ids@);
    let mut i: usize = 0;
    assert(all.skip(0) =~= all);
    while i < ids.len()
        invariant
            all == views(ids@),
            i <= ids@.len(),
            id_place(all, id@) == i + id_place(all.skip(i as int), id@),
        decreases ids@.len() - i,
    {
        assert(all.skip(i as int)[0] == ids@[i as int]@);
        if same(ids[i].as_str(), id) {
            return i;
        }
        assert(all.skip(i as int).skip(1) =~= all.skip(i + 1));
        i = i + 1;
    }
    i
}

impl Subscriber {
    /// What every operation keeps.
    pub open spec fn wf(&self) -> bool {
        self.tracks.wf() && self.stream_tracks.wf() && self.channels.wf()
    }

    /// The tracks, by id.
    pub open spec fn sent(&self) -> Map<Seq<char>, SentTrack> {
        self.tracks@.map_values(|track: LocalTrack| track@)
    }

    /// The ids of the tracks, by stream.
    pub open spec fn streams(&self) -> Map<Seq<char>, Seq<Seq<char>>> {
        self.stream_tracks@.map_values(|ids: Vec<String>| views(ids@))
    }

    /// Creates a subscriber, which talks to its client on the given channel.
    pub fn new(id: String, api_channel: u64) -> (subscriber: Self)
        ensures
            subscriber.wf(),
            subscriber.id == id,
            !subscriber.no_auto_subscribe,
            subscriber.sent() == Map::<Seq<char>, SentTrack>::empty(),
            subscriber.streams() == Map::<Seq<char>, Seq<Seq<char>>>::empty(),
            subscriber.channels@ == Map::<Seq<char>, u64>::empty(),
            subscriber.candidates.waiting@.len() == 0,
            !subscriber.negotiation.remote_answer_pending,
            !subscriber.negotiation.negotiation_pending,
            !subscriber.on_offer,
            subscriber.api_channel == api_channel,
            !subscriber.api_channel_open,
            subscriber.session_version == 0,
    {
        let subscriber = Self {
            id,
            no_auto_subscribe: false,
            tracks: Registry::new(),
            stream_tracks: Registry::new(),
            channels: Registry::new(),
            candidates: CandidateQueue::new(),
            negotiation: Negotiation::new(),
            on_offer: false,
            api_channel,
            api_channel_open: false,
            session_version: 0,
        };
        assert(subscriber.sent() =~= Map::<Seq<char>, SentTrack>::empty());
        assert(subscriber.streams() =~= Map::<Seq<char>, Seq<Seq<char>>>::empty());
        subscriber
    }

    pub fn id(&self) -> (id: String)
        ensures
            id@ == self.id@,
    {
        self.id.clone()
    }

    pub fn api_channel(&self) -> (channel: u64)
        ensures
            channel == self.api_channel,
    {
        self.api_channel
    }

    pub fn session_version(&self) -> (version: u64)
        ensures
            version == self.session_version,
    {
        self.session_version
    }

    /// Takes note that the channel to the client was opened or closed.
    pub fn set_api_channel_open(&mut self, open: bool)
        ensures
            *final(self) == (Subscriber { api_channel_open: open, ..*old(self) }),
    {
        self.api_channel_open = open;
    }

    /// Takes note that someone has registered to send offers.
    pub fn on_offer(&mut self)
        ensures
            *final(self) == (Subscriber { on_offer: true, ..*old(self) }),
    {
        self.on_offer = true;
    }

    /// Stores a channel on which a client says what it wants to receive.
    pub fn add_data_channel(&mut self, label: &str, channel: u64)
        requires
            old(self).wf(),
        ensures
            final(self).wf(),
            *final(self) == (Subscriber { channels: final(self).channels, ..*old(self) }),
            final(self).channels@ == old(self).channels@.insert(label@, channel),
    {
        let _before = self.channels.insert(label.to_owned(), channel);
    }

    pub fn register_data_channel(&mut self, label: String, dc: u64)
        requires
            old(self).wf(),
        ensures
            final(self).wf(),
            *final(self) == (Subscriber { channels: final(self).channels, ..*old(self) }),
            final(self).channels@ == old(self).channels@.insert(label@, dc),
    {
        let _before = self.channels.insert(label, dc);
    }

    pub fn data_channel(&self, label: &str) -> (res: Option<u64>)
        requires
            self.wf(),
        ensures
            res == if self.channels@.contains_key(label@) {
                Some(self.channels@[label@])
            } else {
                None
            },
    {
        match self.channels.get(label) {
            Some(channel) => Some(*channel),
            None => None,
        }
    }

    /// Takes a channel out, to close it.
    pub fn remove_data_channel(&mut self, label: &str) -> (res: Option<u64>)
        requires
            old(self).wf(),
        ensures
            final(self).wf(),
            *final(self) == (Subscriber { channels: final(self).channels, ..*old(self) }),
            final(self).channels@ == old(self).channels@.remove(label@),
            res == if old(self).channels@.contains_key(label@) {
                Some(old(self).channels@[label@])
            } else {
                None
            },
    {
        self.channels.remove(label)
    }

    /// Crates a local data channel, and stores it by the provided label key.
    /// Side effect: Any existing channel with same label is closed.
    ///
    /// # Returns
    /// - The channel
    /// - The existing channel to close
    pub fn create_data_channel(&mut self, label: String, number: u64) -> (res: (
        DataChannel,
        Option<u64>,
    ))
        requires
            old(self).wf(),
        ensures
            final(self).wf(),
            *final(self) == (Subscriber { channels: final(self).channels, ..*old(self) }),
            final(self).channels@ == old(self).channels@.insert(label@, number),
            res.0.label@ == label@,
            res.0.number == number,
            res.1 == if old(self).channels@.contains_key(label@) {
                Some(old(self).channels@[label@])
            } else {
                None
            },
    {
        let name = label.clone();
        let existing = self.channels.insert(label, number);
        (DataChannel { label: name, number }, existing)
    }

    /// Adds a candidate to this peer.
    /// If the connection does not have a remote description yet, candidates are stored.
    pub fn add_ice_candidate(
        &mut self,
        candidate: RTCIceCandidateInit,
        has_remote_description: bool,
    ) -> (res: Option<RTCIceCandidateInit>)
        ensures
            *final(self) == (Subscriber { candidates: final(self).candidates, ..*old(self) }),
            has_remote_description ==> res == Some(candidate) && final(self).candidates
                == old(self).candidates,
            !has_remote_description ==> res is None && final(self).candidates.waiting@
                == old(self).candidates.waiting@.push(candidate),
    {
        self.candidates.add_ice_candidate(candidate, has_remote_description)
    }

    pub fn negotiate(&mut self, offer_options: Option<RTCOfferOptions>) -> (step: NegotiationStep)
        ensures
            *final(self) == (Subscriber {
                negotiation: old(self).negotiation.after(NegotiationEvent::Requested),
                ..*old(self)
            }),
            step == if old(self).negotiation.asks_offer(NegotiationEvent::Requested) {
                NegotiationStep::CreateOffer(offer_options)
            } else {
                NegotiationStep::Nothing
            },
    {
        self.negotiation.negotiate(offer_options)
    }

    /// Negotiates with the given ice_restart value
    pub fn renegotiate(&mut self, ice_restart: bool) -> (step: NegotiationStep)
        ensures
            *final(self) == (Subscriber {
                negotiation: old(self).negotiation.after(NegotiationEvent::Requested),
                ..*old(self)
            }),
            step == if old(self).negotiation.asks_offer(NegotiationEvent::Requested) {
                NegotiationStep::CreateOffer(
                    Some(RTCOfferOptions { voice_activity_detection: true, ice_restart }),
                )
            } else {
                NegotiationStep::Nothing
            },
    {
        self.negotiate(Some(RTCOfferOptions { voice_activity_detection: true, ice_restart }))
    }

    /// Takes note of the session version of an offer, if it could be read.
    pub fn note_version(&mut self, version: Option<u64>)
        ensures
            *final(self) == (Subscriber {
                session_version: match version {
                    Some(v) => v,
                    None => old(self).session_version,
                },
                ..*old(self)
            }),
    {
        if let Some(v) = version {
            self.session_version = v;
        }
    }

    /// Takes note of an offer that was created and set as the local description.
    ///
    /// # Returns
    /// - Whether the offer is to be sent
    pub fn offer_created(&mut self, sdp: &str) -> (sends: bool)
        ensures
            *final(self) == (Subscriber {
                session_version: match described_version(sdp@) {
                    Some(v) => v,
                    None => old(self).session_version,
                },
                negotiation: old(self).negotiation.after(NegotiationEvent::OfferCreated),
                ..*old(self)
            }),
            sends == old(self).on_offer,
    {
        self.note_version(read_version(sdp));
        self.negotiation.offer_created();
        self.on_offer
    }

    /// Takes note that the remote description was set. If there is a pending negotiation (or renegotiation),
    /// it is started.
    ///
    /// # Returns
    /// - The candidates to add to the connection
    /// - Whether an offer is to be created
    pub fn on_remote_answer(&mut self) -> (res: (Vec<RTCIceCandidateInit>, NegotiationStep))
        ensures
            *final(self) == (Subscriber {
                candidates: final(self).candidates,
                negotiation: old(self).negotiation.after(NegotiationEvent::Answered),
                ..*old(self)
            }),
            res.0@ == old(self).candidates.waiting@,
            final(self).candidates.waiting@.len() == 0,
            res.1 == if old(self).negotiation.asks_offer(NegotiationEvent::Answered) {
                NegotiationStep::CreateOffer(None)
            } else {
                NegotiationStep::Nothing
            },
    {
        let candidates = self.candidates.take();
        (candidates, self.negotiation.answered())
    }

    /// Takes note that the remote description was set.
    ///
    /// # Returns
    /// - The candidates to add to the connection
    pub fn set_remote_description(&mut self) -> (candidates: Vec<RTCIceCandidateInit>)
        ensures
            *final(self) == (Subscriber {
                candidates: final(self).candidates,
                negotiation: Negotiation {
                    negotiation_pending: false,
                    ..old(self).negotiation
                },
                ..*old(self)
            }),
            candidates@ == old(self).candidates.waiting@,
            final(self).candidates.waiting@.len() == 0,
    {
        self.negotiation.negotiation_pending = false;
        self.candidates.take()
    }

    /// Whether the connection is to be restarted, in a new state.
    pub fn on_ice_connection_state_change(&self, state: IceConnectionState) -> (restarts: bool)
        ensures
            restarts == (state == IceConnectionState::Failed),
    {
        match state {
            IceConnectionState::Failed => true,
            _ => false,
        }
    }

    /// Whether a message can be sent to the client.
    pub fn send_message(&self) -> (res: core::result::Result<(), SendError>)
        ensures
            res == if self.api_channel_open {
                Ok::<(), SendError>(())
            } else {
                Err::<(), SendError>(SendError::ErrClosedPipe)
            },
    {
        if !self.api_channel_open {
            return Err(SendError::ErrClosedPipe);
        }
        Ok(())
    }

    /// The ids of the tracks of a stream, or none.
    pub open spec fn ids_in(&self, stream_id: Seq<char>) -> Seq<Seq<char>> {
        if self.streams().contains_key(stream_id) {
            self.streams()[stream_id]
        } else {
            seq![]
        }
    }

    /// Get all tracks for a given stream ID
    pub fn get_tracks_by_stream(&self, stream_id: &str) -> (numbers: Vec<u64>)
        requires
            self.wf(),
        ensures
            numbers@ == numbers_of(self.sent(), self.ids_in(stream_id@)),
    {
        match self.stream_tracks.get(stream_id) {
            None => {
                let none: Vec<u64> = Vec::new();
                assert(none@ =~= numbers_of(self.sent(), seq![]));
                none
            },
            Some(ids) => {
                assert(self.ids_in(stream_id@) == views(ids@));
                self.numbers(ids)
            },
        }
    }

    fn numbers(&self, ids: &Vec<String>) -> (numbers: Vec<u64>)
        requires
            self.wf(),
        ensures
            numbers@ == numbers_of(self.sent(), views(ids@)),
    {
        let ghost all = views(ids@);
        let mut numbers: Vec<u64> = Vec::new();
        let mut i: usize = 0;
        assert(all.take(0) =~= seq![]);
        assert(numbers@ =~= numbers_of(self.sent(), all.take(0)));
        while i < ids.len()
            invariant
                self.wf(),
                all == views(ids@),
                i <= ids@.len(),
                numbers@ == numbers_of(self.sent(), all.take(i as int)),
            decreases ids@.len() - i,
        {
            proof {
                assert(all.take(i + 1).drop_last() =~= all.take(i as int));
                assert(all.take(i + 1).last() == ids@[i as int]@);
            }
            if let Some(track) = self.tracks.get(ids[i].as_str()) {
                assert(self.sent().contains_key(ids@[i as int]@));
                numbers.push(track.number);
            }
            i = i + 1;
        }
        assert(all.take(i as int) =~= all);
        numbers
    }

    /// Stores a track that is sent to the client.
    pub fn add_down_track(&mut self, id: String, track: LocalTrack)
        requires
            old(self).wf(),
        ensures
            final(self).wf(),
            *final(self) == (Subscriber {
                tracks: final(self).tracks,
                stream_tracks: final(self).stream_tracks,
                ..*old(self)
            }),
            final(self).sent() == old(self).sent().insert(id@, track@),
            final(self).streams() == stream_with(old(self).streams(), track.stream_id@, id@),
            stored(*old(self), *final(self), id@, track@),
    {
        let ghost sent = self.sent();
        let ghost streams = self.streams();
        let stream_id = track.stream_id.clone();
        let _before = self.tracks.insert(id.clone(), track);
        assert(self.sent() =~= sent.insert(id@, track@));
        let mut ids: Vec<String> = match self.stream_tracks.remove(stream_id.as_str()) {
            Some(ids) => ids,
            None => Vec::new(),
        };
        let ghost was = views(ids@);
        proof {
            assert(self.streams() =~= streams.remove(stream_id@));
            if streams.contains_key(stream_id@) {
                assert(was == streams[stream_id@]);
            }
        }
        ids.push(id);
        let ghost now = views(ids@);
        assert(now =~= was.push(id@));
        let _none = self.stream_tracks.insert(stream_id, ids);
        proof {
            assert(seq![id@] =~= Seq::<Seq<char>>::empty().push(id@));
            if !streams.contains_key(stream_id@) {
                assert(was =~= seq![]);
            }
            assert(self.streams() =~= streams.insert(stream_id@, now));
        }
    }

    pub fn down_track_by_id(&self, id: &str) -> (res: Option<&LocalTrack>)
        requires
            self.wf(),
        ensures
            match res {
                None => !self.sent().contains_key(id@),
                Some(track) => self.sent().contains_key(id@) && track@ == self.sent()[id@],
            },
    {
        self.tracks.get(id)
    }

    /// Forgets a track. A stream without tracks is forgotten too.
    pub fn remove_down_track(&mut self, track_id: &str, stream_id: &str)
        requires
            old(self).wf(),
        ensures
            final(self).wf(),
            *final(self) == (Subscriber {
                tracks: final(self).tracks,
                stream_tracks: final(self).stream_tracks,
                ..*old(self)
            }),
            final(self).sent() == old(self).sent().remove(track_id@),
            final(self).streams() == if old(self).sent().contains_key(track_id@) {
                stream_without(old(self).streams(), stream_id@, track_id@)
            } else {
                old(self).streams()
            },
    {
        let ghost sent = self.sent();
        let ghost streams = self.streams();
        let removed = self.tracks.remove(track_id);
        assert(self.sent() =~= sent.remove(track_id@));
        if removed.is_none() {
            // Track doesn't exist
            return ;
        }
        let mut ids = match self.stream_tracks.remove(stream_id) {
            None => {
                assert(self.streams() =~= streams);
                return ;
            },
            Some(ids) => ids,
        };
        let ghost was = views(ids@);
        proof {
            assert(self.streams() =~= streams.remove(stream_id@));
            assert(was == streams[stream_id@]);
        }
        let at: usize = find_id(&ids, track_id);
        if at < ids.len() {
            let _id = ids.swap_remove(at);
        }
        let ghost now = views(ids@);
        assert(now =~= without_id(was, track_id@));
        if ids.len() > 0 {
            let _none = self.stream_tracks.insert(stream_id.to_owned(), ids);
            assert(self.streams() =~= streams.insert(stream_id@, now));
        } else {
            assert(now.len() == 0);
        }
    }

    /// Creates the end of a new track for the packets of a receiver.
    pub fn new_local_track(
        &self,
        codec_capability: RTCRtpCodecCapability,
        receiver: &WebRTCReceiver,
        capacity: u16,
    ) -> (local: DownTrackInternal)
        requires
            capacity > 0,
        ensures
            is_local_end(local, *receiver, codec_capability@, capacity as int),
    {
        new_local_end(codec_capability, receiver, capacity)
    }

    /// Forgets a track that is to be unsubscribed.
    pub fn unsubscribe_track(&mut self, track_id: &str, connection_closed: bool) -> (res: Unsubscribe)
        requires
            old(self).wf(),
        ensures
            final(self).wf(),
            *final(self) == (Subscriber {
                tracks: final(self).tracks,
                stream_tracks: final(self).stream_tracks,
                ..*old(self)
            }),
            ({
                let sent = old(self).sent();
                if connection_closed || !sent.contains_key(track_id@) {
                    // Nothing to unsubscribe
                    res == Unsubscribe::Nothing && *final(self) == *old(self)
                } else {
                    &&& res == match sent[track_id@].transceiver {
                        Some(number) => Unsubscribe::RemoveSender(number),
                        None => Unsubscribe::Nothing,
                    }
                    &&& final(self).sent() == sent.remove(track_id@)
                    &&& final(self).streams() == stream_without(
                        old(self).streams(),
                        sent[track_id@].stream_id,
                        track_id@,
                    )
                }
            }),
            unsubscribed(*old(self), *final(self), track_id@, connection_closed, res),
    {
        if connection_closed {
            return Unsubscribe::Nothing;
        }
        let (transceiver, stream_id) = match self.down_track_by_id(track_id) {
            None => {
                // Track already removed
                return Unsubscribe::Nothing;
            },
            Some(track) => (track.transceiver, track.stream_id.clone()),
        };
        self.remove_down_track(track_id, stream_id.as_str());
        match transceiver {
            Some(number) => Unsubscribe::RemoveSender(number),
            None => Unsubscribe::Nothing,
        }
    }

    /// Takes note that the sender of a track was taken out of the connection.
    pub fn sender_removed(&mut self) -> (step: NegotiationStep)
        ensures
            *final(self) == (Subscriber {
                negotiation: old(self).negotiation.after(NegotiationEvent::Requested),
                ..*old(self)
            }),
            step == if old(self).negotiation.asks_offer(NegotiationEvent::Requested) {
                NegotiationStep::CreateOffer(None)
            } else {
                NegotiationStep::Nothing
            },
    {
        // If remote answer is pending, the negotiation is put off
        self.negotiate(None)
    }
}

/// A track that was added is found by its id, and among the tracks of its stream.
pub proof fn law_added_track_is_found(
    before: Subscriber,
    after: Subscriber,
    id: Seq<char>,
    track: SentTrack,
)
    requires
        after.sent() == before.sent().insert(id, track),
        after.streams() == stream_with(before.streams(), track.stream_id, id),
    ensures
        after.sent().contains_key(id),
        after.sent()[id] == track,
        numbers_of(after.sent(), after.ids_in(track.stream_id)).last() == track.number,
        numbers_of(after.sent(), after.ids_in(track.stream_id)).len() > 0,
{
    let ids = after.ids_in(track.stream_id);
    assert(ids.last() == id);
}

/// Forgetting a new track undoes adding it.
pub proof fn law_remove_undoes_add(
    streams: Map<Seq<char>, Seq<Seq<char>>>,
    tracks: Map<Seq<char>, SentTrack>,
    id: Seq<char>,
    track: SentTrack,
)
    requires
        !tracks.contains_key(id),
        streams.contains_key(track.stream_id) ==> streams[track.stream_id].len() > 0
            && !streams[track.stream_id].contains(id),
    ensures
        tracks.insert(id, track).remove(id) == tracks,
        stream_without(stream_with(streams, track.stream_id, id), track.stream_id, id) == streams,
{
    assert(tracks.insert(id, track).remove(id) =~= tracks);
    let with = stream_with(streams, track.stream_id, id);
    let ids = with[track.stream_id];
    if streams.contains_key(track.stream_id) {
        let was = streams[track.stream_id];
        lemma_last_place(was, id);
        assert(without_id(ids, id) =~= was);
        assert(stream_without(with, track.stream_id, id) =~= streams);
    } else {
        assert(id_place(ids, id) == 0);
        assert(without_id(ids, id).len() == 0);
        assert(stream_without(with, track.stream_id, id) =~= streams);
    }
}

/// An id that is added at the end, and was not there, is found at the end.
proof fn lemma_last_place(ids: Seq<Seq<char>>, id: Seq<char>)
    requires
        !ids.contains(id),
    ensures
        id_place(ids.push(id), id) == ids.len(),
    decreases ids.len(),
{
    if ids.len() > 0 {
        assert(ids.push(id).skip(1) =~= ids.skip(1).push(id));
        assert(ids[0] != id) by {
            assert(ids.contains(ids[0]));
        }
        assert(!ids.skip(1).contains(id)) by {
            if ids.skip(1).contains(id) {
                let i = choose|i: int| 0 <= i < ids.skip(1).len() && ids.skip(1)[i] == id;
                assert(ids[i + 1] == id);
            }
        }
        lemma_last_place(ids.skip(1), id);
    }
}

/// Whether the track was stored.
pub open spec fn stored(
    before: Subscriber,
    after: Subscriber,
    id: Seq<char>,
    track: SentTrack,
) -> bool {
    &&& after.sent() == before.sent().insert(id, track)
    &&& after.streams() == stream_with(before.streams(), track.stream_id, id)
}

/// Whether the track was unsubscribed, and what is to be done about it.
pub open spec fn unsubscribed(
    before: Subscriber,
    after: Subscriber,
    id: Seq<char>,
    connection_closed: bool,
    res: Unsubscribe,
) -> bool {
    if connection_closed || !before.sent().contains_key(id) {
        res == Unsubscribe::Nothing && after == before
    } else {
        &&& res == match before.sent()[id].transceiver {
            Some(number) => Unsubscribe::RemoveSender(number),
            None => Unsubscribe::Nothing,
        }
        &&& after.sent() == before.sent().remove(id)
        &&& after.streams() == stream_without(before.streams(), before.sent()[id].stream_id, id)
    }
}

/// One occurrence of the id is taken out, and no other id.
pub proof fn law_one_id_is_taken_out(ids: Seq<Seq<char>>, id: Seq<char>)
    ensures
        without_id(ids, id).to_multiset() == ids.to_multiset().remove(id),
        ids.contains(id) ==> without_id(ids, id).len() == ids.len() - 1,
        !ids.contains(id) ==> without_id(ids, id) == ids,
{
    broadcast use vstd::seq_lib::group_to_multiset_ensures;

    lemma_id_place(ids, id);
    let at = id_place(ids, id);
    if at < ids.len() {
        let moved = ids.update(at, ids.last());
        assert(ids[at] == id);
        assert(ids.contains(ids.last()));
        assert(moved.to_multiset() =~= ids.to_multiset().insert(ids.last()).remove(id)) by {
            vstd::seq_lib::to_multiset_update(ids, at, ids.last());
        }
        assert(moved[moved.len() - 1] == ids.last());
        assert(moved.drop_last() =~= moved.remove(moved.len() - 1));
        vstd::seq_lib::to_multiset_remove(moved, moved.len() - 1);
        assert(without_id(ids, id).to_multiset() =~= ids.to_multiset().remove(id));
    } else {
        if ids.contains(id) {
            let i = choose|i: int| 0 <= i < ids.len() && ids[i] == id;
            assert(ids[i] != id);
        }
        assert(ids.to_multiset().remove(id) =~= ids.to_multiset());
    }
}

/// The place of an id is the first where it stands.
proof fn lemma_id_place(ids: Seq<Seq<char>>, id: Seq<char>)
    ensures
        0 <= id_place(ids, id) <= ids.len(),
        id_place(ids, id) < ids.len() ==> ids[id_place(ids, id)] == id,
        forall|i: int| 0 <= i < id_place(ids, id) && i < ids.len() ==> #[trigger] ids[i] != id,
    decreases ids.len(),
{
    if ids.len() > 0 && ids[0] != id {
        let rest = ids.skip(1);
        lemma_id_place(rest, id);
        assert forall|i: int|
            0 <= i < id_place(ids, id) && i < ids.len() implies #[trigger] ids[i] != id by {
            if i > 0 {
                assert(rest[i - 1] == ids[i]);
            }
        }
    }
}

/// A track that is unsubscribed is not sent any longer, the other tracks are, and the sender that it
/// was sent with is taken out of the connection.
pub proof fn law_unsubscribed_track_is_not_sent(
    before: Subscriber,
    after: Subscriber,
    id: Seq<char>,
    connection_closed: bool,
    res: Unsubscribe,
    other: Seq<char>,
)
    requires
        unsubscribed(before, after, id, connection_closed, res),
        other != id,
    ensures
        !connection_closed ==> !after.sent().contains_key(id),
        connection_closed ==> after == before && res == Unsubscribe::Nothing,
        after.sent().contains_key(other) <==> before.sent().contains_key(other),
        before.sent().contains_key(other) ==> after.sent()[other] == before.sent()[other],
        forall|sender: u64|
            res == Unsubscribe::RemoveSender(sender) <==> !connection_closed
                && before.sent().contains_key(id) && #[trigger] before.sent()[id].transceiver
                == Some(sender),
        !connection_closed && before.sent().contains_key(id) ==> forall|stream: Seq<char>|
            stream != before.sent()[id].stream_id ==> (
            #[trigger] after.streams().contains_key(stream) <==> before.streams().contains_key(
                stream,
            )) && after.ids_in(stream) == before.ids_in(stream),
{
}

/// A stream is known as long as it has a track.
pub proof fn law_stream_without_tracks_is_forgotten(
    streams: Map<Seq<char>, Seq<Seq<char>>>,
    stream: Seq<char>,
    id: Seq<char>,
)
    requires
        streams.contains_key(stream),
    ensures
        streams[stream] == seq![id] ==> !stream_without(streams, stream, id).contains_key(stream),
        streams[stream].len() > 1 ==> stream_without(streams, stream, id).contains_key(stream)
            && stream_without(streams, stream, id)[stream].len() >= streams[stream].len() - 1,
{
    law_one_id_is_taken_out(streams[stream], id);
    if streams[stream] == seq![id] {
        assert(streams[stream].contains(streams[stream][0]));
    }
}

/// The tracks of a stream are those that are sent with one of its ids, in the order of the ids.
pub proof fn law_tracks_of_a_stream_are_found(
    tracks: Map<Seq<char>, SentTrack>,
    ids: Seq<Seq<char>>,
    next: Seq<char>,
)
    ensures
        forall|i: int|
            0 <= i < ids.len() && tracks.contains_key(#[trigger] ids[i]) ==> numbers_of(
                tracks,
                ids,
            ).contains(tracks[ids[i]].number),
        (forall|i: int| 0 <= i < ids.len() ==> tracks.contains_key(#[trigger] ids[i]))
            ==> numbers_of(tracks, ids).len() == ids.len() && forall|i: int|
            0 <= i < ids.len() ==> #[trigger] numbers_of(tracks, ids)[i] == tracks[ids[i]].number,
        tracks.contains_key(next) ==> numbers_of(tracks, ids.push(next)) == numbers_of(
            tracks,
            ids,
        ).push(tracks[next].number),
        !tracks.contains_key(next) ==> numbers_of(tracks, ids.push(next)) == numbers_of(
            tracks,
            ids,
        ),
    decreases ids.len(),
{
    assert(ids.push(next).drop_last() =~= ids);
    if ids.len() > 0 {
        let rest = ids.drop_last();
        let before = numbers_of(tracks, rest);
        let now = numbers_of(tracks, ids);
        law_tracks_of_a_stream_are_found(tracks, rest, ids.last());
        assert(rest.push(ids.last()) =~= ids);
        assert forall|i: int|
            0 <= i < ids.len() && tracks.contains_key(#[trigger] ids[i]) implies now.contains(
            tracks[ids[i]].number,
        ) by {
            if i < rest.len() {
                assert(rest[i] == ids[i]);
                let k = choose|k: int| 0 <= k < before.len() && before[k] == tracks[ids[i]].number;
                assert(now[k] == tracks[ids[i]].number);
            } else {
                assert(now[now.len() - 1] == tracks[ids[i]].number);
            }
        }
        if forall|i: int| 0 <= i < ids.len() ==> tracks.contains_key(#[trigger] ids[i]) {
            assert forall|i: int| 0 <= i < rest.len() implies tracks.contains_key(
                #[trigger] rest[i],
            ) by {
                assert(tracks.contains_key(ids[i]));
            }
            assert(tracks.contains_key(ids[ids.len() - 1]));
            assert forall|i: int| 0 <= i < ids.len() implies #[trigger] now[i]
                == tracks[ids[i]].number by {
                if i < rest.len() {
                    assert(before[i] == tracks[rest[i]].number);
                }
            }
        }
    }
}

/// A new track stands behind the others of its stream, and no other stream is touched.
pub proof fn law_stored_track_stands_last_in_its_stream(
    before: Subscriber,
    after: Subscriber,
    id: Seq<char>,
    track: SentTrack,
    other: Seq<char>,
)
    requires
        stored(before, after, id, track),
        other != track.stream_id,
    ensures
        after.sent().contains_key(id),
        after.sent()[id] == track,
        forall|known: Seq<char>|
            known != id ==> (#[trigger] after.sent().contains_key(known)
                <==> before.sent().contains_key(known)),
        after.ids_in(track.stream_id).len() == before.ids_in(track.stream_id).len() + 1,
        after.ids_in(track.stream_id).last() == id,
        after.ids_in(track.stream_id).drop_last() =~= before.ids_in(track.stream_id),
        after.ids_in(other) == before.ids_in(other),
{
}

} // verus!
