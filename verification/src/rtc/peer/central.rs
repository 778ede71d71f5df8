use vstd::prelude::*;

use crate::packet::params::RTCRtpParameters;
use crate::peer::answer::{answer_step, answer_stepped, AnswerAction, AnswerEvent};
use crate::peer::api::API_CHANNEL_LABEL;
use crate::peer::error::{Error, Result};
use crate::peer::ice::{CandidateQueue, RTCIceCandidateInit};
use crate::peer::negotiation::{Negotiation, NegotiationEvent, NegotiationStep, RTCOfferOptions};
use crate::peer::streams::{
    law_first_track_with_the_id_is_found, number_of, refs_of, StreamTracks, TrackRef,
};
use crate::registry::Registry;
use crate::rtc::config::RouterConfig;
use crate::text::same;
use crate::track::downtrack::DownTrackInternal;
use crate::track::error::Error as TrackError;
use crate::track::receiver::WebRTCReceiver;
use crate::track::router::{
    is_local_end, is_sent_track, new_local_end, new_sent_track, sent_new_track, track_capacity,
    AddedReceiver, LocalRouter, RemoteTrack,
};

verus! {

/// How often a source description is sent.
pub const REPORT_TIMES: u8 = 5;

/// Peer with a single connection, which sends and receives.
pub struct CentralPeer {
    pub id: String,
    pub config: RouterConfig,
    pub closed: bool,
    /// The room that the peer joined.
    pub room: Option<String>,
    pub api_channel: Option<u64>,
    pub candidates: CandidateQueue,
    pub channels: Registry<u64>,
    /// Whether there is a peer connection.
    pub connected: bool,
    pub router: Option<LocalRouter>,
    pub downtracks: StreamTracks,
    pub negotiation: Negotiation,
    /// Whether someone has registered to send candidates.
    pub on_ice_candidate: bool,
    /// Whether someone has registered to hear of the state of the connection.
    pub on_ice_connection_state_change: bool,
    /// Whether someone has registered to send offers.
    pub on_offer: bool,
}

/// What a receiver says to a track, as the peer tells it.
pub open spec fn peer_result(res: core::result::Result<(), TrackError>) -> Result<()> {
    match res {
        Ok(done) => Ok(done),
        Err(error) => Err(Error::ErrTrack(error)),
    }
}

impl CentralPeer {
    /// What every operation keeps.
    pub open spec fn wf(&self) -> bool {
        &&& self.channels.wf()
        &&& self.downtracks.wf()
        &&& self.router matches Some(router) ==> router.wf()
    }

    /// Create a new Peer
    pub fn new(id: String, config: RouterConfig) -> (peer: Self)
        ensures
            peer.wf(),
            peer.id == id,
            peer.config == config,
            !peer.closed,
            peer.room is None,
            peer.api_channel is None,
            peer.candidates.waiting@.len() == 0,
            peer.channels@ == Map::<Seq<char>, u64>::empty(),
            !peer.connected,
            peer.router is None,
            peer.downtracks@ == Map::<Seq<char>, Seq<(Seq<char>, u64)>>::empty(),
            !peer.negotiation.remote_answer_pending,
            !peer.negotiation.negotiation_pending,
            !peer.on_ice_candidate,
            !peer.on_ice_connection_state_change,
            !peer.on_offer,
    {
        Self {
            id,
            config,
            closed: false,
            room: None,
            api_channel: None,
            candidates: CandidateQueue::new(),
            channels: Registry::new(),
            connected: false,
            router: None,
            downtracks: StreamTracks::new(),
            negotiation: Negotiation::new(),
            on_ice_candidate: false,
            on_ice_connection_state_change: false,
            on_offer: false,
        }
    }

    /// Stores a channel on which the client says what it wants to receive.
    pub fn add_data_channel(&mut self, label: &str, channel: u64)
        requires
            old(self).wf(),
        ensures
            final(self).wf(),
            *final(self) == (CentralPeer { channels: final(self).channels, ..*old(self) }),
            final(self).channels@ == old(self).channels@.insert(label@, channel),
    {
        let _before = self.channels.insert(label.to_owned(), channel);
    }

    /// Takes in a channel that the client opened.
    pub fn on_data_channel(&mut self, label: &str, channel: u64)
        requires
            old(self).wf(),
        ensures
            final(self).wf(),
            if label@ == API_CHANNEL_LABEL@ {
                *final(self) == (CentralPeer { api_channel: Some(channel), ..*old(self) })
            } else {
                &&& *final(self) == (CentralPeer { channels: final(self).channels, ..*old(self) })
                &&& final(self).channels@ == old(self).channels@.insert(label@, channel)
            },
    {
        if same(label, API_CHANNEL_LABEL) {
            self.api_channel = Some(channel);
        } else {
            self.add_data_channel(label, channel);
        }
    }

    /// The tracks of a stream, for a client that says what it wants to receive of it.
    pub fn get_tracks(&self, stream_id: &str) -> (res: Option<&Vec<TrackRef>>)
        requires
            self.wf(),
        ensures
            match res {
                None => !self.downtracks@.contains_key(stream_id@),
                Some(list) => self.downtracks@.contains_key(stream_id@) && refs_of(list@)
                    == self.downtracks@[stream_id@],
            },
    {
        self.downtracks.get_tracks(stream_id)
    }

    /// Plans how the track of a receiver is sent to the client.
    ///
    /// # Returns
    /// - The end of a new track, for which a transceiver is to be added, or None if the track is sent
    ///   already
    /// - `Error::ErrNoTransportEstablished` if there is no connection
    pub fn plan_down_track(&self, receiver: &WebRTCReceiver) -> (res: Result<
        Option<DownTrackInternal>,
    >)
        requires
            self.wf(),
            track_capacity(self.config) > 0,
        ensures
            if number_of(
                self.downtracks.of_stream(receiver.stream_id@),
                receiver.track_id@,
            ) is Some {
                res == Ok::<Option<DownTrackInternal>, Error>(None)
            } else if !self.connected {
                res == Err::<Option<DownTrackInternal>, Error>(Error::ErrNoTransportEstablished)
            } else {
                res matches Ok(Some(local)) && is_local_end(
                    local,
                    *receiver,
                    receiver.codec.capability@,
                    track_capacity(self.config),
                )
            },
            planned(*self, *receiver, res),
    {
        // Checks for available tracks
        if self.downtracks.find(
            receiver.stream_id.as_str(),
            receiver.track_id.as_str(),
        ).is_some() {
            return Ok(None);
        }
        if !self.connected {
            return Err(Error::ErrNoTransportEstablished);
        }
        let capacity: u16 = (self.config.max_packet_track % 0x1_0000) as u16;
        Ok(Some(new_local_end(receiver.codec.capability.copy(), receiver, capacity)))
    }

    /// Sends the track of a receiver to the client, for whom a transceiver was added.
    ///
    /// # Arguments
    /// - `local`: The end of the track, as it was planned
    /// - `number`: The number of the new track
    pub fn add_down_track(
        &mut self,
        receiver: &str,
        local: DownTrackInternal,
        transceiver: u64,
        rtx_ssrcs: &Vec<u32>,
        number: u64,
        now: u64,
    ) -> (res: Result<()>)
        requires
            old(self).wf(),
            local.wf(),
            old(self).router matches Some(router) && router.receivers@.contains_key(receiver@),
        ensures
            final(self).wf(),
            *final(self) == (CentralPeer {
                router: final(self).router,
                downtracks: final(self).downtracks,
                ..*old(self)
            }),
            final(self).router is Some,
            final(self).router->Some_0 == (LocalRouter {
                receivers: final(self).router->Some_0.receivers,
                ..old(self).router->Some_0
            }),
            final(self).router->Some_0.receivers@ == old(self).router->Some_0.receivers@.insert(
                receiver@,
                final(self).router->Some_0.receivers@[receiver@],
            ),
            final(self).downtracks@ == old(self).downtracks@.insert(
                old(self).router->Some_0.receivers@[receiver@].stream_id@,
                old(self).downtracks.of_stream(
                    old(self).router->Some_0.receivers@[receiver@].stream_id@,
                ).push((local.id@, number)),
            ),
            exists|said: core::result::Result<(), TrackError>|
                res == peer_result(said) && #[trigger] sent_new_track(
                    old(self).router->Some_0.receivers@[receiver@],
                    final(self).router->Some_0.receivers@[receiver@],
                    old(self).id@,
                    local,
                    transceiver,
                    rtx_ssrcs@,
                    now,
                    old(self).router->Some_0.config.simulcast.best_quality_first,
                    said,
                ),
    {
        let id = local.id.clone();
        let cname = self.id.clone();
        let track = new_sent_track(cname, local, transceiver, rtx_ssrcs, now);
        assert(is_sent_track(track, self.id@, local, transceiver, rtx_ssrcs@, now));
        let (said, stream_id) = match self.router.as_mut() {
            Some(router) => {
                let stream_id = match router.receivers.get(receiver) {
                    Some(found) => found.stream_id.clone(),
                    None => String::new(),
                };
                (router.store_down_track(receiver, track), stream_id)
            },
            None => (Err(TrackError::ErrNoReceiverFound), String::new()),
        };
        self.downtracks.push(stream_id, TrackRef { id, number });
        assert(sent_new_track(
            old(self).router->Some_0.receivers@[receiver@],
            self.router->Some_0.receivers@[receiver@],
            old(self).id@,
            local,
            transceiver,
            rtx_ssrcs@,
            now,
            old(self).router->Some_0.config.simulcast.best_quality_first,
            said,
        ));
        match said {
            Ok(done) => Ok(done),
            Err(error) => Err(Error::ErrTrack(error)),
        }
    }

    /// Takes in a track of the client.
    ///
    /// # Returns
    /// - None if the peer has not joined a room
    pub fn on_track(&mut self, track: RemoteTrack, params: &RTCRtpParameters, now: u64) -> (res:
        Option<AddedReceiver>)
        requires
            old(self).wf(),
            params.codecs@.len() > 0,
        ensures
            final(self).wf(),
            *final(self) == (CentralPeer { router: final(self).router, ..*old(self) }),
            match old(self).router {
                None => res is None && final(self).router is None,
                Some(router) => final(self).router is Some && res is Some && router.took_in(
                    final(self).router->Some_0,
                    track,
                    track.id@,
                    track.stream_id@,
                    *params,
                    now,
                    res->Some_0,
                ),
            },
    {
        let name = track.id.clone();
        let stream_id = track.stream_id.clone();
        match self.router.as_mut() {
            Some(router) => Some(router.add_receiver(track, name, stream_id, params, now)),
            None => None,
        }
    }

    /// Forgets a track that was closed. The client and the server are to agree on it.
    pub fn remove_down_track(&mut self, stream_id: &str, down_track_id: &str)
        requires
            old(self).wf(),
        ensures
            final(self).wf(),
            *final(self) == (CentralPeer { downtracks: final(self).downtracks, ..*old(self) }),
            final(self).downtracks@ == if old(self).downtracks@.contains_key(stream_id@) {
                old(self).downtracks@.insert(
                    stream_id@,
                    old(self).downtracks@[stream_id@].filter(
                        |track: (Seq<char>, u64)| track.0 != down_track_id@,
                    ),
                )
            } else {
                old(self).downtracks@
            },
    {
        self.downtracks.remove_down_track(stream_id, down_track_id);
    }

    /// Whether a candidate of the server is sent to the client.
    pub fn sends_candidate(&self) -> (sends: bool)
        ensures
            sends == (self.on_ice_candidate && !self.closed),
    {
        self.on_ice_candidate && !self.closed
    }

    /// Takes note that someone has registered to send candidates.
    pub fn set_on_ice_candidate(&mut self)
        ensures
            *final(self) == (CentralPeer { on_ice_candidate: true, ..*old(self) }),
    {
        self.on_ice_candidate = true;
    }

    /// Takes note that someone has registered to hear of the state of the connection.
    pub fn set_on_ice_connection_state_change(&mut self)
        ensures
            *final(self) == (CentralPeer { on_ice_connection_state_change: true, ..*old(self) }),
    {
        self.on_ice_connection_state_change = true;
    }

    /// Starts to answer an offer of the client.
    ///
    /// # Arguments
    /// - `stable`: Whether no other offer is being answered
    pub fn answer(&mut self, stable: bool, sdp: String) -> (action: AnswerAction)
        ensures
            *final(self) == *old(self),
            action == if !old(self).connected {
                AnswerAction::Fail(Error::ErrNoTransportEstablished)
            } else if !stable {
                AnswerAction::Fail(Error::ErrOfferIgnored)
            } else {
                AnswerAction::SetRemoteDescription(sdp)
            },
    {
        let connected = self.connected;
        answer_step(&mut self.candidates, AnswerEvent::Offered { connected, stable, sdp })
    }

    /// Decides what is to be done next to answer an offer that was started to be answered.
    pub fn answer_step(&mut self, event: AnswerEvent) -> (action: AnswerAction)
        ensures
            *final(self) == (CentralPeer { candidates: final(self).candidates, ..*old(self) }),
            answer_stepped(old(self).candidates, final(self).candidates, event, action),
    {
        answer_step(&mut self.candidates, event)
    }

    /// Adds a candidate of the client, or stores it until its description was set.
    ///
    /// # Returns
    /// - The candidate, if it is to be added to the connection now
    /// - `Error::ErrNoTransportEstablished` if there is no connection
    pub fn add_ice_candidate(
        &mut self,
        candidate: RTCIceCandidateInit,
        has_remote_description: bool,
    ) -> (res: Result<Option<RTCIceCandidateInit>>)
        ensures
            *final(self) == (CentralPeer { candidates: final(self).candidates, ..*old(self) }),
            if !old(self).connected {
                res == Err::<Option<RTCIceCandidateInit>, Error>(Error::ErrNoTransportEstablished)
                    && final(self).candidates == old(self).candidates
            } else if has_remote_description {
                res == Ok::<Option<RTCIceCandidateInit>, Error>(Some(candidate))
                    && final(self).candidates == old(self).candidates
            } else {
                res == Ok::<Option<RTCIceCandidateInit>, Error>(None)
                    && final(self).candidates.waiting@ == old(self).candidates.waiting@.push(
                    candidate,
                )
            },
    {
        if !self.connected {
            return Err(Error::ErrNoTransportEstablished);
        }
        Ok(self.candidates.add_ice_candidate(candidate, has_remote_description))
    }

    /// Cleans up the peer connection.
    ///
    /// # Returns
    /// - Whether there is a connection to close
    pub fn clean_up(&mut self) -> (closes: bool)
        ensures
            closes == old(self).connected,
            *final(self) == (CentralPeer { connected: false, ..*old(self) }),
    {
        let closes = self.connected;
        self.connected = false;
        closes
    }

    /// Joins a room. A new peer connection is to be created.
    pub fn join(&mut self, room: String)
        requires
            old(self).wf(),
        ensures
            final(self).wf(),
            *final(self) == (CentralPeer {
                room: final(self).room,
                router: final(self).router,
                ..*old(self)
            }),
            final(self).room matches Some(id) && id@ == room@,
            final(self).router matches Some(router) && router.id@ == old(self).id@
                && router.room_id@ == room@ && router.config == old(self).config
                && router.receivers@ == Map::<Seq<char>, WebRTCReceiver>::empty(),
    {
        self.room = Some(room.clone());
        self.router = Some(LocalRouter::new(self.id.clone(), room, self.config));
    }

    /// Takes note that the peer connection was created.
    pub fn connect(&mut self)
        ensures
            *final(self) == (CentralPeer { connected: true, ..*old(self) }),
    {
        self.connected = true;
    }

    /// Starts negotiation process. While an answer is pending, it is put off.
    ///
    /// # Returns
    /// - `Error::ErrNoTransportEstablished` if an offer is due, and there is no connection
    pub fn negotiate(&mut self, offer_options: Option<RTCOfferOptions>) -> (res: Result<
        NegotiationStep,
    >)
        ensures
            *final(self) == (CentralPeer {
                negotiation: old(self).negotiation.after(NegotiationEvent::Requested),
                ..*old(self)
            }),
            res == if !old(self).negotiation.asks_offer(NegotiationEvent::Requested) {
                Ok::<NegotiationStep, Error>(NegotiationStep::Nothing)
            } else if old(self).connected {
                Ok::<NegotiationStep, Error>(NegotiationStep::CreateOffer(offer_options))
            } else {
                Err::<NegotiationStep, Error>(Error::ErrNoTransportEstablished)
            },
    {
        match self.negotiation.negotiate(offer_options) {
            NegotiationStep::Nothing => Ok(NegotiationStep::Nothing),
            NegotiationStep::CreateOffer(options) => {
                if self.connected {
                    Ok(NegotiationStep::CreateOffer(options))
                } else {
                    Err(Error::ErrNoTransportEstablished)
                }
            },
        }
    }

    /// Takes note of an offer that was created and set as the local description.
    ///
    /// # Returns
    /// - Whether the offer is to be sent
    pub fn offer_created(&mut self) -> (sends: bool)
        ensures
            *final(self) == (CentralPeer {
                negotiation: old(self).negotiation.after(NegotiationEvent::OfferCreated),
                ..*old(self)
            }),
            sends == (old(self).on_offer && !old(self).closed),
    {
        self.negotiation.offer_created();
        self.on_offer && !self.closed
    }
}

/// What is to be done to send the track of a receiver.
pub open spec fn planned(
    peer: CentralPeer,
    receiver: WebRTCReceiver,
    res: Result<Option<DownTrackInternal>>,
) -> bool {
    if number_of(peer.downtracks.of_stream(receiver.stream_id@), receiver.track_id@) is Some {
        res == Ok::<Option<DownTrackInternal>, Error>(None)
    } else if !peer.connected {
        res == Err::<Option<DownTrackInternal>, Error>(Error::ErrNoTransportEstablished)
    } else {
        res matches Ok(Some(local)) && is_local_end(
            local,
            receiver,
            receiver.codec.capability@,
            track_capacity(peer.config),
        )
    }
}

/// A track is sent once: a new end is made for it just where none of the tracks of its stream has its
/// id, and only on a connection.
pub proof fn law_track_is_sent_once(
    peer: CentralPeer,
    receiver: WebRTCReceiver,
    res: Result<Option<DownTrackInternal>>,
)
    requires
        planned(peer, receiver, res),
    ensures
        (exists|i: int|
            0 <= i < peer.downtracks.of_stream(receiver.stream_id@).len() && (
            #[trigger] peer.downtracks.of_stream(receiver.stream_id@)[i]).0 == receiver.track_id@)
            ==> res == Ok::<Option<DownTrackInternal>, Error>(None),
        (forall|i: int|
            0 <= i < peer.downtracks.of_stream(receiver.stream_id@).len() ==> (
            #[trigger] peer.downtracks.of_stream(receiver.stream_id@)[i]).0 != receiver.track_id@)
            ==> (res is Ok <==> peer.connected) && (res is Err ==> res == Err::<
            Option<DownTrackInternal>,
            Error,
        >(Error::ErrNoTransportEstablished)) && (res matches Ok(local) ==> local is Some),
{
    law_first_track_with_the_id_is_found(
        peer.downtracks.of_stream(receiver.stream_id@),
        receiver.track_id@,
    );
}

} // verus!
