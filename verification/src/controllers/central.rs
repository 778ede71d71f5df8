use vstd::prelude::*;

use crate::controllers::consumer::CentralConsumer;
use crate::controllers::error::{PeerControllerError, Result};
use crate::packet::params::RTCRtpParameters;
use crate::peer::answer::{answer_stepped, AnswerAction, AnswerEvent};
use crate::peer::error::Error;
use crate::peer::ice::RTCIceCandidateInit;
use crate::peer::negotiation::{NegotiationEvent, NegotiationStep, RTCOfferOptions};
use crate::peer::streams::number_of;
use crate::peer::subscriber::SentTrack;
use crate::rtc::config::RouterConfig;
use crate::rtc::peer::central::CentralPeer;
use crate::track::downtrack::DownTrackInternal;
use crate::track::error::Error as TrackError;
use crate::track::receiver::WebRTCReceiver;
use crate::track::router::{
    is_local_end, sent_new_track, track_capacity, AddedReceiver, LocalRouter, RemoteTrack,
};

verus! {

/// Peer with a single connection, and with a consumer of the tracks of others.
pub struct CentralController {
    pub peer: CentralPeer,
    pub consumer: Option<CentralConsumer>,
    /// Whether someone has registered to hear of channels that the client opened.
    pub on_data_channel: bool,
}

/// What a receiver says to a track, as the controller tells it.
pub open spec fn controller_result(res: core::result::Result<(), TrackError>) -> Result<()> {
    match res {
        Ok(done) => Ok(done),
        Err(_) => Err(PeerControllerError::ErrReceiverClosed),
    }
}

impl CentralController {
    /// What every operation keeps.
    pub open spec fn wf(&self) -> bool {
        &&& self.peer.wf()
        &&& self.consumer matches Some(consumer) ==> consumer.wf()
    }

    /// Create a new Peer
    pub fn new(id: String, config: RouterConfig) -> (controller: Self)
        ensures
            controller.wf(),
            controller.peer.id == id,
            controller.peer.config == config,
            !controller.peer.closed,
            !controller.peer.connected,
            controller.peer.room is None,
            controller.peer.router is None,
            controller.peer.candidates.waiting@.len() == 0,
            controller.peer.channels@ == Map::<Seq<char>, u64>::empty(),
            controller.peer.downtracks@ == Map::<Seq<char>, Seq<(Seq<char>, u64)>>::empty(),
            controller.consumer is None,
            !controller.on_data_channel,
    {
        Self { peer: CentralPeer::new(id, config), consumer: None, on_data_channel: false }
    }

    /// Peer Id
    pub fn id(&self) -> (id: String)
        ensures
            id@ == self.peer.id@,
    {
        self.peer.id.clone()
    }

    /// Takes note that someone has registered to hear of channels that the client opened.
    pub fn on_data_channel(&mut self)
        ensures
            *final(self) == (CentralController { on_data_channel: true, ..*old(self) }),
    {
        self.on_data_channel = true;
    }

    /// Takes in a channel that the client opened.
    ///
    /// # Returns
    /// - Whether someone has registered to hear of it
    pub fn data_channel_opened(&mut self, label: &str, channel: u64) -> (tells: bool)
        requires
            old(self).wf(),
        ensures
            final(self).wf(),
            tells == old(self).on_data_channel,
            *final(self) == (CentralController { peer: final(self).peer, ..*old(self) }),
            if label@ == crate::peer::api::API_CHANNEL_LABEL@ {
                final(self).peer == (CentralPeer { api_channel: Some(channel), ..old(self).peer })
            } else {
                &&& final(self).peer == (CentralPeer {
                    channels: final(self).peer.channels,
                    ..old(self).peer
                })
                &&& final(self).peer.channels@ == old(self).peer.channels@.insert(label@, channel)
            },
    {
        self.peer.on_data_channel(label, channel);
        self.on_data_channel
    }

    /// Stores a channel on which the client says what it wants to receive.
    pub fn add_data_channel(&mut self, label: &str, channel: u64)
        requires
            old(self).wf(),
        ensures
            final(self).wf(),
            *final(self) == (CentralController { peer: final(self).peer, ..*old(self) }),
            final(self).peer == (CentralPeer {
                channels: final(self).peer.channels,
                ..old(self).peer
            }),
            final(self).peer.channels@ == old(self).peer.channels@.insert(label@, channel),
    {
        self.peer.add_data_channel(label, channel);
    }

    /// Joins a room. A new peer connection is to be created.
    pub fn join(&mut self, room: String)
        requires
            old(self).wf(),
        ensures
            final(self).wf(),
            *final(self) == (CentralController { peer: final(self).peer, ..*old(self) }),
            final(self).peer == (CentralPeer {
                room: final(self).peer.room,
                router: final(self).peer.router,
                ..old(self).peer
            }),
            final(self).peer.room matches Some(id) && id@ == room@,
            final(self).peer.router matches Some(router) && router.id@ == old(self).peer.id@
                && router.room_id@ == room@ && router.config == old(self).peer.config
                && router.receivers@ == Map::<Seq<char>, WebRTCReceiver>::empty(),
    {
        self.peer.join(room);
    }

    /// Takes note that the peer connection was created, and sets up its consumer.
    pub fn connect(&mut self)
        requires
            old(self).wf(),
        ensures
            final(self).wf(),
            *final(self) == (CentralController {
                peer: CentralPeer { connected: true, ..old(self).peer },
                consumer: final(self).consumer,
                ..*old(self)
            }),
            final(self).consumer matches Some(consumer) && consumer.id@ == old(self).peer.id@
                && consumer.rtp_packet_capacity == track_capacity(old(self).peer.config)
                && consumer.on_offer && consumer.sent() == Map::<Seq<char>, SentTrack>::empty()
                && !consumer.negotiation.remote_answer_pending
                && !consumer.negotiation.negotiation_pending,
    {
        let capacity: u16 = (self.peer.config.max_packet_track % 0x1_0000) as u16;
        let mut consumer = CentralConsumer::new(self.peer.id.clone(), capacity);
        let ghost before = consumer;
        consumer.on_offer();
        assert(consumer.sent() == before.sent());
        self.consumer = Some(consumer);
        self.peer.connect();
    }

    /// Plans how the track of a receiver is sent to the client.
    ///
    /// # Returns
    /// - The end of a new track, for which a transceiver is to be added, or None if the track is sent
    ///   already
    /// - `PeerControllerError::ErrPeer` if there is no connection
    pub fn plan_down_track(&self, receiver: &WebRTCReceiver) -> (res: Result<
        Option<DownTrackInternal>,
    >)
        requires
            self.wf(),
            track_capacity(self.peer.config) > 0,
        ensures
            if number_of(
                self.peer.downtracks.of_stream(receiver.stream_id@),
                receiver.track_id@,
            ) is Some {
                res == Ok::<Option<DownTrackInternal>, PeerControllerError>(None)
            } else if !self.peer.connected {
                res == Err::<Option<DownTrackInternal>, PeerControllerError>(
                    PeerControllerError::ErrPeer(Error::ErrNoTransportEstablished),
                )
            } else {
                res matches Ok(Some(local)) && is_local_end(
                    local,
                    *receiver,
                    receiver.codec.capability@,
                    track_capacity(self.peer.config),
                )
            },
    {
        match self.peer.plan_down_track(receiver) {
            Ok(local) => Ok(local),
            Err(error) => Err(PeerControllerError::ErrPeer(error)),
        }
    }

    /// Sends the track of a receiver to the client, for whom a transceiver was added.
    ///
    /// # Returns
    /// - `PeerControllerError::ErrReceiverClosed` if the receiver does not take the track
    pub fn add_down_track(
        &mut self,
        receiver: &str,
        local: DownTrackInternal,
        transceiver: u64,
        rtx_ssrcs: &Vec<u32>,
        number: u64,
        now: u64,
    ) -> (res: Result<()>)
        requires
            old(self).wf(),
            local.wf(),
            old(self).peer.router matches Some(router) && router.receivers@.contains_key(receiver@),
        ensures
            final(self).wf(),
            *final(self) == (CentralController { peer: final(self).peer, ..*old(self) }),
            final(self).peer == (CentralPeer {
                router: final(self).peer.router,
                downtracks: final(self).peer.downtracks,
                ..old(self).peer
            }),
            final(self).peer.router is Some,
            final(self).peer.router->Some_0 == (LocalRouter {
                receivers: final(self).peer.router->Some_0.receivers,
                ..old(self).peer.router->Some_0
            }),
            final(self).peer.router->Some_0.receivers@
                == old(self).peer.router->Some_0.receivers@.insert(
                receiver@,
                final(self).peer.router->Some_0.receivers@[receiver@],
            ),
            final(self).peer.downtracks@ == old(self).peer.downtracks@.insert(
                old(self).peer.router->Some_0.receivers@[receiver@].stream_id@,
                old(self).peer.downtracks.of_stream(
                    old(self).peer.router->Some_0.receivers@[receiver@].stream_id@,
                ).push((local.id@, number)),
            ),
            exists|said: core::result::Result<(), TrackError>|
                res == controller_result(said) && #[trigger] sent_new_track(
                    old(self).peer.router->Some_0.receivers@[receiver@],
                    final(self).peer.router->Some_0.receivers@[receiver@],
                    old(self).peer.id@,
                    local,
                    transceiver,
                    rtx_ssrcs@,
                    now,
                    old(self).peer.router->Some_0.config.simulcast.best_quality_first,
                    said,
                ),
    {
        match self.peer.add_down_track(receiver, local, transceiver, rtx_ssrcs, number, now) {
            Ok(done) => Ok(done),
            Err(_) => Err(PeerControllerError::ErrReceiverClosed),
        }
    }

    /// Takes in a track of the client.
    ///
    /// # Returns
    /// - None if the peer has not joined a room
    pub fn on_track(&mut self, track: RemoteTrack, params: &RTCRtpParameters, now: u64) -> (res:
        Option<AddedReceiver>)
        requires
            old(self).wf(),
            params.codecs@.len() > 0,
        ensures
            final(self).wf(),
            *final(self) == (CentralController { peer: final(self).peer, ..*old(self) }),
            final(self).peer == (CentralPeer { router: final(self).peer.router, ..old(self).peer }),
            match old(self).peer.router {
                None => res is None && final(self).peer.router is None,
                Some(router) => final(self).peer.router is Some && res is Some && router.took_in(
                    final(self).peer.router->Some_0,
                    track,
                    track.id@,
                    track.stream_id@,
                    *params,
                    now,
                    res->Some_0,
                ),
            },
    {
        self.peer.on_track(track, params, now)
    }

    /// Adds a candidate of the client, or stores it until its description was set.
    pub fn add_ice_candidate(
        &mut self,
        candidate: RTCIceCandidateInit,
        has_remote_description: bool,
    ) -> (res: Result<Option<RTCIceCandidateInit>>)
        ensures
            *final(self) == (CentralController { peer: final(self).peer, ..*old(self) }),
            final(self).peer == (CentralPeer {
                candidates: final(self).peer.candidates,
                ..old(self).peer
            }),
            if !old(self).peer.connected {
                res == Err::<Option<RTCIceCandidateInit>, PeerControllerError>(
                    PeerControllerError::ErrPeer(Error::ErrNoTransportEstablished),
                ) && final(self).peer.candidates == old(self).peer.candidates
            } else if has_remote_description {
                res == Ok::<Option<RTCIceCandidateInit>, PeerControllerError>(Some(candidate))
                    && final(self).peer.candidates == old(self).peer.candidates
            } else {
                res == Ok::<Option<RTCIceCandidateInit>, PeerControllerError>(None)
                    && final(self).peer.candidates.waiting@
                    == old(self).peer.candidates.waiting@.push(candidate)
            },
    {
        match self.peer.add_ice_candidate(candidate, has_remote_description) {
            Ok(added) => Ok(added),
            Err(error) => Err(PeerControllerError::ErrPeer(error)),
        }
    }

    /// Starts to answer an offer of the client.
    pub fn on_remote_offer(&mut self, stable: bool, sdp: String) -> (action: AnswerAction)
        ensures
            *final(self) == *old(self),
            action == if !old(self).peer.connected {
                AnswerAction::Fail(Error::ErrNoTransportEstablished)
            } else if !stable {
                AnswerAction::Fail(Error::ErrOfferIgnored)
            } else {
                AnswerAction::SetRemoteDescription(sdp)
            },
    {
        self.peer.answer(stable, sdp)
    }

    /// Decides what is to be done next to answer an offer that was started to be answered.
    pub fn answer(&mut self, event: AnswerEvent) -> (action: AnswerAction)
        ensures
            *final(self) == (CentralController { peer: final(self).peer, ..*old(self) }),
            final(self).peer == (CentralPeer {
                candidates: final(self).peer.candidates,
                ..old(self).peer
            }),
            answer_stepped(
                old(self).peer.candidates,
                final(self).peer.candidates,
                event,
                action,
            ),
    {
        self.peer.answer_step(event)
    }

    /// Closes the peer.
    ///
    /// # Returns
    /// - Whether there is a connection to close
    pub fn close(&mut self) -> (closes: bool)
        ensures
            closes == old(self).peer.connected,
            *final(self) == (CentralController {
                peer: CentralPeer { closed: true, connected: false, ..old(self).peer },
                ..*old(self)
            }),
    {
        self.peer.closed = true;
        self.peer.clean_up()
    }

    /// Takes out the data channel related to the `label`, to close it.
    pub fn close_local_data_channel(&mut self, label: &str) -> (res: Option<u64>)
        requires
            old(self).wf(),
        ensures
            final(self).wf(),
            *final(self) == (CentralController { peer: final(self).peer, ..*old(self) }),
            final(self).peer == (CentralPeer {
                channels: final(self).peer.channels,
                ..old(self).peer
            }),
            final(self).peer.channels@ == old(self).peer.channels@.remove(label@),
            res == if old(self).peer.channels@.contains_key(label@) {
                Some(old(self).peer.channels@[label@])
            } else {
                None
            },
    {
        self.peer.channels.remove(label)
    }

    pub fn consumer(&self) -> (consumer: &Option<CentralConsumer>)
        ensures
            *consumer == self.consumer,
    {
        &self.consumer
    }

    /// The data channel with a label, if there is one.
    ///
    /// # Returns
    /// - None if it is to be created, and stored
    /// - `PeerControllerError::ErrPeer` if it is to be created, and there is no connection
    pub fn create_local_data_channel(&self, label: &str) -> (res: Result<Option<u64>>)
        requires
            self.wf(),
        ensures
            res == if self.peer.channels@.contains_key(label@) {
                Ok::<Option<u64>, PeerControllerError>(Some(self.peer.channels@[label@]))
            } else if self.peer.connected {
                Ok::<Option<u64>, PeerControllerError>(None)
            } else {
                Err::<Option<u64>, PeerControllerError>(
                    PeerControllerError::ErrPeer(Error::ErrNoTransportEstablished),
                )
            },
    {
        match self.peer.channels.get(label) {
            Some(channel) => Ok(Some(*channel)),
            None => {
                if self.peer.connected {
                    Ok(None)
                } else {
                    Err(PeerControllerError::ErrPeer(Error::ErrNoTransportEstablished))
                }
            },
        }
    }

    /// The data channel corresponding to `label`.
    pub fn local_data_channel(&self, label: &str) -> (res: Option<u64>)
        requires
            self.wf(),
        ensures
            res == if self.peer.channels@.contains_key(label@) {
                Some(self.peer.channels@[label@])
            } else {
                None
            },
    {
        match self.peer.channels.get(label) {
            Some(channel) => Some(*channel),
            None => None,
        }
    }

    /// Starts negotiation process.
    ///
    /// # Returns
    /// - `PeerControllerError::ErrNoConsumer` if there is no consumer
    pub fn negotiate(&mut self, offer_options: Option<RTCOfferOptions>) -> (res: Result<
        NegotiationStep,
    >)
        requires
            old(self).wf(),
        ensures
            final(self).wf(),
            match old(self).consumer {
                None => res == Err::<NegotiationStep, PeerControllerError>(
                    PeerControllerError::ErrNoConsumer,
                ) && *final(self) == *old(self),
                Some(consumer) => {
                    &&& res == Ok::<NegotiationStep, PeerControllerError>(
                        if consumer.negotiation.asks_offer(NegotiationEvent::Requested) {
                            NegotiationStep::CreateOffer(offer_options)
                        } else {
                            NegotiationStep::Nothing
                        },
                    )
                    &&& *final(self) == (CentralController {
                        consumer: Some(
                            CentralConsumer {
                                negotiation: consumer.negotiation.after(
                                    NegotiationEvent::Requested,
                                ),
                                ..consumer
                            },
                        ),
                        ..*old(self)
                    })
                },
            },
    {
        if self.consumer.is_none() {
            return Err(PeerControllerError::ErrNoConsumer);
        }
        match self.consumer.as_mut() {
            Some(consumer) => Ok(consumer.negotiate(offer_options)),
            None => Err(PeerControllerError::ErrNoConsumer),
        }
    }

    /// Takes note that the remote description was set.
    ///
    /// If there are candidates awaiting to be added, they are to be added to the peer connection and cleaned up.
    ///
    /// # Returns
    /// - The candidates to add, and whether an offer is to be created
    /// - `PeerControllerError::ErrNoConsumer` if there is no consumer
    pub fn on_remote_answer(&mut self) -> (res: Result<(Vec<RTCIceCandidateInit>, NegotiationStep)>)
        requires
            old(self).wf(),
        ensures
            final(self).wf(),
            match old(self).consumer {
                None => res is Err && res->Err_0 == PeerControllerError::ErrNoConsumer && *final(self)
                    == *old(self),
                Some(consumer) => {
                    &&& res matches Ok(done)
                    &&& done.0@ == old(self).peer.candidates.waiting@
                    &&& done.1 == if consumer.negotiation.asks_offer(NegotiationEvent::Answered) {
                        NegotiationStep::CreateOffer(None)
                    } else {
                        NegotiationStep::Nothing
                    }
                    &&& final(self).peer == (CentralPeer {
                        candidates: final(self).peer.candidates,
                        ..old(self).peer
                    })
                    &&& final(self).peer.candidates.waiting@.len() == 0
                    &&& *final(self) == (CentralController {
                        peer: final(self).peer,
                        consumer: Some(
                            CentralConsumer {
                                negotiation: consumer.negotiation.after(
                                    NegotiationEvent::Answered,
                                ),
                                ..consumer
                            },
                        ),
                        ..*old(self)
                    })
                },
            },
    {
        if self.consumer.is_none() {
            return Err(PeerControllerError::ErrNoConsumer);
        }
        match self.consumer.as_mut() {
            Some(consumer) => Ok(consumer.on_remote_answer(&mut self.peer.candidates)),
            None => Err(PeerControllerError::ErrNoConsumer),
        }
    }

    /// Peer router used for track forwarding to another peer
    ///
    /// # Returns
    /// - `PeerControllerError::ErrPeer` if the peer has not joined a room
    pub fn router(&self) -> (res: Result<&LocalRouter>)
        ensures
            match self.peer.router {
                Some(router) => res matches Ok(found) && *found == router,
                None => res is Err && res->Err_0 == PeerControllerError::ErrPeer(
                    Error::ErrNoTransportEstablished,
                ),
            },
    {
        match &self.peer.router {
            Some(router) => Ok(router),
            None => Err(PeerControllerError::ErrPeer(Error::ErrNoTransportEstablished)),
        }
    }

    /// Takes note that someone has registered to send candidates.
    pub fn set_on_ice_candidate(&mut self)
        ensures
            *final(self) == (CentralController {
                peer: CentralPeer { on_ice_candidate: true, ..old(self).peer },
                ..*old(self)
            }),
    {
        self.peer.set_on_ice_candidate();
    }

    /// Takes note that someone has registered to hear of the state of the connection.
    pub fn set_on_ice_connection_state_change(&mut self)
        ensures
            *final(self) == (CentralController {
                peer: CentralPeer { on_ice_connection_state_change: true, ..old(self).peer },
                ..*old(self)
            }),
    {
        self.peer.set_on_ice_connection_state_change();
    }
}

} // verus!
