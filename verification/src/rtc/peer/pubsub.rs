use vstd::prelude::*;

use crate::peer::answer::AnswerAction;
use crate::peer::ice::RTCIceCandidateInit;
use crate::peer::negotiation::{Negotiation, NegotiationEvent, NegotiationStep, RTCOfferOptions};
use crate::peer::sdp::described_version;
use crate::rtc::peer::peer::trickled;
use crate::rtc::peer::publisher::{version_in, Publisher};
use crate::rtc::peer::subscriber::Subscriber;
use crate::track::error::{Error, Result};

verus! {

/// The side of a peer that publishes.
pub const PUBLISHER: u8 = 0;

/// The side of a peer that subscribes.
pub const SUBSCRIBER: u8 = 1;

/// Peer configuration for enabling/disabling the publisher and/or the subscriber
#[derive(Debug, Eq, PartialEq, Clone, Copy, Structural)]
pub struct PeerConfig {
    pub no_publish: bool,
    pub no_subscribe: bool,
    pub no_auto_subscribe: bool,
}

impl Default for PeerConfig {
    fn default() -> (config: Self)
        ensures
            !config.no_publish,
            !config.no_subscribe,
            !config.no_auto_subscribe,
    {
        PeerConfig { no_publish: false, no_subscribe: false, no_auto_subscribe: false }
    }
}

/// What is to be done to join a room.
#[derive(Debug, Eq, PartialEq, Clone, Copy, Structural)]
pub enum JoinStep {
    /// A publisher is created, with its own connection.
    CreatePublisher,
    /// The peer is added to the room.
    AddPeer,
    /// The user is added to the room.
    AddUser,
}

/// What is to be done to join a room, in its order.
pub open spec fn pubsub_steps(cfg: PeerConfig) -> Seq<JoinStep> {
    if cfg.no_publish {
        seq![JoinStep::AddPeer, JoinStep::AddUser]
    } else {
        seq![JoinStep::CreatePublisher, JoinStep::AddPeer, JoinStep::AddUser]
    }
}

/// A candidate, and the side of the peer whose connection it is added to.
pub struct Trickled {
    pub target: u8,
    pub candidate: RTCIceCandidateInit,
}

/// Two peer connections are used by this peer. Ideal for handling multiple requests.
///
/// - [Publisher] peer listens for client's remote media tracks and publishes them into the publisher's router.
/// - [Subscriber] peer subscribes to local tracks and sends them to client's peer connection.
pub struct PubSubPeer {
    pub closed: bool,
    pub id: String,
    pub user_id: String,
    /// The room that the peer joined.
    pub room: Option<String>,
    pub subscriber: Option<Subscriber>,
    pub publisher: Option<Publisher>,
    /// Whether someone has registered to send candidates.
    pub on_ice_candidate: bool,
    /// Whether someone has registered to hear of the state of the connection.
    pub on_ice_connection_state_change: bool,
    /// Whether someone has registered to send offers.
    pub on_offer: bool,
    pub negotiation: Negotiation,
}

impl PubSubPeer {
    /// What every operation keeps.
    pub open spec fn wf(&self) -> bool {
        &&& self.publisher matches Some(publisher) ==> publisher.wf()
        &&& self.subscriber matches Some(subscriber) ==> subscriber.wf()
    }

    /// Creates a new Peer
    pub fn new(id: String) -> (peer: Self)
        ensures
            peer.wf(),
            peer.id@ == id@,
            peer.user_id@ == id@,
            !peer.closed,
            peer.room is None,
            peer.subscriber is None,
            peer.publisher is None,
            !peer.on_ice_candidate,
            !peer.on_ice_connection_state_change,
            !peer.on_offer,
            !peer.negotiation.remote_answer_pending,
            !peer.negotiation.negotiation_pending,
    {
        Self {
            closed: false,
            user_id: id.clone(),
            id,
            room: None,
            subscriber: None,
            publisher: None,
            on_ice_candidate: false,
            on_ice_connection_state_change: false,
            on_offer: false,
            negotiation: Negotiation::new(),
        }
    }

    pub fn id(&self) -> (id: String)
        ensures
            id@ == self.id@,
    {
        self.id.clone()
    }

    pub fn publisher(&self) -> (publisher: &Option<Publisher>)
        ensures
            *publisher == self.publisher,
    {
        &self.publisher
    }

    pub fn subscriber(&self) -> (subscriber: &Option<Subscriber>)
        ensures
            *subscriber == self.subscriber,
    {
        &self.subscriber
    }

    /// Takes note that someone has registered to send candidates.
    pub fn on_ice_candidate(&mut self)
        ensures
            *final(self) == (PubSubPeer { on_ice_candidate: true, ..*old(self) }),
    {
        self.on_ice_candidate = true;
    }

    /// Takes note that someone has registered to send offers.
    pub fn on_offer(&mut self)
        ensures
            *final(self) == (PubSubPeer { on_offer: true, ..*old(self) }),
    {
        self.on_offer = true;
    }

    /// Takes note that someone has registered to hear of the state of the connection.
    pub fn register_on_ice_connection_state_change(&mut self)
        ensures
            *final(self) == (PubSubPeer { on_ice_connection_state_change: true, ..*old(self) }),
    {
        self.on_ice_connection_state_change = true;
    }

    /// Whether a candidate of the own side is sent to the client.
    pub fn sends_candidate(&self) -> (sends: bool)
        ensures
            sends == (self.on_ice_candidate && !self.closed),
    {
        self.on_ice_candidate && !self.closed
    }

    /// Whether the state of the connection of the publisher is told.
    pub fn tells_state(&self) -> (tells: bool)
        ensures
            tells == (self.on_ice_connection_state_change && !self.closed),
    {
        self.on_ice_connection_state_change && !self.closed
    }

    /// Joins a room.
    ///
    /// # Returns
    /// - What is to be done, in its order
    pub fn join(&mut self, room: String, cfg: &PeerConfig) -> (steps: Vec<JoinStep>)
        ensures
            *final(self) == (PubSubPeer { room: Some(room), ..*old(self) }),
            steps@ == pubsub_steps(*cfg),
    {
        self.room = Some(room);
        let mut steps: Vec<JoinStep> = Vec::new();
        if !cfg.no_publish {
            steps.push(JoinStep::CreatePublisher);
        }
        steps.push(JoinStep::AddPeer);
        steps.push(JoinStep::AddUser);
        assert(steps@ =~= pubsub_steps(*cfg));
        steps
    }

    /// Stores a publisher that was created. It tells of the state of its connection.
    pub fn set_publisher(&mut self, publisher: Publisher)
        requires
            old(self).wf(),
            publisher.wf(),
        ensures
            final(self).wf(),
            *final(self) == (PubSubPeer {
                publisher: Some(
                    Publisher { on_ice_connection_state_change: true, ..publisher },
                ),
                ..*old(self)
            }),
    {
        let mut publisher = publisher;
        publisher.on_ice_connection_state_change();
        self.publisher = Some(publisher);
    }

    /// Stores a subscriber that was created.
    pub fn setup_subscriber(&mut self, subscriber: Subscriber, cfg: &PeerConfig)
        requires
            old(self).wf(),
            subscriber.wf(),
        ensures
            final(self).wf(),
            *final(self) == (PubSubPeer {
                subscriber: Some(
                    Subscriber {
                        no_auto_subscribe: cfg.no_auto_subscribe,
                        on_negotiate: true,
                        ..subscriber
                    },
                ),
                ..*old(self)
            }),
    {
        let mut subscriber = subscriber;
        subscriber.no_auto_subscribe = cfg.no_auto_subscribe;
        subscriber.register_on_negotiate();
        self.subscriber = Some(subscriber);
    }

    /// Starts to answer an offer.
    ///
    /// # Arguments
    /// - `current`: The description of the session that was agreed on
    /// - `stable`: Whether no other offer is being answered
    ///
    /// # Returns
    /// - `Error::ErrNoTransportEstablished` if there is no publisher
    /// - `Error::ErrOfferIgnored` if another offer is being answered
    pub fn answer(&mut self, current: Option<String>, stable: bool, offer: String) -> (res: Result<
        AnswerAction,
    >)
        requires
            old(self).wf(),
        ensures
            final(self).wf(),
            match old(self).publisher {
                None => res == Err::<AnswerAction, Error>(Error::ErrNoTransportEstablished)
                    && *final(self) == *old(self),
                Some(publisher) => if !stable {
                    res == Err::<AnswerAction, Error>(Error::ErrOfferIgnored) && *final(self)
                        == *old(self)
                } else {
                    &&& res == Ok::<AnswerAction, Error>(
                        AnswerAction::SetRemoteDescription(offer),
                    )
                    &&& *final(self) == (PubSubPeer {
                        publisher: final(self).publisher,
                        ..*old(self)
                    })
                    &&& final(self).publisher matches Some(after) && publisher.offered(
                        after,
                        version_in(current),
                        described_version(offer@),
                    )
                },
            },
            answering(*old(self), *final(self), current, stable, offer, res),
    {
        if self.publisher.is_none() {
            return Err(Error::ErrNoTransportEstablished);
        }
        if !stable {
            return Err(Error::ErrOfferIgnored);
        }
        match self.publisher.as_mut() {
            Some(publisher) => Ok(publisher.answer(current, offer)),
            None => Err(Error::ErrNoTransportEstablished),
        }
    }

    /// Takes out both sides, to close them.
    pub fn clean_up(&mut self) -> (res: (Option<Subscriber>, Option<Publisher>))
        ensures
            res == (old(self).subscriber, old(self).publisher),
            *final(self) == (PubSubPeer { subscriber: None, publisher: None, ..*old(self) }),
    {
        let subscriber = self.subscriber.take();
        let publisher = self.publisher.take();
        (subscriber, publisher)
    }

    /// Starts negotiation of the subscriber. While an answer is pending, it is put off.
    pub fn negotiate(&mut self, offer_options: Option<RTCOfferOptions>) -> (step: NegotiationStep)
        ensures
            *final(self) == (PubSubPeer {
                negotiation: old(self).negotiation.after(NegotiationEvent::Requested),
                ..*old(self)
            }),
            step == if old(self).negotiation.asks_offer(NegotiationEvent::Requested) {
                NegotiationStep::CreateOffer(offer_options)
            } else {
                NegotiationStep::Nothing
            },
    {
        self.negotiation.negotiate(offer_options)
    }

    /// Takes note of an offer of the subscriber that was created and set as the local description.
    ///
    /// # Returns
    /// - Whether the offer is to be sent
    pub fn offer_created(&mut self) -> (sends: bool)
        ensures
            *final(self) == (PubSubPeer {
                negotiation: old(self).negotiation.after(NegotiationEvent::OfferCreated),
                ..*old(self)
            }),
            sends == (old(self).on_offer && !old(self).closed),
    {
        self.negotiation.offer_created();
        self.on_offer && !self.closed
    }

    /// Takes note that the remote description of the subscriber was set. If there is a pending
    /// negotiation, it is started.
    ///
    /// # Returns
    /// - The candidates to add to the connection, and whether an offer is to be created
    /// - `Error::ErrNoTransportEstablished` if there is no subscriber
    pub fn set_remote_description(&mut self) -> (res: Result<
        (Vec<RTCIceCandidateInit>, NegotiationStep),
    >)
        requires
            old(self).wf(),
        ensures
            final(self).wf(),
            match old(self).subscriber {
                None => res is Err && res->Err_0 == Error::ErrNoTransportEstablished && *final(self)
                    == *old(self),
                Some(subscriber) => {
                    &&& res matches Ok(done)
                    &&& done.0@ == subscriber.candidates.waiting@
                    &&& done.1 == if old(self).negotiation.asks_offer(NegotiationEvent::Answered) {
                        NegotiationStep::CreateOffer(None)
                    } else {
                        NegotiationStep::Nothing
                    }
                    &&& final(self).subscriber matches Some(after) && after == (Subscriber {
                        candidates: after.candidates,
                        negotiation_pending: false,
                        ..subscriber
                    }) && after.candidates.waiting@.len() == 0
                    &&& *final(self) == (PubSubPeer {
                        subscriber: final(self).subscriber,
                        negotiation: old(self).negotiation.after(NegotiationEvent::Answered),
                        ..*old(self)
                    })
                },
            },
    {
        if self.subscriber.is_none() {
            return Err(Error::ErrNoTransportEstablished);
        }
        let candidates = match self.subscriber.as_mut() {
            Some(subscriber) => subscriber.set_remote_description(),
            None => Vec::new(),
        };
        let step = self.negotiation.answered();
        Ok((candidates, step))
    }

    /// Adds a candidate of the client to a side of the peer, or stores it.
    ///
    /// # Arguments
    /// - `target`: [PUBLISHER] or [SUBSCRIBER]. Candidates for others are ignored
    /// - `has_remote_description`: Whether the connection of the side has a remote description
    ///
    /// # Returns
    /// - The candidate, if it is to be added to the connection now
    /// - `Error::ErrNoTransportEstablished` if there is no publisher or no subscriber
    pub fn trickle(
        &mut self,
        candidate: RTCIceCandidateInit,
        target: u8,
        has_remote_description: bool,
    ) -> (res: Result<Option<Trickled>>)
        requires
            old(self).wf(),
        ensures
            final(self).wf(),
            match (old(self).publisher, old(self).subscriber) {
                (Some(publisher), Some(subscriber)) => if target != PUBLISHER && target
                    != SUBSCRIBER {
                    res == Ok::<Option<Trickled>, Error>(None) && *final(self) == *old(self)
                } else if has_remote_description {
                    res == Ok::<Option<Trickled>, Error>(Some(Trickled { target, candidate }))
                        && *final(self) == *old(self)
                } else if target == PUBLISHER {
                    &&& res == Ok::<Option<Trickled>, Error>(None)
                    &&& *final(self) == (PubSubPeer {
                        publisher: final(self).publisher,
                        ..*old(self)
                    })
                    &&& final(self).publisher matches Some(after) && after == (Publisher {
                        candidates: after.candidates,
                        ..publisher
                    }) && after.candidates.waiting@ == publisher.candidates.waiting@.push(candidate)
                } else {
                    &&& res == Ok::<Option<Trickled>, Error>(None)
                    &&& *final(self) == (PubSubPeer {
                        subscriber: final(self).subscriber,
                        ..*old(self)
                    })
                    &&& final(self).subscriber matches Some(after) && after == (Subscriber {
                        candidates: after.candidates,
                        ..subscriber
                    }) && after.candidates.waiting@ == subscriber.candidates.waiting@.push(
                        candidate,
                    )
                },
                _ => res == Err::<Option<Trickled>, Error>(Error::ErrNoTransportEstablished)
                    && *final(self) == *old(self),
            },
            trickled(*old(self), *final(self), candidate, target, has_remote_description),
    {
        if self.subscriber.is_none() || self.publisher.is_none() {
            return Err(Error::ErrNoTransportEstablished);
        }
        if target != PUBLISHER && target != SUBSCRIBER {
            return Ok(None);
        }
        if has_remote_description {
            return Ok(Some(Trickled { target, candidate }));
        }
        if target == PUBLISHER {
            if let Some(publisher) = self.publisher.as_mut() {
                let _none = publisher.add_ice_candidate(candidate, false);
            }
        } else {
            if let Some(subscriber) = self.subscriber.as_mut() {
                let _none = subscriber.add_ice_candidate(candidate, false);
            }
        }
        Ok(None)
    }
}

/// A peer that publishes has its publisher before it is in the room, and is in the room before its
/// user; one that does not publish has none.
pub proof fn law_publisher_is_created_before_joining(cfg: PeerConfig)
    ensures
        pubsub_steps(cfg).contains(JoinStep::CreatePublisher) <==> !cfg.no_publish,
        !cfg.no_publish ==> pubsub_steps(cfg)[0] == JoinStep::CreatePublisher,
        pubsub_steps(cfg).last() == JoinStep::AddUser,
        pubsub_steps(cfg)[pubsub_steps(cfg).len() - 2] == JoinStep::AddPeer,
{
}

/// Whether the offer is to be answered, with the versions of the sessions taken note of.
pub open spec fn answering(
    before: PubSubPeer,
    after: PubSubPeer,
    current: Option<String>,
    stable: bool,
    offer: String,
    res: Result<AnswerAction>,
) -> bool {
    match before.publisher {
        None => res == Err::<AnswerAction, Error>(Error::ErrNoTransportEstablished) && after
            == before,
        Some(publisher) => if !stable {
            res == Err::<AnswerAction, Error>(Error::ErrOfferIgnored) && after == before
        } else {
            &&& res == Ok::<AnswerAction, Error>(AnswerAction::SetRemoteDescription(offer))
            &&& after == (PubSubPeer { publisher: after.publisher, ..before })
            &&& after.publisher matches Some(told) && publisher.offered(
                told,
                version_in(current),
                described_version(offer@),
            )
        },
    }
}

/// An offer is answered just where there is a publisher and no other offer is open; it is refused with
/// the reason, and without a trace, else. The subscriber is never touched.
pub proof fn law_offer_is_answered_by_the_publisher(
    before: PubSubPeer,
    after: PubSubPeer,
    current: Option<String>,
    stable: bool,
    offer: String,
    res: Result<AnswerAction>,
)
    requires
        answering(before, after, current, stable, offer, res),
    ensures
        res is Ok <==> before.publisher is Some && stable,
        res matches Ok(action) ==> action == AnswerAction::SetRemoteDescription(offer),
        before.publisher is None ==> res == Err::<AnswerAction, Error>(
            Error::ErrNoTransportEstablished,
        ),
        before.publisher is Some && !stable ==> res == Err::<AnswerAction, Error>(
            Error::ErrOfferIgnored,
        ),
        res is Err ==> after == before,
        after.subscriber == before.subscriber,
        after.negotiation == before.negotiation,
{
}

} // verus!
