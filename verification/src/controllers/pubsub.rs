use vstd::prelude::*;

use crate::controllers::error::{PeerControllerError, Result};
use crate::peer::answer::{answer_step, answer_stepped, AnswerAction, AnswerEvent};
use crate::peer::ice::RTCIceCandidateInit;
use crate::peer::negotiation::{NegotiationEvent, NegotiationStep, RTCOfferOptions};
use crate::peer::subscriber::{DataChannel, Subscriber};
use crate::rtc::peer::publisher::Publisher;
use crate::rtc::peer::pubsub::PeerConfig;
use crate::track::router::LocalRouter;

verus! {

/// A side of a peer.
#[derive(Debug, Eq, PartialEq, Clone, Copy, Structural)]
pub enum PeerRole {
    Publisher,
    Subscriber,
}

/// What is to be done to join a room.
#[derive(Debug, Eq, PartialEq, Clone, Copy, Structural)]
pub enum JoinStep {
    /// A publisher is created, with its own connection.
    CreatePublisher,
    /// The user is added to the room.
    AddUser,
}

/// What is to be done to join a room, in its order.
pub open spec fn controller_steps(cfg: PeerConfig) -> Seq<JoinStep> {
    if cfg.no_publish {
        seq![JoinStep::AddUser]
    } else {
        seq![JoinStep::CreatePublisher, JoinStep::AddUser]
    }
}

/// Two peer connections are used by this peer. Ideal for handling multiple requests.
///
/// - [Publisher] peer listens for client's remote media tracks and publishes them into the publisher's router.
/// - [Subscriber] peer subscribes to local tracks and sends them to client's peer connection.
pub struct PubSubController {
    pub closed: bool,
    pub id: String,
    pub user_id: String,
    pub subscriber: Option<Subscriber>,
    pub publisher: Option<Publisher>,
    /// Whether someone has registered to hear of channels that the client opened.
    pub on_data_channel: bool,
    /// Whether someone has registered to send candidates.
    pub on_ice_candidate: bool,
    /// Whether someone has registered to hear of the state of the connection.
    pub on_ice_connection_state_change: bool,
    /// Whether someone has registered to send offers.
    pub on_offer: bool,
}

impl PubSubController {
    /// What every operation keeps.
    pub open spec fn wf(&self) -> bool {
        &&& self.publisher matches Some(publisher) ==> publisher.wf()
        &&& self.subscriber matches Some(subscriber) ==> subscriber.wf()
    }

    /// Creates a new Peer
    pub fn new(id: String, user_id: String) -> (controller: Self)
        ensures
            controller.wf(),
            controller == (PubSubController {
                closed: false,
                id,
                user_id,
                subscriber: None,
                publisher: None,
                on_data_channel: false,
                on_ice_candidate: false,
                on_ice_connection_state_change: false,
                on_offer: false,
            }),
    {
        Self {
            closed: false,
            id,
            user_id,
            subscriber: None,
            publisher: None,
            on_data_channel: false,
            on_ice_candidate: false,
            on_ice_connection_state_change: false,
            on_offer: false,
        }
    }

    pub fn id(&self) -> (id: String)
        ensures
            id@ == self.id@,
    {
        self.id.clone()
    }

    /// Joins a room.
    ///
    /// # Returns
    /// - What is to be done, in its order
    pub fn join(&self, cfg: &PeerConfig) -> (steps: Vec<JoinStep>)
        ensures
            steps@ == controller_steps(*cfg),
    {
        let mut steps: Vec<JoinStep> = Vec::new();
        if !cfg.no_publish {
            steps.push(JoinStep::CreatePublisher);
        }
        steps.push(JoinStep::AddUser);
        assert(steps@ =~= controller_steps(*cfg));
        steps
    }

    /// Stores a publisher that was created. It tells of the state of its connection.
    pub fn set_publisher(&mut self, publisher: Publisher)
        requires
            old(self).wf(),
            publisher.wf(),
        ensures
            final(self).wf(),
            *final(self) == (PubSubController {
                publisher: Some(
                    Publisher { on_ice_connection_state_change: true, ..publisher },
                ),
                ..*old(self)
            }),
    {
        let mut publisher = publisher;
        publisher.on_ice_connection_state_change();
        self.publisher = Some(publisher);
    }

    /// Stores a subscriber that was created.
    pub fn setup_subscriber(&mut self, subscriber: Subscriber, cfg: &PeerConfig)
        requires
            old(self).wf(),
            subscriber.wf(),
        ensures
            final(self).wf(),
            *final(self) == (PubSubController {
                subscriber: Some(
                    Subscriber {
                        no_auto_subscribe: cfg.no_auto_subscribe,
                        on_offer: true,
                        ..subscriber
                    },
                ),
                ..*old(self)
            }),
    {
        let mut subscriber = subscriber;
        subscriber.no_auto_subscribe = cfg.no_auto_subscribe;
        subscriber.on_offer();
        self.subscriber = Some(subscriber);
    }

    /// Takes note that someone has registered to hear of channels that the client opened.
    pub fn on_data_channel(&mut self)
        ensures
            *final(self) == (PubSubController { on_data_channel: true, ..*old(self) }),
    {
        self.on_data_channel = true;
    }

    /// Takes note that someone has registered to send candidates.
    pub fn on_ice_candidate(&mut self)
        ensures
            *final(self) == (PubSubController { on_ice_candidate: true, ..*old(self) }),
    {
        self.on_ice_candidate = true;
    }

    /// Takes note that someone has registered to send offers.
    pub fn on_offer(&mut self)
        ensures
            *final(self) == (PubSubController { on_offer: true, ..*old(self) }),
    {
        self.on_offer = true;
    }

    /// Takes note that someone has registered to hear of the state of the connection.
    pub fn register_on_ice_connection_state_change(&mut self)
        ensures
            *final(self) == (PubSubController {
                on_ice_connection_state_change: true,
                ..*old(self)
            }),
    {
        self.on_ice_connection_state_change = true;
    }

    /// Whether a candidate of the own side is sent to the client.
    pub fn sends_candidate(&self) -> (sends: bool)
        ensures
            sends == (self.on_ice_candidate && !self.closed),
    {
        self.on_ice_candidate && !self.closed
    }

    /// Whether the state of the connection of the publisher is told.
    pub fn tells_state(&self) -> (tells: bool)
        ensures
            tells == (self.on_ice_connection_state_change && !self.closed),
    {
        self.on_ice_connection_state_change && !self.closed
    }

    /// Adds a candidate of the client to a side of the peer, or stores it.
    ///
    /// # Returns
    /// - The candidate, if it is to be added to the connection now
    /// - `PeerControllerError::ErrNoProducer` if it is for the publisher, and there is none
    /// - `PeerControllerError::ErrNoConsumer` if it is for the subscriber, and there is none
    pub fn trickle(
        &mut self,
        candidate: RTCIceCandidateInit,
        target: PeerRole,
        has_remote_description: bool,
    ) -> (res: Result<Option<RTCIceCandidateInit>>)
        requires
            old(self).wf(),
        ensures
            final(self).wf(),
            match target {
                PeerRole::Publisher => match old(self).publisher {
                    None => res == Err::<Option<RTCIceCandidateInit>, PeerControllerError>(
                        PeerControllerError::ErrNoProducer,
                    ) && *final(self) == *old(self),
                    Some(publisher) => {
                        &&& res == Ok::<Option<RTCIceCandidateInit>, PeerControllerError>(
                            if has_remote_description {
                                Some(candidate)
                            } else {
                                None
                            },
                        )
                        &&& *final(self) == (PubSubController {
                            publisher: final(self).publisher,
                            ..*old(self)
                        })
                        &&& final(self).publisher matches Some(after) && after == (Publisher {
                            candidates: after.candidates,
                            ..publisher
                        }) && after.candidates.waiting@ == if has_remote_description {
                            publisher.candidates.waiting@
                        } else {
                            publisher.candidates.waiting@.push(candidate)
                        }
                    },
                },
                PeerRole::Subscriber => match old(self).subscriber {
                    None => res == Err::<Option<RTCIceCandidateInit>, PeerControllerError>(
                        PeerControllerError::ErrNoConsumer,
                    ) && *final(self) == *old(self),
                    Some(subscriber) => {
                        &&& res == Ok::<Option<RTCIceCandidateInit>, PeerControllerError>(
                            if has_remote_description {
                                Some(candidate)
                            } else {
                                None
                            },
                        )
                        &&& *final(self) == (PubSubController {
                            subscriber: final(self).subscriber,
                            ..*old(self)
                        })
                        &&& final(self).subscriber matches Some(after) && after == (Subscriber {
                            candidates: after.candidates,
                            ..subscriber
                        }) && after.candidates.waiting@ == if has_remote_description {
                            subscriber.candidates.waiting@
                        } else {
                            subscriber.candidates.waiting@.push(candidate)
                        }
                    },
                },
            },
            candidate_taken(
                *old(self),
                *final(self),
                candidate,
                target,
                has_remote_description,
                res,
            ),
    {
        match target {
            PeerRole::Publisher => {
                if self.publisher.is_none() {
                    return Err(PeerControllerError::ErrNoProducer);
                }
                match self.publisher.as_mut() {
                    Some(publisher) => Ok(
                        publisher.add_ice_candidate(candidate, has_remote_description),
                    ),
                    None => Err(PeerControllerError::ErrNoProducer),
                }
            },
            PeerRole::Subscriber => {
                if self.subscriber.is_none() {
                    return Err(PeerControllerError::ErrNoConsumer);
                }
                match self.subscriber.as_mut() {
                    Some(subscriber) => Ok(
                        subscriber.add_ice_candidate(candidate, has_remote_description),
                    ),
                    None => Err(PeerControllerError::ErrNoConsumer),
                }
            },
        }
    }

    /// Takes out both sides, to close them.
    pub fn close(&mut self) -> (res: (Option<Subscriber>, Option<Publisher>))
        ensures
            res == (old(self).subscriber, old(self).publisher),
            *final(self) == (PubSubController {
                closed: true,
                subscriber: None,
                publisher: None,
                ..*old(self)
            }),
    {
        self.closed = true;
        let subscriber = self.subscriber.take();
        let publisher = self.publisher.take();
        (subscriber, publisher)
    }

    pub fn subscriber(&self) -> (subscriber: &Option<Subscriber>)
        ensures
            *subscriber == self.subscriber,
    {
        &self.subscriber
    }

    pub fn consumer(&self) -> (consumer: &Option<Subscriber>)
        ensures
            *consumer == self.subscriber,
    {
        &self.subscriber
    }

    /// Takes out a data channel, to close it.
    pub fn close_local_data_channel(&mut self, label: &str) -> (res: Option<u64>)
        requires
            old(self).wf(),
        ensures
            final(self).wf(),
            match old(self).subscriber {
                None => res is None && *final(self) == *old(self),
                Some(subscriber) => {
                    &&& res == if subscriber.channels@.contains_key(label@) {
                        Some(subscriber.channels@[label@])
                    } else {
                        None
                    }
                    &&& *final(self) == (PubSubController {
                        subscriber: final(self).subscriber,
                        ..*old(self)
                    })
                    &&& final(self).subscriber matches Some(after) && after == (Subscriber {
                        channels: after.channels,
                        ..subscriber
                    }) && after.channels@ == subscriber.channels@.remove(label@)
                },
            },
    {
        if self.subscriber.is_none() {
            return None;
        }
        match self.subscriber.as_mut() {
            Some(subscriber) => subscriber.remove_data_channel(label),
            None => None,
        }
    }

    /// Stores a data channel that was created.
    ///
    /// # Returns
    /// - The channel, and the existing one to close
    /// - `PeerControllerError::ErrNoConsumer` if there is no subscriber
    pub fn create_local_data_channel(&mut self, label: String, number: u64) -> (res: Result<
        (DataChannel, Option<u64>),
    >)
        requires
            old(self).wf(),
        ensures
            final(self).wf(),
            match old(self).subscriber {
                None => res is Err && res->Err_0 == PeerControllerError::ErrNoConsumer
                    && *final(self) == *old(self),
                Some(subscriber) => {
                    &&& res matches Ok(created)
                    &&& created.0.label@ == label@
                    &&& created.0.number == number
                    &&& created.1 == if subscriber.channels@.contains_key(label@) {
                        Some(subscriber.channels@[label@])
                    } else {
                        None
                    }
                    &&& *final(self) == (PubSubController {
                        subscriber: final(self).subscriber,
                        ..*old(self)
                    })
                    &&& final(self).subscriber matches Some(after) && after == (Subscriber {
                        channels: after.channels,
                        ..subscriber
                    }) && after.channels@ == subscriber.channels@.insert(label@, number)
                },
            },
    {
        if self.subscriber.is_none() {
            return Err(PeerControllerError::ErrNoConsumer);
        }
        match self.subscriber.as_mut() {
            Some(subscriber) => Ok(subscriber.create_data_channel(label, number)),
            None => Err(PeerControllerError::ErrNoConsumer),
        }
    }

    pub fn local_data_channel(&self, label: &str) -> (res: Option<u64>)
        requires
            self.wf(),
        ensures
            res == match self.subscriber {
                Some(subscriber) => if subscriber.channels@.contains_key(label@) {
                    Some(subscriber.channels@[label@])
                } else {
                    None
                },
                None => None,
            },
    {
        match &self.subscriber {
            Some(subscriber) => subscriber.data_channel(label),
            None => None,
        }
    }

    /// Starts negotiation of the subscriber, which creates offers.
    ///
    /// # Returns
    /// - `PeerControllerError::ErrNoConsumer` if there is no subscriber
    pub fn negotiate(&mut self, offer_options: Option<RTCOfferOptions>) -> (res: Result<
        NegotiationStep,
    >)
        requires
            old(self).wf(),
        ensures
            final(self).wf(),
            match old(self).subscriber {
                None => res == Err::<NegotiationStep, PeerControllerError>(
                    PeerControllerError::ErrNoConsumer,
                ) && *final(self) == *old(self),
                Some(subscriber) => {
                    &&& res == Ok::<NegotiationStep, PeerControllerError>(
                        if subscriber.negotiation.asks_offer(NegotiationEvent::Requested) {
                            NegotiationStep::CreateOffer(offer_options)
                        } else {
                            NegotiationStep::Nothing
                        },
                    )
                    &&& *final(self) == (PubSubController {
                        subscriber: Some(
                            Subscriber {
                                negotiation: subscriber.negotiation.after(
                                    NegotiationEvent::Requested,
                                ),
                                ..subscriber
                            },
                        ),
                        ..*old(self)
                    })
                },
            },
    {
        if self.subscriber.is_none() {
            return Err(PeerControllerError::ErrNoConsumer);
        }
        match self.subscriber.as_mut() {
            Some(subscriber) => Ok(subscriber.negotiate(offer_options)),
            None => Err(PeerControllerError::ErrNoConsumer),
        }
    }

    /// Takes note that the remote description of the subscriber was set, which ends the SDP exchange.
    ///
    /// # Returns
    /// - The candidates to add, and whether an offer is to be created
    /// - `PeerControllerError::ErrNoConsumer` if there is no subscriber
    pub fn on_remote_answer(&mut self) -> (res: Result<(Vec<RTCIceCandidateInit>, NegotiationStep)>)
        requires
            old(self).wf(),
        ensures
            final(self).wf(),
            match old(self).subscriber {
                None => res is Err && res->Err_0 == PeerControllerError::ErrNoConsumer
                    && *final(self) == *old(self),
                Some(subscriber) => {
                    &&& res matches Ok(done)
                    &&& done.0@ == subscriber.candidates.waiting@
                    &&& done.1 == if subscriber.negotiation.asks_offer(NegotiationEvent::Answered) {
                        NegotiationStep::CreateOffer(None)
                    } else {
                        NegotiationStep::Nothing
                    }
                    &&& *final(self) == (PubSubController {
                        subscriber: final(self).subscriber,
                        ..*old(self)
                    })
                    &&& final(self).subscriber matches Some(after) && after == (Subscriber {
                        candidates: after.candidates,
                        negotiation: subscriber.negotiation.after(NegotiationEvent::Answered),
                        ..subscriber
                    }) && after.candidates.waiting@.len() == 0
                },
            },
    {
        if self.subscriber.is_none() {
            return Err(PeerControllerError::ErrNoConsumer);
        }
        match self.subscriber.as_mut() {
            Some(subscriber) => Ok(subscriber.on_remote_answer()),
            None => Err(PeerControllerError::ErrNoConsumer),
        }
    }

    /// Decides what is to be done next to answer an offer of the client.
    ///
    /// If there are candidates awaiting to be added, they are to be added to the peer connection and cleaned up.
    ///
    /// # Returns
    /// - `PeerControllerError::ErrNoProducer` if there is no publisher
    pub fn on_remote_offer(&mut self, event: AnswerEvent) -> (res: Result<AnswerAction>)
        requires
            old(self).wf(),
        ensures
            final(self).wf(),
            match old(self).publisher {
                None => res is Err && res->Err_0 == PeerControllerError::ErrNoProducer
                    && *final(self) == *old(self),
                Some(publisher) => {
                    &&& *final(self) == (PubSubController {
                        publisher: final(self).publisher,
                        ..*old(self)
                    })
                    &&& res matches Ok(action) && final(self).publisher matches Some(after) && after
                        == (Publisher { candidates: after.candidates, ..publisher })
                        && answer_stepped(publisher.candidates, after.candidates, event, action)
                },
            },
    {
        if self.publisher.is_none() {
            return Err(PeerControllerError::ErrNoProducer);
        }
        match self.publisher.as_mut() {
            Some(publisher) => Ok(answer_step(&mut publisher.candidates, event)),
            None => Err(PeerControllerError::ErrNoProducer),
        }
    }

    /// Peer router used for track forwarding to another peer
    ///
    /// # Returns
    /// - `PeerControllerError::ErrNoProducer` if there is no publisher
    pub fn router(&self) -> (res: Result<&LocalRouter>)
        ensures
            match self.publisher {
                Some(publisher) => res matches Ok(found) && *found == publisher.router,
                None => res is Err && res->Err_0 == PeerControllerError::ErrNoProducer,
            },
    {
        match &self.publisher {
            Some(publisher) => Ok(publisher.router()),
            None => Err(PeerControllerError::ErrNoProducer),
        }
    }
}

/// A peer that publishes has its publisher before its user is in the room; one that does not publish
/// has none.
pub proof fn law_publisher_comes_before_the_user(cfg: PeerConfig)
    ensures
        controller_steps(cfg).contains(JoinStep::CreatePublisher) <==> !cfg.no_publish,
        !cfg.no_publish ==> controller_steps(cfg)[0] == JoinStep::CreatePublisher,
        controller_steps(cfg).last() == JoinStep::AddUser,
        controller_steps(cfg).len() == if cfg.no_publish {
            1int
        } else {
            2int
        },
{
}

/// Whether the candidate was handed on, or waits on the side that it is for.
pub open spec fn candidate_taken(
    before: PubSubController,
    after: PubSubController,
    candidate: RTCIceCandidateInit,
    target: PeerRole,
    has_remote_description: bool,
    res: Result<Option<RTCIceCandidateInit>>,
) -> bool {
    let known = match target {
        PeerRole::Publisher => before.publisher is Some,
        PeerRole::Subscriber => before.subscriber is Some,
    };
    &&& known ==> res == Ok::<Option<RTCIceCandidateInit>, PeerControllerError>(
        if has_remote_description {
            Some(candidate)
        } else {
            None
        },
    )
    &&& !known ==> after == before && res == Err::<
        Option<RTCIceCandidateInit>,
        PeerControllerError,
    >(
        match target {
            PeerRole::Publisher => PeerControllerError::ErrNoProducer,
            PeerRole::Subscriber => PeerControllerError::ErrNoConsumer,
        },
    )
    &&& match target {
        PeerRole::Publisher => after.subscriber == before.subscriber && match (
            before.publisher,
            after.publisher,
        ) {
            (Some(was), Some(is)) => is.candidates.waiting@ == if has_remote_description {
                was.candidates.waiting@
            } else {
                was.candidates.waiting@.push(candidate)
            },
            (None, None) => true,
            _ => false,
        },
        PeerRole::Subscriber => after.publisher == before.publisher && match (
            before.subscriber,
            after.subscriber,
        ) {
            (Some(was), Some(is)) => is.candidates.waiting@ == if has_remote_description {
                was.candidates.waiting@
            } else {
                was.candidates.waiting@.push(candidate)
            },
            (None, None) => true,
            _ => false,
        },
    }
}

/// A candidate is for one side: it waits there, or is handed on, and fails where there is no such
/// side. The other side is not touched.
pub proof fn law_candidate_is_for_one_side(
    before: PubSubController,
    after: PubSubController,
    candidate: RTCIceCandidateInit,
    target: PeerRole,
    has_remote_description: bool,
    res: Result<Option<RTCIceCandidateInit>>,
)
    requires
        candidate_taken(before, after, candidate, target, has_remote_description, res),
    ensures
        target == PeerRole::Publisher ==> after.subscriber == before.subscriber && (res is Ok
            <==> before.publisher is Some) && (before.publisher is None ==> res->Err_0
            == PeerControllerError::ErrNoProducer),
        target == PeerRole::Subscriber ==> after.publisher == before.publisher && (res is Ok
            <==> before.subscriber is Some) && (before.subscriber is None ==> res->Err_0
            == PeerControllerError::ErrNoConsumer),
        res matches Ok(handed) ==> (handed is Some <==> has_remote_description) && (handed is Some
            ==> handed == Some(candidate)),
        res is Ok && !has_remote_description && target == PeerRole::Publisher
            ==> after.publisher->0.candidates.waiting@.last() == candidate,
        res is Ok && !has_remote_description && target == PeerRole::Subscriber
            ==> after.subscriber->0.candidates.waiting@.last() == candidate,
{
}

} // verus!
