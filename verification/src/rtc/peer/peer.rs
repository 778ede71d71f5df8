use vstd::prelude::*;

use crate::peer::answer::AnswerAction;
use crate::peer::ice::RTCIceCandidateInit;
use crate::peer::negotiation::{NegotiationEvent, NegotiationStep};
use crate::peer::sdp::described_version;
use crate::rtc::peer::negotiation::{DescribedStep, NegotiationState, SdpStep, SdpType};
use crate::rtc::peer::publisher::{version_in, Publisher};
use crate::rtc::peer::pubsub::{PubSubPeer, Trickled, PUBLISHER, SUBSCRIBER};
use crate::rtc::peer::subscriber::Subscriber;
use crate::text::views;
use crate::track::error::{Error, Result};

verus! {

/// How a peer joins a room.
#[derive(Debug, Eq, PartialEq, Clone, Copy, Structural)]
pub struct JoinConfig {
    pub no_publish: bool,
    pub no_subscribe: bool,
    pub no_auto_subscribe: bool,
}

impl Default for JoinConfig {
    fn default() -> (config: Self)
        ensures
            !config.no_publish,
            !config.no_subscribe,
            !config.no_auto_subscribe,
    {
        JoinConfig { no_publish: false, no_subscribe: false, no_auto_subscribe: false }
    }
}

/// What is to be done to join a room.
pub enum PeerJoinStep {
    /// A subscriber is created, with its own connection.
    CreateSubscriber { no_auto_subscribe: bool },
    /// A data channel of the room is added to the subscriber.
    AddDataChannel(String),
    /// The subscriber creates an offer.
    CreateOffer,
    /// A publisher is created, with its own connection.
    CreatePublisher,
    /// The peer is added to the room.
    AddPeer,
    /// The user is added to the room, without tracks.
    AddUser,
    /// The peer subscribes to the tracks of the others.
    Subscribe,
}

/// What is to be done to join a room.
pub ghost enum PeerStep {
    CreateSubscriber(bool),
    AddDataChannel(Seq<char>),
    CreateOffer,
    CreatePublisher,
    AddPeer,
    AddUser,
    Subscribe,
}

impl View for PeerJoinStep {
    type V = PeerStep;

    open spec fn view(&self) -> PeerStep {
        match *self {
            PeerJoinStep::CreateSubscriber { no_auto_subscribe } => PeerStep::CreateSubscriber(
                no_auto_subscribe,
            ),
            PeerJoinStep::AddDataChannel(label) => PeerStep::AddDataChannel(label@),
            PeerJoinStep::CreateOffer => PeerStep::CreateOffer,
            PeerJoinStep::CreatePublisher => PeerStep::CreatePublisher,
            PeerJoinStep::AddPeer => PeerStep::AddPeer,
            PeerJoinStep::AddUser => PeerStep::AddUser,
            PeerJoinStep::Subscribe => PeerStep::Subscribe,
        }
    }
}

/// The steps in a list.
pub open spec fn steps_of(list: Seq<PeerJoinStep>) -> Seq<PeerStep> {
    list.map_values(|step: PeerJoinStep| step@)
}

/// The steps that add the data channels of a room, each with an offer.
pub open spec fn channel_steps(labels: Seq<Seq<char>>) -> Seq<PeerStep>
    decreases labels.len(),
{
    if labels.len() == 0 {
        seq![]
    } else {
        channel_steps(labels.drop_last()).push(PeerStep::AddDataChannel(labels.last())).push(
            PeerStep::CreateOffer,
        )
    }
}

/// What is to be done to join a room, in its order.
pub open spec fn join_steps(cfg: JoinConfig, labels: Seq<Seq<char>>) -> Seq<PeerStep> {
    let subscribes: Seq<PeerStep> = if cfg.no_subscribe {
        seq![]
    } else {
        seq![PeerStep::CreateSubscriber(cfg.no_auto_subscribe)]
    };
    let channels: Seq<PeerStep> = if cfg.no_subscribe || cfg.no_publish {
        seq![]
    } else {
        channel_steps(labels)
    };
    let publishes: Seq<PeerStep> = if cfg.no_publish {
        seq![]
    } else {
        seq![PeerStep::CreatePublisher]
    };
    let added: Seq<PeerStep> = if cfg.no_subscribe {
        seq![PeerStep::AddPeer, PeerStep::AddUser]
    } else {
        seq![PeerStep::AddPeer, PeerStep::AddUser, PeerStep::Subscribe]
    };
    subscribes + channels + publishes + added
}

/// Abstraction of a WebRTC peer connection
pub struct Peer {
    pub sides: PubSubPeer,
    pub negotiation_state: NegotiationState,
}

impl Peer {
    /// What every operation keeps.
    pub open spec fn wf(&self) -> bool {
        self.sides.wf()
    }

    /// Create a new Peer
    pub fn new(user_id: String) -> (peer: Self)
        ensures
            peer.wf(),
            peer.sides.id@ == user_id@,
            peer.sides.user_id@ == user_id@,
            !peer.sides.closed,
            peer.sides.room is None,
            peer.sides.subscriber is None,
            peer.sides.publisher is None,
            !peer.sides.negotiation.remote_answer_pending,
            !peer.sides.negotiation.negotiation_pending,
            !peer.negotiation_state.making_offer,
            !peer.negotiation_state.ignore_offer,
            !peer.negotiation_state.is_setting_remote_answer_pending,
    {
        Self { sides: PubSubPeer::new(user_id), negotiation_state: NegotiationState::default() }
    }

    pub fn id(&self) -> (id: String)
        ensures
            id@ == self.sides.id@,
    {
        self.sides.id()
    }

    pub fn publisher(&self) -> (publisher: &Option<Publisher>)
        ensures
            *publisher == self.sides.publisher,
    {
        self.sides.publisher()
    }

    pub fn subscriber(&self) -> (subscriber: &Option<Subscriber>)
        ensures
            *subscriber == self.sides.subscriber,
    {
        self.sides.subscriber()
    }

    /// Joins a room.
    ///
    /// # Arguments
    /// - `labels`: The data channels of the room
    ///
    /// # Returns
    /// - What is to be done, in its order
    pub fn join(&mut self, room_id: String, cfg: JoinConfig, labels: &Vec<String>) -> (steps: Vec<
        PeerJoinStep,
    >)
        requires
            old(self).wf(),
        ensures
            final(self).wf(),
            *final(self) == (Peer {
                sides: PubSubPeer { room: Some(room_id), ..old(self).sides },
                ..*old(self)
            }),
            steps_of(steps@) == join_steps(cfg, views(labels@)),
    {
        self.sides.room = Some(room_id);
        let mut steps: Vec<PeerJoinStep> = Vec::new();
        if !cfg.no_subscribe {
            steps.push(PeerJoinStep::CreateSubscriber { no_auto_subscribe: cfg.no_auto_subscribe });
        }
        let ghost subscribes: Seq<PeerStep> = if cfg.no_subscribe {
            seq![]
        } else {
            seq![PeerStep::CreateSubscriber(cfg.no_auto_subscribe)]
        };
        assert(steps_of(steps@) =~= subscribes);
        if !cfg.no_publish {
            if !cfg.no_subscribe {
                add_channels(&mut steps, labels);
            }
            let ghost channels = steps_of(steps@);
            steps.push(PeerJoinStep::CreatePublisher);
            assert(steps_of(steps@) =~= channels.push(PeerStep::CreatePublisher));
        }
        let ghost so_far = steps_of(steps@);
        steps.push(PeerJoinStep::AddPeer);
        steps.push(PeerJoinStep::AddUser);
        if !cfg.no_subscribe {
            steps.push(PeerJoinStep::Subscribe);
        }
        proof {
            let added: Seq<PeerStep> = if cfg.no_subscribe {
                seq![PeerStep::AddPeer, PeerStep::AddUser]
            } else {
                seq![PeerStep::AddPeer, PeerStep::AddUser, PeerStep::Subscribe]
            };
            assert(steps_of(steps@) =~= so_far + added);
            assert(steps_of(steps@) =~= join_steps(cfg, views(labels@)));
        }
        steps
    }

    /// Starts to answer an offer.
    pub fn answer(&mut self, current: Option<String>, stable: bool, offer: String) -> (res: Result<
        AnswerAction,
    >)
        requires
            old(self).wf(),
        ensures
            final(self).wf(),
            final(self).negotiation_state == old(self).negotiation_state,
            match old(self).sides.publisher {
                None => res == Err::<AnswerAction, Error>(Error::ErrNoTransportEstablished)
                    && *final(self) == *old(self),
                Some(publisher) => if !stable {
                    res == Err::<AnswerAction, Error>(Error::ErrOfferIgnored) && *final(self)
                        == *old(self)
                } else {
                    &&& res == Ok::<AnswerAction, Error>(
                        AnswerAction::SetRemoteDescription(offer),
                    )
                    &&& final(self).sides == (PubSubPeer {
                        publisher: final(self).sides.publisher,
                        ..old(self).sides
                    })
                    &&& final(self).sides.publisher matches Some(after) && publisher.offered(
                        after,
                        version_in(current),
                        described_version(offer@),
                    )
                },
            },
    {
        self.sides.answer(current, stable, offer)
    }

    /// Takes out both sides, to close them.
    pub fn clean_up(&mut self) -> (res: (Option<Subscriber>, Option<Publisher>))
        ensures
            res == (old(self).sides.subscriber, old(self).sides.publisher),
            *final(self) == (Peer {
                sides: PubSubPeer { subscriber: None, publisher: None, ..old(self).sides },
                ..*old(self)
            }),
    {
        self.sides.clean_up()
    }

    /// Takes note that the remote description of the subscriber was set. If there is a pending
    /// negotiation, it is started.
    pub fn set_remote_description(&mut self) -> (res: Result<
        (Vec<RTCIceCandidateInit>, NegotiationStep),
    >)
        requires
            old(self).wf(),
        ensures
            final(self).wf(),
            final(self).negotiation_state == old(self).negotiation_state,
            match old(self).sides.subscriber {
                None => res is Err && res->Err_0 == Error::ErrNoTransportEstablished && *final(self)
                    == *old(self),
                Some(subscriber) => {
                    &&& res matches Ok(done)
                    &&& done.0@ == subscriber.candidates.waiting@
                    &&& done.1 == if old(self).sides.negotiation.asks_offer(
                        NegotiationEvent::Answered,
                    ) {
                        NegotiationStep::CreateOffer(None)
                    } else {
                        NegotiationStep::Nothing
                    }
                    &&& final(self).sides.subscriber matches Some(after) && after == (Subscriber {
                        candidates: after.candidates,
                        negotiation_pending: false,
                        ..subscriber
                    }) && after.candidates.waiting@.len() == 0
                    &&& final(self).sides == (PubSubPeer {
                        subscriber: final(self).sides.subscriber,
                        negotiation: old(self).sides.negotiation.after(NegotiationEvent::Answered),
                        ..old(self).sides
                    })
                },
            },
    {
        self.sides.set_remote_description()
    }

    /// Adds a candidate of the client to a side of the peer, or stores it.
    pub fn trickle(
        &mut self,
        candidate: RTCIceCandidateInit,
        target: u8,
        has_remote_description: bool,
    ) -> (res: Result<Option<Trickled>>)
        requires
            old(self).wf(),
        ensures
            final(self).wf(),
            final(self).negotiation_state == old(self).negotiation_state,
            old(self).sides.publisher is None || old(self).sides.subscriber is None ==> res == Err::<
                Option<Trickled>,
                Error,
            >(Error::ErrNoTransportEstablished) && *final(self) == *old(self),
            old(self).sides.publisher is Some && old(self).sides.subscriber is Some ==> res == Ok::<
                Option<Trickled>,
                Error,
            >(
                if target <= 1 && has_remote_description {
                    Some(Trickled { target, candidate })
                } else {
                    None
                },
            ) && trickled(
                old(self).sides,
                final(self).sides,
                candidate,
                target,
                has_remote_description,
            ),
    {
        self.sides.trickle(candidate, target, has_remote_description)
    }

    /// Consume a given RTC session description
    pub fn consume_sdp(&mut self, sdp_type: SdpType, stable: bool) -> (step: SdpStep)
        ensures
            *final(self) == (Peer {
                negotiation_state: old(self).negotiation_state.described(sdp_type, stable),
                ..*old(self)
            }),
            step == if old(self).negotiation_state.collides(sdp_type, stable) {
                SdpStep::Ignore
            } else {
                SdpStep::SetRemoteDescription
            },
    {
        self.negotiation_state.consume_sdp(sdp_type, stable)
    }

    /// Takes note that the remote description was set.
    pub fn remote_described(&mut self, sdp_type: SdpType) -> (step: DescribedStep)
        ensures
            *final(self) == (Peer {
                negotiation_state: NegotiationState {
                    is_setting_remote_answer_pending: false,
                    ..old(self).negotiation_state
                },
                ..*old(self)
            }),
            step == if sdp_type == SdpType::Offer {
                DescribedStep::CreateAnswer
            } else {
                DescribedStep::Nothing
            },
    {
        self.negotiation_state.remote_described(sdp_type)
    }

    /// Consume a given ICE candidate
    pub fn consume_ice(&self, added: bool) -> (fails: bool)
        ensures
            fails == (!added && !self.negotiation_state.ignore_offer),
    {
        self.negotiation_state.consume_ice(added)
    }
}

/// Whether `after` are the sides `before` once a candidate of the client came in.
pub open spec fn trickled(
    before: PubSubPeer,
    after: PubSubPeer,
    candidate: RTCIceCandidateInit,
    target: u8,
    has_remote_description: bool,
) -> bool {
    match (before.publisher, before.subscriber) {
        (Some(publisher), Some(subscriber)) => if has_remote_description || target > 1 {
            after == before
        } else if target == 0 {
            &&& after == PubSubPeer { publisher: after.publisher, ..before }
            &&& after.publisher matches Some(p) && p == (Publisher {
                candidates: p.candidates,
                ..publisher
            }) && p.candidates.waiting@ == publisher.candidates.waiting@.push(candidate)
        } else {
            &&& after == PubSubPeer { subscriber: after.subscriber, ..before }
            &&& after.subscriber matches Some(s) && s == (Subscriber {
                candidates: s.candidates,
                ..subscriber
            }) && s.candidates.waiting@ == subscriber.candidates.waiting@.push(candidate)
        },
        _ => after == before,
    }
}

fn add_channels(steps: &mut Vec<PeerJoinStep>, labels: &Vec<String>)
    ensures
        steps_of(final(steps)@) == steps_of(old(steps)@) + channel_steps(views(labels@)),
{
    let ghost before = steps_of(steps@);
    let ghost all = views(labels@);
    let mut i: usize = 0;
    assert(all.take(0) =~= seq![]);
    assert(steps_of(steps@) =~= before + channel_steps(all.take(0)));
    while i < labels.len()
        invariant
            all == views(labels@),
            i <= labels@.len(),
            steps_of(steps@) == before + channel_steps(all.take(i as int)),
        decreases labels@.len() - i,
    {
        let ghost so_far = steps_of(steps@);
        steps.push(PeerJoinStep::AddDataChannel(labels[i].clone()));
        steps.push(PeerJoinStep::CreateOffer);
        proof {
            assert(all.take(i + 1).drop_last() =~= all.take(i as int));
            assert(all.take(i + 1).last() == labels@[i as int]@);
            assert(steps_of(steps@) =~= so_far.push(
                PeerStep::AddDataChannel(labels@[i as int]@),
            ).push(PeerStep::CreateOffer));
            assert(steps_of(steps@) =~= before + channel_steps(all.take(i + 1)));
        }
        i = i + 1;
    }
    assert(all.take(i as int) =~= all);
}

/// A candidate that has to wait does so on the side that it is for, behind those that wait there, and
/// the other side is not touched.
pub proof fn law_candidate_waits_on_its_side(
    before: PubSubPeer,
    after: PubSubPeer,
    candidate: RTCIceCandidateInit,
    target: u8,
    has_remote_description: bool,
)
    requires
        trickled(before, after, candidate, target, has_remote_description),
        before.publisher is Some,
        before.subscriber is Some,
    ensures
        after.publisher is Some,
        after.subscriber is Some,
        target == PUBLISHER && !has_remote_description ==> after.publisher->0.candidates.waiting@
            == before.publisher->0.candidates.waiting@.push(candidate) && after.subscriber
            == before.subscriber,
        target == SUBSCRIBER && !has_remote_description ==> after.subscriber->0.candidates.waiting@
            == before.subscriber->0.candidates.waiting@.push(candidate) && after.publisher
            == before.publisher,
        target != PUBLISHER && target != SUBSCRIBER ==> after == before,
        has_remote_description ==> after == before,
        after.negotiation == before.negotiation,
{
}

/// Each data channel of a room is added with an offer of its own, in the order of the labels.
pub proof fn law_each_channel_is_offered(labels: Seq<Seq<char>>)
    ensures
        channel_steps(labels).len() == 2 * labels.len(),
        forall|i: int|
            0 <= i < labels.len() ==> channel_steps(labels)[2 * i] == PeerStep::AddDataChannel(
                #[trigger] labels[i],
            ) && channel_steps(labels)[2 * i + 1] == PeerStep::CreateOffer,
    decreases labels.len(),
{
    if labels.len() > 0 {
        let rest = labels.drop_last();
        law_each_channel_is_offered(rest);
        assert forall|i: int| 0 <= i < labels.len() implies channel_steps(labels)[2 * i]
            == PeerStep::AddDataChannel(#[trigger] labels[i]) && channel_steps(labels)[2 * i + 1]
            == PeerStep::CreateOffer by {
            if i < rest.len() {
                assert(rest[i] == labels[i]);
                assert(channel_steps(rest)[2 * i] == PeerStep::AddDataChannel(rest[i]));
            }
        }
    }
}

/// A peer that subscribes sets up its subscriber first, with the choice that it made, and subscribes
/// last; one that does not subscribe does neither. A publisher is set up just for a peer that
/// publishes. The peer is added to the room before its user, once all connections are there.
pub proof fn law_peer_joins_once_it_is_set_up(cfg: JoinConfig, labels: Seq<Seq<char>>)
    ensures
        ({
            let steps = join_steps(cfg, labels);
            let n = steps.len();
            let last = if cfg.no_subscribe {
                n - 1
            } else {
                n - 2
            };
            &&& last >= 1
            &&& steps[last] == PeerStep::AddUser
            &&& steps[last - 1] == PeerStep::AddPeer
            &&& !cfg.no_subscribe ==> steps[0] == PeerStep::CreateSubscriber(cfg.no_auto_subscribe)
                && steps.last() == PeerStep::Subscribe
            &&& cfg.no_subscribe ==> !steps.contains(PeerStep::Subscribe) && !steps.contains(
                PeerStep::CreateSubscriber(cfg.no_auto_subscribe),
            )
            &&& !cfg.no_publish ==> last >= 2 && steps[last - 2] == PeerStep::CreatePublisher
            &&& cfg.no_publish ==> !steps.contains(PeerStep::CreatePublisher)
            &&& forall|i: int|
                0 <= i < labels.len() && !cfg.no_publish && !cfg.no_subscribe
                    ==> steps[1 + 2 * i] == PeerStep::AddDataChannel(#[trigger] labels[i])
                    && steps[2 + 2 * i] == PeerStep::CreateOffer
            &&& cfg.no_publish || cfg.no_subscribe ==> !steps.contains(PeerStep::CreateOffer)
        }),
{
    let steps = join_steps(cfg, labels);
    law_each_channel_is_offered(labels);
    if !cfg.no_publish && !cfg.no_subscribe {
        assert forall|i: int| 0 <= i < labels.len() implies steps[1 + 2 * i]
            == PeerStep::AddDataChannel(#[trigger] labels[i]) && steps[2 + 2 * i]
            == PeerStep::CreateOffer by {
            assert(channel_steps(labels)[2 * i] == PeerStep::AddDataChannel(labels[i]));
            assert(steps[1 + 2 * i] == channel_steps(labels)[2 * i]);
            assert(steps[2 + 2 * i] == channel_steps(labels)[2 * i + 1]);
        }
    }
}

} // verus!
