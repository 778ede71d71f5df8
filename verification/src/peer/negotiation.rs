use vstd::prelude::*;

verus! {

/// What an offer is asked for with.
#[derive(Debug, Eq, PartialEq, Clone, Copy, Structural)]
pub struct RTCOfferOptions {
    pub voice_activity_detection: bool,
    pub ice_restart: bool,
}

/// What is to be done next to agree with the other side.
#[derive(Debug, Eq, PartialEq, Clone, Copy, Structural)]
pub enum NegotiationStep {
    Nothing,
    /// An offer is to be created, set as the local description, and sent.
    CreateOffer(Option<RTCOfferOptions>),
}

/// Where two sides stand with an offer.
#[derive(Debug, Eq, PartialEq, Clone, Copy, Structural)]
pub struct Negotiation {
    /// An offer was sent, and its answer has not come yet.
    pub remote_answer_pending: bool,
    /// Another offer is due once the answer has come.
    pub negotiation_pending: bool,
}

/// What happens while two sides try to agree.
#[derive(Debug, Eq, PartialEq, Clone, Copy, Structural)]
pub enum NegotiationEvent {
    /// Someone wants to agree on something new.
    Requested,
    /// An offer was created.
    OfferCreated,
    /// The answer to an offer was set as the remote description.
    Answered,
}

impl Negotiation {
    /// Where the sides stand after an event.
    pub open spec fn after(self, event: NegotiationEvent) -> Negotiation {
        match event {
            NegotiationEvent::Requested => Negotiation {
                negotiation_pending: self.negotiation_pending || self.remote_answer_pending,
                ..self
            },
            NegotiationEvent::OfferCreated => Negotiation { remote_answer_pending: true, ..self },
            NegotiationEvent::Answered => Negotiation {
                remote_answer_pending: false,
                negotiation_pending: false,
            },
        }
    }

    /// Whether an event is followed by a new offer.
    pub open spec fn asks_offer(self, event: NegotiationEvent) -> bool {
        match event {
            NegotiationEvent::Requested => !self.remote_answer_pending,
            NegotiationEvent::OfferCreated => false,
            NegotiationEvent::Answered => self.negotiation_pending,
        }
    }

    /// Where the sides stand after a number of events.
    pub open spec fn after_all(self, events: Seq<NegotiationEvent>) -> Negotiation
        decreases events.len(),
    {
        if events.len() == 0 {
            self
        } else {
            self.after_all(events.drop_last()).after(events.last())
        }
    }

    pub fn new() -> (negotiation: Self)
        ensures
            !negotiation.remote_answer_pending,
            !negotiation.negotiation_pending,
    {
        Self { remote_answer_pending: false, negotiation_pending: false }
    }

    /// Starts negotiation process. While an answer is pending, it is put off.
    pub fn negotiate(&mut self, offer_options: Option<RTCOfferOptions>) -> (step: NegotiationStep)
        ensures
            *final(self) == old(self).after(NegotiationEvent::Requested),
            step == if old(self).asks_offer(NegotiationEvent::Requested) {
                NegotiationStep::CreateOffer(offer_options)
            } else {
                NegotiationStep::Nothing
            },
    {
        if self.remote_answer_pending {
            self.negotiation_pending = true;
            return NegotiationStep::Nothing;
        }
        NegotiationStep::CreateOffer(offer_options)
    }

    /// Takes note that an offer was created and set as the local description.
    pub fn offer_created(&mut self)
        ensures
            *final(self) == old(self).after(NegotiationEvent::OfferCreated),
    {
        self.remote_answer_pending = true;
    }

    /// Takes note that the remote description was set. If there is a pending negotiation, it is
    /// started.
    pub fn answered(&mut self) -> (step: NegotiationStep)
        ensures
            *final(self) == old(self).after(NegotiationEvent::Answered),
            step == if old(self).asks_offer(NegotiationEvent::Answered) {
                NegotiationStep::CreateOffer(None)
            } else {
                NegotiationStep::Nothing
            },
    {
        self.remote_answer_pending = false;
        if self.negotiation_pending {
            self.negotiation_pending = false;
            return self.negotiate(None);
        }
        NegotiationStep::Nothing
    }
}

/// While the answer to an offer is awaited, no other offer is asked for, whatever happens in the
/// meantime.
pub proof fn law_one_offer_at_a_time(negotiation: Negotiation, between: Seq<NegotiationEvent>)
    requires
        negotiation.remote_answer_pending,
        forall|i: int| 0 <= i < between.len() ==> (#[trigger] between[i]) !is Answered,
    ensures
        negotiation.after_all(between).remote_answer_pending,
        !negotiation.after_all(between).asks_offer(NegotiationEvent::Requested),
    decreases between.len(),
{
    if between.len() > 0 {
        let rest = between.drop_last();
        assert forall|i: int| 0 <= i < rest.len() implies (#[trigger] rest[i]) !is Answered by {
            assert(between[i] !is Answered);
        }
        law_one_offer_at_a_time(negotiation, rest);
        assert(between[between.len() - 1] !is Answered);
    }
}

/// What is wanted while the answer to an offer is awaited is not lost: once the answer has come,
/// whatever happened in the meantime, a new offer is made.
pub proof fn law_request_is_not_lost(negotiation: Negotiation, between: Seq<NegotiationEvent>)
    requires
        negotiation.remote_answer_pending,
        forall|i: int| 0 <= i < between.len() ==> (#[trigger] between[i]) !is Answered,
    ensures
        negotiation.after(NegotiationEvent::Requested).after_all(between).asks_offer(
            NegotiationEvent::Answered,
        ),
    decreases between.len(),
{
    if between.len() > 0 {
        let rest = between.drop_last();
        assert forall|i: int| 0 <= i < rest.len() implies (#[trigger] rest[i]) !is Answered by {
            assert(between[i] !is Answered);
        }
        law_request_is_not_lost(negotiation, rest);
        assert(between[between.len() - 1] !is Answered);
    }
}

/// An offer is made at once where no answer is awaited, and each offer is followed by the wait for
/// its answer. The answer ends the wait, and is followed by another offer only where one was wanted
/// meanwhile.
pub proof fn law_offer_is_made_at_once_where_it_can_be(idle: Negotiation)
    requires
        !idle.remote_answer_pending,
        !idle.negotiation_pending,
    ensures
        idle.asks_offer(NegotiationEvent::Requested),
        idle.after(NegotiationEvent::Requested) == idle,
        !idle.asks_offer(NegotiationEvent::OfferCreated),
        idle.after(NegotiationEvent::OfferCreated).remote_answer_pending,
        !idle.after(NegotiationEvent::OfferCreated).asks_offer(NegotiationEvent::Answered),
        idle.after(NegotiationEvent::OfferCreated).after(NegotiationEvent::Answered) == idle,
        idle.after(NegotiationEvent::OfferCreated).after(NegotiationEvent::Requested).asks_offer(
            NegotiationEvent::Answered,
        ),
{
}

/// Once an answer has come, nothing is awaited any longer, and an offer can be made again.
pub proof fn law_answer_ends_the_wait(negotiation: Negotiation)
    ensures
        !negotiation.after(NegotiationEvent::Answered).remote_answer_pending,
        !negotiation.after(NegotiationEvent::Answered).negotiation_pending,
        negotiation.after(NegotiationEvent::Answered).asks_offer(NegotiationEvent::Requested),
        !negotiation.after(NegotiationEvent::Answered).asks_offer(NegotiationEvent::Answered),
{
}

} // verus!
