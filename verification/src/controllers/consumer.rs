use vstd::prelude::*;

use crate::packet::params::RTCRtpCodecCapability;
use crate::peer::ice::{CandidateQueue, RTCIceCandidateInit};
use crate::peer::negotiation::{Negotiation, NegotiationEvent, NegotiationStep, RTCOfferOptions};
use crate::peer::subscriber::{LocalTrack, SentTrack, Unsubscribe};
use crate::registry::Registry;
use crate::track::downtrack::DownTrackInternal;
use crate::track::receiver::WebRTCReceiver;
use crate::track::router::{is_local_end, new_local_end};

verus! {

/// Sends tracks to a client on the connection that it publishes on.
pub struct CentralConsumer {
    pub id: String,
    pub negotiation: Negotiation,
    /// Whether someone has registered to send offers.
    pub on_offer: bool,
    pub rtp_packet_capacity: u16,
    /// The tracks, by id.
    pub tracks: Registry<LocalTrack>,
}

impl CentralConsumer {
    /// What every operation keeps.
    pub open spec fn wf(&self) -> bool {
        self.tracks.wf()
    }

    /// The tracks, by id.
    pub open spec fn sent(&self) -> Map<Seq<char>, SentTrack> {
        self.tracks@.map_values(|track: LocalTrack| track@)
    }

    pub fn new(id: String, capacity: u16) -> (consumer: Self)
        ensures
            consumer.wf(),
            consumer.id == id,
            consumer.rtp_packet_capacity == capacity,
            consumer.sent() == Map::<Seq<char>, SentTrack>::empty(),
            !consumer.negotiation.remote_answer_pending,
            !consumer.negotiation.negotiation_pending,
            !consumer.on_offer,
    {
        let consumer = Self {
            id,
            negotiation: Negotiation::new(),
            on_offer: false,
            rtp_packet_capacity: capacity,
            tracks: Registry::new(),
        };
        assert(consumer.sent() =~= Map::<Seq<char>, SentTrack>::empty());
        consumer
    }

    pub fn id(&self) -> (id: String)
        ensures
            id@ == self.id@,
    {
        self.id.clone()
    }

    /// Takes note that someone has registered to send offers.
    pub fn on_offer(&mut self)
        ensures
            *final(self) == (CentralConsumer { on_offer: true, ..*old(self) }),
    {
        self.on_offer = true;
    }

    /// Starts negotiation process. While an answer is pending, it is put off.
    pub fn negotiate(&mut self, offer_options: Option<RTCOfferOptions>) -> (step: NegotiationStep)
        ensures
            *final(self) == (CentralConsumer {
                negotiation: old(self).negotiation.after(NegotiationEvent::Requested),
                ..*old(self)
            }),
            step == if old(self).negotiation.asks_offer(NegotiationEvent::Requested) {
                NegotiationStep::CreateOffer(offer_options)
            } else {
                NegotiationStep::Nothing
            },
    {
        self.negotiation.negotiate(offer_options)
    }

    /// Takes note of an offer that was created and set as the local description.
    ///
    /// # Returns
    /// - Whether the offer is to be sent
    pub fn offer_created(&mut self) -> (sends: bool)
        ensures
            *final(self) == (CentralConsumer {
                negotiation: old(self).negotiation.after(NegotiationEvent::OfferCreated),
                ..*old(self)
            }),
            sends == old(self).on_offer,
    {
        self.negotiation.offer_created();
        self.on_offer
    }

    /// Takes note that the remote description was set. If there is a pending negotiation, it is
    /// started.
    ///
    /// # Returns
    /// - The candidates to add to the connection
    /// - Whether an offer is to be created
    pub fn on_remote_answer(&mut self, candidates: &mut CandidateQueue) -> (res: (
        Vec<RTCIceCandidateInit>,
        NegotiationStep,
    ))
        ensures
            *final(self) == (CentralConsumer {
                negotiation: old(self).negotiation.after(NegotiationEvent::Answered),
                ..*old(self)
            }),
            res.0@ == old(candidates).waiting@,
            final(candidates).waiting@.len() == 0,
            res.1 == if old(self).negotiation.asks_offer(NegotiationEvent::Answered) {
                NegotiationStep::CreateOffer(None)
            } else {
                NegotiationStep::Nothing
            },
    {
        let drained = candidates.take();
        (drained, self.negotiation.answered())
    }

    /// Stores a track that is sent to the client.
    pub fn add_down_track(&mut self, id: String, track: LocalTrack)
        requires
            old(self).wf(),
        ensures
            final(self).wf(),
            *final(self) == (CentralConsumer { tracks: final(self).tracks, ..*old(self) }),
            final(self).sent() == old(self).sent().insert(id@, track@),
    {
        let ghost sent = self.sent();
        let _before = self.tracks.insert(id, track);
        assert(self.sent() =~= sent.insert(id@, track@));
    }

    pub fn down_track_by_id(&self, track_id: &str) -> (res: Option<&LocalTrack>)
        requires
            self.wf(),
        ensures
            match res {
                None => !self.sent().contains_key(track_id@),
                Some(track) => self.sent().contains_key(track_id@) && track@
                    == self.sent()[track_id@],
            },
    {
        self.tracks.get(track_id)
    }

    /// Forgets a track.
    pub fn remove_down_track(&mut self, track_id: &str)
        requires
            old(self).wf(),
        ensures
            final(self).wf(),
            *final(self) == (CentralConsumer { tracks: final(self).tracks, ..*old(self) }),
            final(self).sent() == old(self).sent().remove(track_id@),
    {
        let ghost sent = self.sent();
        let _removed = self.tracks.remove(track_id);
        assert(self.sent() =~= sent.remove(track_id@));
    }

    /// Creates the end of a new track for the packets of a receiver.
    pub fn new_local_track(
        &self,
        codec_capability: RTCRtpCodecCapability,
        receiver: &WebRTCReceiver,
    ) -> (local: DownTrackInternal)
        requires
            self.rtp_packet_capacity > 0,
        ensures
            is_local_end(
                local,
                *receiver,
                codec_capability@,
                self.rtp_packet_capacity as int,
            ),
    {
        new_local_end(codec_capability, receiver, self.rtp_packet_capacity)
    }

    /// Forgets a track that is to be unsubscribed.
    pub fn unsubscribe_track(&mut self, track_id: &str, connection_closed: bool) -> (res: Unsubscribe)
        requires
            old(self).wf(),
        ensures
            final(self).wf(),
            *final(self) == (CentralConsumer { tracks: final(self).tracks, ..*old(self) }),
            ({
                let sent = old(self).sent();
                if connection_closed || !sent.contains_key(track_id@) {
                    // Nothing to unsubscribe
                    res == Unsubscribe::Nothing && *final(self) == *old(self)
                } else {
                    &&& res == match sent[track_id@].transceiver {
                        Some(number) => Unsubscribe::RemoveSender(number),
                        None => Unsubscribe::Nothing,
                    }
                    &&& final(self).sent() == sent.remove(track_id@)
                }
            }),
            consumer_unsubscribed(*old(self), *final(self), track_id@, connection_closed, res),
    {
        if connection_closed {
            return Unsubscribe::Nothing;
        }
        let transceiver = match self.down_track_by_id(track_id) {
            None => {
                // Track already removed
                return Unsubscribe::Nothing;
            },
            Some(track) => track.transceiver,
        };
        self.remove_down_track(track_id);
        match transceiver {
            Some(number) => Unsubscribe::RemoveSender(number),
            None => Unsubscribe::Nothing,
        }
    }

    /// Takes note that the sender of a track was taken out of the connection.
    pub fn sender_removed(&mut self) -> (step: NegotiationStep)
        ensures
            *final(self) == (CentralConsumer {
                negotiation: old(self).negotiation.after(NegotiationEvent::Requested),
                ..*old(self)
            }),
            step == if old(self).negotiation.asks_offer(NegotiationEvent::Requested) {
                NegotiationStep::CreateOffer(None)
            } else {
                NegotiationStep::Nothing
            },
    {
        // If remote answer is pending, the negotiation is put off
        self.negotiate(None)
    }
}

/// Whether the track was unsubscribed, and what is to be done about it.
pub open spec fn consumer_unsubscribed(
    before: CentralConsumer,
    after: CentralConsumer,
    id: Seq<char>,
    connection_closed: bool,
    res: Unsubscribe,
) -> bool {
    if connection_closed || !before.sent().contains_key(id) {
        res == Unsubscribe::Nothing && after == before
    } else {
        &&& res == match before.sent()[id].transceiver {
            Some(number) => Unsubscribe::RemoveSender(number),
            None => Unsubscribe::Nothing,
        }
        &&& after.sent() == before.sent().remove(id)
    }
}

/// A track that is unsubscribed is not sent any longer, the other tracks are, and the sender that it
/// was sent with is taken out of the connection.
pub proof fn law_consumer_stops_to_send(
    before: CentralConsumer,
    after: CentralConsumer,
    id: Seq<char>,
    connection_closed: bool,
    res: Unsubscribe,
    other: Seq<char>,
)
    requires
        consumer_unsubscribed(before, after, id, connection_closed, res),
        other != id,
    ensures
        !connection_closed ==> !after.sent().contains_key(id),
        connection_closed ==> after == before && res == Unsubscribe::Nothing,
        after.sent().contains_key(other) <==> before.sent().contains_key(other),
        before.sent().contains_key(other) ==> after.sent()[other] == before.sent()[other],
        forall|sender: u64|
            res == Unsubscribe::RemoveSender(sender) <==> !connection_closed
                && before.sent().contains_key(id) && #[trigger] before.sent()[id].transceiver
                == Some(sender),
{
}

} // verus!
