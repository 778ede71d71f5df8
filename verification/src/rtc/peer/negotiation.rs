//! We implement perfect negotiation in order to try to
//! reduce the number of errors that can occur when streams
//! and conditions change. In this case, the server is
//! considered the impolite peer.
//!
//! https://w3c.github.io/webrtc-pc/#perfect-negotiation-example
use vstd::prelude::*;

verus! {

/// What a session description is.
#[derive(Debug, Eq, PartialEq, Clone, Copy, Structural)]
pub enum SdpType {
    Unspecified,
    Offer,
    Pranswer,
    Answer,
    Rollback,
}

/// What is to be done with a session description of the client.
#[derive(Debug, Eq, PartialEq, Clone, Copy, Structural)]
pub enum SdpStep {
    Ignore,
    SetRemoteDescription,
}

/// What is to be done once the remote description was set.
#[derive(Debug, Eq, PartialEq, Clone, Copy, Structural)]
pub enum DescribedStep {
    Nothing,
    /// An answer is to be created, and set as the local description.
    CreateAnswer,
}

/// Current negotiation state
#[derive(Debug, Eq, PartialEq, Clone, Copy, Structural)]
pub struct NegotiationState {
    pub making_offer: bool,
    pub ignore_offer: bool,
    pub is_setting_remote_answer_pending: bool,
}

impl Default for NegotiationState {
    fn default() -> (state: Self)
        ensures
            !state.making_offer,
            !state.ignore_offer,
            !state.is_setting_remote_answer_pending,
    {
        NegotiationState {
            making_offer: false,
            ignore_offer: false,
            is_setting_remote_answer_pending: false,
        }
    }
}

impl NegotiationState {
    /// Whether an offer of the client is unexpected.
    pub open spec fn collides(&self, sdp_type: SdpType, stable: bool) -> bool {
        sdp_type == SdpType::Offer && (self.making_offer || !stable
            && !self.is_setting_remote_answer_pending)
    }

    /// The state once a description of the client came in.
    pub open spec fn described(self, sdp_type: SdpType, stable: bool) -> NegotiationState {
        if self.collides(sdp_type, stable) {
            NegotiationState { ignore_offer: true, ..self }
        } else {
            NegotiationState {
                ignore_offer: false,
                is_setting_remote_answer_pending: sdp_type == SdpType::Answer,
                ..self
            }
        }
    }

    /// Consume a given RTC session description
    ///
    /// # Arguments
    /// - `stable`: Whether no offer waits for its answer
    pub fn consume_sdp(&mut self, sdp_type: SdpType, stable: bool) -> (step: SdpStep)
        ensures
            *final(self) == old(self).described(sdp_type, stable),
            step == if old(self).collides(sdp_type, stable) {
                SdpStep::Ignore
            } else {
                SdpStep::SetRemoteDescription
            },
    {
        // Check if we are ready to receive a new SDP
        let ready_for_offer = !self.making_offer && (stable
            || self.is_setting_remote_answer_pending);
        // Check if this offer is unexpected
        let offer_collision = sdp_type == SdpType::Offer && !ready_for_offer;
        // We are the impolite peer hence we ignore the offer
        self.ignore_offer = offer_collision;
        if offer_collision {
            return SdpStep::Ignore;
        }
        // If we received an answer, mark it as such locally
        self.is_setting_remote_answer_pending = sdp_type == SdpType::Answer;
        SdpStep::SetRemoteDescription
    }

    /// Takes note that the remote description was set.
    pub fn remote_described(&mut self, sdp_type: SdpType) -> (step: DescribedStep)
        ensures
            *final(self) == (NegotiationState {
                is_setting_remote_answer_pending: false,
                ..*old(self)
            }),
            step == if sdp_type == SdpType::Offer {
                DescribedStep::CreateAnswer
            } else {
                DescribedStep::Nothing
            },
    {
        // Restore the default value
        self.is_setting_remote_answer_pending = false;
        // If we received an offer, send an answer back
        if sdp_type == SdpType::Offer {
            DescribedStep::CreateAnswer
        } else {
            DescribedStep::Nothing
        }
    }

    /// Consume a given ICE candidate
    ///
    /// # Returns
    /// - Whether it is an error that the candidate was added or not
    pub fn consume_ice(&self, added: bool) -> (fails: bool)
        ensures
            fails == (!added && !self.ignore_offer),
    {
        !added && !self.ignore_offer
    }
}

/// An offer that collides with one of the server is never applied, and the candidates that belong to
/// it may fail. What the server was about to do is not disturbed.
pub proof fn law_server_is_impolite(state: NegotiationState, stable: bool)
    requires
        state.making_offer || !stable && !state.is_setting_remote_answer_pending,
    ensures
        state.collides(SdpType::Offer, stable),
        state.described(SdpType::Offer, stable).ignore_offer,
        state.described(SdpType::Offer, stable).making_offer == state.making_offer,
        state.described(SdpType::Offer, stable).is_setting_remote_answer_pending
            == state.is_setting_remote_answer_pending,
{
}

/// An answer of the client is applied, whatever the state.
pub proof fn law_answer_is_applied(state: NegotiationState, stable: bool)
    ensures
        !state.collides(SdpType::Answer, stable),
{
}

/// An offer is applied where the server neither makes one nor waits for the answer to one, or is about
/// to apply that answer.
pub proof fn law_expected_offer_is_applied(state: NegotiationState, stable: bool)
    requires
        !state.making_offer,
        stable || state.is_setting_remote_answer_pending,
    ensures
        !state.collides(SdpType::Offer, stable),
        !state.described(SdpType::Offer, stable).ignore_offer,
        !state.described(SdpType::Offer, stable).is_setting_remote_answer_pending,
        !state.described(SdpType::Offer, stable).making_offer,
{
}

/// Only an offer can collide; what comes in else is applied, and ends that an offer was ignored. An
/// answer is taken note of while it is applied.
pub proof fn law_only_offers_collide(state: NegotiationState, sdp_type: SdpType, stable: bool)
    requires
        sdp_type != SdpType::Offer,
    ensures
        !state.collides(sdp_type, stable),
        !state.described(sdp_type, stable).ignore_offer,
        state.described(sdp_type, stable).making_offer == state.making_offer,
        state.described(sdp_type, stable).is_setting_remote_answer_pending <==> sdp_type
            == SdpType::Answer,
{
}

} // verus!
