use vstd::prelude::*;

use crate::peer::error::Error;
use crate::peer::ice::{candidates_of, CandidateQueue, RTCIceCandidateInit};

verus! {

/// What happens while an offer of the other side is answered.
pub enum AnswerEvent {
    /// An offer came in.
    Offered {
        /// Whether there is a peer connection.
        connected: bool,
        /// Whether no other offer is being answered, or waits for its answer.
        stable: bool,
        sdp: String,
    },
    /// The offer was set as the remote description, or this failed.
    RemoteSet(core::result::Result<(), String>),
    /// An answer was created, or this failed.
    AnswerCreated(core::result::Result<String, String>),
    /// The answer was set as the local description, or this failed.
    LocalSet(core::result::Result<String, String>),
}

/// What is to be done next to answer an offer.
pub enum AnswerAction {
    /// Set the remote description.
    SetRemoteDescription(String),
    /// Add the candidates to the peer connection, then create an answer.
    AddCandidates(Vec<RTCIceCandidateInit>),
    /// Set the local description.
    SetLocalDescription(String),
    /// Send the answer.
    Reply(String),
    /// Give up.
    Fail(Error),
}

/// Whether the queue is `after`, and `action` is what is to be done, once `event` happened.
pub open spec fn answer_stepped(
    before: CandidateQueue,
    after: CandidateQueue,
    event: AnswerEvent,
    action: AnswerAction,
) -> bool {
    &&& match event {
        AnswerEvent::Offered { connected, stable, sdp } => if !connected {
            action == AnswerAction::Fail(Error::ErrNoTransportEstablished)
        } else if !stable {
            action == AnswerAction::Fail(Error::ErrOfferIgnored)
        } else {
            action == AnswerAction::SetRemoteDescription(sdp)
        },
        AnswerEvent::RemoteSet(Ok(_)) => action matches AnswerAction::AddCandidates(list)
            && candidates_of(list@) == candidates_of(before.waiting@),
        AnswerEvent::AnswerCreated(Ok(sdp)) => action == AnswerAction::SetLocalDescription(sdp),
        AnswerEvent::LocalSet(Ok(sdp)) => action == AnswerAction::Reply(sdp),
        AnswerEvent::RemoteSet(Err(reason)) | AnswerEvent::AnswerCreated(Err(reason))
        | AnswerEvent::LocalSet(Err(reason)) => action == AnswerAction::Fail(Error::ErrRTC(reason)),
    }
    &&& if event matches AnswerEvent::LocalSet(Ok(_)) {
        after.waiting@.len() == 0
    } else {
        after == before
    }
}

/// Decides what is to be done next to answer an offer.
///
/// If there are candidates awaiting to be added, they are added to the peer connection and cleaned up.
pub fn answer_step(queue: &mut CandidateQueue, event: AnswerEvent) -> (action: AnswerAction)
    ensures
        answer_stepped(*old(queue), *final(queue), event, action),
{
    match event {
        AnswerEvent::Offered { connected, stable, sdp } => {
            if !connected {
                AnswerAction::Fail(Error::ErrNoTransportEstablished)
            } else if !stable {
                AnswerAction::Fail(Error::ErrOfferIgnored)
            } else {
                AnswerAction::SetRemoteDescription(sdp)
            }
        },
        AnswerEvent::RemoteSet(Ok(_)) => AnswerAction::AddCandidates(queue.copies()),
        AnswerEvent::AnswerCreated(Ok(sdp)) => AnswerAction::SetLocalDescription(sdp),
        AnswerEvent::LocalSet(Ok(sdp)) => {
            queue.clear();
            AnswerAction::Reply(sdp)
        },
        AnswerEvent::RemoteSet(Err(reason)) => AnswerAction::Fail(Error::ErrRTC(reason)),
        AnswerEvent::AnswerCreated(Err(reason)) => AnswerAction::Fail(Error::ErrRTC(reason)),
        AnswerEvent::LocalSet(Err(reason)) => AnswerAction::Fail(Error::ErrRTC(reason)),
    }
}

/// An offer that is answered to the end has had every candidate that waited added to the
/// connection, in the order in which they came, and none waits any longer.
pub proof fn law_candidates_are_added_and_cleaned_up(
    q0: CandidateQueue,
    q1: CandidateQueue,
    q2: CandidateQueue,
    q3: CandidateQueue,
    added: AnswerAction,
    set: AnswerAction,
    replied: AnswerAction,
    answer: String,
)
    requires
        answer_stepped(q0, q1, AnswerEvent::RemoteSet(Ok(())), added),
        answer_stepped(q1, q2, AnswerEvent::AnswerCreated(Ok(answer)), set),
        answer_stepped(q2, q3, AnswerEvent::LocalSet(Ok(answer)), replied),
    ensures
        added matches AnswerAction::AddCandidates(list) && candidates_of(list@) == candidates_of(
            q0.waiting@,
        ),
        set == AnswerAction::SetLocalDescription(answer),
        replied == AnswerAction::Reply(answer),
        q3.waiting@.len() == 0,
{
}

/// An offer that could not be answered leaves the candidates for the next one.
pub proof fn law_failure_keeps_the_candidates(
    before: CandidateQueue,
    after: CandidateQueue,
    event: AnswerEvent,
    error: Error,
)
    requires
        answer_stepped(before, after, event, AnswerAction::Fail(error)),
    ensures
        after == before,
{
}

/// An offer is taken just where there is a connection and no other offer is open on it; it is
/// refused with the reason else.
pub proof fn law_offer_is_taken_where_none_is_open(
    before: CandidateQueue,
    after: CandidateQueue,
    connected: bool,
    stable: bool,
    sdp: String,
    action: AnswerAction,
)
    requires
        answer_stepped(before, after, AnswerEvent::Offered { connected, stable, sdp }, action),
    ensures
        action is SetRemoteDescription <==> connected && stable,
        action matches AnswerAction::SetRemoteDescription(set) ==> set == sdp,
        !connected ==> action == AnswerAction::Fail(Error::ErrNoTransportEstablished),
        connected && !stable ==> action == AnswerAction::Fail(Error::ErrOfferIgnored),
        after == before,
{
}

/// Whatever fails while an offer is answered ends it, with the reason.
pub proof fn law_failure_is_told(
    before: CandidateQueue,
    after: CandidateQueue,
    event: AnswerEvent,
    action: AnswerAction,
    reason: String,
)
    requires
        answer_stepped(before, after, event, action),
        event == AnswerEvent::RemoteSet(Err(reason)) || event == AnswerEvent::AnswerCreated(
            Err(reason),
        ) || event == AnswerEvent::LocalSet(Err(reason)),
    ensures
        action == AnswerAction::Fail(Error::ErrRTC(reason)),
{
}

} // verus!
