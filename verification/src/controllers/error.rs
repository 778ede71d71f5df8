use vstd::prelude::*;

use crate::peer::error::Error;

verus! {

pub type Result<T> = core::result::Result<T, PeerControllerError>;

/// What can go wrong with a peer in a room.
pub enum PeerControllerError {
    ErrNoProducer,
    ErrNoConsumer,
    ErrReceiverClosed,
    /// What a peer connection failed with.
    ErrWebRTC(String),
    ErrPeer(Error),
}

impl PeerControllerError {
    /// The message of the error.
    pub open spec fn text(&self) -> Seq<char> {
        match *self {
            PeerControllerError::ErrNoProducer => "no producer exists for this peer"@,
            PeerControllerError::ErrNoConsumer => "no consumer exists for this peer"@,
            PeerControllerError::ErrReceiverClosed => "track receiver is closed"@,
            PeerControllerError::ErrWebRTC(reason) => "WebRTC error: "@ + reason@,
            PeerControllerError::ErrPeer(error) => "Peer error: "@ + error.text(),
        }
    }

    /// The message of the error.
    pub fn message(&self) -> (message: String)
        ensures
            message@ == self.text(),
    {
        match self {
            PeerControllerError::ErrNoProducer => "no producer exists for this peer".to_owned(),
            PeerControllerError::ErrNoConsumer => "no consumer exists for this peer".to_owned(),
            PeerControllerError::ErrReceiverClosed => "track receiver is closed".to_owned(),
            PeerControllerError::ErrWebRTC(reason) => "WebRTC error: ".to_owned().concat(
                reason.as_str(),
            ),
            PeerControllerError::ErrPeer(error) => "Peer error: ".to_owned().concat(
                error.message().as_str(),
            ),
        }
    }
}

} // verus!
