use vstd::prelude::*;

use crate::track::error::Error as TrackError;

verus! {

pub type Result<T> = core::result::Result<T, Error>;

/// What can go wrong with a peer.
pub enum Error {
    /// Transport established is required but not established
    ErrNoTransportEstablished,
    /// Offer received in unstable state
    ErrOfferIgnored,
    /// What a peer connection failed with.
    ErrRTC(String),
    ErrTrack(TrackError),
}

impl Error {
    /// The message of the error.
    pub open spec fn text(&self) -> Seq<char> {
        match *self {
            Error::ErrNoTransportEstablished => "no rtc transport exists for this peer"@,
            Error::ErrOfferIgnored => "offered ignored"@,
            Error::ErrRTC(reason) => "WebRTC error: "@ + reason@,
            Error::ErrTrack(error) => "Track error: "@ + error.text(),
        }
    }

    /// The message of the error.
    pub fn message(&self) -> (message: String)
        ensures
            message@ == self.text(),
    {
        match self {
            Error::ErrNoTransportEstablished => "no rtc transport exists for this peer".to_owned(),
            Error::ErrOfferIgnored => "offered ignored".to_owned(),
            Error::ErrRTC(reason) => "WebRTC error: ".to_owned().concat(reason.as_str()),
            Error::ErrTrack(error) => "Track error: ".to_owned().concat(error.message().as_str()),
        }
    }
}

} // verus!
