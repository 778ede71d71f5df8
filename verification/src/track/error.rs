use vstd::prelude::*;

use crate::text::to_decimal;

verus! {

pub type Result<T> = core::result::Result<T, Error>;

/// What can go wrong with a track or its peer.
#[derive(Debug, Eq, PartialEq, Clone, Copy, Structural)]
pub enum Error {
    /// join is called after a peerconnection is established
    ErrTransportExists,
    /// cannot signal before join
    ErrNoTransportEstablished,
    /// offer received in unstable state
    ErrOfferIgnored,
    ErrTurnNoneAuthKey,
    ErrInvalidTrack,
    ErrNoSubscriber,
    ErrDataChannelNotExists,
    ErrNoReceiverFound,
    ErrChannelSend,
    ReceiverLayerNotAvailable(usize),
    ReceiverClosed,
    DuplicatedTrack(usize),
    FullSpatialLayer(u8),
    /// no codec fits the track
    ErrUnsupportedCodec,
}

impl Error {
    /// The message of the error.
    pub open spec fn text(&self) -> Seq<char> {
        match *self {
            Error::ErrTransportExists => "rtc transport already exists for this connection"@,
            Error::ErrNoTransportEstablished => "no rtc transport exists for this Peer"@,
            Error::ErrOfferIgnored => "offered ignored"@,
            Error::ErrTurnNoneAuthKey => "cannot get auth key from user map"@,
            Error::ErrInvalidTrack => "received track is not valid"@,
            Error::ErrNoSubscriber => "no subscriber for this peer"@,
            Error::ErrDataChannelNotExists => "data channel doesn't exist"@,
            Error::ErrNoReceiverFound => "no receiver found"@,
            Error::ErrChannelSend => "channel send error"@,
            Error::ReceiverLayerNotAvailable(layer) => "receiver layer #"@
                + crate::text::decimal(layer as nat) + " is not available"@,
            Error::ReceiverClosed => "receiver is closed"@,
            Error::DuplicatedTrack(layer) => "track is already added in layer #"@
                + crate::text::decimal(layer as nat),
            Error::FullSpatialLayer(layer) => "spatial layer #"@ + crate::text::decimal(
                layer as nat,
            ) + " is currently full"@,
            Error::ErrUnsupportedCodec => "unable to start track, codec is not supported by remote"@,
        }
    }

    /// The message of the error.
    pub fn message(&self) -> (message: String)
        ensures
            message@ == self.text(),
    {
        match self {
            Error::ErrTransportExists => "rtc transport already exists for this connection".to_owned(),
            Error::ErrNoTransportEstablished => "no rtc transport exists for this Peer".to_owned(),
            Error::ErrOfferIgnored => "offered ignored".to_owned(),
            Error::ErrTurnNoneAuthKey => "cannot get auth key from user map".to_owned(),
            Error::ErrInvalidTrack => "received track is not valid".to_owned(),
            Error::ErrNoSubscriber => "no subscriber for this peer".to_owned(),
            Error::ErrDataChannelNotExists => "data channel doesn't exist".to_owned(),
            Error::ErrNoReceiverFound => "no receiver found".to_owned(),
            Error::ErrChannelSend => "channel send error".to_owned(),
            Error::ReceiverLayerNotAvailable(layer) => "receiver layer #".to_owned().concat(
                to_decimal(*layer as u64).as_str(),
            ).concat(" is not available"),
            Error::ReceiverClosed => "receiver is closed".to_owned(),
            Error::DuplicatedTrack(layer) => "track is already added in layer #".to_owned().concat(
                to_decimal(*layer as u64).as_str(),
            ),
            Error::FullSpatialLayer(layer) => "spatial layer #".to_owned().concat(
                to_decimal(*layer as u64).as_str(),
            ).concat(" is currently full"),
            Error::ErrUnsupportedCodec => "unable to start track, codec is not supported by remote".to_owned(),
        }
    }
}

/// A configuration that cannot be used.
#[derive(Debug, Eq, PartialEq, Clone, Copy, Structural)]
pub struct ConfigError {
    pub value: ConfigErrorValue,
}

/// Why a configuration cannot be used.
#[derive(Debug, Eq, PartialEq, Clone, Copy, Structural)]
pub enum ConfigErrorValue {
    /// It cannot be read.
    IOError,
}

impl ConfigErrorValue {
    /// The message of the error.
    pub fn message(&self) -> (message: String)
        ensures
            message@ == "io error"@,
    {
        "io error".to_owned()
    }
}

impl ConfigError {
    /// The message of the error.
    pub fn message(&self) -> (message: String)
        ensures
            message@ == "io error"@,
    {
        self.value.message()
    }
}

} // verus!
