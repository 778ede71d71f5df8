use vstd::prelude::*;

verus! {

/// What can go wrong with a relay.
#[derive(Debug, Eq, PartialEq, Clone, Copy, Structural)]
pub enum Error {
    ErrRelayPeerNotReady,
    ErrRelayPeerSignalDone,
    ErrRelaySignalDCNotReady,
    ErrRelaySendDataFailed,
    ErrRelayRequestTimeout,
    ErrRelayRequestEmptyRespose,
}

impl Error {
    /// The message of the error.
    pub open spec fn text(&self) -> Seq<char> {
        match *self {
            Error::ErrRelayPeerNotReady => "relay peer is not ready"@,
            Error::ErrRelayPeerSignalDone => "relay peer signal already called"@,
            Error::ErrRelaySignalDCNotReady => "relay peer data channel is not ready"@,
            Error::ErrRelaySendDataFailed => "relay peer send data failed"@,
            Error::ErrRelayRequestTimeout => "relay request timeout"@,
            Error::ErrRelayRequestEmptyRespose => "relay request empty response"@,
        }
    }

    /// The message of the error.
    pub fn message(&self) -> (message: String)
        ensures
            message@ == self.text(),
    {
        match self {
            Error::ErrRelayPeerNotReady => "relay peer is not ready".to_owned(),
            Error::ErrRelayPeerSignalDone => "relay peer signal already called".to_owned(),
            Error::ErrRelaySignalDCNotReady => "relay peer data channel is not ready".to_owned(),
            Error::ErrRelaySendDataFailed => "relay peer send data failed".to_owned(),
            Error::ErrRelayRequestTimeout => "relay request timeout".to_owned(),
            Error::ErrRelayRequestEmptyRespose => "relay request empty response".to_owned(),
        }
    }
}

} // verus!
