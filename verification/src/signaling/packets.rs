use vstd::prelude::*;

use crate::controllers::pubsub::PeerRole;
use crate::peer::ice::RTCIceCandidateInit;
use crate::rtc::config::ICEServerConfig;
use crate::rtc::peer::negotiation::SdpType;
use crate::rtc::peer::pubsub::PeerConfig;
use crate::session::room::RoomInfo;

verus! {

/// Milliseconds between two signs of life of a client.
pub const HEARTBEAT_INTERVAL: u16 = 30_000;

/// Available types of media tracks
#[derive(Debug, Eq, PartialEq, Clone, Copy, Hash, Structural)]
pub enum MediaType {
    /// Audio stream
    Audio,
    /// Video stream
    Video,
    /// Screenshare audio stream
    ScreenAudio,
    /// Screenshare video stream
    ScreenVideo,
}

impl MediaType {
    /// The name of the type.
    pub fn name(&self) -> (name: String)
        ensures
            name@ == match *self {
                MediaType::Audio => "Audio"@,
                MediaType::Video => "Video"@,
                MediaType::ScreenAudio => "ScreenAudio"@,
                MediaType::ScreenVideo => "ScreenVideo"@,
            },
    {
        match self {
            MediaType::Audio => "Audio".to_owned(),
            MediaType::Video => "Video".to_owned(),
            MediaType::ScreenAudio => "ScreenAudio".to_owned(),
            MediaType::ScreenVideo => "ScreenVideo".to_owned(),
        }
    }
}

/// Browser compliant ICE candidate
pub struct ICECandidate {
    pub candidate: String,
    pub sdp_mid: String,
    pub sdp_mline_index: u16,
    pub username_fragment: String,
}

/// The characters of a string, or none.
pub open spec fn text_or_none(s: Option<String>) -> Seq<char> {
    match s {
        Some(text) => text@,
        None => seq![],
    }
}

fn unwrap_text(s: Option<String>) -> (text: String)
    ensures
        text@ == text_or_none(s),
{
    match s {
        Some(text) => text,
        None => String::new(),
    }
}

/// Whether every field is set, and what was missing is empty.
pub open spec fn reads(candidate: ICECandidate, init: RTCIceCandidateInit) -> bool {
    &&& candidate.candidate == init.candidate
    &&& candidate.sdp_mid@ == text_or_none(init.sdp_mid)
    &&& candidate.sdp_mline_index == match init.sdp_mline_index {
        Some(index) => index,
        None => 0,
    }
    &&& candidate.username_fragment@ == text_or_none(init.username_fragment)
}

impl ICECandidate {
    /// The candidate as it is told to the other side.
    pub open spec fn told(self) -> RTCIceCandidateInit {
        RTCIceCandidateInit {
            candidate: self.candidate,
            sdp_mid: Some(self.sdp_mid),
            sdp_mline_index: Some(self.sdp_mline_index),
            username_fragment: Some(self.username_fragment),
        }
    }

    /// A candidate with every field set: what is missing becomes empty.
    pub fn from_init(init: RTCIceCandidateInit) -> (candidate: ICECandidate)
        ensures
            reads(candidate, init),
    {
        let sdp_mline_index: u16 = match init.sdp_mline_index {
            Some(index) => index,
            None => 0,
        };
        ICECandidate {
            candidate: init.candidate,
            sdp_mid: unwrap_text(init.sdp_mid),
            sdp_mline_index,
            username_fragment: unwrap_text(init.username_fragment),
        }
    }

    /// The candidate as it is told to the other side.
    pub fn into_init(self) -> (init: RTCIceCandidateInit)
        ensures
            init == self.told(),
    {
        RTCIceCandidateInit {
            candidate: self.candidate,
            sdp_mid: Some(self.sdp_mid),
            sdp_mline_index: Some(self.sdp_mline_index),
            username_fragment: Some(self.username_fragment),
        }
    }
}

/// A session description.
pub struct RTCSessionDescription {
    pub sdp_type: SdpType,
    pub sdp: String,
}

/// Packet sent from the client to the server
pub enum PacketC2S {
    /// Answer (from client subscriber)
    Answer { description: RTCSessionDescription },
    /// Offer (from negotiation)
    Offer { description: RTCSessionDescription },
    /// Authenticate
    Connect {
        id: u32,
        /// Authentication token
        token: String,
        /// Rooms available for client
        room_ids: Vec<String>,
    },
    /// Peer offers a description to a room
    Join { room_id: String, offer: Option<RTCSessionDescription>, cfg: PeerConfig },
    /// Removes current user from current room
    Leave,
    /// Client should send Ping with a timestamp in every heartbeat.
    Ping { data: u64 },
    /// Register candidate in local peer subscriber or publisher
    Trickle { candidate: RTCIceCandidateInit, target: PeerRole },
}

/// Packet sent from the server to the client
pub enum PacketS2C {
    /// Accept authentication
    Accept {
        id: u32,
        user_id: String,
        ice_servers: Vec<ICEServerConfig>,
        available_rooms: Vec<RoomInfo>,
    },
    /// Answer (for client publisher)
    Answer { description: RTCSessionDescription },
    Hello { heartbeat_interval: u16 },
    RoomInfo { room: RoomInfo },
    /// Offer (for client subscriber)
    Offer { description: RTCSessionDescription },
    /// Response to [PacketC2S::Ping]
    Pong { data: u64 },
    Trickle { candidate: RTCIceCandidateInit, target: PeerRole },
}

// Incorrect format, or state
pub enum BadRequestError {
    AlreadyConnected,
    BadFormat { reason: String },
    Forbidden,
    UnproccesableEntity,
}

impl BadRequestError {
    /// The message of the error.
    pub open spec fn text(&self) -> Seq<char> {
        match *self {
            BadRequestError::AlreadyConnected => "Already connected to a room!"@,
            BadRequestError::BadFormat { reason } => "Bad Request. Reason: "@ + reason@,
            BadRequestError::Forbidden =>
                "Forbidden access. User is not authenticated in this session."@,
            BadRequestError::UnproccesableEntity => "Received message is not a text."@,
        }
    }

    /// The message of the error.
    pub fn message(&self) -> (message: String)
        ensures
            message@ == self.text(),
    {
        match self {
            BadRequestError::AlreadyConnected => "Already connected to a room!".to_owned(),
            BadRequestError::BadFormat { reason } => "Bad Request. Reason: ".to_owned().concat(
                reason.as_str(),
            ),
            BadRequestError::Forbidden =>
                "Forbidden access. User is not authenticated in this session.".to_owned(),
            BadRequestError::UnproccesableEntity => "Received message is not a text.".to_owned(),
        }
    }
}

/// A connection that broke off.
#[derive(Debug, Eq, PartialEq, Clone, Copy, Structural)]
pub enum LostConnectionError {
    PeerConnectionLost,
    PublisherConnectionLost,
    SubscriberConnectionLost,
}

impl LostConnectionError {
    /// The message of the error.
    pub open spec fn text(&self) -> Seq<char> {
        match *self {
            LostConnectionError::PeerConnectionLost => "Lost connection to peer"@,
            LostConnectionError::PublisherConnectionLost => "Lost connection to publisher"@,
            LostConnectionError::SubscriberConnectionLost => "Lost connection from subscriber"@,
        }
    }

    /// The message of the error.
    pub fn message(&self) -> (message: String)
        ensures
            message@ == self.text(),
    {
        match self {
            LostConnectionError::PeerConnectionLost => "Lost connection to peer".to_owned(),
            LostConnectionError::PublisherConnectionLost => "Lost connection to publisher".to_owned(),
            LostConnectionError::SubscriberConnectionLost =>
                "Lost connection from subscriber".to_owned(),
        }
    }
}

/// An error occurred on the server
#[derive(Debug, Eq, PartialEq, Clone, Copy, Structural)]
pub enum ServerError {
    RoomNotFound,
    AuthTimeout,
    /// A packet came before its sender was authenticated.
    NotAuthenticated,
    /// The token of a client was refused, or none came.
    FailedToAuthenticate,
}

impl ServerError {
    /// The message of the error.
    pub open spec fn text(&self) -> Seq<char> {
        match *self {
            ServerError::RoomNotFound => "This room ID does not exist."@,
            ServerError::AuthTimeout => "Time for authentication expired."@,
            ServerError::NotAuthenticated => "This user is not authenticated."@,
            ServerError::FailedToAuthenticate => "Failed to authenticate."@,
        }
    }

    /// The message of the error.
    pub fn message(&self) -> (message: String)
        ensures
            message@ == self.text(),
    {
        match self {
            ServerError::RoomNotFound => "This room ID does not exist.".to_owned(),
            ServerError::AuthTimeout => "Time for authentication expired.".to_owned(),
            ServerError::NotAuthenticated => "This user is not authenticated.".to_owned(),
            ServerError::FailedToAuthenticate => "Failed to authenticate.".to_owned(),
        }
    }
}

/// A message of a client.
pub enum Message {
    /// A text, and what it was parsed to, or why it was not.
    Text(core::result::Result<PacketC2S, String>),
    Other,
}

impl PacketC2S {
    /// Create a packet from incoming Message
    pub fn from(message: Message) -> (res: core::result::Result<PacketC2S, BadRequestError>)
        ensures
            res == match message {
                Message::Text(Ok(packet)) => Ok::<PacketC2S, BadRequestError>(packet),
                Message::Text(Err(reason)) => Err::<PacketC2S, BadRequestError>(
                    BadRequestError::BadFormat { reason },
                ),
                Message::Other => Err::<PacketC2S, BadRequestError>(
                    BadRequestError::UnproccesableEntity,
                ),
            },
    {
        match message {
            Message::Text(Ok(packet)) => Ok(packet),
            Message::Text(Err(reason)) => Err(BadRequestError::BadFormat { reason }),
            Message::Other => Err(BadRequestError::UnproccesableEntity),
        }
    }
}

/// Which media of a stream a client wants to be sent.
pub struct RemoteMedia {
    pub stream_id: String,
    pub video: String,
    pub frame_rate: String,
    pub audio: bool,
    pub layers: Option<Vec<String>>,
}

/// A candidate is read back as it was told.
pub proof fn law_candidate_round_trip(candidate: ICECandidate, back: ICECandidate)
    requires
        reads(back, candidate.told()),
    ensures
        back.candidate@ == candidate.candidate@,
        back.sdp_mid@ == candidate.sdp_mid@,
        back.sdp_mline_index == candidate.sdp_mline_index,
        back.username_fragment@ == candidate.username_fragment@,
{
}

} // verus!
