use vstd::prelude::*;

use crate::controllers::pubsub::PeerRole;
use crate::peer::ice::RTCIceCandidateInit;
use crate::reference::{fetched, ReferenceDb};
use crate::rtc::peer::pubsub::{PeerConfig, PubSubPeer};
use crate::session::room::{tracks_in, Room, RoomEvent, Stream};
use crate::signaling::packets::{
    BadRequestError, LostConnectionError, PacketC2S, PacketS2C, RTCSessionDescription, ServerError,
};
use crate::signaling::server::UserInformation;

verus! {

/// What is sent to a client.
pub enum Reply {
    Packet(PacketS2C),
    BadRequest(BadRequestError),
    Lost(LostConnectionError),
    Server(ServerError),
}

/// What a client's leaving a room asks for.
pub struct Departure {
    /// The peer that is to be closed, if it was in the room.
    pub peer: Option<u64>,
    /// What the others in the room are told, if there is anyone.
    pub event: Option<RoomEvent>,
}

/// What is to be done with a packet of a client.
pub enum MessageStep {
    /// The answer of the client's subscriber is applied: see [remote_description_set].
    SetRemoteDescription(RTCSessionDescription),
    /// The client is sent a reply.
    Send(Reply),
    /// The client joins a room: see [Client::handle_join].
    Join { offer: Option<RTCSessionDescription>, cfg: PeerConfig },
    /// The client left the room.
    Left(Departure),
    /// The packet cannot be handled.
    Fail(ServerError),
    /// The offer of the client's publisher is answered: see [handle_offer].
    AnswerOffer(RTCSessionDescription),
    /// A candidate is added to a side of the peer: see [trickled].
    Trickle { candidate: RTCIceCandidateInit, target: PeerRole },
}

/// What is to be done to join a room.
#[derive(Debug, Eq, PartialEq, Clone, Copy, Structural)]
pub enum ClientStep {
    /// The peer joins the room.
    Join,
    /// The offer that came with the request is answered.
    Answer,
    /// The subscriber is set up.
    SetUpSubscriber,
    /// The subscriber is given one of the data channels of the room, by its place.
    AddDataChannel(usize),
    /// The peer is subscribed to the others in the room.
    Subscribe,
    /// The client is told who is in the room.
    SendRoomInfo,
    /// The events of the room are listened to: see [listen_step].
    Listen,
}

/// What is to be done when a step of joining a room failed.
#[derive(Debug, Eq, PartialEq, Clone, Copy, Structural)]
pub enum StepFailure {
    /// The request failed.
    Stop,
    /// The client is told, and the next step follows.
    Tell(LostConnectionError),
    /// The next step follows.
    GoOn,
}

/// What came while the events of a room were listened to.
#[derive(Debug, Eq, PartialEq, Clone, Copy, Structural)]
pub enum ListenEvent {
    /// An event of the room.
    Event,
    /// Events were missed.
    Lagged,
    /// There will be no more events.
    Closed,
    /// The close signal was given or taken back.
    CloseSignal(bool),
    /// There will be no more close signals.
    SignalLost,
}

/// What is to be done while the events of a room are listened to.
#[derive(Debug, Eq, PartialEq, Clone, Copy, Structural)]
pub enum ListenStep {
    /// The event is sent to the subscribers of the room.
    Forward,
    /// Nothing is to be done.
    Wait,
    /// The listening ends.
    Stop,
}

/// The data channels of a room, each of which a subscriber is given.
pub open spec fn channel_steps(channels: nat) -> Seq<ClientStep> {
    Seq::new(channels, |i: int| ClientStep::AddDataChannel(i as usize))
}

/// What is to be done for the subscriber.
pub open spec fn subscriber_steps(cfg: PeerConfig, channels: nat) -> Seq<ClientStep> {
    if cfg.no_subscribe {
        seq![]
    } else if cfg.no_publish {
        seq![ClientStep::SetUpSubscriber, ClientStep::Subscribe]
    } else {
        seq![ClientStep::SetUpSubscriber] + channel_steps(channels) + seq![ClientStep::Subscribe]
    }
}

/// What is to be done to join a room, in its order.
pub open spec fn client_steps(offers: bool, cfg: PeerConfig, channels: nat) -> Seq<ClientStep> {
    let first = if offers {
        seq![ClientStep::Join, ClientStep::Answer]
    } else {
        seq![ClientStep::Join]
    };
    first + subscriber_steps(cfg, channels) + seq![ClientStep::SendRoomInfo, ClientStep::Listen]
}

/// Whether the user has left the room, and the room was closed where that was wanted and nobody is
/// left in it.
pub open spec fn left(before: Room, after: Room, user: Seq<char>, closes: bool) -> bool {
    &&& after.wf()
    &&& after.id == before.id
    &&& after.labels == before.labels
    &&& after.data_channels == before.data_channels
    &&& after.peers@ == before.peers@.remove(user)
    &&& after.users() == before.users().remove(user)
    &&& after.tracks@ == before.tracks@.remove_keys(tracks_in(before.streams(user)))
    &&& after.closed == (before.closed || (closes && after.users() == Map::<
        Seq<char>,
        Seq<Stream>,
    >::empty()))
}

/// Whether the departure closes the peer of the user, and tells those who are left.
pub open spec fn departs(departure: Departure, before: Room, user: Seq<char>) -> bool {
    &&& departure.peer == if before.peers@.contains_key(user) {
        Some(before.peers@[user])
    } else {
        None
    }
    &&& departure.event is None <==> before.users().remove(user) == Map::<
        Seq<char>,
        Seq<Stream>,
    >::empty()
    &&& departure.event matches Some(event) ==> (event matches RoomEvent::UserLeft { room_id, uid }
        && room_id@ == before.id@ && uid@ == user)
}

/// Takes a user out of a room.
pub fn leave_room(room: &mut Room, user: &str, closes: bool) -> (departure: Departure)
    requires
        old(room).wf(),
    ensures
        left(*old(room), *final(room), user@, closes),
        departs(departure, *old(room), user@),
{
    // Close all peers
    let (peer, _count) = room.remove_peer(user);
    // Remove user
    let ghost after_peer = *room;
    assert(after_peer.users() == old(room).users());
    assert(after_peer.streams(user@) == old(room).streams(user@));
    let event = room.remove_user(user);
    if closes && room.is_empty() {
        let ghost emptied = *room;
        room.close();
        assert(room.users() == emptied.users());
    }
    Departure { peer, event }
}

/// Information about user, room and peer connection
pub struct Client {
    pub user: UserInformation,
    /// The room that the client is in.
    pub room: Option<String>,
    pub peer: PubSubPeer,
    /// The close signal: whether the events of the room are no longer listened to.
    pub close_events: bool,
}

impl Client {
    /// What every operation keeps: the room of the client is one of the server's.
    pub open spec fn wf(&self, db: &ReferenceDb) -> bool {
        &&& self.peer.wf()
        &&& db.wf()
        &&& self.room matches Some(id) ==> db.rooms@.contains_key(id@)
    }

    /// Create a new Client for a user
    pub fn new(user: UserInformation) -> (client: Self)
        ensures
            client.user == user,
            client.room is None,
            client.peer.wf(),
            client.peer.id@ == user.id@,
            client.peer.user_id@ == user.id@,
            !client.peer.closed,
            client.peer.subscriber is None,
            client.peer.publisher is None,
            !client.close_events,
    {
        let id = user.id.clone();
        Self { user, room: None, peer: PubSubPeer::new(id), close_events: false }
    }

    /// Handle incoming packet
    pub fn handle_message(&mut self, db: &mut ReferenceDb, packet: PacketC2S) -> (step: MessageStep)
        requires
            old(self).wf(&*old(db)),
        ensures
            final(self).wf(&*final(db)),
            *final(self) == (Client {
                room: final(self).room,
                close_events: final(self).close_events,
                ..*old(self)
            }),
            !(packet is Join || packet is Leave) ==> *final(self) == *old(self) && *final(db)
                == *old(db),
            match packet {
                PacketC2S::Answer { description } => step == MessageStep::SetRemoteDescription(
                    description,
                ),
                PacketC2S::Connect { .. } => step == MessageStep::Send(
                    Reply::BadRequest(BadRequestError::AlreadyConnected),
                ),
                PacketC2S::Join { room_id, offer, cfg } => {
                    &&& step == (MessageStep::Join { offer, cfg })
                    &&& final(self).room == Some(room_id)
                    &&& !final(self).close_events
                    &&& fetched(*old(db), *final(db), room_id@)
                },
                PacketC2S::Leave => match old(self).room {
                    Some(id) => {
                        &&& final(self).room is None
                        &&& final(self).close_events
                        &&& final(db).rooms@ == old(db).rooms@.insert(id@, final(db).rooms@[id@])
                        &&& left(
                            old(db).rooms@[id@],
                            final(db).rooms@[id@],
                            old(self).user.id@,
                            true,
                        )
                        &&& step matches MessageStep::Left(departure)
                        &&& departs(departure, old(db).rooms@[id@], old(self).user.id@)
                    },
                    None => {
                        &&& step == MessageStep::Fail(ServerError::RoomNotFound)
                        &&& *final(self) == *old(self)
                        &&& *final(db) == *old(db)
                    },
                },
                PacketC2S::Offer { description } => step == MessageStep::AnswerOffer(description),
                PacketC2S::Ping { data } => step == MessageStep::Send(
                    Reply::Packet(PacketS2C::Pong { data }),
                ),
                PacketC2S::Trickle { candidate, target } => step == (MessageStep::Trickle {
                    candidate,
                    target,
                }),
            },
    {
        match packet {
            PacketC2S::Answer { description } => MessageStep::SetRemoteDescription(description),
            PacketC2S::Connect { .. } => MessageStep::Send(
                Reply::BadRequest(BadRequestError::AlreadyConnected),
            ),
            PacketC2S::Join { room_id, offer, cfg } => {
                self.close_events = false;
                db.fetch_or_create_room(room_id.as_str());
                self.room = Some(room_id);
                MessageStep::Join { offer, cfg }
            },
            PacketC2S::Leave => self.leave(db),
            PacketC2S::Offer { description } => MessageStep::AnswerOffer(description),
            PacketC2S::Ping { data } => MessageStep::Send(Reply::Packet(PacketS2C::Pong { data })),
            PacketC2S::Trickle { candidate, target } => MessageStep::Trickle { candidate, target },
        }
    }

    /// Removes the user from the current room.
    fn leave(&mut self, db: &mut ReferenceDb) -> (step: MessageStep)
        requires
            old(self).wf(&*old(db)),
        ensures
            final(self).wf(&*final(db)),
            match old(self).room {
                Some(id) => {
                    &&& *final(self) == (Client { room: None, close_events: true, ..*old(self) })
                    &&& final(db).rooms@ == old(db).rooms@.insert(id@, final(db).rooms@[id@])
                    &&& left(old(db).rooms@[id@], final(db).rooms@[id@], old(self).user.id@, true)
                    &&& step matches MessageStep::Left(departure)
                    &&& departs(departure, old(db).rooms@[id@], old(self).user.id@)
                },
                None => {
                    &&& step == MessageStep::Fail(ServerError::RoomNotFound)
                    &&& *final(self) == *old(self)
                    &&& *final(db) == *old(db)
                },
            },
    {
        match self.room.take() {
            Some(id) => {
                self.close_events = true;
                match db.rooms.get_mut(id.as_str()) {
                    Some(room) => MessageStep::Left(leave_room(room, self.user.id.as_str(), true)),
                    None => MessageStep::Fail(ServerError::RoomNotFound),
                }
            },
            None => MessageStep::Fail(ServerError::RoomNotFound),
        }
    }

    /// Clean up after ourselves by disconnecting from the room,
    /// closing the peer connection and removing tracks.
    pub fn lifecycle_clean_up(&mut self, db: &mut ReferenceDb) -> (res: Option<Departure>)
        requires
            old(self).wf(&*old(db)),
        ensures
            final(self).wf(&*final(db)),
            *final(self) == (Client { close_events: true, ..*old(self) }),
            match old(self).room {
                Some(id) => {
                    &&& final(db).rooms@ == old(db).rooms@.insert(id@, final(db).rooms@[id@])
                    &&& left(old(db).rooms@[id@], final(db).rooms@[id@], old(self).user.id@, false)
                    &&& res matches Some(departure)
                    &&& departs(departure, old(db).rooms@[id@], old(self).user.id@)
                },
                None => res is None && *final(db) == *old(db),
            },
    {
        self.close_events = true;
        match &self.room {
            Some(id) => match db.rooms.get_mut(id.as_str()) {
                Some(room) => Some(leave_room(room, self.user.id.as_str(), false)),
                None => None,
            },
            None => None,
        }
    }

    /// Registers to send offers and candidates to the client, and says what is to be done to join
    /// the room.
    pub fn handle_join(&mut self, room: &Room, offers: bool, cfg: &PeerConfig) -> (steps: Vec<
        ClientStep,
    >)
        requires
            old(self).peer.wf(),
        ensures
            final(self).peer.wf(),
            *final(self) == (Client {
                peer: PubSubPeer {
                    on_offer: true,
                    on_ice_candidate: true,
                    on_ice_connection_state_change: true,
                    ..old(self).peer
                },
                ..*old(self)
            }),
            steps@ == client_steps(offers, *cfg, room.data_channels@.len()),
    {
        self.peer.on_offer();
        self.peer.on_ice_candidate();
        self.peer.register_on_ice_connection_state_change();
        let mut steps: Vec<ClientStep> = Vec::new();
        steps.push(ClientStep::Join);
        if offers {
            steps.push(ClientStep::Answer);
        }
        let ghost first = steps@;
        // Set up subscriber... on join?
        if !cfg.no_subscribe {
            steps.push(ClientStep::SetUpSubscriber);
            if !cfg.no_publish {
                push_channel_steps(&mut steps, room.get_data_channel_middlewares().len());
            }
            steps.push(ClientStep::Subscribe);
        }
        assert(steps@ =~= first + subscriber_steps(*cfg, room.data_channels@.len()));
        steps.push(ClientStep::SendRoomInfo);
        steps.push(ClientStep::Listen);
        assert(steps@ =~= client_steps(offers, *cfg, room.data_channels@.len()));
        steps
    }
}

fn push_channel_steps(steps: &mut Vec<ClientStep>, channels: usize)
    ensures
        final(steps)@ == old(steps)@ + channel_steps(channels as nat),
{
    let ghost before = steps@;
    let mut i: usize = 0;
    assert(steps@ =~= before + channel_steps(0));
    while i < channels
        invariant
            i <= channels,
            steps@ == before + channel_steps(i as nat),
        decreases channels - i,
    {
        steps.push(ClientStep::AddDataChannel(i));
        assert(steps@ =~= before + channel_steps((i + 1) as nat));
        i = i + 1;
    }
}

/// What is to be done when a step of joining a room failed.
pub fn step_failed(step: ClientStep) -> (failure: StepFailure)
    ensures
        failure == match step {
            ClientStep::Join => StepFailure::Stop,
            ClientStep::Answer => StepFailure::Tell(LostConnectionError::PublisherConnectionLost),
            ClientStep::SetUpSubscriber => StepFailure::Stop,
            ClientStep::AddDataChannel(_) => StepFailure::Stop,
            ClientStep::Subscribe => StepFailure::GoOn,
            ClientStep::SendRoomInfo => StepFailure::GoOn,
            ClientStep::Listen => StepFailure::GoOn,
        },
{
    match step {
        ClientStep::Join => StepFailure::Stop,
        // Client should know error
        ClientStep::Answer => StepFailure::Tell(LostConnectionError::PublisherConnectionLost),
        ClientStep::SetUpSubscriber => StepFailure::Stop,
        ClientStep::AddDataChannel(_) => StepFailure::Stop,
        ClientStep::Subscribe => StepFailure::GoOn,
        ClientStep::SendRoomInfo => StepFailure::GoOn,
        ClientStep::Listen => StepFailure::GoOn,
    }
}

/// What is to be done while the events of a room are listened to.
pub fn listen_step(event: ListenEvent) -> (step: ListenStep)
    ensures
        step == match event {
            ListenEvent::Event => ListenStep::Forward,
            ListenEvent::Lagged => ListenStep::Wait,
            ListenEvent::Closed => ListenStep::Stop,
            ListenEvent::CloseSignal(true) => ListenStep::Stop,
            ListenEvent::CloseSignal(false) => ListenStep::Wait,
            ListenEvent::SignalLost => ListenStep::Stop,
        },
{
    match event {
        ListenEvent::Event => ListenStep::Forward,
        ListenEvent::Lagged => ListenStep::Wait,
        ListenEvent::Closed => ListenStep::Stop,
        ListenEvent::CloseSignal(closes) => if closes {
            ListenStep::Stop
        } else {
            ListenStep::Wait
        },
        ListenEvent::SignalLost => ListenStep::Stop,
    }
}

/// What the client is sent once its publisher's offer was answered, or was not.
pub fn handle_offer(answer: Option<RTCSessionDescription>) -> (reply: Reply)
    ensures
        reply == match answer {
            Some(description) => Reply::Packet(PacketS2C::Answer { description }),
            None => Reply::Lost(LostConnectionError::PublisherConnectionLost),
        },
{
    match answer {
        Some(description) => Reply::Packet(PacketS2C::Answer { description }),
        None => Reply::Lost(LostConnectionError::PublisherConnectionLost),
    }
}

/// What the client is sent once its subscriber's answer was applied, or was not.
pub fn remote_description_set(applied: bool) -> (reply: Option<Reply>)
    ensures
        reply == if applied {
            None
        } else {
            Some(Reply::Lost(LostConnectionError::SubscriberConnectionLost))
        },
{
    if applied {
        None
    } else {
        Some(Reply::Lost(LostConnectionError::SubscriberConnectionLost))
    }
}

/// What the client is sent once its candidate was added, or was not.
pub fn trickled(added: bool) -> (reply: Option<Reply>)
    ensures
        reply == if added {
            None
        } else {
            Some(Reply::Lost(LostConnectionError::PeerConnectionLost))
        },
{
    if added {
        None
    } else {
        Some(Reply::Lost(LostConnectionError::PeerConnectionLost))
    }
}

/// What the client is sent when its message was no packet: only a text that is not understood is
/// answered.
pub fn lifecycle_listen(error: BadRequestError) -> (reply: Option<Reply>)
    ensures
        reply == match error {
            BadRequestError::BadFormat { reason } => Some(
                Reply::BadRequest(BadRequestError::BadFormat { reason }),
            ),
            _ => None,
        },
{
    match error {
        BadRequestError::BadFormat { reason } => Some(
            Reply::BadRequest(BadRequestError::BadFormat { reason }),
        ),
        _ => None,
    }
}

/// A client is subscribed to the others in the room just if it wants to be, and only once its
/// subscriber is set up.
pub proof fn law_subscribes_if_wanted(offers: bool, cfg: PeerConfig, channels: nat)
    ensures
        client_steps(offers, cfg, channels).contains(ClientStep::Subscribe) <==> !cfg.no_subscribe,
        forall|i: int|
            0 <= i < client_steps(offers, cfg, channels).len() && #[trigger] client_steps(
                offers,
                cfg,
                channels,
            )[i] == ClientStep::Subscribe ==> client_steps(offers, cfg, channels).take(i).contains(
                ClientStep::SetUpSubscriber,
            ),
{
    let steps = client_steps(offers, cfg, channels);
    let first: int = if offers {
        2
    } else {
        1
    };
    if !cfg.no_subscribe {
        assert(steps[first] == ClientStep::SetUpSubscriber);
        assert(steps[steps.len() - 3] == ClientStep::Subscribe);
        assert forall|i: int|
            0 <= i < steps.len() && #[trigger] steps[i]
                == ClientStep::Subscribe implies steps.take(i).contains(
            ClientStep::SetUpSubscriber,
        ) by {
            assert(steps.take(i)[first] == ClientStep::SetUpSubscriber);
        }
    }
}

/// Whoever leaves a room is no longer in it, with no track left, and nobody else is touched.
pub proof fn law_leaving_takes_only_oneself(
    before: Room,
    after: Room,
    user: Seq<char>,
    other: Seq<char>,
    closes: bool,
)
    requires
        left(before, after, user, closes),
        other != user,
    ensures
        !after.users().contains_key(user),
        !after.peers@.contains_key(user),
        forall|track: Seq<char>| #[trigger]
            tracks_in(before.streams(user)).contains(track) ==> !after.tracks@.contains_key(track),
        after.users().contains_key(other) <==> before.users().contains_key(other),
        after.streams(other) == before.streams(other),
        after.peers@.contains_key(other) <==> before.peers@.contains_key(other),
        before.peers@.contains_key(other) ==> after.peers@[other] == before.peers@[other],
        after.id == before.id,
        after.labels == before.labels,
        after.data_channels == before.data_channels,
{
}

/// Whoever leaves has their peer closed and the others told; the room is closed once its last user
/// has left for good.
pub proof fn law_leaving_is_told_to_the_others(
    before: Room,
    after: Room,
    user: Seq<char>,
    closes: bool,
    departure: Departure,
)
    requires
        left(before, after, user, closes),
        departs(departure, before, user),
    ensures
        before.peers@.contains_key(user) ==> departure.peer == Some(before.peers@[user]),
        !before.peers@.contains_key(user) ==> departure.peer is None,
        (exists|other: Seq<char>| other != user && #[trigger] before.users().contains_key(other))
            ==> (departure.event matches Some(event) && (event matches RoomEvent::UserLeft {
            room_id,
            uid,
        } && room_id@ == before.id@ && uid@ == user)) && after.closed == before.closed,
        (forall|other: Seq<char>| other != user ==> !#[trigger] before.users().contains_key(other))
            ==> departure.event is None && (closes ==> after.closed) && (!closes ==> after.closed
            == before.closed),
{
    if forall|other: Seq<char>| other != user ==> !#[trigger] before.users().contains_key(other) {
        assert(before.users().remove(user) =~= Map::<Seq<char>, Seq<Stream>>::empty());
    }
    if exists|other: Seq<char>| other != user && #[trigger] before.users().contains_key(other) {
        let other = choose|other: Seq<char>|
            other != user && #[trigger] before.users().contains_key(other);
        assert(before.users().remove(user).contains_key(other));
        assert(after.users().contains_key(other));
    }
}

/// A client joins before anything else, and its offer is answered right after, just if it made one.
/// Who is in the room it is told at the end, before the events of the room are listened to.
pub proof fn law_joining_comes_first(offers: bool, cfg: PeerConfig, channels: nat)
    ensures
        client_steps(offers, cfg, channels).len() >= 3,
        client_steps(offers, cfg, channels)[0] == ClientStep::Join,
        client_steps(offers, cfg, channels).contains(ClientStep::Answer) <==> offers,
        offers ==> client_steps(offers, cfg, channels)[1] == ClientStep::Answer,
        client_steps(offers, cfg, channels).last() == ClientStep::Listen,
        client_steps(offers, cfg, channels)[client_steps(offers, cfg, channels).len() - 2]
            == ClientStep::SendRoomInfo,
{
    let steps = client_steps(offers, cfg, channels);
    if offers {
        assert(steps[1] == ClientStep::Answer);
    }
}

/// The subscriber of a client that publishes too is given each data channel of the room once it is
/// set up, and before it is subscribed to the others; no other client is given one.
pub proof fn law_data_channels_are_given_before_the_tracks(
    offers: bool,
    cfg: PeerConfig,
    channels: nat,
    channel: usize,
)
    requires
        channels <= usize::MAX,
    ensures
        client_steps(offers, cfg, channels).contains(ClientStep::AddDataChannel(channel))
            <==> !cfg.no_subscribe && !cfg.no_publish && channel < channels,
        forall|i: int|
            0 <= i < client_steps(offers, cfg, channels).len() && #[trigger] client_steps(
                offers,
                cfg,
                channels,
            )[i] == ClientStep::AddDataChannel(channel) ==> client_steps(offers, cfg, channels).take(
                i,
            ).contains(ClientStep::SetUpSubscriber) && client_steps(offers, cfg, channels).skip(
                i,
            ).contains(ClientStep::Subscribe),
{
    let steps = client_steps(offers, cfg, channels);
    let first: int = if offers {
        2
    } else {
        1
    };
    if !cfg.no_subscribe && !cfg.no_publish {
        assert(steps[first] == ClientStep::SetUpSubscriber);
        assert(steps[first + channels + 1] == ClientStep::Subscribe);
        if channel < channels {
            assert(steps[first + 1 + channel] == ClientStep::AddDataChannel(channel));
        }
        assert forall|i: int|
            0 <= i < steps.len() && #[trigger] steps[i] == ClientStep::AddDataChannel(
                channel,
            ) implies steps.take(i).contains(ClientStep::SetUpSubscriber) && steps.skip(
            i,
        ).contains(ClientStep::Subscribe) && channel < channels by {
            assert(first < i < first + channels + 1);
            assert(steps.take(i)[first] == ClientStep::SetUpSubscriber);
            assert(steps.skip(i)[first + channels + 1 - i] == ClientStep::Subscribe);
        }
    }
}

} // verus!
