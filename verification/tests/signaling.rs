use volcano::controllers::pubsub::PeerRole;
use volcano::peer::ice::RTCIceCandidateInit;
use volcano::reference::ReferenceDb;
use volcano::rtc::peer::negotiation::SdpType;
use volcano::rtc::peer::pubsub::PeerConfig;
use volcano::session::room::RoomEvent;
use volcano::signaling::client::{
    handle_offer, lifecycle_listen, listen_step, remote_description_set, step_failed, trickled,
    Client, ClientStep, ListenEvent, ListenStep, MessageStep, Reply, StepFailure,
};
use volcano::signaling::packets::{
    BadRequestError, ICECandidate, LostConnectionError, MediaType, Message, PacketC2S, PacketS2C,
    RTCSessionDescription, ServerError,
};
use volcano::signaling::server::{
    authenticated, handle_connection, ConnectionStep, UserCapabilities, UserInformation,
};

fn user(id: &str) -> UserInformation {
    UserInformation { id: id.to_owned(), capabilities: UserCapabilities::default() }
}

fn description(sdp: &str) -> RTCSessionDescription {
    RTCSessionDescription { sdp_type: SdpType::Offer, sdp: sdp.to_owned() }
}

fn candidate() -> RTCIceCandidateInit {
    RTCIceCandidateInit {
        candidate: "c".to_owned(),
        sdp_mid: None,
        sdp_mline_index: None,
        username_fragment: Some("u".to_owned()),
    }
}

fn join(room_id: &str) -> PacketC2S {
    PacketC2S::Join { room_id: room_id.to_owned(), offer: None, cfg: PeerConfig::default() }
}

#[test]
fn candidates_survive_the_browser() {
    let read = ICECandidate::from_init(candidate());
    assert_eq!(read.sdp_mid, "");
    assert_eq!(read.sdp_mline_index, 0);
    assert_eq!(read.username_fragment, "u");
    let told = ICECandidate { sdp_mline_index: 3, ..read }.into_init();
    assert_eq!(told.candidate, "c");
    assert_eq!(told.sdp_mid, Some(String::new()));
    let back = ICECandidate::from_init(told);
    assert_eq!(back.sdp_mline_index, 3);
    assert_eq!(back.username_fragment, "u");
    assert_eq!(MediaType::Audio.name(), "Audio");
    assert_eq!(MediaType::Video.name(), "Video");
    assert_eq!(MediaType::ScreenAudio.name(), "ScreenAudio");
    assert_eq!(MediaType::ScreenVideo.name(), "ScreenVideo");
}

#[test]
fn messages_become_packets() {
    let parsed = PacketC2S::from(Message::Text(Ok(PacketC2S::Ping { data: 4 })));
    assert!(matches!(parsed, Ok(PacketC2S::Ping { data: 4 })));
    match PacketC2S::from(Message::Text(Err("why".to_owned()))) {
        Err(error) => assert_eq!(error.message(), "Bad Request. Reason: why"),
        Ok(_) => panic!("the text was no packet"),
    }
    match PacketC2S::from(Message::Other) {
        Err(error) => {
            assert_eq!(error.message(), "Received message is not a text.");
            assert!(lifecycle_listen(error).is_none());
        }
        Ok(_) => panic!("the message was no text"),
    }
    let refused = BadRequestError::BadFormat { reason: "why".to_owned() };
    assert!(matches!(
        lifecycle_listen(refused),
        Some(Reply::BadRequest(BadRequestError::BadFormat { .. }))
    ));
}

#[test]
fn errors_are_spelled_out() {
    assert_eq!(BadRequestError::AlreadyConnected.message(), "Already connected to a room!");
    assert_eq!(
        BadRequestError::Forbidden.message(),
        "Forbidden access. User is not authenticated in this session."
    );
    assert_eq!(LostConnectionError::PeerConnectionLost.message(), "Lost connection to peer");
    assert_eq!(
        LostConnectionError::PublisherConnectionLost.message(),
        "Lost connection to publisher"
    );
    assert_eq!(
        LostConnectionError::SubscriberConnectionLost.message(),
        "Lost connection from subscriber"
    );
    assert_eq!(ServerError::RoomNotFound.message(), "This room ID does not exist.");
    assert_eq!(ServerError::AuthTimeout.message(), "Time for authentication expired.");
    assert_eq!(ServerError::NotAuthenticated.message(), "This user is not authenticated.");
    assert_eq!(ServerError::FailedToAuthenticate.message(), "Failed to authenticate.");
}

#[test]
fn nothing_is_accepted_before_authentication() {
    let connect = PacketC2S::Connect {
        id: 1,
        token: "token".to_owned(),
        room_ids: vec!["a".to_owned()],
    };
    assert!(matches!(
        handle_connection(Ok(connect)),
        ConnectionStep::Authenticate { id: 1, ref token, .. } if token == "token"
    ));
    assert!(matches!(
        handle_connection(Ok(PacketC2S::Leave)),
        ConnectionStep::Refuse(Reply::Server(ServerError::NotAuthenticated))
    ));
    assert!(matches!(
        handle_connection(Err(BadRequestError::UnproccesableEntity)),
        ConnectionStep::Refuse(Reply::BadRequest(BadRequestError::UnproccesableEntity))
    ));
    let mut db = ReferenceDb::new();
    db.fetch_or_create_room("a");
    let ids = vec!["a".to_owned(), "b".to_owned()];
    assert!(matches!(
        authenticated(None, 1, &ids, vec![], &db),
        Err(ServerError::FailedToAuthenticate)
    ));
    match authenticated(Some(user("alice")), 1, &ids, vec![], &db) {
        Ok((client, PacketS2C::Accept { id, user_id, available_rooms, .. })) => {
            assert_eq!(client.user.id, "alice");
            assert_eq!(id, 1);
            assert_eq!(user_id, "alice");
            assert_eq!(available_rooms.len(), 1);
        }
        _ => panic!("alice was to be accepted"),
    }
}

#[test]
fn packets_are_handled() {
    let mut db = ReferenceDb::new();
    let mut client = Client::new(user("alice"));
    assert!(matches!(
        client.handle_message(&mut db, PacketC2S::Ping { data: 9 }),
        MessageStep::Send(Reply::Packet(PacketS2C::Pong { data: 9 }))
    ));
    let connect =
        PacketC2S::Connect { id: 1, token: String::new(), room_ids: vec![] };
    assert!(matches!(
        client.handle_message(&mut db, connect),
        MessageStep::Send(Reply::BadRequest(BadRequestError::AlreadyConnected))
    ));
    assert!(matches!(
        client.handle_message(&mut db, PacketC2S::Leave),
        MessageStep::Fail(ServerError::RoomNotFound)
    ));
    assert!(matches!(
        client.handle_message(&mut db, PacketC2S::Offer { description: description("o") }),
        MessageStep::AnswerOffer(ref offer) if offer.sdp == "o"
    ));
    assert!(matches!(
        client.handle_message(&mut db, PacketC2S::Answer { description: description("a") }),
        MessageStep::SetRemoteDescription(ref answer) if answer.sdp == "a"
    ));
    let trickle = PacketC2S::Trickle { candidate: candidate(), target: PeerRole::Subscriber };
    assert!(matches!(
        client.handle_message(&mut db, trickle),
        MessageStep::Trickle { target: PeerRole::Subscriber, .. }
    ));
}

#[test]
fn joining_and_leaving_a_room() {
    let mut db = ReferenceDb::new();
    let mut client = Client::new(user("alice"));
    assert!(matches!(client.handle_message(&mut db, join("r")), MessageStep::Join { .. }));
    assert_eq!(client.room, Some("r".to_owned()));
    let room = db.rooms.get_mut("r").unwrap();
    room.add_user("alice".to_owned());
    room.add_user("bob".to_owned());
    room.add_peer("alice".to_owned(), 7);
    match client.handle_message(&mut db, PacketC2S::Leave) {
        MessageStep::Left(departure) => {
            assert_eq!(departure.peer, Some(7));
            assert!(matches!(departure.event, Some(RoomEvent::UserLeft { .. })));
        }
        _ => panic!("alice was to leave"),
    }
    assert_eq!(client.room, None);
    assert!(client.close_events);
    let room = db.fetch_room("r").unwrap();
    assert!(!room.in_room("alice"));
    assert!(!room.is_closed());
    // The last one closes the room
    let mut client = Client::new(user("bob"));
    client.handle_message(&mut db, join("r"));
    assert!(matches!(
        client.handle_message(&mut db, PacketC2S::Leave),
        MessageStep::Left(ref departure) if departure.event.is_none()
    ));
    assert!(db.fetch_room("r").unwrap().is_closed());
}

#[test]
fn disconnecting_leaves_the_room_open() {
    let mut db = ReferenceDb::new();
    let mut client = Client::new(user("alice"));
    assert!(client.lifecycle_clean_up(&mut db).is_none());
    client.handle_message(&mut db, join("r"));
    db.rooms.get_mut("r").unwrap().add_user("alice".to_owned());
    assert!(client.lifecycle_clean_up(&mut db).is_some());
    let room = db.fetch_room("r").unwrap();
    assert!(room.is_empty());
    assert!(!room.is_closed());
    assert!(client.close_events);
}

#[test]
fn steps_of_joining() {
    let mut db = ReferenceDb::new();
    db.fetch_or_create_room("r");
    db.rooms.get_mut("r").unwrap().data_channels.push("chat".to_owned());
    let room = db.fetch_room("r").unwrap();
    let mut client = Client::new(user("alice"));
    assert_eq!(
        client.handle_join(room, true, &PeerConfig::default()),
        vec![
            ClientStep::Join,
            ClientStep::Answer,
            ClientStep::SetUpSubscriber,
            ClientStep::AddDataChannel(0),
            ClientStep::Subscribe,
            ClientStep::SendRoomInfo,
            ClientStep::Listen,
        ]
    );
    assert!(client.peer.on_offer && client.peer.on_ice_candidate);
    let publishes = PeerConfig { no_subscribe: true, ..PeerConfig::default() };
    assert_eq!(
        client.handle_join(room, false, &publishes),
        vec![ClientStep::Join, ClientStep::SendRoomInfo, ClientStep::Listen]
    );
    let listens = PeerConfig { no_publish: true, ..PeerConfig::default() };
    assert_eq!(
        client.handle_join(room, false, &listens),
        vec![
            ClientStep::Join,
            ClientStep::SetUpSubscriber,
            ClientStep::Subscribe,
            ClientStep::SendRoomInfo,
            ClientStep::Listen,
        ]
    );
    assert_eq!(step_failed(ClientStep::Join), StepFailure::Stop);
    assert_eq!(
        step_failed(ClientStep::Answer),
        StepFailure::Tell(LostConnectionError::PublisherConnectionLost)
    );
    assert_eq!(step_failed(ClientStep::SetUpSubscriber), StepFailure::Stop);
    assert_eq!(step_failed(ClientStep::AddDataChannel(0)), StepFailure::Stop);
    assert_eq!(step_failed(ClientStep::SendRoomInfo), StepFailure::GoOn);
}

#[test]
fn outcomes_are_replied_to() {
    assert!(matches!(
        handle_offer(Some(description("a"))),
        Reply::Packet(PacketS2C::Answer { .. })
    ));
    assert!(matches!(
        handle_offer(None),
        Reply::Lost(LostConnectionError::PublisherConnectionLost)
    ));
    assert!(remote_description_set(true).is_none());
    assert!(matches!(
        remote_description_set(false),
        Some(Reply::Lost(LostConnectionError::SubscriberConnectionLost))
    ));
    assert!(trickled(true).is_none());
    assert!(matches!(
        trickled(false),
        Some(Reply::Lost(LostConnectionError::PeerConnectionLost))
    ));
    assert_eq!(listen_step(ListenEvent::Event), ListenStep::Forward);
    assert_eq!(listen_step(ListenEvent::Lagged), ListenStep::Wait);
    assert_eq!(listen_step(ListenEvent::Closed), ListenStep::Stop);
    assert_eq!(listen_step(ListenEvent::CloseSignal(true)), ListenStep::Stop);
    assert_eq!(listen_step(ListenEvent::CloseSignal(false)), ListenStep::Wait);
    assert_eq!(listen_step(ListenEvent::SignalLost), ListenStep::Stop);
}
