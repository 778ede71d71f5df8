use volcano::controllers::central::CentralController;
use volcano::controllers::consumer::CentralConsumer;
use volcano::controllers::error::PeerControllerError;
use volcano::controllers::pubsub::{JoinStep, PeerRole, PubSubController};
use volcano::peer::answer::{AnswerAction, AnswerEvent};
use volcano::peer::error::Error;
use volcano::peer::ice::RTCIceCandidateInit;
use volcano::peer::negotiation::NegotiationStep;
use volcano::peer::subscriber::{LocalTrack, Subscriber, Unsubscribe};
use volcano::rtc::config::RouterConfig;
use volcano::rtc::peer::publisher::Publisher;
use volcano::rtc::peer::pubsub::PeerConfig;

fn candidate(text: &str) -> RTCIceCandidateInit {
    RTCIceCandidateInit {
        candidate: text.to_owned(),
        sdp_mid: None,
        sdp_mline_index: None,
        username_fragment: None,
    }
}

fn config() -> RouterConfig {
    let mut config = RouterConfig::default();
    config.max_packet_track = 100;
    config
}

#[test]
fn central_controllers_use_one_connection() {
    let mut controller = CentralController::new("peer".to_owned(), config());
    assert_eq!(controller.id(), "peer");
    assert!(matches!(
        controller.router(),
        Err(PeerControllerError::ErrPeer(Error::ErrNoTransportEstablished))
    ));
    assert!(controller.negotiate(None).is_err());
    controller.join("room".to_owned());
    assert!(controller.router().is_ok());
    controller.connect();
    assert!(controller.consumer().is_some());
    assert!(matches!(controller.negotiate(None), Ok(NegotiationStep::CreateOffer(None))));
    assert!(controller.add_ice_candidate(candidate("one"), false).ok().unwrap().is_none());
    assert!(matches!(
        controller.on_remote_offer(false, "sdp".to_owned()),
        AnswerAction::Fail(Error::ErrOfferIgnored)
    ));
    assert!(matches!(
        controller.on_remote_offer(true, "sdp".to_owned()),
        AnswerAction::SetRemoteDescription(_)
    ));
    match controller.answer(AnswerEvent::RemoteSet(Ok(()))) {
        AnswerAction::AddCandidates(list) => assert_eq!(list.len(), 1),
        _ => panic!("the candidate was to be added"),
    }
    assert!(matches!(
        controller.answer(AnswerEvent::LocalSet(Ok("answer".to_owned()))),
        AnswerAction::Reply(_)
    ));
    let (candidates, _) = controller.on_remote_answer().ok().unwrap();
    assert!(candidates.is_empty());
    assert!(controller.close());
}

#[test]
fn channels_of_a_central_controller() {
    let mut controller = CentralController::new("peer".to_owned(), config());
    assert!(!controller.data_channel_opened("System", 1));
    assert_eq!(controller.peer.api_channel, Some(1));
    controller.on_data_channel();
    assert!(controller.data_channel_opened("chat", 2));
    assert_eq!(controller.local_data_channel("chat"), Some(2));
    controller.add_data_channel("more", 3);
    assert_eq!(controller.close_local_data_channel("more"), Some(3));
    assert_eq!(controller.local_data_channel("more"), None);
}

#[test]
fn consumers_keep_their_tracks() {
    let mut consumer = CentralConsumer::new("peer".to_owned(), 100);
    assert_eq!(consumer.id(), "peer");
    let track = LocalTrack { number: 1, stream_id: "s".to_owned(), transceiver: Some(8) };
    consumer.add_down_track("a".to_owned(), track);
    assert_eq!(consumer.down_track_by_id("a").unwrap().number, 1);
    assert!(matches!(consumer.unsubscribe_track("x", false), Unsubscribe::Nothing));
    assert!(matches!(consumer.unsubscribe_track("a", false), Unsubscribe::RemoveSender(8)));
    assert!(!consumer.offer_created());
    consumer.on_offer();
    assert!(consumer.offer_created());
    assert!(matches!(consumer.sender_removed(), NegotiationStep::Nothing));
}

#[test]
fn pubsub_controllers_use_two_connections() {
    let mut controller = PubSubController::new("peer".to_owned(), "user".to_owned());
    assert_eq!(
        controller.join(&PeerConfig::default()),
        vec![JoinStep::CreatePublisher, JoinStep::AddUser]
    );
    assert!(matches!(controller.router(), Err(PeerControllerError::ErrNoProducer)));
    assert!(matches!(controller.negotiate(None), Err(PeerControllerError::ErrNoConsumer)));
    assert!(controller.trickle(candidate("one"), PeerRole::Publisher, true).is_err());
    assert!(controller
        .on_remote_offer(AnswerEvent::Offered {
            connected: true,
            stable: true,
            sdp: "sdp".to_owned(),
        })
        .is_err());
    let publisher = Publisher::new("peer".to_owned(), "room".to_owned(), config());
    controller.set_publisher(publisher);
    controller.setup_subscriber(Subscriber::new("peer".to_owned(), 1), &PeerConfig::default());
    assert!(controller.router().is_ok());
    assert!(controller.consumer().is_some());
    assert!(controller
        .trickle(candidate("one"), PeerRole::Publisher, false)
        .ok()
        .unwrap()
        .is_none());
    let offered =
        AnswerEvent::Offered { connected: true, stable: true, sdp: "sdp".to_owned() };
    assert!(matches!(
        controller.on_remote_offer(offered),
        Ok(AnswerAction::SetRemoteDescription(_))
    ));
    let (dc, existing) =
        controller.create_local_data_channel("chat".to_owned(), 5).ok().unwrap();
    assert_eq!(dc.label, "chat");
    assert_eq!(existing, None);
    assert_eq!(controller.local_data_channel("chat"), Some(5));
    assert_eq!(controller.close_local_data_channel("chat"), Some(5));
    assert!(!controller.sends_candidate());
    controller.on_ice_candidate();
    assert!(controller.sends_candidate());
    let (subscriber, publisher) = controller.close();
    assert!(subscriber.is_some() && publisher.is_some());
    assert!(!controller.sends_candidate());
}

#[test]
fn controller_errors_have_messages() {
    assert_eq!(
        PeerControllerError::ErrNoProducer.message(),
        "no producer exists for this peer"
    );
    assert_eq!(
        PeerControllerError::ErrNoConsumer.message(),
        "no consumer exists for this peer"
    );
    assert_eq!(PeerControllerError::ErrReceiverClosed.message(), "track receiver is closed");
    assert_eq!(
        PeerControllerError::ErrWebRTC("x".to_owned()).message(),
        "WebRTC error: x"
    );
    assert_eq!(
        PeerControllerError::ErrPeer(Error::ErrOfferIgnored).message(),
        "Peer error: offered ignored"
    );
}
