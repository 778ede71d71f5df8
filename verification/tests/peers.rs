use volcano::packet::params::{
    RTCRtpCodecCapability, RTCRtpCodecParameters, RTCRtpParameters, RTPCodecType,
};
use volcano::peer::answer::{answer_step, AnswerAction, AnswerEvent};
use volcano::peer::api::{describe_sources, header_extensions, process_remote_media};
use volcano::peer::error::Error;
use volcano::peer::ice::{CandidateQueue, RTCIceCandidateInit};
use volcano::peer::negotiation::{Negotiation, NegotiationStep, RTCOfferOptions};
use volcano::peer::streams::{StreamTracks, TrackRef};
use volcano::peer::subscriber::{
    IceConnectionState, LocalTrack, SendError, Subscriber, Unsubscribe,
};
use volcano::rtc;
use volcano::rtc::config::RouterConfig;
use volcano::rtc::message::RemoteMedia;
use volcano::rtc::peer::negotiation::{DescribedStep, NegotiationState, SdpStep, SdpType};
use volcano::rtc::peer::peer::{JoinConfig, Peer, PeerJoinStep};
use volcano::rtc::peer::publisher::{ChannelOpened, Publisher};
use volcano::rtc::peer::pubsub::{JoinStep, PeerConfig, PubSubPeer, PUBLISHER, SUBSCRIBER};
use volcano::session::room::{Room, RoomEvent};
use volcano::track::downtrack::{DownTrack, DownTrackType};
use volcano::track::error::Error as TrackError;
use volcano::track::router::RemoteTrack;

fn candidate(text: &str) -> RTCIceCandidateInit {
    RTCIceCandidateInit {
        candidate: text.to_owned(),
        sdp_mid: None,
        sdp_mline_index: None,
        username_fragment: None,
    }
}

fn sdp(version: u64) -> String {
    format!("v=0\r\no=- 1 {version} IN IP4 127.0.0.1\r\ns=-\r\nt=0 0\r\n")
}

fn capability(mime: &str) -> RTCRtpCodecCapability {
    RTCRtpCodecCapability {
        mime_type: mime.to_owned(),
        clock_rate: 90_000,
        channels: 0,
        sdp_fmtp_line: String::new(),
        rtcp_feedback: vec![],
    }
}

fn codec(mime: &str) -> RTCRtpCodecParameters {
    RTCRtpCodecParameters { capability: capability(mime), payload_type: 96 }
}

fn track(id: &str, mime: &str) -> DownTrack {
    DownTrack::new(
        capability(mime),
        id.to_owned(),
        String::new(),
        "stream".to_owned(),
        "cname".to_owned(),
        100,
        0,
    )
}

fn media(video: &str, frame_rate: &str, layers: Option<Vec<String>>) -> RemoteMedia {
    RemoteMedia {
        stream_id: "stream".to_owned(),
        video: video.to_owned(),
        frame_rate: frame_rate.to_owned(),
        audio: false,
        layers,
    }
}

fn remote_track(id: &str) -> RemoteTrack {
    RemoteTrack {
        id: id.to_owned(),
        rid: String::new(),
        stream_id: "stream".to_owned(),
        ssrc: 5,
        kind: RTPCodecType::Video,
        codec: codec("video/VP8"),
    }
}

fn agreed() -> RTCRtpParameters {
    RTCRtpParameters { header_extensions: vec![], codecs: vec![codec("video/VP8")] }
}

#[test]
fn create_subscriber_data_channel() {
    let id = "test".to_owned();
    let mut subscriber = Subscriber::new(id, 0);
    let (dc, existing) = subscriber.create_data_channel("testchannel".to_owned(), 1);
    assert!(dc.label.eq("testchannel"), "label should be \"testchannel\"");
    assert_eq!(existing, None);
    assert_eq!(subscriber.data_channel("testchannel"), Some(1));
    let (_, existing) = subscriber.create_data_channel("testchannel".to_owned(), 2);
    assert_eq!(existing, Some(1));
    assert_eq!(subscriber.remove_data_channel("testchannel"), Some(2));
    assert_eq!(subscriber.data_channel("testchannel"), None);
}

#[test]
fn one_offer_at_a_time() {
    let mut negotiation = Negotiation::new();
    assert_eq!(negotiation.negotiate(None), NegotiationStep::CreateOffer(None));
    negotiation.offer_created();
    let options = RTCOfferOptions { voice_activity_detection: false, ice_restart: true };
    assert_eq!(negotiation.negotiate(Some(options)), NegotiationStep::Nothing);
    // The request that was put off is not lost
    assert!(matches!(negotiation.answered(), NegotiationStep::CreateOffer(_)));
    assert_eq!(negotiation.answered(), NegotiationStep::Nothing);
}

#[test]
fn offers_are_answered_step_by_step() {
    let mut queue = CandidateQueue::new();
    assert!(queue.add_ice_candidate(candidate("one"), false).is_none());
    assert!(queue.add_ice_candidate(candidate("two"), true).is_some());
    let refused = AnswerEvent::Offered { connected: false, stable: true, sdp: sdp(1) };
    assert!(matches!(
        answer_step(&mut queue, refused),
        AnswerAction::Fail(Error::ErrNoTransportEstablished)
    ));
    let ignored = AnswerEvent::Offered { connected: true, stable: false, sdp: sdp(1) };
    assert!(matches!(
        answer_step(&mut queue, ignored),
        AnswerAction::Fail(Error::ErrOfferIgnored)
    ));
    let offered = AnswerEvent::Offered { connected: true, stable: true, sdp: sdp(1) };
    assert!(matches!(
        answer_step(&mut queue, offered),
        AnswerAction::SetRemoteDescription(ref text) if *text == sdp(1)
    ));
    match answer_step(&mut queue, AnswerEvent::RemoteSet(Ok(()))) {
        AnswerAction::AddCandidates(list) => {
            assert_eq!(list.len(), 1);
            assert_eq!(list[0].candidate, "one");
        }
        _ => panic!("candidates were to be added"),
    }
    let failed = AnswerEvent::AnswerCreated(Err("broken".to_owned()));
    assert!(matches!(
        answer_step(&mut queue, failed),
        AnswerAction::Fail(Error::ErrRTC(ref reason)) if reason == "broken"
    ));
    assert_eq!(queue.waiting.len(), 1);
    assert!(matches!(
        answer_step(&mut queue, AnswerEvent::AnswerCreated(Ok("a".to_owned()))),
        AnswerAction::SetLocalDescription(_)
    ));
    assert!(matches!(
        answer_step(&mut queue, AnswerEvent::LocalSet(Ok("a".to_owned()))),
        AnswerAction::Reply(_)
    ));
    assert!(queue.waiting.is_empty());
}

#[test]
fn peer_errors_have_messages() {
    assert_eq!(
        Error::ErrNoTransportEstablished.message(),
        "no rtc transport exists for this peer"
    );
    assert_eq!(Error::ErrOfferIgnored.message(), "offered ignored");
    assert_eq!(Error::ErrRTC("x".to_owned()).message(), "WebRTC error: x");
    assert_eq!(
        Error::ErrTrack(TrackError::ReceiverClosed).message(),
        "Track error: receiver is closed"
    );
}

#[test]
fn subscribers_know_their_tracks() {
    let mut subscriber = Subscriber::new("sub".to_owned(), 3);
    assert_eq!(subscriber.id(), "sub");
    assert_eq!(subscriber.api_channel(), 3);
    let local = |number: u64, transceiver: Option<u64>| LocalTrack {
        number,
        stream_id: "s".to_owned(),
        transceiver,
    };
    subscriber.add_down_track("a".to_owned(), local(1, Some(9)));
    subscriber.add_down_track("b".to_owned(), local(2, None));
    assert_eq!(subscriber.down_track_by_id("a").unwrap().number, 1);
    assert_eq!(subscriber.get_tracks_by_stream("s"), vec![1, 2]);
    assert!(subscriber.get_tracks_by_stream("t").is_empty());
    assert!(matches!(subscriber.unsubscribe_track("a", true), Unsubscribe::Nothing));
    assert!(matches!(subscriber.unsubscribe_track("a", false), Unsubscribe::RemoveSender(9)));
    assert!(subscriber.down_track_by_id("a").is_none());
    subscriber.remove_down_track("b", "s");
    assert!(subscriber.get_tracks_by_stream("s").is_empty());
    assert!(matches!(subscriber.sender_removed(), NegotiationStep::CreateOffer(_)));
}

#[test]
fn subscribers_note_the_version_of_their_offer() {
    let mut subscriber = Subscriber::new("sub".to_owned(), 3);
    assert!(!subscriber.offer_created(&sdp(42)));
    assert_eq!(subscriber.session_version(), 42);
    subscriber.on_offer();
    assert!(subscriber.offer_created("no description"));
    assert_eq!(subscriber.session_version(), 42);
    subscriber.add_ice_candidate(candidate("one"), false);
    let (candidates, _) = subscriber.on_remote_answer();
    assert_eq!(candidates.len(), 1);
    assert!(subscriber.set_remote_description().is_empty());
    assert!(matches!(subscriber.send_message(), Err(SendError::ErrClosedPipe)));
    subscriber.set_api_channel_open(true);
    assert!(subscriber.send_message().is_ok());
    assert!(subscriber.on_ice_connection_state_change(IceConnectionState::Failed));
    assert!(!subscriber.on_ice_connection_state_change(IceConnectionState::Closed));
}

#[test]
fn tracks_are_kept_by_stream() {
    let mut tracks = StreamTracks::new();
    let a = |number: u64| TrackRef { id: "a".to_owned(), number };
    tracks.push("s".to_owned(), a(1));
    assert_eq!(tracks.find("s", "a"), Some(1));
    assert_eq!(tracks.find("s", "b"), None);
    assert_eq!(tracks.get_tracks("s").unwrap().len(), 1);
    tracks.remove_down_track("s", "a");
    assert_eq!(tracks.find("s", "a"), None);
}

#[test]
fn clients_choose_their_media() {
    let mut simulcast = track("v", "video/VP8");
    simulcast.set_track_type(DownTrackType::SimulcastDownTrack);
    simulcast.set_max_spatial_layer(2);
    simulcast.set_max_temporal_layer(3);
    let mut tracks = vec![simulcast, track("a", "audio/opus")];
    process_remote_media(&media("high", "high", None), &mut tracks);
    assert_eq!(tracks[0].target_spatial_layer, 2);
    assert!(!tracks[1].down_track_local.enabled);
    process_remote_media(&media("none", "high", None), &mut tracks);
    assert!(!tracks[0].down_track_local.enabled);
    let uris = header_extensions(RTPCodecType::Audio);
    assert!(uris.contains(&"urn:ietf:params:rtp-hdrext:sdes:mid".to_owned()));
    assert!(describe_sources(&vec![&tracks[0]]).is_none());
    tracks[0].down_track_local.bind(7, &vec![codec("video/VP8")]).ok();
    let chunks = describe_sources(&vec![&tracks[0], &tracks[1]]).unwrap();
    assert_eq!(chunks.len(), 1);
    assert_eq!(chunks[0].source, 7);
}

#[test]
fn older_candidates_are_forgotten() {
    let mut publisher =
        Publisher::new("pub".to_owned(), "room".to_owned(), RouterConfig::default());
    publisher.add_ice_candidate(candidate("one"), false);
    assert!(matches!(
        publisher.answer(Some(sdp(2)), sdp(2)),
        AnswerAction::SetRemoteDescription(_)
    ));
    assert_eq!(publisher.session_version(), 2);
    assert_eq!(publisher.candidates.waiting.len(), 1);
    publisher.answer(Some(sdp(2)), sdp(3));
    assert!(publisher.candidates.waiting.is_empty());
    assert!(matches!(
        publisher.answer_step(AnswerEvent::LocalSet(Ok("a".to_owned()))),
        AnswerAction::Reply(_)
    ));
}

#[test]
fn published_tracks_are_announced() {
    let mut publisher =
        Publisher::new("pub".to_owned(), "room".to_owned(), RouterConfig::default());
    let mut room = Room::new("room".to_owned());
    room.add_user("pub".to_owned());
    room.add_peer("pub".to_owned(), 1);
    room.add_peer("other".to_owned(), 2);
    let received = vec![("t".to_owned(), String::new())];
    let published =
        publisher.on_track_in_room(&mut room, remote_track("t"), &received, &agreed(), 0);
    assert!(published.added.published);
    assert_eq!(published.publish_to.len(), 1);
    assert_eq!(published.publish_to[0].0, "other");
    assert_eq!(published.events.len(), 1);
    assert!(matches!(published.events[0], RoomEvent::TrackAdded { .. }));
    assert_eq!(publisher.get_tracks(), vec!["t".to_owned()]);
    assert!(matches!(publisher.on_data_channel("System"), ChannelOpened::Ignore));
    assert!(matches!(publisher.on_data_channel("chat"), ChannelOpened::AddToRoom));
    publisher.on_ice_connection_state_change();
    let change = publisher.state_changed(IceConnectionState::Failed);
    assert!(change.tells && change.closes);
    publisher.close();
    let change = publisher.state_changed(IceConnectionState::Connected);
    assert!(!change.tells && !change.closes);
}

#[test]
fn peers_join_with_what_they_want() {
    let mut peer = PubSubPeer::new("peer".to_owned());
    let both = PeerConfig::default();
    assert_eq!(
        peer.join("room".to_owned(), &both),
        vec![JoinStep::CreatePublisher, JoinStep::AddPeer, JoinStep::AddUser]
    );
    let listens = PeerConfig { no_publish: true, ..both };
    assert_eq!(
        peer.join("room".to_owned(), &listens),
        vec![JoinStep::AddPeer, JoinStep::AddUser]
    );
    assert_eq!(peer.room, Some("room".to_owned()));

    let mut peer = Peer::new("peer".to_owned());
    let steps = peer.join("room".to_owned(), JoinConfig::default(), &vec!["chat".to_owned()]);
    assert_eq!(steps.len(), 7);
    assert!(matches!(steps[0], PeerJoinStep::CreateSubscriber { no_auto_subscribe: false }));
    assert!(matches!(steps[1], PeerJoinStep::AddDataChannel(ref label) if label == "chat"));
    assert!(matches!(steps[2], PeerJoinStep::CreateOffer));
    assert!(matches!(steps[3], PeerJoinStep::CreatePublisher));
    assert!(matches!(steps[6], PeerJoinStep::Subscribe));
}

#[test]
fn candidates_trickle_to_their_side() {
    let mut peer = PubSubPeer::new("peer".to_owned());
    assert!(peer.trickle(candidate("one"), PUBLISHER, true).is_err());
    let publisher = Publisher::new("peer".to_owned(), "room".to_owned(), RouterConfig::default());
    peer.set_publisher(publisher);
    // Both sides are needed
    assert!(matches!(
        peer.trickle(candidate("one"), PUBLISHER, true),
        Err(TrackError::ErrNoTransportEstablished)
    ));
    let subscriber = rtc::peer::subscriber::Subscriber::new("peer".to_owned(), 1);
    peer.setup_subscriber(subscriber, &PeerConfig::default());
    let trickled = peer.trickle(candidate("one"), PUBLISHER, true).ok().unwrap().unwrap();
    assert_eq!(trickled.target, PUBLISHER);
    assert!(peer.trickle(candidate("two"), PUBLISHER, false).ok().unwrap().is_none());
    assert!(peer.trickle(candidate("two"), SUBSCRIBER, false).ok().unwrap().is_none());
    assert!(peer.trickle(candidate("two"), 9, true).ok().unwrap().is_none());
    let (candidates, _) = peer.set_remote_description().ok().unwrap();
    assert_eq!(candidates.len(), 1);
    assert!(peer.answer(None, true, sdp(1)).is_ok());
    assert!(matches!(peer.answer(None, false, sdp(1)), Err(TrackError::ErrOfferIgnored)));
    let (subscriber, publisher) = peer.clean_up();
    assert!(subscriber.is_some() && publisher.is_some());
    assert!(peer.subscriber.is_none() && peer.publisher.is_none());
}

#[test]
fn the_server_is_impolite() {
    let mut state = NegotiationState::default();
    state.making_offer = true;
    assert_eq!(state.consume_sdp(SdpType::Offer, true), SdpStep::Ignore);
    assert!(state.ignore_offer);
    assert!(!state.consume_ice(false));
    assert_eq!(state.consume_sdp(SdpType::Answer, false), SdpStep::SetRemoteDescription);
    assert!(state.is_setting_remote_answer_pending);
    assert_eq!(state.remote_described(SdpType::Answer), DescribedStep::Nothing);
    assert!(state.consume_ice(false));
    state.making_offer = false;
    assert_eq!(state.consume_sdp(SdpType::Offer, true), SdpStep::SetRemoteDescription);
    assert_eq!(state.remote_described(SdpType::Offer), DescribedStep::CreateAnswer);
}

#[test]
fn lost_channels_are_opened_again_once() {
    let mut subscriber = rtc::peer::subscriber::Subscriber::new("sub".to_owned(), 1);
    assert!(!subscriber.send_message());
    subscriber.set_api_channel_open(true);
    assert!(subscriber.send_message());
    assert!(subscriber.send_failed(rtc::peer::subscriber::SendFailure::NotOpen));
    assert!(!subscriber.send_failed(rtc::peer::subscriber::SendFailure::Other));
    subscriber.renegotiated();
    assert!(!subscriber.send_failed(rtc::peer::subscriber::SendFailure::NotOpen));
    assert!(subscriber.renegotiate(true).is_none());
    subscriber.register_on_renegotiate();
    assert!(subscriber.on_renegotiate);
    assert!(subscriber.renegotiate(true).is_none());
    subscriber.register_on_negotiate();
    assert!(subscriber.renegotiate(true).unwrap().unwrap().ice_restart);
    assert_eq!(subscriber.create_data_channel("chat".to_owned(), 4), 4);
    assert_eq!(subscriber.data_channel("chat"), Some(4));
}
