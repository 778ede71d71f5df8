use volcano::reference::ReferenceDb;
use volcano::registry::Registry;
use volcano::rtc::room::{
    channel_offer_options, fanout_message, get_data_channels, ChannelAdded, Fanout, FoundChannel,
};
use volcano::session::room::{Room, RoomEvent};

fn room() -> Room {
    Room::new("room".to_owned())
}

fn names(peers: Vec<(String, u64)>) -> Vec<String> {
    let mut names: Vec<String> = peers.into_iter().map(|peer| peer.0).collect();
    names.sort();
    names
}

#[test]
fn values_are_found_by_their_names() {
    let mut registry: Registry<u32> = Registry::new();
    assert!(registry.is_empty());
    assert_eq!(registry.insert("a".to_owned(), 1), None);
    assert_eq!(registry.insert("b".to_owned(), 2), None);
    assert_eq!(registry.insert("a".to_owned(), 3), Some(1));
    assert_eq!(registry.len(), 2);
    assert_eq!(registry.get("a"), Some(&3));
    assert_eq!(registry.get("c"), None);
    *registry.get_mut("b").unwrap() = 4;
    assert_eq!(registry.remove("b"), Some(4));
    assert_eq!(registry.remove("b"), None);
    assert!(!registry.contains("b"));
    assert_eq!(registry.at(0), (&"a".to_owned(), &3));
}

#[test]
fn only_the_second_user_is_announced() {
    let mut room = room();
    assert!(room.is_empty());
    assert!(room.add_user("alice".to_owned()).is_none());
    match room.add_user("bob".to_owned()) {
        Some(RoomEvent::UserJoined { room_id, uid }) => {
            assert_eq!(room_id, "room");
            assert_eq!(uid, "bob");
        }
        _ => panic!("bob was to be announced"),
    }
    assert!(room.in_room("alice"));
    assert!(!room.in_room("carol"));
    let mut ids = room.get_user_ids();
    ids.sort();
    assert_eq!(ids, vec!["alice".to_owned(), "bob".to_owned()]);
}

#[test]
fn tracks_belong_to_streams() {
    let mut room = room();
    room.add_user("alice".to_owned());
    room.add_user_track("alice".to_owned(), "s".to_owned(), "t1".to_owned(), true);
    let event = room.add_user_track("alice".to_owned(), "s".to_owned(), "t2".to_owned(), false);
    match event {
        RoomEvent::TrackAdded { room_id, uid, track, stream } => {
            assert_eq!((room_id.as_str(), uid.as_str(), track.as_str()), ("room", "alice", "t2"));
            assert_eq!(stream.id, "s");
            assert_eq!(stream.tracks, vec!["t1".to_owned(), "t2".to_owned()]);
            assert!(stream.simulcast);
        }
        _ => panic!("the track was to be announced"),
    }
    // Somebody who was not in the room is put into it
    room.add_user_track("bob".to_owned(), "z".to_owned(), "t3".to_owned(), false);
    assert!(room.in_room("bob"));
    let info = room.get_room_info();
    assert_eq!(info.id, "room");
    assert_eq!(info.users.len(), 2);
}

#[test]
fn leaving_takes_the_tracks_along() {
    let mut room = room();
    room.add_user("alice".to_owned());
    room.add_user("bob".to_owned());
    room.add_user_track("alice".to_owned(), "s".to_owned(), "t1".to_owned(), false);
    room.add_track("t1".to_owned(), 11);
    room.add_track("t2".to_owned(), 22);
    match room.remove_user("alice") {
        Some(RoomEvent::UserLeft { room_id, uid }) => {
            assert_eq!((room_id.as_str(), uid.as_str()), ("room", "alice"));
        }
        _ => panic!("bob was to hear of it"),
    }
    assert_eq!(room.get_track("t1"), None);
    assert_eq!(room.get_track("t2"), Some(22));
    assert!(matches!(
        room.remove_track("t2".to_owned()),
        RoomEvent::TracksRemoved { ref removed_tracks, .. } if removed_tracks[0] == "t2"
    ));
    assert_eq!(room.get_track("t2"), None);
    assert!(room.remove_user("bob").is_none());
    assert!(room.is_empty());
    room.close();
    assert!(room.is_closed());
}

#[test]
fn peers_hear_of_the_others() {
    let mut room = room();
    room.add_peer("a".to_owned(), 1);
    room.add_peer("b".to_owned(), 2);
    room.add_peer("c".to_owned(), 3);
    assert_eq!(room.get_peer("b"), Some(2));
    assert_eq!(names(room.other_peers("b")), vec!["a".to_owned(), "c".to_owned()]);
    assert_eq!(names(room.subscribe_peer("a")), vec!["b".to_owned(), "c".to_owned()]);
    assert_eq!(names(room.publish_track("c")), vec!["a".to_owned(), "b".to_owned()]);
    assert_eq!(names(room.fanout_peers("a")), vec!["b".to_owned(), "c".to_owned()]);
    assert_eq!(room.send_to_subscribers().len(), 3);
    assert_eq!(room.remove_peer("b"), (Some(2), 2));
    assert_eq!(room.remove_peer("b"), (None, 2));
}

#[test]
fn data_channels_are_created_once() {
    let mut room = room();
    room.add_peer("a".to_owned(), 1);
    room.add_peer("b".to_owned(), 2);
    match room.add_data_channel("a", "chat".to_owned()) {
        ChannelAdded::Create { peers } => assert_eq!(names(peers), vec!["b".to_owned()]),
        _ => panic!("the channel was to be created"),
    }
    assert!(matches!(room.add_data_channel("b", "chat".to_owned()), ChannelAdded::Listen));
    assert!(room.get_data_channel_middlewares().is_empty());
    let found = vec![
        FoundChannel { channel: Some(1), open: true },
        FoundChannel { channel: Some(2), open: false },
        FoundChannel { channel: None, open: true },
        FoundChannel { channel: Some(4), open: true },
    ];
    assert_eq!(get_data_channels(&found), vec![1, 4]);
    assert!(channel_offer_options().ice_restart);
    assert!(channel_offer_options().voice_activity_detection);
}

#[test]
fn messages_are_fanned_out() {
    assert!(matches!(
        fanout_message("gr\u{fc}n".as_bytes(), true),
        Fanout::Text(ref text) if text == "gr\u{fc}n"
    ));
    assert!(matches!(fanout_message(b"abc", false), Fanout::Binary));
}

#[test]
fn rooms_are_created_once() {
    let mut db = ReferenceDb::default();
    assert!(db.fetch_room("a").is_none());
    db.fetch_or_create_room("a");
    db.rooms.get_mut("a").unwrap().add_user("alice".to_owned());
    db.fetch_or_create_room("b");
    db.fetch_or_create_room("a");
    assert!(db.fetch_room("a").unwrap().in_room("alice"));
    let infos = db.fetch_available_rooms(&vec!["b".to_owned(), "c".to_owned(), "a".to_owned()]);
    assert_eq!(infos.len(), 2);
    assert_eq!(infos[0].id, "b");
    assert_eq!(infos[1].id, "a");
    assert_eq!(infos[1].users[0].0, "alice");
}
