use volcano::turn::{
    init_turn_server, turn_setup_with, AuthError, CustomAuthHandler, TurnAuth, TurnAuthMode,
    TurnConfig, TURN_MAX_PORT, TURN_MIN_PORT,
};
use webrtc::turn::auth::generate_auth_key;

fn config(realm: &str, secret: Option<&str>, ports: Option<Vec<u16>>) -> TurnConfig {
    TurnConfig {
        enabled: true,
        realm: realm.to_owned(),
        address: "127.0.0.1:3478".to_owned(),
        cert: None,
        key: None,
        auth: TurnAuth { credentials: String::new(), secret: secret.map(|s| s.to_owned()) },
        port_range: ports,
    }
}

#[test]
fn users_are_read_from_the_realm() {
    let setup = init_turn_server(&config("alice=one, bob=two alice=three", None, None), false);
    assert_eq!((setup.min_port, setup.max_port), (TURN_MIN_PORT, TURN_MAX_PORT));
    assert_eq!(setup.relay_address, "127.0.0.1");
    let handler = match setup.auth {
        TurnAuthMode::Users(handler) => handler,
        _ => panic!("users were expected"),
    };
    let realm = "alice=one, bob=two alice=three";
    assert_eq!(handler.auth_handle("alice"), Ok(generate_auth_key("alice", realm, "three")));
    assert_eq!(handler.auth_handle("bob"), Ok(generate_auth_key("bob", realm, "two")));
    assert_eq!(handler.auth_handle("carol"), Err(AuthError::ErrNilConn));
}

#[test]
fn secrets_and_given_handlers_come_first() {
    let setup = init_turn_server(&config("a=b", Some("secret"), Some(vec![1, 2])), false);
    assert_eq!((setup.min_port, setup.max_port), (1, 2));
    assert!(matches!(setup.auth, TurnAuthMode::Secret(ref secret) if secret == "secret"));
    let setup = init_turn_server(&config("a=b", Some("secret"), Some(vec![1])), true);
    assert!(matches!(setup.auth, TurnAuthMode::Given));
    assert_eq!((setup.min_port, setup.max_port), (TURN_MIN_PORT, TURN_MAX_PORT));
}

#[test]
fn users_can_be_given() {
    let users = vec![("dave".to_owned(), "four".to_owned())];
    let handler = CustomAuthHandler::new(&users, "realm");
    assert_eq!(handler.auth_handle("dave"), Ok(generate_auth_key("dave", "realm", "four")));
    let setup = turn_setup_with(&config("realm", None, None), false, &users);
    assert!(matches!(setup.auth, TurnAuthMode::Users(_)));
}
