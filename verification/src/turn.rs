use regex::Regex;
use vstd::prelude::*;
use vstd::string::*;
use webrtc::turn::auth::generate_auth_key;

use crate::registry::Registry;

verus! {

// 4096 port range
pub const TURN_MIN_PORT: u16 = 32768;

pub const TURN_MAX_PORT: u16 = 36863;

/// How users of a TURN server are told apart.
pub struct TurnAuth {
    pub credentials: String,
    pub secret: Option<String>,
}

/// What a TURN server is configured with.
pub struct TurnConfig {
    pub enabled: bool,
    pub realm: String,
    pub address: String,
    pub cert: Option<String>,
    pub key: Option<String>,
    pub auth: TurnAuth,
    pub port_range: Option<Vec<u16>>,
}

/// How a realm spells a name and a password: two words with an equals sign between them.
pub const USER_PATTERN: &'static str = "(\\w+)=(\\w+)";

/// What the two groups of a pattern match in a text, match by match.
pub uninterp spec fn captures_in(pattern: Seq<char>, text: Seq<char>) -> Seq<
    (Seq<char>, Seq<char>),
>;

/// The names and passwords that a realm spells.
pub open spec fn users_in(realm: Seq<char>) -> Seq<(Seq<char>, Seq<char>)> {
    captures_in(USER_PATTERN@, realm)
}

/// The names and passwords in a list.
pub open spec fn pairs_of(list: Seq<(String, String)>) -> Seq<(Seq<char>, Seq<char>)> {
    list.map_values(|pair: (String, String)| (pair.0@, pair.1@))
}

/// Calls `captures_iter` of the `regex` that the pattern spells, which finds the matches that do not
/// overlap, from the left, and yields the text of the groups. Only the pattern [USER_PATTERN] is
/// admitted: it is well formed, and both of its groups take part in every match.
#[verifier::external_body]
fn find_captures(pattern: &str, text: &str) -> (found: Vec<(String, String)>)
    requires
        pattern@ == USER_PATTERN@,
    ensures
        pairs_of(found@) == captures_in(pattern@, text@),
{
    let re = Regex::new(pattern).unwrap();
    re.captures_iter(text).map(|caps| (caps[1].to_string(), caps[2].to_string())).collect()
}

/// The key of a user.
pub uninterp spec fn auth_key(
    username: Seq<char>,
    realm: Seq<char>,
    password: Seq<char>,
) -> Seq<u8>;

/// Calls `generate_auth_key` of `turn::auth`, which hashes the name, the realm and the password.
#[verifier::external_body]
fn make_auth_key(username: &str, realm: &str, password: &str) -> (key: Vec<u8>)
    ensures
        key@ == auth_key(username@, realm@, password@),
{
    generate_auth_key(username, realm, password)
}

/// The keys of the users. Where a name occurs twice, the last password counts.
pub open spec fn user_keys(pairs: Seq<(Seq<char>, Seq<char>)>, realm: Seq<char>) -> Map<
    Seq<char>,
    Seq<u8>,
>
    decreases pairs.len(),
{
    if pairs.len() == 0 {
        Map::empty()
    } else {
        let (name, password) = pairs.last();
        user_keys(pairs.drop_last(), realm).insert(name, auth_key(name, realm, password))
    }
}

/// Hands out the keys of known users.
pub struct CustomAuthHandler {
    pub users_map: Registry<Vec<u8>>,
}

/// Why a TURN server refuses a user.
#[derive(Debug, Eq, PartialEq, Clone, Copy, Structural)]
pub enum AuthError {
    ErrNilConn,
}

impl CustomAuthHandler {
    /// What every operation keeps.
    pub open spec fn wf(&self) -> bool {
        self.users_map.wf()
    }

    /// The keys of the users.
    pub open spec fn keys(&self) -> Map<Seq<char>, Seq<u8>> {
        self.users_map@.map_values(|key: Vec<u8>| key@)
    }

    /// Creates a handler for users with the given names and passwords.
    pub fn new(pairs: &Vec<(String, String)>, realm: &str) -> (handler: Self)
        ensures
            handler.wf(),
            handler.keys() == user_keys(pairs_of(pairs@), realm@),
    {
        let mut users_map: Registry<Vec<u8>> = Registry::new();
        let ghost all = pairs_of(pairs@);
        let ghost view = |key: Vec<u8>| key@;
        let mut i: usize = 0;
        proof {
            assert(all.take(0) =~= seq![]);
            assert(users_map@.map_values(view) =~= Map::<Seq<char>, Seq<u8>>::empty());
        }
        while i < pairs.len()
            invariant
                view == (|key: Vec<u8>| key@),
                all == pairs_of(pairs@),
                users_map.wf(),
                i <= pairs@.len(),
                users_map@.map_values(view) == user_keys(all.take(i as int), realm@),
            decreases pairs@.len() - i,
        {
            let ghost before = users_map@;
            let name = pairs[i].0.clone();
            let key = make_auth_key(name.as_str(), realm, pairs[i].1.as_str());
            let ghost made = key;
            let _before = users_map.insert(name, key);
            proof {
                assert(all.take(i + 1).drop_last() =~= all.take(i as int));
                assert(all.take(i + 1).last() == (pairs@[i as int].0@, pairs@[i as int].1@));
                assert(users_map@.map_values(view) =~= before.map_values(view).insert(
                    pairs@[i as int].0@,
                    made@,
                ));
            }
            i = i + 1;
        }
        assert(all.take(i as int) =~= all);
        CustomAuthHandler { users_map }
    }

    /// The key of a user.
    pub fn auth_handle(&self, username: &str) -> (res: core::result::Result<Vec<u8>, AuthError>)
        requires
            self.wf(),
        ensures
            if self.keys().contains_key(username@) {
                res matches Ok(key) && key@ == self.keys()[username@]
            } else {
                res == Err::<Vec<u8>, AuthError>(AuthError::ErrNilConn)
            },
    {
        match self.users_map.get(username) {
            Some(key) => Ok(crate::buffer::bytes::copy_range(key, 0, key.len())),
            None => Err(AuthError::ErrNilConn),
        }
    }
}

/// How the users of a TURN server are told apart.
pub enum TurnAuthMode {
    /// By a handler that was given.
    Given,
    /// By a secret that they share.
    Secret(String),
    /// By the names and passwords in the realm.
    Users(CustomAuthHandler),
}

/// What a TURN server is started with.
pub struct TurnSetup {
    pub auth: TurnAuthMode,
    pub min_port: u16,
    pub max_port: u16,
    /// The host part of the address, which packets are relayed from.
    pub relay_address: String,
}

/// The range of ports to relay from: the one of the configuration, where it names two ports.
pub open spec fn relay_ports(port_range: Option<Vec<u16>>) -> (u16, u16) {
    match port_range {
        Some(ports) if ports@.len() == 2 => (ports@[0], ports@[1]),
        _ => (TURN_MIN_PORT, TURN_MAX_PORT),
    }
}

/// What stands in front of the first colon.
pub open spec fn host_of(address: Seq<char>) -> Seq<char>
    decreases address.len(),
{
    if address.len() == 0 || address[0] == ':' {
        seq![]
    } else {
        seq![address[0]] + host_of(address.skip(1))
    }
}

fn host_part(address: &str) -> (host: String)
    ensures
        host@ == host_of(address@),
{
    let n: usize = address.unicode_len();
    let mut i: usize = 0;
    proof {
        assert(address@.skip(0) =~= address@);
        assert(address@.take(0) + host_of(address@) =~= host_of(address@));
    }
    while i < n && address.get_char(i) != ':'
        invariant
            i <= n == address@.len(),
            host_of(address@) == address@.take(i as int) + host_of(address@.skip(i as int)),
        decreases n - i,
    {
        proof {
            let rest = address@.skip(i as int);
            assert(rest.skip(1) =~= address@.skip(i + 1));
            assert(address@.take(i + 1) + host_of(address@.skip(i + 1)) =~= address@.take(i as int)
                + host_of(rest));
        }
        i = i + 1;
    }
    proof {
        assert(host_of(address@.skip(i as int)) =~= seq![]);
        assert(host_of(address@) =~= address@.take(i as int));
        assert(address@.subrange(0, i as int) =~= address@.take(i as int));
    }
    address.substring_char(0, i).to_owned()
}

/// Decides what a TURN server is started with, where `users` are the names and passwords that its
/// realm spells.
pub fn turn_setup_with(conf: &TurnConfig, has_auth: bool, users: &Vec<(String, String)>) -> (setup:
    TurnSetup)
    ensures
        (setup.min_port, setup.max_port) == relay_ports(conf.port_range),
        setup.relay_address@ == host_of(conf.address@),
        match setup.auth {
            TurnAuthMode::Given => has_auth,
            TurnAuthMode::Secret(secret) => !has_auth && (conf.auth.secret matches Some(shared)
                && shared@ == secret@),
            TurnAuthMode::Users(handler) => !has_auth && conf.auth.secret is None && handler.wf()
                && handler.keys() == user_keys(pairs_of(users@), conf.realm@),
        },
        tells_users_apart(setup.auth, *conf, has_auth, pairs_of(users@)),
{
    let auth = if has_auth {
        TurnAuthMode::Given
    } else {
        match &conf.auth.secret {
            Some(secret) => TurnAuthMode::Secret(secret.clone()),
            None => TurnAuthMode::Users(CustomAuthHandler::new(users, conf.realm.as_str())),
        }
    };
    let mut min_port: u16 = TURN_MIN_PORT;
    let mut max_port: u16 = TURN_MAX_PORT;
    if let Some(port_range) = &conf.port_range {
        if port_range.len() == 2 {
            min_port = port_range[0];
            max_port = port_range[1];
        }
    }
    TurnSetup { auth, min_port, max_port, relay_address: host_part(conf.address.as_str()) }
}

/// Decides what a TURN server is started with.
///
/// # Arguments
/// - `has_auth`: Whether a handler is given that tells the users apart.
pub fn init_turn_server(conf: &TurnConfig, has_auth: bool) -> (setup: TurnSetup)
    ensures
        (setup.min_port, setup.max_port) == relay_ports(conf.port_range),
        setup.relay_address@ == host_of(conf.address@),
        match setup.auth {
            TurnAuthMode::Given => has_auth,
            TurnAuthMode::Secret(secret) => !has_auth && (conf.auth.secret matches Some(shared)
                && shared@ == secret@),
            TurnAuthMode::Users(handler) => !has_auth && conf.auth.secret is None && handler.wf()
                && handler.keys() == user_keys(users_in(conf.realm@), conf.realm@),
        },
        tells_users_apart(setup.auth, *conf, has_auth, users_in(conf.realm@)),
{
    let users = find_captures(USER_PATTERN, conf.realm.as_str());
    turn_setup_with(conf, has_auth, &users)
}

/// Every user in the realm has a key, made of the last password that the realm spells for them.
pub proof fn law_last_password_counts(
    pairs: Seq<(Seq<char>, Seq<char>)>,
    realm: Seq<char>,
    i: int,
)
    requires
        0 <= i < pairs.len(),
        forall|k: int| i < k < pairs.len() ==> (#[trigger] pairs[k]).0 != pairs[i].0,
    ensures
        user_keys(pairs, realm).contains_key(pairs[i].0),
        user_keys(pairs, realm)[pairs[i].0] == auth_key(pairs[i].0, realm, pairs[i].1),
    decreases pairs.len(),
{
    if i < pairs.len() - 1 {
        let shorter = pairs.drop_last();
        assert(shorter[i] == pairs[i]);
        law_last_password_counts(shorter, realm, i);
        assert(pairs[pairs.len() - 1].0 != pairs[i].0);
    }
}

/// Whether the users are told apart as the configuration has it, where `pairs` are the names and
/// passwords that the realm spells.
pub open spec fn tells_users_apart(
    auth: TurnAuthMode,
    conf: TurnConfig,
    has_auth: bool,
    pairs: Seq<(Seq<char>, Seq<char>)>,
) -> bool {
    match auth {
        TurnAuthMode::Given => has_auth,
        TurnAuthMode::Secret(secret) => !has_auth && (conf.auth.secret matches Some(shared)
            && shared@ == secret@),
        TurnAuthMode::Users(handler) => !has_auth && conf.auth.secret is None && handler.wf()
            && handler.keys() == user_keys(pairs, conf.realm@),
    }
}

/// A handler that is given goes before a secret, and a secret before the users in the realm.
pub proof fn law_users_are_told_apart_in_one_way(
    auth: TurnAuthMode,
    conf: TurnConfig,
    has_auth: bool,
    pairs: Seq<(Seq<char>, Seq<char>)>,
)
    requires
        tells_users_apart(auth, conf, has_auth, pairs),
    ensures
        auth is Given <==> has_auth,
        auth is Secret <==> !has_auth && conf.auth.secret is Some,
        auth is Users <==> !has_auth && conf.auth.secret is None,
        auth matches TurnAuthMode::Secret(secret) ==> (conf.auth.secret matches Some(shared)
            && secret@ == shared@),
        auth matches TurnAuthMode::Users(handler) ==> forall|name: Seq<char>| #[trigger]
            handler.keys().contains_key(name) <==> exists|i: int|
                0 <= i < pairs.len() && (#[trigger] pairs[i]).0 == name,
{
    if let TurnAuthMode::Users(handler) = auth {
        assert forall|name: Seq<char>| #[trigger] handler.keys().contains_key(name)
            <==> exists|i: int| 0 <= i < pairs.len() && (#[trigger] pairs[i]).0 == name by {
            lemma_users_have_keys(pairs, conf.realm@, name);
        }
    }
}

/// The users that have a key are those in the realm.
proof fn lemma_users_have_keys(
    pairs: Seq<(Seq<char>, Seq<char>)>,
    realm: Seq<char>,
    name: Seq<char>,
)
    ensures
        user_keys(pairs, realm).contains_key(name) <==> exists|i: int|
            0 <= i < pairs.len() && (#[trigger] pairs[i]).0 == name,
    decreases pairs.len(),
{
    if pairs.len() > 0 {
        let rest = pairs.drop_last();
        lemma_users_have_keys(rest, realm, name);
        if user_keys(pairs, realm).contains_key(name) {
            if name == pairs.last().0 {
                assert(pairs[pairs.len() - 1].0 == name);
            } else {
                let i = choose|i: int| 0 <= i < rest.len() && (#[trigger] rest[i]).0 == name;
                assert(pairs[i].0 == name);
            }
        }
        if exists|i: int| 0 <= i < pairs.len() && (#[trigger] pairs[i]).0 == name {
            let i = choose|i: int| 0 <= i < pairs.len() && (#[trigger] pairs[i]).0 == name;
            if i < rest.len() {
                assert(rest[i].0 == name);
            }
        }
    }
}

/// The host is what stands in front of the first colon, or all where there is none.
pub proof fn law_host_ends_at_the_first_colon(address: Seq<char>)
    ensures
        host_of(address).len() <= address.len(),
        forall|i: int| 0 <= i < host_of(address).len() ==> #[trigger] host_of(address)[i] == address[i],
        forall|i: int| 0 <= i < host_of(address).len() ==> #[trigger] host_of(address)[i] != ':',
        host_of(address).len() < address.len() ==> address[host_of(address).len() as int] == ':',
    decreases address.len(),
{
    if address.len() > 0 && address[0] != ':' {
        let rest = address.skip(1);
        law_host_ends_at_the_first_colon(rest);
        assert forall|i: int| 0 <= i < host_of(address).len() implies #[trigger] host_of(address)[i]
            == address[i] && host_of(address)[i] != ':' by {
            if i > 0 {
                assert(host_of(address)[i] == host_of(rest)[i - 1]);
                assert(rest[i - 1] == address[i]);
            }
        }
    }
}

/// Packets are relayed from the ports that the configuration names, where it names two, and from a
/// range of 4096 ports else.
pub proof fn law_relay_ports_are_a_pair(port_range: Option<Vec<u16>>)
    ensures
        forall|ports: Vec<u16>|
            port_range == Some(ports) && ports@.len() == 2 ==> #[trigger] relay_ports(Some(ports))
                == (ports@[0], ports@[1]),
        (port_range matches Some(ports) ==> ports@.len() != 2) ==> relay_ports(port_range).0 == 32768
            && relay_ports(port_range).1 - relay_ports(port_range).0 + 1 == 4096,
{
}

} // verus!
