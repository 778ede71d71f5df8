use vstd::prelude::*;
use webrtc::ice::network_type::{supported_network_types, NetworkType as IceNetworkType};

use crate::text::{clone_all, same, views};

verus! {

// 4096 port range
pub const ICE_MIN_PORT: u16 = 36864;

pub const ICE_MAX_PORT: u16 = 40959;

/// A server that helps to find a way between two peers.
pub struct ICEServerConfig {
    pub urls: Vec<String>,
    pub username: String,
    pub credential: String,
}

/// What an ICE server is known by.
pub ghost struct IceServer {
    pub urls: Seq<Seq<char>>,
    pub username: Seq<char>,
    pub credential: Seq<char>,
}

impl View for ICEServerConfig {
    type V = IceServer;

    open spec fn view(&self) -> IceServer {
        IceServer {
            urls: views(self.urls@),
            username: self.username@,
            credential: self.credential@,
        }
    }
}

/// The servers in a list.
pub open spec fn servers_of(list: Seq<ICEServerConfig>) -> Seq<IceServer> {
    list.map_values(|server: ICEServerConfig| server@)
}

/// Which candidates are offered.
pub struct Candidates {
    pub ice_lite: Option<bool>,
    pub nat1_to_1ips: Option<Vec<String>>,
    pub disable_ipv4: bool,
    pub disable_ipv6: bool,
}

#[derive(Debug, Eq, PartialEq, Clone, Copy, Structural)]
pub enum PortMap {
    /// Single port used for UDP Mux network
    Single(u16),
    // Port range used for UDP Ephemeral network
    Range(u16, u16),
}

impl Default for PortMap {
    fn default() -> (port_map: Self)
        ensures
            port_map == PortMap::Single(0),
    {
        Self::Single(0)
    }
}

/// Timeouts in seconds.
#[derive(Debug, Eq, PartialEq, Clone, Copy, Structural)]
pub struct WebRTCTimeoutsConfig {
    pub ice_disconnected_timeout: i32,
    pub ice_failed_timeout: i32,
    pub ice_keepalive_interval: i32,
}

pub struct WebRTCConfig {
    pub single_port: Option<u16>,
    pub ice_port_range: Option<Vec<u16>>,
    pub ice_servers: Option<Vec<ICEServerConfig>>,
    pub candidates: Candidates,
    pub sdp_semantics: String,
    pub mdns: bool,
    pub timeouts: WebRTCTimeoutsConfig,
}

#[derive(Debug, Eq, PartialEq, Clone, Copy, Structural)]
pub struct SimulcastConfig {
    pub best_quality_first: bool,
}

impl Default for SimulcastConfig {
    fn default() -> (config: Self)
        ensures
            !config.best_quality_first,
    {
        SimulcastConfig { best_quality_first: false }
    }
}

#[derive(Debug, Eq, PartialEq, Clone, Copy, Structural)]
pub struct RouterConfig {
    pub with_stats: bool,
    pub max_bandwidth: u64,
    pub max_packet_track: u32,
    pub audio_level_interval: i32,
    pub audio_level_threshold: u8,
    pub audio_level_filter: i32,
    pub simulcast: SimulcastConfig,
}

impl Default for RouterConfig {
    fn default() -> (config: Self)
        ensures
            config == (RouterConfig {
                with_stats: false,
                max_bandwidth: 0,
                max_packet_track: 0,
                audio_level_interval: 0,
                audio_level_threshold: 0,
                audio_level_filter: 0,
                simulcast: SimulcastConfig { best_quality_first: false },
            }),
    {
        RouterConfig {
            with_stats: false,
            max_bandwidth: 0,
            max_packet_track: 0,
            audio_level_interval: 0,
            audio_level_threshold: 0,
            audio_level_filter: 0,
            simulcast: SimulcastConfig { best_quality_first: false },
        }
    }
}

/// What a server is configured with.
pub struct Config {
    pub router: RouterConfig,
    pub webrtc: WebRTCConfig,
    /// Whether a TURN server is asked for.
    pub turn_enabled: bool,
}

/// How a session is described.
#[derive(Debug, Eq, PartialEq, Clone, Copy, Structural)]
pub enum SdpSemantics {
    UnifiedPlan,
    UnifiedPlanWithFallback,
    PlanB,
}

/// A kind of network that candidates are found in.
#[derive(Debug, Eq, PartialEq, Clone, Copy, Structural)]
pub enum NetworkType {
    Unspecified,
    Udp4,
    Udp6,
    Tcp4,
    Tcp6,
}

/// Timeouts in seconds: until a peer counts as disconnected, until it counts as failed, and between
/// two signs of life.
#[derive(Debug, Eq, PartialEq, Clone, Copy, Structural)]
pub struct IceTimeouts {
    pub disconnected: u64,
    pub failed: u64,
    pub keepalive: u64,
}

/// What the peer connections of a server are set up with.
pub struct WebRTCTransportConfig {
    pub ice_servers: Vec<ICEServerConfig>,
    pub ice_lite: bool,
    pub sdp_semantics: SdpSemantics,
    /// None leaves the timeouts as they are by default.
    pub timeouts: Option<IceTimeouts>,
    /// Addresses to offer for the host, if there are any.
    pub nat_1to1_ips: Option<Vec<String>>,
    /// Whether names of the local network are not resolved.
    pub mdns_disabled: bool,
    pub network_types: Vec<NetworkType>,
    pub router: RouterConfig,
    pub port_map: PortMap,
}

/// The port, or the range of ports, to use. A single port goes first.
pub open spec fn port_map_of(c: WebRTCConfig) -> Option<PortMap> {
    match c.single_port {
        Some(port) => Some(PortMap::Single(port)),
        None => match c.ice_port_range {
            Some(ports) if ports@.len() > 1 => Some(PortMap::Range(ports@[0], ports@[1])),
            _ => None,
        },
    }
}

/// How a session is described, by name.
pub open spec fn semantics_of(name: Seq<char>) -> SdpSemantics {
    if name == "unified-plan-with-fallback"@ {
        SdpSemantics::UnifiedPlanWithFallback
    } else if name == "plan-b"@ {
        SdpSemantics::PlanB
    } else {
        SdpSemantics::UnifiedPlan
    }
}

/// The timeouts to set, unless all are 0. A negative one wraps around.
pub open spec fn timeouts_of(t: WebRTCTimeoutsConfig) -> Option<IceTimeouts> {
    if t.ice_disconnected_timeout == 0 && t.ice_failed_timeout == 0 && t.ice_keepalive_interval
        == 0 {
        None
    } else {
        Some(
            IceTimeouts {
                disconnected: t.ice_disconnected_timeout as u64,
                failed: t.ice_failed_timeout as u64,
                keepalive: t.ice_keepalive_interval as u64,
            },
        )
    }
}

/// The networks that candidates are found in.
pub open spec fn networks_of(candidates: Candidates) -> Seq<NetworkType> {
    if candidates.disable_ipv6 {
        seq![NetworkType::Tcp4, NetworkType::Udp4]
    } else if candidates.disable_ipv4 {
        seq![NetworkType::Tcp6, NetworkType::Udp6]
    } else {
        udp_networks()
    }
}

/// UDP over IPv4 and over IPv6.
pub open spec fn udp_networks() -> Seq<NetworkType> {
    seq![NetworkType::Udp4, NetworkType::Udp6]
}

/// Calls `supported_network_types` of `webrtc::ice::network_type`, which lists UDP over IPv4 and
/// over IPv6.
#[verifier::external_body]
fn supported_networks() -> (networks: Vec<NetworkType>)
    ensures
        networks@ == udp_networks(),
{
    let own = |network: IceNetworkType| match network {
        IceNetworkType::Unspecified => NetworkType::Unspecified,
        IceNetworkType::Udp4 => NetworkType::Udp4,
        IceNetworkType::Udp6 => NetworkType::Udp6,
        IceNetworkType::Tcp4 => NetworkType::Tcp4,
        IceNetworkType::Tcp6 => NetworkType::Tcp6,
    };
    supported_network_types().into_iter().map(own).collect()
}

impl WebRTCConfig {
    /// The port, or the range of ports, to use, if the configuration names one.
    pub fn port_map(&self) -> (res: Option<PortMap>)
        ensures
            res == port_map_of(*self),
    {
        if let Some(single_port) = self.single_port {
            return Some(PortMap::Single(single_port));
        }
        if let Some(ports) = &self.ice_port_range {
            if ports.len() > 1 {
                return Some(PortMap::Range(ports[0], ports[1]));
            }
        }
        None
    }
}

fn copy_servers(list: &Vec<ICEServerConfig>) -> (res: Vec<ICEServerConfig>)
    ensures
        servers_of(res@) == servers_of(list@),
{
    let mut res: Vec<ICEServerConfig> = Vec::new();
    let mut i: usize = 0;
    while i < list.len()
        invariant
            i <= list@.len(),
            res@.len() == i,
            forall|k: int| 0 <= k < i ==> (#[trigger] res@[k])@ == list@[k]@,
        decreases list@.len() - i,
    {
        res.push(
            ICEServerConfig {
                urls: clone_all(&list[i].urls),
                username: list[i].username.clone(),
                credential: list[i].credential.clone(),
            },
        );
        i = i + 1;
    }
    assert(servers_of(res@) =~= servers_of(list@));
    res
}

impl WebRTCTransportConfig {
    /// Creates the initial configuration for running RTC peer connections
    /// # Recommendations
    /// - Use `webrtc.ice_single_port` for internal RTCP packets handling. `webrtc.ice_port_range` is harder to handle.
    pub fn new(c: &Config) -> (config: Self)
        requires
            port_map_of(c.webrtc) is Some,
        ensures
            Some(config.port_map) == port_map_of(c.webrtc),
            config.router == c.router,
            config.ice_lite == (c.webrtc.candidates.ice_lite == Some(true)),
            servers_of(config.ice_servers@) == match c.webrtc.ice_servers {
                Some(servers) if !config.ice_lite => servers_of(servers@),
                _ => seq![],
            },
            config.sdp_semantics == semantics_of(c.webrtc.sdp_semantics@),
            config.timeouts == timeouts_of(c.webrtc.timeouts),
            match c.webrtc.candidates.nat1_to_1ips {
                Some(ips) if ips@.len() > 0 => config.nat_1to1_ips matches Some(found) && views(
                    found@,
                ) == views(ips@),
                _ => config.nat_1to1_ips is None,
            },
            config.mdns_disabled == c.webrtc.mdns,
            config.network_types@ == networks_of(c.webrtc.candidates),
    {
        let port_map: PortMap = match c.webrtc.port_map() {
            Some(port_map) => port_map,
            None => PortMap::Single(0),
        };
        let ice_lite = match c.webrtc.candidates.ice_lite {
            Some(ice_lite) => ice_lite,
            None => false,
        };
        let mut ice_servers: Vec<ICEServerConfig> = Vec::new();
        assert(servers_of(ice_servers@) =~= seq![]);
        if !ice_lite {
            if let Some(ice_servers_cfg) = &c.webrtc.ice_servers {
                ice_servers = copy_servers(ice_servers_cfg);
            }
        }
        let name = c.webrtc.sdp_semantics.as_str();
        let sdp_semantics = if same(name, "unified-plan-with-fallback") {
            SdpSemantics::UnifiedPlanWithFallback
        } else if same(name, "plan-b") {
            SdpSemantics::PlanB
        } else {
            SdpSemantics::UnifiedPlan
        };
        let t = &c.webrtc.timeouts;
        let timeouts = if t.ice_disconnected_timeout == 0 && t.ice_failed_timeout == 0
            && t.ice_keepalive_interval == 0 {
            None
        } else {
            Some(
                IceTimeouts {
                    disconnected: t.ice_disconnected_timeout as u64,
                    failed: t.ice_failed_timeout as u64,
                    keepalive: t.ice_keepalive_interval as u64,
                },
            )
        };
        let mut nat_1to1_ips: Option<Vec<String>> = None;
        if let Some(ips) = &c.webrtc.candidates.nat1_to_1ips {
            if ips.len() > 0 {
                nat_1to1_ips = Some(clone_all(ips));
            }
        }
        let mut network_types: Vec<NetworkType> = Vec::new();
        if c.webrtc.candidates.disable_ipv6 {
            network_types.push(NetworkType::Tcp4);
            network_types.push(NetworkType::Udp4);
        } else if c.webrtc.candidates.disable_ipv4 {
            network_types.push(NetworkType::Tcp6);
            network_types.push(NetworkType::Udp6);
        } else {
            network_types = supported_networks();
        }
        assert(network_types@ =~= networks_of(c.webrtc.candidates));
        WebRTCTransportConfig {
            ice_servers,
            ice_lite,
            sdp_semantics,
            timeouts,
            nat_1to1_ips,
            mdns_disabled: c.webrtc.mdns,
            network_types,
            router: c.router,
            port_map,
        }
    }
}

/// A single port is used where one is named, else the first two ports of the range; there is nothing
/// to use where neither is named.
pub proof fn law_single_port_goes_first(c: WebRTCConfig)
    ensures
        forall|port: u16|
            c.single_port == Some(port) ==> #[trigger] port_map_of(c) == Some(PortMap::Single(port)),
        c.single_port is None ==> (port_map_of(c) is Some <==> (c.ice_port_range matches Some(ports)
            && ports@.len() >= 2)),
        port_map_of(c) matches Some(PortMap::Range(low, high)) ==> c.single_port is None && (
        c.ice_port_range matches Some(ports) && ports@[0] == low && ports@[1] == high),
{
}

/// No candidates are found in networks of a version that is disabled; where both are, IPv4 stays. UDP
/// is used in every network that is left.
pub proof fn law_disabled_networks_are_left_out(candidates: Candidates)
    ensures
        candidates.disable_ipv6 ==> !networks_of(candidates).contains(NetworkType::Udp6)
            && !networks_of(candidates).contains(NetworkType::Tcp6),
        candidates.disable_ipv4 && !candidates.disable_ipv6 ==> !networks_of(candidates).contains(
            NetworkType::Udp4,
        ) && !networks_of(candidates).contains(NetworkType::Tcp4),
        networks_of(candidates).contains(NetworkType::Udp4) <==> !candidates.disable_ipv4
            || candidates.disable_ipv6,
        networks_of(candidates).contains(NetworkType::Udp6) <==> !candidates.disable_ipv6,
        !candidates.disable_ipv4 && !candidates.disable_ipv6 ==> networks_of(candidates).len() == 2,
{
    let networks = networks_of(candidates);
    if candidates.disable_ipv6 {
        assert(networks[1] == NetworkType::Udp4);
    } else if candidates.disable_ipv4 {
        assert(networks[1] == NetworkType::Udp6);
    } else {
        assert(networks[0] == NetworkType::Udp4);
        assert(networks[1] == NetworkType::Udp6);
    }
}

/// The timeouts are left as they are just where all are 0; each is set to its own number of seconds
/// else.
pub proof fn law_timeouts_are_set_unless_all_are_zero(t: WebRTCTimeoutsConfig)
    requires
        t.ice_disconnected_timeout >= 0,
        t.ice_failed_timeout >= 0,
        t.ice_keepalive_interval >= 0,
    ensures
        timeouts_of(t) is None <==> t.ice_disconnected_timeout + t.ice_failed_timeout
            + t.ice_keepalive_interval == 0,
        timeouts_of(t) matches Some(set) ==> set.disconnected == t.ice_disconnected_timeout
            && set.failed == t.ice_failed_timeout && set.keepalive == t.ice_keepalive_interval,
{
}

/// A session is described in the way that is named, and as a unified plan where none is.
pub proof fn law_semantics_are_named(name: Seq<char>)
    ensures
        semantics_of(name) == SdpSemantics::PlanB <==> name == "plan-b"@,
        semantics_of(name) == SdpSemantics::UnifiedPlanWithFallback <==> name
            == "unified-plan-with-fallback"@,
        name.len() == 0 ==> semantics_of(name) == SdpSemantics::UnifiedPlan,
{
    reveal_strlit("plan-b");
    reveal_strlit("unified-plan-with-fallback");
    assert("plan-b"@.len() == 6);
    assert("unified-plan-with-fallback"@.len() == 26);
}

} // verus!
