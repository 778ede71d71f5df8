use volcano::rtc::config::{
    Candidates, Config, ICEServerConfig, NetworkType, PortMap, RouterConfig, SdpSemantics,
    WebRTCConfig, WebRTCTimeoutsConfig, WebRTCTransportConfig,
};

fn config() -> Config {
    Config {
        router: RouterConfig::default(),
        webrtc: WebRTCConfig {
            single_port: Some(7000),
            ice_port_range: Some(vec![1, 2]),
            ice_servers: Some(vec![ICEServerConfig {
                urls: vec!["stun:example.org".to_owned()],
                username: "name".to_owned(),
                credential: "word".to_owned(),
            }]),
            candidates: Candidates {
                ice_lite: None,
                nat1_to_1ips: None,
                disable_ipv4: false,
                disable_ipv6: false,
            },
            sdp_semantics: "unified-plan".to_owned(),
            mdns: false,
            timeouts: WebRTCTimeoutsConfig {
                ice_disconnected_timeout: 0,
                ice_failed_timeout: 0,
                ice_keepalive_interval: 0,
            },
        },
        turn_enabled: false,
    }
}

#[test]
fn defaults_of_the_transport() {
    let transport = WebRTCTransportConfig::new(&config());
    assert!(matches!(transport.port_map, PortMap::Single(7000)));
    assert_eq!(transport.ice_servers.len(), 1);
    assert_eq!(transport.ice_servers[0].urls, vec!["stun:example.org".to_owned()]);
    assert!(!transport.ice_lite);
    assert_eq!(transport.sdp_semantics, SdpSemantics::UnifiedPlan);
    assert!(transport.timeouts.is_none());
    assert!(transport.nat_1to1_ips.is_none());
    assert!(!transport.mdns_disabled);
    assert_eq!(transport.network_types, vec![NetworkType::Udp4, NetworkType::Udp6]);
    assert!(matches!(PortMap::default(), PortMap::Single(0)));
}

#[test]
fn lite_agents_have_no_servers() {
    let mut c = config();
    c.webrtc.single_port = None;
    c.webrtc.candidates.ice_lite = Some(true);
    c.webrtc.candidates.disable_ipv6 = true;
    c.webrtc.candidates.nat1_to_1ips = Some(vec!["1.2.3.4".to_owned()]);
    c.webrtc.sdp_semantics = "plan-b".to_owned();
    c.webrtc.mdns = true;
    c.webrtc.timeouts.ice_failed_timeout = 9;
    let transport = WebRTCTransportConfig::new(&c);
    assert!(matches!(transport.port_map, PortMap::Range(1, 2)));
    assert!(transport.ice_servers.is_empty());
    assert!(transport.ice_lite);
    assert_eq!(transport.sdp_semantics, SdpSemantics::PlanB);
    assert_eq!(transport.timeouts.unwrap().failed, 9);
    assert_eq!(transport.nat_1to1_ips, Some(vec!["1.2.3.4".to_owned()]));
    assert!(transport.mdns_disabled);
    assert_eq!(transport.network_types, vec![NetworkType::Tcp4, NetworkType::Udp4]);
}

#[test]
fn the_other_networks_and_semantics() {
    let mut c = config();
    c.webrtc.candidates.disable_ipv4 = true;
    c.webrtc.sdp_semantics = "unified-plan-with-fallback".to_owned();
    let transport = WebRTCTransportConfig::new(&c);
    assert_eq!(transport.network_types, vec![NetworkType::Tcp6, NetworkType::Udp6]);
    assert_eq!(transport.sdp_semantics, SdpSemantics::UnifiedPlanWithFallback);
}

#[test]
fn a_port_must_be_named() {
    let mut c = config();
    c.webrtc.single_port = None;
    c.webrtc.ice_port_range = None;
    assert!(c.webrtc.port_map().is_none());
    c.webrtc.ice_port_range = Some(vec![1]);
    assert!(c.webrtc.port_map().is_none());
    c.webrtc.ice_port_range = Some(vec![1, 2, 3]);
    assert!(matches!(c.webrtc.port_map(), Some(PortMap::Range(1, 2))));
}
