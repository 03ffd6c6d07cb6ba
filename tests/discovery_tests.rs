use archsockrust::discovery::{
    announce_targets, candidate_ports, subnet_broadcast, DiscoveryService, InterfaceV4,
    LOOPBACK_BROADCAST, MULTICAST_GROUP, UNIVERSAL_BROADCAST,
};
use archsockrust::protocol::{BROADCAST_ADDR, DISCOVERY_PORT, MULTICAST_ADDR};
use archsockrust::{DiscoveryMessage, P2PEvent, PeerInfo};

fn addr(a: u8, b: u8, c: u8, d: u8) -> u32 {
    u32::from_be_bytes([a, b, c, d])
}

fn announce(name: &str, id: &str, port: u16) -> DiscoveryMessage {
    DiscoveryMessage::Announce { peer_name: name.to_string(), peer_id: id.to_string(), tcp_port: port }
}

#[test]
fn subnet_broadcast_of_home_and_private_networks() {
    assert_eq!(subnet_broadcast(addr(192, 168, 1, 100), addr(255, 255, 255, 0)), addr(192, 168, 1, 255));
    assert_eq!(subnet_broadcast(addr(192, 168, 1, 100), addr(255, 255, 0, 0)), addr(192, 168, 255, 255));
}

#[test]
fn test_broadcast_calculation_logic() {
    let cases = [
        (addr(192, 168, 1, 100), addr(255, 255, 255, 0), addr(192, 168, 1, 255)),
        (addr(10, 0, 0, 50), addr(255, 0, 0, 0), addr(10, 255, 255, 255)),
        (addr(172, 16, 5, 10), addr(255, 240, 0, 0), addr(172, 31, 255, 255)),
        (addr(192, 168, 100, 50), addr(255, 255, 0, 0), addr(192, 168, 255, 255)),
    ];
    for (ip, mask, expected) in cases {
        assert_eq!(subnet_broadcast(ip, mask), expected);
    }
}

#[test]
fn test_broadcast_address_calculation_edge_cases() {
    let cases = [
        (addr(192, 168, 1, 1), addr(255, 255, 255, 255), addr(192, 168, 1, 1)),
        (addr(192, 168, 1, 1), addr(255, 255, 255, 252), addr(192, 168, 1, 3)),
        (addr(192, 168, 1, 10), addr(255, 255, 255, 248), addr(192, 168, 1, 15)),
        (addr(172, 31, 255, 254), addr(255, 255, 255, 0), addr(172, 31, 255, 255)),
        (addr(10, 1, 2, 3), addr(255, 255, 240, 0), addr(10, 1, 15, 255)),
    ];
    for (ip, mask, expected) in cases {
        assert_eq!(subnet_broadcast(ip, mask), expected);
    }
}

#[test]
fn broadcast_addresses_skip_loopback_and_keep_order() {
    let ifs = vec![
        InterfaceV4 { ip: addr(127, 0, 0, 1), netmask: addr(255, 0, 0, 0) },
        InterfaceV4 { ip: addr(192, 168, 1, 100), netmask: addr(255, 255, 255, 0) },
        InterfaceV4 { ip: addr(10, 1, 2, 3), netmask: addr(255, 255, 240, 0) },
    ];
    let got = DiscoveryService::get_broadcast_addresses(&ifs);
    assert_eq!(
        got,
        vec![
            addr(127, 255, 255, 255),
            addr(224, 0, 0, 251),
            addr(192, 168, 1, 255),
            addr(10, 1, 15, 255),
            addr(255, 255, 255, 255),
        ]
    );
}

#[test]
fn broadcast_addresses_without_interfaces() {
    let got = DiscoveryService::get_broadcast_addresses(&Vec::new());
    assert_eq!(got, vec![LOOPBACK_BROADCAST, MULTICAST_GROUP, UNIVERSAL_BROADCAST]);
    assert_eq!(LOOPBACK_BROADCAST, addr(127, 255, 255, 255));
    assert_eq!(MULTICAST_GROUP, addr(224, 0, 0, 251));
    assert_eq!(UNIVERSAL_BROADCAST, addr(255, 255, 255, 255));
}

#[test]
fn test_protocol_constants() {
    assert_eq!(DISCOVERY_PORT, 6968, "Discovery port should be 6968");
    assert_eq!(BROADCAST_ADDR, "255.255.255.255", "Broadcast address should be universal");
    assert_eq!(MULTICAST_ADDR, "224.0.0.251", "Multicast address should be mDNS");
    let first_octet = MULTICAST_GROUP.to_be_bytes()[0];
    assert!(first_octet >= 224 && first_octet <= 239, "Should be in multicast range");
}

#[test]
fn candidate_ports_with_default_and_custom_port() {
    let alternates = vec![6968u16, 6970, 6972, 6974, 6976, 6978, 7001, 7003];
    assert_eq!(candidate_ports(6968), alternates);
    assert_eq!(candidate_ports(7001), alternates);
    let mut custom = vec![9001u16];
    custom.extend(alternates.iter().copied());
    assert_eq!(candidate_ports(9001), custom);
}

#[test]
fn announce_targets_cover_every_pair_address_major() {
    let addrs = vec![1u32, 2];
    let ports = vec![10u16, 20, 30];
    let got = announce_targets(&addrs, &ports);
    assert_eq!(got, vec![(1, 10), (1, 20), (1, 30), (2, 10), (2, 20), (2, 30)]);
    assert!(announce_targets(&Vec::new(), &ports).is_empty());
}

#[test]
fn repeated_announcements_discover_a_peer_once() {
    let mut svc = DiscoveryService::new("Me".to_string(), 6969, 6968);
    let first = svc.handle_discovery_message(announce("Bob", "B", 8002), "10.0.0.2".to_string(), 100);
    let expected = PeerInfo {
        id: "B".to_string(),
        name: "Bob".to_string(),
        ip: "10.0.0.2".to_string(),
        port: 8002,
        last_seen: 100,
    };
    assert_eq!(first, Some(P2PEvent::PeerDiscovered(expected)));
    for t in 101..110u64 {
        assert_eq!(svc.handle_discovery_message(announce("Bob", "B", 8002), "10.0.0.2".to_string(), t), None);
    }
    let peers = svc.get_peers();
    assert_eq!(peers.len(), 1);
    assert_eq!(peers[0].last_seen, 109);
}

#[test]
fn announcement_refresh_takes_new_name_and_address() {
    let mut svc = DiscoveryService::new("Me".to_string(), 6969, 6968);
    svc.handle_discovery_message(announce("Bob", "B", 8002), "10.0.0.2".to_string(), 100);
    svc.handle_discovery_message(announce("Alice", "A", 8000), "10.0.0.1".to_string(), 100);
    assert_eq!(svc.handle_discovery_message(announce("Robert", "B", 9000), "10.0.0.9".to_string(), 105), None);
    let peers = svc.get_peers();
    assert_eq!(peers.len(), 2);
    let bob = peers.iter().find(|p| p.id == "B").unwrap();
    assert_eq!((bob.name.as_str(), bob.ip.as_str(), bob.port, bob.last_seen), ("Robert", "10.0.0.9", 9000, 105));
}

#[test]
fn requests_change_nothing() {
    let mut svc = DiscoveryService::new("Me".to_string(), 6969, 6968);
    assert_eq!(svc.handle_discovery_message(DiscoveryMessage::Request, "10.0.0.2".to_string(), 1), None);
    assert!(svc.get_peers().is_empty());
    assert_eq!(svc.request_message(), DiscoveryMessage::Request);
}

#[test]
fn stale_sweep_drops_silent_peers_only() {
    let mut svc = DiscoveryService::new("Me".to_string(), 6969, 6968);
    svc.handle_discovery_message(announce("Old", "O", 1), "10.0.0.1".to_string(), 30);
    svc.handle_discovery_message(announce("Edge", "E", 2), "10.0.0.2".to_string(), 40);
    svc.handle_discovery_message(announce("New", "N", 3), "10.0.0.3".to_string(), 50);
    svc.handle_discovery_message(announce("Future", "F", 4), "10.0.0.4".to_string(), 500);
    svc.remove_stale(100, 60);
    let mut ids: Vec<String> = svc.get_peers().into_iter().map(|p| p.id).collect();
    ids.sort();
    assert_eq!(ids, vec!["F".to_string(), "N".to_string()]);
}

#[test]
fn stale_sweep_with_current_clock_keeps_fresh_peers() {
    let mut svc = DiscoveryService::new("Me".to_string(), 6969, 6968);
    let now = archsockrust::get_current_timestamp();
    svc.handle_discovery_message(announce("Bob", "B", 8002), "10.0.0.2".to_string(), now);
    svc.handle_discovery_message(announce("Gone", "G", 8004), "10.0.0.4".to_string(), 0);
    svc.cleanup_stale_peers(60);
    let peers = svc.get_peers();
    assert_eq!(peers.len(), 1);
    assert_eq!(peers[0].id, "B");
}

#[test]
fn start_and_stop_are_idempotent() {
    let mut svc = DiscoveryService::new("Me".to_string(), 7000, 7001);
    assert!(!svc.is_running());
    assert!(svc.start());
    assert!(!svc.start());
    assert!(svc.is_running());
    svc.stop();
    svc.stop();
    assert!(!svc.is_running());
    assert!(svc.start());
}

#[test]
fn service_identity_and_announcement() {
    let svc = DiscoveryService::new("TestPeer🚀".to_string(), 7000, 7001);
    assert_eq!(svc.peer_id().len(), 36);
    assert_eq!(svc.peer_name(), "TestPeer🚀");
    assert_eq!((svc.tcp_port(), svc.discovery_port()), (7000, 7001));
    let other = DiscoveryService::new("TestPeer🚀".to_string(), 7000, 7001);
    assert_ne!(svc.peer_id(), other.peer_id());
    assert_eq!(
        svc.announcement(),
        DiscoveryMessage::Announce {
            peer_name: "TestPeer🚀".to_string(),
            peer_id: svc.peer_id().clone(),
            tcp_port: 7000
        }
    );
}
