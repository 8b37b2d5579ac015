use xamppify::discovery::{
    discovered_machine_at, get_subnet, http_address, ipv4_text, is_discoverable_port,
    mdns_hostname, scan_addresses, scan_batches, server_is_apache, HeartbeatAction,
    HeartbeatTracker, IpAddress, MachineRegistry,
};
use xamppify::{DiscoveryMethod, ServiceState, ServiceStatus, ServiceType};

#[test]
fn derives_ipv4_subnet_without_parsing() {
    assert_eq!(get_subnet(IpAddress::V4([192, 168, 4, 22])), Some([192, 168, 4]));
}

#[test]
fn does_not_scan_loopback_when_only_ipv6_is_available() {
    assert_eq!(get_subnet(IpAddress::V6([0, 0, 0, 0, 0, 0, 0, 1])), None);
}

#[test]
fn scans_hosts_in_batches() {
    let a = scan_addresses([10, 0, 0]);
    assert_eq!(a.len(), 254);
    assert_eq!(a[0], [10, 0, 0, 1]);
    assert_eq!(a[253], [10, 0, 0, 254]);
    let b = scan_batches(254);
    assert_eq!(b.len(), 8);
    assert_eq!(b[7], (224, 254));
    assert_eq!(ipv4_text([192, 168, 0, 10]), "192.168.0.10");
}

#[test]
fn recognises_apache() {
    assert!(server_is_apache(Some("Apache/2.4.58 (Win64)")));
    assert!(server_is_apache(Some("XAMPP")));
    assert!(!server_is_apache(Some("nginx")));
    assert!(!server_is_apache(None));
    assert!(is_discoverable_port(8080));
    assert!(!is_discoverable_port(22));
    assert_eq!(mdns_hostname("pc-01.local.."), "pc-01.local");
    assert_eq!(http_address("10.0.0.5"), "10.0.0.5:80");
}

fn machine(id: &str, services: Vec<ServiceStatus>) -> xamppify::Machine {
    discovered_machine_at(id, id.to_string(), services, DiscoveryMethod::PortScan, "t".to_string())
}

#[test]
fn registry_merges_sightings() {
    let mut r = MachineRegistry::new();
    let svc = ServiceStatus { name: ServiceType::Apache, status: ServiceState::Running, port: 80, pid: None, uptime: None };
    r.add_or_update(machine("10.0.0.1", vec![svc]));
    r.add_or_update(machine("10.0.0.1", Vec::new()));
    assert_eq!(r.get_all().len(), 1);
    assert_eq!(r.get("10.0.0.1").unwrap().services.len(), 1);
    r.mark_offline("10.0.0.1");
    assert!(!r.get("10.0.0.1").unwrap().online);
    r.mark_online("10.0.0.1");
    assert!(r.get("10.0.0.1").unwrap().online);
    r.remove("10.0.0.1");
    assert!(r.get("10.0.0.1").is_none());
}

#[test]
fn three_missed_pings_take_a_machine_offline() {
    let mut t = HeartbeatTracker::new();
    assert_eq!(t.record("m", true, false), HeartbeatAction::Nothing);
    assert_eq!(t.record("m", true, false), HeartbeatAction::Nothing);
    assert_eq!(t.record("m", true, false), HeartbeatAction::MarkOffline);
    assert_eq!(t.record("m", false, true), HeartbeatAction::MarkOnline);
    assert_eq!(t.record("m", true, false), HeartbeatAction::Nothing);
}
