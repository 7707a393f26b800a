use netpath::classify::{filter_active, filter_internet_connected, retain_well_formed};
use netpath::models::NetworkInterfaceInfo;

fn record(name: &str, is_up: bool, is_loopback: bool) -> NetworkInterfaceInfo {
    NetworkInterfaceInfo {
        name: String::from(name),
        description: String::new(),
        is_up,
        is_loopback,
        ip_addresses: Vec::new(),
    }
}

fn sample() -> Vec<NetworkInterfaceInfo> {
    vec![
        record("lo", true, true),
        record("eth0", true, false),
        record("wlan0", false, false),
        record("eth1", true, false),
    ]
}

#[test]
fn filter_active_keeps_only_up_non_loopback() {
    let active = filter_active(sample());
    let names: Vec<&str> = active.iter().map(|r| r.name.as_str()).collect();
    assert_eq!(names, vec!["eth0", "eth1"]);
    for r in &active {
        assert!(r.is_up);
        assert!(!r.is_loopback);
    }
}

#[test]
fn filter_active_preserves_enumeration_order() {
    let mut records = sample();
    records.reverse();
    let active = filter_active(records);
    let names: Vec<&str> = active.iter().map(|r| r.name.as_str()).collect();
    assert_eq!(names, vec!["eth1", "eth0"]);
}

#[test]
fn retain_well_formed_drops_empty_names() {
    let records = vec![
        record("", true, false),
        record("eth0", true, false),
        record("", false, true),
    ];
    let kept = retain_well_formed(records);
    assert_eq!(kept.len(), 1);
    assert_eq!(kept[0].name, "eth0");
}

#[test]
fn internet_connected_reachable_equals_active() {
    let connected = filter_internet_connected(sample(), true);
    let active = filter_active(sample());
    assert_eq!(connected.len(), active.len());
    for (c, a) in connected.iter().zip(active.iter()) {
        assert_eq!(c.name, a.name);
        assert_eq!(c.description, a.description);
        assert_eq!(c.is_up, a.is_up);
        assert_eq!(c.is_loopback, a.is_loopback);
        assert_eq!(c.ip_addresses, a.ip_addresses);
    }
}

#[test]
fn internet_connected_unreachable_is_empty() {
    let connected = filter_internet_connected(sample(), false);
    assert!(connected.is_empty());
    // The same enumeration still has active interfaces: the emptiness comes
    // from the host-wide verdict alone.
    assert!(!filter_active(sample()).is_empty());
}

#[test]
fn record_clone_reproduces_fields() {
    let mut r = record("eth0", true, false);
    r.description = String::from("integrated adapter");
    r.ip_addresses = vec![String::from("192.0.2.7"), String::from("2001:db8::7")];
    let c = r.clone();
    assert_eq!(c.name, r.name);
    assert_eq!(c.description, r.description);
    assert_eq!(c.is_up, r.is_up);
    assert_eq!(c.is_loopback, r.is_loopback);
    assert_eq!(c.ip_addresses, r.ip_addresses);
}
