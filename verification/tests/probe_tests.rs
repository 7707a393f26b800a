use netpath::classify::{filter_active, filter_internet_connected};
use netpath::models::NetworkInterfaceInfo;
use netpath::probe::{reachability_endpoints, reachability_verdict, PROBE_TIMEOUT_SECS};

#[test]
fn endpoints_are_the_two_public_resolvers() {
    let eps = reachability_endpoints();
    assert_eq!(eps.len(), 2);
    assert_eq!(
        (eps[0].octet_a, eps[0].octet_b, eps[0].octet_c, eps[0].octet_d, eps[0].port),
        (8, 8, 8, 8, 53)
    );
    assert_eq!(
        (eps[1].octet_a, eps[1].octet_b, eps[1].octet_c, eps[1].octet_d, eps[1].port),
        (1, 1, 1, 1, 53)
    );
    assert_eq!(PROBE_TIMEOUT_SECS, 3);
}

#[test]
fn verdict_true_on_any_success() {
    assert!(reachability_verdict(&vec![false, true]));
    assert!(reachability_verdict(&vec![true, false]));
    assert!(reachability_verdict(&vec![true, true]));
}

#[test]
fn verdict_false_when_every_attempt_fails() {
    assert!(!reachability_verdict(&vec![false, false]));
    assert!(!reachability_verdict(&vec![false]));
    assert!(!reachability_verdict(&Vec::new()));
}

#[test]
fn all_endpoints_refused_yields_no_connected_interfaces() {
    // Scenario: every reachability endpoint refuses the connection, so the
    // probe pass hands back one failure per endpoint.
    let attempts = vec![false, false];
    let reachable = reachability_verdict(&attempts);
    assert!(!reachable);

    let records = vec![NetworkInterfaceInfo {
        name: String::from("eth0"),
        description: String::new(),
        is_up: true,
        is_loopback: false,
        ip_addresses: vec![String::from("192.0.2.7")],
    }];
    let active = filter_active(vec![records[0].clone()]);
    assert_eq!(active.len(), 1);
    let connected = filter_internet_connected(records, reachable);
    assert!(connected.is_empty());
}
