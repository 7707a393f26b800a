use netpath::network::{
    get_active_interfaces, get_all_interfaces, get_internet_connected_interfaces,
};

#[test]
fn enumeration_yields_well_formed_records() {
    let records = get_all_interfaces().expect("enumeration succeeds");
    for r in &records {
        assert!(!r.name.is_empty());
    }
}

#[test]
fn active_interfaces_are_up_and_not_loopback() {
    let records = get_active_interfaces().expect("classification succeeds");
    for r in &records {
        assert!(!r.name.is_empty());
        assert!(r.is_up);
        assert!(!r.is_loopback);
    }
}

#[test]
fn unreachable_host_has_no_connected_interfaces() {
    let records = get_internet_connected_interfaces(false).expect("classification succeeds");
    assert!(records.is_empty());
}

#[test]
fn reachable_host_counts_every_active_interface() {
    let records = get_internet_connected_interfaces(true).expect("classification succeeds");
    for r in &records {
        assert!(!r.name.is_empty());
        assert!(r.is_up);
        assert!(!r.is_loopback);
    }
}
