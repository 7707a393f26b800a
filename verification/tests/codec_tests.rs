use netpath::codec::{
    decode_interface_record, decode_speed_test_result, encode_interface_record,
    encode_speed_test_result,
};
use netpath::models::{NetworkInterfaceInfo, SpeedTestResult};

fn round_trip(r: &NetworkInterfaceInfo) -> NetworkInterfaceInfo {
    let bytes = encode_interface_record(r);
    decode_interface_record(&bytes).expect("an encoded record must decode")
}

fn assert_same(a: &NetworkInterfaceInfo, b: &NetworkInterfaceInfo) {
    assert_eq!(a.name, b.name);
    assert_eq!(a.description, b.description);
    assert_eq!(a.is_up, b.is_up);
    assert_eq!(a.is_loopback, b.is_loopback);
    assert_eq!(a.ip_addresses, b.ip_addresses);
}

#[test]
fn round_trip_reproduces_every_field() {
    let r = NetworkInterfaceInfo {
        name: String::from("eth0"),
        description: String::from("integrated adapter"),
        is_up: true,
        is_loopback: false,
        ip_addresses: vec![String::from("192.0.2.7"), String::from("2001:db8::7")],
    };
    assert_same(&round_trip(&r), &r);
}

#[test]
fn round_trip_keeps_empty_fields_present() {
    let r = NetworkInterfaceInfo {
        name: String::from("lo"),
        description: String::new(),
        is_up: false,
        is_loopback: true,
        ip_addresses: Vec::new(),
    };
    let back = round_trip(&r);
    assert_same(&back, &r);
    assert!(back.description.is_empty());
    assert!(back.ip_addresses.is_empty());
}

#[test]
fn round_trip_handles_non_ascii_text() {
    let r = NetworkInterfaceInfo {
        name: String::from("schnittstelle-äöü"),
        description: String::from("описание 接口 🌐"),
        is_up: true,
        is_loopback: false,
        ip_addresses: vec![String::from("192.0.2.1")],
    };
    assert_same(&round_trip(&r), &r);
}

#[test]
fn decode_rejects_garbage() {
    assert!(decode_interface_record(&vec![]).is_none());
    assert!(decode_interface_record(&vec![1, 2, 3]).is_none());
    assert!(decode_interface_record(&vec![0; 128]).is_none());
}

#[test]
fn decode_rejects_truncated_and_padded_buffers() {
    let r = NetworkInterfaceInfo {
        name: String::from("eth0"),
        description: String::from("x"),
        is_up: true,
        is_loopback: false,
        ip_addresses: vec![String::from("192.0.2.7")],
    };
    let bytes = encode_interface_record(&r);
    let mut truncated = bytes.clone();
    truncated.pop();
    assert!(decode_interface_record(&truncated).is_none());
    let mut padded = bytes.clone();
    padded.push(0);
    assert!(decode_interface_record(&padded).is_none());
    assert!(decode_interface_record(&bytes).is_some());
}

#[test]
fn speed_result_round_trip_reproduces_every_field() {
    let r = SpeedTestResult {
        download_speed: 8_388_608,
        upload_speed: 4_194_304,
        ping: 23,
        timestamp: 1_700_000_000,
    };
    let bytes = encode_speed_test_result(&r);
    assert_eq!(decode_speed_test_result(&bytes), Some(r));
    let zeroed = SpeedTestResult { download_speed: 0, upload_speed: 0, ping: 0, timestamp: 0 };
    let bytes = encode_speed_test_result(&zeroed);
    assert_eq!(decode_speed_test_result(&bytes), Some(zeroed));
}

#[test]
fn speed_result_decode_rejects_damaged_buffers() {
    let r = SpeedTestResult { download_speed: 1, upload_speed: 2, ping: 3, timestamp: 4 };
    let bytes = encode_speed_test_result(&r);
    let mut truncated = bytes.clone();
    truncated.pop();
    assert_eq!(decode_speed_test_result(&truncated), None);
    let mut padded = bytes.clone();
    padded.push(0);
    assert_eq!(decode_speed_test_result(&padded), None);
    assert_eq!(decode_speed_test_result(&vec![9, 9, 9]), None);
}

#[test]
fn decode_rejects_invalid_utf8_in_a_string_field() {
    let r = NetworkInterfaceInfo {
        name: String::from("e"),
        description: String::new(),
        is_up: true,
        is_loopback: false,
        ip_addresses: Vec::new(),
    };
    let mut bytes = encode_interface_record(&r);
    // The name field's one UTF-8 byte sits right after the 4-byte marker and
    // the 8-byte length; 0xFF alone is never valid UTF-8.
    bytes[12] = 0xFF;
    assert!(decode_interface_record(&bytes).is_none());
}
