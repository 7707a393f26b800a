use netpath::errors::TestError;
use netpath::models::SpeedTestResult;
use netpath::speed::{
    build_speed_test_result, collapse_metric, compute_throughput, endpoint_url, ping_outcome,
    probe_timeout_secs, transfer_outcome, upload_outcome, MetricOutcome, ProbeKind,
    PING_TIMEOUT_SECS, TRANSFER_TIMEOUT_SECS, UPLOAD_PAYLOAD_BYTES,
};

#[test]
fn one_mebibyte_in_one_second_is_8_389_megabits() {
    // 1,048,576 bytes in exactly 1.0 second.
    let outcome = transfer_outcome(true, 1048576, 1_000_000);
    assert_eq!(outcome, MetricOutcome::Measured(8_388_608));
    let mbps = 8_388_608 as f64 / 1_000_000.0;
    assert!((mbps - 8.388608).abs() < 1e-9);
}

#[test]
fn download_http_failure_degrades_to_zero_only_there() {
    // Scenario: the download endpoint answers with a 500 status, so its HTTP
    // exchange is not a success; ping and upload are unaffected and the
    // overall call still succeeds.
    let download = transfer_outcome(false, 1048576, 500_000);
    let upload = upload_outcome(true, 2_000_000);
    let ping = ping_outcome(true, 23);
    let r = build_speed_test_result(ping, download, upload, Some(1_700_000_000)).unwrap();
    assert_eq!(r.download_speed, 0);
    assert_eq!(r.upload_speed, 4_194_304);
    assert_eq!(r.ping, 23);
    assert_eq!(r.timestamp, 1_700_000_000);
}

#[test]
fn zero_duration_transfer_is_a_measurement_fault() {
    assert_eq!(transfer_outcome(true, 1048576, 0), MetricOutcome::Failed);
    assert_eq!(upload_outcome(true, 0), MetricOutcome::Failed);
    // A ping has no zero-duration fault rule.
    assert_eq!(ping_outcome(true, 0), MetricOutcome::Measured(0));
}

#[test]
fn all_sub_probes_failed_still_yields_a_complete_result() {
    let r = build_speed_test_result(
        MetricOutcome::Failed,
        MetricOutcome::Failed,
        MetricOutcome::Failed,
        Some(42),
    )
    .unwrap();
    assert_eq!(
        r,
        SpeedTestResult { download_speed: 0, upload_speed: 0, ping: 0, timestamp: 42 }
    );
}

#[test]
fn missing_timestamp_is_the_only_call_level_error() {
    let r = build_speed_test_result(
        MetricOutcome::Measured(1),
        MetricOutcome::Measured(2),
        MetricOutcome::Measured(3),
        None,
    );
    assert_eq!(r.unwrap_err(), TestError::ClockUnavailable);
}

#[test]
fn throughput_clamps_at_the_representable_maximum() {
    assert_eq!(compute_throughput(u64::MAX, 1), u64::MAX);
    assert_eq!(compute_throughput(0, 1), 0);
    assert_eq!(compute_throughput(125, 1_000_000), 1000);
}

#[test]
fn collapse_reports_measurement_or_zero() {
    assert_eq!(collapse_metric(MetricOutcome::Measured(77)), 77);
    assert_eq!(collapse_metric(MetricOutcome::Failed), 0);
}

#[test]
fn upload_uses_the_fixed_payload_size() {
    assert_eq!(UPLOAD_PAYLOAD_BYTES, 1024 * 1024);
    assert_eq!(
        upload_outcome(true, 1_000_000),
        transfer_outcome(true, UPLOAD_PAYLOAD_BYTES, 1_000_000)
    );
}

#[test]
fn endpoint_configuration_is_fixed() {
    assert_eq!(endpoint_url(ProbeKind::Ping), "https://httpbin.org/get");
    assert_eq!(endpoint_url(ProbeKind::Download), "http://speedtest.tele2.net/1MB.zip");
    assert_eq!(endpoint_url(ProbeKind::Upload), "http://httpbin.org/post");
    assert_eq!(probe_timeout_secs(ProbeKind::Ping), PING_TIMEOUT_SECS);
    assert_eq!(probe_timeout_secs(ProbeKind::Download), TRANSFER_TIMEOUT_SECS);
    assert_eq!(probe_timeout_secs(ProbeKind::Upload), TRANSFER_TIMEOUT_SECS);
    assert_eq!(PING_TIMEOUT_SECS, 10);
    assert_eq!(TRANSFER_TIMEOUT_SECS, 30);
}
