//! Link performance testing: metric arithmetic and the aggregation policy.
//!
//! A speed test is three independent sub-probes — ping, download, upload —
//! each an HTTP exchange performed by the caller. This module fixes the
//! endpoint configuration, turns each sub-probe's raw observation (HTTP
//! status, byte count, elapsed time) into a metric outcome, and assembles the
//! final result. A failed sub-probe degrades to a zero metric; the overall
//! test fails only when no timestamp could be obtained.

use vstd::prelude::*;

use crate::errors::TestError;
use crate::models::SpeedTestResult;

verus! {

/// Size in bytes of the zero-filled upload payload.
pub const UPLOAD_PAYLOAD_BYTES: u64 = 1048576;

/// Timeout in seconds for the ping sub-probe.
pub const PING_TIMEOUT_SECS: u64 = 10;

/// Timeout in seconds for the download and upload sub-probes.
pub const TRANSFER_TIMEOUT_SECS: u64 = 30;

/// The three independent sub-probes of a speed test.
#[derive(Debug, Clone, Copy, PartialEq, Eq, Structural)]
pub enum ProbeKind {
    Ping,
    Download,
    Upload,
}

/// The fixed remote endpoint each sub-probe talks to.
pub fn endpoint_url(kind: ProbeKind) -> (url: &'static str)
    ensures
        kind is Ping ==> url@ == "https://httpbin.org/get"@,
        kind is Download ==> url@ == "http://speedtest.tele2.net/1MB.zip"@,
        kind is Upload ==> url@ == "http://httpbin.org/post"@,
{
    match kind {
        ProbeKind::Ping => "https://httpbin.org/get",
        ProbeKind::Download => "http://speedtest.tele2.net/1MB.zip",
        ProbeKind::Upload => "http://httpbin.org/post",
    }
}

/// The per-operation timeout of each sub-probe, in seconds.
pub fn probe_timeout_secs(kind: ProbeKind) -> (secs: u64)
    ensures
        kind is Ping ==> secs == PING_TIMEOUT_SECS,
        !(kind is Ping) ==> secs == TRANSFER_TIMEOUT_SECS,
{
    match kind {
        ProbeKind::Ping => PING_TIMEOUT_SECS,
        ProbeKind::Download => TRANSFER_TIMEOUT_SECS,
        ProbeKind::Upload => TRANSFER_TIMEOUT_SECS,
    }
}

/// The outcome of one sub-probe, kept distinct from the zero sentinel until
/// the result is assembled.
#[derive(Debug, Clone, Copy, PartialEq, Eq, Structural)]
pub enum MetricOutcome {
    /// The measured value: bits per second for a transfer, milliseconds for
    /// a ping.
    Measured(u64),
    /// The sub-probe timed out, was refused, got a non-success HTTP status,
    /// or measured a zero duration.
    Failed,
}

/// The zero-on-failure collapse applied when the result is assembled.
pub open spec fn metric_value(o: MetricOutcome) -> u64 {
    match o {
        MetricOutcome::Measured(v) => v,
        MetricOutcome::Failed => 0,
    }
}

/// Throughput in bits per second of `bytes` transferred in `micros`
/// microseconds.
pub open spec fn throughput_bits_per_sec(bytes: u64, micros: u64) -> nat
    recommends
        micros > 0,
{
    (bytes * 8 * 1_000_000) as nat / micros as nat
}

/// `n` clamped to the largest representable throughput.
pub open spec fn clamp_u64(n: nat) -> u64 {
    if n > u64::MAX {
        u64::MAX
    } else {
        n as u64
    }
}

/// Compute a transfer's throughput in bits per second, clamped to `u64`.
pub fn compute_throughput(bytes: u64, duration_micros: u64) -> (bps: u64)
    requires
        duration_micros > 0,
    ensures
        bps == clamp_u64(throughput_bits_per_sec(bytes, duration_micros)),
{
    let bits: u128 = (bytes as u128) * 8 * 1_000_000;
    let wide: u128 = bits / (duration_micros as u128);
    if wide > u64::MAX as u128 {
        u64::MAX
    } else {
        wide as u64
    }
}

/// The outcome of a transfer sub-probe (download or upload): a non-success
/// HTTP exchange fails it, and a measured duration of zero is a measurement
/// fault that also fails it; otherwise the metric is the throughput of
/// `bytes` over the elapsed time.
pub open spec fn spec_transfer_outcome(
    http_success: bool,
    bytes: u64,
    duration_micros: u64,
) -> MetricOutcome {
    if !http_success || duration_micros == 0 {
        MetricOutcome::Failed
    } else {
        MetricOutcome::Measured(clamp_u64(throughput_bits_per_sec(bytes, duration_micros)))
    }
}

/// Judge a download sub-probe from its raw observation: whether the HTTP
/// exchange succeeded, how many payload bytes arrived, and the elapsed
/// wall-clock time in microseconds.
pub fn transfer_outcome(http_success: bool, bytes: u64, duration_micros: u64) -> (o: MetricOutcome)
    ensures
        o == spec_transfer_outcome(http_success, bytes, duration_micros),
{
    if !http_success || duration_micros == 0 {
        MetricOutcome::Failed
    } else {
        MetricOutcome::Measured(compute_throughput(bytes, duration_micros))
    }
}

/// Judge an upload sub-probe: the byte count is always the fixed payload
/// size, not a response-derived size.
pub fn upload_outcome(http_success: bool, duration_micros: u64) -> (o: MetricOutcome)
    ensures
        o == spec_transfer_outcome(http_success, UPLOAD_PAYLOAD_BYTES, duration_micros),
{
    transfer_outcome(http_success, UPLOAD_PAYLOAD_BYTES, duration_micros)
}

/// Judge a ping sub-probe: any failure of the HTTP exchange fails it;
/// otherwise the metric is the elapsed time in milliseconds as measured,
/// with no zero-duration fault rule.
pub fn ping_outcome(http_success: bool, elapsed_millis: u64) -> (o: MetricOutcome)
    ensures
        http_success ==> o == MetricOutcome::Measured(elapsed_millis),
        !http_success ==> o == MetricOutcome::Failed,
{
    if http_success {
        MetricOutcome::Measured(elapsed_millis)
    } else {
        MetricOutcome::Failed
    }
}

/// Assemble the overall result from the three sub-probe outcomes and the
/// timestamp taken at the start of the test, if one could be obtained.
///
/// The call fails only on a clock fault: every combination of sub-probe
/// outcomes yields a complete result, each failed metric collapsed to the
/// zero sentinel.
pub fn build_speed_test_result(
    ping: MetricOutcome,
    download: MetricOutcome,
    upload: MetricOutcome,
    timestamp: Option<u64>,
) -> (r: Result<SpeedTestResult, TestError>)
    ensures
        r is Ok <==> timestamp is Some,
        r matches Ok(s) ==> {
            &&& s.download_speed == metric_value(download)
            &&& s.upload_speed == metric_value(upload)
            &&& s.ping == metric_value(ping)
            &&& Some(s.timestamp) == timestamp
        },
        r matches Err(e) ==> e == TestError::ClockUnavailable,
{
    match timestamp {
        Some(ts) => Ok(
            SpeedTestResult {
                download_speed: collapse_metric(download),
                upload_speed: collapse_metric(upload),
                ping: collapse_metric(ping),
                timestamp: ts,
            },
        ),
        None => Err(TestError::ClockUnavailable),
    }
}

/// Collapse an outcome to its reported value: the measurement, or the zero
/// sentinel on failure.
pub fn collapse_metric(o: MetricOutcome) -> (v: u64)
    ensures
        v == metric_value(o),
{
    match o {
        MetricOutcome::Measured(v) => v,
        MetricOutcome::Failed => 0,
    }
}

} // verus!
