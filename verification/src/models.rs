//! Value types produced by one enumeration or measurement pass.
//!
//! Every entity here is constructed fresh on each call, never mutated, and
//! never cached across calls.

use vstd::prelude::*;

verus! {

/// One network adapter discovered in a single enumeration pass.
///
/// `ip_addresses` holds the textual IPv4 addresses first, then the IPv6
/// addresses, in the order the operating system reported them.
#[derive(Debug)]
pub struct NetworkInterfaceInfo {
    /// Stable OS-assigned identifier; non-empty for a well-formed record.
    pub name: String,
    /// Human-readable adapter description; may be empty.
    pub description: String,
    /// Administrative/operational state of the adapter.
    pub is_up: bool,
    /// True for loopback adapters.
    pub is_loopback: bool,
    /// Textual addresses bound to the adapter; may be empty.
    pub ip_addresses: Vec<String>,
}

/// The mathematical model of a `NetworkInterfaceInfo`: the same fields with
/// strings and vectors abstracted to sequences.
pub struct InterfaceView {
    pub name: Seq<char>,
    pub description: Seq<char>,
    pub is_up: bool,
    pub is_loopback: bool,
    pub ip_addresses: Seq<Seq<char>>,
}

impl View for NetworkInterfaceInfo {
    type V = InterfaceView;

    open spec fn view(&self) -> InterfaceView {
        InterfaceView {
            name: self.name@,
            description: self.description@,
            is_up: self.is_up,
            is_loopback: self.is_loopback,
            ip_addresses: Seq::new(self.ip_addresses@.len(), |i: int| self.ip_addresses@[i]@),
        }
    }
}

impl NetworkInterfaceInfo {
    /// A record is well formed when its OS-assigned name is non-empty.
    pub open spec fn wf(&self) -> bool {
        self@.name.len() > 0
    }
}

/// A fresh vector holding the same strings.
fn clone_strings(v: &Vec<String>) -> (r: Vec<String>)
    ensures
        r@ == v@,
{
    let mut r: Vec<String> = Vec::new();
    let mut i: usize = 0;
    while i < v.len()
        invariant
            i <= v@.len(),
            r@ == v@.subrange(0, i as int),
        decreases v@.len() - i,
    {
        r.push(v[i].clone());
        proof {
            assert(v@.subrange(0, i + 1) =~= v@.subrange(0, i as int).push(v@[i as int]));
        }
        i = i + 1;
    }
    proof {
        assert(v@.subrange(0, v@.len() as int) =~= v@);
    }
    r
}

impl Clone for NetworkInterfaceInfo {
    /// The clone carries the same fields as the original record.
    fn clone(&self) -> (r: Self)
        ensures
            r.name == self.name,
            r.description == self.description,
            r.is_up == self.is_up,
            r.is_loopback == self.is_loopback,
            r.ip_addresses@ == self.ip_addresses@,
            r@ == self@,
    {
        let r = NetworkInterfaceInfo {
            name: self.name.clone(),
            description: self.description.clone(),
            is_up: self.is_up,
            is_loopback: self.is_loopback,
            ip_addresses: clone_strings(&self.ip_addresses),
        };
        proof {
            assert(r@.ip_addresses =~= self@.ip_addresses);
        }
        r
    }
}

/// One completed link performance test: a single point-in-time sample,
/// never aggregated with prior samples.
///
/// Speeds are in bits per second and the ping in milliseconds; a value of
/// zero is the sentinel for a failed sub-probe, so no metric is ever
/// negative.
#[derive(Debug, Clone, Copy, PartialEq, Eq, Structural)]
pub struct SpeedTestResult {
    /// Download throughput in bits per second; 0 when the sub-probe failed.
    pub download_speed: u64,
    /// Upload throughput in bits per second; 0 when the sub-probe failed.
    pub upload_speed: u64,
    /// Round-trip latency in milliseconds; 0 when the sub-probe failed.
    pub ping: u64,
    /// Unix epoch seconds at which the test was initiated.
    pub timestamp: u64,
}

/// Per-interface rolling measurement. An extension point: nothing in this
/// crate produces one yet.
#[derive(Debug, Clone)]
pub struct InterfaceSpeedData {
    pub interface_name: String,
    /// Receive rate in bits per second.
    pub rx_speed: u64,
    /// Transmit rate in bits per second.
    pub tx_speed: u64,
    /// Unix epoch seconds of the sample.
    pub timestamp: u64,
}

} // verus!
