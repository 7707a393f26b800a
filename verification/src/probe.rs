//! Reachability probing: the endpoint configuration and the verdict logic.
//!
//! A probe is one bounded-timeout TCP connect attempt per endpoint, tried in
//! order with a short circuit on the first success. The connect attempts
//! themselves are network I/O performed by the caller; this module fixes the
//! endpoint list and decides the verdict from the attempt outcomes, so the
//! decision is verified for every possible sequence of outcomes.

use vstd::prelude::*;

verus! {

/// Timeout for one TCP connect attempt, in seconds.
pub const PROBE_TIMEOUT_SECS: u64 = 3;

/// One reachability endpoint: an IPv4 address and a TCP port.
#[derive(Debug, Clone, Copy, PartialEq, Eq, Structural)]
pub struct ProbeEndpoint {
    /// The four octets of the IPv4 address, most significant first.
    pub octet_a: u8,
    pub octet_b: u8,
    pub octet_c: u8,
    pub octet_d: u8,
    /// The TCP port to connect to.
    pub port: u16,
}

/// The fixed, ordered list of well-known endpoints probed for host-wide
/// internet reachability: two public DNS resolvers on port 53.
pub fn reachability_endpoints() -> (v: Vec<ProbeEndpoint>)
    ensures
        v@.len() == 2,
        v@[0] == (ProbeEndpoint { octet_a: 8, octet_b: 8, octet_c: 8, octet_d: 8, port: 53 }),
        v@[1] == (ProbeEndpoint { octet_a: 1, octet_b: 1, octet_c: 1, octet_d: 1, port: 53 }),
{
    let mut v: Vec<ProbeEndpoint> = Vec::new();
    v.push(ProbeEndpoint { octet_a: 8, octet_b: 8, octet_c: 8, octet_d: 8, port: 53 });
    v.push(ProbeEndpoint { octet_a: 1, octet_b: 1, octet_c: 1, octet_d: 1, port: 53 });
    v
}

/// Whether any attempt in a probe pass succeeded.
pub open spec fn any_attempt_succeeded(attempts: Seq<bool>) -> bool {
    exists|i: int| 0 <= i < attempts.len() && attempts[i]
}

/// The host-wide reachability verdict over the outcomes of the connect
/// attempts, one `bool` per endpoint in probe order: reachable exactly when
/// some attempt succeeded, `false` when every attempt failed or timed out.
pub fn reachability_verdict(attempts: &Vec<bool>) -> (reachable: bool)
    ensures
        reachable == any_attempt_succeeded(attempts@),
{
    let mut i: usize = 0;
    while i < attempts.len()
        invariant
            i <= attempts.len(),
            forall|j: int| 0 <= j < i ==> !attempts@[j],
        decreases attempts.len() - i,
    {
        if attempts[i] {
            return true;
        }
        i = i + 1;
    }
    false
}

/// When every endpoint attempt fails or times out, the verdict is
/// unreachable. The probe pass is one bounded attempt per endpoint with no
/// retries, so the caller's total wait is bounded by the sum of the
/// per-endpoint timeouts.
pub proof fn lemma_all_attempts_failed_unreachable(attempts: Seq<bool>)
    requires
        forall|i: int| 0 <= i < attempts.len() ==> !attempts[i],
    ensures
        !any_attempt_succeeded(attempts),
{
}

} // verus!
