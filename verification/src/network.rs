//! Interface enumeration and the public classification entry points.
//!
//! Each call takes a fresh snapshot of the operating system's interface
//! table through a trusted wrapper over `netdev`, then classifies it with
//! the verified filters of [`crate::classify`]. Two calls enumerate
//! independently: records carry no identity across calls.

use vstd::prelude::*;

use crate::classify;
use crate::errors::{ClassificationError, EnumerationError};
use crate::models::NetworkInterfaceInfo;

verus! {

/// Relies on `netdev::get_interfaces` for the snapshot of OS interfaces, on
/// `netdev::Interface::is_up` / `is_loopback` for the OS flag bits, and on
/// `ipnet::Ipv4Net::addr` / `Ipv6Net::addr` for the bound addresses. The
/// result depends on the machine's state, so nothing is promised of it; the
/// verified callers state what holds whatever came back.
#[verifier::external_body]
fn enumerate_os_interfaces() -> (records: Vec<NetworkInterfaceInfo>)
{
    netdev::get_interfaces()
        .into_iter()
        .map(|i| NetworkInterfaceInfo {
            name: i.name.clone(),
            description: i.description.clone().unwrap_or_default(),
            is_up: i.is_up(),
            is_loopback: i.is_loopback(),
            ip_addresses: i.ipv4.iter().map(|ip| ip.addr().to_string())
                .chain(i.ipv6.iter().map(|ip| ip.addr().to_string()))
                .collect(),
        })
        .collect()
}

/// Every interface of a fresh enumeration pass, in OS-reported order, each
/// record well formed (non-empty name).
///
/// Enumeration here cannot itself fail — the error variant exists for the
/// caller that supervises the OS call and converts a platform fault.
pub fn get_all_interfaces() -> (r: Result<Vec<NetworkInterfaceInfo>, EnumerationError>)
    ensures
        r is Ok,
        r matches Ok(v) ==> forall|i: int| 0 <= i < v@.len() ==> (#[trigger] v@[i]).wf(),
{
    let raw = enumerate_os_interfaces();
    Ok(classify::retain_well_formed(raw))
}

/// The active interfaces of a fresh enumeration pass: up and not loopback,
/// in OS-reported order, each record well formed.
pub fn get_active_interfaces() -> (r: Result<Vec<NetworkInterfaceInfo>, ClassificationError>)
    ensures
        r is Ok,
        r matches Ok(v) ==> forall|i: int|
            0 <= i < v@.len() ==> classify::is_active(#[trigger] v@[i]) && v@[i].wf(),
{
    broadcast use vstd::seq_lib::group_filter_ensures;

    let raw = enumerate_os_interfaces();
    let sane = classify::retain_well_formed(raw);
    let ghost sane_view = sane@;
    let active = classify::filter_active(sane);
    proof {
        assert forall|i: int| 0 <= i < active@.len() implies (#[trigger] active@[i]).wf() by {
            classify::lemma_active_subset_sound(sane_view);
            assert(sane_view.contains(active@[i]));
            let j = choose|j: int| 0 <= j < sane_view.len() && sane_view[j] == active@[i];
            assert(sane_view[j].wf());
        }
    }
    Ok(active)
}

/// The interfaces counted as internet-connected in a fresh enumeration pass.
///
/// The reachability verdict is host-wide — the caller obtains it once from
/// the probe pass (`crate::probe`) and passes it in — so the result is the
/// whole active subset when the verdict is positive and empty otherwise,
/// never a true per-interface partition.
pub fn get_internet_connected_interfaces(internet_reachable: bool) -> (r: Result<
    Vec<NetworkInterfaceInfo>,
    ClassificationError,
>)
    ensures
        r is Ok,
        r matches Ok(v) ==> forall|i: int|
            0 <= i < v@.len() ==> classify::is_active(#[trigger] v@[i]) && v@[i].wf(),
        !internet_reachable ==> (r matches Ok(v) && v@ == Seq::<NetworkInterfaceInfo>::empty()),
{
    let raw = enumerate_os_interfaces();
    let sane = classify::retain_well_formed(raw);
    let ghost sane_view = sane@;
    let connected = classify::filter_internet_connected(sane, internet_reachable);
    proof {
        assert forall|i: int| 0 <= i < connected@.len() implies (#[trigger] connected@[i]).wf() by {
            classify::lemma_active_subset_sound(sane_view);
            assert(sane_view.contains(connected@[i]));
            let j = choose|j: int| 0 <= j < sane_view.len() && sane_view[j] == connected@[i];
            assert(sane_view[j].wf());
        }
    }
    Ok(connected)
}

} // verus!
