//! Connectivity classification: pure filtering of an enumeration pass.
//!
//! The classifier keeps the interfaces that are active (up and not loopback)
//! and, given the host-wide reachability verdict, the ones considered
//! internet-connected. Because the reachability probe is host-wide rather
//! than per-interface, the internet-connected subset is always either the
//! whole active subset or empty.

use vstd::prelude::*;

use crate::models::NetworkInterfaceInfo;

verus! {

broadcast use vstd::seq_lib::group_filter_ensures;

/// An interface is active when it is administratively up and not loopback.
pub open spec fn is_active(r: NetworkInterfaceInfo) -> bool {
    r.is_up && !r.is_loopback
}

/// The active subset of an enumeration pass, order preserved.
pub open spec fn active_subset(s: Seq<NetworkInterfaceInfo>) -> Seq<NetworkInterfaceInfo> {
    s.filter(|r: NetworkInterfaceInfo| is_active(r))
}

/// The records of an enumeration pass whose name is non-empty, order
/// preserved.
pub open spec fn well_formed_subset(s: Seq<NetworkInterfaceInfo>) -> Seq<NetworkInterfaceInfo> {
    s.filter(|r: NetworkInterfaceInfo| r.wf())
}

/// What an internet-connectivity classification keeps: the reachability
/// verdict holds for the host as a whole, so either every active interface
/// passes or none does.
pub open spec fn internet_connected_subset(
    s: Seq<NetworkInterfaceInfo>,
    reachable: bool,
) -> Seq<NetworkInterfaceInfo> {
    if reachable {
        active_subset(s)
    } else {
        Seq::<NetworkInterfaceInfo>::empty()
    }
}

/// Appending a record to an enumeration extends its active subset exactly
/// when the record is active.
proof fn lemma_active_subset_push(s: Seq<NetworkInterfaceInfo>, r: NetworkInterfaceInfo)
    ensures
        active_subset(s.push(r)) == if is_active(r) {
            active_subset(s).push(r)
        } else {
            active_subset(s)
        },
{
    reveal(Seq::filter);
    assert(s.push(r).drop_last() =~= s);
    assert(s.push(r).last() == r);
}

/// Appending a record to an enumeration extends its well-formed subset
/// exactly when the record is well formed.
proof fn lemma_well_formed_subset_push(s: Seq<NetworkInterfaceInfo>, r: NetworkInterfaceInfo)
    ensures
        well_formed_subset(s.push(r)) == if r.wf() {
            well_formed_subset(s).push(r)
        } else {
            well_formed_subset(s)
        },
{
    reveal(Seq::filter);
    assert(s.push(r).drop_last() =~= s);
    assert(s.push(r).last() == r);
}

/// Keep the interfaces that are up and not loopback, in enumeration order.
pub fn filter_active(records: Vec<NetworkInterfaceInfo>) -> (v: Vec<NetworkInterfaceInfo>)
    ensures
        v@ == active_subset(records@),
        forall|i: int| 0 <= i < v@.len() ==> is_active(#[trigger] v@[i]),
{
    let ghost orig = records@;
    let mut rest = records;
    let mut kept: Vec<NetworkInterfaceInfo> = Vec::new();
    while rest.len() > 0
        invariant
            rest.len() <= orig.len(),
            rest@ == orig.subrange(orig.len() - rest.len(), orig.len() as int),
            kept@ == active_subset(orig.subrange(0, orig.len() - rest.len())),
        decreases rest.len(),
    {
        let ghost done = orig.len() - rest.len();
        let r = rest.remove(0);
        proof {
            assert(rest@ =~= orig.subrange(done + 1, orig.len() as int));
            assert(orig.subrange(0, done + 1) =~= orig.subrange(0, done as int).push(r));
            lemma_active_subset_push(orig.subrange(0, done as int), r);
        }
        if r.is_up && !r.is_loopback {
            kept.push(r);
        }
    }
    proof {
        assert(orig.subrange(0, orig.len() as int) =~= orig);
    }
    kept
}

/// Keep the records whose OS-assigned name is non-empty, in enumeration
/// order. Establishes the record invariant for everything downstream.
pub fn retain_well_formed(records: Vec<NetworkInterfaceInfo>) -> (v: Vec<NetworkInterfaceInfo>)
    ensures
        v@ == well_formed_subset(records@),
        forall|i: int| 0 <= i < v@.len() ==> (#[trigger] v@[i]).wf(),
{
    let ghost orig = records@;
    let mut rest = records;
    let mut kept: Vec<NetworkInterfaceInfo> = Vec::new();
    while rest.len() > 0
        invariant
            rest.len() <= orig.len(),
            rest@ == orig.subrange(orig.len() - rest.len(), orig.len() as int),
            kept@ == well_formed_subset(orig.subrange(0, orig.len() - rest.len())),
        decreases rest.len(),
    {
        let ghost done = orig.len() - rest.len();
        let r = rest.remove(0);
        proof {
            assert(rest@ =~= orig.subrange(done + 1, orig.len() as int));
            assert(orig.subrange(0, done + 1) =~= orig.subrange(0, done as int).push(r));
            lemma_well_formed_subset_push(orig.subrange(0, done as int), r);
        }
        if !r.name.as_str().is_empty() {
            kept.push(r);
        }
    }
    proof {
        assert(orig.subrange(0, orig.len() as int) =~= orig);
    }
    kept
}

/// Keep the interfaces counted as internet-connected: the active ones when
/// the host-wide reachability verdict is positive, none otherwise.
pub fn filter_internet_connected(
    records: Vec<NetworkInterfaceInfo>,
    reachable: bool,
) -> (v: Vec<NetworkInterfaceInfo>)
    ensures
        v@ == internet_connected_subset(records@, reachable),
        forall|i: int| 0 <= i < v@.len() ==> is_active(#[trigger] v@[i]),
{
    if reachable {
        filter_active(records)
    } else {
        Vec::new()
    }
}

/// The active subset only ever holds active records, each taken from the
/// input sequence.
pub proof fn lemma_active_subset_sound(s: Seq<NetworkInterfaceInfo>)
    ensures
        forall|i: int| 0 <= i < active_subset(s).len() ==> is_active(#[trigger] active_subset(s)[i]),
        forall|i: int|
            0 <= i < active_subset(s).len() ==> s.contains(#[trigger] active_subset(s)[i]),
{
    let pred = |r: NetworkInterfaceInfo| is_active(r);
    lemma_filter_elements_from_input(s, pred);
}

/// The internet-connected subset is a subset of the active subset of the
/// same enumeration, and is either exactly the active subset or empty:
/// the reachability verdict is host-wide, never a per-interface partition.
pub proof fn lemma_internet_connected_subset_of_active(
    s: Seq<NetworkInterfaceInfo>,
    reachable: bool,
)
    ensures
        internet_connected_subset(s, reachable) == active_subset(s)
            || internet_connected_subset(s, reachable) == Seq::<NetworkInterfaceInfo>::empty(),
        forall|x: NetworkInterfaceInfo|
            internet_connected_subset(s, reachable).contains(x) ==> active_subset(s).contains(x),
{
}

/// Every element of a filtered sequence satisfies the predicate and occurs
/// in the input.
proof fn lemma_filter_elements_from_input(
    s: Seq<NetworkInterfaceInfo>,
    pred: spec_fn(NetworkInterfaceInfo) -> bool,
)
    ensures
        forall|i: int| 0 <= i < s.filter(pred).len() ==> pred(#[trigger] s.filter(pred)[i]),
        forall|i: int| 0 <= i < s.filter(pred).len() ==> s.contains(#[trigger] s.filter(pred)[i]),
    decreases s.len(),
{
    reveal(Seq::filter);
    if s.len() > 0 {
        lemma_filter_elements_from_input(s.drop_last(), pred);
        assert forall|i: int| 0 <= i < s.filter(pred).len() implies s.contains(
            #[trigger] s.filter(pred)[i],
        ) by {
            let f = s.filter(pred);
            let sub = s.drop_last().filter(pred);
            if i < sub.len() {
                assert(s.drop_last().contains(sub[i]));
                let j = choose|j: int| 0 <= j < s.drop_last().len() && s.drop_last()[j] == sub[i];
                assert(s[j] == f[i]);
            } else {
                assert(s[s.len() - 1] == f[i]);
            }
        }
    }
}

} // verus!
