//! Folding the health of each local storage device into one signal.

use vstd::prelude::*;

verus! {

/// What querying one device's SMART status gave.
#[derive(Clone, Copy, Debug, PartialEq, Eq, Structural)]
pub enum Probe {
    /// The device could not be opened for a health query.
    OpenFailed,
    /// The device opened, but the status query failed.
    QueryFailed,
    /// The device reported its status: `true` when it is good.
    Reported(bool),
}

/// How a device whose status could not be determined is counted.
#[derive(Clone, Copy, Debug, PartialEq, Eq, Structural)]
pub enum Policy {
    /// It is left out of the aggregate (the default): unsupported virtual or
    /// removable devices raise no alarm.
    FailOpen,
    /// It counts as unhealthy.
    FailClosed,
}

/// The health of one device.
#[derive(Clone, Copy, Debug, PartialEq, Eq, Structural)]
pub enum DeviceStatus {
    Good,
    Degraded,
    Unknown,
}

/// The health of all devices together.
#[derive(Clone, Copy, Debug, PartialEq, Eq, Structural)]
pub enum Overall {
    Healthy,
    Unhealthy,
    /// No device was counted, so nothing can be said.
    Indeterminate,
}

/// The aggregate, with the status of each device in the order probed.
#[derive(Debug)]
pub struct DeviceHealth {
    pub overall: Overall,
    pub statuses: Vec<DeviceStatus>,
}

/// The status that a probe shows.
pub open spec fn status_of(p: Probe) -> DeviceStatus {
    match p {
        Probe::Reported(true) => DeviceStatus::Good,
        Probe::Reported(false) => DeviceStatus::Degraded,
        _ => DeviceStatus::Unknown,
    }
}

/// The device takes part in the aggregate under `policy`.
pub open spec fn counted(p: Probe, policy: Policy) -> bool {
    p is Reported || policy == Policy::FailClosed
}

/// The overall health of the probed devices under `policy`: indeterminate
/// where no device is counted, else healthy exactly when every counted device
/// reported a good status.
pub open spec fn overall_of(probes: Seq<Probe>, policy: Policy) -> Overall {
    if forall|i: int| 0 <= i < probes.len() ==> !counted(#[trigger] probes[i], policy) {
        Overall::Indeterminate
    } else if forall|i: int|
        0 <= i < probes.len() && counted(#[trigger] probes[i], policy) ==> probes[i]
            == Probe::Reported(true) {
        Overall::Healthy
    } else {
        Overall::Unhealthy
    }
}

/// The status of one device.
pub fn device_status(p: Probe) -> (r: DeviceStatus)
    ensures
        r == status_of(p),
{
    match p {
        Probe::Reported(true) => DeviceStatus::Good,
        Probe::Reported(false) => DeviceStatus::Degraded,
        _ => DeviceStatus::Unknown,
    }
}

/// Aggregates the probes of all local storage devices under `policy`.
pub fn aggregate(probes: &Vec<Probe>, policy: Policy) -> (r: DeviceHealth)
    ensures
        r.overall == overall_of(probes@, policy),
        r.statuses@.len() == probes@.len(),
        forall|i: int| 0 <= i < probes@.len() ==> #[trigger] r.statuses@[i] == status_of(probes@[i]),
{
    let mut statuses: Vec<DeviceStatus> = Vec::new();
    let mut any_counted = false;
    let mut all_good = true;
    let mut i: usize = 0;
    while i < probes.len()
        invariant
            i <= probes@.len(),
            statuses@.len() == i,
            forall|j: int| 0 <= j < i ==> #[trigger] statuses@[j] == status_of(probes@[j]),
            any_counted == exists|j: int| 0 <= j < i && counted(#[trigger] probes@[j], policy),
            all_good == forall|j: int|
                0 <= j < i && counted(#[trigger] probes@[j], policy) ==> probes@[j]
                    == Probe::Reported(true),
        decreases probes@.len() - i,
    {
        let p = probes[i];
        statuses.push(device_status(p));
        let is_counted = match p {
            Probe::Reported(_) => true,
            _ => policy == Policy::FailClosed,
        };
        if is_counted {
            any_counted = true;
            if p != Probe::Reported(true) {
                all_good = false;
            }
        }
        i = i + 1;
    }
    let overall = if !any_counted {
        Overall::Indeterminate
    } else if all_good {
        Overall::Healthy
    } else {
        Overall::Unhealthy
    };
    DeviceHealth { overall, statuses }
}

/// The SMART health of the local storage devices under the default,
/// fail-open policy: `Some(true)` when every device that reported is good,
/// `Some(false)` when one reported a fault, and `None` when none reported.
pub fn smart_status_ok(probes: &Vec<Probe>) -> (r: Option<bool>)
    ensures
        r == match overall_of(probes@, Policy::FailOpen) {
            Overall::Healthy => Some(true),
            Overall::Unhealthy => Some(false),
            Overall::Indeterminate => None::<bool>,
        },
{
    match aggregate(probes, Policy::FailOpen).overall {
        Overall::Healthy => Some(true),
        Overall::Unhealthy => Some(false),
        Overall::Indeterminate => None,
    }
}

/// Where no device could report its status, the fail-open aggregate is
/// indeterminate, never healthy.
pub proof fn lemma_nothing_reported(probes: Seq<Probe>)
    requires
        forall|i: int| 0 <= i < probes.len() ==> !(#[trigger] probes[i] is Reported),
    ensures
        overall_of(probes, Policy::FailOpen) == Overall::Indeterminate,
{
}

/// Under fail-open, a further device that cannot be opened or queried
/// leaves the aggregate as it was.
pub proof fn lemma_fail_open_skips_unknown(probes: Seq<Probe>, p: Probe)
    requires
        !(p is Reported),
    ensures
        overall_of(probes.push(p), Policy::FailOpen) == overall_of(probes, Policy::FailOpen),
{
    let q = probes.push(p);
    let n = probes.len() as int;
    assert(forall|i: int| 0 <= i < n ==> #[trigger] q[i] == probes[i]);
    assert(!counted(q[n], Policy::FailOpen));
    if forall|i: int| 0 <= i < n ==> !counted(#[trigger] probes[i], Policy::FailOpen) {
        assert forall|i: int| 0 <= i < q.len() implies !counted(#[trigger] q[i], Policy::FailOpen) by {
            if i < n {
                assert(q[i] == probes[i]);
            }
        }
    } else {
        let w = choose|i: int| 0 <= i < n && counted(#[trigger] probes[i], Policy::FailOpen);
        assert(counted(q[w], Policy::FailOpen));
        if forall|i: int|
            0 <= i < n && counted(#[trigger] probes[i], Policy::FailOpen) ==> probes[i]
                == Probe::Reported(true) {
            assert forall|i: int|
                0 <= i < q.len() && counted(#[trigger] q[i], Policy::FailOpen) implies q[i]
                == Probe::Reported(true) by {
                if i < n {
                    assert(q[i] == probes[i]);
                }
            }
        } else {
            let b = choose|i: int|
                0 <= i < n && counted(#[trigger] probes[i], Policy::FailOpen) && probes[i]
                    != Probe::Reported(true);
            assert(q[b] == probes[b]);
        }
    }
}

} // verus!
