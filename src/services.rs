//! Services: the enable/start changes that bring an observed service to its
//! declared state, and which observed services are offered for adoption.
use vstd::prelude::*;
use crate::fingerprint::{hex_of, sha256_of, fingerprint_bytes};

verus! {

/// The declared state of a service.
#[derive(Clone, Copy, Debug, PartialEq, Eq, Structural)]
pub struct ServiceState {
    pub enabled: bool,
    pub started: bool,
}

/// A service as observed.
#[derive(Clone, Copy, Debug, PartialEq, Eq, Structural)]
pub struct CurrentService {
    pub exists: bool,
    pub enabled: bool,
    pub active: bool,
    /// Installed by the engine from a custom definition.
    pub is_custom: bool,
}

/// One change to a service.
#[derive(Clone, Copy, Debug, PartialEq, Eq, Structural)]
pub enum ServiceOp {
    Enable,
    Disable,
    Start,
    Stop,
}

/// Whether an existing service differs from its declaration.
pub open spec fn differs(desired: ServiceState, current: CurrentService) -> bool {
    current.exists && (current.enabled != desired.enabled || current.active != desired.started)
}

/// The changes for a service: the enablement first, then the running state,
/// each only where it differs. A service that does not exist is not touched.
pub open spec fn service_ops_of(desired: ServiceState, current: CurrentService) -> Seq<ServiceOp> {
    if !current.exists {
        Seq::empty()
    } else {
        (if current.enabled == desired.enabled {
            Seq::empty()
        } else if desired.enabled {
            seq![ServiceOp::Enable]
        } else {
            seq![ServiceOp::Disable]
        }) + (if current.active == desired.started {
            Seq::empty()
        } else if desired.started {
            seq![ServiceOp::Start]
        } else {
            seq![ServiceOp::Stop]
        })
    }
}

/// Whether an existing service differs from its declaration.
pub fn needs_change(desired: ServiceState, current: CurrentService) -> (r: bool)
    ensures
        r == differs(desired, current),
        r <==> service_ops_of(desired, current).len() > 0,
{
    current.exists && (current.enabled != desired.enabled || current.active != desired.started)
}

/// The changes that bring a service to its declared state.
pub fn service_ops(desired: ServiceState, current: CurrentService) -> (r: Vec<ServiceOp>)
    ensures
        r@ == service_ops_of(desired, current),
{
    let mut r: Vec<ServiceOp> = Vec::new();
    if current.exists {
        if current.enabled != desired.enabled {
            r.push(if desired.enabled { ServiceOp::Enable } else { ServiceOp::Disable });
        }
        if current.active != desired.started {
            r.push(if desired.started { ServiceOp::Start } else { ServiceOp::Stop });
        }
    }
    proof {
        assert(r@ =~= service_ops_of(desired, current));
    }
    r
}

/// Whether an observed service is offered for adoption: it exists, is not a
/// custom one, is not declared, and is enabled or running.
pub open spec fn discoverable(current: CurrentService, declared: bool) -> bool {
    current.exists && !current.is_custom && !declared && (current.enabled || current.active)
}

/// Whether an observed service is offered for adoption.
pub fn is_discoverable(current: CurrentService, declared: bool) -> (r: bool)
    ensures
        r == discoverable(current, declared),
{
    current.exists && !current.is_custom && !declared && (current.enabled || current.active)
}

/// The state written into the configuration when a service is adopted.
pub fn adopted_state(current: CurrentService) -> (r: ServiceState)
    ensures
        r.enabled == current.enabled,
        r.started == current.active,
        !differs(r, current),
{
    ServiceState { enabled: current.enabled, started: current.active }
}

/// What a service-state fingerprint covers.
pub open spec fn state_preimage(enabled: bool, started: bool) -> Seq<u8> {
    seq![if enabled { 1u8 } else { 0u8 }, if started { 1u8 } else { 0u8 }]
}

/// The fingerprint of a service state, declared or observed.
pub fn state_fingerprint(enabled: bool, started: bool) -> (r: String)
    ensures
        r@ == hex_of(sha256_of(state_preimage(enabled, started))),
{
    let data: Vec<u8> = vec![if enabled { 1u8 } else { 0u8 }, if started { 1u8 } else { 0u8 }];
    proof {
        assert(data@ =~= state_preimage(enabled, started));
    }
    fingerprint_bytes(data.as_slice())
}

} // verus!
