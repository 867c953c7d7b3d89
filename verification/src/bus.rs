//! Daemon bus selection and presence decisions.
//!
//! The daemon (`org.wellbeing.v1.Controller`) may run on the system bus or
//! on the session bus.  The client keeps a connection to both, resolves the
//! daemon in four steps preferring the system bus, and watches
//! `NameOwnerChanged` on both buses to notice restarts.  The D-Bus calls are
//! made by the application; this module holds the decisions.

use vstd::prelude::*;
use vstd::string::*;

verus! {

/// Which bus the daemon is connected to.
#[derive(Debug, Clone, Copy, PartialEq, Eq)]
pub enum BusType {
    System,
    Session,
}

/// Connection status with the daemon.
#[derive(Debug, Clone, Copy, PartialEq, Eq)]
pub enum ConnectionStatus {
    Connected(BusType),
    Disconnected,
}

impl ConnectionStatus {
    pub fn is_connected(&self) -> (r: bool)
        ensures
            r == (*self is Connected),
    {
        match self {
            ConnectionStatus::Connected(_) => true,
            ConnectionStatus::Disconnected => false,
        }
    }

    pub fn bus_type(&self) -> (r: Option<BusType>)
        ensures
            match *self {
                ConnectionStatus::Connected(b) => r == Some(b),
                ConnectionStatus::Disconnected => r is None,
            },
    {
        match self {
            ConnectionStatus::Connected(b) => Some(*b),
            ConnectionStatus::Disconnected => None,
        }
    }
}

/// A change of the daemon's presence seen through `NameOwnerChanged`; an
/// appearance carries the bus it was seen on.
#[derive(Debug, Clone, Copy, PartialEq, Eq)]
pub enum DaemonPresenceEvent {
    Appeared(BusType),
    Disappeared,
}

/// Well-known bus name of the daemon.
pub fn daemon_bus_name() -> (r: &'static str)
    ensures
        r@ == daemon_bus_name_text(),
{
    "org.wellbeing.v1.Controller"
}

pub closed spec fn daemon_bus_name_text() -> Seq<char> {
    "org.wellbeing.v1.Controller"@
}

/// Whether two texts are equal, character by character.
pub fn text_equal(a: &str, b: &str) -> (r: bool)
    ensures
        r == (a@ == b@),
{
    let n = a.unicode_len();
    if n != b.unicode_len() {
        return false;
    }
    let mut i: usize = 0;
    while i < n
        invariant
            n == a@.len(),
            n == b@.len(),
            i <= n,
            forall|k: int| 0 <= k < i ==> a@[k] == b@[k],
        decreases n - i,
    {
        if a.get_char(i) != b.get_char(i) {
            return false;
        }
        i += 1;
    }
    assert(a@ =~= b@);
    true
}

/// The presence event for a `NameOwnerChanged(name, old_owner, new_owner)`
/// seen on `bus`: none for another name or when both owners are empty; an
/// appearance when the new owner is not empty, else a disappearance.
pub open spec fn presence_event_spec(
    name: Seq<char>,
    old_owner: Seq<char>,
    new_owner: Seq<char>,
    bus: BusType,
) -> Option<DaemonPresenceEvent> {
    if name != daemon_bus_name_text() {
        None
    } else if new_owner.len() == 0 && old_owner.len() == 0 {
        None
    } else if new_owner.len() != 0 {
        Some(DaemonPresenceEvent::Appeared(bus))
    } else {
        Some(DaemonPresenceEvent::Disappeared)
    }
}

/// Classify a `NameOwnerChanged` signal seen on `bus`.
pub fn presence_event(name: &str, old_owner: &str, new_owner: &str, bus: BusType) -> (r: Option<
    DaemonPresenceEvent,
>)
    ensures
        r == presence_event_spec(name@, old_owner@, new_owner@, bus),
{
    if !text_equal(name, daemon_bus_name()) {
        return None;
    }
    let new_empty = new_owner.unicode_len() == 0;
    let old_empty = old_owner.unicode_len() == 0;
    if new_empty && old_empty {
        None
    } else if !new_empty {
        Some(DaemonPresenceEvent::Appeared(bus))
    } else {
        Some(DaemonPresenceEvent::Disappeared)
    }
}

/// Whether a `StartServiceByName` reply means the service runs: 1 (started)
/// or 2 (already running).
pub fn service_start_succeeded(reply: u32) -> (r: bool)
    ensures
        r == (reply == 1 || reply == 2),
{
    reply == 1 || reply == 2
}

/// One probe of the four-step daemon resolution.
#[derive(Debug, Clone, Copy, PartialEq, Eq)]
pub enum ResolveProbe {
    /// Does the daemon's name have an owner on the system bus?
    SystemOwner,
    /// Does the daemon's name have an owner on the session bus?
    SessionOwner,
    /// Can the daemon be activated on the system bus (start succeeded and
    /// the name then has an owner)?
    SystemActivation,
    /// Can the daemon be activated on the session bus?
    SessionActivation,
}

/// What the resolution does next.
#[derive(Debug, Clone, Copy, PartialEq, Eq)]
pub enum ResolveStep {
    Probe(ResolveProbe),
    Found(BusType),
    Unreachable,
}

/// The first probe of a resolution.
pub fn first_probe() -> (r: ResolveProbe)
    ensures
        r == ResolveProbe::SystemOwner,
{
    ResolveProbe::SystemOwner
}

pub open spec fn next_step(probe: ResolveProbe, ok: bool) -> ResolveStep {
    match probe {
        ResolveProbe::SystemOwner => if ok {
            ResolveStep::Found(BusType::System)
        } else {
            ResolveStep::Probe(ResolveProbe::SessionOwner)
        },
        ResolveProbe::SessionOwner => if ok {
            ResolveStep::Found(BusType::Session)
        } else {
            ResolveStep::Probe(ResolveProbe::SystemActivation)
        },
        ResolveProbe::SystemActivation => if ok {
            ResolveStep::Found(BusType::System)
        } else {
            ResolveStep::Probe(ResolveProbe::SessionActivation)
        },
        ResolveProbe::SessionActivation => if ok {
            ResolveStep::Found(BusType::Session)
        } else {
            ResolveStep::Unreachable
        },
    }
}

/// The step after `probe` answered `ok`.
pub fn after_probe(probe: ResolveProbe, ok: bool) -> (r: ResolveStep)
    ensures
        r == next_step(probe, ok),
{
    match probe {
        ResolveProbe::SystemOwner => if ok {
            ResolveStep::Found(BusType::System)
        } else {
            ResolveStep::Probe(ResolveProbe::SessionOwner)
        },
        ResolveProbe::SessionOwner => if ok {
            ResolveStep::Found(BusType::Session)
        } else {
            ResolveStep::Probe(ResolveProbe::SystemActivation)
        },
        ResolveProbe::SystemActivation => if ok {
            ResolveStep::Found(BusType::System)
        } else {
            ResolveStep::Probe(ResolveProbe::SessionActivation)
        },
        ResolveProbe::SessionActivation => if ok {
            ResolveStep::Found(BusType::Session)
        } else {
            ResolveStep::Unreachable
        },
    }
}

/// The bus the resolution settles on, given what each probe would answer:
/// an owner on the system bus, else an owner on the session bus, else a
/// system activation, else a session activation, else none.
pub open spec fn preferred_bus(
    system_owner: bool,
    session_owner: bool,
    system_activation: bool,
    session_activation: bool,
) -> Option<BusType> {
    if system_owner {
        Some(BusType::System)
    } else if session_owner {
        Some(BusType::Session)
    } else if system_activation {
        Some(BusType::System)
    } else if session_activation {
        Some(BusType::Session)
    } else {
        None
    }
}

pub open spec fn answer(probe: ResolveProbe, a: bool, b: bool, c: bool, d: bool) -> bool {
    match probe {
        ResolveProbe::SystemOwner => a,
        ResolveProbe::SessionOwner => b,
        ResolveProbe::SystemActivation => c,
        ResolveProbe::SessionActivation => d,
    }
}

/// Runs the resolution from `step` for at most `fuel` more probes, each
/// answered from `(a, b, c, d)`.
pub open spec fn drive(step: ResolveStep, fuel: nat, a: bool, b: bool, c: bool, d: bool) -> ResolveStep
    decreases fuel,
{
    match step {
        ResolveStep::Probe(p) => if fuel == 0 {
            step
        } else {
            drive(next_step(p, answer(p, a, b, c, d)), (fuel - 1) as nat, a, b, c, d)
        },
        _ => step,
    }
}

/// Driving the resolution from the first probe ends, within four probes, in
/// the preferred bus or in "unreachable".
pub proof fn law_resolution_prefers_system_bus(a: bool, b: bool, c: bool, d: bool)
    ensures
        drive(ResolveStep::Probe(ResolveProbe::SystemOwner), 4, a, b, c, d) == match preferred_bus(
            a,
            b,
            c,
            d,
        ) {
            Some(bus) => ResolveStep::Found(bus),
            None => ResolveStep::Unreachable,
        },
{
    reveal_with_fuel(drive, 5);
}

/// The status recorded after a resolution that found `found`.
pub fn status_after_resolution(found: Option<BusType>) -> (r: ConnectionStatus)
    ensures
        r == match found {
            Some(b) => ConnectionStatus::Connected(b),
            None => ConnectionStatus::Disconnected,
        },
{
    match found {
        Some(b) => ConnectionStatus::Connected(b),
        None => ConnectionStatus::Disconnected,
    }
}

/// The other bus.
pub fn other_bus(bus: BusType) -> (r: BusType)
    ensures
        r != bus,
{
    match bus {
        BusType::System => BusType::Session,
        BusType::Session => BusType::System,
    }
}

/// The bus to use for proxies and signal subscriptions: the daemon's bus
/// while connected, the system bus while disconnected.
pub fn active_bus(status: ConnectionStatus) -> (r: BusType)
    ensures
        r == match status {
            ConnectionStatus::Connected(b) => b,
            ConnectionStatus::Disconnected => BusType::System,
        },
{
    match status {
        ConnectionStatus::Connected(b) => b,
        ConnectionStatus::Disconnected => BusType::System,
    }
}

/// The buses on which to try creating a daemon proxy directly, in order,
/// before falling back to a full resolution: the daemon's bus then the other
/// one while connected; none while disconnected.
pub fn direct_proxy_buses(status: ConnectionStatus) -> (r: Vec<BusType>)
    ensures
        r@ == match status {
            ConnectionStatus::Connected(b) => seq![b, if b == BusType::System {
                BusType::Session
            } else {
                BusType::System
            }],
            ConnectionStatus::Disconnected => Seq::<BusType>::empty(),
        },
{
    let mut v = Vec::new();
    match status {
        ConnectionStatus::Connected(b) => {
            v.push(b);
            v.push(other_bus(b));
            assert(v@ =~= seq![b, if b == BusType::System {
                BusType::Session
            } else {
                BusType::System
            }]);
        },
        ConnectionStatus::Disconnected => {
            assert(v@ =~= Seq::<BusType>::empty());
        },
    }
    v
}

/// What a client re-resolution does with its result.
#[derive(Debug, Clone, Copy, PartialEq, Eq)]
pub struct ReResolveOutcome {
    /// Status after the re-resolution.
    pub status: ConnectionStatus,
    /// Whether the client switches to the new connection and proxy.
    pub switch_connection: bool,
    /// Whether the active bus changed: the client switched to a bus other
    /// than the one it was connected to.
    pub changed: bool,
}

/// Decide a client re-resolution: when the daemon is found on `bus`, the
/// client switches (and becomes connected there) only if a proxy could be
/// created, and the active bus has changed when it switched to a bus it was
/// not connected to; when the daemon is not found, the client becomes
/// disconnected and its active bus has not changed.
pub fn re_resolve_outcome(old: ConnectionStatus, found: Option<BusType>, proxy_ok: bool) -> (r:
    ReResolveOutcome)
    ensures
        match found {
            Some(bus) => {
                &&& r.changed == (proxy_ok && old != ConnectionStatus::Connected(bus))
                &&& r.switch_connection == proxy_ok
                &&& r.status == if proxy_ok {
                    ConnectionStatus::Connected(bus)
                } else {
                    old
                }
            },
            None => {
                &&& !r.changed
                &&& !r.switch_connection
                &&& r.status == ConnectionStatus::Disconnected
            },
        },
{
    match found {
        Some(bus) => {
            let changed = proxy_ok && match old {
                ConnectionStatus::Connected(b) => match (b, bus) {
                    (BusType::System, BusType::System) => false,
                    (BusType::Session, BusType::Session) => false,
                    _ => true,
                },
                ConnectionStatus::Disconnected => true,
            };
            ReResolveOutcome {
                status: if proxy_ok {
                    ConnectionStatus::Connected(bus)
                } else {
                    old
                },
                switch_connection: proxy_ok,
                changed,
            }
        },
        None => ReResolveOutcome {
            status: ConnectionStatus::Disconnected,
            switch_connection: false,
            changed: false,
        },
    }
}

/// The banner text of a connection status.
pub fn connection_status_text(status: ConnectionStatus) -> (r: &'static str)
    ensures
        r@ == match status {
            ConnectionStatus::Connected(BusType::System) => "Connected (System)"@,
            ConnectionStatus::Connected(BusType::Session) => "Connected (Session)"@,
            ConnectionStatus::Disconnected => "Disconnected"@,
        },
{
    match status {
        ConnectionStatus::Connected(BusType::System) => "Connected (System)",
        ConnectionStatus::Connected(BusType::Session) => "Connected (Session)",
        ConnectionStatus::Disconnected => "Disconnected",
    }
}

} // verus!
