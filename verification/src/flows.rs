//! Decisions of the background flows that keep the screens' view models
//! fresh.  Each flow reacts to daemon presence changes, daemon signals and
//! manual refresh requests; the application performs the fetches and
//! subscriptions these decisions ask for and reports their outcome back.

use crate::bus::ConnectionStatus;
use crate::signals::CoalescedNotifications;
use vstd::prelude::*;

verus! {

/// What the background flows need to know of the session: the user whose
/// data they fetch.
#[derive(Debug, Clone, Copy, PartialEq, Eq)]
pub struct FlowState {
    pub uid: u32,
}

/// An input of the dashboard flow.
#[derive(Debug, Clone, Copy, PartialEq, Eq)]
pub enum DashboardFlowEvent {
    /// The daemon's name appeared; `reachable` is the outcome of
    /// re-resolving the daemon's bus.
    DaemonAppeared { reachable: bool },
    DaemonDisappeared,
    DailyUsageChanged,
    BlockedAppsChanged,
    /// A signal stream ended (transient D-Bus failure).
    SignalStreamEnded,
    ManualRefresh,
}

/// What the dashboard flow does in response to an event.
#[derive(Debug, Clone, Copy, PartialEq, Eq)]
pub enum DashboardFlowAction {
    Nothing,
    /// Fetch all dashboard data; the result is stale unless the generation
    /// is still current when it arrives.
    FullFetch { generation: u64 },
    /// Fetch only the blocked applications and patch the view model.
    FetchBlocked,
}

/// State of the dashboard flow.
#[derive(Debug, Clone, Copy, PartialEq, Eq)]
pub struct DashboardFlow {
    pub proxy_subscribed: bool,
    pub daemon_available: bool,
    /// Generation of the latest requested full fetch.
    pub generation: u64,
}

pub open spec fn dashboard_step(s: DashboardFlow, e: DashboardFlowEvent) -> (DashboardFlow, DashboardFlowAction) {
    match e {
        DashboardFlowEvent::DaemonAppeared { reachable } => if reachable {
            (
                DashboardFlow { proxy_subscribed: false, daemon_available: true, generation: (s.generation + 1) as u64 },
                DashboardFlowAction::FullFetch { generation: (s.generation + 1) as u64 },
            )
        } else {
            (DashboardFlow { proxy_subscribed: false, daemon_available: false, ..s }, DashboardFlowAction::Nothing)
        },
        DashboardFlowEvent::DaemonDisappeared => (
            DashboardFlow { daemon_available: false, ..s },
            DashboardFlowAction::Nothing,
        ),
        DashboardFlowEvent::DailyUsageChanged => if s.daemon_available {
            (
                DashboardFlow { generation: (s.generation + 1) as u64, ..s },
                DashboardFlowAction::FullFetch { generation: (s.generation + 1) as u64 },
            )
        } else {
            (s, DashboardFlowAction::Nothing)
        },
        DashboardFlowEvent::BlockedAppsChanged => if s.daemon_available {
            (s, DashboardFlowAction::FetchBlocked)
        } else {
            (s, DashboardFlowAction::Nothing)
        },
        DashboardFlowEvent::SignalStreamEnded => (
            DashboardFlow { proxy_subscribed: false, ..s },
            DashboardFlowAction::Nothing,
        ),
        DashboardFlowEvent::ManualRefresh => (
            DashboardFlow { generation: (s.generation + 1) as u64, ..s },
            DashboardFlowAction::FullFetch { generation: (s.generation + 1) as u64 },
        ),
    }
}

impl DashboardFlow {
    /// A flow that has not subscribed yet and assumes the daemon is there.
    pub fn new() -> (r: DashboardFlow)
        ensures
            !r.proxy_subscribed,
            r.daemon_available,
            r.generation == 0,
    {
        DashboardFlow { proxy_subscribed: false, daemon_available: true, generation: 0 }
    }

    /// Whether to (re)subscribe to the daemon's signals now.
    pub fn should_subscribe(&self) -> (r: bool)
        ensures
            r == (!self.proxy_subscribed && self.daemon_available),
    {
        !self.proxy_subscribed && self.daemon_available
    }

    /// Record a subscription attempt: `Some(any)` when a proxy was created
    /// (`any` tells whether some signal stream was subscribed), `None` when
    /// creating the proxy failed or timed out.
    pub fn subscription_attempted(&mut self, outcome: Option<bool>)
        ensures
            final(self).proxy_subscribed == match outcome {
                Some(any) => any,
                None => old(self).proxy_subscribed,
            },
            final(self).daemon_available == old(self).daemon_available,
            final(self).generation == old(self).generation,
    {
        match outcome {
            Some(any) => {
                self.proxy_subscribed = any;
            },
            None => {},
        }
    }

    /// React to an event: a daemon appearance, a daily-usage change while
    /// the daemon is available and a manual refresh start a new full fetch
    /// generation; a blocked-apps change while available fetches the
    /// blocked list; losing the daemon or a signal stream only updates the
    /// state.
    pub fn handle(&mut self, event: DashboardFlowEvent) -> (r: DashboardFlowAction)
        requires
            old(self).generation < u64::MAX,
        ensures
            (*final(self), r) == dashboard_step(*old(self), event),
    {
        match event {
            DashboardFlowEvent::DaemonAppeared { reachable } => {
                self.daemon_available = reachable;
                self.proxy_subscribed = false;
                if reachable {
                    self.generation = self.generation + 1;
                    DashboardFlowAction::FullFetch { generation: self.generation }
                } else {
                    DashboardFlowAction::Nothing
                }
            },
            DashboardFlowEvent::DaemonDisappeared => {
                self.daemon_available = false;
                DashboardFlowAction::Nothing
            },
            DashboardFlowEvent::DailyUsageChanged => {
                if self.daemon_available {
                    self.generation = self.generation + 1;
                    DashboardFlowAction::FullFetch { generation: self.generation }
                } else {
                    DashboardFlowAction::Nothing
                }
            },
            DashboardFlowEvent::BlockedAppsChanged => {
                if self.daemon_available {
                    DashboardFlowAction::FetchBlocked
                } else {
                    DashboardFlowAction::Nothing
                }
            },
            DashboardFlowEvent::SignalStreamEnded => {
                self.proxy_subscribed = false;
                DashboardFlowAction::Nothing
            },
            DashboardFlowEvent::ManualRefresh => {
                self.generation = self.generation + 1;
                DashboardFlowAction::FullFetch { generation: self.generation }
            },
        }
    }

    /// Whether the result of the full fetch of `generation` is still the
    /// latest one requested (else it is discarded).
    pub fn fetch_is_current(&self, generation: u64) -> (r: bool)
        ensures
            r == (generation == self.generation),
    {
        generation == self.generation
    }
}

/// A full fetch started for an event is current until the next one starts,
/// and every later full fetch has a larger generation.
pub proof fn law_only_latest_fetch_applies(s: DashboardFlow, e1: DashboardFlowEvent, e2: DashboardFlowEvent)
    requires
        s.generation + 2 <= u64::MAX,
    ensures
        dashboard_step(s, e1).1 matches DashboardFlowAction::FullFetch { generation } ==> generation
            == dashboard_step(s, e1).0.generation,
        ({
            let s1 = dashboard_step(s, e1).0;
            dashboard_step(s1, e2).1 matches DashboardFlowAction::FullFetch { generation } ==> generation
                > s1.generation
        }),
        dashboard_step(s, e1).0.generation >= s.generation,
{
}

/// A lost signal stream, or the daemon appearing again, leaves the flow
/// unsubscribed, so it subscribes again while the daemon is available; a
/// lost stream changes nothing else and asks for no fetch.
pub proof fn law_lost_stream_resubscribes(s: DashboardFlow, reachable: bool)
    ensures
        !dashboard_step(s, DashboardFlowEvent::SignalStreamEnded).0.proxy_subscribed,
        dashboard_step(s, DashboardFlowEvent::SignalStreamEnded).0.daemon_available == s.daemon_available,
        dashboard_step(s, DashboardFlowEvent::SignalStreamEnded).0.generation == s.generation,
        dashboard_step(s, DashboardFlowEvent::SignalStreamEnded).1 == DashboardFlowAction::Nothing,
        !dashboard_step(s, DashboardFlowEvent::DaemonAppeared { reachable }).0.proxy_subscribed,
{
}

/// An input of the policies flow.
#[derive(Debug, Clone, Copy, PartialEq, Eq)]
pub enum PoliciesFlowEvent {
    /// The daemon's name appeared; `reachable` is the outcome of
    /// re-resolving the daemon's bus.
    DaemonAppeared { reachable: bool },
    DaemonDisappeared,
    PolicyMutated,
    SignalStreamEnded,
    ManualRefresh,
}

/// State of the policies flow.
#[derive(Debug, Clone, Copy, PartialEq, Eq)]
pub struct PoliciesFlow {
    pub proxy_subscribed: bool,
    pub daemon_available: bool,
}

impl PoliciesFlow {
    /// A flow that has not subscribed yet and assumes the daemon is there.
    pub fn new() -> (r: PoliciesFlow)
        ensures
            !r.proxy_subscribed,
            r.daemon_available,
    {
        PoliciesFlow { proxy_subscribed: false, daemon_available: true }
    }

    /// Whether to (re)subscribe to the daemon's signals now.
    pub fn should_subscribe(&self) -> (r: bool)
        ensures
            r == (!self.proxy_subscribed && self.daemon_available),
    {
        !self.proxy_subscribed && self.daemon_available
    }

    /// Record a subscription attempt: a created proxy counts as subscribed;
    /// when creating it failed the flow backs off (returns `true`) before
    /// trying again.
    pub fn subscription_attempted(&mut self, proxy_created: bool) -> (back_off: bool)
        ensures
            final(self).proxy_subscribed == (old(self).proxy_subscribed || proxy_created),
            final(self).daemon_available == old(self).daemon_available,
            back_off == !proxy_created,
    {
        if proxy_created {
            self.proxy_subscribed = true;
        }
        !proxy_created
    }

    /// React to an event; returns whether to fetch all policies data.  A
    /// reachable daemon appearance, a policy mutation or a manual refresh
    /// while the daemon is available fetch.
    pub fn handle(&mut self, event: PoliciesFlowEvent) -> (fetch: bool)
        ensures
            fetch == match event {
                PoliciesFlowEvent::DaemonAppeared { reachable } => reachable,
                PoliciesFlowEvent::PolicyMutated => old(self).daemon_available,
                PoliciesFlowEvent::ManualRefresh => old(self).daemon_available,
                _ => false,
            },
            final(self).daemon_available == match event {
                PoliciesFlowEvent::DaemonAppeared { reachable } => reachable,
                PoliciesFlowEvent::DaemonDisappeared => false,
                _ => old(self).daemon_available,
            },
            final(self).proxy_subscribed == match event {
                PoliciesFlowEvent::DaemonAppeared { .. } => false,
                PoliciesFlowEvent::SignalStreamEnded => false,
                _ => old(self).proxy_subscribed,
            },
    {
        match event {
            PoliciesFlowEvent::DaemonAppeared { reachable } => {
                self.daemon_available = reachable;
                self.proxy_subscribed = false;
                reachable
            },
            PoliciesFlowEvent::DaemonDisappeared => {
                self.daemon_available = false;
                false
            },
            PoliciesFlowEvent::PolicyMutated => self.daemon_available,
            PoliciesFlowEvent::SignalStreamEnded => {
                self.proxy_subscribed = false;
                false
            },
            PoliciesFlowEvent::ManualRefresh => self.daemon_available,
        }
    }
}

/// Which client caches to drop before a refresh.
#[derive(Debug, Clone, Copy, PartialEq, Eq)]
pub struct CacheInvalidation {
    pub usage_range: bool,
    pub usage_range_by_title: bool,
    pub day_events: bool,
    pub daily_titles: bool,
    pub policies: bool,
    pub categories: bool,
}

/// Caches to drop for coalesced signals: a usage change drops the usage,
/// title and day-event caches; a policy mutation drops the policy cache.
pub fn invalidation_for_signals(n: CoalescedNotifications) -> (r: CacheInvalidation)
    ensures
        r.usage_range == n.usage,
        r.usage_range_by_title == n.usage,
        r.day_events == n.usage,
        r.daily_titles == n.usage,
        r.policies == n.policy,
        !r.categories,
{
    CacheInvalidation {
        usage_range: n.usage,
        usage_range_by_title: n.usage,
        day_events: n.usage,
        daily_titles: n.usage,
        policies: n.policy,
        categories: false,
    }
}

/// Caches to drop on the periodic fallback refresh: all but the range-by-title cache.
pub fn invalidation_for_tick() -> (r: CacheInvalidation)
    ensures
        r.usage_range && !r.usage_range_by_title && r.day_events && r.daily_titles && r.policies
            && r.categories,
{
    CacheInvalidation {
        usage_range: true,
        usage_range_by_title: false,
        day_events: true,
        daily_titles: true,
        policies: true,
        categories: true,
    }
}

/// What the refresh loop does after a presence event, given whether the
/// client re-resolved the daemon and its status afterwards.
#[derive(Debug, Clone, Copy, PartialEq, Eq)]
pub struct PresenceUpdate {
    pub daemon_available: bool,
    /// Drop the data cached while degraded.
    pub clear_caches: bool,
    /// Subscribe to the daemon's signals again.
    pub resubscribe: bool,
}

/// After a reconnect the daemon is available as the status says, the caches
/// are dropped and signals resubscribed; otherwise it is unavailable.
pub fn presence_update(reconnected: bool, status: ConnectionStatus) -> (r: PresenceUpdate)
    ensures
        r.daemon_available == (reconnected && status is Connected),
        r.clear_caches == reconnected,
        r.resubscribe == reconnected,
{
    if reconnected {
        PresenceUpdate { daemon_available: status.is_connected(), clear_caches: true, resubscribe: true }
    } else {
        PresenceUpdate { daemon_available: false, clear_caches: false, resubscribe: false }
    }
}

} // verus!
