use chrono::{DateTime, Utc};
use wellbeing_gui::appshell::{connection_status_label, AppViewModels, RenderMode, ShellState, Tab};
use wellbeing_gui::bus::{
    active_bus, after_probe, direct_proxy_buses, first_probe, presence_event, re_resolve_outcome,
    service_start_succeeded, status_after_resolution, BusType, ConnectionStatus,
    DaemonPresenceEvent, ResolveProbe, ResolveStep,
};
use wellbeing_gui::client::{
    app_categories_key, categories_key, daily_title_key, day_events_key, policies_key,
    usage_range_by_title_key, usage_range_key,
};
use wellbeing_gui::clock::{CalendarDate, MAX_TIMESTAMP_MILLIS, MIN_TIMESTAMP_MILLIS};
use wellbeing_gui::dashboard::DashboardViewModel;
use wellbeing_gui::flows::{
    invalidation_for_signals, invalidation_for_tick, presence_update, DashboardFlow,
    DashboardFlowAction, DashboardFlowEvent, PoliciesFlow, PoliciesFlowEvent,
};
use wellbeing_gui::signals::{CoalescedNotifications, SignalCoalescer, SignalKind};
use wellbeing_gui::text::{decimal_string, format_duration};

#[test]
fn format_duration_rounds_minutes_up() {
    assert_eq!(format_duration(0), "0m");
    assert_eq!(format_duration(1), "1m");
    assert_eq!(format_duration(60_000), "1m");
    assert_eq!(format_duration(59 * 60_000 + 1), "1h");
    assert_eq!(format_duration(3_600_000), "1h");
    assert_eq!(format_duration(5_400_000), "1h 30m");
    assert_eq!(format_duration(-120_000), "-1m");
}

#[test]
fn decimal_text_of_extremes() {
    assert_eq!(decimal_string(i64::MIN), i64::MIN.to_string());
    assert_eq!(decimal_string(i64::MAX), i64::MAX.to_string());
    assert_eq!(decimal_string(-7), "-7");
    assert_eq!(decimal_string(1040), "1040");
}

#[test]
fn chrono_range_constants_match_chrono() {
    assert_eq!(DateTime::<Utc>::MIN_UTC.timestamp_millis(), MIN_TIMESTAMP_MILLIS);
    assert_eq!(DateTime::<Utc>::MAX_UTC.timestamp_millis(), MAX_TIMESTAMP_MILLIS);
    assert!(CalendarDate::new(2024, 2, 29).is_some());
    assert!(CalendarDate::new(2023, 2, 29).is_none());
    assert!(CalendarDate::new(1900, 2, 29).is_none());
    assert!(CalendarDate::new(262_143, 1, 1).is_none());
    assert_eq!(CalendarDate::new(1970, 1, 1).unwrap().midnight_millis(), 0);
}

#[test]
fn coalescer_drains_marks_once() {
    let mut c = SignalCoalescer::new();
    assert!(!c.drain().any());
    c.mark_blocked_dirty();
    c.mark_blocked_dirty();
    c.mark_policy_dirty();
    let n = c.drain();
    assert!(n.blocked && !n.usage && n.policy);
    assert!(!c.drain().any());
    let sent = c.record_signal(SignalKind::DailyUsageChanged);
    assert!(sent.usage && !sent.blocked && !sent.policy);
    assert!(c.drain().usage);
    assert!(!CoalescedNotifications::default().any());
}

#[test]
fn presence_events_from_name_owner_changes() {
    let name = "org.wellbeing.v1.Controller";
    assert_eq!(presence_event(name, "", ":1.5", BusType::Session), Some(DaemonPresenceEvent::Appeared(BusType::Session)));
    assert_eq!(presence_event(name, ":1.5", "", BusType::System), Some(DaemonPresenceEvent::Disappeared));
    assert_eq!(presence_event(name, "", "", BusType::System), None);
    assert_eq!(presence_event("org.other", "", ":1.2", BusType::System), None);
}

#[test]
fn resolution_prefers_system_bus() {
    let mut step = ResolveStep::Probe(first_probe());
    let answers = |p: ResolveProbe| matches!(p, ResolveProbe::SessionOwner | ResolveProbe::SystemActivation);
    while let ResolveStep::Probe(p) = step {
        step = after_probe(p, answers(p));
    }
    assert_eq!(step, ResolveStep::Found(BusType::Session));
    assert_eq!(after_probe(ResolveProbe::SessionActivation, false), ResolveStep::Unreachable);
    assert!(service_start_succeeded(1) && service_start_succeeded(2) && !service_start_succeeded(0));
    assert_eq!(status_after_resolution(None), ConnectionStatus::Disconnected);
}

#[test]
fn proxy_bus_choices() {
    assert_eq!(active_bus(ConnectionStatus::Disconnected), BusType::System);
    assert_eq!(active_bus(ConnectionStatus::Connected(BusType::Session)), BusType::Session);
    assert_eq!(direct_proxy_buses(ConnectionStatus::Connected(BusType::Session)), vec![BusType::Session, BusType::System]);
    assert!(direct_proxy_buses(ConnectionStatus::Disconnected).is_empty());
    let o = re_resolve_outcome(ConnectionStatus::Connected(BusType::System), Some(BusType::System), true);
    assert!(!o.changed && o.switch_connection);
    let o = re_resolve_outcome(ConnectionStatus::Connected(BusType::System), Some(BusType::Session), false);
    assert!(!o.changed && !o.switch_connection);
    assert_eq!(o.status, ConnectionStatus::Connected(BusType::System));
    let o = re_resolve_outcome(ConnectionStatus::Connected(BusType::System), Some(BusType::Session), true);
    assert!(o.changed && o.switch_connection);
    assert_eq!(o.status, ConnectionStatus::Connected(BusType::Session));
    let o = re_resolve_outcome(ConnectionStatus::Disconnected, Some(BusType::System), false);
    assert!(!o.changed && o.status == ConnectionStatus::Disconnected);
    let o = re_resolve_outcome(ConnectionStatus::Connected(BusType::System), None, true);
    assert_eq!(o.status, ConnectionStatus::Disconnected);
}

#[test]
fn shell_tabs_modes_and_view_models() {
    assert_eq!(Tab::all(), [Tab::Dashboard, Tab::Policies, Tab::Reports]);
    assert_eq!(Tab::Policies.label(), "Policies");
    assert_eq!(Tab::Dashboard.icon(), "\u{25cf}");
    assert!(RenderMode::from_root(true).is_admin());
    assert!(!RenderMode::from_root(false).is_admin());
    let mut shell = ShellState::new(RenderMode::User);
    assert_eq!(shell.mode_label(), "User");
    shell.switch_tab(Tab::Reports);
    assert_eq!(shell.active_tab, Tab::Reports);
    shell.apply_viewmodels(AppViewModels { dashboard: Some(DashboardViewModel::default()), policies: None });
    assert!(shell.dashboard_vm.is_some() && shell.policies_vm.is_none());
    shell.apply_viewmodels(AppViewModels { dashboard: None, policies: None });
    assert!(shell.dashboard_vm.is_some());
    assert_eq!(connection_status_label(None), "Unknown");
    assert_eq!(connection_status_label(Some(ConnectionStatus::Connected(BusType::Session))), "Connected (Session)");
}

#[test]
fn dashboard_flow_discards_stale_fetches() {
    let mut f = DashboardFlow::new();
    assert!(f.should_subscribe());
    f.subscription_attempted(Some(true));
    assert!(!f.should_subscribe());
    let a1 = f.handle(DashboardFlowEvent::DailyUsageChanged);
    assert_eq!(a1, DashboardFlowAction::FullFetch { generation: 1 });
    let a2 = f.handle(DashboardFlowEvent::ManualRefresh);
    assert_eq!(a2, DashboardFlowAction::FullFetch { generation: 2 });
    assert!(!f.fetch_is_current(1));
    assert!(f.fetch_is_current(2));
    assert_eq!(f.handle(DashboardFlowEvent::DaemonDisappeared), DashboardFlowAction::Nothing);
    assert_eq!(f.handle(DashboardFlowEvent::BlockedAppsChanged), DashboardFlowAction::Nothing);
    assert_eq!(f.handle(DashboardFlowEvent::DailyUsageChanged), DashboardFlowAction::Nothing);
    assert_eq!(f.handle(DashboardFlowEvent::DaemonAppeared { reachable: true }), DashboardFlowAction::FullFetch { generation: 3 });
    assert!(f.should_subscribe());
    assert_eq!(f.handle(DashboardFlowEvent::BlockedAppsChanged), DashboardFlowAction::FetchBlocked);
}

#[test]
fn policies_flow_fetches_only_when_available() {
    let mut f = PoliciesFlow::new();
    assert!(f.subscription_attempted(false));
    assert!(f.should_subscribe());
    assert!(!f.subscription_attempted(true));
    assert!(f.handle(PoliciesFlowEvent::PolicyMutated));
    assert!(!f.handle(PoliciesFlowEvent::DaemonDisappeared));
    assert!(!f.handle(PoliciesFlowEvent::ManualRefresh));
    assert!(!f.handle(PoliciesFlowEvent::DaemonAppeared { reachable: false }));
    assert!(f.handle(PoliciesFlowEvent::DaemonAppeared { reachable: true }));
}

#[test]
fn cache_invalidations_per_trigger() {
    let inv = invalidation_for_signals(CoalescedNotifications { blocked: true, usage: true, policy: false });
    assert!(inv.usage_range && inv.usage_range_by_title && inv.day_events && inv.daily_titles);
    assert!(!inv.policies && !inv.categories);
    let tick = invalidation_for_tick();
    assert!(tick.categories && !tick.usage_range_by_title);
    let u = presence_update(true, ConnectionStatus::Disconnected);
    assert!(!u.daemon_available && u.clear_caches && u.resubscribe);
}

#[test]
fn cache_keys() {
    assert_eq!(policies_key(1000), "policies:1000");
    assert_eq!(usage_range_key("2025-06-01", "2025-06-07", 7), "range:2025-06-01:2025-06-07:7");
    assert_eq!(day_events_key(3, -5, 10), "day_events:3:-5:10");
}

#[test]
fn remaining_cache_keys() {
    assert_eq!(daily_title_key("2025-06-01", 7), "title:2025-06-01:7");
    assert_eq!(
        usage_range_by_title_key("2025-06-01", "2025-06-07", 1000),
        "range_by_title:2025-06-01:2025-06-07:1000"
    );
    assert_eq!(categories_key(), "categories");
    assert_eq!(app_categories_key(), "app_categories");
}

#[test]
fn connection_status_bus_type() {
    assert_eq!(ConnectionStatus::Connected(BusType::Session).bus_type(), Some(BusType::Session));
    assert_eq!(ConnectionStatus::Connected(BusType::System).bus_type(), Some(BusType::System));
    assert_eq!(ConnectionStatus::Disconnected.bus_type(), None);
    assert!(!ConnectionStatus::Disconnected.is_connected());
}
