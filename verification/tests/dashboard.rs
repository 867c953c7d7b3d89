use wellbeing_gui::clock::CalendarDate;
use wellbeing_gui::dashboard::{
    app_name_table, build_app_slices, build_block_cards, build_block_cards_at, build_category_slices,
    build_top_apps_from_summary, build_top_titles_from_summary, compute_kpis, custom_date_range,
    day_window_millis, kpis_computable, ordered_range, slice_label,
    AppCategoryRow, AppUsageSummary, BlockedAppEntry, Category, CategoryUsageSummary,
    DashboardData, DashboardViewModel, DateRange, Slice, TitleUsageSummary,
};
use wellbeing_gui::timeline::{sort_events_by_time, DayEventRow, EventType};

fn usage(app: &str, ms: i64) -> AppUsageSummary {
    AppUsageSummary { app_class: app.to_string(), total_millis: ms }
}

fn row(app: &str, name: &str, category: u8) -> AppCategoryRow {
    AppCategoryRow { app_class: app.to_string(), display_name: name.to_string(), category }
}

fn blocked(app: &str, since: u64) -> BlockedAppEntry {
    BlockedAppEntry { app_class: app.to_string(), blocked_since: since }
}

#[test]
fn app_slices_sorted_by_share_with_display_names() {
    let summary = vec![usage("a", 100), usage("b", 300), usage("c", 100)];
    let rows = vec![row("b", "Bee", 1), row("b", "Bee Two", 2)];
    let slices = build_app_slices(&summary, &rows);
    assert_eq!(slices.len(), 3);
    assert_eq!(slices[0].app_class, "b");
    assert_eq!(slices[0].display_name, "Bee Two");
    assert_eq!(slices[1].app_class, "a");
    assert_eq!(slices[2].app_class, "c");
    assert_eq!(slices[0].total_millis, 500);
    assert_eq!(slices[0].color, "");
}

#[test]
fn app_slices_empty_when_total_not_positive() {
    assert!(build_app_slices(&vec![usage("a", 0)], &vec![]).is_empty());
    assert!(build_app_slices(&vec![usage("a", 5), usage("b", -5)], &vec![]).is_empty());
    assert!(build_app_slices(&vec![], &vec![]).is_empty());
}

#[test]
fn category_slices_take_colors_from_categories() {
    let summary = vec![
        CategoryUsageSummary { category: "Work".to_string(), total_millis: 10 },
        CategoryUsageSummary { category: "Games".to_string(), total_millis: 30 },
    ];
    let cats = vec![Category { id: 1, name: "Work".to_string(), color: "#00f".to_string() }];
    let slices = build_category_slices(&summary, &cats);
    assert_eq!(slices[0].display_name, "Games");
    assert_eq!(slices[0].color, "");
    assert_eq!(slices[1].app_class, "Work");
    assert_eq!(slices[1].color, "#00f");
    assert_eq!(slices[1].total_millis, 40);
}

#[test]
fn top_apps_ranked_truncated_and_flagged() {
    let summary: Vec<AppUsageSummary> = (0..12).map(|i| usage(&format!("app{i}"), 100 - i)).collect();
    let rows = vec![row("app1", "One", 3), row("app2", "Two", 0)];
    let blocks = vec![blocked("app2", 5)];
    let top = build_top_apps_from_summary(&summary, &rows, &blocks);
    assert_eq!(top.len(), 10);
    assert_eq!(top[0].rank, 1);
    assert_eq!(top[9].rank, 10);
    assert_eq!(top[1].display_name, "One");
    assert_eq!(top[1].category_color, Some("cat_3".to_string()));
    assert_eq!(top[2].display_name, "Two");
    assert_eq!(top[2].category_color, None);
    assert!(top[2].is_blocked);
    assert!(!top[1].is_blocked);
    assert_eq!(top[0].display_name, "app0");
    let grand: i64 = (0..12).map(|i| 100 - i).sum();
    assert_eq!(top[0].grand_total_millis, grand);
}

#[test]
fn top_titles_ranked() {
    let summary = vec![
        TitleUsageSummary { app_class: "a".into(), title: "t1".into(), total_millis: 7 },
        TitleUsageSummary { app_class: "b".into(), title: "t2".into(), total_millis: 3 },
    ];
    let top = build_top_titles_from_summary(&summary);
    assert_eq!(top.len(), 2);
    assert_eq!(top[1].rank, 2);
    assert_eq!(top[1].title, "t2");
    assert_eq!(top[1].grand_total_millis, 10);
    assert!(build_top_titles_from_summary(&vec![]).is_empty());
}

#[test]
fn block_cards_fall_back_to_now_for_unrepresentable_start() {
    let rows = vec![row("a", "Alpha", 1)];
    let names = app_name_table(&rows);
    let cards = build_block_cards_at(&vec![blocked("a", 1_000), blocked("z", u64::MAX / 2)], &names, 77);
    assert_eq!(cards[0].display_name, "Alpha");
    assert_eq!(cards[0].blocked_since, 1_000);
    assert_eq!(cards[1].display_name, "");
    assert_eq!(cards[1].blocked_since, 77);
}

#[test]
fn kpis_of_view_model() {
    let mut vm = DashboardViewModel::default();
    let k = compute_kpis(&vm);
    assert_eq!(k.total_millis, 0);
    assert_eq!(k.top_app, "\u{2014}");
    assert_eq!(k.top_app_millis, 0);
    assert_eq!(k.active_blocks, 0);
    vm.top_apps = build_top_apps_from_summary(&vec![usage("a", 30), usage("b", 12)], &vec![row("a", "A", 0)], &vec![]);
    let k = compute_kpis(&vm);
    assert_eq!(k.total_millis, 42);
    assert_eq!(k.top_app, "A");
    assert_eq!(k.top_app_millis, 30);
}

fn sample_data() -> DashboardData {
    let day_start = 1_748_736_000_000i64;
    DashboardData {
        blocked: vec![blocked("a", 5)],
        day_events: vec![
            DayEventRow { id: 1, event_type: EventType::Focus, timestamp: day_start + 1_000, app_class: "a".into(), title: String::new(), user_id: 0 },
            DayEventRow { id: 2, event_type: EventType::Unfocus, timestamp: day_start + 3_000, app_class: "a".into(), title: String::new(), user_id: 0 },
        ],
        category_summary: vec![],
        categories: vec![],
        app_categories: vec![row("a", "Alpha", 2)],
        app_summary: vec![usage("a", 2_000)],
        title_summary: vec![],
    }
}

#[test]
fn recompute_derived_at_fills_every_field() {
    let mut vm = DashboardViewModel::default();
    vm.data = Some(sample_data());
    let now = 1_748_736_000_000i64 + 10_000;
    vm.recompute_derived_at(now);
    assert_eq!(vm.pie_app.len(), 1);
    assert_eq!(vm.top_apps[0].display_name, "Alpha");
    assert_eq!(vm.block_cards[0].display_name, "Alpha");
    let tl = vm.day_timeline.as_ref().unwrap();
    assert_eq!(tl.date, CalendarDate::new(2025, 6, 1).unwrap());
    assert_eq!(tl.total_focus_millis, 2_000);
    assert_eq!(tl.blocks[0].display_name, "Alpha");
    assert_eq!(vm.date_range, DateRange { start: tl.date, end: tl.date });
    vm.data = None;
    vm.recompute_derived_at(now);
    assert!(vm.pie_app.is_empty() && vm.top_apps.is_empty() && vm.day_timeline.is_none());
}

#[test]
fn apply_blocked_patches_cards_only_when_data_present() {
    let mut vm = DashboardViewModel::default();
    assert!(!vm.apply_blocked(vec![blocked("a", 1)]));
    assert!(vm.block_cards.is_empty());
    vm.data = Some(sample_data());
    vm.recompute_derived_at(1_748_736_100_000);
    assert!(vm.apply_blocked(vec![blocked("a", 9), blocked("b", 10)]));
    assert_eq!(vm.block_cards.len(), 2);
    assert_eq!(vm.block_cards[1].app_class, "b");
    assert_eq!(vm.block_cards[0].display_name, "Alpha");
    assert_eq!(vm.block_cards[0].blocked_since, 9);
    assert_eq!(vm.data.as_ref().unwrap().blocked.len(), 2);
    let titles = vm.top_titles.len();
    let cats = vm.pie_category.len();
    let range = vm.date_range;
    assert!(vm.apply_blocked(vec![]));
    assert!(vm.block_cards.is_empty());
    assert_eq!((vm.top_titles.len(), vm.pie_category.len(), vm.date_range), (titles, cats, range));
}

#[test]
fn full_fetch_and_recompute_with_the_system_clock() {
    let mut vm = DashboardViewModel::default();
    assert!(vm.recompute_derived());
    assert!(vm.day_timeline.is_none());
    assert!(vm.apply_fetch(sample_data()));
    assert_eq!(vm.top_apps[0].display_name, "Alpha");
    assert_eq!(vm.block_cards.len(), 1);
    assert!(vm.day_timeline.is_some());
    assert!(vm.recompute_blocked());
    let cards = build_block_cards(&vec![], &app_name_table(&vec![])).unwrap();
    assert!(cards.is_empty());
}

#[test]
fn date_range_text_and_day_window() {
    let d = CalendarDate::new(2025, 6, 1).unwrap();
    let r = DateRange { start: d, end: CalendarDate::new(2025, 12, 31).unwrap() };
    assert_eq!(r.start_str(), "2025-06-01");
    assert_eq!(r.end_str(), "2025-12-31");
    assert_eq!(day_window_millis(&d), (1_748_736_000_000, 1_748_822_400_000));
    let far = CalendarDate::new(-1, 2, 3).unwrap();
    assert_eq!(far.to_iso_text(), "-0001-02-03");
}

#[test]
fn slice_label_prefers_display_name() {
    let mut s = Slice {
        app_class: "org.kde.konsole".into(),
        display_name: "Konsole".into(),
        color: String::new(),
        millis: 1,
        total_millis: 1,
    };
    assert_eq!(slice_label(&s), "Konsole");
    s.display_name = String::new();
    assert_eq!(slice_label(&s), "org.kde.konsole");
}

#[test]
fn fetched_data_is_derivable_when_ordered_and_in_range() {
    let data = sample_data();
    assert!(data.is_derivable());
}

#[test]
fn unordered_events_are_put_in_timeline_order() {
    let mut data = sample_data();
    data.day_events.reverse();
    assert!(data.is_derivable());
    let mut vm = DashboardViewModel::default();
    vm.data = Some(data);
    vm.recompute_derived_at(1_748_736_000_000i64 + 10_000);
    let events = &vm.data.as_ref().unwrap().day_events;
    assert_eq!(events[0].id, 1);
    assert_eq!(events[1].id, 2);
    let tl = vm.day_timeline.as_ref().unwrap();
    assert_eq!(tl.total_focus_millis, 2_000);
}

#[test]
fn event_sort_is_stable_by_timestamp() {
    let row = |id: i64, ts: i64| DayEventRow {
        id,
        event_type: EventType::Focus,
        timestamp: ts,
        app_class: String::new(),
        title: String::new(),
        user_id: 0,
    };
    let sorted = sort_events_by_time(&vec![row(1, 30), row(2, 10), row(3, 30), row(4, 20), row(5, 10)]);
    let ids: Vec<i64> = sorted.iter().map(|e| e.id).collect();
    assert_eq!(ids, vec![2, 5, 4, 1, 3]);
}

#[test]
fn unrepresentable_edge_is_not_derivable() {
    let mut data = sample_data();
    data.day_events.push(DayEventRow {
        id: 3,
        event_type: EventType::Focus,
        timestamp: i64::MAX,
        app_class: "b".into(),
        title: String::new(),
        user_id: 0,
    });
    assert!(!data.is_derivable());
    // An ignored event far out of range opens and closes nothing.
    let mut data = sample_data();
    data.day_events.push(DayEventRow {
        id: 3,
        event_type: EventType::Resume,
        timestamp: i64::MAX,
        app_class: "b".into(),
        title: String::new(),
        user_id: 0,
    });
    assert!(data.is_derivable());
}

#[test]
fn overflowing_summary_totals_are_not_derivable() {
    let mut data = sample_data();
    data.app_summary = vec![usage("a", i64::MAX), usage("b", 1)];
    assert!(!data.is_derivable());
    data.app_summary = vec![usage("a", i64::MAX), usage("b", -1), usage("c", 1)];
    assert!(data.is_derivable());
}

#[test]
fn kpis_computable_only_when_top_list_total_fits() {
    let mut vm = DashboardViewModel::default();
    assert!(kpis_computable(&vm));
    vm.top_apps = build_top_apps_from_summary(&vec![usage("a", 10), usage("b", 20)], &vec![], &vec![]);
    assert!(kpis_computable(&vm));
    assert_eq!(compute_kpis(&vm).total_millis, 30);
    vm.top_apps[0].total_millis = i64::MAX;
    assert!(!kpis_computable(&vm));
}

#[test]
fn today_has_a_following_midnight_window() {
    let today = CalendarDate::today().unwrap();
    assert!(!today.is_last_representable());
    let (start, end) = day_window_millis(&today);
    assert_eq!(end - start, 86_400_000);
    assert!(CalendarDate::new(262_142, 12, 31).unwrap().is_last_representable());
}

#[test]
fn recompute_blocked_at_rebuilds_only_the_cards() {
    let mut vm = DashboardViewModel::default();
    vm.recompute_blocked_at(77);
    assert!(vm.block_cards.is_empty());
    vm.data = Some(sample_data());
    vm.recompute_derived_at(1_748_736_100_000);
    let top_before = vm.top_apps.len();
    vm.data.as_mut().unwrap().blocked = vec![blocked("a", i64::MAX as u64), blocked("z", 42)];
    vm.recompute_blocked_at(1_748_736_200_000);
    assert_eq!(vm.block_cards.len(), 2);
    // an unrepresentable start falls back to `now`
    assert_eq!(vm.block_cards[0].blocked_since, 1_748_736_200_000);
    assert_eq!(vm.block_cards[0].display_name, "Alpha");
    assert_eq!(vm.block_cards[1].blocked_since, 42);
    assert_eq!(vm.block_cards[1].display_name, "");
    assert_eq!(vm.top_apps.len(), top_before);
}

#[test]
fn custom_range_needs_two_dates_in_order() {
    let r = custom_date_range("2025-06-01", "2025-06-07").unwrap();
    assert_eq!(r.start, CalendarDate::new(2025, 6, 1).unwrap());
    assert_eq!(r.end, CalendarDate::new(2025, 6, 7).unwrap());
    assert!(custom_date_range("2025-06-07", "2025-06-01").is_none());
    assert!(custom_date_range("2025-02-30", "2025-03-01").is_none());
    assert!(custom_date_range("", "2025-03-01").is_none());
    assert!(custom_date_range("2025-06-01", "yesterday").is_none());
    let same = custom_date_range("2024-02-29", "2024-02-29").unwrap();
    assert_eq!(same.start, same.end);
    let a = CalendarDate::new(2024, 12, 31).unwrap();
    let b = CalendarDate::new(2025, 1, 1).unwrap();
    assert!(ordered_range(a, b).is_some());
    assert!(ordered_range(b, a).is_none());
}
