use wellbeing_gui::clock::CalendarDate;
use wellbeing_gui::names::NameTable;
use wellbeing_gui::timeline::{
    build_day_timeline, compute_hourly_buckets, display_name, hour_track_segments, DayEventRow,
    EventType,
};

fn make_row(event_type: EventType, timestamp: i64, app_class: &str) -> DayEventRow {
    DayEventRow {
        id: 0,
        event_type,
        timestamp,
        app_class: app_class.to_string(),
        title: String::new(),
        user_id: 0,
    }
}

fn test_now() -> i64 {
    1_748_773_800_000 // 10:30:00 UTC
}

fn date(y: i32, m: u32, d: u32) -> CalendarDate {
    CalendarDate::new(y, m, d).unwrap()
}

#[test]
fn test_empty_events_returns_empty_timeline() {
    let date = date(2025, 6, 1);
    let names = NameTable::new();
    let tl = build_day_timeline(&[], date, &names, test_now(), None);
    assert!(tl.blocks.is_empty());
    assert_eq!(tl.total_focus_millis, 0);
    assert_eq!(tl.date, date);
}

#[test]
fn test_single_focus_with_close() {
    let date = date(2025, 6, 1);
    let names = NameTable::new();
    let events = vec![
        make_row(EventType::Focus, 1_748_772_000_000, "org.mozilla.Firefox"),
        make_row(EventType::Unfocus, 1_748_772_050_000, "org.mozilla.Firefox"),
    ];
    let tl = build_day_timeline(&events, date, &names, test_now(), None);
    assert_eq!(tl.blocks.len(), 1);
    assert!(!tl.blocks[0].is_gap);
    assert_eq!(tl.blocks[0].app_class, "org.mozilla.Firefox");
    assert!(tl.blocks[0].end.is_some());
    assert_eq!(tl.total_focus_millis, 50_000);
}

#[test]
fn test_unmatched_focus_at_end() {
    let date = date(2025, 6, 1);
    let names = NameTable::new();
    let events = vec![
        make_row(EventType::Focus, 1_748_772_000_000, "org.mozilla.Firefox"),
        make_row(EventType::Unfocus, 1_748_772_050_000, "org.mozilla.Firefox"),
        make_row(EventType::Focus, 1_748_772_100_000, "com.Code.App"),
    ];
    let tl = build_day_timeline(&events, date, &names, test_now(), None);
    assert_eq!(tl.blocks.len(), 3);
    assert!(tl.blocks[0].end.is_some());
    assert!(tl.blocks[1].is_gap);
    let last = &tl.blocks[2];
    assert_eq!(last.app_class, "com.Code.App");
    assert!(last.end.is_none());
}

#[test]
fn test_gap_filling_between_blocks() {
    let date = date(2025, 6, 1);
    let names = NameTable::new();
    let events = vec![
        make_row(EventType::Focus, 1_748_772_000_000, "org.mozilla.Firefox"),
        make_row(EventType::Unfocus, 1_748_772_010_000, "org.mozilla.Firefox"),
        make_row(EventType::Focus, 1_748_772_030_000, "com.Code.App"),
        make_row(EventType::Unfocus, 1_748_772_040_000, "com.Code.App"),
    ];
    let tl = build_day_timeline(&events, date, &names, test_now(), None);
    assert_eq!(tl.blocks.len(), 3);
    assert!(!tl.blocks[0].is_gap);
    assert!(tl.blocks[1].is_gap);
    assert!(!tl.blocks[2].is_gap);
    let gap = &tl.blocks[1];
    assert_eq!(gap.app_class, "");
    assert_eq!(gap.display_name, "");
}

#[test]
fn test_idle_closes_focus_interval() {
    let date = date(2025, 6, 1);
    let names = NameTable::new();
    let events = vec![
        make_row(EventType::Focus, 1_748_772_000_000, "org.mozilla.Firefox"),
        make_row(EventType::Idle, 1_748_772_010_000, "org.mozilla.Firefox"),
        make_row(EventType::Focus, 1_748_772_030_000, "com.Code.App"),
        make_row(EventType::Unfocus, 1_748_772_040_000, "com.Code.App"),
    ];
    let tl = build_day_timeline(&events, date, &names, test_now(), None);
    assert_eq!(tl.blocks.len(), 3);
    assert!(!tl.blocks[0].is_gap);
    assert_eq!(tl.blocks[0].app_class, "org.mozilla.Firefox");
    assert!(tl.blocks[1].is_gap);
    assert!(!tl.blocks[2].is_gap);
    assert_eq!(tl.blocks[2].app_class, "com.Code.App");
    assert_eq!(tl.total_focus_millis, 20_000);
}

#[test]
fn test_close_without_open_or_seed_emits_nothing() {
    let date = date(2025, 6, 2);
    let names = NameTable::new();
    let events = vec![make_row(
        EventType::Unfocus,
        1_748_822_400_000 + 600_000,
        "org.mozilla.Firefox",
    )];
    let tl = build_day_timeline(&events, date, &names, test_now(), None);
    assert!(tl.blocks.is_empty());
    assert_eq!(tl.total_focus_millis, 0);
}

#[test]
fn test_stale_seed_clipped_to_day_start() {
    let date = date(2025, 6, 2);
    let day_start = 1_748_822_400_000i64;
    let names = NameTable::new();
    let events = vec![make_row(
        EventType::Unfocus,
        day_start + 600_000,
        "org.mozilla.Firefox",
    )];
    let stale_ts = day_start - 2 * 86_400_000 - 3_600_000;
    let seed = Some((stale_ts, "org.mozilla.Firefox".to_string()));
    let tl = build_day_timeline(&events, date, &names, test_now(), seed);
    assert_eq!(tl.blocks.len(), 1);
    assert!(!tl.blocks[0].is_gap);
    assert_eq!(tl.blocks[0].app_class, "org.mozilla.Firefox");
    assert_eq!(tl.blocks[0].start, day_start);
    assert_eq!(tl.blocks[0].end.unwrap(), day_start + 600_000);
    assert_eq!(tl.total_focus_millis, 600_000);
}

#[test]
fn test_seed_chains_into_first_in_range_focus() {
    let date = date(2025, 6, 2);
    let day_start = 1_748_822_400_000i64;
    let names = NameTable::new();
    let events = vec![
        make_row(EventType::Focus, day_start + 1_800_000, "com.Code.App"),
        make_row(EventType::Unfocus, day_start + 2_400_000, "com.Code.App"),
    ];
    let seed = Some((day_start - 3_600_000, "org.mozilla.Firefox".to_string()));
    let tl = build_day_timeline(&events, date, &names, test_now(), seed);
    assert_eq!(tl.blocks.len(), 2);
    assert_eq!(tl.blocks[0].app_class, "org.mozilla.Firefox");
    assert_eq!(tl.blocks[0].start, day_start);
    assert_eq!(tl.blocks[0].end.unwrap(), day_start + 1_800_000);
    assert_eq!(tl.blocks[1].app_class, "com.Code.App");
    assert_eq!(tl.total_focus_millis, 2_400_000);
}

#[test]
fn test_seed_without_events_renders_open_block_from_midnight() {
    let date = date(2025, 6, 2);
    let day_start = 1_748_822_400_000i64;
    let names = NameTable::new();
    let seed = Some((day_start - 3_600_000, "org.mozilla.Firefox".to_string()));
    let tl = build_day_timeline(&[], date, &names, test_now(), seed);
    assert_eq!(tl.blocks.len(), 1);
    assert_eq!(tl.blocks[0].start, day_start);
    assert!(tl.blocks[0].end.is_none());
}

#[test]
fn test_hourly_buckets_split_cross_midnight_block() {
    let date = date(2025, 6, 1);
    let day_start = 1_748_736_000_000i64;
    let names = NameTable::new();
    let events = vec![
        make_row(EventType::Focus, day_start + 82_800_000, "org.mozilla.Firefox"),
        make_row(
            EventType::Unfocus,
            day_start + 86_400_000 + 1_800_000,
            "org.mozilla.Firefox",
        ),
    ];
    let tl = build_day_timeline(&events, date, &names, test_now(), None);
    let now = day_start + 86_400_000 + 1_800_000;
    let buckets = compute_hourly_buckets(&tl, now);
    assert_eq!(buckets[23].total_millis, 3_600_000);
    let total: i64 = buckets.iter().map(|b| b.total_millis).sum();
    assert_eq!(total, 3_600_000);
}

#[test]
fn test_hourly_buckets_single_block() {
    let date = date(2025, 6, 1);
    let names = NameTable::new();
    let events = vec![
        make_row(EventType::Focus, 1_748_772_000_000, "org.mozilla.Firefox"),
        make_row(EventType::Unfocus, 1_748_773_800_000, "org.mozilla.Firefox"),
    ];
    let tl = build_day_timeline(&events, date, &names, test_now(), None);
    let now = 1_748_773_800_000;
    let buckets = compute_hourly_buckets(&tl, now);
    assert_eq!(buckets[10].fragments.len(), 1);
    assert!(!buckets[10].fragments[0].is_gap);
    assert_eq!(buckets[10].fragments[0].millis, 1_800_000);
    assert_eq!(buckets[10].total_millis, 1_800_000);
    for (h, bucket) in buckets.iter().enumerate().take(10) {
        assert!(bucket.fragments.is_empty(), "hour {h} should be empty");
    }
    for (h, bucket) in buckets.iter().enumerate().take(24).skip(11) {
        assert!(bucket.fragments.is_empty(), "hour {h} should be empty");
    }
}

#[test]
fn test_hourly_buckets_spanning_hours() {
    let date = date(2025, 6, 1);
    let names = NameTable::new();
    let events = vec![
        make_row(EventType::Focus, 1_748_774_700_000, "org.mozilla.Firefox"),
        make_row(EventType::Unfocus, 1_748_776_500_000, "org.mozilla.Firefox"),
    ];
    let tl = build_day_timeline(&events, date, &names, test_now(), None);
    let now = 1_748_776_500_000;
    let buckets = compute_hourly_buckets(&tl, now);
    assert_eq!(buckets[10].fragments.len(), 1);
    assert_eq!(buckets[10].fragments[0].millis, 900_000);
    assert_eq!(buckets[11].fragments.len(), 1);
    assert_eq!(buckets[11].fragments[0].millis, 900_000);
}

#[test]
fn test_open_block_uses_now() {
    let date = date(2025, 6, 1);
    let names = NameTable::new();
    let events = vec![make_row(
        EventType::Focus,
        1_748_772_000_000,
        "org.mozilla.Firefox",
    )];
    let tl = build_day_timeline(&events, date, &names, test_now(), None);
    let now_ms = 1_748_773_800_000;
    let buckets = compute_hourly_buckets(&tl, now_ms);
    assert_eq!(buckets[10].fragments.len(), 1);
    assert_eq!(buckets[10].fragments[0].millis, 1_800_000);
}

// ---------------------------------------------------------------------------
// Further cases
// ---------------------------------------------------------------------------

#[test]
fn timeline_uses_display_names_and_counts_open_block_until_now() {
    let date = date(2025, 6, 1);
    let mut names = NameTable::new();
    names.insert("org.mozilla.Firefox".to_string(), "Firefox".to_string());
    let events = vec![
        make_row(EventType::Focus, 1_748_772_000_000, "org.mozilla.Firefox"),
        make_row(EventType::Resume, 1_748_772_001_000, "org.mozilla.Firefox"),
        make_row(EventType::Focus, 1_748_772_060_000, "com.Code.App"),
    ];
    let tl = build_day_timeline(&events, date, &names, test_now(), None);
    assert_eq!(tl.blocks.len(), 2);
    assert_eq!(tl.blocks[0].display_name, "Firefox");
    assert_eq!(tl.blocks[0].end, Some(1_748_772_060_000));
    assert_eq!(tl.blocks[0].event_type, EventType::Focus);
    assert_eq!(tl.blocks[1].display_name, "com.Code.App");
    assert_eq!(tl.blocks[1].end, None);
    // 60 s of Firefox plus the open Code block from 10:01 to 10:30
    assert_eq!(tl.total_focus_millis, 60_000 + 1_740_000);
}

#[test]
fn timeline_has_no_holes_between_consecutive_blocks() {
    let date = date(2025, 6, 1);
    let names = NameTable::new();
    let events = vec![
        make_row(EventType::Focus, 1_748_772_000_000, "a"),
        make_row(EventType::Lock, 1_748_772_005_000, "a"),
        make_row(EventType::Focus, 1_748_772_009_000, "b"),
        make_row(EventType::Shutdown, 1_748_772_011_000, "b"),
        make_row(EventType::Focus, 1_748_772_011_000, "c"),
        make_row(EventType::Unfocus, 1_748_772_020_000, "c"),
    ];
    let tl = build_day_timeline(&events, date, &names, test_now(), None);
    for w in tl.blocks.windows(2) {
        if let Some(end) = w[0].end {
            assert!(end >= w[1].start);
        }
    }
    assert_eq!(tl.blocks.len(), 4); // a, gap, b, c (b ends where c starts)
    assert_eq!(tl.blocks[1].start, 1_748_772_005_000);
    assert_eq!(tl.blocks[1].end, Some(1_748_772_009_000));
    assert_eq!(tl.blocks[1].event_type, EventType::Block);
    assert_eq!(tl.total_focus_millis, 5_000 + 2_000 + 9_000);
}

#[test]
fn hourly_fragments_are_sorted_and_offset_within_hour() {
    let date = date(2025, 6, 1);
    let names = NameTable::new();
    // 10:05-10:10 a, gap 10:10-10:40, 10:40-11:20 b
    let base = 1_748_772_000_000i64;
    let events = vec![
        make_row(EventType::Focus, base + 300_000, "a"),
        make_row(EventType::Unfocus, base + 600_000, "a"),
        make_row(EventType::Focus, base + 2_400_000, "b"),
        make_row(EventType::Unfocus, base + 4_800_000, "b"),
    ];
    let tl = build_day_timeline(&events, date, &names, test_now(), None);
    let buckets = compute_hourly_buckets(&tl, base + 4_800_000);
    assert_eq!(buckets.len(), 24);
    let b10 = &buckets[10];
    assert_eq!(b10.hour, 10);
    assert_eq!(b10.fragments.len(), 3);
    assert_eq!(b10.fragments[0].start_offset, 300_000);
    assert_eq!(b10.fragments[1].start_offset, 600_000);
    assert!(b10.fragments[1].is_gap);
    assert_eq!(b10.fragments[2].start_offset, 2_400_000);
    assert_eq!(b10.fragments[2].millis, 1_200_000);
    assert_eq!(b10.total_millis, 300_000 + 1_800_000 + 1_200_000);
    assert_eq!(buckets[11].fragments[0].start_offset, 0);
    assert_eq!(buckets[11].fragments[0].millis, 1_200_000);
}

#[test]
fn timeline_sorts_seeded_block_after_earlier_events() {
    let date = date(2025, 6, 2);
    let day_start = 1_748_822_400_000i64;
    let names = NameTable::new();
    // an event before midnight closes the seeded interval, then a focus
    let events = vec![
        make_row(EventType::Unfocus, day_start - 10_000, "x"),
        make_row(EventType::Focus, day_start - 5_000, "y"),
        make_row(EventType::Unfocus, day_start + 5_000, "y"),
    ];
    let seed = Some((day_start - 3_600_000, "x".to_string()));
    let tl = build_day_timeline(&events, date, &names, test_now(), seed);
    // y starts before the seeded block's clipped start, so it comes first
    assert_eq!(tl.blocks[0].app_class, "y");
    assert_eq!(tl.blocks[1].app_class, "x");
    assert_eq!(tl.blocks[1].start, day_start);
    assert_eq!(tl.blocks.len(), 2);
    assert_eq!(tl.total_focus_millis, 10_000);
}

#[test]
fn hourly_buckets_add_up_to_the_time_within_the_day() {
    let date = date(2025, 6, 1);
    let day_start = 1_748_736_000_000i64;
    let names = NameTable::new();
    // a seeded interval from before midnight, a gap, and an interval that
    // is still open at 23:30 and counted up to `now` past midnight
    let events = vec![
        make_row(EventType::Unfocus, day_start + 1_800_000, "x"),
        make_row(EventType::Focus, day_start + 7_200_000, "a"),
        make_row(EventType::Idle, day_start + 9_000_000, "a"),
        make_row(EventType::Focus, day_start + 84_600_000, "b"),
    ];
    let now = day_start + 90_000_000;
    let seed = Some((day_start - 600_000, "x".to_string()));
    let tl = build_day_timeline(&events, date, &names, now, seed);
    let buckets = compute_hourly_buckets(&tl, now);
    let sum: i64 = buckets.iter().map(|b| b.total_millis).sum();
    // x: 00:00-00:30, gap 00:30-02:00, a: 02:00-02:30, gap 02:30-23:30,
    // b: 23:30-24:00 within the day
    assert_eq!(sum, 86_400_000);
    assert_eq!(buckets[0].total_millis, 3_600_000);
    assert_eq!(buckets[23].fragments.len(), 2);
}

#[test]
fn gaps_sit_exactly_between_their_neighbours() {
    let date = date(2025, 6, 1);
    let names = NameTable::new();
    let base = 1_748_772_000_000i64;
    let events = vec![
        make_row(EventType::Focus, base, "a"),
        make_row(EventType::Suspend, base + 1_000, "a"),
        make_row(EventType::Focus, base + 5_000, "b"),
        make_row(EventType::Lock, base + 6_000, "b"),
        make_row(EventType::Focus, base + 9_000, "c"),
    ];
    let tl = build_day_timeline(&events, date, &names, test_now(), None);
    assert_eq!(tl.blocks.len(), 5);
    for i in 0..tl.blocks.len() {
        if tl.blocks[i].is_gap {
            assert!(i > 0 && i + 1 < tl.blocks.len());
            assert_eq!(tl.blocks[i - 1].end, Some(tl.blocks[i].start));
            assert_eq!(tl.blocks[i].end, Some(tl.blocks[i + 1].start));
            assert!(tl.blocks[i].app_class.is_empty());
        }
    }
    assert!(tl.blocks[1].is_gap && tl.blocks[3].is_gap);
}

#[test]
fn timeline_blocks_come_in_start_order() {
    let date = date(2025, 6, 1);
    let day_start = 1_748_736_000_000i64;
    let names = NameTable::new();
    let events = vec![
        make_row(EventType::Unfocus, day_start + 60_000, "x"),
        make_row(EventType::Focus, day_start + 120_000, "a"),
        make_row(EventType::Focus, day_start + 180_000, "b"),
        make_row(EventType::Lock, day_start + 240_000, "b"),
        make_row(EventType::Focus, day_start + 600_000, "c"),
    ];
    let seed = Some((day_start - 1, "x".to_string()));
    let tl = build_day_timeline(&events, date, &names, test_now(), seed);
    assert_eq!(tl.blocks.len(), 6); // x, gap, a, b, gap, c
    for w in tl.blocks.windows(2) {
        assert!(w[0].start <= w[1].start);
    }
}

#[test]
fn display_name_falls_back_to_class() {
    let mut names = NameTable::new();
    names.insert("org.mozilla.firefox".to_string(), "Firefox".to_string());
    assert_eq!(display_name(&"org.mozilla.firefox".to_string(), &names), "Firefox");
    assert_eq!(display_name(&"kitty".to_string(), &names), "kitty");
}

#[test]
fn hour_tracks_fill_idle_time_around_fragments() {
    let date = date(2025, 6, 1);
    let names = NameTable::new();
    let base = 1_748_772_000_000i64; // 10:00
    let events = vec![
        make_row(EventType::Focus, base + 300_000, "a"),
        make_row(EventType::Unfocus, base + 600_000, "a"),
        make_row(EventType::Focus, base + 2_400_000, "b"),
        make_row(EventType::Unfocus, base + 4_800_000, "b"),
    ];
    let tl = build_day_timeline(&events, date, &names, test_now(), None);
    let buckets = compute_hourly_buckets(&tl, base + 4_800_000);
    let ten = hour_track_segments(&buckets[10]);
    let spans: Vec<(i64, i64, Option<String>)> =
        ten.iter().map(|s| (s.start_offset, s.millis, s.app_class.clone())).collect();
    assert_eq!(
        spans,
        vec![
            (0, 300_000, None),
            (300_000, 300_000, Some("a".to_string())),
            (600_000, 1_800_000, None),
            (2_400_000, 1_200_000, Some("b".to_string())),
        ]
    );
    let eleven = hour_track_segments(&buckets[11]);
    assert_eq!(eleven.len(), 2);
    assert_eq!(eleven[1].start_offset, 1_200_000);
    assert_eq!(eleven[1].millis, 2_400_000);
    assert!(eleven[1].app_class.is_none());
    let three = hour_track_segments(&buckets[3]);
    assert_eq!(three.len(), 1);
    assert_eq!((three[0].start_offset, three[0].millis), (0, 3_600_000));
}

#[test]
fn seed_at_or_after_midnight_is_ignored() {
    let date = date(2025, 6, 1);
    let day_start = 1_748_736_000_000i64;
    let names = NameTable::new();
    let events = vec![
        make_row(EventType::Unfocus, day_start + 60_000, "x"),
        make_row(EventType::Focus, day_start + 120_000, "a"),
    ];
    let seeded = build_day_timeline(&events, date, &names, test_now(), Some((day_start, "x".to_string())));
    let plain = build_day_timeline(&events, date, &names, test_now(), None);
    assert_eq!(seeded.blocks.len(), plain.blocks.len());
    assert_eq!(seeded.blocks.len(), 1);
    assert_eq!(seeded.total_focus_millis, plain.total_focus_millis);
    assert_eq!(seeded.blocks[0].app_class, "a");
}

#[test]
fn ordered_day_blocks_meet_exactly() {
    let date = date(2025, 6, 1);
    let day_start = 1_748_736_000_000i64;
    let names = NameTable::new();
    let events = vec![
        make_row(EventType::Unfocus, day_start + 60_000, "x"),
        make_row(EventType::Focus, day_start + 120_000, "a"),
        make_row(EventType::Focus, day_start + 180_000, "b"),
        make_row(EventType::Idle, day_start + 240_000, "b"),
        make_row(EventType::Focus, day_start + 600_000, "c"),
        make_row(EventType::Lock, day_start + 700_000, "c"),
    ];
    let tl = build_day_timeline(&events, date, &names, test_now(), Some((day_start - 5, "x".to_string())));
    assert_eq!(tl.blocks.len(), 6);
    for w in tl.blocks.windows(2) {
        assert_eq!(w[0].end, Some(w[1].start));
    }
}
