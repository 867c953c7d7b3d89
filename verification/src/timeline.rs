//! Day timeline and hourly bucket computations.
//!
//! Converts the daemon's event rows for one day into focus-interval blocks
//! (with synthetic gap blocks between them) and splits those blocks into
//! the 24 clock hours of the day for the timeline view.

use crate::clock::{
    in_timestamp_range, midnight_of, CalendarDate, DAY_MILLIS, HOUR_MILLIS,
};
use crate::names::NameTable;
use crate::seq_util::{insert_by_key, lemma_insert_by_key_at, lemma_sort_by_key_sorted, sort_by_key};
use crate::timeline_bounds::lemma_day_focus_total_fits;
use vstd::prelude::*;

verus! {

/// Kind of an activity event recorded by the daemon.
#[derive(Debug, Clone, Copy, PartialEq, Eq)]
pub enum EventType {
    /// A window gained focus: opens a focus interval.
    Focus,
    /// The focused window lost focus.
    Unfocus,
    /// The user went idle.
    Idle,
    /// The user came back from idle; does not open an interval by itself.
    Resume,
    /// The focused application was blocked by a policy.
    Block,
    /// The session was locked.
    Lock,
    /// The machine was suspended.
    Suspend,
    /// The session or machine shut down.
    Shutdown,
}

impl EventType {
    /// Event kinds that terminate an open focus interval.
    pub open spec fn closes_interval(self) -> bool {
        !(self is Focus) && !(self is Resume)
    }

    /// Whether this event terminates an open focus interval.
    pub fn is_close(&self) -> (r: bool)
        ensures
            r == self.closes_interval(),
    {
        match self {
            EventType::Focus => false,
            EventType::Resume => false,
            _ => true,
        }
    }
}

/// One activity event row as returned by the daemon.
#[derive(Debug, Clone)]
pub struct DayEventRow {
    pub id: i64,
    pub event_type: EventType,
    /// Epoch milliseconds (UTC).
    pub timestamp: i64,
    pub app_class: String,
    pub title: String,
    pub user_id: u32,
}

pub struct EventView {
    pub event_type: EventType,
    pub timestamp: int,
    pub app_class: Seq<char>,
}

impl View for DayEventRow {
    type V = EventView;

    open spec fn view(&self) -> EventView {
        EventView {
            event_type: self.event_type,
            timestamp: self.timestamp as int,
            app_class: self.app_class@,
        }
    }
}

/// One interval of the day timeline: a focus interval of an application or
/// a gap between two intervals.
#[derive(Debug, Clone)]
pub struct TimelineBlock {
    pub app_class: String,
    pub display_name: String,
    /// Epoch milliseconds (UTC).
    pub start: i64,
    /// End in epoch milliseconds; `None` if the interval is still open.
    pub end: Option<i64>,
    pub event_type: EventType,
    pub is_gap: bool,
}

pub struct BlockView {
    pub app_class: Seq<char>,
    pub display_name: Seq<char>,
    pub start: int,
    pub end: Option<int>,
    pub event_type: EventType,
    pub is_gap: bool,
}

pub open spec fn opt_int(o: Option<i64>) -> Option<int> {
    match o {
        Some(v) => Some(v as int),
        None => None,
    }
}

impl View for TimelineBlock {
    type V = BlockView;

    open spec fn view(&self) -> BlockView {
        BlockView {
            app_class: self.app_class@,
            display_name: self.display_name@,
            start: self.start as int,
            end: opt_int(self.end),
            event_type: self.event_type,
            is_gap: self.is_gap,
        }
    }
}

/// The blocks of one day and the total focused time.
#[derive(Debug, Clone)]
pub struct DayTimeline {
    pub date: CalendarDate,
    pub blocks: Vec<TimelineBlock>,
    /// Sum of all focus-interval millis (gaps excluded; an open interval
    /// counts up to the `now` the timeline was built with).
    pub total_focus_millis: i64,
}

pub open spec fn events_view(s: Seq<DayEventRow>) -> Seq<EventView> {
    s.map_values(|e: DayEventRow| e@)
}

pub open spec fn blocks_view(s: Seq<TimelineBlock>) -> Seq<BlockView> {
    s.map_values(|b: TimelineBlock| b@)
}

pub open spec fn seed_view(seed: Option<(i64, String)>) -> Option<(int, Seq<char>)> {
    match seed {
        Some(p) => Some((p.0 as int, p.1@)),
        None => None,
    }
}

/// The display name of an application: its entry in `names`, else the class itself.
pub open spec fn display_name_in(names: Map<Seq<char>, Seq<char>>, app: Seq<char>) -> Seq<char> {
    if names.contains_key(app) {
        names[app]
    } else {
        app
    }
}

pub open spec fn closed_block(
    start: int,
    end: int,
    app: Seq<char>,
    names: Map<Seq<char>, Seq<char>>,
    event_type: EventType,
) -> BlockView {
    BlockView {
        app_class: app,
        display_name: display_name_in(names, app),
        start,
        end: Some(end),
        event_type,
        is_gap: false,
    }
}

pub open spec fn open_block(start: int, app: Seq<char>, names: Map<Seq<char>, Seq<char>>) -> BlockView {
    BlockView {
        app_class: app,
        display_name: display_name_in(names, app),
        start,
        end: None,
        event_type: EventType::Focus,
        is_gap: false,
    }
}

pub open spec fn gap_block(start: int, end: int) -> BlockView {
    BlockView {
        app_class: Seq::empty(),
        display_name: Seq::empty(),
        start,
        end: Some(end),
        event_type: EventType::Block,
        is_gap: true,
    }
}

/// Walks the events in order: a focus event closes the pending interval (if
/// any) and opens a new one; a closing event closes the pending interval;
/// other events are ignored.  Returns the closed blocks and what is still
/// pending.
pub open spec fn scan_events(
    events: Seq<EventView>,
    names: Map<Seq<char>, Seq<char>>,
    init: Option<(int, Seq<char>)>,
) -> (Seq<BlockView>, Option<(int, Seq<char>)>)
    decreases events.len(),
{
    if events.len() == 0 {
        (Seq::empty(), init)
    } else {
        let prev = scan_events(events.drop_last(), names, init);
        let e = events.last();
        if e.event_type is Focus {
            (
                match prev.1 {
                    Some(p) => prev.0.push(closed_block(p.0, e.timestamp, p.1, names, EventType::Focus)),
                    None => prev.0,
                },
                Some((e.timestamp, e.app_class)),
            )
        } else if e.event_type.closes_interval() {
            (
                match prev.1 {
                    Some(p) => prev.0.push(closed_block(p.0, e.timestamp, p.1, names, e.event_type)),
                    None => prev.0,
                },
                None,
            )
        } else {
            prev
        }
    }
}

/// The interval carried over from before the day: a seed strictly before
/// midnight, clipped to start at midnight.
pub open spec fn seed_pending(seed: Option<(int, Seq<char>)>, day_start: int) -> Option<(int, Seq<char>)> {
    match seed {
        Some(s) => if s.0 < day_start {
            Some((day_start, s.1))
        } else {
            None
        },
        None => None,
    }
}

/// Blocks in the order the scan emits them, with the interval still open at
/// the end appended without an end.
pub open spec fn raw_blocks(
    events: Seq<EventView>,
    names: Map<Seq<char>, Seq<char>>,
    seed: Option<(int, Seq<char>)>,
    day_start: int,
) -> Seq<BlockView> {
    let r = scan_events(events, names, seed_pending(seed, day_start));
    match r.1 {
        Some(p) => r.0.push(open_block(p.0, p.1, names)),
        None => r.0,
    }
}

pub open spec fn block_start_key() -> spec_fn(BlockView) -> int {
    |b: BlockView| b.start
}

/// The gap block between two consecutive blocks, if the first one ends
/// strictly before the second one starts.
pub open spec fn gap_between(a: BlockView, b: BlockView) -> Seq<BlockView> {
    match a.end {
        Some(e) => if e < b.start {
            seq![gap_block(e, b.start)]
        } else {
            Seq::empty()
        },
        None => Seq::empty(),
    }
}

/// The blocks with a gap block inserted wherever one block ends before the next starts.
pub open spec fn with_gaps(s: Seq<BlockView>) -> Seq<BlockView>
    decreases s.len(),
{
    if s.len() <= 1 {
        s
    } else {
        with_gaps(s.drop_last()) + gap_between(s[s.len() - 2], s.last()) + seq![s.last()]
    }
}

/// The blocks of a day timeline: the scanned blocks stably sorted by start,
/// with gaps filled.
pub open spec fn day_blocks(
    events: Seq<EventView>,
    names: Map<Seq<char>, Seq<char>>,
    seed: Option<(int, Seq<char>)>,
    day_start: int,
) -> Seq<BlockView> {
    with_gaps(sort_by_key(raw_blocks(events, names, seed, day_start), block_start_key()))
}

/// Focused millis of one block: none for a gap, else its length (an open
/// block ends at `now`), never negative.
pub open spec fn block_focus_millis(b: BlockView, now: int) -> int {
    if b.is_gap {
        0
    } else {
        let end = match b.end {
            Some(e) => e,
            None => now,
        };
        if end - b.start > 0 {
            end - b.start
        } else {
            0
        }
    }
}

pub open spec fn focus_total(s: Seq<BlockView>, now: int) -> int
    decreases s.len(),
{
    if s.len() == 0 {
        0
    } else {
        focus_total(s.drop_last(), now) + block_focus_millis(s.last(), now)
    }
}

pub open spec fn events_sorted(events: Seq<EventView>) -> bool {
    forall|i: int, j: int| 0 <= i <= j < events.len() ==> events[i].timestamp <= events[j].timestamp
}

/// Every block start and end is an instant `chrono` can represent.
pub open spec fn edges_in_range(s: Seq<BlockView>) -> bool {
    forall|i: int|
        0 <= i < s.len() ==> in_timestamp_range(#[trigger] s[i].start) && match s[i].end {
            Some(e) => in_timestamp_range(e),
            None => true,
        }
}

proof fn lemma_focus_total_prefix(s: Seq<BlockView>, i: int, now: int)
    requires
        0 <= i <= s.len(),
    ensures
        0 <= focus_total(s.take(i), now) <= focus_total(s, now),
    decreases s.len(),
{
    if i == s.len() {
        assert(s.take(i) =~= s);
        lemma_focus_total_nonneg(s, now);
    } else {
        lemma_focus_total_prefix(s.drop_last(), i, now);
        assert(s.drop_last().take(i) =~= s.take(i));
    }
}

proof fn lemma_focus_total_nonneg(s: Seq<BlockView>, now: int)
    ensures
        0 <= focus_total(s, now),
    decreases s.len(),
{
    if s.len() > 0 {
        lemma_focus_total_nonneg(s.drop_last(), now);
    }
}

/// The name shown for an application: its display name from `names`, else
/// its class.
pub fn display_name(app_class: &String, names: &NameTable) -> (r: String)
    ensures
        r@ == display_name_in(names@, app_class@),
{
    match names.get(app_class.as_str()) {
        Some(n) => n.clone(),
        None => app_class.clone(),
    }
}

fn make_focus_block(
    start: i64,
    end: i64,
    app_class: &String,
    names: &NameTable,
    event_type: EventType,
) -> (r: TimelineBlock)
    ensures
        r@ == closed_block(start as int, end as int, app_class@, names@, event_type),
{
    TimelineBlock {
        app_class: app_class.clone(),
        display_name: display_name(app_class, names),
        start,
        end: Some(end),
        event_type,
        is_gap: false,
    }
}

fn copy_block(b: &TimelineBlock) -> (r: TimelineBlock)
    ensures
        r@ == b@,
{
    TimelineBlock {
        app_class: b.app_class.clone(),
        display_name: b.display_name.clone(),
        start: b.start,
        end: b.end,
        event_type: b.event_type,
        is_gap: b.is_gap,
    }
}

/// Stable insertion sort of the blocks by start.
fn sort_blocks_by_start(v: &Vec<TimelineBlock>) -> (r: Vec<TimelineBlock>)
    ensures
        blocks_view(r@) == sort_by_key(blocks_view(v@), block_start_key()),
{
    let mut out: Vec<TimelineBlock> = Vec::new();
    let n = v.len();
    let mut i: usize = 0;
    while i < n
        invariant
            n == v.len(),
            i <= n,
            blocks_view(out@) == sort_by_key(blocks_view(v@).take(i as int), block_start_key()),
        decreases n - i,
    {
        let x = copy_block(&v[i]);
        let mut j: usize = out.len();
        while j > 0 && out[j - 1].start > x.start
            invariant
                j <= out.len(),
                forall|k: int| j <= k < out.len() ==> out@[k].start > x.start,
            decreases j,
        {
            j -= 1;
        }
        proof {
            let sv = blocks_view(out@);
            let key = block_start_key();
            assert forall|k: int| j <= k < sv.len() implies key(#[trigger] sv[k]) > key(x@) by {}
            lemma_insert_by_key_at(sv, x@, key, j as int);
            let tk = blocks_view(v@).take(i as int + 1);
            assert(tk.drop_last() =~= blocks_view(v@).take(i as int));
            assert(tk.last() == x@);
        }
        let ghost old_out = out@;
        out.insert(j, x);
        proof {
            assert(blocks_view(out@) =~= blocks_view(old_out).insert(j as int, x@));
        }
        i += 1;
    }
    proof {
        assert(blocks_view(v@).take(n as int) =~= blocks_view(v@));
    }
    out
}

/// The order key of event rows: their timestamp.
pub open spec fn event_time_key() -> spec_fn(DayEventRow) -> int {
    |e: DayEventRow| e.timestamp as int
}

fn copy_event(e: &DayEventRow) -> (r: DayEventRow)
    ensures
        r == *e,
{
    DayEventRow {
        id: e.id,
        event_type: e.event_type,
        timestamp: e.timestamp,
        app_class: e.app_class.clone(),
        title: e.title.clone(),
        user_id: e.user_id,
    }
}

/// The event rows stably sorted by timestamp (rows with equal timestamps
/// keep their order), i.e. in timeline order.
pub fn sort_events_by_time(v: &Vec<DayEventRow>) -> (r: Vec<DayEventRow>)
    ensures
        r@ == sort_by_key(v@, event_time_key()),
        events_sorted(events_view(r@)),
{
    let mut out: Vec<DayEventRow> = Vec::new();
    let n = v.len();
    let mut i: usize = 0;
    while i < n
        invariant
            n == v.len(),
            i <= n,
            out@ == sort_by_key(v@.take(i as int), event_time_key()),
        decreases n - i,
    {
        let x = copy_event(&v[i]);
        let mut j: usize = out.len();
        while j > 0 && out[j - 1].timestamp > x.timestamp
            invariant
                j <= out.len(),
                forall|k: int| j <= k < out.len() ==> out@[k].timestamp > x.timestamp,
            decreases j,
        {
            j -= 1;
        }
        proof {
            let key = event_time_key();
            assert forall|k: int| j <= k < out@.len() implies key(#[trigger] out@[k]) > key(x) by {}
            lemma_insert_by_key_at(out@, x, key, j as int);
            let tk = v@.take(i as int + 1);
            assert(tk.drop_last() =~= v@.take(i as int));
            assert(tk.last() == x);
        }
        out.insert(j, x);
        i += 1;
    }
    proof {
        assert(v@.take(n as int) =~= v@);
        lemma_sort_by_key_sorted(v@, event_time_key());
        let ev = events_view(out@);
        assert forall|a: int, b: int| 0 <= a <= b < ev.len() implies ev[a].timestamp <= ev[b].timestamp by {
            assert((event_time_key())(out@[a]) <= (event_time_key())(out@[b]));
        }
    }
    out
}

/// Inserts a gap block between consecutive blocks wherever one ends before the next starts.
fn fill_time_gaps(blocks: &Vec<TimelineBlock>) -> (r: Vec<TimelineBlock>)
    ensures
        blocks_view(r@) == with_gaps(blocks_view(blocks@)),
{
    let mut out: Vec<TimelineBlock> = Vec::new();
    let n = blocks.len();
    if n == 0 {
        proof {
            assert(blocks_view(out@) =~= blocks_view(blocks@));
        }
        return out;
    }
    out.push(copy_block(&blocks[0]));
    proof {
        assert(blocks_view(out@) =~= blocks_view(blocks@).take(1));
    }
    let mut i: usize = 1;
    while i < n
        invariant
            n == blocks.len(),
            1 <= i <= n,
            blocks_view(out@) == with_gaps(blocks_view(blocks@).take(i as int)),
        decreases n - i,
    {
        let ghost before = out@;
        let prev_end = blocks[i - 1].end;
        let next_start = blocks[i].start;
        match prev_end {
            Some(e) => {
                if e < next_start {
                    out.push(
                        TimelineBlock {
                            app_class: String::new(),
                            display_name: String::new(),
                            start: e,
                            end: Some(next_start),
                            event_type: EventType::Block,
                            is_gap: true,
                        },
                    );
                }
            },
            None => {},
        }
        out.push(copy_block(&blocks[i]));
        proof {
            let s = blocks_view(blocks@);
            let t = s.take(i as int + 1);
            assert(t.drop_last() =~= s.take(i as int));
            assert(t[t.len() - 2] == s[i as int - 1]);
            assert(t.last() == s[i as int]);
            assert(blocks_view(out@) =~= blocks_view(before) + gap_between(s[i as int - 1], s[i as int])
                + seq![s[i as int]]);
        }
        i += 1;
    }
    proof {
        assert(blocks_view(blocks@).take(n as int) =~= blocks_view(blocks@));
    }
    out
}

/// Build the day timeline from the daemon's event rows for one day.
///
/// A focus event opens an interval (closing the one pending); a closing
/// event (see [`EventType::is_close`]) terminates it; other events are
/// ignored.  `seed` is the trailing focus before the day's midnight (a
/// timestamp and an application class): when it lies before midnight it is
/// clipped to midnight and opens the first interval.  An interval still open
/// after the last event has no end; `now` is used to count its time in
/// `total_focus_millis`.  Blocks are stably sorted by start and gaps between
/// them are filled.  The events must be sorted by timestamp.
pub fn build_day_timeline(
    events: &[DayEventRow],
    date: CalendarDate,
    app_names: &NameTable,
    now: i64,
    seed: Option<(i64, String)>,
) -> (r: DayTimeline)
    requires
        events_sorted(events_view(events@)),
        edges_in_range(raw_blocks(events_view(events@), app_names@, seed_view(seed), midnight_of(date@))),
        in_timestamp_range(now as int),
    ensures
        r.date == date,
        blocks_view(r.blocks@) == day_blocks(
            events_view(events@),
            app_names@,
            seed_view(seed),
            midnight_of(date@),
        ),
        r.total_focus_millis == focus_total(blocks_view(r.blocks@), now as int),
{
    let day_start_ms = date.midnight_millis();
    let ghost ev = events_view(events@);
    let ghost names = app_names@;

    let mut pending: Option<(i64, String)> = match seed {
        Some(s) => if s.0 < day_start_ms {
            Some((day_start_ms, s.1))
        } else {
            None
        },
        None => None,
    };
    proof {
        assert(seed_view(pending) == seed_pending(seed_view(seed), day_start_ms as int));
    }
    let ghost init = seed_view(pending);
    let mut blocks: Vec<TimelineBlock> = Vec::new();
    let n = events.len();
    let mut i: usize = 0;
    while i < n
        invariant
            n == events.len(),
            ev == events_view(events@),
            names == app_names@,
            i <= n,
            blocks_view(blocks@) == scan_events(ev.take(i as int), names, init).0,
            seed_view(pending) == scan_events(ev.take(i as int), names, init).1,
        decreases n - i,
    {
        let ghost before = blocks@;
        let event = &events[i];
        proof {
            let t = ev.take(i as int + 1);
            assert(t.drop_last() =~= ev.take(i as int));
            assert(t.last() == event@);
        }
        let is_focus = match event.event_type {
            EventType::Focus => true,
            _ => false,
        };
        if is_focus {
            let p = pending;
            pending = None;
            match p {
                Some(pv) => {
                    blocks.push(make_focus_block(pv.0, event.timestamp, &pv.1, app_names, EventType::Focus));
                },
                None => {},
            }
            pending = Some((event.timestamp, event.app_class.clone()));
            proof {
                assert(blocks_view(blocks@) =~= scan_events(ev.take(i as int + 1), names, init).0);
            }
        } else if event.event_type.is_close() {
            let p = pending;
            pending = None;
            match p {
                Some(pv) => {
                    blocks.push(make_focus_block(pv.0, event.timestamp, &pv.1, app_names, event.event_type));
                },
                None => {},
            }
            proof {
                assert(blocks_view(blocks@) =~= scan_events(ev.take(i as int + 1), names, init).0);
            }
        }
        i += 1;
    }
    proof {
        assert(ev.take(n as int) =~= ev);
    }
    match pending {
        Some(pv) => {
            let dn = display_name(&pv.1, app_names);
            blocks.push(
                TimelineBlock {
                    app_class: pv.1,
                    display_name: dn,
                    start: pv.0,
                    end: None,
                    event_type: EventType::Focus,
                    is_gap: false,
                },
            );
        },
        None => {},
    }
    proof {
        assert(blocks_view(blocks@) =~= raw_blocks(ev, names, seed_view(seed), day_start_ms as int));
    }
    let sorted = sort_blocks_by_start(&blocks);
    let filled = fill_time_gaps(&sorted);

    let ghost fv = blocks_view(filled@);
    proof {
        lemma_day_focus_total_fits(ev, names, seed_view(seed), day_start_ms as int, now as int);
    }
    let now_wide = now as i128;
    let mut total: i128 = 0;
    let m = filled.len();
    let mut k: usize = 0;
    while k < m
        invariant
            m == filled.len(),
            fv == blocks_view(filled@),
            k <= m,
            total == focus_total(fv.take(k as int), now as int),
            focus_total(fv, now as int) <= i64::MAX,
            now_wide == now as int,
        decreases m - k,
    {
        let b = &filled[k];
        proof {
            let t = fv.take(k as int + 1);
            assert(t.drop_last() =~= fv.take(k as int));
            assert(t.last() == b@);
            lemma_focus_total_prefix(fv, k as int + 1, now as int);
            lemma_focus_total_prefix(fv, k as int, now as int);
        }
        if !b.is_gap {
            let end: i128 = match b.end {
                Some(e) => e as i128,
                None => now_wide,
            };
            let d = end - b.start as i128;
            if d > 0 {
                total = total + d;
            }
        }
        k += 1;
    }
    proof {
        assert(fv.take(m as int) =~= fv);
        lemma_focus_total_nonneg(fv, now as int);
    }
    DayTimeline { date, blocks: filled, total_focus_millis: total as i64 }
}

/// The share of one block that falls into one clock hour.
#[derive(Debug, Clone)]
pub struct TimelineFragment {
    pub app_class: String,
    pub display_name: String,
    pub millis: i64,
    pub is_gap: bool,
    /// Millis from the hour boundary to this fragment's start.
    pub start_offset: i64,
}

pub struct FragmentView {
    pub app_class: Seq<char>,
    pub display_name: Seq<char>,
    pub millis: int,
    pub is_gap: bool,
    pub start_offset: int,
}

impl View for TimelineFragment {
    type V = FragmentView;

    open spec fn view(&self) -> FragmentView {
        FragmentView {
            app_class: self.app_class@,
            display_name: self.display_name@,
            millis: self.millis as int,
            is_gap: self.is_gap,
            start_offset: self.start_offset as int,
        }
    }
}

/// One clock hour (0-23) of the day with the fragments of blocks falling into it.
#[derive(Debug, Clone)]
pub struct HourlyBucket {
    pub hour: u32,
    /// All fragments (focus and gap) sorted by `start_offset`, ties in block order.
    pub fragments: Vec<TimelineFragment>,
    pub total_millis: i64,
}

pub open spec fn fragments_view(s: Seq<TimelineFragment>) -> Seq<FragmentView> {
    s.map_values(|f: TimelineFragment| f@)
}

pub open spec fn max_int(a: int, b: int) -> int {
    if a >= b {
        a
    } else {
        b
    }
}

pub open spec fn min_int(a: int, b: int) -> int {
    if a <= b {
        a
    } else {
        b
    }
}

/// Where a block is taken to end: its end, or for an open block `now`
/// (at least one millisecond after its start).
pub open spec fn effective_end(b: BlockView, now: int) -> int {
    match b.end {
        Some(e) => e,
        None => max_int(now, b.start + 1),
    }
}

/// The intersection of `[start, end)` with the UTC day opening at
/// `day_start`, if it is not empty.
pub open spec fn day_segment_spec(start: int, end: int, day_start: int) -> Option<(int, int)> {
    let s = max_int(start, day_start);
    let e = min_int(end, day_start + DAY_MILLIS);
    if s < e {
        Some((s, e))
    } else {
        None
    }
}

/// The fragment of block `b` in the hour opening at `hour_start` of the day
/// opening at `day_start`, if the block overlaps that hour within the day.
pub open spec fn hour_piece(b: BlockView, hour_start: int, day_start: int, now: int) -> Option<FragmentView> {
    match day_segment_spec(b.start, effective_end(b, now), day_start) {
        Some(seg) => {
            let fs = max_int(hour_start, seg.0);
            let fe = min_int(seg.1, hour_start + HOUR_MILLIS);
            if fe - fs > 0 {
                Some(
                    FragmentView {
                        app_class: b.app_class,
                        display_name: b.display_name,
                        millis: fe - fs,
                        is_gap: b.is_gap,
                        start_offset: fs - hour_start,
                    },
                )
            } else {
                None
            }
        },
        None => None,
    }
}

/// Fragments of the blocks in hour `h` (0-23), in block order.
pub open spec fn hour_fragments(blocks: Seq<BlockView>, h: int, day_start: int, now: int) -> Seq<
    FragmentView,
>
    decreases blocks.len(),
{
    if blocks.len() == 0 {
        Seq::empty()
    } else {
        let prev = hour_fragments(blocks.drop_last(), h, day_start, now);
        match hour_piece(blocks.last(), day_start + h * HOUR_MILLIS, day_start, now) {
            Some(f) => prev.push(f),
            None => prev,
        }
    }
}

pub open spec fn fragment_total(s: Seq<FragmentView>) -> int
    decreases s.len(),
{
    if s.len() == 0 {
        0
    } else {
        fragment_total(s.drop_last()) + s.last().millis
    }
}

pub open spec fn offset_key() -> spec_fn(FragmentView) -> int {
    |f: FragmentView| f.start_offset
}

proof fn lemma_fragment_total_prefix(s: Seq<FragmentView>, i: int)
    requires
        0 <= i <= s.len(),
        forall|k: int| 0 <= k < s.len() ==> (#[trigger] s[k]).millis > 0,
    ensures
        0 <= fragment_total(s.take(i)) <= fragment_total(s),
    decreases s.len(),
{
    if i == s.len() {
        assert(s.take(i) =~= s);
        lemma_fragment_total_nonneg(s);
    } else {
        assert(forall|k: int| 0 <= k < s.drop_last().len() ==> s.drop_last()[k] == s[k]);
        lemma_fragment_total_prefix(s.drop_last(), i);
        assert(s.drop_last().take(i) =~= s.take(i));
    }
}

proof fn lemma_fragment_total_nonneg(s: Seq<FragmentView>)
    requires
        forall|k: int| 0 <= k < s.len() ==> (#[trigger] s[k]).millis > 0,
    ensures
        0 <= fragment_total(s),
    decreases s.len(),
{
    if s.len() > 0 {
        assert(forall|k: int| 0 <= k < s.drop_last().len() ==> s.drop_last()[k] == s[k]);
        lemma_fragment_total_nonneg(s.drop_last());
    }
}

proof fn lemma_hour_fragments_positive(blocks: Seq<BlockView>, h: int, day_start: int, now: int)
    ensures
        forall|k: int|
            0 <= k < hour_fragments(blocks, h, day_start, now).len() ==> (#[trigger] hour_fragments(
                blocks,
                h,
                day_start,
                now,
            )[k]).millis > 0,
    decreases blocks.len(),
{
    if blocks.len() > 0 {
        lemma_hour_fragments_positive(blocks.drop_last(), h, day_start, now);
        let prev = hour_fragments(blocks.drop_last(), h, day_start, now);
        let all = hour_fragments(blocks, h, day_start, now);
        assert forall|k: int| 0 <= k < all.len() implies (#[trigger] all[k]).millis > 0 by {
            if k < prev.len() {
                assert(all[k] == prev[k]);
            }
        }
    }
}

/// Intersect `[start_ms, end_ms)` with the UTC day opening at `day_start`.
fn day_segment(start_ms: i64, end_ms: i64, day_start: i64) -> (r: Option<(i64, i64)>)
    requires
        day_start + DAY_MILLIS <= i64::MAX,
    ensures
        match r {
            Some(p) => day_segment_spec(start_ms as int, end_ms as int, day_start as int) == Some(
                (p.0 as int, p.1 as int),
            ),
            None => day_segment_spec(start_ms as int, end_ms as int, day_start as int) is None,
        },
{
    let s = if start_ms >= day_start {
        start_ms
    } else {
        day_start
    };
    let day_end = day_start + DAY_MILLIS;
    let e = if end_ms <= day_end {
        end_ms
    } else {
        day_end
    };
    if s < e {
        Some((s, e))
    } else {
        None
    }
}

fn fragment_in_hour(
    b: &TimelineBlock,
    hour_start: i64,
    hour_end: i64,
    day_start: i64,
    now: i64,
) -> (r: Option<TimelineFragment>)
    requires
        in_timestamp_range(b.start as int),
        b.end matches Some(e) ==> in_timestamp_range(e as int),
        in_timestamp_range(now as int),
        in_timestamp_range(day_start as int),
        day_start + DAY_MILLIS - 1 <= crate::clock::MAX_TIMESTAMP_MILLIS,
        day_start <= hour_start,
        hour_end == hour_start + HOUR_MILLIS,
        hour_end <= day_start + DAY_MILLIS,
    ensures
        match r {
            Some(f) => hour_piece(b@, hour_start as int, day_start as int, now as int) == Some(f@),
            None => hour_piece(b@, hour_start as int, day_start as int, now as int) is None,
        },
{
    let start_ms = b.start;
    let end_ms = match b.end {
        Some(e) => e,
        None => if now >= start_ms + 1 {
            now
        } else {
            start_ms + 1
        },
    };
    match day_segment(start_ms, end_ms, day_start) {
        Some(seg) => {
            let fs = if hour_start >= seg.0 {
                hour_start
            } else {
                seg.0
            };
            let fe = if seg.1 <= hour_end {
                seg.1
            } else {
                hour_end
            };
            if fe - fs > 0 {
                Some(
                    TimelineFragment {
                        app_class: b.app_class.clone(),
                        display_name: b.display_name.clone(),
                        millis: fe - fs,
                        is_gap: b.is_gap,
                        start_offset: fs - hour_start,
                    },
                )
            } else {
                None
            }
        },
        None => None,
    }
}

fn copy_fragment(f: &TimelineFragment) -> (r: TimelineFragment)
    ensures
        r@ == f@,
{
    TimelineFragment {
        app_class: f.app_class.clone(),
        display_name: f.display_name.clone(),
        millis: f.millis,
        is_gap: f.is_gap,
        start_offset: f.start_offset,
    }
}

/// Stable insertion sort of fragments by start offset.
fn sort_fragments_by_offset(v: &Vec<TimelineFragment>) -> (r: Vec<TimelineFragment>)
    ensures
        fragments_view(r@) == sort_by_key(fragments_view(v@), offset_key()),
{
    let mut out: Vec<TimelineFragment> = Vec::new();
    let n = v.len();
    let mut i: usize = 0;
    while i < n
        invariant
            n == v.len(),
            i <= n,
            fragments_view(out@) == sort_by_key(fragments_view(v@).take(i as int), offset_key()),
        decreases n - i,
    {
        let x = copy_fragment(&v[i]);
        let mut j: usize = out.len();
        while j > 0 && out[j - 1].start_offset > x.start_offset
            invariant
                j <= out.len(),
                forall|k: int| j <= k < out.len() ==> out@[k].start_offset > x.start_offset,
            decreases j,
        {
            j -= 1;
        }
        proof {
            let sv = fragments_view(out@);
            let key = offset_key();
            assert forall|k: int| j <= k < sv.len() implies key(#[trigger] sv[k]) > key(x@) by {}
            lemma_insert_by_key_at(sv, x@, key, j as int);
            let tk = fragments_view(v@).take(i as int + 1);
            assert(tk.drop_last() =~= fragments_view(v@).take(i as int));
            assert(tk.last() == x@);
        }
        let ghost old_out = out@;
        out.insert(j, x);
        proof {
            assert(fragments_view(out@) =~= fragments_view(old_out).insert(j as int, x@));
        }
        i += 1;
    }
    proof {
        assert(fragments_view(v@).take(n as int) =~= fragments_view(v@));
    }
    out
}

/// Build the 24 hourly buckets of a day timeline.
///
/// Bucket `h` holds, for every block overlapping clock hour `h` of the
/// timeline's UTC day, the fragment of the block inside that hour, sorted by
/// its offset from the hour boundary.  A block spanning midnight contributes
/// only its share within the day.  An open block is taken to end at `now`
/// (at least one millisecond after its start).
pub fn compute_hourly_buckets(timeline: &DayTimeline, now: i64) -> (r: Vec<HourlyBucket>)
    requires
        edges_in_range(blocks_view(timeline.blocks@)),
        in_timestamp_range(now as int),
        forall|h: int|
            0 <= h < 24 ==> fragment_total(
                #[trigger] hour_fragments(
                    blocks_view(timeline.blocks@),
                    h,
                    midnight_of(timeline.date@),
                    now as int,
                ),
            ) <= i64::MAX,
    ensures
        r.len() == 24,
        forall|h: int|
            0 <= h < 24 ==> {
                let frags = hour_fragments(
                    blocks_view(timeline.blocks@),
                    h,
                    midnight_of(timeline.date@),
                    now as int,
                );
                &&& (#[trigger] r[h]).hour == h
                &&& fragments_view(r[h].fragments@) == sort_by_key(frags, offset_key())
                &&& r[h].total_millis == fragment_total(frags)
            },
{
    let ghost bv = blocks_view(timeline.blocks@);
    let day_start = timeline.date.midnight_millis();
    let ghost ds = day_start as int;
    let mut buckets: Vec<HourlyBucket> = Vec::new();
    let n = timeline.blocks.len();
    let mut h: u32 = 0;
    while h < 24
        invariant
            bv == blocks_view(timeline.blocks@),
            n == timeline.blocks.len(),
            ds == day_start as int,
            ds == midnight_of(timeline.date@),
            in_timestamp_range(ds),
            ds + DAY_MILLIS - 1 <= crate::clock::MAX_TIMESTAMP_MILLIS,
            edges_in_range(bv),
            in_timestamp_range(now as int),
            forall|hh: int|
                0 <= hh < 24 ==> fragment_total(#[trigger] hour_fragments(bv, hh, ds, now as int))
                    <= i64::MAX,
            h <= 24,
            buckets.len() == h,
            forall|hh: int|
                0 <= hh < h ==> {
                    let frags = hour_fragments(bv, hh, ds, now as int);
                    &&& (#[trigger] buckets@[hh]).hour == hh
                    &&& fragments_view(buckets@[hh].fragments@) == sort_by_key(frags, offset_key())
                    &&& buckets@[hh].total_millis == fragment_total(frags)
                },
        decreases 24 - h,
    {
        let hour_start = timeline.date.hour_start_millis(h);
        let hour_end = if h == 23 {
            day_start + crate::clock::DAY_MILLIS
        } else {
            timeline.date.hour_start_millis(h + 1)
        };
        let ghost frags_all = hour_fragments(bv, h as int, ds, now as int);
        proof {
            lemma_hour_fragments_positive(bv, h as int, ds, now as int);
        }
        let mut frags: Vec<TimelineFragment> = Vec::new();
        let mut total: i64 = 0;
        let mut i: usize = 0;
        while i < n
            invariant
                bv == blocks_view(timeline.blocks@),
                n == timeline.blocks.len(),
                i <= n,
                ds == day_start as int,
                in_timestamp_range(ds),
                ds + DAY_MILLIS - 1 <= crate::clock::MAX_TIMESTAMP_MILLIS,
                edges_in_range(bv),
                in_timestamp_range(now as int),
                h < 24,
                hour_start == ds + h * HOUR_MILLIS,
                hour_end == hour_start + HOUR_MILLIS,
                frags_all == hour_fragments(bv, h as int, ds, now as int),
                forall|k: int| 0 <= k < frags_all.len() ==> (#[trigger] frags_all[k]).millis > 0,
                fragment_total(frags_all) <= i64::MAX,
                fragments_view(frags@) == hour_fragments(bv.take(i as int), h as int, ds, now as int),
                total == fragment_total(fragments_view(frags@)),
            decreases n - i,
        {
            let b = &timeline.blocks[i];
            proof {
                let t = bv.take(i as int + 1);
                assert(t.drop_last() =~= bv.take(i as int));
                assert(t.last() == b@);
                assert(bv[i as int] == b@);
                lemma_hour_fragments_prefix(bv, i as int + 1, h as int, ds, now as int);
            }
            let piece = fragment_in_hour(b, hour_start, hour_end, day_start, now);
            match piece {
                Some(f) => {
                    proof {
                        let fv = hour_fragments(bv.take(i as int + 1), h as int, ds, now as int);
                        assert(fv == fragments_view(frags@).push(f@));
                        lemma_fragment_total_prefix(frags_all, fv.len() as int);
                        assert(frags_all.take(fv.len() as int) =~= fv);
                        assert(fv.drop_last() =~= fragments_view(frags@));
                    }
                    let ghost old_frags = frags@;
                    total = total + f.millis;
                    frags.push(f);
                    proof {
                        assert(fragments_view(frags@) =~= fragments_view(old_frags).push(
                            frags@.last()@,
                        ));
                    }
                },
                None => {},
            }
            i += 1;
        }
        proof {
            assert(bv.take(n as int) =~= bv);
        }
        let sorted = sort_fragments_by_offset(&frags);
        buckets.push(HourlyBucket { hour: h, fragments: sorted, total_millis: total });
        h += 1;
    }
    buckets
}

/// The fragments of a prefix of the blocks are a prefix of the fragments of all blocks.
proof fn lemma_hour_fragments_prefix(blocks: Seq<BlockView>, i: int, h: int, day_start: int, now: int)
    requires
        0 <= i <= blocks.len(),
    ensures
        hour_fragments(blocks.take(i), h, day_start, now).len() <= hour_fragments(
            blocks,
            h,
            day_start,
            now,
        ).len(),
        hour_fragments(blocks, h, day_start, now).take(
            hour_fragments(blocks.take(i), h, day_start, now).len() as int,
        ) == hour_fragments(blocks.take(i), h, day_start, now),
    decreases blocks.len(),
{
    let all = hour_fragments(blocks, h, day_start, now);
    if i == blocks.len() {
        assert(blocks.take(i) =~= blocks);
        assert(all.take(all.len() as int) =~= all);
    } else {
        lemma_hour_fragments_prefix(blocks.drop_last(), i, h, day_start, now);
        assert(blocks.drop_last().take(i) =~= blocks.take(i));
        let pre = hour_fragments(blocks.drop_last(), h, day_start, now);
        let part = hour_fragments(blocks.take(i), h, day_start, now);
        assert(all.take(pre.len() as int) =~= pre);
        assert(all.take(part.len() as int) =~= pre.take(part.len() as int));
    }
}

/// One stretch of an hour's track in the timeline chart: a focus fragment
/// (with its application class) or idle time (`None`), by its offset from
/// the hour boundary and its length, in milliseconds.
#[derive(Debug, Clone)]
pub struct TrackSegment {
    pub start_offset: i64,
    pub millis: i64,
    pub app_class: Option<String>,
}

pub struct TrackSegmentView {
    pub start_offset: int,
    pub millis: int,
    pub app_class: Option<Seq<char>>,
}

impl View for TrackSegment {
    type V = TrackSegmentView;

    open spec fn view(&self) -> TrackSegmentView {
        TrackSegmentView {
            start_offset: self.start_offset as int,
            millis: self.millis as int,
            app_class: match self.app_class {
                Some(a) => Some(a@),
                None => None,
            },
        }
    }
}

pub open spec fn track_view(s: Seq<TrackSegment>) -> Seq<TrackSegmentView> {
    s.map_values(|t: TrackSegment| t@)
}

pub open spec fn idle_segment(start: int, millis: int) -> TrackSegmentView {
    TrackSegmentView { start_offset: start, millis, app_class: None }
}

/// The track segment of a fragment: gaps are drawn as idle time.
pub open spec fn fragment_segment(f: FragmentView) -> TrackSegmentView {
    TrackSegmentView {
        start_offset: f.start_offset,
        millis: f.millis,
        app_class: if f.is_gap {
            None
        } else {
            Some(f.app_class)
        },
    }
}

/// End offset of the last of the fragments.
pub open spec fn last_fragment_end(frags: Seq<FragmentView>) -> int {
    frags.last().start_offset + frags.last().millis
}

/// The track of one hour: the whole hour idle when it has no fragment;
/// else idle time before the first fragment when it starts after the hour
/// boundary, each fragment at its own offset, and idle time after the last
/// fragment when it ends before the hour does.
pub open spec fn hour_track(frags: Seq<FragmentView>) -> Seq<TrackSegmentView> {
    if frags.len() == 0 {
        seq![idle_segment(0, HOUR_MILLIS as int)]
    } else {
        let lead = if frags[0].start_offset > 0 {
            seq![idle_segment(0, frags[0].start_offset)]
        } else {
            Seq::empty()
        };
        let end = last_fragment_end(frags);
        let trail = if end < HOUR_MILLIS {
            seq![idle_segment(end, HOUR_MILLIS - end)]
        } else {
            Seq::empty()
        };
        lead + frags.map_values(|f: FragmentView| fragment_segment(f)) + trail
    }
}

/// The segments drawn for one hourly bucket of the timeline chart (see
/// [`hour_track`]).
pub fn hour_track_segments(bucket: &HourlyBucket) -> (r: Vec<TrackSegment>)
    requires
        bucket.fragments@.len() > 0 ==> {
            let end = last_fragment_end(fragments_view(bucket.fragments@));
            &&& i64::MIN <= end <= i64::MAX
            &&& end < HOUR_MILLIS ==> HOUR_MILLIS - end <= i64::MAX
        },
    ensures
        track_view(r@) == hour_track(fragments_view(bucket.fragments@)),
{
    let ghost fv = fragments_view(bucket.fragments@);
    let n = bucket.fragments.len();
    let mut out: Vec<TrackSegment> = Vec::new();
    if n == 0 {
        out.push(TrackSegment { start_offset: 0, millis: HOUR_MILLIS, app_class: None });
        proof {
            assert(track_view(out@) =~= hour_track(fv));
        }
        return out;
    }
    let first = bucket.fragments[0].start_offset;
    if first > 0 {
        out.push(TrackSegment { start_offset: 0, millis: first, app_class: None });
    }
    let ghost lead = track_view(out@);
    proof {
        assert(fv[0] == bucket.fragments@[0]@);
        if first > 0 {
            assert(lead =~= seq![idle_segment(0, fv[0].start_offset)]);
        } else {
            assert(lead =~= Seq::<TrackSegmentView>::empty());
        }
        assert(fv.take(0).map_values(|f: FragmentView| fragment_segment(f)) =~= Seq::<TrackSegmentView>::empty());
        assert(track_view(out@) =~= lead + fv.take(0).map_values(|f: FragmentView| fragment_segment(f)));
    }
    let mut i: usize = 0;
    while i < n
        invariant
            n == bucket.fragments.len(),
            fv == fragments_view(bucket.fragments@),
            i <= n,
            track_view(out@) == lead + fv.take(i as int).map_values(|f: FragmentView| fragment_segment(f)),
        decreases n - i,
    {
        let ghost before = out@;
        let f = &bucket.fragments[i];
        let app_class = if f.is_gap {
            None
        } else {
            Some(f.app_class.clone())
        };
        out.push(TrackSegment { start_offset: f.start_offset, millis: f.millis, app_class });
        proof {
            assert(fv[i as int] == f@);
            assert(track_view(out@) =~= track_view(before).push(fragment_segment(f@)));
            assert(fv.take(i as int + 1).map_values(|f: FragmentView| fragment_segment(f)) =~= fv.take(
                i as int,
            ).map_values(|f: FragmentView| fragment_segment(f)).push(fragment_segment(f@)));
            assert(track_view(out@) =~= lead + fv.take(i as int + 1).map_values(
                |f: FragmentView| fragment_segment(f),
            ));
        }
        i += 1;
    }
    proof {
        assert(fv.take(n as int) =~= fv);
        assert(fv.last() == bucket.fragments@[n - 1]@);
    }
    let last = &bucket.fragments[n - 1];
    let end = last.start_offset + last.millis;
    let ghost body = out@;
    proof {
        assert(end == last_fragment_end(fv));
        assert(track_view(body) == lead + fv.map_values(|f: FragmentView| fragment_segment(f)));
    }
    if end < HOUR_MILLIS {
        out.push(TrackSegment { start_offset: end, millis: HOUR_MILLIS - end, app_class: None });
        proof {
            assert(track_view(out@) =~= track_view(body).push(idle_segment(end as int, HOUR_MILLIS - end)));
        }
    }
    proof {
        assert(track_view(out@) =~= hour_track(fv));
    }
    out
}

} // verus!
