//! Dashboard view model: usage summaries, pie slices, top lists, block
//! cards, KPIs and the day timeline, derived from the daemon's raw data.

use crate::clock::{
    calendar_date_of, date_le, in_timestamp_range, iso_date_parse, midnight_of, now_millis,
    parse_iso_date, timestamp_in_range, CalendarDate, DAY_MILLIS,
};
use crate::names::NameTable;
use crate::seq_util::{lemma_insert_by_key_at, running_sums_fit_i64, sort_by_key, sum_by};
use crate::text::{decimal_text, push_decimal};
use crate::timeline::{
    build_day_timeline, blocks_view, day_blocks, display_name_in, edges_in_range, events_sorted,
    events_view, event_time_key, focus_total, raw_blocks, scan_events, sort_events_by_time,
    DayEventRow, DayTimeline, EventType,
};
use vstd::hash_map::StringHashMap;
use vstd::prelude::*;
use vstd::string::*;

verus! {

// ---------------------------------------------------------------------------
// Raw data from the daemon
// ---------------------------------------------------------------------------

/// Total use of one application over the selected range (pre-sorted by the
/// daemon, longest first).
#[derive(Debug, Clone)]
pub struct AppUsageSummary {
    pub app_class: String,
    pub total_millis: i64,
}

/// Total use of one category over the selected range.
#[derive(Debug, Clone)]
pub struct CategoryUsageSummary {
    /// Name of the category.
    pub category: String,
    pub total_millis: i64,
}

/// Total time of one window title over the selected range.
#[derive(Debug, Clone)]
pub struct TitleUsageSummary {
    pub app_class: String,
    pub title: String,
    pub total_millis: i64,
}

/// The category assignment and display name of one application.
#[derive(Debug, Clone)]
pub struct AppCategoryRow {
    pub app_class: String,
    pub display_name: String,
    /// Category code; 0 means uncategorized.
    pub category: u8,
}

/// A usage category with its display color.
#[derive(Debug, Clone)]
pub struct Category {
    pub id: u8,
    pub name: String,
    pub color: String,
}

/// An application currently blocked by a policy.
#[derive(Debug, Clone)]
pub struct BlockedAppEntry {
    pub app_class: String,
    /// Epoch milliseconds at which the block began.
    pub blocked_since: u64,
}

/// An inclusive range of calendar days.
#[derive(Debug, Clone, Copy, PartialEq, Eq)]
pub struct DateRange {
    pub start: CalendarDate,
    pub end: CalendarDate,
}

impl DateRange {
    /// The first day as `YYYY-MM-DD`.
    pub fn start_str(&self) -> (r: String)
        ensures
            r@ == crate::clock::iso_date_text(self.start@.0, self.start@.1, self.start@.2),
    {
        self.start.to_iso_text()
    }

    /// The last day as `YYYY-MM-DD`.
    pub fn end_str(&self) -> (r: String)
        ensures
            r@ == crate::clock::iso_date_text(self.end@.0, self.end@.1, self.end@.2),
    {
        self.end.to_iso_text()
    }
}

/// The range from `start` to `end`, if `start` is not after `end`.
pub fn ordered_range(start: CalendarDate, end: CalendarDate) -> (r: Option<DateRange>)
    ensures
        r is Some <==> date_le(start@, end@),
        r matches Some(range) ==> range.start == start && range.end == end,
{
    if start.is_on_or_before(&end) {
        Some(DateRange { start, end })
    } else {
        None
    }
}

/// The custom range typed into the two `YYYY-MM-DD` fields of the range
/// selector: both must be dates and the first must not be after the second.
pub fn custom_date_range(start_text: &str, end_text: &str) -> (r: Option<DateRange>)
    ensures
        match (iso_date_parse(start_text@), iso_date_parse(end_text@)) {
            (Some(s), Some(e)) => if date_le(s, e) {
                r matches Some(range) && range.start@ == s && range.end@ == e
            } else {
                r is None
            },
            _ => r is None,
        },
{
    match (parse_iso_date(start_text), parse_iso_date(end_text)) {
        (Some(start), Some(end)) => ordered_range(start, end),
        _ => None,
    }
}

/// The query window of a day's events: from its midnight UTC to the next
/// midnight.
pub fn day_window_millis(date: &CalendarDate) -> (r: (i64, i64))
    requires
        date@ != (crate::clock::MAX_YEAR as int, 12int, 31int),
    ensures
        r.0 == midnight_of(date@),
        r.1 == midnight_of(date@) + DAY_MILLIS,
{
    (date.midnight_millis(), date.next_midnight_millis())
}

/// Raw D-Bus response bundle for the dashboard screen.
#[derive(Debug, Clone)]
pub struct DashboardData {
    pub blocked: Vec<BlockedAppEntry>,
    pub day_events: Vec<DayEventRow>,
    pub category_summary: Vec<CategoryUsageSummary>,
    pub categories: Vec<Category>,
    pub app_categories: Vec<AppCategoryRow>,
    pub app_summary: Vec<AppUsageSummary>,
    pub title_summary: Vec<TitleUsageSummary>,
}

// ---------------------------------------------------------------------------
// Derived data
// ---------------------------------------------------------------------------

/// One slice of a usage pie chart.  Its percentage is
/// `millis / total_millis * 100`.
#[derive(Debug, Clone)]
pub struct Slice {
    pub app_class: String,
    pub display_name: String,
    pub color: String,
    pub millis: i64,
    /// Sum over all slices of the chart.
    pub total_millis: i128,
}

pub struct SliceView {
    pub app_class: Seq<char>,
    pub display_name: Seq<char>,
    pub color: Seq<char>,
    pub millis: int,
    pub total_millis: int,
}

impl View for Slice {
    type V = SliceView;

    open spec fn view(&self) -> SliceView {
        SliceView {
            app_class: self.app_class@,
            display_name: self.display_name@,
            color: self.color@,
            millis: self.millis as int,
            total_millis: self.total_millis as int,
        }
    }
}

/// The label shown for a slice: its display name, or its application class
/// when the display name is empty.
pub fn slice_label(s: &Slice) -> (r: &str)
    ensures
        r@ == if s.display_name@.len() == 0 {
            s.app_class@
        } else {
            s.display_name@
        },
{
    if s.display_name.as_str().is_empty() {
        s.app_class.as_str()
    } else {
        s.display_name.as_str()
    }
}

/// One row of the top-applications list.  Its percentage is
/// `total_millis / grand_total_millis * 100`.
#[derive(Debug, Clone)]
pub struct AppListEntry {
    pub rank: usize,
    pub app_class: String,
    pub display_name: String,
    pub total_millis: i64,
    pub grand_total_millis: i64,
    pub category_color: Option<String>,
    pub is_blocked: bool,
}

pub struct AppListView {
    pub rank: int,
    pub app_class: Seq<char>,
    pub display_name: Seq<char>,
    pub total_millis: int,
    pub grand_total_millis: int,
    pub category_color: Option<Seq<char>>,
    pub is_blocked: bool,
}

pub open spec fn opt_text(o: Option<String>) -> Option<Seq<char>> {
    match o {
        Some(s) => Some(s@),
        None => None,
    }
}

impl View for AppListEntry {
    type V = AppListView;

    open spec fn view(&self) -> AppListView {
        AppListView {
            rank: self.rank as int,
            app_class: self.app_class@,
            display_name: self.display_name@,
            total_millis: self.total_millis as int,
            grand_total_millis: self.grand_total_millis as int,
            category_color: opt_text(self.category_color),
            is_blocked: self.is_blocked,
        }
    }
}

/// One row of the top-titles list.  Its percentage is
/// `total_millis / grand_total_millis * 100`.
#[derive(Debug, Clone)]
pub struct TitleListEntry {
    pub rank: usize,
    pub app_class: String,
    pub title: String,
    pub total_millis: i64,
    pub grand_total_millis: i64,
}

pub struct TitleListView {
    pub rank: int,
    pub app_class: Seq<char>,
    pub title: Seq<char>,
    pub total_millis: int,
    pub grand_total_millis: int,
}

impl View for TitleListEntry {
    type V = TitleListView;

    open spec fn view(&self) -> TitleListView {
        TitleListView {
            rank: self.rank as int,
            app_class: self.app_class@,
            title: self.title@,
            total_millis: self.total_millis as int,
            grand_total_millis: self.grand_total_millis as int,
        }
    }
}

/// A card for an application that is currently blocked.
#[derive(Debug, Clone)]
pub struct BlockCardInfo {
    pub app_class: String,
    pub display_name: String,
    /// Epoch milliseconds.
    pub blocked_since: i64,
}

pub struct BlockCardView {
    pub app_class: Seq<char>,
    pub display_name: Seq<char>,
    pub blocked_since: int,
}

impl View for BlockCardInfo {
    type V = BlockCardView;

    open spec fn view(&self) -> BlockCardView {
        BlockCardView {
            app_class: self.app_class@,
            display_name: self.display_name@,
            blocked_since: self.blocked_since as int,
        }
    }
}

/// Key figures shown in the stat row.
#[derive(Debug, Clone)]
pub struct Kpis {
    pub total_millis: i64,
    pub top_app: String,
    pub top_app_millis: i64,
    pub active_blocks: usize,
}

pub open spec fn slices_view(s: Seq<Slice>) -> Seq<SliceView> {
    s.map_values(|x: Slice| x@)
}

pub open spec fn app_list_view(s: Seq<AppListEntry>) -> Seq<AppListView> {
    s.map_values(|x: AppListEntry| x@)
}

pub open spec fn title_list_view(s: Seq<TitleListEntry>) -> Seq<TitleListView> {
    s.map_values(|x: TitleListEntry| x@)
}

pub open spec fn block_cards_view(s: Seq<BlockCardInfo>) -> Seq<BlockCardView> {
    s.map_values(|x: BlockCardInfo| x@)
}

// ---------------------------------------------------------------------------
// Lookup tables
// ---------------------------------------------------------------------------

/// Display name per application class; a later row overrides an earlier one.
pub open spec fn names_of_rows(rows: Seq<AppCategoryRow>) -> Map<Seq<char>, Seq<char>>
    decreases rows.len(),
{
    if rows.len() == 0 {
        Map::empty()
    } else {
        names_of_rows(rows.drop_last()).insert(rows.last().app_class@, rows.last().display_name@)
    }
}

/// Category code per application class; a later row overrides an earlier one.
pub open spec fn codes_of_rows(rows: Seq<AppCategoryRow>) -> Map<Seq<char>, u8>
    decreases rows.len(),
{
    if rows.len() == 0 {
        Map::empty()
    } else {
        codes_of_rows(rows.drop_last()).insert(rows.last().app_class@, rows.last().category)
    }
}

/// Color per category name; a later category overrides an earlier one.
pub open spec fn colors_of(categories: Seq<Category>) -> Map<Seq<char>, Seq<char>>
    decreases categories.len(),
{
    if categories.len() == 0 {
        Map::empty()
    } else {
        colors_of(categories.drop_last()).insert(
            categories.last().name@,
            categories.last().color@,
        )
    }
}

/// The display-name table of the application rows.
pub fn app_name_table(rows: &Vec<AppCategoryRow>) -> (r: NameTable)
    ensures
        r@ == names_of_rows(rows@),
{
    let mut t = NameTable::new();
    let n = rows.len();
    let mut i: usize = 0;
    while i < n
        invariant
            n == rows.len(),
            i <= n,
            t@ == names_of_rows(rows@.take(i as int)),
        decreases n - i,
    {
        proof {
            assert(rows@.take(i as int + 1).drop_last() =~= rows@.take(i as int));
        }
        t.insert(rows[i].app_class.clone(), rows[i].display_name.clone());
        i += 1;
    }
    proof {
        assert(rows@.take(n as int) =~= rows@);
    }
    t
}

fn app_code_table(rows: &Vec<AppCategoryRow>) -> (r: StringHashMap<u8>)
    ensures
        r@ == codes_of_rows(rows@),
{
    let mut t: StringHashMap<u8> = StringHashMap::new();
    let n = rows.len();
    let mut i: usize = 0;
    while i < n
        invariant
            n == rows.len(),
            i <= n,
            t@ == codes_of_rows(rows@.take(i as int)),
        decreases n - i,
    {
        proof {
            assert(rows@.take(i as int + 1).drop_last() =~= rows@.take(i as int));
        }
        t.insert(rows[i].app_class.clone(), rows[i].category);
        i += 1;
    }
    proof {
        assert(rows@.take(n as int) =~= rows@);
    }
    t
}

fn color_table(categories: &Vec<Category>) -> (r: NameTable)
    ensures
        r@ == colors_of(categories@),
{
    let mut t = NameTable::new();
    let n = categories.len();
    let mut i: usize = 0;
    while i < n
        invariant
            n == categories.len(),
            i <= n,
            t@ == colors_of(categories@.take(i as int)),
        decreases n - i,
    {
        proof {
            assert(categories@.take(i as int + 1).drop_last() =~= categories@.take(i as int));
        }
        t.insert(categories[i].name.clone(), categories[i].color.clone());
        i += 1;
    }
    proof {
        assert(categories@.take(n as int) =~= categories@);
    }
    t
}

// ---------------------------------------------------------------------------
// Pie slices
// ---------------------------------------------------------------------------

pub open spec fn app_millis() -> spec_fn(AppUsageSummary) -> int {
    |s: AppUsageSummary| s.total_millis as int
}

pub open spec fn category_millis() -> spec_fn(CategoryUsageSummary) -> int {
    |s: CategoryUsageSummary| s.total_millis as int
}

pub open spec fn title_millis() -> spec_fn(TitleUsageSummary) -> int {
    |s: TitleUsageSummary| s.total_millis as int
}

/// Orders slices by decreasing millis.
pub open spec fn slice_desc_key() -> spec_fn(SliceView) -> int {
    |s: SliceView| -s.millis
}

/// Application slices: one per summary row, labelled with the display name
/// from the application rows (else the class), sorted by decreasing share
/// (ties keep the summary's order); none when the summary is empty or its
/// total is not positive.
pub open spec fn app_slices(summary: Seq<AppUsageSummary>, rows: Seq<AppCategoryRow>) -> Seq<
    SliceView,
> {
    let total = sum_by(summary, app_millis());
    if summary.len() == 0 || total <= 0 {
        Seq::empty()
    } else {
        sort_by_key(
            summary.map_values(
                |s: AppUsageSummary|
                    SliceView {
                        app_class: s.app_class@,
                        display_name: display_name_in(names_of_rows(rows), s.app_class@),
                        color: Seq::empty(),
                        millis: s.total_millis as int,
                        total_millis: total,
                    },
            ),
            slice_desc_key(),
        )
    }
}

/// The color of a category name: its entry among the categories, else empty.
pub open spec fn color_in(colors: Map<Seq<char>, Seq<char>>, name: Seq<char>) -> Seq<char> {
    if colors.contains_key(name) {
        colors[name]
    } else {
        Seq::empty()
    }
}

/// Category slices: one per summary row, labelled with the category name and
/// colored from the category list, sorted by decreasing share; none when the
/// summary is empty or its total is not positive.
pub open spec fn category_slices(summary: Seq<CategoryUsageSummary>, categories: Seq<Category>) -> Seq<
    SliceView,
> {
    let total = sum_by(summary, category_millis());
    if summary.len() == 0 || total <= 0 {
        Seq::empty()
    } else {
        sort_by_key(
            summary.map_values(
                |s: CategoryUsageSummary|
                    SliceView {
                        app_class: s.category@,
                        display_name: s.category@,
                        color: color_in(colors_of(categories), s.category@),
                        millis: s.total_millis as int,
                        total_millis: total,
                    },
            ),
            slice_desc_key(),
        )
    }
}

fn copy_slice(s: &Slice) -> (r: Slice)
    ensures
        r@ == s@,
{
    Slice {
        app_class: s.app_class.clone(),
        display_name: s.display_name.clone(),
        color: s.color.clone(),
        millis: s.millis,
        total_millis: s.total_millis,
    }
}

/// Stable sort of slices by decreasing millis.
fn sort_slices_desc(v: &Vec<Slice>) -> (r: Vec<Slice>)
    ensures
        slices_view(r@) == sort_by_key(slices_view(v@), slice_desc_key()),
{
    let mut out: Vec<Slice> = Vec::new();
    let n = v.len();
    let mut i: usize = 0;
    while i < n
        invariant
            n == v.len(),
            i <= n,
            slices_view(out@) == sort_by_key(slices_view(v@).take(i as int), slice_desc_key()),
        decreases n - i,
    {
        let x = copy_slice(&v[i]);
        let mut j: usize = out.len();
        while j > 0 && out[j - 1].millis < x.millis
            invariant
                j <= out.len(),
                forall|k: int| j <= k < out.len() ==> out@[k].millis < x.millis,
            decreases j,
        {
            j -= 1;
        }
        proof {
            let sv = slices_view(out@);
            let key = slice_desc_key();
            assert forall|k: int| j <= k < sv.len() implies key(#[trigger] sv[k]) > key(x@) by {}
            lemma_insert_by_key_at(sv, x@, key, j as int);
            let tk = slices_view(v@).take(i as int + 1);
            assert(tk.drop_last() =~= slices_view(v@).take(i as int));
            assert(tk.last() == x@);
        }
        let ghost old_out = out@;
        out.insert(j, x);
        proof {
            assert(slices_view(out@) =~= slices_view(old_out).insert(j as int, x@));
        }
        i += 1;
    }
    proof {
        assert(slices_view(v@).take(n as int) =~= slices_view(v@));
    }
    out
}

proof fn lemma_sum_step<T>(s: Seq<T>, f: spec_fn(T) -> int, i: int)
    requires
        0 <= i < s.len(),
    ensures
        sum_by(s.take(i + 1), f) == sum_by(s.take(i), f) + f(s[i]),
{
    assert(s.take(i + 1).drop_last() =~= s.take(i));
}

proof fn lemma_sum_all<T>(s: Seq<T>, f: spec_fn(T) -> int)
    ensures
        sum_by(s.take(s.len() as int), f) == sum_by(s, f),
{
    assert(s.take(s.len() as int) =~= s);
}

/// Total of the application summaries, exact (no overflow is possible).
fn app_summary_total(summary: &Vec<AppUsageSummary>) -> (r: i128)
    ensures
        r == sum_by(summary@, app_millis()),
{
    let n = summary.len();
    let mut total: i128 = 0;
    let mut i: usize = 0;
    while i < n
        invariant
            n == summary.len(),
            i <= n,
            total == sum_by(summary@.take(i as int), app_millis()),
            -(i as int) * 0x8000_0000_0000_0000 <= total <= (i as int) * 0x7fff_ffff_ffff_ffff,
        decreases n - i,
    {
        proof {
            lemma_sum_step(summary@, app_millis(), i as int);
        }
        total = total + summary[i].total_millis as i128;
        i += 1;
    }
    proof {
        lemma_sum_all(summary@, app_millis());
    }
    total
}

fn category_summary_total(summary: &Vec<CategoryUsageSummary>) -> (r: i128)
    ensures
        r == sum_by(summary@, category_millis()),
{
    let n = summary.len();
    let mut total: i128 = 0;
    let mut i: usize = 0;
    while i < n
        invariant
            n == summary.len(),
            i <= n,
            total == sum_by(summary@.take(i as int), category_millis()),
            -(i as int) * 0x8000_0000_0000_0000 <= total <= (i as int) * 0x7fff_ffff_ffff_ffff,
        decreases n - i,
    {
        proof {
            lemma_sum_step(summary@, category_millis(), i as int);
        }
        total = total + summary[i].total_millis as i128;
        i += 1;
    }
    proof {
        lemma_sum_all(summary@, category_millis());
    }
    total
}

/// Application pie slices from the per-application summary.
pub fn build_app_slices(summary: &Vec<AppUsageSummary>, app_categories: &Vec<AppCategoryRow>) -> (r:
    Vec<Slice>)
    ensures
        slices_view(r@) == app_slices(summary@, app_categories@),
{
    if summary.len() == 0 {
        return Vec::new();
    }
    let total = app_summary_total(summary);
    if total <= 0 {
        return Vec::new();
    }
    let names = app_name_table(app_categories);
    let ghost target = summary@.map_values(
        |s: AppUsageSummary|
            SliceView {
                app_class: s.app_class@,
                display_name: display_name_in(names_of_rows(app_categories@), s.app_class@),
                color: Seq::empty(),
                millis: s.total_millis as int,
                total_millis: total as int,
            },
    );
    let mut slices: Vec<Slice> = Vec::new();
    let n = summary.len();
    let mut i: usize = 0;
    while i < n
        invariant
            n == summary.len(),
            i <= n,
            names@ == names_of_rows(app_categories@),
            target.len() == n,
            forall|k: int| 0 <= k < n ==> #[trigger] target[k] == (SliceView {
                app_class: summary@[k].app_class@,
                display_name: display_name_in(names_of_rows(app_categories@), summary@[k].app_class@),
                color: Seq::empty(),
                millis: summary@[k].total_millis as int,
                total_millis: total as int,
            }),
            slices_view(slices@) == target.take(i as int),
        decreases n - i,
    {
        let s = &summary[i];
        let display = match names.get(s.app_class.as_str()) {
            Some(d) => d.clone(),
            None => s.app_class.clone(),
        };
        let ghost before = slices@;
        slices.push(
            Slice {
                app_class: s.app_class.clone(),
                display_name: display,
                color: String::new(),
                millis: s.total_millis,
                total_millis: total,
            },
        );
        proof {
            let k = i as int;
            assert(slices_view(before).len() == k);
            assert(slices@.len() == k + 1);
            assert(target[k] == slices@[k]@);
            assert(slices_view(slices@) =~= target.take(i as int + 1));
        }
        i += 1;
    }
    proof {
        assert(target.take(n as int) =~= target);
    }
    sort_slices_desc(&slices)
}

/// Category pie slices from the per-category summary.
pub fn build_category_slices(summary: &Vec<CategoryUsageSummary>, categories: &Vec<Category>) -> (r:
    Vec<Slice>)
    ensures
        slices_view(r@) == category_slices(summary@, categories@),
{
    if summary.len() == 0 {
        return Vec::new();
    }
    let total = category_summary_total(summary);
    if total <= 0 {
        return Vec::new();
    }
    let colors = color_table(categories);
    let ghost target = summary@.map_values(
        |s: CategoryUsageSummary|
            SliceView {
                app_class: s.category@,
                display_name: s.category@,
                color: color_in(colors_of(categories@), s.category@),
                millis: s.total_millis as int,
                total_millis: total as int,
            },
    );
    let mut slices: Vec<Slice> = Vec::new();
    let n = summary.len();
    let mut i: usize = 0;
    while i < n
        invariant
            n == summary.len(),
            i <= n,
            colors@ == colors_of(categories@),
            target.len() == n,
            forall|k: int| 0 <= k < n ==> #[trigger] target[k] == (SliceView {
                app_class: summary@[k].category@,
                display_name: summary@[k].category@,
                color: color_in(colors_of(categories@), summary@[k].category@),
                millis: summary@[k].total_millis as int,
                total_millis: total as int,
            }),
            slices_view(slices@) == target.take(i as int),
        decreases n - i,
    {
        let s = &summary[i];
        let ghost before = slices@;
        let color = match colors.get(s.category.as_str()) {
            Some(c) => c.clone(),
            None => String::new(),
        };
        slices.push(
            Slice {
                app_class: s.category.clone(),
                display_name: s.category.clone(),
                color,
                millis: s.total_millis,
                total_millis: total,
            },
        );
        proof {
            let k = i as int;
            assert(slices_view(before).len() == k);
            assert(slices@.len() == k + 1);
            assert(target[k] == slices@[k]@);
            assert(slices_view(slices@) =~= target.take(i as int + 1));
        }
        i += 1;
    }
    proof {
        assert(target.take(n as int) =~= target);
    }
    sort_slices_desc(&slices)
}

// ---------------------------------------------------------------------------
// Top lists
// ---------------------------------------------------------------------------

/// The list color of a category code: `"cat_{code}"`, none for code 0.
pub open spec fn category_color_of(code: u8) -> Option<Seq<char>> {
    if code > 0 {
        Some(seq!['c', 'a', 't', '_'] + decimal_text(code as int))
    } else {
        None
    }
}

/// Whether some blocked entry names the application.
pub open spec fn blocked_contains(blocked: Seq<BlockedAppEntry>, app: Seq<char>) -> bool {
    exists|i: int| 0 <= i < blocked.len() && (#[trigger] blocked[i]).app_class@ == app
}

pub open spec fn top_app_row(
    i: int,
    s: AppUsageSummary,
    rows: Seq<AppCategoryRow>,
    blocked: Seq<BlockedAppEntry>,
    grand: int,
) -> AppListView {
    let app = s.app_class@;
    AppListView {
        rank: i + 1,
        app_class: app,
        display_name: display_name_in(names_of_rows(rows), app),
        total_millis: s.total_millis as int,
        grand_total_millis: grand,
        category_color: if codes_of_rows(rows).contains_key(app) {
            category_color_of(codes_of_rows(rows)[app])
        } else {
            None
        },
        is_blocked: blocked_contains(blocked, app),
    }
}

pub open spec fn min_nat(a: nat, b: nat) -> nat {
    if a <= b {
        a
    } else {
        b
    }
}

/// The first ten rows of the (pre-sorted) summary, ranked from 1, with
/// display name and category color from the application rows and the blocked
/// flag; none when the summary is empty or its total is not positive.
pub open spec fn top_apps(
    summary: Seq<AppUsageSummary>,
    rows: Seq<AppCategoryRow>,
    blocked: Seq<BlockedAppEntry>,
) -> Seq<AppListView> {
    let grand = sum_by(summary, app_millis());
    if summary.len() == 0 || grand <= 0 {
        Seq::empty()
    } else {
        Seq::new(min_nat(summary.len(), 10), |i: int| top_app_row(i, summary[i], rows, blocked, grand))
    }
}

/// The first ten rows of the (pre-sorted) title summary, ranked from 1;
/// none when the summary is empty or its total is not positive.
pub open spec fn top_titles(summary: Seq<TitleUsageSummary>) -> Seq<TitleListView> {
    let grand = sum_by(summary, title_millis());
    if summary.len() == 0 || grand <= 0 {
        Seq::empty()
    } else {
        Seq::new(
            min_nat(summary.len(), 10),
            |i: int|
                TitleListView {
                    rank: i + 1,
                    app_class: summary[i].app_class@,
                    title: summary[i].title@,
                    total_millis: summary[i].total_millis as int,
                    grand_total_millis: grand,
                },
        )
    }
}

/// The top lists hold the first ten rows of their summaries at most: with a
/// positive total, exactly the first `min(len, 10)` rows, ranked 1, 2, ...
/// in the summary's order; with no rows or no positive total, nothing.
pub proof fn law_top_lists_hold_ten_at_most(
    apps: Seq<AppUsageSummary>,
    rows: Seq<AppCategoryRow>,
    blocked: Seq<BlockedAppEntry>,
    titles: Seq<TitleUsageSummary>,
)
    ensures
        top_titles(titles).len() <= 10,
        top_apps(apps, rows, blocked).len() <= 10,
        titles.len() > 0 && sum_by(titles, title_millis()) > 0 ==> top_titles(titles).len() == if titles.len()
            < 10 {
            titles.len()
        } else {
            10
        },
        apps.len() > 0 && sum_by(apps, app_millis()) > 0 ==> top_apps(apps, rows, blocked).len() == if apps.len()
            < 10 {
            apps.len()
        } else {
            10
        },
        !(titles.len() > 0 && sum_by(titles, title_millis()) > 0) ==> top_titles(titles).len() == 0,
        !(apps.len() > 0 && sum_by(apps, app_millis()) > 0) ==> top_apps(apps, rows, blocked).len() == 0,
        forall|i: int|
            0 <= i < top_titles(titles).len() ==> {
                &&& (#[trigger] top_titles(titles)[i]).rank == i + 1
                &&& top_titles(titles)[i].title == titles[i].title@
                &&& top_titles(titles)[i].app_class == titles[i].app_class@
                &&& top_titles(titles)[i].total_millis == titles[i].total_millis
            },
        forall|i: int|
            0 <= i < top_apps(apps, rows, blocked).len() ==> {
                &&& (#[trigger] top_apps(apps, rows, blocked)[i]).rank == i + 1
                &&& top_apps(apps, rows, blocked)[i].app_class == apps[i].app_class@
                &&& top_apps(apps, rows, blocked)[i].total_millis == apps[i].total_millis
            },
{
}

fn category_color(code: u8) -> (r: Option<String>)
    ensures
        opt_text(r) == category_color_of(code),
{
    if code > 0 {
        proof {
            reveal_strlit("cat_");
        }
        let mut s = String::from_str("cat_");
        push_decimal(&mut s, code as i64);
        Some(s)
    } else {
        None
    }
}

fn is_blocked_app(blocked: &Vec<BlockedAppEntry>, app_class: &String) -> (r: bool)
    ensures
        r == blocked_contains(blocked@, app_class@),
{
    let n = blocked.len();
    let mut i: usize = 0;
    while i < n
        invariant
            n == blocked.len(),
            i <= n,
            forall|k: int| 0 <= k < i ==> (#[trigger] blocked@[k]).app_class@ != app_class@,
        decreases n - i,
    {
        if blocked[i].app_class == *app_class {
            return true;
        }
        i += 1;
    }
    false
}

/// Sum of the application totals, added up in `i64`.
fn app_summary_total_i64(summary: &Vec<AppUsageSummary>) -> (r: i64)
    requires
        running_sums_fit_i64(summary@, app_millis()),
    ensures
        r == sum_by(summary@, app_millis()),
{
    let n = summary.len();
    let mut total: i64 = 0;
    let mut i: usize = 0;
    while i < n
        invariant
            n == summary.len(),
            i <= n,
            running_sums_fit_i64(summary@, app_millis()),
            total == sum_by(summary@.take(i as int), app_millis()),
        decreases n - i,
    {
        proof {
            lemma_sum_step(summary@, app_millis(), i as int);
            assert(i64::MIN <= sum_by(summary@.take(i as int + 1), app_millis()) <= i64::MAX);
        }
        total = total + summary[i].total_millis;
        i += 1;
    }
    proof {
        lemma_sum_all(summary@, app_millis());
    }
    total
}

fn title_summary_total_i64(summary: &Vec<TitleUsageSummary>) -> (r: i64)
    requires
        running_sums_fit_i64(summary@, title_millis()),
    ensures
        r == sum_by(summary@, title_millis()),
{
    let n = summary.len();
    let mut total: i64 = 0;
    let mut i: usize = 0;
    while i < n
        invariant
            n == summary.len(),
            i <= n,
            running_sums_fit_i64(summary@, title_millis()),
            total == sum_by(summary@.take(i as int), title_millis()),
        decreases n - i,
    {
        proof {
            lemma_sum_step(summary@, title_millis(), i as int);
            assert(i64::MIN <= sum_by(summary@.take(i as int + 1), title_millis()) <= i64::MAX);
        }
        total = total + summary[i].total_millis;
        i += 1;
    }
    proof {
        lemma_sum_all(summary@, title_millis());
    }
    total
}

/// Top ten applications from the pre-aggregated, pre-sorted summary.
pub fn build_top_apps_from_summary(
    app_summary: &Vec<AppUsageSummary>,
    app_categories: &Vec<AppCategoryRow>,
    blocked: &Vec<BlockedAppEntry>,
) -> (r: Vec<AppListEntry>)
    requires
        running_sums_fit_i64(app_summary@, app_millis()),
    ensures
        app_list_view(r@) == top_apps(app_summary@, app_categories@, blocked@),
{
    if app_summary.len() == 0 {
        return Vec::new();
    }
    let names = app_name_table(app_categories);
    let codes = app_code_table(app_categories);
    let grand_total = app_summary_total_i64(app_summary);
    if grand_total <= 0 {
        return Vec::new();
    }
    let ghost target = top_apps(app_summary@, app_categories@, blocked@);
    let n = if app_summary.len() < 10 {
        app_summary.len()
    } else {
        10
    };
    let mut out: Vec<AppListEntry> = Vec::new();
    let mut i: usize = 0;
    while i < n
        invariant
            n <= app_summary.len(),
            n == min_nat(app_summary@.len(), 10),
            i <= n,
            names@ == names_of_rows(app_categories@),
            codes@ == codes_of_rows(app_categories@),
            grand_total == sum_by(app_summary@, app_millis()),
            grand_total > 0,
            app_summary@.len() > 0,
            target == top_apps(app_summary@, app_categories@, blocked@),
            app_list_view(out@) == target.take(i as int),
        decreases n - i,
    {
        let s = &app_summary[i];
        let display = match names.get(s.app_class.as_str()) {
            Some(d) => d.clone(),
            None => s.app_class.clone(),
        };
        let color = match codes.get(s.app_class.as_str()) {
            Some(c) => category_color(*c),
            None => None,
        };
        let is_blocked = is_blocked_app(blocked, &s.app_class);
        let ghost before = out@;
        out.push(
            AppListEntry {
                rank: i + 1,
                app_class: s.app_class.clone(),
                display_name: display,
                total_millis: s.total_millis,
                grand_total_millis: grand_total,
                category_color: color,
                is_blocked,
            },
        );
        proof {
            let k = i as int;
            assert(app_list_view(before).len() == k);
            assert(target[k] == top_app_row(k, app_summary@[k], app_categories@, blocked@, grand_total as int));
            assert(target[k] == out@[k]@);
            assert(app_list_view(out@) =~= target.take(k + 1));
        }
        i += 1;
    }
    proof {
        assert(target.take(n as int) =~= target);
    }
    out
}

/// Top ten window titles from the pre-aggregated, pre-sorted summary.
pub fn build_top_titles_from_summary(title_summary: &Vec<TitleUsageSummary>) -> (r: Vec<
    TitleListEntry,
>)
    requires
        running_sums_fit_i64(title_summary@, title_millis()),
    ensures
        title_list_view(r@) == top_titles(title_summary@),
{
    if title_summary.len() == 0 {
        return Vec::new();
    }
    let grand_total = title_summary_total_i64(title_summary);
    if grand_total <= 0 {
        return Vec::new();
    }
    let ghost target = top_titles(title_summary@);
    let n = if title_summary.len() < 10 {
        title_summary.len()
    } else {
        10
    };
    let mut out: Vec<TitleListEntry> = Vec::new();
    let mut i: usize = 0;
    while i < n
        invariant
            n <= title_summary.len(),
            n == min_nat(title_summary@.len(), 10),
            i <= n,
            grand_total == sum_by(title_summary@, title_millis()),
            grand_total > 0,
            title_summary@.len() > 0,
            target == top_titles(title_summary@),
            title_list_view(out@) == target.take(i as int),
        decreases n - i,
    {
        let s = &title_summary[i];
        let ghost before = out@;
        out.push(
            TitleListEntry {
                rank: i + 1,
                app_class: s.app_class.clone(),
                title: s.title.clone(),
                total_millis: s.total_millis,
                grand_total_millis: grand_total,
            },
        );
        proof {
            let k = i as int;
            assert(title_list_view(before).len() == k);
            assert(target[k] == out@[k]@);
            assert(title_list_view(out@) =~= target.take(k + 1));
        }
        i += 1;
    }
    proof {
        assert(target.take(n as int) =~= target);
    }
    out
}

// ---------------------------------------------------------------------------
// Block cards
// ---------------------------------------------------------------------------

/// The card of a blocked entry: display name from the table (else empty) and
/// the block start, or `now` when the start is not a representable instant.
pub open spec fn block_card(b: BlockedAppEntry, names: Map<Seq<char>, Seq<char>>, now: int) -> BlockCardView {
    let app = b.app_class@;
    let since = (b.blocked_since as i64) as int;
    BlockCardView {
        app_class: app,
        display_name: if names.contains_key(app) {
            names[app]
        } else {
            Seq::empty()
        },
        blocked_since: if in_timestamp_range(since) {
            since
        } else {
            now
        },
    }
}

pub open spec fn block_cards(blocked: Seq<BlockedAppEntry>, names: Map<Seq<char>, Seq<char>>, now: int) -> Seq<
    BlockCardView,
> {
    blocked.map_values(|b: BlockedAppEntry| block_card(b, names, now))
}

fn make_block_card(b: &BlockedAppEntry, app_names: &NameTable, now: i64) -> (r: BlockCardInfo)
    ensures
        r@ == block_card(*b, app_names@, now as int),
{
    let display = match app_names.get(b.app_class.as_str()) {
        Some(d) => d.clone(),
        None => String::new(),
    };
    let since = b.blocked_since as i64;
    let blocked_since = if timestamp_in_range(since) {
        since
    } else {
        now
    };
    BlockCardInfo { app_class: b.app_class.clone(), display_name: display, blocked_since }
}

/// Block cards with `now` standing in for unrepresentable block starts.
pub fn build_block_cards_at(blocked: &Vec<BlockedAppEntry>, app_names: &NameTable, now: i64) -> (r: Vec<
    BlockCardInfo,
>)
    ensures
        block_cards_view(r@) == block_cards(blocked@, app_names@, now as int),
{
    let mut out: Vec<BlockCardInfo> = Vec::new();
    let n = blocked.len();
    let mut i: usize = 0;
    while i < n
        invariant
            n == blocked.len(),
            i <= n,
            block_cards_view(out@) == block_cards(blocked@, app_names@, now as int).take(i as int),
        decreases n - i,
    {
        let ghost before = out@;
        out.push(make_block_card(&blocked[i], app_names, now));
        proof {
            let k = i as int;
            assert(block_cards_view(before).len() == k);
            assert(block_cards_view(out@) =~= block_cards(blocked@, app_names@, now as int).take(k + 1));
        }
        i += 1;
    }
    proof {
        assert(block_cards(blocked@, app_names@, now as int).take(n as int) =~= block_cards(
            blocked@,
            app_names@,
            now as int,
        ));
    }
    out
}

/// Block cards for the blocked entries; a block start that is not a
/// representable instant is replaced by the current time, read once from
/// the system clock.  An empty list needs no clock; otherwise `None` when
/// the clock cannot be read (before the Unix epoch).
pub fn build_block_cards(blocked: &Vec<BlockedAppEntry>, app_names: &NameTable) -> (r: Option<
    Vec<BlockCardInfo>,
>)
    ensures
        blocked@.len() == 0 ==> (r matches Some(cards) && cards@.len() == 0),
        r matches Some(cards) ==> exists|t: int| #![trigger in_timestamp_range(t)] in_timestamp_range(t)
            && block_cards_view(cards@) == block_cards(blocked@, app_names@, t),
{
    if blocked.len() == 0 {
        let out: Vec<BlockCardInfo> = Vec::new();
        proof {
            assert(in_timestamp_range(0));
            assert(block_cards_view(out@) =~= block_cards(blocked@, app_names@, 0));
        }
        return Some(out);
    }
    match now_millis() {
        Some(now) => {
            let out = build_block_cards_at(blocked, app_names, now);
            assert(in_timestamp_range(now as int));
            Some(out)
        },
        None => None,
    }
}

// ---------------------------------------------------------------------------
// KPIs
// ---------------------------------------------------------------------------

pub open spec fn entry_millis() -> spec_fn(AppListEntry) -> int {
    |a: AppListEntry| a.total_millis as int
}

/// Whether [`compute_kpis`] can add up the top applications' time: every
/// running total fits in an `i64`.
pub fn kpis_computable(vm: &DashboardViewModel) -> (r: bool)
    ensures
        r == running_sums_fit_i64(vm.top_apps@, entry_millis()),
{
    let n = vm.top_apps.len();
    let mut total: i128 = 0;
    let mut i: usize = 0;
    proof {
        assert(vm.top_apps@.take(0) =~= Seq::<AppListEntry>::empty());
    }
    while i < n
        invariant
            n == vm.top_apps.len(),
            i <= n,
            total == sum_by(vm.top_apps@.take(i as int), entry_millis()),
            i64::MIN <= total <= i64::MAX,
            forall|j: int| 0 <= j <= i ==> i64::MIN <= #[trigger] sum_by(vm.top_apps@.take(j), entry_millis()) <= i64::MAX,
        decreases n - i,
    {
        proof {
            lemma_sum_step(vm.top_apps@, entry_millis(), i as int);
        }
        total = total + vm.top_apps[i].total_millis as i128;
        if total < i64::MIN as i128 || total > i64::MAX as i128 {
            return false;
        }
        i += 1;
    }
    true
}

/// Key figures of the view model: total and leading application of the top
/// list (an em dash and 0 when it is empty) and the number of block cards.
pub fn compute_kpis(vm: &DashboardViewModel) -> (r: Kpis)
    requires
        running_sums_fit_i64(vm.top_apps@, entry_millis()),
    ensures
        r.total_millis == sum_by(vm.top_apps@, entry_millis()),
        vm.top_apps@.len() == 0 ==> r.top_app@ == seq!['\u{2014}'] && r.top_app_millis == 0,
        vm.top_apps@.len() > 0 ==> r.top_app@ == vm.top_apps@[0].display_name@
            && r.top_app_millis == vm.top_apps@[0].total_millis,
        r.active_blocks == vm.block_cards@.len(),
{
    let n = vm.top_apps.len();
    let mut total: i64 = 0;
    let mut i: usize = 0;
    while i < n
        invariant
            n == vm.top_apps.len(),
            i <= n,
            running_sums_fit_i64(vm.top_apps@, entry_millis()),
            total == sum_by(vm.top_apps@.take(i as int), entry_millis()),
        decreases n - i,
    {
        proof {
            lemma_sum_step(vm.top_apps@, entry_millis(), i as int);
            assert(i64::MIN <= sum_by(vm.top_apps@.take(i as int + 1), entry_millis()) <= i64::MAX);
        }
        total = total + vm.top_apps[i].total_millis;
        i += 1;
    }
    proof {
        lemma_sum_all(vm.top_apps@, entry_millis());
        reveal_strlit("\u{2014}");
    }
    if n == 0 {
        Kpis {
            total_millis: total,
            top_app: String::from_str("\u{2014}"),
            top_app_millis: 0,
            active_blocks: vm.block_cards.len(),
        }
    } else {
        Kpis {
            total_millis: total,
            top_app: vm.top_apps[0].display_name.clone(),
            top_app_millis: vm.top_apps[0].total_millis,
            active_blocks: vm.block_cards.len(),
        }
    }
}

// ---------------------------------------------------------------------------
// View model
// ---------------------------------------------------------------------------

/// Pure-data view model of the Dashboard screen.  The raw data persists in
/// `data`; the other fields are derived from it by `recompute_derived` and
/// `recompute_blocked`.
#[derive(Debug, Clone)]
pub struct DashboardViewModel {
    /// Raw data bundle; `None` before the first successful fetch.
    pub data: Option<DashboardData>,
    pub date_range: DateRange,
    pub pie_app: Vec<Slice>,
    pub pie_category: Vec<Slice>,
    pub top_apps: Vec<AppListEntry>,
    pub block_cards: Vec<BlockCardInfo>,
    /// Day-timeline focus blocks and gaps.
    pub day_timeline: Option<DayTimeline>,
    pub top_titles: Vec<TitleListEntry>,
}

impl Default for DashboardViewModel {
    fn default() -> (r: Self)
        ensures
            r.data is None,
            r.date_range.start@ == (1970int, 1int, 1int),
            r.date_range.end@ == (1970int, 1int, 1int),
            r.pie_app@.len() == 0,
            r.pie_category@.len() == 0,
            r.top_apps@.len() == 0,
            r.block_cards@.len() == 0,
            r.day_timeline is None,
            r.top_titles@.len() == 0,
    {
        DashboardViewModel {
            data: None,
            date_range: DateRange { start: CalendarDate::unix_epoch(), end: CalendarDate::unix_epoch() },
            pie_app: Vec::new(),
            pie_category: Vec::new(),
            top_apps: Vec::new(),
            block_cards: Vec::new(),
            day_timeline: None,
            top_titles: Vec::new(),
        }
    }
}

/// What a full recompute needs of the raw data to run without overflow and
/// with a well-formed timeline: the running totals of the usage summaries
/// fit in an `i64`, and, with the day's events in timeline order, every
/// event that opens or closes a focus interval has a representable instant.
pub open spec fn derivable(d: DashboardData) -> bool {
    let ev = events_view(sort_by_key(d.day_events@, event_time_key()));
    let names = names_of_rows(d.app_categories@);
    &&& running_sums_fit_i64(d.app_summary@, app_millis())
    &&& running_sums_fit_i64(d.title_summary@, title_millis())
    &&& edges_in_range(raw_blocks(ev, names, None, 0))
}

/// `sorted` is `d` with its day events put in timeline order: stably
/// sorted by timestamp, everything else as it was.
pub open spec fn events_put_in_order(d: DashboardData, sorted: DashboardData) -> bool {
    &&& sorted == (DashboardData { day_events: sorted.day_events, ..d })
    &&& sorted.day_events@ == sort_by_key(d.day_events@, event_time_key())
}

fn app_sums_fit(summary: &Vec<AppUsageSummary>) -> (r: bool)
    ensures
        r == running_sums_fit_i64(summary@, app_millis()),
{
    let n = summary.len();
    let mut total: i128 = 0;
    let mut i: usize = 0;
    proof {
        assert(summary@.take(0) =~= Seq::<AppUsageSummary>::empty());
    }
    while i < n
        invariant
            n == summary.len(),
            i <= n,
            total == sum_by(summary@.take(i as int), app_millis()),
            i64::MIN <= total <= i64::MAX,
            forall|j: int| 0 <= j <= i ==> i64::MIN <= #[trigger] sum_by(summary@.take(j), app_millis()) <= i64::MAX,
        decreases n - i,
    {
        proof {
            lemma_sum_step(summary@, app_millis(), i as int);
        }
        total = total + summary[i].total_millis as i128;
        if total < i64::MIN as i128 || total > i64::MAX as i128 {
            return false;
        }
        i += 1;
    }
    proof {
        assert(summary@.take(n as int) =~= summary@);
    }
    true
}

fn title_sums_fit(summary: &Vec<TitleUsageSummary>) -> (r: bool)
    ensures
        r == running_sums_fit_i64(summary@, title_millis()),
{
    let n = summary.len();
    let mut total: i128 = 0;
    let mut i: usize = 0;
    proof {
        assert(summary@.take(0) =~= Seq::<TitleUsageSummary>::empty());
    }
    while i < n
        invariant
            n == summary.len(),
            i <= n,
            total == sum_by(summary@.take(i as int), title_millis()),
            i64::MIN <= total <= i64::MAX,
            forall|j: int| 0 <= j <= i ==> i64::MIN <= #[trigger] sum_by(summary@.take(j), title_millis()) <= i64::MAX,
        decreases n - i,
    {
        proof {
            lemma_sum_step(summary@, title_millis(), i as int);
        }
        total = total + summary[i].total_millis as i128;
        if total < i64::MIN as i128 || total > i64::MAX as i128 {
            return false;
        }
        i += 1;
    }
    true
}

fn event_edges_representable(events: &Vec<DayEventRow>, Ghost(names): Ghost<Map<Seq<char>, Seq<char>>>) -> (r: bool)
    ensures
        r == edges_in_range(raw_blocks(events_view(events@), names, None, 0)),
{
    let ghost ev = events_view(events@);
    let n = events.len();
    let mut pending: Option<i64> = None;
    let mut ok = true;
    let mut i: usize = 0;
    proof {
        assert(ev.take(0) =~= Seq::<crate::timeline::EventView>::empty());
    }
    while i < n
        invariant
            n == events.len(),
            ev == events_view(events@),
            i <= n,
            ({
                let r = scan_events(ev.take(i as int), names, None);
                &&& (pending is None <==> r.1 is None)
                &&& pending matches Some(t) ==> (r.1 matches Some(p) && p.0 == t as int)
                &&& ok == (edges_in_range(r.0) && (r.1 matches Some(p) ==> in_timestamp_range(p.0)))
            }),
        decreases n - i,
    {
        let ghost prev = scan_events(ev.take(i as int), names, None);
        let event = &events[i];
        let ghost cur = scan_events(ev.take(i as int + 1), names, None);
        proof {
            let t = ev.take(i as int + 1);
            assert(t.drop_last() =~= ev.take(i as int));
            assert(t.last() == event@);
        }
        let ts = event.timestamp;
        let is_focus = match event.event_type {
            EventType::Focus => true,
            _ => false,
        };
        if is_focus || event.event_type.is_close() {
            let had_pending = pending.is_some();
            let ts_ok = timestamp_in_range(ts);
            if had_pending || is_focus {
                ok = ok && ts_ok;
            }
            proof {
                if had_pending {
                    let b = cur.0.last();
                    assert(cur.0 == prev.0.push(b));
                    if edges_in_range(cur.0) {
                        assert forall|k: int| 0 <= k < prev.0.len() implies in_timestamp_range(#[trigger] prev.0[k].start)
                            && match prev.0[k].end {
                            Some(x) => in_timestamp_range(x),
                            None => true,
                        } by {
                            assert(cur.0[k] == prev.0[k]);
                            assert(in_timestamp_range(cur.0[k].start));
                        }
                        assert(cur.0[prev.0.len() as int] == b);
                        assert(in_timestamp_range(b.start));
                    }
                    if ok {
                        assert forall|k: int| 0 <= k < cur.0.len() implies in_timestamp_range(#[trigger] cur.0[k].start)
                            && match cur.0[k].end {
                            Some(x) => in_timestamp_range(x),
                            None => true,
                        } by {
                            if k < prev.0.len() {
                                assert(cur.0[k] == prev.0[k]);
                                assert(in_timestamp_range(prev.0[k].start));
                            }
                        }
                    }
                } else {
                    assert(cur.0 == prev.0);
                }
            }
            if is_focus {
                pending = Some(ts);
            } else {
                pending = None;
            }
        }
        i += 1;
    }
    proof {
        assert(ev.take(n as int) =~= ev);
        let r = scan_events(ev, names, None);
        let raw = raw_blocks(ev, names, None, 0);
        match r.1 {
            Some(p) => {
                assert(raw.drop_last() == r.0);
                if edges_in_range(raw) {
                    assert forall|k: int| 0 <= k < r.0.len() implies in_timestamp_range(#[trigger] r.0[k].start)
                        && match r.0[k].end {
                        Some(x) => in_timestamp_range(x),
                        None => true,
                    } by {
                        assert(raw[k] == r.0[k]);
                        assert(in_timestamp_range(raw[k].start));
                    }
                    assert(raw[r.0.len() as int].start == p.0);
                    assert(in_timestamp_range(raw[r.0.len() as int].start));
                }
                if ok {
                    assert forall|k: int| 0 <= k < raw.len() implies in_timestamp_range(#[trigger] raw[k].start)
                        && match raw[k].end {
                        Some(x) => in_timestamp_range(x),
                        None => true,
                    } by {
                        if k < r.0.len() {
                            assert(raw[k] == r.0[k]);
                            assert(in_timestamp_range(r.0[k].start));
                        }
                    }
                }
            },
            None => {},
        }
    }
    ok
}

impl DashboardData {
    /// Whether a full recompute can run on this data (see [`derivable`]):
    /// the summary totals fit, and, with the events in timeline order, the
    /// instants that open or close focus intervals are representable.
    pub fn is_derivable(&self) -> (r: bool)
        ensures
            r == derivable(*self),
    {
        let sums = app_sums_fit(&self.app_summary) && title_sums_fit(&self.title_summary);
        let sorted = sort_events_by_time(&self.day_events);
        let edges = event_edges_representable(&sorted, Ghost(names_of_rows(self.app_categories@)));
        sums && edges
    }
}

/// All derived fields of `vm` are empty and there is no timeline.
pub open spec fn derived_cleared(vm: DashboardViewModel) -> bool {
    &&& vm.pie_app@.len() == 0
    &&& vm.pie_category@.len() == 0
    &&& vm.top_apps@.len() == 0
    &&& vm.top_titles@.len() == 0
    &&& vm.block_cards@.len() == 0
    &&& vm.day_timeline is None
}

/// All derived fields of `vm` are those of the raw data `d` at time `now`:
/// pies, top lists and block cards as their builders define them; the date
/// range is the single UTC day holding `now`, and the timeline is that day's,
/// built without a seed.
pub open spec fn derived_from(vm: DashboardViewModel, d: DashboardData, now: int) -> bool {
    let names = names_of_rows(d.app_categories@);
    let today = vm.date_range.start;
    &&& slices_view(vm.pie_app@) == app_slices(d.app_summary@, d.app_categories@)
    &&& slices_view(vm.pie_category@) == category_slices(d.category_summary@, d.categories@)
    &&& app_list_view(vm.top_apps@) == top_apps(d.app_summary@, d.app_categories@, d.blocked@)
    &&& title_list_view(vm.top_titles@) == top_titles(d.title_summary@)
    &&& block_cards_view(vm.block_cards@) == block_cards(d.blocked@, names, now)
    &&& vm.date_range.end == today
    &&& midnight_of(today@) <= now < midnight_of(today@) + DAY_MILLIS
    &&& vm.day_timeline matches Some(tl) && {
        &&& tl.date == today
        &&& blocks_view(tl.blocks@) == day_blocks(
            events_view(d.day_events@),
            names,
            None,
            midnight_of(today@),
        )
        &&& tl.total_focus_millis == focus_total(blocks_view(tl.blocks@), now)
    }
}

proof fn lemma_unseeded_day_independent(
    ev: Seq<crate::timeline::EventView>,
    names: Map<Seq<char>, Seq<char>>,
    a: int,
    b: int,
)
    ensures
        raw_blocks(ev, names, None, a) == raw_blocks(ev, names, None, b),
        day_blocks(ev, names, None, a) == day_blocks(ev, names, None, b),
{
}

impl DashboardViewModel {
    /// Put the day's events in timeline order (stably sorted by timestamp)
    /// and recompute all derived fields from `data` as of the instant `now`
    /// (see [`derived_from`]); clear them when there is no data.
    pub fn recompute_derived_at(&mut self, now: i64)
        requires
            in_timestamp_range(now as int),
            old(self).data matches Some(d) ==> derivable(d),
        ensures
            match old(self).data {
                None => {
                    &&& final(self).data is None
                    &&& derived_cleared(*final(self))
                    &&& final(self).date_range == old(self).date_range
                },
                Some(d) => final(self).data matches Some(sorted) && events_put_in_order(d, sorted)
                    && derived_from(*final(self), sorted, now as int),
            },
    {
        let taken = self.data.take();
        match taken {
            None => {
                self.pie_app = Vec::new();
                self.pie_category = Vec::new();
                self.top_apps = Vec::new();
                self.top_titles = Vec::new();
                self.block_cards = Vec::new();
                self.day_timeline = None;
            },
            Some(mut data) => {
                let ghost d = data;
                let sorted = sort_events_by_time(&data.day_events);
                data.day_events = sorted;
                assert(events_put_in_order(d, data));
                let names = app_name_table(&data.app_categories);
                let pie_app = build_app_slices(&data.app_summary, &data.app_categories);
                let pie_category = build_category_slices(&data.category_summary, &data.categories);
                let top_apps = build_top_apps_from_summary(
                    &data.app_summary,
                    &data.app_categories,
                    &data.blocked,
                );
                let top_titles = build_top_titles_from_summary(&data.title_summary);
                let block_cards = build_block_cards_at(&data.blocked, &names, now);
                let today = calendar_date_of(now);
                proof {
                    lemma_unseeded_day_independent(
                        events_view(data.day_events@),
                        names@,
                        0,
                        midnight_of(today@),
                    );
                }
                let timeline = build_day_timeline(data.day_events.as_slice(), today, &names, now, None);
                self.pie_app = pie_app;
                self.pie_category = pie_category;
                self.top_apps = top_apps;
                self.top_titles = top_titles;
                self.block_cards = block_cards;
                self.day_timeline = Some(timeline);
                self.date_range = DateRange { start: today, end: today };
                self.data = Some(data);
            },
        }
    }

    /// Put the day's events in timeline order (stably sorted by timestamp)
    /// and recompute all derived fields from `data` as of the current time
    /// read from the system clock; clear them when there is no data.
    /// Returns whether it did so: with data, a clock that cannot be read
    /// (before the Unix epoch) leaves the view model as it was and gives
    /// `false`.
    pub fn recompute_derived(&mut self) -> (done: bool)
        requires
            old(self).data matches Some(d) ==> derivable(d),
        ensures
            match old(self).data {
                None => {
                    &&& done
                    &&& final(self).data is None
                    &&& derived_cleared(*final(self))
                    &&& final(self).date_range == old(self).date_range
                },
                Some(d) => if done {
                    final(self).data matches Some(sorted) && events_put_in_order(d, sorted) && exists|t: int|
                        in_timestamp_range(t) && #[trigger] derived_from(*final(self), sorted, t)
                } else {
                    *final(self) == *old(self)
                },
            },
    {
        if self.data.is_none() {
            self.recompute_derived_at(0);
            return true;
        }
        match now_millis() {
            Some(now) => {
                self.recompute_derived_at(now);
                true
            },
            None => false,
        }
    }

    /// Recompute only the block cards from `data` as of `now`; nothing changes
    /// when there is no data.
    pub fn recompute_blocked_at(&mut self, now: i64)
        ensures
            final(self).data == old(self).data,
            final(self).pie_app == old(self).pie_app,
            final(self).pie_category == old(self).pie_category,
            final(self).top_apps == old(self).top_apps,
            final(self).top_titles == old(self).top_titles,
            final(self).day_timeline == old(self).day_timeline,
            final(self).date_range == old(self).date_range,
            match old(self).data {
                None => final(self).block_cards == old(self).block_cards,
                Some(d) => block_cards_view(final(self).block_cards@) == block_cards(
                    d.blocked@,
                    names_of_rows(d.app_categories@),
                    now as int,
                ),
            },
    {
        let cards = match &self.data {
            None => None,
            Some(data) => {
                let names = app_name_table(&data.app_categories);
                Some(build_block_cards_at(&data.blocked, &names, now))
            },
        };
        match cards {
            None => {},
            Some(c) => {
                self.block_cards = c;
            },
        }
    }

    /// Recompute only the block cards from `data` (fast path after a
    /// blocked-apps change); an unrepresentable block start is replaced by
    /// the current time (see [`build_block_cards`]).  Returns whether the
    /// cards were rebuilt: nothing changes when there is no data, or when the
    /// clock is needed and cannot be read.
    pub fn recompute_blocked(&mut self) -> (done: bool)
        ensures
            final(self).data == old(self).data,
            final(self).pie_app == old(self).pie_app,
            final(self).pie_category == old(self).pie_category,
            final(self).top_apps == old(self).top_apps,
            final(self).top_titles == old(self).top_titles,
            final(self).day_timeline == old(self).day_timeline,
            final(self).date_range == old(self).date_range,
            done ==> old(self).data is Some,
            (old(self).data matches Some(d) && d.blocked@.len() == 0) ==> done,
            !done ==> final(self).block_cards == old(self).block_cards,
            done ==> (old(self).data matches Some(d) && exists|t: int|
                #![trigger in_timestamp_range(t)]
                in_timestamp_range(t) && block_cards_view(final(self).block_cards@) == block_cards(
                    d.blocked@,
                    names_of_rows(d.app_categories@),
                    t,
                )),
    {
        let cards = match &self.data {
            None => None,
            Some(data) => {
                let names = app_name_table(&data.app_categories);
                build_block_cards(&data.blocked, &names)
            },
        };
        match cards {
            None => false,
            Some(c) => {
                self.block_cards = c;
                true
            },
        }
    }

    /// Store a fresh full fetch, with its day events put in timeline order,
    /// and recompute every derived field as of the current time.  Returns
    /// whether it did so; when the clock cannot be read the data is stored as
    /// fetched and the derived fields stay as they were.
    pub fn apply_fetch(&mut self, data: DashboardData) -> (done: bool)
        requires
            derivable(data),
        ensures
            done ==> (final(self).data matches Some(sorted) && events_put_in_order(data, sorted) && exists|
                t: int,
            | in_timestamp_range(t) && #[trigger] derived_from(*final(self), sorted, t)),
            !done ==> *final(self) == (DashboardViewModel { data: Some(data), ..*old(self) }),
    {
        self.data = Some(data);
        self.recompute_derived()
    }

    /// Patch the blocked list after a blocked-apps change and rebuild the
    /// block cards from it, leaving every other field as it was.  Returns
    /// whether it patched: not without data (nothing changes), and not when
    /// the cards need the clock and it cannot be read (nothing changes).
    pub fn apply_blocked(&mut self, blocked: Vec<BlockedAppEntry>) -> (patched: bool)
        ensures
            final(self).pie_app == old(self).pie_app,
            final(self).pie_category == old(self).pie_category,
            final(self).top_apps == old(self).top_apps,
            final(self).top_titles == old(self).top_titles,
            final(self).day_timeline == old(self).day_timeline,
            final(self).date_range == old(self).date_range,
            patched ==> old(self).data is Some,
            old(self).data is Some && blocked@.len() == 0 ==> patched,
            !patched ==> final(self).data == old(self).data && final(self).block_cards == old(self).block_cards,
            patched ==> (old(self).data matches Some(d) && {
                &&& final(self).data == Some(DashboardData { blocked, ..d })
                &&& exists|t: int|
                    #![trigger in_timestamp_range(t)]
                    in_timestamp_range(t) && block_cards_view(final(self).block_cards@) == block_cards(
                        blocked@,
                        names_of_rows(d.app_categories@),
                        t,
                    )
            }),
    {
        let cards = match &self.data {
            None => None,
            Some(data) => {
                let names = app_name_table(&data.app_categories);
                build_block_cards(&blocked, &names)
            },
        };
        let cards = match cards {
            None => {
                return false;
            },
            Some(c) => c,
        };
        let taken = self.data.take();
        match taken {
            None => false,
            Some(d) => {
                let DashboardData {
                    blocked: _,
                    day_events,
                    category_summary,
                    categories,
                    app_categories,
                    app_summary,
                    title_summary,
                } = d;
                self.data = Some(
                    DashboardData {
                        blocked,
                        day_events,
                        category_summary,
                        categories,
                        app_categories,
                        app_summary,
                        title_summary,
                    },
                );
                self.block_cards = cards;
                true
            },
        }
    }
}

} // verus!
