//! Properties of the day timeline and of its hourly breakdown.

use crate::clock::{midnight_of, CalendarDate, DAY_MILLIS, HOUR_MILLIS};
use crate::seq_util::{insert_by_key, lemma_sort_by_key_sorted, sort_by_key, sorted_by_key};
use crate::timeline::{
    block_start_key, day_blocks, day_segment_spec, effective_end, fragment_total, gap_between,
    events_sorted, events_view, focus_total, hour_fragments, hour_piece, raw_blocks, scan_events,
    seed_pending, seed_view, with_gaps, closed_block, BlockView, DayEventRow, EventType, EventView,
};
use vstd::prelude::*;

verus! {

proof fn lemma_with_gaps_ends(s: Seq<BlockView>)
    requires
        s.len() > 0,
    ensures
        with_gaps(s).len() >= s.len(),
        with_gaps(s)[0] == s[0],
        with_gaps(s).last() == s.last(),
    decreases s.len(),
{
    if s.len() > 1 {
        lemma_with_gaps_ends(s.drop_last());
        let w = with_gaps(s.drop_last());
        let g = gap_between(s[s.len() - 2], s.last());
        assert((w + g + seq![s.last()])[0] == w[0]);
    }
}

/// Consecutive blocks of a timeline leave no uncovered time: a block that
/// has an end ends no earlier than the next block starts.
pub proof fn law_timeline_has_no_holes(s: Seq<BlockView>)
    ensures
        forall|i: int|
            0 <= i < with_gaps(s).len() - 1 ==> match (#[trigger] with_gaps(s)[i]).end {
                Some(e) => e >= with_gaps(s)[i + 1].start,
                None => true,
            },
    decreases s.len(),
{
    if s.len() > 1 {
        law_timeline_has_no_holes(s.drop_last());
        lemma_with_gaps_ends(s.drop_last());
        let w = with_gaps(s.drop_last());
        let prev = s[s.len() - 2];
        let g = gap_between(prev, s.last());
        let out = w + g + seq![s.last()];
        assert(w.last() == prev) by {
            assert(s.drop_last().last() == prev);
        }
        assert forall|i: int| 0 <= i < out.len() - 1 implies match (#[trigger] out[i]).end {
            Some(e) => e >= out[i + 1].start,
            None => true,
        } by {
            if i < w.len() - 1 {
                assert(out[i] == w[i]);
                assert(out[i + 1] == w[i + 1]);
            } else if i == w.len() - 1 {
                assert(out[i] == prev);
            } else {
                assert(g.len() == 1);
                assert(out[i] == g[0]);
            }
        }
    }
}

/// The blocks of a day timeline leave no uncovered time between them.
pub proof fn law_day_timeline_has_no_holes(
    events: Seq<EventView>,
    names: Map<Seq<char>, Seq<char>>,
    seed: Option<(int, Seq<char>)>,
    day_start: int,
)
    ensures
        forall|i: int|
            0 <= i < day_blocks(events, names, seed, day_start).len() - 1 ==> match (
            #[trigger] day_blocks(events, names, seed, day_start)[i]).end {
                Some(e) => e >= day_blocks(events, names, seed, day_start)[i + 1].start,
                None => true,
            },
{
    law_timeline_has_no_holes(sort_by_key(raw_blocks(events, names, seed, day_start), block_start_key()));
}

proof fn lemma_scan_no_gaps(events: Seq<EventView>, names: Map<Seq<char>, Seq<char>>, init: Option<(int, Seq<char>)>)
    ensures
        forall|i: int|
            0 <= i < scan_events(events, names, init).0.len() ==> !(#[trigger] scan_events(events, names, init).0[i]).is_gap,
    decreases events.len(),
{
    if events.len() > 0 {
        lemma_scan_no_gaps(events.drop_last(), names, init);
        let prev = scan_events(events.drop_last(), names, init).0;
        let cur = scan_events(events, names, init).0;
        assert forall|i: int| 0 <= i < cur.len() implies !(#[trigger] cur[i]).is_gap by {
            if i < prev.len() {
                assert(cur[i] == prev[i]);
            }
        }
    }
}

/// Every scanned block (before gaps are filled) is a focus interval, not a gap.
proof fn lemma_raw_blocks_no_gaps(
    events: Seq<EventView>,
    names: Map<Seq<char>, Seq<char>>,
    seed: Option<(int, Seq<char>)>,
    day_start: int,
)
    ensures
        forall|i: int|
            0 <= i < raw_blocks(events, names, seed, day_start).len() ==> !(#[trigger] raw_blocks(
                events,
                names,
                seed,
                day_start,
            )[i]).is_gap,
{
    let init = seed_pending(seed, day_start);
    lemma_scan_no_gaps(events, names, init);
    let r = scan_events(events, names, init);
    let raw = raw_blocks(events, names, seed, day_start);
    assert forall|i: int| 0 <= i < raw.len() implies !(#[trigger] raw[i]).is_gap by {
        if i < r.0.len() {
            assert(raw[i] == r.0[i]);
        }
    }
}

/// A gap block at index `i` of `s` lies exactly between its neighbours: it
/// starts where the previous block ends, ends where the next block starts
/// (which is later), and names no application.
pub open spec fn gap_fits(s: Seq<BlockView>, i: int) -> bool {
    s[i].is_gap ==> {
        &&& 0 < i < s.len() - 1
        &&& s[i - 1].end == Some(s[i].start)
        &&& s[i].end == Some(s[i + 1].start)
        &&& s[i].start < s[i + 1].start
        &&& s[i].app_class.len() == 0
        &&& s[i].display_name.len() == 0
    }
}

proof fn lemma_gap_fits_step(w: Seq<BlockView>, prev: BlockView, last: BlockView)
    requires
        w.len() > 0,
        w.last() == prev,
        !prev.is_gap,
        !last.is_gap,
        forall|i: int| 0 <= i < w.len() ==> #[trigger] gap_fits(w, i),
    ensures
        forall|i: int|
            0 <= i < (w + gap_between(prev, last) + seq![last]).len() ==> #[trigger] gap_fits(
                w + gap_between(prev, last) + seq![last],
                i,
            ),
{
    let g = gap_between(prev, last);
    let out = w + g + seq![last];
    assert forall|i: int| 0 <= i < out.len() implies #[trigger] gap_fits(out, i) by {
        if i < w.len() {
            assert(gap_fits(w, i));
            assert(out[i] == w[i]);
            if w[i].is_gap {
                assert(out[i - 1] == w[i - 1]);
                assert(out[i + 1] == w[i + 1]);
            }
        } else if i == out.len() - 1 {
            assert(out[i] == last);
        } else {
            assert(g.len() == 1);
            assert(out[i] == g[0]);
            assert(out[i - 1] == prev);
            assert(out[i + 1] == last);
        }
    }
}

proof fn lemma_gaps_between_neighbours(s: Seq<BlockView>)
    requires
        forall|i: int| 0 <= i < s.len() ==> !(#[trigger] s[i]).is_gap,
    ensures
        forall|i: int| 0 <= i < with_gaps(s).len() ==> #[trigger] gap_fits(with_gaps(s), i),
    decreases s.len(),
{
    if s.len() == 1 {
        assert forall|i: int| 0 <= i < with_gaps(s).len() implies #[trigger] gap_fits(with_gaps(s), i) by {
            assert(with_gaps(s)[i] == s[i]);
        }
    } else if s.len() > 1 {
        let d = s.drop_last();
        assert forall|i: int| 0 <= i < d.len() implies !(#[trigger] d[i]).is_gap by {
            assert(d[i] == s[i]);
        }
        lemma_gaps_between_neighbours(d);
        lemma_with_gaps_ends(d);
        let prev = s[s.len() - 2];
        assert(d.last() == prev);
        assert(!s[s.len() - 1].is_gap);
        lemma_gap_fits_step(with_gaps(d), prev, s.last());
    }
}

/// Every gap block of a day timeline lies exactly between its neighbours:
/// it starts where the previous block ends and ends where the next block
/// starts (which is later), and it names no application.
pub proof fn law_gaps_fill_exactly_between_blocks(
    events: Seq<EventView>,
    names: Map<Seq<char>, Seq<char>>,
    seed: Option<(int, Seq<char>)>,
    day_start: int,
)
    ensures
        forall|i: int|
            0 <= i < day_blocks(events, names, seed, day_start).len() ==> #[trigger] gap_fits(
                day_blocks(events, names, seed, day_start),
                i,
            ),
{
    let raw = raw_blocks(events, names, seed, day_start);
    let sorted = sort_by_key(raw, block_start_key());
    lemma_raw_blocks_no_gaps(events, names, seed, day_start);
    lemma_sort_by_key_sorted(raw, block_start_key());
    assert forall|i: int| 0 <= i < sorted.len() implies !(#[trigger] sorted[i]).is_gap by {
        assert(sorted.contains(sorted[i]));
        assert(raw.contains(sorted[i]));
    }
    lemma_gaps_between_neighbours(sorted);
}

/// A block that has an end does not end before it starts.
pub open spec fn ends_after_start(b: BlockView) -> bool {
    b.end matches Some(e) ==> b.start <= e
}

proof fn lemma_with_gaps_in_start_order(s: Seq<BlockView>)
    requires
        sorted_by_key(s, block_start_key()),
        forall|i: int| 0 <= i < s.len() ==> ends_after_start(#[trigger] s[i]),
    ensures
        sorted_by_key(with_gaps(s), block_start_key()),
    decreases s.len(),
{
    if s.len() > 1 {
        let d = s.drop_last();
        assert forall|i: int| 0 <= i < d.len() implies ends_after_start(#[trigger] d[i]) by {
            assert(d[i] == s[i]);
        }
        assert(sorted_by_key(d, block_start_key())) by {
            assert forall|i: int, j: int| 0 <= i <= j < d.len() implies (block_start_key())(d[i]) <= (
            block_start_key())(d[j]) by {
                assert(d[i] == s[i] && d[j] == s[j]);
            }
        }
        lemma_with_gaps_in_start_order(d);
        lemma_with_gaps_ends(d);
        let w = with_gaps(d);
        let prev = s[s.len() - 2];
        let last = s.last();
        let g = gap_between(prev, last);
        let out = w + g + seq![last];
        assert(w.last() == prev) by {
            assert(d.last() == prev);
        }
        assert(ends_after_start(s[s.len() - 2]));
        assert(prev.start <= last.start) by {
            assert(s[s.len() - 1] == last);
        }
        assert forall|i: int| 0 <= i < w.len() implies (#[trigger] w[i]).start <= prev.start by {
            assert(w[w.len() - 1] == prev);
        }
        assert forall|i: int, j: int| 0 <= i <= j < out.len() implies (block_start_key())(out[i]) <= (
        block_start_key())(out[j]) by {
            if j < w.len() {
                assert(out[i] == w[i] && out[j] == w[j]);
            } else if i < w.len() {
                assert(out[i] == w[i]);
                assert(w[i].start <= prev.start);
                if j == out.len() - 1 {
                    assert(out[j] == last);
                } else {
                    assert(out[j] == g[0]);
                }
            } else if i < j {
                assert(g.len() == 1);
                assert(out[i] == g[0]);
                assert(out[j] == last);
            }
        }
    }
}

/// The blocks of a day timeline come in order of their start, as long as
/// no interval the events delimit ends before it starts (which only an
/// interval carried over from before the day, closed by an event that is
/// also before the day, can do).
pub proof fn law_day_timeline_in_start_order(
    events: Seq<EventView>,
    names: Map<Seq<char>, Seq<char>>,
    seed: Option<(int, Seq<char>)>,
    day_start: int,
)
    requires
        forall|i: int|
            0 <= i < raw_blocks(events, names, seed, day_start).len() ==> ends_after_start(
                #[trigger] raw_blocks(events, names, seed, day_start)[i],
            ),
    ensures
        sorted_by_key(day_blocks(events, names, seed, day_start), block_start_key()),
{
    let raw = raw_blocks(events, names, seed, day_start);
    let sorted = sort_by_key(raw, block_start_key());
    lemma_sort_by_key_sorted(raw, block_start_key());
    assert forall|i: int| 0 <= i < sorted.len() implies ends_after_start(#[trigger] sorted[i]) by {
        assert(sorted.contains(sorted[i]));
        assert(raw.contains(sorted[i]));
        let k = choose|k: int| 0 <= k < raw.len() && raw[k] == sorted[i];
        assert(ends_after_start(raw[k]));
    }
    lemma_with_gaps_in_start_order(sorted);
}

/// A seed that is not strictly before the day's midnight is ignored: the
/// timeline is the one built without a seed.
pub proof fn law_late_seed_is_ignored(
    events: Seq<EventView>,
    names: Map<Seq<char>, Seq<char>>,
    ts: int,
    app: Seq<char>,
    day_start: int,
)
    requires
        ts >= day_start,
    ensures
        raw_blocks(events, names, Some((ts, app)), day_start) == raw_blocks(events, names, None, day_start),
        day_blocks(events, names, Some((ts, app)), day_start) == day_blocks(events, names, None, day_start),
{
}

/// Building a day's timeline with a seed that is not strictly before the
/// day's midnight gives the blocks and the focused total of the build
/// without a seed (in the terms of the contract of `build_day_timeline`).
pub proof fn law_late_seed_is_ignored_in_builds(
    events: Seq<DayEventRow>,
    names: Map<Seq<char>, Seq<char>>,
    date: CalendarDate,
    ts: i64,
    app: String,
    now: int,
)
    requires
        ts >= midnight_of(date@),
    ensures
        day_blocks(events_view(events), names, seed_view(Some((ts, app))), midnight_of(date@))
            == day_blocks(events_view(events), names, seed_view(None), midnight_of(date@)),
        focus_total(
            day_blocks(events_view(events), names, seed_view(Some((ts, app))), midnight_of(date@)),
            now,
        ) == focus_total(day_blocks(events_view(events), names, seed_view(None), midnight_of(date@)), now),
{
    law_late_seed_is_ignored(events_view(events), names, ts as int, app@, midnight_of(date@));
}

/// Block `i` has an end, and it is no later than the start of block `i + 1`.
pub open spec fn ends_by_next(s: Seq<BlockView>, i: int) -> bool {
    s[i].end matches Some(e) && e <= s[i + 1].start
}

/// Block `i` ends exactly where block `i + 1` starts.
pub open spec fn meets_next(s: Seq<BlockView>, i: int) -> bool {
    s[i].end == Some(s[i + 1].start)
}

/// Each block but the last ends no later than the next one starts.
pub open spec fn chained(s: Seq<BlockView>) -> bool {
    forall|i: int| 0 <= i < s.len() - 1 ==> #[trigger] ends_by_next(s, i)
}

proof fn lemma_scan_chained(events: Seq<EventView>, names: Map<Seq<char>, Seq<char>>, init: Option<(int, Seq<char>)>)
    requires
        events_sorted(events),
    ensures
        ({
            let r = scan_events(events, names, init);
            &&& chained(r.0)
            &&& forall|i: int| 0 <= i < r.0.len() ==> (#[trigger] r.0[i]).end is Some
            &&& r.0.len() > 0 ==> (events.len() > 0 && (r.0.last().end matches Some(e) && e
                <= events.last().timestamp))
            &&& (r.0.len() > 0 && r.1 is Some) ==> (r.0.last().end matches Some(e) && r.1 matches Some(
                p,
            ) && e <= p.0)
        }),
    decreases events.len(),
{
    if events.len() > 0 {
        let d = events.drop_last();
        let e = events.last();
        assert(events_sorted(d)) by {
            assert forall|i: int, j: int| 0 <= i <= j < d.len() implies d[i].timestamp
                <= d[j].timestamp by {
                assert(d[i] == events[i] && d[j] == events[j]);
            }
        }
        lemma_scan_chained(d, names, init);
        let prev = scan_events(d, names, init);
        let cur = scan_events(events, names, init);
        if d.len() > 0 {
            assert(d.last() == events[events.len() - 2]);
            assert(d.last().timestamp <= e.timestamp);
        }
        if prev.0.len() > 0 {
            assert(prev.0.last() == prev.0[prev.0.len() - 1]);
        }
        if (e.event_type is Focus || e.event_type.closes_interval()) && prev.1 is Some {
            let b = cur.0.last();
            assert(cur.0 == prev.0.push(b));
            assert(cur.0[cur.0.len() - 1] == b);
            assert forall|i: int| 0 <= i < cur.0.len() - 1 implies #[trigger] ends_by_next(cur.0, i) by {
                assert(cur.0[i] == prev.0[i]);
                if i < prev.0.len() - 1 {
                    assert(cur.0[i + 1] == prev.0[i + 1]);
                    assert(ends_by_next(prev.0, i));
                }
            }
            assert forall|i: int| 0 <= i < cur.0.len() implies (#[trigger] cur.0[i]).end is Some by {
                if i < prev.0.len() {
                    assert(cur.0[i] == prev.0[i]);
                }
            }
        } else {
            assert(cur.0 == prev.0);
        }
    }
}

proof fn lemma_sort_sorted_is_identity(s: Seq<BlockView>)
    requires
        sorted_by_key(s, block_start_key()),
    ensures
        sort_by_key(s, block_start_key()) == s,
    decreases s.len(),
{
    if s.len() > 0 {
        let d = s.drop_last();
        assert(sorted_by_key(d, block_start_key())) by {
            assert forall|i: int, j: int| 0 <= i <= j < d.len() implies (block_start_key())(d[i]) <= (
            block_start_key())(d[j]) by {
                assert(d[i] == s[i] && d[j] == s[j]);
            }
        }
        lemma_sort_sorted_is_identity(d);
        if d.len() > 0 {
            assert(d.last() == s[s.len() - 2]);
            assert((block_start_key())(d.last()) <= (block_start_key())(s.last()));
        }
        assert(insert_by_key(d, s.last(), block_start_key()) == d.push(s.last()));
        assert(d.push(s.last()) =~= s);
    }
}

proof fn lemma_with_gaps_meet(s: Seq<BlockView>)
    requires
        chained(s),
    ensures
        forall|i: int| 0 <= i < with_gaps(s).len() - 1 ==> #[trigger] meets_next(with_gaps(s), i),
    decreases s.len(),
{
    if s.len() > 1 {
        let d = s.drop_last();
        assert(chained(d)) by {
            assert forall|i: int| 0 <= i < d.len() - 1 implies #[trigger] ends_by_next(d, i) by {
                assert(d[i] == s[i] && d[i + 1] == s[i + 1]);
                assert(ends_by_next(s, i));
            }
        }
        lemma_with_gaps_meet(d);
        lemma_with_gaps_ends(d);
        let w = with_gaps(d);
        let prev = s[s.len() - 2];
        let last = s.last();
        let g = gap_between(prev, last);
        let out = w + g + seq![last];
        assert(w.last() == prev) by {
            assert(d.last() == prev);
        }
        assert(prev.end matches Some(e) && e <= last.start) by {
            assert(s[s.len() - 1] == last);
            assert(ends_by_next(s, s.len() - 2));
        }
        assert forall|i: int| 0 <= i < out.len() - 1 implies #[trigger] meets_next(out, i) by {
            if i < w.len() - 1 {
                assert(out[i] == w[i]);
                assert(out[i + 1] == w[i + 1]);
                assert(meets_next(w, i));
            } else if i == w.len() - 1 {
                assert(out[i] == prev);
                if g.len() == 1 {
                    assert(out[i + 1] == g[0]);
                } else {
                    assert(out[i + 1] == last);
                }
            } else {
                assert(g.len() == 1);
                assert(out[i] == g[0]);
                assert(out[i + 1] == last);
            }
        }
    }
}

/// When the events come in timestamp order and no interval they delimit
/// ends before it starts, the blocks of a day timeline meet exactly: every
/// block but the last ends where the next one starts.
pub proof fn law_day_timeline_blocks_meet(
    events: Seq<EventView>,
    names: Map<Seq<char>, Seq<char>>,
    seed: Option<(int, Seq<char>)>,
    day_start: int,
)
    requires
        events_sorted(events),
        forall|i: int|
            0 <= i < raw_blocks(events, names, seed, day_start).len() ==> ends_after_start(
                #[trigger] raw_blocks(events, names, seed, day_start)[i],
            ),
    ensures
        forall|i: int|
            0 <= i < day_blocks(events, names, seed, day_start).len() - 1 ==> #[trigger] meets_next(
                day_blocks(events, names, seed, day_start),
                i,
            ),
{
    let init = seed_pending(seed, day_start);
    let r = scan_events(events, names, init);
    let raw = raw_blocks(events, names, seed, day_start);
    lemma_scan_chained(events, names, init);
    if r.0.len() > 0 {
        assert(r.0.last() == r.0[r.0.len() - 1]);
    }
    assert(chained(raw)) by {
        assert forall|i: int| 0 <= i < raw.len() - 1 implies #[trigger] ends_by_next(raw, i) by {
            assert(raw[i] == r.0[i]);
            if i < r.0.len() - 1 {
                assert(raw[i + 1] == r.0[i + 1]);
                assert(ends_by_next(r.0, i));
            } else {
                match r.1 {
                    Some(p) => {
                        assert(raw[i + 1].start == p.0);
                    },
                    None => {},
                }
            }
        }
    }
    assert(sorted_by_key(raw, block_start_key())) by {
        assert forall|i: int, j: int| 0 <= i <= j < raw.len() implies (block_start_key())(raw[i]) <= (
        block_start_key())(raw[j]) by {
            lemma_chained_starts(raw, i, j);
        }
    }
    lemma_sort_sorted_is_identity(raw);
    lemma_with_gaps_meet(raw);
}

proof fn lemma_chained_starts(s: Seq<BlockView>, i: int, j: int)
    requires
        chained(s),
        forall|k: int| 0 <= k < s.len() ==> ends_after_start(#[trigger] s[k]),
        0 <= i <= j < s.len(),
    ensures
        s[i].start <= s[j].start,
    decreases j - i,
{
    if i < j {
        lemma_chained_starts(s, i + 1, j);
        assert(ends_after_start(s[i]));
        assert(ends_by_next(s, i));
    }
}

/// Exactly the event kinds other than focus and resume end the pending
/// focus interval: unfocus, idle, block, lock, suspend and shutdown.
pub proof fn law_closing_event_kinds(e: EventType)
    ensures
        e.closes_interval() <==> (e == EventType::Unfocus || e == EventType::Idle || e == EventType::Block
            || e == EventType::Lock || e == EventType::Suspend || e == EventType::Shutdown),
{
}

/// A focus event followed by an event of a closing kind gives one closed
/// interval, from the focus to the closing event, for the focused
/// application and ended by that kind, with nothing left pending.
pub proof fn law_focus_then_close(
    focus: EventView,
    close: EventView,
    names: Map<Seq<char>, Seq<char>>,
)
    requires
        focus.event_type == EventType::Focus,
        close.event_type == EventType::Unfocus || close.event_type == EventType::Idle || close.event_type
            == EventType::Block || close.event_type == EventType::Lock || close.event_type == EventType::Suspend
            || close.event_type == EventType::Shutdown,
    ensures
        scan_events(seq![focus, close], names, None).1 is None,
        scan_events(seq![focus, close], names, None).0 == seq![
            BlockView {
                app_class: focus.app_class,
                display_name: if names.contains_key(focus.app_class) {
                    names[focus.app_class]
                } else {
                    focus.app_class
                },
                start: focus.timestamp,
                end: Some(close.timestamp),
                event_type: close.event_type,
                is_gap: false,
            },
        ],
{
    let evs = seq![focus, close];
    assert(evs.drop_last() =~= seq![focus]);
    assert(seq![focus].drop_last() =~= Seq::<EventView>::empty());
    assert(evs.last() == close);
    assert(seq![focus].last() == focus);
    assert(scan_events(Seq::<EventView>::empty(), names, None) == (Seq::<BlockView>::empty(), None::<(int, Seq<char>)>));
    assert(scan_events(seq![focus], names, None) == (Seq::<BlockView>::empty(), Some((focus.timestamp, focus.app_class))));
    assert(close.event_type.closes_interval());
    assert(!(close.event_type is Focus));
    assert(Seq::<BlockView>::empty().push(closed_block(focus.timestamp, close.timestamp, focus.app_class, names, close.event_type))
        =~= seq![closed_block(focus.timestamp, close.timestamp, focus.app_class, names, close.event_type)]);
}

/// The fragment of a block still open (no end) in hour `h` of its day covers
/// the part of that hour from the later of the hour's start and the block's
/// start to the earlier of the hour's end and `now` (at least one
/// millisecond after the block's start); there is none when that part is
/// empty.  So an open block runs until `now`, with no other bound.
pub proof fn law_open_block_runs_until_now(b: BlockView, h: int, day_start: int, now: int)
    requires
        b.end is None,
        0 <= h < 24,
    ensures
        ({
            let hour_start = day_start + h * HOUR_MILLIS;
            let open_end = if now >= b.start + 1 {
                now
            } else {
                b.start + 1
            };
            let lo = if hour_start >= b.start {
                hour_start
            } else {
                b.start
            };
            let hi = if hour_start + HOUR_MILLIS <= open_end {
                hour_start + HOUR_MILLIS
            } else {
                open_end
            };
            &&& (hour_piece(b, hour_start, day_start, now) is Some <==> lo < hi)
            &&& hour_piece(b, hour_start, day_start, now) matches Some(f) ==> {
                &&& f.millis == hi - lo
                &&& f.start_offset == lo - hour_start
                &&& f.app_class == b.app_class
                &&& f.is_gap == b.is_gap
            }
        }),
{
    assert(24 * HOUR_MILLIS == DAY_MILLIS);
    assert(h * HOUR_MILLIS + HOUR_MILLIS <= DAY_MILLIS) by (nonlinear_arith)
        requires
            0 <= h < 24,
            HOUR_MILLIS == 3_600_000,
            DAY_MILLIS == 86_400_000,
    ;
    assert(h * HOUR_MILLIS >= 0) by (nonlinear_arith)
        requires
            0 <= h,
            HOUR_MILLIS == 3_600_000,
    ;
}

/// Every fragment of an hour lies within that hour and is not empty.
pub proof fn law_fragments_within_hour(blocks: Seq<BlockView>, h: int, day_start: int, now: int)
    ensures
        forall|k: int|
            0 <= k < hour_fragments(blocks, h, day_start, now).len() ==> {
                let f = #[trigger] hour_fragments(blocks, h, day_start, now)[k];
                &&& 0 <= f.start_offset
                &&& 0 < f.millis
                &&& f.start_offset + f.millis <= HOUR_MILLIS
            },
    decreases blocks.len(),
{
    if blocks.len() > 0 {
        law_fragments_within_hour(blocks.drop_last(), h, day_start, now);
        let prev = hour_fragments(blocks.drop_last(), h, day_start, now);
        let all = hour_fragments(blocks, h, day_start, now);
        assert forall|k: int| 0 <= k < all.len() implies {
            let f = #[trigger] all[k];
            &&& 0 <= f.start_offset
            &&& 0 < f.millis
            &&& f.start_offset + f.millis <= HOUR_MILLIS
        } by {
            if k < prev.len() {
                assert(all[k] == prev[k]);
            }
        }
    }
}

/// Millis of a block's fragment in hour `h` (0 when it has none).
pub open spec fn piece_millis(b: BlockView, h: int, day_start: int, now: int) -> int {
    match hour_piece(b, day_start + h * HOUR_MILLIS, day_start, now) {
        Some(f) => f.millis,
        None => 0,
    }
}

/// Millis of a block within the day opening at `day_start`.
pub open spec fn in_day_millis(b: BlockView, day_start: int, now: int) -> int {
    match day_segment_spec(b.start, effective_end(b, now), day_start) {
        Some(seg) => seg.1 - seg.0,
        None => 0,
    }
}

/// Sum of a block's fragments over the hours before `k`.
pub open spec fn piece_sum(b: BlockView, k: int, day_start: int, now: int) -> int
    decreases k,
{
    if k <= 0 {
        0
    } else {
        piece_sum(b, k - 1, day_start, now) + piece_millis(b, k - 1, day_start, now)
    }
}

/// Sum of the bucket totals over the hours before `k`.
pub open spec fn hours_total(blocks: Seq<BlockView>, k: int, day_start: int, now: int) -> int
    decreases k,
{
    if k <= 0 {
        0
    } else {
        hours_total(blocks, k - 1, day_start, now) + fragment_total(
            hour_fragments(blocks, k - 1, day_start, now),
        )
    }
}

/// Sum of the blocks' in-day millis.
pub open spec fn in_day_total(blocks: Seq<BlockView>, day_start: int, now: int) -> int
    decreases blocks.len(),
{
    if blocks.len() == 0 {
        0
    } else {
        in_day_total(blocks.drop_last(), day_start, now) + in_day_millis(blocks.last(), day_start, now)
    }
}

proof fn lemma_piece_sum(b: BlockView, k: int, day_start: int, now: int)
    requires
        0 <= k <= 24,
    ensures
        piece_sum(b, k, day_start, now) == match day_segment_spec(b.start, effective_end(b, now), day_start) {
            Some(seg) => {
                let upto = day_start + k * HOUR_MILLIS;
                let hi = if seg.1 <= upto {
                    seg.1
                } else {
                    upto
                };
                if hi - seg.0 > 0 {
                    hi - seg.0
                } else {
                    0
                }
            },
            None => 0,
        },
    decreases k,
{
    if k > 0 {
        lemma_piece_sum(b, k - 1, day_start, now);
    }
}

proof fn lemma_hours_total_push(blocks: Seq<BlockView>, b: BlockView, k: int, day_start: int, now: int)
    requires
        0 <= k,
    ensures
        hours_total(blocks.push(b), k, day_start, now) == hours_total(blocks, k, day_start, now)
            + piece_sum(b, k, day_start, now),
    decreases k,
{
    if k > 0 {
        lemma_hours_total_push(blocks, b, k - 1, day_start, now);
        let h = k - 1;
        assert(blocks.push(b).drop_last() =~= blocks);
        let prev = hour_fragments(blocks, h, day_start, now);
        match hour_piece(b, day_start + h * HOUR_MILLIS, day_start, now) {
            Some(f) => {
                assert(prev.push(f).drop_last() =~= prev);
            },
            None => {},
        }
    }
}

/// The hourly buckets split the day's time without loss or double
/// counting: over the 24 hours, the bucket totals add up to the time the
/// blocks (focus and gaps) spend within the day.  A block spanning midnight
/// contributes only its share within the day.
pub proof fn law_hours_partition_day(blocks: Seq<BlockView>, day_start: int, now: int)
    ensures
        hours_total(blocks, 24, day_start, now) == in_day_total(blocks, day_start, now),
    decreases blocks.len(),
{
    if blocks.len() == 0 {
        lemma_hours_total_empty(blocks, 24, day_start, now);
    } else {
        let d = blocks.drop_last();
        law_hours_partition_day(d, day_start, now);
        assert(d.push(blocks.last()) =~= blocks);
        lemma_hours_total_push(d, blocks.last(), 24, day_start, now);
        lemma_piece_sum(blocks.last(), 24, day_start, now);
        assert(24 * HOUR_MILLIS == DAY_MILLIS);
    }
}

proof fn lemma_hours_total_empty(blocks: Seq<BlockView>, k: int, day_start: int, now: int)
    requires
        blocks.len() == 0,
    ensures
        hours_total(blocks, k, day_start, now) == 0,
    decreases k,
{
    if k > 0 {
        lemma_hours_total_empty(blocks, k - 1, day_start, now);
    }
}

} // verus!
