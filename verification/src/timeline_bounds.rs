//! Bounds on the focused time of a day timeline: because the events come in
//! timestamp order, the closed focus intervals do not overlap, so the total
//! focused time stays within the span of representable instants.

use crate::clock::{in_timestamp_range, MAX_TIMESTAMP_MILLIS, MIN_TIMESTAMP_MILLIS};
use crate::seq_util::{insert_by_key, sort_by_key};
use crate::timeline::{
    block_focus_millis, block_start_key, day_blocks, edges_in_range, events_sorted, focus_total,
    gap_between, raw_blocks, scan_events, seed_pending, with_gaps, BlockView, EventView,
};
use vstd::prelude::*;

verus! {

proof fn lemma_focus_total_concat(a: Seq<BlockView>, b: Seq<BlockView>, now: int)
    ensures
        focus_total(a + b, now) == focus_total(a, now) + focus_total(b, now),
    decreases b.len(),
{
    if b.len() == 0 {
        assert(a + b =~= a);
    } else {
        lemma_focus_total_concat(a, b.drop_last(), now);
        assert((a + b).drop_last() =~= a + b.drop_last());
        assert((a + b).last() == b.last());
    }
}

proof fn lemma_focus_total_single(x: BlockView, now: int)
    ensures
        focus_total(seq![x], now) == block_focus_millis(x, now),
{
    assert(seq![x].drop_last() =~= Seq::<BlockView>::empty());
    assert(seq![x].last() == x);
    assert(focus_total(Seq::<BlockView>::empty(), now) == 0);
}

proof fn lemma_focus_total_with_gaps(s: Seq<BlockView>, now: int)
    ensures
        focus_total(with_gaps(s), now) == focus_total(s, now),
    decreases s.len(),
{
    if s.len() > 1 {
        let d = s.drop_last();
        lemma_focus_total_with_gaps(d, now);
        let g = gap_between(s[s.len() - 2], s.last());
        lemma_focus_total_concat(with_gaps(d) + g, seq![s.last()], now);
        lemma_focus_total_concat(with_gaps(d), g, now);
        lemma_focus_total_single(s.last(), now);
        if g.len() == 1 {
            lemma_focus_total_single(g[0], now);
            assert(g =~= seq![g[0]]);
        } else {
            assert(g =~= Seq::<BlockView>::empty());
        }
    }
}

proof fn lemma_focus_total_insert(s: Seq<BlockView>, x: BlockView, key: spec_fn(BlockView) -> int, now: int)
    ensures
        focus_total(insert_by_key(s, x, key), now) == focus_total(s, now) + block_focus_millis(x, now),
    decreases s.len(),
{
    if s.len() == 0 {
        lemma_focus_total_single(x, now);
    } else if key(s.last()) <= key(x) {
        assert(s.push(x).drop_last() =~= s);
    } else {
        let d = s.drop_last();
        lemma_focus_total_insert(d, x, key, now);
        let r = insert_by_key(d, x, key);
        assert(r.push(s.last()).drop_last() =~= r);
    }
}

proof fn lemma_focus_total_sort(s: Seq<BlockView>, key: spec_fn(BlockView) -> int, now: int)
    ensures
        focus_total(sort_by_key(s, key), now) == focus_total(s, now),
    decreases s.len(),
{
    if s.len() > 0 {
        lemma_focus_total_sort(s.drop_last(), key, now);
        lemma_focus_total_insert(sort_by_key(s.drop_last(), key), s.last(), key, now);
    }
}

/// The instant a scan's running bound refers to: the start of the pending
/// interval if there is one, else the end of the last closed block, else the
/// earliest representable instant.
pub open spec fn scan_mark(blocks: Seq<BlockView>, pending: Option<(int, Seq<char>)>) -> int {
    match pending {
        Some(p) => p.0,
        None => if blocks.len() > 0 {
            match blocks.last().end {
                Some(e) => e,
                None => MIN_TIMESTAMP_MILLIS as int,
            }
        } else {
            MIN_TIMESTAMP_MILLIS as int
        },
    }
}

proof fn lemma_scan_focus_bound(
    events: Seq<EventView>,
    names: Map<Seq<char>, Seq<char>>,
    init: Option<(int, Seq<char>)>,
    now: int,
)
    requires
        events_sorted(events),
        edges_in_range(scan_events(events, names, init).0),
        scan_events(events, names, init).1 matches Some(p) ==> in_timestamp_range(p.0),
        init matches Some(p) ==> in_timestamp_range(p.0),
    ensures
        ({
            let r = scan_events(events, names, init);
            &&& focus_total(r.0, now) <= scan_mark(r.0, r.1) - MIN_TIMESTAMP_MILLIS
            &&& r.1 matches Some(p) ==> (r.0.len() == 0 && r.1 == init) || (events.len() > 0
                && p.0 <= events.last().timestamp)
            &&& r.0.len() > 0 ==> (events.len() > 0 && (r.0.last().end matches Some(e) && e
                <= events.last().timestamp))
        }),
    decreases events.len(),
{
    if events.len() > 0 {
        let d = events.drop_last();
        let e = events.last();
        let prev = scan_events(d, names, init);
        let cur = scan_events(events, names, init);
        assert(events_sorted(d)) by {
            assert forall|i: int, j: int| 0 <= i <= j < d.len() implies d[i].timestamp
                <= d[j].timestamp by {
                assert(d[i] == events[i] && d[j] == events[j]);
            }
        }
        if d.len() > 0 {
            assert(d.last() == events[events.len() - 2]);
            assert(d.last().timestamp <= e.timestamp);
        }
        // What the full scan states of its blocks holds of the prefix's.
        assert(edges_in_range(prev.0)) by {
            assert forall|i: int| 0 <= i < prev.0.len() implies in_timestamp_range(
                #[trigger] prev.0[i].start,
            ) && match prev.0[i].end {
                Some(x) => in_timestamp_range(x),
                None => true,
            } by {
                if prev.1 is Some && (e.event_type is Focus || e.event_type.closes_interval()) {
                    assert(cur.0[i] == prev.0[i]);
                } else {
                    assert(cur.0 == prev.0);
                }
                assert(cur.0[i] == prev.0[i]);
                assert(in_timestamp_range(cur.0[i].start));
            }
        }
        if prev.1 is Some && !(e.event_type is Focus) && !e.event_type.closes_interval() {
            assert(cur.1 == prev.1);
        }
        if prev.1 is Some && (e.event_type is Focus || e.event_type.closes_interval()) {
            assert(cur.0.last() == cur.0[cur.0.len() - 1]);
            assert(in_timestamp_range(cur.0[cur.0.len() - 1].start));
        }
        lemma_scan_focus_bound(d, names, init, now);
        if e.event_type is Focus || e.event_type.closes_interval() {
            match prev.1 {
                Some(p) => {
                    let b = cur.0.last();
                    assert(cur.0.drop_last() =~= prev.0);
                    assert(cur.0[cur.0.len() - 1] == b);
                    assert(in_timestamp_range(e.timestamp));
                },
                None => {
                    if e.event_type is Focus {
                        assert(in_timestamp_range(e.timestamp));
                    }
                    if prev.0.len() > 0 {
                        assert(prev.0.last() == prev.0[prev.0.len() - 1]);
                    }
                },
            }
        }
    }
}

/// The focused time of a day's timeline fits in an `i64`: it is at most the
/// span of representable instants (plus the open interval up to `now`).
pub proof fn lemma_day_focus_total_fits(
    events: Seq<EventView>,
    names: Map<Seq<char>, Seq<char>>,
    seed: Option<(int, Seq<char>)>,
    day_start: int,
    now: int,
)
    requires
        events_sorted(events),
        edges_in_range(raw_blocks(events, names, seed, day_start)),
        in_timestamp_range(day_start),
        in_timestamp_range(now),
    ensures
        0 <= focus_total(day_blocks(events, names, seed, day_start), now) <= 2 * (
        MAX_TIMESTAMP_MILLIS - MIN_TIMESTAMP_MILLIS),
{
    let init = seed_pending(seed, day_start);
    let r = scan_events(events, names, init);
    let raw = raw_blocks(events, names, seed, day_start);
    assert(edges_in_range(r.0)) by {
        assert forall|i: int| 0 <= i < r.0.len() implies in_timestamp_range(#[trigger] r.0[i].start)
            && match r.0[i].end {
            Some(x) => in_timestamp_range(x),
            None => true,
        } by {
            assert(raw[i] == r.0[i]);
        }
    }
    if let Some(p) = r.1 {
        assert(raw[raw.len() - 1].start == p.0);
    }
    lemma_scan_focus_bound(events, names, init, now);
    if r.0.len() > 0 {
        assert(r.0.last() == r.0[r.0.len() - 1]);
    }
    match r.1 {
        Some(p) => {
            assert(raw.drop_last() =~= r.0);
        },
        None => {},
    }
    lemma_focus_total_sort(raw, block_start_key(), now);
    lemma_focus_total_with_gaps(sort_by_key(raw, block_start_key()), now);
    lemma_focus_total_nonneg_all(day_blocks(events, names, seed, day_start), now);
}

proof fn lemma_focus_total_nonneg_all(s: Seq<BlockView>, now: int)
    ensures
        0 <= focus_total(s, now),
    decreases s.len(),
{
    if s.len() > 0 {
        lemma_focus_total_nonneg_all(s.drop_last(), now);
    }
}

} // verus!
