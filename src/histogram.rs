//! The histogram builder: total traffic per minute of the store's per-minute
//! rollup, in ascending order of minute.

use vstd::prelude::*;
use crate::error::ApiError;
use crate::payloads::{in_window, Bucket, Histogram, Window};
use crate::prefix::{lemma_take_all, lemma_take_push};

verus! {

/// One row of the store's per-minute rollup: the calls of minute `ts`, per status.
#[derive(Debug, Copy, Clone, PartialEq, Eq, Structural)]
pub struct TrafficRow {
    pub ts: i64,
    pub status_ok: u64,
    pub status_expected_error: u64,
    pub status_unexpected_error: u64,
}

/// The calls a row counts, whatever their outcome.
pub open spec fn row_volume(r: TrafficRow) -> int {
    r.status_ok + r.status_expected_error + r.status_unexpected_error
}

/// The calls of minute `m` that lie within window `w`.
pub open spec fn minute_total(rows: Seq<TrafficRow>, w: Window, m: i64) -> int
    decreases rows.len(),
{
    if rows.len() == 0 {
        0
    } else {
        minute_total(rows.drop_last(), w, m) + if rows.last().ts == m && in_window(w, m) {
            row_volume(rows.last())
        } else {
            0
        }
    }
}

/// Whether every minute's total fits in a `u64`.
pub open spec fn totals_fit(rows: Seq<TrafficRow>, w: Window) -> bool {
    forall|m: i64| #[trigger] minute_total(rows, w, m) <= u64::MAX
}

pub open spec fn strictly_ascending(s: Seq<i64>) -> bool {
    forall|j: int, k: int| 0 <= j < k < s.len() ==> s[j] < s[k]
}

/// Whether `h` is the histogram of `rows` within `w`: one bucket for each
/// minute with traffic, holding that minute's total, in ascending order.
pub open spec fn is_histogram(h: Histogram, rows: Seq<TrafficRow>, w: Window) -> bool {
    &&& forall|j: int, k: int|
        0 <= j < k < h.buckets.len() ==> (#[trigger] h.buckets@[j]).ts < (#[trigger] h.buckets@[k]).ts
    &&& forall|k: int|
        0 <= k < h.buckets.len() ==> (#[trigger] h.buckets@[k]).n == minute_total(rows, w, h.buckets@[k].ts)
            && h.buckets@[k].n > 0
    &&& forall|m: i64|
        #[trigger] minute_total(rows, w, m) > 0 ==> exists|k: int|
            0 <= k < h.buckets.len() && h.buckets@[k].ts == m
}

proof fn lemma_total_push(rows: Seq<TrafficRow>, r: TrafficRow, w: Window, m: i64)
    ensures
        minute_total(rows.push(r), w, m) == minute_total(rows, w, m) + if r.ts == m && in_window(w, m) {
            row_volume(r)
        } else {
            0
        },
{
    assert(rows.push(r).drop_last() =~= rows);
}

/// A minute with no row within the window has no traffic.
proof fn lemma_quiet_minute(rows: Seq<TrafficRow>, w: Window, m: i64)
    requires
        forall|k: int| 0 <= k < rows.len() ==> !((#[trigger] rows[k]).ts == m && in_window(w, m)),
    ensures
        minute_total(rows, w, m) == 0,
    decreases rows.len(),
{
    if rows.len() > 0 {
        assert forall|k: int| 0 <= k < rows.drop_last().len() implies !((#[trigger] rows.drop_last()[k]).ts == m
            && in_window(w, m)) by {
            assert(rows.drop_last()[k] == rows[k]);
        }
        lemma_quiet_minute(rows.drop_last(), w, m);
    }
}

/// Totals only grow as rows are added.
proof fn lemma_total_monotone(rows: Seq<TrafficRow>, w: Window, j: int, m: i64)
    requires
        0 <= j <= rows.len(),
    ensures
        minute_total(rows.take(j), w, m) <= minute_total(rows, w, m),
    decreases rows.len() - j,
{
    if j < rows.len() {
        lemma_total_monotone(rows, w, j + 1, m);
        lemma_take_push(rows, j);
        lemma_total_push(rows.take(j), rows[j], w, m);
    } else {
        lemma_take_all(rows);
    }
}

fn insert_sorted(v: &mut Vec<i64>, x: i64)
    requires
        strictly_ascending(old(v)@),
    ensures
        strictly_ascending(final(v)@),
        forall|y: i64| final(v)@.contains(y) <==> old(v)@.contains(y) || y == x,
{
    let mut i: usize = 0;
    while i < v.len() && v[i] < x
        invariant
            i <= v.len(),
            forall|k: int| 0 <= k < i ==> v@[k] < x,
        decreases v.len() - i,
    {
        i = i + 1;
    }
    if i < v.len() && v[i] == x {
        return;
    }
    let ghost before = v@;
    v.insert(i, x);
    proof {
        before.insert_ensures(i as int, x);
        assert forall|y: i64| v@.contains(y) <==> before.contains(y) || y == x by {
            if v@.contains(y) {
                let k = choose|k: int| 0 <= k < v.len() && v@[k] == y;
                if k < i {
                    assert(before[k] == y);
                } else if k > i {
                    assert(before[k - 1] == y);
                }
            }
            if before.contains(y) {
                let k = choose|k: int| 0 <= k < before.len() && before[k] == y;
                if k < i {
                    assert(v@[k] == y);
                } else {
                    assert(v@[k + 1] == y);
                }
            }
            if y == x {
                assert(v@[i as int] == x);
            }
        }
    }
}

/// The minutes within the window that rows name, ascending, once each.
fn minutes(w: &Window, rows: &Vec<TrafficRow>) -> (ms: Vec<i64>)
    ensures
        strictly_ascending(ms@),
        forall|m: i64|
            ms@.contains(m) <==> exists|k: int| 0 <= k < rows.len() && (#[trigger] rows@[k]).ts == m && in_window(*w, m),
{
    let mut ms: Vec<i64> = Vec::new();
    let mut i: usize = 0;
    while i < rows.len()
        invariant
            i <= rows.len(),
            strictly_ascending(ms@),
            forall|m: i64|
                ms@.contains(m) <==> exists|k: int| 0 <= k < i && (#[trigger] rows@[k]).ts == m && in_window(*w, m),
        decreases rows.len() - i,
    {
        let ts = rows[i].ts;
        let ghost before = ms@;
        if w.start <= ts && ts <= w.end {
            insert_sorted(&mut ms, ts);
        }
        assert forall|m: i64|
            ms@.contains(m) <==> exists|k: int| 0 <= k < i + 1 && (#[trigger] rows@[k]).ts == m && in_window(*w, m) by {
            if ms@.contains(m) && !before.contains(m) {
                assert(rows@[i as int].ts == m);
            }
        }
        i = i + 1;
    }
    ms
}

/// The total of minute `m`, if it fits.
fn total_of(w: &Window, rows: &Vec<TrafficRow>, m: i64) -> (r: Option<u64>)
    ensures
        r is Some <==> minute_total(rows@, *w, m) <= u64::MAX,
        r is Some ==> r->0 == minute_total(rows@, *w, m),
{
    let mut total: u64 = 0;
    let mut i: usize = 0;
    while i < rows.len()
        invariant
            i <= rows.len(),
            total == minute_total(rows@.take(i as int), *w, m),
        decreases rows.len() - i,
    {
        let r = rows[i];
        proof {
            lemma_take_push(rows@, i as int);
            lemma_total_push(rows@.take(i as int), r, *w, m);
        }
        if r.ts == m && w.start <= m && m <= w.end {
            let sum = total.checked_add(r.status_ok);
            let sum = match sum {
                Some(s) => s.checked_add(r.status_expected_error),
                None => None,
            };
            let sum = match sum {
                Some(s) => s.checked_add(r.status_unexpected_error),
                None => None,
            };
            match sum {
                Some(s) => {
                    total = s;
                },
                None => {
                    proof {
                        lemma_total_monotone(rows@, *w, i + 1, m);
                    }
                    return None;
                },
            }
        }
        i = i + 1;
    }
    proof {
        lemma_take_all(rows@);
    }
    Some(total)
}

/// Builds the histogram of a window: for each minute with traffic within the
/// window, in ascending order, one bucket with the calls of that minute, all
/// statuses together. Minutes with no traffic get no bucket. Fails if a
/// minute's total does not fit a `u64`.
pub fn build_histogram(window: &Window, rows: &Vec<TrafficRow>) -> (r: Result<Histogram, ApiError>)
    ensures
        r is Ok <==> totals_fit(rows@, *window),
        r is Ok ==> is_histogram(r->Ok_0, rows@, *window),
        r is Err ==> r->Err_0.kind == crate::error::ErrorKind::CounterOverflow,
{
    let ms = minutes(window, rows);
    let mut buckets: Vec<Bucket> = Vec::new();
    let mut i: usize = 0;
    while i < ms.len()
        invariant
            i <= ms.len(),
            strictly_ascending(ms@),
            forall|m: i64|
                ms@.contains(m) <==> exists|k: int|
                    0 <= k < rows.len() && (#[trigger] rows@[k]).ts == m && in_window(*window, m),
            forall|j: int| 0 <= j < i ==> #[trigger] minute_total(rows@, *window, ms@[j]) <= u64::MAX,
            forall|k: int|
                0 <= k < buckets.len() ==> (#[trigger] buckets@[k]).n == minute_total(rows@, *window, buckets@[k].ts)
                    && buckets@[k].n > 0 && exists|j: int| 0 <= j < i && ms@[j] == buckets@[k].ts,
            forall|j: int, k: int|
                0 <= j < k < buckets.len() ==> (#[trigger] buckets@[j]).ts < (#[trigger] buckets@[k]).ts,
            i > 0 && buckets.len() > 0 ==> buckets@.last().ts <= ms@[i - 1],
            forall|j: int|
                0 <= j < i && #[trigger] minute_total(rows@, *window, ms@[j]) > 0 ==> exists|k: int|
                    0 <= k < buckets.len() && buckets@[k].ts == ms@[j],
        decreases ms.len() - i,
    {
        let m = ms[i];
        match total_of(window, rows, m) {
            None => {
                return Err(ApiError::counter_overflow());
            },
            Some(n) => {
                if n > 0 {
                    let ghost before = buckets@;
                    buckets.push(Bucket { ts: m, n });
                    assert forall|j: int|
                        0 <= j <= i && #[trigger] minute_total(rows@, *window, ms@[j]) > 0 implies exists|k: int|
                            0 <= k < buckets.len() && buckets@[k].ts == ms@[j] by {
                        if j < i {
                            let k = choose|k: int| 0 <= k < before.len() && before[k].ts == ms@[j];
                            assert(buckets@[k] == before[k]);
                        } else {
                            assert(buckets@[before.len() as int].ts == ms@[j]);
                        }
                    }
                    assert forall|j: int, k: int|
                        0 <= j < k < buckets.len() implies (#[trigger] buckets@[j]).ts < (#[trigger] buckets@[k]).ts by {
                        if k == buckets.len() - 1 && j < k {
                            if j < before.len() - 1 {
                                assert(before[j].ts < before.last().ts);
                            }
                            assert(buckets@[j] == before[j]);
                        }
                    }
                }
            },
        }
        i = i + 1;
    }
    proof {
        assert forall|m: i64| #[trigger] minute_total(rows@, *window, m) <= u64::MAX by {
            if !ms@.contains(m) {
                lemma_quiet_minute(rows@, *window, m);
            } else {
                let j = choose|j: int| 0 <= j < ms.len() && ms@[j] == m;
                assert(minute_total(rows@, *window, ms@[j]) <= u64::MAX);
            }
        }
        assert forall|m: i64| #[trigger] minute_total(rows@, *window, m) > 0 implies exists|k: int|
            0 <= k < buckets.len() && buckets@[k].ts == m by {
            if !ms@.contains(m) {
                lemma_quiet_minute(rows@, *window, m);
            }
            let j = choose|j: int| 0 <= j < ms.len() && ms@[j] == m;
            assert(minute_total(rows@, *window, ms@[j]) > 0);
        }
    }
    Ok(Histogram { buckets })
}

} // verus!
