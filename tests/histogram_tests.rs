use servicegraph::error::ErrorKind;
use servicegraph::histogram::{build_histogram, TrafficRow};
use servicegraph::payloads::{Bucket, Window};

fn traffic(ts: i64, ok: u64, expected: u64, unexpected: u64) -> TrafficRow {
    TrafficRow { ts, status_ok: ok, status_expected_error: expected, status_unexpected_error: unexpected }
}

const M: i64 = 1_700_000_040;

#[test]
fn three_edges_in_one_minute_make_one_bucket() {
    let rows = vec![traffic(M, 10, 0, 0), traffic(M, 0, 20, 0), traffic(M, 0, 0, 5)];
    let w = Window { start: M - 3600, end: M + 3600 };
    let h = build_histogram(&w, &rows).unwrap();
    assert_eq!(h.buckets, vec![Bucket { ts: M, n: 35 }]);
}

#[test]
fn buckets_ascend_and_skip_quiet_minutes() {
    let rows = vec![
        traffic(M + 120, 1, 0, 0),
        traffic(M, 2, 1, 0),
        traffic(M + 60, 0, 0, 0),
        traffic(M + 120, 0, 3, 0),
    ];
    let w = Window { start: M - 60, end: M + 600 };
    let h = build_histogram(&w, &rows).unwrap();
    assert_eq!(h.buckets, vec![Bucket { ts: M, n: 3 }, Bucket { ts: M + 120, n: 4 }]);
}

#[test]
fn rows_outside_window_are_left_out() {
    let rows = vec![traffic(M, 2, 0, 0), traffic(M + 60, 3, 0, 0), traffic(M + 120, 4, 0, 0)];
    let w = Window { start: M + 60, end: M + 60 };
    let h = build_histogram(&w, &rows).unwrap();
    assert_eq!(h.buckets, vec![Bucket { ts: M + 60, n: 3 }]);
    let inverted = Window { start: M + 120, end: M };
    assert!(build_histogram(&inverted, &rows).unwrap().buckets.is_empty());
}

#[test]
fn empty_rows_give_no_buckets() {
    let w = Window { start: 0, end: M };
    assert!(build_histogram(&w, &vec![]).unwrap().buckets.is_empty());
}

#[test]
fn overflowing_minute_fails() {
    let rows = vec![traffic(M, u64::MAX, 0, 0), traffic(M, 1, 0, 0)];
    let w = Window { start: M, end: M };
    let err = build_histogram(&w, &rows).unwrap_err();
    assert_eq!(err.kind, ErrorKind::CounterOverflow);
}
