use webprobe::double::Double;
use webprobe::load::{
    gather, load_result, progress_message, Figures, Latencies, LoadConfig, Spread, Tally, Turn,
    Worker, NO_URLS,
};

#[test]
fn latencies_are_recorded_in_slots() {
    let mut h = Latencies::new().unwrap();
    assert_eq!((h.len(), h.min(), h.max(), h.percentile(50)), (0, 0, 0, 0));
    assert_eq!(h.average(), Double { bits: 0 });
    h.measure(0);
    assert_eq!((h.len(), h.min(), h.max()), (1, 1, 1));
    h.measure(2047);
    assert_eq!(h.max(), 2047);
    h.measure(2049);
    assert_eq!(h.max(), 2049);
    h.measure(4097);
    assert_eq!((h.min(), h.max()), (1, 4099));
    h.measure(100_003);
    assert_eq!(h.max(), 100_031);
    assert_eq!(h.len(), 5);
}

#[test]
fn percentiles_and_mean_are_those_of_the_histogram() {
    let mut h = Latencies::new().unwrap();
    let mut reference = hdrhistogram::Histogram::<u64>::new(3).unwrap();
    for v in 1..=1000_u64 {
        h.measure(v * 10);
        reference.record(v * 10).unwrap();
    }
    for p in [0, 1, 50, 90, 95, 99, 100] {
        assert_eq!(h.percentile(p), reference.value_at_percentile(p as f64));
    }
    assert_eq!(f64::from_bits(h.average().bits), reference.mean());
    assert_eq!(h.percentile(50), 5003);
}

#[test]
fn large_latencies_are_taken() {
    let mut h = Latencies::new().unwrap();
    h.measure(u64::MAX / 4);
    h.measure(7);
    assert_eq!(h.len(), 2);
    assert_eq!(h.min(), 7);
    assert!(h.max() >= u64::MAX / 4);
}

#[test]
fn spread_comes_in_order() {
    let mut h = Latencies::new().unwrap();
    let zero = Spread { min: 0, p50: 0, p90: 0, p95: 0, p99: 0, max: 0 };
    assert_eq!(h.spread(), zero);
    for v in [5, 70_000, 3, 900, 12, 4_000_000, 12, 2_049] {
        h.measure(v);
    }
    let s = h.spread();
    assert_eq!((s.min, s.p50, s.max), (3, 12, 4_001_791));
    assert!(s.min <= s.p50 && s.p50 <= s.p90 && s.p90 <= s.p95 && s.p95 <= s.p99 && s.p99 <= s.max);
    assert_eq!(s.p90, h.percentile(90));
    assert!((0..=100).all(|p| h.percentile(p) <= h.percentile(p + 1)));
}

#[test]
fn last_slot_is_taken() {
    let last = u64::MAX - 0x1f_ffff_ffff_ffff;
    let mut h = Latencies::new().unwrap();
    h.measure(u64::MAX);
    assert_eq!((h.min(), h.max()), (u64::MAX, u64::MAX));
    assert_eq!(h.percentile(50), u64::MAX - 1);
    let mut h = Latencies::new().unwrap();
    h.measure(u64::MAX - 1);
    assert_eq!((h.min(), h.max()), (last, u64::MAX - 1));
}

#[test]
fn merging_keeps_every_latency() {
    let mut a = Latencies::new().unwrap();
    let mut b = Latencies::new().unwrap();
    a.measure(5);
    b.measure(3);
    b.measure(5_000_000);
    a.merge(&b);
    assert_eq!((a.len(), a.min()), (3, 3));
    assert!(a.max() >= 5_000_000);
    assert_eq!(b.len(), 2);
    b.merge(&a);
    assert_eq!(b.len(), 5);
}

#[test]
fn users_take_the_urls_in_turn() {
    let mut turn = Turn::first(4, 3);
    let places: Vec<usize> = (0..6).map(|_| turn.take(3)).collect();
    assert_eq!(places, vec![1, 2, 0, 1, 2, 0]);
    let mut single = Turn::first(9, 1);
    assert_eq!((single.take(1), single.take(1)), (0, 0));
}

#[test]
fn requests_are_counted() {
    let mut t = Tally::new();
    for ok in [true, false, true, true] {
        t.count(ok);
    }
    assert_eq!((t.total(), t.failed(), t.successful()), (4, 1, 3));
    let mut sum = Tally::new();
    sum.count(false);
    sum.take_over(&t);
    assert_eq!((sum.total(), sum.failed()), (5, 2));
}

#[test]
fn workers_are_gathered() {
    let mut first = Worker::new(0, 2).unwrap();
    let mut second = Worker::new(1, 2).unwrap();
    assert_eq!((first.next_url(), second.next_url()), (0, 1));
    first.answered(true, 1000);
    second.answered(false, 2000);
    assert_eq!((first.next_url(), second.next_url()), (1, 0));
    first.answered(true, 1500);
    let (tally, latencies) = gather(&vec![first, second]).unwrap();
    assert_eq!((tally.total(), tally.failed(), tally.successful()), (3, 1, 2));
    assert_eq!((latencies.len(), latencies.min(), latencies.max()), (3, 1000, 2000));
    let (nothing, none) = gather(&vec![]).unwrap();
    assert_eq!((nothing.total(), none.len()), (0, 0));
}

#[test]
fn result_names_the_first_url() {
    let d = |x: f64| Double { bits: x.to_bits() };
    let figures = Figures {
        error_rate_pct: d(25.0),
        throughput_rps: d(2.0),
        p50_ms: d(1.0),
        p90_ms: d(2.0),
        p95_ms: d(3.0),
        p99_ms: d(4.0),
        min_ms: d(5.0),
        max_ms: d(6.0),
        mean_ms: d(7.0),
    };
    let mut tally = Tally::new();
    tally.count(true);
    tally.count(false);
    let config = LoadConfig {
        urls: vec!["http://a".to_string(), "http://b".to_string()],
        users: 2,
        duration_secs: 30,
    };
    let r = load_result(&config, &tally, &figures).unwrap();
    assert_eq!(r.url, "http://a");
    assert_eq!((r.users, r.duration_secs), (2, 30));
    assert_eq!((r.total_requests, r.successful_requests, r.failed_requests), (2, 1, 1));
    assert_eq!(r.error_rate_pct, d(25.0));
    assert_eq!(r.throughput_rps, d(2.0));
    assert_eq!(r.latency_p50_ms, d(1.0));
    assert_eq!(r.latency_p90_ms, d(2.0));
    assert_eq!(r.latency_p95_ms, d(3.0));
    assert_eq!(r.latency_p99_ms, d(4.0));
    assert_eq!(r.latency_min_ms, d(5.0));
    assert_eq!(r.latency_max_ms, d(6.0));
    assert_eq!(r.latency_mean_ms, d(7.0));
    let empty = LoadConfig { urls: vec![], users: 2, duration_secs: 30 };
    assert!(load_result(&empty, &tally, &figures).is_none());
    assert_eq!(NO_URLS, "No URLs provided for load test");
}

#[test]
fn progress_is_shown() {
    assert_eq!(progress_message(10, 25, "4.0", 1), "RPS: 15  total: 25  errors: 4.0%");
    assert_eq!(progress_message(0, 7, "0.0", 3), "RPS: 7  total: 7  errors: 0.0%  urls:3");
}
