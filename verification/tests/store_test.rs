use profiler_render::fleet::{select_key, PREFERRED_KEY};
use profiler_render::store::{Point, DEFAULT_WINDOW_US};
use profiler_render::{hello, Num, TextLogEntry, TraceStore, TEXT_LOG_CAPACITY, VERSION};

fn num(v: f64) -> Num {
    Num::from_bits(v.to_bits())
}

fn val(n: Num) -> f64 {
    f64::from_bits(n.to_bits())
}

fn us(s: f64) -> i64 {
    (s * 1_000_000.0).round() as i64
}

fn pairs(points: &[Point]) -> Vec<(i64, f64)> {
    points.iter().map(|p| (p.t, val(p.value))).collect()
}

#[test]
fn hello_is_versioned() {
    assert!(hello().starts_with("profiler-render v"));
    assert!(hello().contains(VERSION));
}

#[test]
fn push_and_recall() {
    let mut s = TraceStore::new(10_000_000);
    s.push(us(0.0), "a", num(1.0));
    s.push(us(0.1), "a", num(2.0));
    s.push(us(0.2), "b", num(3.0));
    assert_eq!(pairs(&s.points("a")), vec![(us(0.0), 1.0), (us(0.1), 2.0)]);
    assert_eq!(pairs(&s.points("b")), vec![(us(0.2), 3.0)]);
    assert_eq!(pairs(&s.points("missing")), Vec::<(i64, f64)>::new());
}

#[test]
fn retention_prunes_old() {
    let mut s = TraceStore::new(1_000_000);
    for i in 0..10 {
        s.push(us(i as f64 * 0.5), "a", num(i as f64));
    }
    let pts = s.points("a");
    assert!(pts.iter().all(|p| p.t >= us(3.5)));
    assert!(!pts.is_empty());
}

#[test]
fn retention_spares_other_channels_within_the_window() {
    let mut s = TraceStore::new(1_000_000);
    s.push(us(0.0), "a", num(1.0));
    s.push(us(0.9), "b", num(2.0));
    assert_eq!(s.len("a"), 1);
    s.push(us(1.5), "b", num(3.0));
    assert_eq!(s.len("a"), 0);
    assert_eq!(s.keys(), vec!["a".to_string(), "b".to_string()]);
    assert_eq!(s.latest_ts(), Some(us(1.5)));
    s.push(us(0.7), "a", num(4.0));
    assert_eq!(s.latest_ts(), Some(us(1.5)));
    assert_eq!(s.len("a"), 1);
}

#[test]
fn vec3_reconstructs_aligned_vector() {
    let mut s = TraceStore::new(60_000_000);
    s.push(us(0.0), "p[0]", num(1.0));
    s.push(us(0.0), "p[1]", num(2.0));
    s.push(us(0.0), "p[2]", num(3.0));
    s.push(us(0.1), "p[0]", num(4.0));
    s.push(us(0.1), "p[1]", num(5.0));
    s.push(us(0.1), "p[2]", num(6.0));
    let v = s.vec3("p[0]", "p[1]", "p[2]");
    assert_eq!(v.len(), 2);
    assert_eq!(v[0], (us(0.0), [num(1.0), num(2.0), num(3.0)]));
    assert_eq!(v[1], (us(0.1), [num(4.0), num(5.0), num(6.0)]));
    assert!(s.vec3("p[0]", "p[1]", "missing").is_empty());
}

#[test]
fn vec4_reconstructs_quaternion() {
    let mut s = TraceStore::new(60_000_000);
    for (i, comp) in ["q[0]", "q[1]", "q[2]", "q[3]"].iter().enumerate() {
        s.push(us(0.0), comp, num(i as f64));
    }
    let q = s.vec4("q[0]", "q[1]", "q[2]", "q[3]");
    assert_eq!(q.len(), 1);
    assert_eq!(q[0], (us(0.0), [num(0.0), num(1.0), num(2.0), num(3.0)]));
}

#[test]
fn busiest_key_picks_largest() {
    let mut s = TraceStore::new(60_000_000);
    for i in 0..5 {
        s.push(us(i as f64 * 0.01), "rare", num(i as f64));
    }
    for i in 0..50 {
        s.push(us(i as f64 * 0.01), "common", num(i as f64));
    }
    assert_eq!(s.busiest_key().as_deref(), Some("common"));
}

#[test]
fn busiest_key_breaks_ties_by_the_alphabet() {
    let mut s = TraceStore::new(60_000_000);
    assert_eq!(s.busiest_key(), None);
    for k in ["zeta", "beta", "alpha"] {
        s.push(0, k, num(1.0));
        s.push(1, k, num(2.0));
    }
    s.push(2, "lone", num(1.0));
    assert_eq!(s.busiest_key().as_deref(), Some("alpha"));
}

#[test]
fn single_trace_prefers_one_channel() {
    let mut s = TraceStore::default();
    assert_eq!(s.window_us, DEFAULT_WINDOW_US);
    assert_eq!(select_key(&s), None);
    for i in 0..3 {
        s.push(i, "gyro[0]", num(0.0));
    }
    assert_eq!(select_key(&s).as_deref(), Some("gyro[0]"));
    s.push(4, PREFERRED_KEY, num(1.0));
    assert_eq!(select_key(&s).as_deref(), Some(PREFERRED_KEY));
}

#[test]
fn min_max_spans_the_window() {
    let mut s = TraceStore::new(60_000_000);
    assert_eq!(s.min_max("a"), None);
    for v in [0.5, -2.0, 7.25, -0.0, 3.0] {
        s.push(1, "a", num(v));
    }
    let (lo, hi) = s.min_max("a").unwrap();
    assert_eq!((val(lo), val(hi)), (-2.0, 7.25));
}

#[test]
fn diff_render_against_store() {
    let mut store = TraceStore::new(60_000_000);
    store.push(us(0.0), "a", num(10.0));
    store.push(us(0.0), "b", num(4.0));
    store.push(us(1.0), "a", num(12.0));
    store.push(us(1.0), "b", num(5.0));
    let a = store.points("a");
    let b = store.points("b");
    let n = a.len().min(b.len());
    let diff: Vec<(i64, f64)> = (0..n)
        .map(|i| (a[i].t, val(a[i].value) - val(b[i].value)))
        .collect();
    assert_eq!(diff, vec![(us(0.0), 6.0), (us(1.0), 7.0)]);
}

#[test]
fn texts_vectors_and_flags_are_kept() {
    let mut s = TraceStore::new(60_000_000);
    s.note_null_key("flight_mode");
    s.push_string(5, "flight_mode", "AUTO");
    s.push_string(6, "flight_mode", "RTL");
    assert_eq!(s.latest_string("flight_mode").map(|t| t.as_str()), Some("RTL"));
    assert!(!s.null_keys().contains_key("flight_mode"));
    s.note_null_key("flight_mode");
    assert!(!s.null_keys().contains_key("flight_mode"));
    s.push_vec_int(7, "rc_channels", vec![1500, 1100]);
    assert_eq!(s.latest_vec_int("rc_channels"), Some(&vec![1500, 1100]));
    s.push_bool(8, "armed", true);
    assert_eq!(s.latest("armed").map(val), Some(1.0));
    s.push_bool(9, "armed", false);
    assert_eq!(s.latest("armed").map(val), Some(0.0));
    assert_eq!(s.latest_ts(), Some(9));
    assert_eq!(s.keys(), vec!["armed", "flight_mode", "rc_channels"]);
    assert!(s.latest_string("armed").is_none());
}

#[test]
fn log_keeps_the_last_entries() {
    let mut s = TraceStore::new(60_000_000);
    assert!(!s.has_log("statustexts"));
    for i in 0..TEXT_LOG_CAPACITY + 3 {
        s.push_text_log(
            i as i64,
            "statustexts",
            TextLogEntry { ts: i as i64, text: format!("m{i}"), severity: 6 },
        );
    }
    let log = s.text_log_owned("statustexts");
    assert_eq!(log.len(), TEXT_LOG_CAPACITY);
    assert_eq!(log[0].text, "m3");
    assert!(s.has_log("statustexts"));
    assert!(s.text_log_owned("other").is_empty());
}

#[test]
fn late_points_beyond_the_window_are_dropped() {
    let mut s = TraceStore::new(1_000_000);
    s.push(us(5.0), "a", num(1.0));
    s.push(us(3.0), "a", num(2.0));
    assert_eq!(pairs(&s.points("a")), vec![(us(5.0), 1.0)]);
    assert_eq!(s.latest_ts(), Some(us(5.0)));
    s.push(us(4.5), "a", num(3.0));
    assert_eq!(pairs(&s.points("a")), vec![(us(5.0), 1.0), (us(4.5), 3.0)]);
    s.push(us(5.8), "b", num(4.0));
    assert_eq!(pairs(&s.points("a")), vec![(us(5.0), 1.0)]);
}

#[test]
fn two_stores_become_one() {
    let mut a = TraceStore::new(60_000_000);
    let mut b = TraceStore::new(60_000_000);
    for (t, v) in [(1, 1.0), (4, 4.0)] {
        a.push(t, "k", num(v));
    }
    for (t, v) in [(2, 2.0), (4, 40.0), (6, 6.0)] {
        b.push(t, "k", num(v));
    }
    b.push(6, "own", num(7.0));
    a.push_string(5, "mode", "AUTO");
    b.push_string(5, "mode", "RTL");
    a.push_string(5, "name", "x");
    b.push_vec_int(5, "rc", vec![1]);
    a.note_null_key("own");
    b.note_null_key("later");
    let entry = |ts: i64| TextLogEntry { ts, text: format!("m{ts}"), severity: 6 };
    for ts in 0..40 {
        a.push_text_log(5, "log", entry(2 * ts));
        b.push_text_log(5, "log", entry(2 * ts + 1));
    }
    a.absorb(b);
    assert_eq!(
        pairs(&a.points("k")),
        vec![(1, 1.0), (2, 2.0), (4, 4.0), (4, 40.0), (6, 6.0)],
    );
    assert_eq!(pairs(&a.points("own")), vec![(6, 7.0)]);
    assert_eq!(a.latest_ts(), Some(6));
    assert_eq!(a.latest_string("mode").map(|t| t.as_str()), Some("RTL"));
    assert_eq!(a.latest_string("name").map(|t| t.as_str()), Some("x"));
    assert_eq!(a.latest_vec_int("rc"), Some(&vec![1]));
    assert!(a.null_keys().contains_key("later") && !a.null_keys().contains_key("own"));
    let log = a.text_log_owned("log");
    assert_eq!(log.len(), TEXT_LOG_CAPACITY);
    assert!(log.windows(2).all(|w| w[0].ts < w[1].ts));
    assert_eq!(log[TEXT_LOG_CAPACITY - 1].text, "m79");
}
