use profiler_render::template::{Template, Trail3d, Trail3dDeadreckon, Trail3dSources, View3d};
use profiler_render::view3d::{
    crop_trail, earliest_start, trail_bindings, trail_caption, trail_inputs, view3d_stats, windowed, TrailInputs,
};
use profiler_render::{decimate, Num, TraceStore, View3dState};

fn num(v: f64) -> Num {
    Num::from_bits(v.to_bits())
}

fn val(n: Num) -> f64 {
    f64::from_bits(n.to_bits())
}

fn us(s: f64) -> i64 {
    (s * 1_000_000.0).round() as i64
}

fn direct(name: &str, x: &str, y: &str, z: &str) -> Trail3d {
    Trail3d {
        name: name.into(),
        label: String::new(),
        color: String::new(),
        sources: Some(Trail3dSources { x: x.into(), y: y.into(), z_neg: z.into() }),
        deadreckon: None,
    }
}

#[test]
fn decimate_every_nth_keeps_last() {
    let pts: Vec<i32> = (0..10).collect();
    let d = decimate(&pts, 3);
    assert_eq!(d, vec![0, 3, 6, 9]);
    let d2 = decimate(&pts, 2);
    assert_eq!(d2, vec![0, 2, 4, 6, 8, 9]);
    assert_eq!(decimate(&pts, 1), pts);
    assert_eq!(decimate(&pts, 0), pts);
}

#[test]
fn decimate_spares_short_trails() {
    assert_eq!(decimate(&[1, 2], 7), vec![1, 2]);
    assert_eq!(decimate(&[1, 2, 3], 7), vec![1, 3]);
    assert_eq!(decimate::<i32>(&[], 7), Vec::<i32>::new());
}

#[test]
fn crop_trail_applies_window_frac_decimate() {
    let pts: Vec<(i64, [i64; 3])> = (0..=10).map(|i| (us(i as f64), [0, i, 0])).collect();
    let visible = windowed(&pts, us(5.0));
    assert_eq!(visible.len(), 6);
    let keep = |frac: f64| ((visible.len() as f64) * frac).ceil() as usize;
    let c = crop_trail(&visible, keep(1.0), 1);
    assert_eq!(c.len(), 6);
    assert_eq!(c.first().unwrap()[1], 5);
    assert_eq!(c.last().unwrap()[1], 10);
    let c2 = crop_trail(&visible, keep(0.5), 1);
    assert_eq!(c2.len(), 3);
    assert_eq!(c2.first().unwrap()[1], 8);
    let c3 = crop_trail(&visible, 0, 1);
    assert_eq!(c3, vec![[0, 10, 0]]);
}

#[test]
fn missing_source_yields_empty_trail() {
    let store = TraceStore::default();
    let trail = direct("ghost", "nope[0]", "nope[1]", "nope[2]");
    match trail_inputs(&trail, &store) {
        TrailInputs::Direct(points) => assert!(points.is_empty()),
        other => panic!("{other:?}"),
    }
}

#[test]
fn direct_trail_turns_down_into_up() {
    let mut store = TraceStore::new(60_000_000);
    for i in 0..3 {
        let f = i as f64;
        store.push(us(f), "pos_truth_ned[0]", num(1.0 + f));
        store.push(us(f), "pos_truth_ned[1]", num(2.0 + 2.0 * f));
        store.push(us(f), "pos_truth_ned[2]", num(-(3.0 + f)));
    }
    let trail = direct("truth", "pos_truth_ned[1]", "pos_truth_ned[0]", "pos_truth_ned[2]");
    match trail_inputs(&trail, &store) {
        TrailInputs::Direct(points) => {
            assert_eq!(points.len(), 3);
            for (i, (t, world)) in points.iter().enumerate() {
                let f = i as f64;
                assert_eq!(*t, us(f));
                assert_eq!(world.map(val), [2.0 + 2.0 * f, 1.0 + f, 3.0 + f]);
            }
        }
        other => panic!("{other:?}"),
    }
}

#[test]
fn integrated_trail_needs_acceleration_and_attitude() {
    let trail = Trail3d {
        name: "dr".into(),
        label: String::new(),
        color: String::new(),
        sources: None,
        deadreckon: Some(Trail3dDeadreckon {
            accel: "accel".into(),
            quat: "quat_wxyz".into(),
            seed_from: "pos".into(),
        }),
    };
    let mut store = TraceStore::new(60_000_000);
    for i in 0..3 {
        store.push(1, &format!("accel[{i}]"), num(i as f64));
    }
    assert!(matches!(trail_inputs(&trail, &store), TrailInputs::Nothing));
    for i in 0..4 {
        store.push(1, &format!("quat_wxyz[{i}]"), num(1.0));
    }
    match trail_inputs(&trail, &store) {
        TrailInputs::DeadReckon { accel, quat, seed } => {
            assert_eq!(accel, vec![(1, [num(0.0), num(1.0), num(2.0)])]);
            assert_eq!(quat.len(), 1);
            assert_eq!(seed, None);
        }
        other => panic!("{other:?}"),
    }
    for i in 0..3 {
        store.push(2, &format!("pos[{i}]"), num(5.0 + i as f64));
    }
    match trail_inputs(&trail, &store) {
        TrailInputs::DeadReckon { seed, .. } => {
            assert_eq!(seed.map(|s| s.map(val)), Some([5.0, 6.0, 7.0]));
        }
        other => panic!("{other:?}"),
    }
}

#[test]
fn settings_are_taken_over_once() {
    let mut view = View3d::default();
    view.trail_slider_initial = num(7.0);
    view.trails.push(direct("truth", "a", "b", "c"));
    let mut state = View3dState::default();
    assert_eq!(val(state.view_frac), 0.85);
    assert_eq!(val(state.trail_frac), 0.25);
    assert_eq!(val(state.min_window_s), 2.0);
    assert_eq!(state.decimate, 1);
    assert!(state.realtime);
    state.set_visible("other", false);
    state.init_from(&view, Some(num(3.0)), Some(num(-0.5)));
    assert_eq!(val(state.trail_frac), 1.0);
    assert_eq!(val(state.min_window_s), 3.0);
    assert_eq!(val(state.view_frac), 0.0);
    assert!(state.is_visible("truth"));
    assert!(!state.is_visible("other"));
    assert!(state.is_visible("unheard"));
    view.trail_slider_initial = num(0.5);
    state.set_visible("truth", false);
    state.init_from(&view, None, None);
    assert_eq!(val(state.trail_frac), 1.0);
    assert!(!state.is_visible("truth"));
    let mut low = View3dState::default();
    view.trail_slider_initial = num(0.001);
    low.init_from(&view, None, None);
    assert_eq!(val(low.trail_frac), 0.01);
}

#[test]
fn stats_count_trails_with_points() {
    let stats = view3d_stats(vec![
        ("truth".to_string(), 4),
        ("gps".to_string(), 0),
        ("ekf".to_string(), 2),
    ]);
    assert_eq!(stats.trails_visible, 2);
    assert_eq!(stats.pts("truth"), 4);
    assert_eq!(stats.pts("gps"), 0);
    assert_eq!(stats.pts("nope"), 0);
}

#[test]
fn overlay_lists_the_bindings() {
    let mut tpl = Template::blank("t".to_string());
    let mut view = View3d::default();
    assert_eq!(trail_bindings(&view), "");
    view.trails.push(direct("truth", "e", "n", "d"));
    view.trails.push(Trail3d {
        name: "loose".into(),
        label: "Loose".into(),
        color: String::new(),
        sources: None,
        deadreckon: None,
    });
    view.trails.push(Trail3d {
        name: "dr".into(),
        label: String::new(),
        color: String::new(),
        sources: None,
        deadreckon: Some(Trail3dDeadreckon {
            accel: "a".into(),
            quat: "q".into(),
            seed_from: "s".into(),
        }),
    });
    assert_eq!(
        trail_bindings(&view),
        "truth: x=e  y=n  z_neg=d\ndr: dead-reckon accel=a quat=q seed=s",
    );
    assert_eq!(trail_caption(&view.trails[0]), "truth");
    assert_eq!(trail_caption(&view.trails[1]), "Loose");
    tpl.view_3d = Some(view);
    assert_eq!(tpl.duplicate().view_3d.unwrap().trails.len(), 3);
}

#[test]
fn window_reaches_back_to_the_earliest_trail() {
    let none: Vec<Vec<(i64, u8)>> = vec![vec![], vec![]];
    assert_eq!(earliest_start(&none), None);
    let some = vec![vec![(7, 0), (1, 0)], vec![], vec![(5, 0)], vec![(6, 0)]];
    assert_eq!(earliest_start(&some), Some(5));
}
