use profiler_render::color::{color_for, tab10};
use profiler_render::plot::{component_key, count_keys_with_data, plot_lines, referenced_keys, Series};
use profiler_render::short_key;
use profiler_render::template::{Cell, CellSource, Grid, Primitive, Template};
use profiler_render::{KeyMap, Num, Rgb, StoresView, TraceStore};

fn num(v: f64) -> Num {
    Num::from_bits(v.to_bits())
}

fn cell(primitive: Primitive, key: &str) -> Cell {
    Cell {
        primitive,
        visible: true,
        sources: vec![CellSource { key: key.into(), ..Default::default() }],
        ..Default::default()
    }
}

fn store() -> TraceStore {
    let mut s = TraceStore::default();
    for i in 0..2 {
        for (k, v) in [("m[0]", 3.0), ("m[1]", 4.0), ("m[2]", 0.0), ("a", 10.0), ("b", 4.0)] {
            s.push(i, k, num(v + i as f64));
        }
    }
    s
}

#[test]
fn scalars_are_one_line_per_source() {
    let s = store();
    let uris: KeyMap<String> = KeyMap::new();
    let view = StoresView::single(&s, &uris);
    let mut c = cell(Primitive::Overlay, "a");
    c.sources.push(CellSource { key: "nothing".into(), ..Default::default() });
    c.sources.push(CellSource {
        key: "gone".into(),
        fallback: Some("b".into()),
        label: "B".into(),
        color: "#010203".into(),
        scale: Some(num(2.0)),
        transform: Some("rad_to_deg".into()),
        ..Default::default()
    });
    let lines = plot_lines(&c, &view);
    assert_eq!(lines.len(), 2);
    assert_eq!((lines[0].label.as_str(), lines[0].color), ("a", tab10(0)));
    assert_eq!(lines[0].scale, None);
    assert!(!lines[0].degrees);
    assert_eq!((lines[1].label.as_str(), lines[1].color), ("B", Rgb::from_rgb(1, 2, 3)));
    assert_eq!(lines[1].scale, Some(num(2.0)));
    assert!(lines[1].degrees);
    match &lines[1].series {
        Series::Plain(p) => assert_eq!(p.iter().map(|p| p.value).collect::<Vec<_>>(), vec![num(4.0), num(5.0)]),
        other => panic!("{other:?}"),
    }
}

#[test]
fn vectors_have_three_lines_and_a_norm() {
    let s = store();
    let uris: KeyMap<String> = KeyMap::new();
    let view = StoresView::single(&s, &uris);
    let names = |c: &Cell| -> Vec<String> {
        plot_lines(c, &view).iter().map(|l| l.label.clone()).collect()
    };
    assert_eq!(names(&cell(Primitive::Vector, "m")), vec!["m.x", "m.y", "m.z"]);
    assert_eq!(names(&cell(Primitive::MagInterference, "m")), vec!["m.x", "m.y", "m.z", "|.|"]);
    assert_eq!(names(&cell(Primitive::AttitudeRpy, "m")), vec!["roll", "pitch", "yaw"]);
    assert_eq!(names(&cell(Primitive::Magnitude, "m")), vec!["|m|"]);
    assert!(names(&cell(Primitive::Vector, "q")).is_empty());
    assert!(names(&cell(Primitive::Status, "a")).is_empty());
    match &plot_lines(&cell(Primitive::Magnitude, "m"), &view)[0].series {
        Series::Norm(v) => assert_eq!(v[0], (0, [num(3.0), num(4.0), num(0.0)])),
        other => panic!("{other:?}"),
    }
}

#[test]
fn differences_pair_the_points() {
    let s = store();
    let uris: KeyMap<String> = KeyMap::new();
    let view = StoresView::single(&s, &uris);
    let mut c = cell(Primitive::Diff, "a");
    c.sources[0].minus = Some("b".into());
    let lines = plot_lines(&c, &view);
    assert_eq!(lines[0].label, "a − b");
    assert_eq!(lines[0].color, color_for("", 0));
    match &lines[0].series {
        Series::Difference(v) => {
            assert_eq!(v, &vec![(0, num(10.0), num(4.0)), (1, num(11.0), num(5.0))]);
        }
        other => panic!("{other:?}"),
    }
    c.color = Some("C3".into());
    assert_eq!(plot_lines(&c, &view)[0].color, tab10(3));
    c.sources[0].minus = Some("gone".into());
    assert!(plot_lines(&c, &view).is_empty());
    c.sources[0].minus = None;
    assert!(matches!(plot_lines(&c, &view)[0].series, Series::Plain(_)));
}

#[test]
fn referenced_keys_are_counted_once() {
    let mut t = Template::blank("t".to_string());
    t.grid = Grid { rows: 1, cols: 3 };
    let mut hidden = cell(Primitive::Scalar, "b");
    hidden.visible = false;
    let mut status = cell(Primitive::Status, "a");
    status.source = "mode".into();
    t.cells = vec![cell(Primitive::Vector, "m"), cell(Primitive::Scalar, "a"), status, hidden];
    assert_eq!(referenced_keys(&t), vec!["a", "m[0]", "m[1]", "m[2]", "mode"]);
    let mut s = store();
    assert_eq!(count_keys_with_data(&t, &s), 4);
    s.push_string(3, "mode", "AUTO");
    assert_eq!(count_keys_with_data(&t, &s), 5);
    assert_eq!(component_key("m", 2), "m[2]");
    assert_eq!(short_key("m[2]"), "m");
}
