use profiler_render::sources::{
    build_uri_to_drone, dialog_action, discovery_row, discovery_summary, format_source_combo_entry,
    format_source_combo_label, missing_sources, scheme_hint, source_caption,
    template_fallback_warning, DialogInput, DiscoveredSource, DiscoveryState, DiscoveryStatus,
    ScanView, SourceAction, SourceCommand, SourceListEntry, SourcesState,
};
use profiler_render::startup::{
    autodiscovered, discovery_toast, sources_summary, startup_uris, window_title,
};
use profiler_render::template::{Cell, CellSource, Template};
use profiler_render::{parse_drone_map, FaultsPanelState, Rgb};

fn entry(uri: &str, drone: Option<&str>, live: bool) -> SourceListEntry {
    SourceListEntry {
        uri: uri.to_string(),
        drone_name: drone.map(|s| s.to_string()),
        fallback_name: "src".to_string(),
        is_live: live,
    }
}

fn found(uri: &str, status: DiscoveryStatus) -> DiscoveredSource {
    DiscoveredSource { uri: uri.to_string(), status }
}

fn strings(v: &[&str]) -> Vec<String> {
    v.iter().map(|s| s.to_string()).collect()
}

#[test]
fn drone_maps_are_read() {
    let m = parse_drone_map(" 1=eric , 2 = ada,,").unwrap().0;
    assert_eq!(m.len(), 2);
    assert_eq!(m[&1], "eric");
    assert_eq!(m[&2], "ada");
    assert!(parse_drone_map("  ").unwrap().0.is_empty());
    assert_eq!(parse_drone_map("3=a=b").unwrap().0[&3], "a=b");
    assert_eq!(parse_drone_map("4=x,4=y").unwrap().0[&4], "y");
}

#[test]
fn drone_map_faults_are_told() {
    assert_eq!(
        parse_drone_map("1=a,eric").unwrap_err(),
        "invalid --drone-map entry 'eric': expected SYSID=NAME",
    );
    assert_eq!(
        parse_drone_map("256=eric").unwrap_err(),
        "invalid sysid in --drone-map entry '256=eric': number too large to fit in target type",
    );
    assert_eq!(
        parse_drone_map("x=eric").unwrap_err(),
        "invalid sysid in --drone-map entry 'x=eric': invalid digit found in string",
    );
    assert_eq!(
        parse_drone_map("=eric").unwrap_err(),
        "invalid sysid in --drone-map entry '=eric': cannot parse integer from empty string",
    );
    assert_eq!(
        parse_drone_map("1= ").unwrap_err(),
        "empty drone name in --drone-map entry '1='",
    );
}

#[test]
fn startup_falls_back_to_the_synthetic_source() {
    let none: Vec<String> = Vec::new();
    assert_eq!(startup_uris(Vec::new(), &none), vec!["mock://"]);
    let scan = vec![
        found("zmq://a", DiscoveryStatus::Live { drone_name: None }),
        found("zmq://b", DiscoveryStatus::Silent),
        found("zmq://c", DiscoveryStatus::Live { drone_name: Some("x".into()) }),
    ];
    let given = strings(&["zmq://a"]);
    let more = autodiscovered(&given, &scan);
    assert_eq!(more, vec!["zmq://c"]);
    let all = startup_uris(given, &more);
    assert_eq!(all, vec!["zmq://a", "zmq://c"]);
    assert_eq!(sources_summary(&all), "2 sources: zmq://a + zmq://c");
    assert_eq!(sources_summary(&strings(&["mock://"])), "mock://");
    assert_eq!(window_title("1.2", Some("t"), "s"), "hvn-profiler v1.2 — t — s");
    assert_eq!(window_title("1.2", None, "s"), "hvn-profiler v1.2 — s");
    assert_eq!(discovery_toast(0), None);
    assert_eq!(
        discovery_toast(2).as_deref(),
        Some("Auto-connected to 2 source(s) discovered on localhost"),
    );
}

#[test]
fn sources_are_captioned() {
    let a = entry("zmq://a", Some("eric"), true);
    let b = entry("zmq://b", None, false);
    assert_eq!(source_caption(&a), "eric");
    assert_eq!(source_caption(&b), "(src)");
    assert_eq!(format_source_combo_entry(&a), "● zmq://a — eric");
    let both = vec![a, b];
    assert_eq!(format_source_combo_label("", &both), "(any)");
    assert_eq!(format_source_combo_label("zmq://b", &both), "◌ zmq://b — (src)");
    assert_eq!(format_source_combo_label("zmq://z", &both), "zmq://z (not connected)");
    let m = build_uri_to_drone(&both);
    assert_eq!(m.get("zmq://a").map(|s| s.as_str()), Some("eric"));
    assert_eq!(m.get("zmq://b").map(|s| s.as_str()), Some("src"));
    assert_eq!(scheme_hint("mavlinkout://x"), "MAVLink UDP (udpout / send-first)");
    assert_eq!(scheme_hint("mavlink://x"), "MAVLink UDP (udpin / listen)");
    assert_eq!(scheme_hint("zmq://x"), "ZMQ (HVN-SITL streamer)");
    assert_eq!(scheme_hint("mock://"), "Synthetic (sine wave)");
    assert_eq!(scheme_hint(""), "(auto-detected from URI scheme)");
    assert_eq!(scheme_hint("x"), "(unrecognised scheme — will default to mock://)");
}

#[test]
fn dialog_runs_its_course() {
    let mut s = SourcesState::new();
    assert!(matches!(s.begin(SourceAction::OpenAddDialog), SourceCommand::Scan));
    assert_eq!(s.add_source_uri.as_deref(), Some(""));
    match s.begin(SourceAction::Connect("  zmq://h:1 ".to_string())) {
        SourceCommand::Open { uri, streamer } => {
            assert_eq!(uri, "zmq://h:1");
            assert!(streamer);
        }
        other => panic!("{other:?}"),
    }
    assert_eq!(s.add_source_uri, None);
    s.opened("zmq://h:1", None);
    assert_eq!(s.last_source_action.as_deref(), Some("Connected to zmq://h:1"));
    s.opened("x", Some("refused"));
    assert_eq!(s.last_source_action.as_deref(), Some("Connect failed: refused"));
    assert!(matches!(s.begin(SourceAction::Connect(" ".to_string())), SourceCommand::Nothing));
    assert_eq!(
        s.last_source_action.as_deref(),
        Some("Connect failed: URI must not be empty"),
    );
    match s.begin(SourceAction::ConnectDiscovered("mavlink://a".to_string())) {
        SourceCommand::Open { streamer, .. } => assert!(!streamer),
        other => panic!("{other:?}"),
    }
    assert!(matches!(s.begin(SourceAction::Remove("u".to_string())), SourceCommand::Close(_)));
    s.closed("u", true);
    assert_eq!(s.last_source_action.as_deref(), Some("Removed u"));
    s.closed("u", false);
    assert_eq!(s.last_source_action.as_deref(), Some("Remove failed: u not in list"));
    assert!(matches!(s.begin(SourceAction::Rescan), SourceCommand::Scan));
    assert!(matches!(s.begin(SourceAction::CancelAdd), SourceCommand::Nothing));
}

#[test]
fn dialog_buttons_have_an_order() {
    let all = DialogInput {
        picked: Some("p".to_string()),
        rescan: true,
        connect: true,
        cancel: true,
        typed: "t".to_string(),
    };
    assert!(matches!(dialog_action(all.clone()), Some(SourceAction::ConnectDiscovered(u)) if u == "p"));
    let no_row = DialogInput { picked: None, ..all };
    assert!(matches!(dialog_action(no_row.clone()), Some(SourceAction::Rescan)));
    let typed = DialogInput { rescan: false, ..no_row };
    assert!(matches!(dialog_action(typed.clone()), Some(SourceAction::Connect(u)) if u == "t"));
    let cancel = DialogInput { connect: false, ..typed };
    assert!(matches!(dialog_action(cancel.clone()), Some(SourceAction::CancelAdd)));
    assert!(dialog_action(DialogInput { cancel: false, ..cancel }).is_none());
}

#[test]
fn scans_do_not_overlap() {
    let mut d = DiscoveryState::new();
    assert_eq!(d.shown(), ScanView::Pending);
    assert!(d.begin());
    assert!(!d.begin());
    assert_eq!(d.shown(), ScanView::Scanning);
    d.finish(Vec::new());
    assert_eq!(d.shown(), ScanView::Nothing);
    assert!(d.begin());
    d.finish(vec![found("a", DiscoveryStatus::Silent)]);
    assert_eq!(d.shown(), ScanView::Rows { again: false });
    d.begin();
    assert_eq!(d.shown(), ScanView::Rows { again: true });
}

#[test]
fn scan_rows_say_what_was_found() {
    let live = found("a", DiscoveryStatus::Live { drone_name: Some("eric".into()) });
    let silent = found("b", DiscoveryStatus::Silent);
    let used = found("c", DiscoveryStatus::InUse);
    let r = discovery_row(&live, &[]);
    assert_eq!((r.glyph, r.descriptor.as_str(), r.connected), ("●", "eric", false));
    let r = discovery_row(&live, &strings(&["a"]));
    assert_eq!((r.glyph, r.connected), ("✓", true));
    assert_eq!(r.color, Rgb::from_rgb(100, 160, 220));
    let r = discovery_row(&silent, &[]);
    assert_eq!((r.glyph, r.descriptor.as_str()), ("◌", "(silent)"));
    let r = discovery_row(&used, &[]);
    assert_eq!((r.descriptor.as_str(), r.connected), ("(already connected)", true));
    assert_eq!(
        discovery_summary(&vec![live, silent, used]),
        "1 live / 1 silent / 1 connected",
    );
}

#[test]
fn missing_sources_are_named_once() {
    let mut t = Template::blank("t".to_string());
    for uri in ["zmq://a", "zmq://b", "zmq://a", "zmq://c"] {
        t.cells.push(Cell {
            sources: vec![CellSource { source_uri: Some(uri.into()), ..Default::default() }],
            ..Default::default()
        });
    }
    let connected = strings(&["zmq://c"]);
    assert_eq!(missing_sources(&t, &connected), vec!["zmq://a", "zmq://b"]);
    assert_eq!(
        template_fallback_warning(Some(&t), &connected).as_deref(),
        Some("Template references 2 sources that aren't connected — using first available."),
    );
    let most = strings(&["zmq://c", "zmq://b"]);
    assert_eq!(
        template_fallback_warning(Some(&t), &most).as_deref(),
        Some("Template references source `zmq://a` which isn't connected — using first available."),
    );
    assert_eq!(template_fallback_warning(None, &connected), None);
}

#[test]
fn faults_panel_starts_aimed_at_the_named_drone() {
    let s = FaultsPanelState::start(true, false, Some(Vec::new()), Some("eric".to_string()));
    assert!(!s.visible);
    assert_eq!(s.drone, "eric");
    assert_eq!(s.current_choices(), vec!["all", "eric"]);
    let t = FaultsPanelState::start(true, true, None, None);
    assert!(t.visible);
    assert_eq!(t.drone, "all");
}
