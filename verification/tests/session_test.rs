use profiler_render::form::{add_color_row, key_chosen, overlay_lines, remove_color_row};
use profiler_render::frame::grid_stats;
use profiler_render::layout::{arrange, scrolls};
use profiler_render::library::{
    add_blank, add_opened, choose_name, current_entry, find_file, locate_saved, save_path,
    TemplateEntry, TemplateOrigin,
};
use profiler_render::menu::{
    asks_save, edit_key, faults_run, generators_run, hidden_caption, panel_menu, picker_caption,
    sends_commands, EditKey, KeyPress, PanelRun,
};
use profiler_render::session::{
    initial_mode, panes, EditorMode, FileStep, FormOutcome, Panes, Session, ViewMode,
};
use profiler_render::template::{
    slot_name, Cell, CellSource, Grid, LabelMode, Primitive, StatusKind, Template, View3d,
};
use profiler_render::{
    CellMenuAction, GridStats, KeyMap, LabelOverride, Num, PanelDraft, SlotMap, StoresView,
    TraceStore, TrailDraft,
};

fn num(v: f64) -> Num {
    Num::from_bits(v.to_bits())
}

fn titled(row: usize, col: usize, title: &str) -> Cell {
    Cell {
        row,
        col,
        title: title.into(),
        sources: vec![CellSource { key: title.into(), ..Default::default() }],
        visible: true,
        ..Default::default()
    }
}

fn two_panels() -> Session {
    let mut t = Template::blank("t".to_string());
    t.grid = Grid { rows: 1, cols: 2 };
    t.cells = vec![titled(0, 0, "a"), titled(0, 1, "b")];
    Session::new(Some(t))
}

fn places(s: &Session) -> Vec<(String, usize, usize)> {
    let t = s.template.as_ref().unwrap();
    t.cells.iter().map(|c| (c.title.clone(), c.row, c.col)).collect()
}

fn whole(s: &Session) -> String {
    format!("{:?}", s.template)
}

#[test]
fn every_edit_can_be_undone() {
    let actions = [
        CellMenuAction::SetLabelMode { row: 0, col: 0, mode: LabelMode::Data },
        CellMenuAction::Delete { row: 0, col: 0 },
        CellMenuAction::SwapTo { from: (0, 0), to: (0, 1) },
        CellMenuAction::MoveTo { from: (0, 0), to: (3, 1) },
    ];
    for action in actions {
        let mut s = two_panels();
        let before = whole(&s);
        s.apply_cell_menu_action(action);
        let after = whole(&s);
        assert_ne!(after, before, "{action:?}");
        assert!(s.dirty);
        s.apply_undo();
        assert_eq!(whole(&s), before);
        assert_eq!(s.last_action.as_deref(), Some("Undo"));
        s.apply_redo();
        assert_eq!(whole(&s), after);
        assert_eq!(s.last_action.as_deref(), Some("Redo"));
    }
}

#[test]
fn actions_say_what_they_did() {
    let mut s = two_panels();
    s.apply_cell_menu_action(CellMenuAction::SwapTo { from: (0, 0), to: (0, 1) });
    assert_eq!(s.last_action.as_deref(), Some("Swapped (0, 0) ↔ (0, 1)"));
    assert_eq!(places(&s), vec![("b".to_string(), 0, 0), ("a".to_string(), 0, 1)]);
    s.apply_cell_menu_action(CellMenuAction::MoveTo { from: (0, 0), to: (2, 0) });
    assert_eq!(s.last_action.as_deref(), Some("Moved (0, 0) → (2, 0)"));
    s.apply_cell_menu_action(CellMenuAction::Delete { row: 9, col: 9 });
    assert_eq!(s.template.as_ref().unwrap().cells.len(), 2);
}

#[test]
fn hidden_panels_are_counted_and_come_back() {
    let mut s = two_panels();
    let hide = CellMenuAction::HideToggle { row: 0, col: 1 };
    s.apply_cell_menu_action(hide);
    assert_eq!(s.hidden_count(), 1);
    assert_eq!(hidden_caption(1).as_deref(), Some("Hidden panels (1)"));
    assert_eq!(hidden_caption(0), None);
    s.apply_cell_menu_action(hide);
    assert_eq!(s.hidden_count(), 0);
    s.apply_cell_menu_action(hide);
    s.restore_hidden();
    assert_eq!(s.hidden_count(), 0);
}

#[test]
fn edit_action_opens_the_form_with_the_panel() {
    let mut s = two_panels();
    s.apply_cell_menu_action(CellMenuAction::Edit { row: 0, col: 1 });
    match &s.editor {
        Some(EditorMode::EditPanel { row: 0, col: 1, draft }) => {
            assert_eq!(draft.title, "b");
            assert_eq!(draft.source_key, "b");
        }
        other => panic!("{other:?}"),
    }
    s.finish_form(FormOutcome::Open);
    assert!(s.editor.is_some());
    s.finish_form(FormOutcome::Cancel);
    assert!(s.editor.is_none());
}

#[test]
fn forms_are_applied_or_stay_open() {
    let mut s = two_panels();
    let draft = PanelDraft { row: 1, col: 0, source_key: "c".into(), ..Default::default() };
    s.editor = Some(EditorMode::AddPanel(draft.clone()));
    s.finish_form(FormOutcome::Commit);
    assert_eq!(s.last_action.as_deref(), Some("Added cell at (1, 0)"));
    assert!(s.editor.is_none() && s.dirty);
    assert_eq!(s.history.past_len(), 1);

    s.editor = Some(EditorMode::AddPanel(draft.clone()));
    s.finish_form(FormOutcome::Commit);
    assert!(s.last_action.as_deref().unwrap().starts_with("Add failed: Panel already exists"));
    assert!(matches!(s.editor, Some(EditorMode::AddPanel(_))));
    assert_eq!(s.history.past_len(), 1);

    s.editor = Some(EditorMode::EditPanel { row: 1, col: 0, draft: draft.clone() });
    s.finish_form(FormOutcome::Commit);
    assert_eq!(s.last_action.as_deref(), Some("Updated cell at (1, 0)"));
    let moved = PanelDraft { row: 1, col: 1, ..draft.clone() };
    s.editor = Some(EditorMode::EditPanel { row: 1, col: 0, draft: moved });
    s.finish_form(FormOutcome::Commit);
    assert_eq!(s.last_action.as_deref(), Some("Moved cell (1, 0) → (1, 1)"));
    let blocked = PanelDraft { row: 0, col: 0, ..draft };
    s.editor = Some(EditorMode::EditPanel { row: 1, col: 1, draft: blocked });
    s.finish_form(FormOutcome::Commit);
    assert_eq!(
        s.last_action.as_deref(),
        Some("Apply failed: destination (0, 0) is already occupied; delete that cell first"),
    );
    assert!(s.editor.is_some());

    let trail = TrailDraft {
        name: "t".into(),
        x_key: "x".into(),
        y_key: "y".into(),
        z_neg_key: "z".into(),
        ..Default::default()
    };
    s.view3d_inited = true;
    s.editor = Some(EditorMode::AddTrail(trail));
    s.finish_form(FormOutcome::Commit);
    assert_eq!(s.last_action.as_deref(), Some("Added trail 't'"));
    assert!(!s.view3d_inited);
    s.editor = Some(EditorMode::AddTrail(TrailDraft::default()));
    s.finish_form(FormOutcome::Commit);
    assert!(s.last_action.as_deref().unwrap().starts_with("Add failed: "));
}

#[test]
fn saved_switches_come_back_on_loading() {
    let mut s = two_panels();
    {
        let t = s.template.as_mut().unwrap();
        t.cells[0].visible = false;
        t.cells[1].label_mode = LabelMode::Metadata;
        t.view_3d = Some(View3d::default());
    }
    s.dirty = true;
    let mut trails: KeyMap<bool> = KeyMap::new();
    trails.insert("truth".to_string(), false);
    let written =
        s.prepare_save(LabelOverride::Respect, &trails, num(0.5), num(0.75)).unwrap();
    let ui = written.ui_state.as_ref().unwrap();
    assert_eq!(ui.cell_visibility.get(&slot_name(0, 0)), Some(&false));
    assert_eq!(ui.cell_visibility.get("0,1"), Some(&true));
    assert_eq!(ui.trail_visibility.get("truth"), Some(&false));
    assert_eq!((ui.trail_frac, ui.view_frac), (Some(num(0.5)), Some(num(0.75))));
    let mut changed = written.duplicate();
    changed.cells[0].visible = true;
    changed.cells[1].label_mode = LabelMode::Off;
    s.saved("/tmp/x.json");
    assert!(!s.dirty);
    assert_eq!(s.last_action.as_deref(), Some("Saved to /tmp/x.json"));
    s.load(changed, "user");
    let t = s.template.as_ref().unwrap();
    assert!(!t.cells[0].visible);
    assert_eq!(t.cells[1].label_mode, LabelMode::Metadata);
    assert_eq!(s.last_action.as_deref(), Some("Loaded 't' (user)"));
    assert_eq!(s.mode, ViewMode::Split);

    let forced =
        s.prepare_save(LabelOverride::Force(LabelMode::Data), &trails, num(0.5), num(0.75)).unwrap();
    let ui = forced.ui_state.unwrap();
    assert_eq!(ui.cell_label_mode.get("0,0"), Some(&LabelMode::Data));
    assert_eq!(ui.cell_label_mode.get("0,1"), Some(&LabelMode::Data));
}

#[test]
fn files_that_fail_are_mentioned() {
    let mut s = Session::new(None);
    let none: KeyMap<bool> = KeyMap::new();
    assert!(s.prepare_save(LabelOverride::Respect, &none, num(0.0), num(0.0)).is_none());
    assert_eq!(s.last_action.as_deref(), Some("Save failed: no template loaded"));
    s.failed(FileStep::Open, "gone");
    assert_eq!(s.last_action.as_deref(), Some("Open failed: gone"));
    s.failed(FileStep::Parse, "bad");
    assert_eq!(s.last_action.as_deref(), Some("Parse failed: bad"));
    s.failed(FileStep::Save, "full");
    assert_eq!(s.last_action.as_deref(), Some("Save failed: full"));
}

#[test]
fn blank_template_is_named_after_its_file() {
    let mut s = two_panels();
    s.new_blank(Some("mine"), "/d/mine.json");
    let t = s.template.as_ref().unwrap();
    assert_eq!((t.name.as_str(), t.grid.rows, t.cells.len()), ("mine", 1, 0));
    assert!(s.dirty);
    assert_eq!(s.mode, ViewMode::Grid);
    assert_eq!(s.last_action.as_deref(), Some("New blank template (save to /d/mine.json)"));
    s.new_blank(None, "x");
    assert_eq!(s.template.as_ref().unwrap().name, "untitled");
}

#[test]
fn panes_follow_mode_and_width() {
    assert_eq!(panes(false, true, ViewMode::Split, 2000, true), Panes::Trace);
    assert_eq!(panes(true, false, ViewMode::View3d, 2000, true), Panes::Grid);
    assert_eq!(panes(true, true, ViewMode::View3d, 500, false), Panes::View3d);
    assert_eq!(panes(true, true, ViewMode::Split, 1100, true), Panes::SideBySide);
    assert_eq!(panes(true, true, ViewMode::Split, 1099, true), Panes::GridWithOverlay);
    assert_eq!(panes(true, true, ViewMode::Split, 1099, false), Panes::Grid);
    assert_eq!(initial_mode(&None), ViewMode::Grid);
}

#[test]
fn opened_files_take_the_name_they_give() {
    let mut entries: Vec<TemplateEntry> = Vec::new();
    let i = add_opened(&mut entries, "/d/file.json", Some("file"), r#"{"name": "inner", "cells": []}"#);
    assert_eq!((i, entries[0].name.as_str()), (0, "inner"));
    let j = add_opened(&mut entries, "/d/other.json", Some("other"), r#"{"name": 3}"#);
    assert_eq!((j, entries[1].name.as_str()), (1, "other"));
    add_opened(&mut entries, "/d/bad.json", Some("bad"), "not json");
    assert_eq!(entries[2].name, "bad");
    add_opened(&mut entries, "/d/list.json", None, "[1, 2]");
    assert_eq!(entries[3].name, "opened");
    add_opened(&mut entries, "/d/esc.json", None, "{\"name\": \"a\\u00e9\\\"b\"}");
    assert_eq!(entries[4].name, "aé\"b");
    assert_eq!(choose_name(None, Some("stem")), "stem");
    assert_eq!(entries[0].origin.path().map(|p| p.as_str()), Some("/d/file.json"));
}

#[test]
fn entries_are_found_by_file_then_by_name() {
    let mut entries = vec![
        TemplateEntry { name: "a".into(), origin: TemplateOrigin::Bundled },
        TemplateEntry { name: "b".into(), origin: TemplateOrigin::User { path: "/b".into() } },
    ];
    let files = vec![None, Some("/b".to_string())];
    assert_eq!(find_file(&files, "/b"), Some(1));
    assert_eq!(find_file(&files, "/c"), None);
    assert_eq!(current_entry(&entries, &files, Some("/b"), "a"), Some(1));
    assert_eq!(current_entry(&entries, &files, Some("/c"), "a"), Some(0));
    assert_eq!(current_entry(&entries, &files, None, "zzz"), None);
    assert_eq!(save_path(&entries, Some(0)), None);
    assert_eq!(save_path(&entries, Some(1)).as_deref(), Some("/b"));
    assert_eq!(save_path(&entries, Some(2)), None);
    assert_eq!(save_path(&entries, None), None);
    assert_eq!(locate_saved(&mut entries, &files, "/b", "b", "b"), 1);
    assert_eq!(entries.len(), 2);
    assert_eq!(locate_saved(&mut entries, &files, "/full/c", "c", "c"), 2);
    assert_eq!(entries[2].name, "c");
    assert_eq!(add_blank(&mut entries, "new", "/n"), 3);
    assert_eq!(picker_caption(Some(("new", "cli"))), "Template: new (cli)");
    assert_eq!(picker_caption(None), "Template: (none)");
}

#[test]
fn choosing_a_key_fits_the_primitive() {
    let mut d = PanelDraft { source_key: "accel[0]".into(), ..Default::default() };
    key_chosen(&mut d, "");
    assert_eq!(d.primitive, Primitive::Scalar);
    let mut s = PanelDraft { source_key: "armed".into(), ..Default::default() };
    key_chosen(&mut s, "");
    assert_eq!(s.primitive, Primitive::Status);
    assert_eq!(s.status_kind, StatusKind::ArmedBool);
    let mut same = PanelDraft { source_key: "armed".into(), ..Default::default() };
    key_chosen(&mut same, "armed");
    assert_eq!(same.primitive, Primitive::Scalar);
    let mut own = PanelDraft {
        source_key: "armed".into(),
        primitive: Primitive::Magnitude,
        ..Default::default()
    };
    key_chosen(&mut own, "x");
    assert_eq!(own.primitive, Primitive::Magnitude);
}

#[test]
fn form_rows_come_and_go() {
    assert_eq!(overlay_lines(" a \n\n b\r\n"), vec!["a", "b"]);
    let mut d = PanelDraft::default();
    add_color_row(&mut d);
    add_color_row(&mut d);
    assert_eq!(d.status_color_map[0], (String::new(), "#1f77b4".to_string()));
    d.status_color_map[1].0 = "x".into();
    remove_color_row(&mut d, 0);
    assert_eq!(d.status_color_map.len(), 1);
    assert_eq!(d.status_color_map[0].0, "x");
}

#[test]
fn menus_offer_what_a_panel_can_do() {
    let plot = panel_menu(&titled(1, 2, "a"));
    let captions: Vec<&str> = plot.iter().map(|m| m.caption).collect();
    assert_eq!(
        captions,
        vec!["Edit panel...", "Hide panel", "Reset zoom", "off", "data", "metadata", "Delete panel"],
    );
    let mut status = titled(1, 2, "a");
    status.primitive = Primitive::Status;
    let captions: Vec<&str> = panel_menu(&status).iter().map(|m| m.caption).collect();
    assert_eq!(captions, vec!["Edit panel...", "Hide panel", "Delete panel"]);
    assert_eq!(plot[6].action, CellMenuAction::Delete { row: 1, col: 2 });
}

#[test]
fn keys_ask_for_edits() {
    let none = KeyPress { command: false, shift: false, s: false, z: false, y: false };
    assert_eq!(edit_key(none), EditKey::Nothing);
    assert_eq!(edit_key(KeyPress { command: true, z: true, ..none }), EditKey::Undo);
    assert_eq!(edit_key(KeyPress { command: true, shift: true, z: true, ..none }), EditKey::Redo);
    assert_eq!(edit_key(KeyPress { command: true, y: true, ..none }), EditKey::Redo);
    assert_eq!(edit_key(KeyPress { z: true, ..none }), EditKey::Nothing);
    assert!(asks_save(KeyPress { command: true, s: true, ..none }));
    assert!(!asks_save(KeyPress { s: true, ..none }));
}

#[test]
fn side_panels_run_unseen() {
    assert_eq!(generators_run(false, true), PanelRun::Off);
    assert_eq!(generators_run(true, false), PanelRun::Unseen);
    assert_eq!(generators_run(true, true), PanelRun::Shown);
    assert_eq!(faults_run(true, false, 0), PanelRun::Off);
    assert_eq!(faults_run(true, false, 1), PanelRun::Unseen);
    assert_eq!(faults_run(true, true, 0), PanelRun::Shown);
    assert!(sends_commands(false, true) && !sends_commands(false, false));
}

#[test]
fn frames_are_counted() {
    let s = two_panels();
    let t = s.template.as_ref().unwrap();
    let mut store = TraceStore::default();
    store.push(0, "a", num(1.0));
    let uris: KeyMap<String> = KeyMap::new();
    let view = StoresView::single(&store, &uris);
    let mut visibility: SlotMap<bool> = SlotMap::new();
    let a = arrange(t, &visibility, true, 1600);
    let stats = grid_stats(t, &a, &visibility, true, &view, None);
    assert_eq!(stats, GridStats { panels: 2, panels_with_data: 1, keys_with_data: 1 });
    let dragged = grid_stats(t, &a, &visibility, true, &view, Some(0));
    assert_eq!(dragged, GridStats { panels: 2, panels_with_data: 0, keys_with_data: 1 });
    visibility.insert((0, 0), false);
    let gaps = arrange(t, &visibility, false, 1600);
    let stats = grid_stats(t, &gaps, &visibility, false, &view, None);
    assert_eq!(stats, GridStats { panels: 1, panels_with_data: 0, keys_with_data: 1 });
    let packed = arrange(t, &visibility, true, 1600);
    let stats = grid_stats(t, &packed, &visibility, true, &view, None);
    assert_eq!(stats, GridStats { panels: 1, panels_with_data: 0, keys_with_data: 1 });
    assert!(!scrolls(&a));
}

#[test]
fn forms_can_be_taken_back() {
    let mut s = two_panels();
    let before = whole(&s);
    let draft = PanelDraft { row: 0, col: 0, source_key: "c".into(), ..Default::default() };
    s.editor = Some(EditorMode::EditPanel { row: 0, col: 0, draft });
    s.finish_form(FormOutcome::Commit);
    assert_ne!(whole(&s), before);
    s.apply_undo();
    assert_eq!(whole(&s), before);
}

#[test]
fn a_refused_panel_leaves_the_history_alone() {
    let mut s = two_panels();
    for _ in 0..70 {
        s.apply_cell_menu_action(CellMenuAction::HideToggle { row: 0, col: 0 });
    }
    s.apply_undo();
    let before = format!("{:?}", s.history);
    assert_eq!((s.history.past_len(), s.history.future_len()), (63, 1));
    s.dirty = false;
    let taken = PanelDraft { source_key: "c".into(), ..Default::default() };
    s.editor = Some(EditorMode::AddPanel(taken));
    s.finish_form(FormOutcome::Commit);
    assert!(s.last_action.as_deref().unwrap().starts_with("Add failed: "));
    assert_eq!(format!("{:?}", s.history), before);
    assert!(!s.dirty);
    assert!(matches!(s.editor, Some(EditorMode::AddPanel(_))));
}

#[test]
fn a_loaded_template_counts_as_unchanged() {
    let mut s = two_panels();
    s.apply_cell_menu_action(CellMenuAction::Delete { row: 0, col: 0 });
    assert!(s.dirty);
    s.load(Template::blank("other".to_string()), "user");
    assert!(!s.dirty);
}

#[test]
fn a_new_trail_keeps_the_title_of_the_view() {
    let mut s = two_panels();
    let view = View3d { title: "Trails".into(), ..Default::default() };
    s.template.as_mut().unwrap().view_3d = Some(view);
    let draft = TrailDraft {
        name: "t".into(),
        x_key: "x".into(),
        y_key: "y".into(),
        z_neg_key: "z".into(),
        ..Default::default()
    };
    s.editor = Some(EditorMode::AddTrail(draft));
    s.finish_form(FormOutcome::Commit);
    let view = s.template.as_ref().unwrap().view_3d.as_ref().unwrap();
    assert_eq!((view.title.as_str(), view.trails.len()), ("Trails", 1));
}
