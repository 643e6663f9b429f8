use profiler_render::template::{Grid, LabelMode, Primitive, Template};
use profiler_render::{
    apply_panel_draft, primitive_supports_label_mode, primitive_supports_zoom, relocate_cell,
    remove_cell_at, swap_cells, CellMenuAction, PanelDraft, SlotMap,
};

fn blank(rows: usize, cols: usize) -> Template {
    let mut t = Template::blank("fixture".to_string());
    t.grid = Grid { rows, cols };
    t
}

fn empty_template() -> Template {
    blank(2, 2)
}

fn apply_action(
    action: &CellMenuAction,
    tpl: &mut Template,
    visibility: &mut SlotMap<bool>,
    panel_states: &mut SlotMap<bool>,
    label_overrides: &mut SlotMap<LabelMode>,
) -> bool {
    match action {
        CellMenuAction::HideToggle { row, col } => {
            let cur = visibility.get((*row, *col)).copied().unwrap_or(true);
            visibility.insert((*row, *col), !cur);
            true
        }
        CellMenuAction::ResetZoom { row, col } => {
            if panel_states.get((*row, *col)).is_some() {
                panel_states.insert((*row, *col), false);
            }
            false
        }
        CellMenuAction::SetLabelMode { row, col, mode } => {
            label_overrides.insert((*row, *col), *mode);
            true
        }
        CellMenuAction::Delete { row, col } => remove_cell_at(tpl, *row, *col).is_ok(),
        CellMenuAction::Edit { .. } => {
            false
        }
        CellMenuAction::SwapTo { from, to } => {
            swap_cells(tpl, *from, *to).is_ok()
        }
        CellMenuAction::MoveTo { from, to } => {
            relocate_cell(tpl, *from, *to).is_ok()
        }
    }
}

#[test]
fn hide_panel_action_flips_visibility_in_state_map() {
    let mut tpl = empty_template();
    apply_panel_draft(
        &mut tpl,
        &PanelDraft { row: 0, col: 0, source_key: "x".into(), ..Default::default() },
    )
    .unwrap();

    let mut visibility: SlotMap<bool> = SlotMap::new();
    let mut states: SlotMap<bool> = SlotMap::new();
    let mut labels: SlotMap<LabelMode> = SlotMap::new();

    apply_action(
        &CellMenuAction::HideToggle { row: 0, col: 0 },
        &mut tpl,
        &mut visibility,
        &mut states,
        &mut labels,
    );
    assert_eq!(visibility.get((0, 0)).copied(), Some(false));

    apply_action(
        &CellMenuAction::HideToggle { row: 0, col: 0 },
        &mut tpl,
        &mut visibility,
        &mut states,
        &mut labels,
    );
    assert_eq!(visibility.get((0, 0)).copied(), Some(true));
}

#[test]
fn reset_zoom_clears_locked_flag() {
    let mut tpl = empty_template();
    let mut visibility = SlotMap::new();
    let mut states: SlotMap<bool> = SlotMap::new();
    let mut labels = SlotMap::new();

    states.insert((1, 1), true);
    assert_eq!(states.get((1, 1)).copied(), Some(true));

    apply_action(
        &CellMenuAction::ResetZoom { row: 1, col: 1 },
        &mut tpl,
        &mut visibility,
        &mut states,
        &mut labels,
    );
    assert_eq!(states.get((1, 1)).copied(), Some(false), "Reset zoom clears the lock");
}

#[test]
fn set_label_mode_action_stamps_label_override() {
    let mut tpl = empty_template();
    let mut visibility = SlotMap::new();
    let mut states = SlotMap::new();
    let mut labels: SlotMap<LabelMode> = SlotMap::new();

    apply_action(
        &CellMenuAction::SetLabelMode { row: 0, col: 0, mode: LabelMode::Data },
        &mut tpl,
        &mut visibility,
        &mut states,
        &mut labels,
    );
    assert_eq!(labels.get((0, 0)).copied(), Some(LabelMode::Data));

    apply_action(
        &CellMenuAction::SetLabelMode { row: 0, col: 0, mode: LabelMode::Off },
        &mut tpl,
        &mut visibility,
        &mut states,
        &mut labels,
    );
    assert_eq!(labels.get((0, 0)).copied(), Some(LabelMode::Off));
}

#[test]
fn delete_action_removes_cell_from_template() {
    let mut tpl = empty_template();
    apply_panel_draft(
        &mut tpl,
        &PanelDraft { row: 1, col: 1, source_key: "x".into(), ..Default::default() },
    )
    .unwrap();
    assert_eq!(tpl.cells.len(), 1);

    let mut visibility = SlotMap::new();
    let mut states = SlotMap::new();
    let mut labels = SlotMap::new();
    apply_action(
        &CellMenuAction::Delete { row: 1, col: 1 },
        &mut tpl,
        &mut visibility,
        &mut states,
        &mut labels,
    );
    assert!(tpl.cells.is_empty(), "delete drops the cell");
}

#[test]
fn edit_action_is_noop_at_state_level() {
    let mut tpl = empty_template();
    apply_panel_draft(
        &mut tpl,
        &PanelDraft { row: 0, col: 0, source_key: "x".into(), ..Default::default() },
    )
    .unwrap();
    let before = tpl.cells.clone();
    let mut visibility = SlotMap::new();
    let mut states = SlotMap::new();
    let mut labels = SlotMap::new();
    apply_action(
        &CellMenuAction::Edit { row: 0, col: 0 },
        &mut tpl,
        &mut visibility,
        &mut states,
        &mut labels,
    );
    assert_eq!(tpl.cells.len(), before.len(), "Edit action does not mutate cells");
}

#[test]
fn delete_action_shrinks_cells_and_dirties_template_v010_1() {
    let mut tpl = empty_template();
    apply_panel_draft(
        &mut tpl,
        &PanelDraft { row: 0, col: 0, source_key: "a".into(), ..Default::default() },
    )
    .unwrap();
    apply_panel_draft(
        &mut tpl,
        &PanelDraft { row: 1, col: 1, source_key: "b".into(), ..Default::default() },
    )
    .unwrap();
    assert_eq!(tpl.cells.len(), 2, "two cells seeded");

    let mut visibility = SlotMap::new();
    let mut states = SlotMap::new();
    let mut labels = SlotMap::new();
    let mut template_dirty = false;

    let dirtied = apply_action(
        &CellMenuAction::Delete { row: 1, col: 1 },
        &mut tpl,
        &mut visibility,
        &mut states,
        &mut labels,
    );
    template_dirty = template_dirty || dirtied;

    assert_eq!(tpl.cells.len(), 1, "cells array shrank by exactly 1");
    assert_eq!(tpl.cells[0].sources[0].key, "a", "the OTHER cell is preserved");
    assert!(template_dirty, "right-click Delete dirties the template");

    let dirtied_again = apply_action(
        &CellMenuAction::Delete { row: 9, col: 9 },
        &mut tpl,
        &mut visibility,
        &mut states,
        &mut labels,
    );
    assert_eq!(tpl.cells.len(), 1, "deleting empty slot is a no-op");
    assert!(!dirtied_again, "no dirty flip when nothing was deleted");
}


#[test]
fn v0_16_1_reset_zoom_hidden_on_non_plot_primitives() {
    assert!(!primitive_supports_zoom(Primitive::Status), "Status has no zoom");
    assert!(!primitive_supports_zoom(Primitive::InfoText), "InfoText has no zoom");
    assert!(!primitive_supports_zoom(Primitive::StatusBadge), "StatusBadge has no zoom");
}

#[test]
fn v0_16_1_reset_zoom_visible_on_every_2d_plot_primitive() {
    for p in [
        Primitive::Scalar,
        Primitive::Vector,
        Primitive::Overlay,
        Primitive::Magnitude,
        Primitive::MagInterference,
        Primitive::Diff,
        Primitive::AttitudeRpy,
    ] {
        assert!(
            primitive_supports_zoom(p),
            "{p:?} renders through egui_plot — must show Reset zoom"
        );
    }
}

#[test]
fn v0_16_1_label_submenu_hidden_on_status_and_info_text() {
    assert!(!primitive_supports_label_mode(Primitive::Status));
    assert!(!primitive_supports_label_mode(Primitive::InfoText));
}

#[test]
fn v0_16_1_label_submenu_visible_on_2d_plot_primitives() {
    for p in [
        Primitive::Scalar,
        Primitive::Vector,
        Primitive::Overlay,
        Primitive::Magnitude,
        Primitive::Diff,
        Primitive::AttitudeRpy,
    ] {
        assert!(
            primitive_supports_label_mode(p),
            "{p:?} should expose the Label submenu"
        );
    }
}

#[test]
fn v0_16_1_status_cell_emits_full_action_set_minus_zoom() {
    let mut tpl = empty_template();
    apply_panel_draft(
        &mut tpl,
        &PanelDraft {
            row: 0,
            col: 0,
            source_key: "flight_mode".into(),
            ..Default::default()
        },
    )
    .unwrap();

    let mut visibility = SlotMap::new();
    let mut states: SlotMap<bool> = SlotMap::new();
    let mut labels = SlotMap::new();

    apply_action(
        &CellMenuAction::HideToggle { row: 0, col: 0 },
        &mut tpl,
        &mut visibility,
        &mut states,
        &mut labels,
    );
    assert_eq!(visibility.get((0, 0)).copied(), Some(false));

    apply_action(
        &CellMenuAction::Delete { row: 0, col: 0 },
        &mut tpl,
        &mut visibility,
        &mut states,
        &mut labels,
    );
    assert!(tpl.cells.is_empty(), "Right-click Delete on a Status cell removes it");
}

#[test]
fn v0_16_1_info_text_cell_emits_full_action_set_minus_zoom() {
    let mut tpl = empty_template();
    apply_panel_draft(
        &mut tpl,
        &PanelDraft {
            row: 1,
            col: 0,
            source_key: "_info".into(),
            ..Default::default()
        },
    )
    .unwrap();

    let mut visibility = SlotMap::new();
    let mut states: SlotMap<bool> = SlotMap::new();
    let mut labels = SlotMap::new();

    apply_action(
        &CellMenuAction::HideToggle { row: 1, col: 0 },
        &mut tpl,
        &mut visibility,
        &mut states,
        &mut labels,
    );
    assert_eq!(visibility.get((1, 0)).copied(), Some(false));

    apply_action(
        &CellMenuAction::Delete { row: 1, col: 0 },
        &mut tpl,
        &mut visibility,
        &mut states,
        &mut labels,
    );
    assert!(tpl.cells.is_empty(), "Right-click Delete on an InfoText cell removes it");
}

#[test]
fn all_action_variants_round_trip_through_clone_and_eq() {
    let actions = vec![
        CellMenuAction::Edit { row: 0, col: 0 },
        CellMenuAction::HideToggle { row: 1, col: 0 },
        CellMenuAction::ResetZoom { row: 2, col: 1 },
        CellMenuAction::SetLabelMode { row: 0, col: 0, mode: LabelMode::Data },
        CellMenuAction::Delete { row: 3, col: 2 },
    ];
    let cloned = actions.clone();
    assert_eq!(actions, cloned);
}
