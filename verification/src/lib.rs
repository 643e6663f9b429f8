//! The panel model of a live telemetry viewer.
//!
//! Samples of many drones come in through [`fleet`] and are kept in rolling windows
//! ([`store`], [`merge`]). A [`template`] says which panels show them; [`editor`], [`drafts`],
//! [`history`] and [`session`] change it. [`layout`] finds the places of the panels,
//! [`plot`], [`label`], [`status`] and [`info_text`] what each of them shows,
//! [`view3d`] the trails of the 3D view. [`faults`] and [`generators`] send commands
//! back to a simulation. Painting, files and sockets are the caller's.
use vstd::prelude::*;

pub mod color;
pub mod drafts;
pub mod editor;
pub mod faults;
pub mod fleet;
pub mod form;
pub mod frame;
pub mod generators;
pub mod history;
pub mod info_text;
pub mod keymap;
pub mod keys;
pub mod label;
pub mod laws;
pub mod layout;
pub mod library;
pub mod menu;
pub mod merge;
pub mod num;
pub mod order;
pub mod plot;
pub mod session;
pub mod sources;
pub mod startup;
pub mod status;
pub mod store;
pub mod template;
pub mod text;
pub mod view3d;
pub mod wide;

pub use color::{parse_color, status_fix_type_chip, status_severity_color, Rgb};
pub use drafts::{apply_trail_draft, panel_draft_from_cell, TrailDraft};
pub use editor::{
    add_panel_draft, apply_panel_draft, compact_cells, first_available_slot, non_empty,
    relocate_cell, remove_cell_at, replace_cell_at, swap_cells, PanelDraft,
};
pub use faults::{default_drone_choices, fix_override_label, FaultsPanelState, PendingCommand};
pub use frame::{grid_stats, GridStats};
pub use generators::{
    apply_to_faults, hash_seed, Generator, GeneratorPanelState, Waveform, SLIDER_TARGETS,
};
pub use history::EditHistory;
pub use info_text::{parse_info_text_spans, split_keeping_spaces, utf8_char_len};
pub use keymap::{KeyMap, SlotMap};
pub use keys::{
    categorize_key, classify_key, collect_source_keys, default_status_kind, group_source_keys,
    infer_primitive, known_value_shape, ComboCollapseState, KeyFreshness, PickerTypeFilter,
    ValueShape, KEY_GROUPS, KNOWN_HVN_SITL_KEYS, LIVE_THRESHOLD_S, STALE_THRESHOLD_S,
};
pub use label::{build_label_text, compute_overlay_pos, LabelOverride, LabelText};
pub use layout::{
    layout_cell_rects, responsive_cell_rects, responsive_grid_dims, CellMenuAction,
    RESPONSIVE_3D_COLLAPSE_W, RESPONSIVE_MIN_CELL_W, RESPONSIVE_SINGLE_COL_W,
};
pub use num::{Num, Num32};
pub use plot::short_key;
pub use sources::{resolve_source_uri, ResolvedSource};
pub use startup::{parse_drone_map, DroneMap};
pub use status::{
    decode_ekf_flags, primitive_supports_label_mode, primitive_supports_zoom, status_cell_color,
    EKF_FLAG_LABELS,
};
pub use store::{StoresView, TextLogEntry, TraceStore, TEXT_LOG_CAPACITY};
pub use view3d::{decimate, View3dState, View3dStats};

verus! {

/// The version of the library.
pub const VERSION: &'static str = "0.16.8";

/// The name and the version of the library.
pub fn hello() -> (r: String)
    ensures
        r@ == "profiler-render v"@ + VERSION@,
{
    text::cat2("profiler-render v", VERSION)
}

} // verus!
