//! Templates: the grid of panels that the viewer shows, and its 3D trails.
use vstd::prelude::*;

use crate::keymap::KeyMap;
use crate::num::Num;
use crate::order::Slot;
use crate::text::{cat3, dec, decimal};

verus! {

/// How a panel draws its sources.
#[derive(Clone, Copy, Debug, PartialEq, Eq, Structural)]
pub enum Primitive {
    Scalar,
    Vector,
    Overlay,
    Magnitude,
    MagInterference,
    Diff,
    AttitudeRpy,
    /// Reserved: draws nothing.
    StatusBadge,
    Status,
    InfoText,
}

/// What a `Status` panel shows of its source.
#[derive(Clone, Copy, Debug, PartialEq, Eq, Structural)]
pub enum StatusKind {
    Text,
    Badge,
    FixType,
    ArmedBool,
    TextLog,
    EkfFlags,
}

/// What a panel's overlay shows.
#[derive(Clone, Copy, Debug, PartialEq, Eq, Structural)]
pub enum LabelMode {
    Off,
    Data,
    Metadata,
}

/// One source of a panel.
#[derive(Clone, Debug)]
pub struct CellSource {
    pub key: String,
    /// The connected source that the panel reads from; none for any.
    pub source_uri: Option<String>,
    /// The drone that the panel reads from; none for the one on view.
    pub source_drone: Option<String>,
    /// Read instead of `key` where that has no points.
    pub fallback: Option<String>,
    /// For `Diff`: what is subtracted.
    pub minus: Option<String>,
    pub color: String,
    pub label: String,
    pub scale: Option<Num>,
    pub transform: Option<String>,
}

/// How a data overlay prints its value.
#[derive(Clone, Debug)]
pub struct LabelData {
    pub format: String,
    pub show_min_max: bool,
}

/// What a metadata overlay says.
#[derive(Clone, Debug)]
pub struct LabelMetadata {
    pub source_path: String,
    pub units: String,
    pub stream_rate_hz: Option<Num>,
}

/// One panel.
#[derive(Clone, Debug)]
pub struct Cell {
    pub row: usize,
    pub col: usize,
    pub title: String,
    pub primitive: Primitive,
    pub sources: Vec<CellSource>,
    pub color: Option<String>,
    pub visible: bool,
    pub label_mode: LabelMode,
    pub label_data: Option<LabelData>,
    pub label_metadata: Option<LabelMetadata>,
    /// For `Status`: the key that is shown.
    pub source: String,
    pub kind: Option<StatusKind>,
    pub color_map: KeyMap<String>,
    pub default_color: Option<String>,
    pub text: Option<String>,
    pub icon: Option<String>,
    pub zero_reference_line: bool,
}

/// Grid dimensions.
#[derive(Clone, Copy, Debug, PartialEq, Eq, Structural)]
pub struct Grid {
    pub rows: usize,
    pub cols: usize,
}

/// A banner above a row.
#[derive(Clone, Debug)]
pub struct Section {
    pub label: String,
    pub anchor_row: usize,
    pub color: String,
}

/// The keys of a trail that is read as it is.
#[derive(Clone, Debug)]
pub struct Trail3dSources {
    pub x: String,
    pub y: String,
    pub z_neg: String,
}

/// The keys of a trail that is integrated.
#[derive(Clone, Debug)]
pub struct Trail3dDeadreckon {
    pub accel: String,
    pub quat: String,
    pub seed_from: String,
}

/// One trail of the 3D view.
#[derive(Clone, Debug)]
pub struct Trail3d {
    pub name: String,
    pub label: String,
    pub color: String,
    pub sources: Option<Trail3dSources>,
    pub deadreckon: Option<Trail3dDeadreckon>,
}

/// The 3D view.
#[derive(Clone, Debug)]
pub struct View3d {
    pub title: String,
    pub trail_slider_initial: Num,
    pub trails: Vec<Trail3d>,
}

/// Where the view slider starts.
#[derive(Clone, Copy, Debug)]
pub struct ViewSlider {
    pub min_window_s: Num,
    pub valinit: Num,
}

/// What the operator switched, as saved with a template.
#[derive(Clone, Debug)]
pub struct UiState {
    /// Keyed by `row,col`.
    pub cell_visibility: KeyMap<bool>,
    /// Keyed by `row,col`.
    pub cell_label_mode: KeyMap<LabelMode>,
    /// Keyed by trail name.
    pub trail_visibility: KeyMap<bool>,
    pub trail_frac: Option<Num>,
    pub view_frac: Option<Num>,
}

/// A template.
#[derive(Clone, Debug)]
pub struct Template {
    pub name: String,
    pub grid: Grid,
    pub cells: Vec<Cell>,
    pub sections: Vec<Section>,
    pub view_3d: Option<View3d>,
    pub view_slider: Option<ViewSlider>,
    pub ui_state: Option<UiState>,
}

// ---------------------------------------------------------------- copies

/// The characters of an optional string.
pub open spec fn opt_text(o: Option<String>) -> Option<Seq<char>> {
    match o {
        Some(s) => Some(s@),
        None => None,
    }
}

/// A copy of an optional string.
pub fn copy_opt(o: &Option<String>) -> (r: Option<String>)
    ensures
        opt_text(r) == opt_text(*o),
{
    match o {
        Some(s) => Some(s.clone()),
        None => None,
    }
}

/// Are two sources alike in all fields?
pub open spec fn same_source(a: CellSource, b: CellSource) -> bool {
    &&& a.key@ == b.key@
    &&& opt_text(a.source_uri) == opt_text(b.source_uri)
    &&& opt_text(a.source_drone) == opt_text(b.source_drone)
    &&& opt_text(a.fallback) == opt_text(b.fallback)
    &&& opt_text(a.minus) == opt_text(b.minus)
    &&& a.color@ == b.color@
    &&& a.label@ == b.label@
    &&& a.scale == b.scale
    &&& opt_text(a.transform) == opt_text(b.transform)
}

/// Are two lists of sources alike?
pub open spec fn same_sources(a: Seq<CellSource>, b: Seq<CellSource>) -> bool {
    a.len() == b.len() && forall|i: int| 0 <= i < a.len() ==> same_source(#[trigger] a[i], b[i])
}

/// Are two data label settings alike?
pub open spec fn same_label_data(a: Option<LabelData>, b: Option<LabelData>) -> bool {
    match (a, b) {
        (Some(x), Some(y)) => x.format@ == y.format@ && x.show_min_max == y.show_min_max,
        (None, None) => true,
        _ => false,
    }
}

/// Are two metadata label settings alike?
pub open spec fn same_label_metadata(a: Option<LabelMetadata>, b: Option<LabelMetadata>) -> bool {
    match (a, b) {
        (Some(x), Some(y)) => x.source_path@ == y.source_path@ && x.units@ == y.units@
            && x.stream_rate_hz == y.stream_rate_hz,
        (None, None) => true,
        _ => false,
    }
}

/// The entries of a string map, in order.
pub open spec fn text_entries(m: KeyMap<String>) -> Seq<(Seq<char>, Seq<char>)> {
    m.entries@.map_values(|e: (String, String)| (e.0@, e.1@))
}

/// Are two panels alike in all fields?
pub open spec fn same_cell(a: Cell, b: Cell) -> bool {
    &&& a.row == b.row
    &&& a.col == b.col
    &&& a.title@ == b.title@
    &&& a.primitive == b.primitive
    &&& same_sources(a.sources@, b.sources@)
    &&& opt_text(a.color) == opt_text(b.color)
    &&& a.visible == b.visible
    &&& a.label_mode == b.label_mode
    &&& same_label_data(a.label_data, b.label_data)
    &&& same_label_metadata(a.label_metadata, b.label_metadata)
    &&& a.source@ == b.source@
    &&& a.kind == b.kind
    &&& text_entries(a.color_map) == text_entries(b.color_map)
    &&& opt_text(a.default_color) == opt_text(b.default_color)
    &&& opt_text(a.text) == opt_text(b.text)
    &&& opt_text(a.icon) == opt_text(b.icon)
    &&& a.zero_reference_line == b.zero_reference_line
}

/// Are two sections alike?
pub open spec fn same_section(a: Section, b: Section) -> bool {
    a.label@ == b.label@ && a.anchor_row == b.anchor_row && a.color@ == b.color@
}

/// Are two trails alike?
pub open spec fn same_trail(a: Trail3d, b: Trail3d) -> bool {
    &&& a.name@ == b.name@
    &&& a.label@ == b.label@
    &&& a.color@ == b.color@
    &&& match (a.sources, b.sources) {
        (Some(x), Some(y)) => x.x@ == y.x@ && x.y@ == y.y@ && x.z_neg@ == y.z_neg@,
        (None, None) => true,
        _ => false,
    }
    &&& match (a.deadreckon, b.deadreckon) {
        (Some(x), Some(y)) => x.accel@ == y.accel@ && x.quat@ == y.quat@ && x.seed_from@
            == y.seed_from@,
        (None, None) => true,
        _ => false,
    }
}

/// Are two 3D views alike?
pub open spec fn same_view(a: Option<View3d>, b: Option<View3d>) -> bool {
    match (a, b) {
        (Some(x), Some(y)) => {
            &&& x.title@ == y.title@
            &&& x.trail_slider_initial == y.trail_slider_initial
            &&& x.trails.len() == y.trails.len()
            &&& forall|i: int|
                0 <= i < x.trails.len() ==> same_trail(#[trigger] x.trails@[i], y.trails@[i])
        },
        (None, None) => true,
        _ => false,
    }
}

/// The entries of a map, in order.
pub open spec fn plain_entries<V>(m: KeyMap<V>) -> Seq<(Seq<char>, V)> {
    m.entries@.map_values(|e: (String, V)| (e.0@, e.1))
}

/// Are two saved switch settings alike?
pub open spec fn same_ui(a: Option<UiState>, b: Option<UiState>) -> bool {
    match (a, b) {
        (Some(x), Some(y)) => {
            &&& plain_entries(x.cell_visibility) == plain_entries(y.cell_visibility)
            &&& plain_entries(x.cell_label_mode) == plain_entries(y.cell_label_mode)
            &&& plain_entries(x.trail_visibility) == plain_entries(y.trail_visibility)
            &&& x.trail_frac == y.trail_frac
            &&& x.view_frac == y.view_frac
        },
        (None, None) => true,
        _ => false,
    }
}

/// Are two templates alike in all they hold?
pub open spec fn same_template(a: Template, b: Template) -> bool {
    &&& a.name@ == b.name@
    &&& a.grid == b.grid
    &&& a.cells.len() == b.cells.len()
    &&& forall|i: int| 0 <= i < a.cells.len() ==> same_cell(#[trigger] a.cells@[i], b.cells@[i])
    &&& a.sections.len() == b.sections.len()
    &&& forall|i: int|
        0 <= i < a.sections.len() ==> same_section(#[trigger] a.sections@[i], b.sections@[i])
    &&& same_view(a.view_3d, b.view_3d)
    &&& a.view_slider == b.view_slider
    &&& same_ui(a.ui_state, b.ui_state)
}

/// The slot of a panel.
pub open spec fn slot_of(c: Cell) -> Slot {
    (c.row, c.col)
}

/// Each panel's colour map is in key order.
pub open spec fn cell_wf(c: Cell) -> bool {
    c.color_map.wf()
}

impl CellSource {
    /// A copy.
    pub fn duplicate(&self) -> (r: CellSource)
        ensures
            same_source(r, *self),
    {
        CellSource {
            key: self.key.clone(),
            source_uri: copy_opt(&self.source_uri),
            source_drone: copy_opt(&self.source_drone),
            fallback: copy_opt(&self.fallback),
            minus: copy_opt(&self.minus),
            color: self.color.clone(),
            label: self.label.clone(),
            scale: self.scale,
            transform: copy_opt(&self.transform),
        }
    }
}

impl Default for CellSource {
    fn default() -> (r: CellSource)
        ensures
            r.key@ == Seq::<char>::empty(),
            r.source_uri is None,
            r.source_drone is None,
            r.fallback is None,
            r.minus is None,
            r.color@ == Seq::<char>::empty(),
            r.label@ == Seq::<char>::empty(),
            r.scale is None,
            r.transform is None,
    {
        CellSource {
            key: String::new(),
            source_uri: None,
            source_drone: None,
            fallback: None,
            minus: None,
            color: String::new(),
            label: String::new(),
            scale: None,
            transform: None,
        }
    }
}

impl Default for Cell {
    /// A visible scalar panel at the first slot, with no sources.
    fn default() -> (r: Cell)
        ensures
            r.row == 0,
            r.col == 0,
            r.title@ == Seq::<char>::empty(),
            r.primitive == Primitive::Scalar,
            r.sources@ == Seq::<CellSource>::empty(),
            r.color is None,
            r.visible,
            r.label_mode == LabelMode::Off,
            r.label_data is None,
            r.label_metadata is None,
            r.source@ == Seq::<char>::empty(),
            r.kind is None,
            cell_wf(r),
            r.color_map@ == Map::<Seq<char>, String>::empty(),
            r.color_map.entries.len() == 0,
            r.default_color is None,
            r.text is None,
            r.icon is None,
            !r.zero_reference_line,
    {
        Cell {
            row: 0,
            col: 0,
            title: String::new(),
            primitive: Primitive::Scalar,
            sources: Vec::new(),
            color: None,
            visible: true,
            label_mode: LabelMode::Off,
            label_data: None,
            label_metadata: None,
            source: String::new(),
            kind: None,
            color_map: KeyMap::new(),
            default_color: None,
            text: None,
            icon: None,
            zero_reference_line: false,
        }
    }
}

/// A copy of a string map.
pub fn copy_text_map(m: &KeyMap<String>) -> (r: KeyMap<String>)
    requires
        m.wf(),
    ensures
        r.wf(),
        text_entries(r) == text_entries(*m),
{
    let mut entries: Vec<(String, String)> = Vec::new();
    let mut i: usize = 0;
    while i < m.entries.len()
        invariant
            i <= m.entries.len(),
            entries.len() == i,
            forall|k: int|
                0 <= k < i ==> (#[trigger] entries@[k]).0@ == m.entries@[k].0@ && entries@[k].1@
                    == m.entries@[k].1@,
        decreases m.entries.len() - i,
    {
        entries.push((m.entries[i].0.clone(), m.entries[i].1.clone()));
        i = i + 1;
    }
    let r = KeyMap { entries };
    proof {
        assert(r.key_seq() =~= m.key_seq());
        assert(text_entries(r) =~= text_entries(*m));
    }
    r
}

/// A copy of a map of switches.
pub fn copy_map<V: Copy>(m: &KeyMap<V>) -> (r: KeyMap<V>)
    requires
        m.wf(),
    ensures
        r.wf(),
        plain_entries(r) == plain_entries(*m),
        r@ == m@,
{
    let mut entries: Vec<(String, V)> = Vec::new();
    let mut i: usize = 0;
    while i < m.entries.len()
        invariant
            i <= m.entries.len(),
            entries.len() == i,
            forall|k: int|
                0 <= k < i ==> (#[trigger] entries@[k]).0@ == m.entries@[k].0@ && entries@[k].1
                    == m.entries@[k].1,
        decreases m.entries.len() - i,
    {
        entries.push((m.entries[i].0.clone(), m.entries[i].1));
        i = i + 1;
    }
    let r = KeyMap { entries };
    proof {
        assert(r.key_seq() =~= m.key_seq());
        assert(plain_entries(r) =~= plain_entries(*m));
        assert forall|k: Seq<char>| m@.contains_key(k) implies #[trigger] r@[k] == m@[k] by {
            let i = choose|i: int| 0 <= i < m.key_seq().len() && m.key_seq()[i] == k;
            m.entry_value(i);
            r.entry_value(i);
        }
        assert(r@ =~= m@);
    }
    r
}

impl Cell {
    /// A copy.
    pub fn duplicate(&self) -> (r: Cell)
        requires
            cell_wf(*self),
        ensures
            same_cell(r, *self),
            cell_wf(r),
    {
        let mut sources: Vec<CellSource> = Vec::new();
        let mut i: usize = 0;
        while i < self.sources.len()
            invariant
                i <= self.sources.len(),
                sources.len() == i,
                forall|k: int|
                    0 <= k < i ==> same_source(#[trigger] sources@[k], self.sources@[k]),
            decreases self.sources.len() - i,
        {
            sources.push(self.sources[i].duplicate());
            i = i + 1;
        }
        let label_data = match &self.label_data {
            Some(d) => Some(LabelData { format: d.format.clone(), show_min_max: d.show_min_max }),
            None => None,
        };
        let label_metadata = match &self.label_metadata {
            Some(d) => Some(
                LabelMetadata {
                    source_path: d.source_path.clone(),
                    units: d.units.clone(),
                    stream_rate_hz: d.stream_rate_hz,
                },
            ),
            None => None,
        };
        Cell {
            row: self.row,
            col: self.col,
            title: self.title.clone(),
            primitive: self.primitive,
            sources,
            color: copy_opt(&self.color),
            visible: self.visible,
            label_mode: self.label_mode,
            label_data,
            label_metadata,
            source: self.source.clone(),
            kind: self.kind,
            color_map: copy_text_map(&self.color_map),
            default_color: copy_opt(&self.default_color),
            text: copy_opt(&self.text),
            icon: copy_opt(&self.icon),
            zero_reference_line: self.zero_reference_line,
        }
    }
}

impl Section {
    /// A copy.
    pub fn duplicate(&self) -> (r: Section)
        ensures
            same_section(r, *self),
    {
        Section {
            label: self.label.clone(),
            anchor_row: self.anchor_row,
            color: self.color.clone(),
        }
    }
}

impl Trail3d {
    /// A copy.
    pub fn duplicate(&self) -> (r: Trail3d)
        ensures
            same_trail(r, *self),
    {
        let sources = match &self.sources {
            Some(s) => Some(
                Trail3dSources { x: s.x.clone(), y: s.y.clone(), z_neg: s.z_neg.clone() },
            ),
            None => None,
        };
        let deadreckon = match &self.deadreckon {
            Some(d) => Some(
                Trail3dDeadreckon {
                    accel: d.accel.clone(),
                    quat: d.quat.clone(),
                    seed_from: d.seed_from.clone(),
                },
            ),
            None => None,
        };
        Trail3d {
            name: self.name.clone(),
            label: self.label.clone(),
            color: self.color.clone(),
            sources,
            deadreckon,
        }
    }
}

impl View3d {
    /// A copy.
    pub fn duplicate(&self) -> (r: View3d)
        ensures
            same_view(Some(r), Some(*self)),
    {
        let mut trails: Vec<Trail3d> = Vec::new();
        let mut i: usize = 0;
        while i < self.trails.len()
            invariant
                i <= self.trails.len(),
                trails.len() == i,
                forall|k: int| 0 <= k < i ==> same_trail(#[trigger] trails@[k], self.trails@[k]),
            decreases self.trails.len() - i,
        {
            trails.push(self.trails[i].duplicate());
            i = i + 1;
        }
        View3d {
            title: self.title.clone(),
            trail_slider_initial: self.trail_slider_initial,
            trails,
        }
    }
}

impl Default for View3d {
    /// No title, no trails, a quarter of the history drawn.
    fn default() -> (r: View3d)
        ensures
            r.title@ == Seq::<char>::empty(),
            r.trail_slider_initial.bits == 0x3FD0_0000_0000_0000,
            r.trails@ == Seq::<Trail3d>::empty(),
    {
        View3d {
            title: String::new(),
            trail_slider_initial: Num { bits: 0x3FD0_0000_0000_0000 },
            trails: Vec::new(),
        }
    }
}

impl UiState {
    /// Each map is in key order.
    pub open spec fn wf(self) -> bool {
        self.cell_visibility.wf() && self.cell_label_mode.wf() && self.trail_visibility.wf()
    }

    /// A copy.
    pub fn duplicate(&self) -> (r: UiState)
        requires
            self.wf(),
        ensures
            r.wf(),
            same_ui(Some(r), Some(*self)),
            r.cell_visibility@ == self.cell_visibility@,
            r.cell_label_mode@ == self.cell_label_mode@,
    {
        UiState {
            cell_visibility: copy_map(&self.cell_visibility),
            cell_label_mode: copy_map(&self.cell_label_mode),
            trail_visibility: copy_map(&self.trail_visibility),
            trail_frac: self.trail_frac,
            view_frac: self.view_frac,
        }
    }
}

impl Default for UiState {
    /// Nothing switched.
    fn default() -> (r: UiState)
        ensures
            r.wf(),
            r.cell_visibility@ == Map::<Seq<char>, bool>::empty(),
            r.cell_label_mode@ == Map::<Seq<char>, LabelMode>::empty(),
            r.trail_visibility@ == Map::<Seq<char>, bool>::empty(),
            r.trail_frac is None,
            r.view_frac is None,
    {
        UiState {
            cell_visibility: KeyMap::new(),
            cell_label_mode: KeyMap::new(),
            trail_visibility: KeyMap::new(),
            trail_frac: None,
            view_frac: None,
        }
    }
}

/// The key under which the switches of a slot are saved: `row,col`.
pub open spec fn slot_key(at: Slot) -> Seq<char> {
    dec(at.0 as nat) + ","@ + dec(at.1 as nat)
}

/// The key under which the switches of a slot are saved.
pub fn slot_name(row: usize, col: usize) -> (r: String)
    ensures
        r@ == slot_key((row, col)),
{
    let a = decimal(row as u64);
    let b = decimal(col as u64);
    cat3(a.as_str(), ",", b.as_str())
}

/// A panel with the switches that `ui` holds for its slot.
pub open spec fn with_switches(c: Cell, ui: UiState) -> Cell {
    let k = slot_key(slot_of(c));
    Cell {
        visible: if ui.cell_visibility@.contains_key(k) {
            ui.cell_visibility@[k]
        } else {
            c.visible
        },
        label_mode: if ui.cell_label_mode@.contains_key(k) {
            ui.cell_label_mode@[k]
        } else {
            c.label_mode
        },
        ..c
    }
}

impl Template {
    /// Each part that keeps an order keeps it.
    pub open spec fn wf(self) -> bool {
        &&& forall|i: int| 0 <= i < self.cells.len() ==> cell_wf(#[trigger] self.cells@[i])
        &&& self.ui_state is Some ==> self.ui_state->0.wf()
    }

    /// The slots that hold a panel.
    pub open spec fn occupied(self, at: Slot) -> bool {
        exists|i: int| 0 <= i < self.cells.len() && slot_of(#[trigger] self.cells@[i]) == at
    }

    /// A template with one empty slot.
    pub fn blank(name: String) -> (r: Template)
        ensures
            r.wf(),
            r.name == name,
            r.grid.rows == 1,
            r.grid.cols == 1,
            r.cells@ == Seq::<Cell>::empty(),
            r.sections@ == Seq::<Section>::empty(),
            r.view_3d is None,
            r.view_slider is None,
            r.ui_state is None,
    {
        Template {
            name,
            grid: Grid { rows: 1, cols: 1 },
            cells: Vec::new(),
            sections: Vec::new(),
            view_3d: None,
            view_slider: None,
            ui_state: None,
        }
    }

    /// Does slot `at` hold a panel?
    pub fn is_occupied(&self, at: Slot) -> (r: bool)
        ensures
            r == self.occupied(at),
    {
        let mut i: usize = 0;
        while i < self.cells.len()
            invariant
                i <= self.cells.len(),
                forall|k: int| 0 <= k < i ==> slot_of(#[trigger] self.cells@[k]) != at,
            decreases self.cells.len() - i,
        {
            if self.cells[i].row == at.0 && self.cells[i].col == at.1 {
                proof {
                    assert(slot_of(self.cells@[i as int]) == at);
                }
                return true;
            }
            i = i + 1;
        }
        false
    }

    /// Index of the first panel at `at`.
    pub fn first_at(&self, at: Slot) -> (r: Option<usize>)
        ensures
            r is Some <==> self.occupied(at),
            r is Some ==> r->0 < self.cells.len() && slot_of(self.cells@[r->0 as int]) == at
                && forall|k: int| 0 <= k < r->0 ==> slot_of(#[trigger] self.cells@[k]) != at,
    {
        let mut i: usize = 0;
        while i < self.cells.len()
            invariant
                i <= self.cells.len(),
                forall|k: int| 0 <= k < i ==> slot_of(#[trigger] self.cells@[k]) != at,
            decreases self.cells.len() - i,
        {
            if self.cells[i].row == at.0 && self.cells[i].col == at.1 {
                proof {
                    assert(slot_of(self.cells@[i as int]) == at);
                }
                return Some(i);
            }
            i = i + 1;
        }
        None
    }

    /// The indices of the panels that are switched on.
    pub fn visible_cells(&self) -> (r: Vec<usize>)
        ensures
            r@.map_values(|i: usize| i as int) == Seq::new(
                self.cells.len() as nat,
                |i: int| i,
            ).filter(|i: int| self.cells@[i].visible),
    {
        let mut out: Vec<usize> = Vec::new();
        let mut i: usize = 0;
        let ghost all = Seq::new(self.cells.len() as nat, |i: int| i);
        let ghost on = |i: int| self.cells@[i].visible;
        proof {
            reveal(Seq::filter);
            assert(all.take(0) =~= Seq::empty());
            assert(out@.map_values(|i: usize| i as int) =~= Seq::empty());
        }
        while i < self.cells.len()
            invariant
                i <= self.cells.len(),
                all == Seq::new(self.cells.len() as nat, |i: int| i),
                on == (|i: int| self.cells@[i].visible),
                out@.map_values(|i: usize| i as int) == all.take(i as int).filter(on),
            decreases self.cells.len() - i,
        {
            let ghost before = out@;
            proof {
                reveal(Seq::filter);
                assert(all.take(i + 1).drop_last() =~= all.take(i as int));
                assert(all.take(i + 1).last() == i);
            }
            if self.cells[i].visible {
                out.push(i);
                proof {
                    assert(out@.map_values(|i: usize| i as int) =~= before.map_values(
                        |i: usize| i as int,
                    ).push(i as int));
                }
            }
            i = i + 1;
        }
        proof {
            assert(all.take(self.cells.len() as int) =~= all);
        }
        out
    }

    /// A copy.
    pub fn duplicate(&self) -> (r: Template)
        requires
            self.wf(),
        ensures
            same_template(r, *self),
            r.wf(),
    {
        let mut cells: Vec<Cell> = Vec::new();
        let mut i: usize = 0;
        while i < self.cells.len()
            invariant
                self.wf(),
                i <= self.cells.len(),
                cells.len() == i,
                forall|k: int|
                    0 <= k < i ==> same_cell(#[trigger] cells@[k], self.cells@[k]) && cell_wf(
                        cells@[k],
                    ),
            decreases self.cells.len() - i,
        {
            cells.push(self.cells[i].duplicate());
            i = i + 1;
        }
        let mut sections: Vec<Section> = Vec::new();
        let mut j: usize = 0;
        while j < self.sections.len()
            invariant
                j <= self.sections.len(),
                sections.len() == j,
                forall|k: int|
                    0 <= k < j ==> same_section(#[trigger] sections@[k], self.sections@[k]),
            decreases self.sections.len() - j,
        {
            sections.push(self.sections[j].duplicate());
            j = j + 1;
        }
        let view_3d = match &self.view_3d {
            Some(v) => Some(v.duplicate()),
            None => None,
        };
        let ui_state = match &self.ui_state {
            Some(u) => Some(u.duplicate()),
            None => None,
        };
        Template {
            name: self.name.clone(),
            grid: self.grid,
            cells,
            sections,
            view_3d,
            view_slider: self.view_slider,
            ui_state,
        }
    }

    /// Give each panel the switches saved for its slot.
    pub fn apply_ui_state(&mut self, ui: &UiState)
        requires
            ui.wf(),
        ensures
            final(self).cells.len() == old(self).cells.len(),
            forall|i: int|
                0 <= i < old(self).cells.len() ==> #[trigger] final(self).cells@[i]
                    == with_switches(old(self).cells@[i], *ui),
            *final(self) == (Template { cells: final(self).cells, ..*old(self) }),
    {
        let ghost before = *self;
        let mut i: usize = 0;
        while i < self.cells.len()
            invariant
                ui.wf(),
                i <= self.cells.len() == before.cells.len(),
                forall|k: int|
                    0 <= k < i ==> #[trigger] self.cells@[k] == with_switches(
                        before.cells@[k],
                        *ui,
                    ),
                forall|k: int|
                    i <= k < self.cells.len() ==> #[trigger] self.cells@[k] == before.cells@[k],
                *self == (Template { cells: self.cells, ..before }),
            decreases self.cells.len() - i,
        {
            let key = slot_name(self.cells[i].row, self.cells[i].col);
            match ui.cell_visibility.get(key.as_str()) {
                Some(v) => {
                    self.cells[i].visible = *v;
                },
                None => {},
            }
            match ui.cell_label_mode.get(key.as_str()) {
                Some(m) => {
                    self.cells[i].label_mode = *m;
                },
                None => {},
            }
            i = i + 1;
        }
    }
}

} // verus!
