//! The template editor: drafts of panels and trails, and what applying them,
//! moving panels about and undoing do to a template.
use vstd::prelude::*;

use crate::keymap::KeyMap;
use crate::order::{
    by_slot, by_slot_keeps_order, by_slot_sorts, in_slot_order, put_in_at, slot_le, at_or_before,
    Slot,
};
use crate::template::{
    cell_wf, opt_text, slot_of, Cell, CellSource, Grid, LabelMode, Primitive, StatusKind, Template,
};
use crate::text::{
    cat3, dec, decimal, is_blank, owned, say_slot, slot_sentence, texts, trim, trimmed,
};

verus! {

/// The largest row or column that a draft may name, plus one.
pub const MAX_GRID_DIM: usize = 64;

/// Draft of a panel, as the form fills it in.
#[derive(Clone, Debug)]
pub struct PanelDraft {
    pub row: usize,
    pub col: usize,
    pub primitive: Primitive,
    pub title: String,
    /// The source key; for the vector primitives, the base of the array.
    pub source_key: String,
    /// Connected source to read from; empty for any.
    pub source_uri: String,
    /// Drone to read from; empty for the one on view.
    pub source_drone: String,
    /// Read instead of `source_key` where that has no points.
    pub fallback: String,
    /// For `Diff`: what is subtracted.
    pub minus: String,
    pub color: String,
    pub label_mode: LabelMode,
    /// For `Overlay`: further keys, one line each.
    pub overlay_extra_keys: Vec<String>,
    /// For `Status`: what is shown.
    pub status_kind: StatusKind,
    /// For `Status`: rows of value and colour.
    pub status_color_map: Vec<(String, String)>,
    /// For `Status`: the colour of values that no row names.
    pub status_default_color: String,
}

impl Default for PanelDraft {
    fn default() -> (r: PanelDraft)
        ensures
            r.row == 0,
            r.col == 0,
            r.primitive == Primitive::Scalar,
            r.title@ == Seq::<char>::empty(),
            r.source_key@ == Seq::<char>::empty(),
            r.source_uri@ == Seq::<char>::empty(),
            r.source_drone@ == Seq::<char>::empty(),
            r.fallback@ == Seq::<char>::empty(),
            r.minus@ == Seq::<char>::empty(),
            r.color@ == "#1f77b4"@,
            r.label_mode == LabelMode::Off,
            r.overlay_extra_keys@ == Seq::<String>::empty(),
            r.status_kind == StatusKind::Text,
            r.status_color_map@ == Seq::<(String, String)>::empty(),
            r.status_default_color@ == "#aaaaaa"@,
    {
        PanelDraft {
            row: 0,
            col: 0,
            primitive: Primitive::Scalar,
            title: String::new(),
            source_key: String::new(),
            source_uri: String::new(),
            source_drone: String::new(),
            fallback: String::new(),
            minus: String::new(),
            color: owned("#1f77b4"),
            label_mode: LabelMode::Off,
            overlay_extra_keys: Vec::new(),
            status_kind: StatusKind::Text,
            status_color_map: Vec::new(),
            status_default_color: owned("#aaaaaa"),
        }
    }
}

/// A trimmed text, if anything is left of it.
pub open spec fn stated(s: Seq<char>) -> Option<Seq<char>> {
    if trimmed(s).len() == 0 {
        None
    } else {
        Some(trimmed(s))
    }
}

/// `s` trimmed, if anything is left of it.
pub fn non_empty(s: &str) -> (r: Option<String>)
    ensures
        opt_text(r) == stated(s@),
{
    let t = trim(s);
    if t.is_empty() {
        None
    } else {
        Some(owned(t))
    }
}

/// What is wrong with a draft, if anything is.
pub open spec fn draft_fault(d: PanelDraft) -> Option<Seq<char>> {
    if trimmed(d.source_key@).len() == 0 {
        Some("source key must not be empty"@)
    } else if d.primitive == Primitive::Diff && trimmed(d.minus@).len() == 0 {
        Some("diff primitive requires a subtrahend key"@)
    } else if d.row >= MAX_GRID_DIM {
        Some("row "@ + dec(d.row as nat) + " exceeds maximum grid dimension (64)"@)
    } else if d.col >= MAX_GRID_DIM {
        Some("col "@ + dec(d.col as nat) + " exceeds maximum grid dimension (64)"@)
    } else {
        None
    }
}

/// The keys of `v` that are not blank, trimmed.
pub open spec fn stated_keys(v: Seq<Seq<char>>) -> Seq<Seq<char>>
    decreases v.len(),
{
    if v.len() == 0 {
        Seq::empty()
    } else {
        let head = stated_keys(v.drop_last());
        match stated(v.last()) {
            Some(k) => head.push(k),
            None => head,
        }
    }
}

/// The colour map that rows of value and colour make: blank rows are left out,
/// and of two rows for one value the later counts.
pub open spec fn color_rows(rows: Seq<(Seq<char>, Seq<char>)>) -> Map<Seq<char>, Seq<char>>
    decreases rows.len(),
{
    if rows.len() == 0 {
        Map::empty()
    } else {
        let head = color_rows(rows.drop_last());
        let (k, v) = rows.last();
        if trimmed(k).len() > 0 && trimmed(v).len() > 0 {
            head.insert(trimmed(k), trimmed(v))
        } else {
            head
        }
    }
}

/// The characters of rows of strings.
pub open spec fn row_texts(rows: Seq<(String, String)>) -> Seq<(Seq<char>, Seq<char>)> {
    rows.map_values(|r: (String, String)| (r.0@, r.1@))
}

/// The characters that a string map holds.
pub open spec fn text_map(m: KeyMap<String>) -> Map<Seq<char>, Seq<char>> {
    m@.map_values(|s: String| s@)
}

/// Is `s` the source that a draft makes of a key?
pub open spec fn drafted_source(
    s: CellSource,
    key: Seq<char>,
    d: PanelDraft,
    fallback: Option<Seq<char>>,
    minus: Option<Seq<char>>,
    color: Seq<char>,
) -> bool {
    &&& s.key@ == key
    &&& opt_text(s.source_uri) == stated(d.source_uri@)
    &&& opt_text(s.source_drone) == stated(d.source_drone@)
    &&& opt_text(s.fallback) == fallback
    &&& opt_text(s.minus) == minus
    &&& s.color@ == color
    &&& s.label@ == Seq::<char>::empty()
    &&& s.scale is None
    &&& s.transform is None
}

/// The further keys that a draft draws: those of an overlay.
pub open spec fn drafted_extras(d: PanelDraft) -> Seq<Seq<char>> {
    if d.primitive == Primitive::Overlay {
        stated_keys(texts(d.overlay_extra_keys@))
    } else {
        Seq::empty()
    }
}

/// Are `v` the sources that a draft describes?
pub open spec fn drafted_sources(v: Seq<CellSource>, d: PanelDraft) -> bool {
    &&& v.len() == 1 + drafted_extras(d).len()
    &&& drafted_source(
        v[0],
        trimmed(d.source_key@),
        d,
        stated(d.fallback@),
        if d.primitive == Primitive::Diff {
            stated(d.minus@)
        } else {
            None
        },
        d.color@,
    )
    &&& forall|i: int|
        1 <= i < v.len() ==> drafted_source(
            #[trigger] v[i],
            drafted_extras(d)[i - 1],
            d,
            None,
            None,
            Seq::empty(),
        )
}

/// Is `c` the panel that a draft describes?
pub open spec fn drafted(c: Cell, d: PanelDraft) -> bool {
    let status = d.primitive == Primitive::Status;
    &&& slot_of(c) == (d.row, d.col)
    &&& c.title@ == d.title@
    &&& c.primitive == d.primitive
    &&& drafted_sources(c.sources@, d)
    &&& opt_text(c.color) == stated(d.color@)
    &&& c.visible
    &&& c.label_mode == d.label_mode
    &&& c.label_data is None
    &&& c.label_metadata is None
    &&& c.source@ == if status {
        trimmed(d.source_key@)
    } else {
        Seq::empty()
    }
    &&& c.kind == if status {
        Some(d.status_kind)
    } else {
        None
    }
    &&& cell_wf(c)
    &&& text_map(c.color_map) == if status {
        color_rows(row_texts(d.status_color_map@))
    } else {
        Map::empty()
    }
    &&& opt_text(c.default_color) == if status {
        stated(d.status_default_color@)
    } else {
        None
    }
    &&& c.text is None
    &&& c.icon is None
    &&& !c.zero_reference_line
}

/// A grid grown just enough to hold a slot.
pub open spec fn grown(g: Grid, row: usize, col: usize) -> Grid {
    Grid {
        rows: if row >= g.rows {
            (row + 1) as usize
        } else {
            g.rows
        },
        cols: if col >= g.cols {
            (col + 1) as usize
        } else {
            g.cols
        },
    }
}

/// The colour map of rows of value and colour.
fn build_color_map(rows: &Vec<(String, String)>) -> (m: KeyMap<String>)
    ensures
        m.wf(),
        text_map(m) == color_rows(row_texts(rows@)),
{
    let mut m: KeyMap<String> = KeyMap::new();
    let mut i: usize = 0;
    proof {
        assert(text_map(m) =~= Map::empty());
    }
    while i < rows.len()
        invariant
            i <= rows.len(),
            m.wf(),
            text_map(m) == color_rows(row_texts(rows@).take(i as int)),
        decreases rows.len() - i,
    {
        let ghost all = row_texts(rows@);
        proof {
            assert(all.take(i + 1).drop_last() =~= all.take(i as int));
            assert(all.take(i + 1).last() == (rows@[i as int].0@, rows@[i as int].1@));
        }
        let k = trim(rows[i].0.as_str());
        let v = trim(rows[i].1.as_str());
        if !k.is_empty() && !v.is_empty() {
            let ghost before = m;
            let value = owned(v);
            m.insert(owned(k), value);
            proof {
                assert(text_map(m) =~= text_map(before).insert(k@, v@));
            }
        }
        i = i + 1;
    }
    proof {
        assert(row_texts(rows@).take(rows.len() as int) =~= row_texts(rows@));
    }
    m
}

/// The sources that a draft describes.
fn build_sources(draft: &PanelDraft) -> (v: Vec<CellSource>)
    ensures
        drafted_sources(v@, *draft),
{
    let mut sources: Vec<CellSource> = Vec::new();
    let minus = match draft.primitive {
        Primitive::Diff => non_empty(draft.minus.as_str()),
        _ => None,
    };
    sources.push(
        CellSource {
            key: owned(trim(draft.source_key.as_str())),
            source_uri: non_empty(draft.source_uri.as_str()),
            source_drone: non_empty(draft.source_drone.as_str()),
            fallback: non_empty(draft.fallback.as_str()),
            minus,
            color: draft.color.clone(),
            label: String::new(),
            scale: None,
            transform: None,
        },
    );
    let ghost ks = texts(draft.overlay_extra_keys@);
    match draft.primitive {
        Primitive::Overlay => {
            let mut i: usize = 0;
            while i < draft.overlay_extra_keys.len()
                invariant
                    i <= draft.overlay_extra_keys.len(),
                    ks == texts(draft.overlay_extra_keys@),
                    draft.primitive == Primitive::Overlay,
                    sources.len() == 1 + stated_keys(ks.take(i as int)).len(),
                    drafted_source(
                        sources@[0],
                        trimmed(draft.source_key@),
                        *draft,
                        stated(draft.fallback@),
                        None,
                        draft.color@,
                    ),
                    forall|j: int|
                        1 <= j < sources.len() ==> drafted_source(
                            #[trigger] sources@[j],
                            stated_keys(ks.take(i as int))[j - 1],
                            *draft,
                            None,
                            None,
                            Seq::empty(),
                        ),
                decreases draft.overlay_extra_keys.len() - i,
            {
                proof {
                    assert(ks.take(i + 1).drop_last() =~= ks.take(i as int));
                    assert(ks.take(i + 1).last() == draft.overlay_extra_keys@[i as int]@);
                }
                let k = trim(draft.overlay_extra_keys[i].as_str());
                if !k.is_empty() {
                    sources.push(
                        CellSource {
                            key: owned(k),
                            source_uri: non_empty(draft.source_uri.as_str()),
                            source_drone: non_empty(draft.source_drone.as_str()),
                            fallback: None,
                            minus: None,
                            color: String::new(),
                            label: String::new(),
                            scale: None,
                            transform: None,
                        },
                    );
                }
                i = i + 1;
            }
            proof {
                assert(ks.take(ks.len() as int) =~= ks);
            }
        },
        _ => {},
    }
    sources
}

/// Put the panel that `draft` describes behind the others of `tpl`, and grow the
/// grid where the slot lies outside it. A panel that is already in the slot stays.
pub fn apply_panel_draft(tpl: &mut Template, draft: &PanelDraft) -> (r: Result<(), String>)
    ensures
        match r {
            Err(e) => draft_fault(*draft) == Some(e@) && *final(tpl) == *old(tpl),
            Ok(_) => {
                &&& draft_fault(*draft) is None
                &&& final(tpl).cells.len() == old(tpl).cells.len() + 1
                &&& drafted(final(tpl).cells@.last(), *draft)
                &&& final(tpl).cells@ == old(tpl).cells@.push(final(tpl).cells@.last())
                &&& *final(tpl) == (Template {
                    grid: grown(old(tpl).grid, draft.row, draft.col),
                    cells: final(tpl).cells,
                    ..*old(tpl)
                })
            },
        },
{
    if is_blank(draft.source_key.as_str()) {
        return Err(owned("source key must not be empty"));
    }
    let diff = match draft.primitive {
        Primitive::Diff => true,
        _ => false,
    };
    if diff && is_blank(draft.minus.as_str()) {
        return Err(owned("diff primitive requires a subtrahend key"));
    }
    if draft.row >= MAX_GRID_DIM {
        let n = decimal(draft.row as u64);
        return Err(cat3("row ", n.as_str(), " exceeds maximum grid dimension (64)"));
    }
    if draft.col >= MAX_GRID_DIM {
        let n = decimal(draft.col as u64);
        return Err(cat3("col ", n.as_str(), " exceeds maximum grid dimension (64)"));
    }
    if draft.row >= tpl.grid.rows {
        tpl.grid.rows = draft.row + 1;
    }
    if draft.col >= tpl.grid.cols {
        tpl.grid.cols = draft.col + 1;
    }
    let sources = build_sources(draft);
    let status = match draft.primitive {
        Primitive::Status => true,
        _ => false,
    };
    let color_map = if status {
        build_color_map(&draft.status_color_map)
    } else {
        KeyMap::new()
    };
    let cell = Cell {
        row: draft.row,
        col: draft.col,
        title: draft.title.clone(),
        primitive: draft.primitive,
        sources,
        color: non_empty(draft.color.as_str()),
        visible: true,
        label_mode: draft.label_mode,
        label_data: None,
        label_metadata: None,
        source: if status {
            owned(trim(draft.source_key.as_str()))
        } else {
            String::new()
        },
        kind: if status {
            Some(draft.status_kind)
        } else {
            None
        },
        color_map,
        default_color: if status {
            non_empty(draft.status_default_color.as_str())
        } else {
            None
        },
        text: None,
        icon: None,
        zero_reference_line: false,
    };
    proof {
        if !status {
            assert(text_map(cell.color_map) =~= Map::empty());
        }
    }
    tpl.cells.push(cell);
    Ok(())
}

/// The first free slot in reading order; one row below the grid if it is full.
pub fn first_available_slot(template: &Template) -> (r: (usize, usize))
    ensures
        r.0 <= template.grid.rows,
        r.0 < template.grid.rows ==> r.1 < template.grid.cols && !template.occupied(r),
        r.0 == template.grid.rows ==> r.1 == 0,
        forall|a: usize, b: usize|
            a < template.grid.rows && b < template.grid.cols && (a < r.0 || (a == r.0 && b < r.1))
                ==> #[trigger] template.occupied((a, b)),
{
    let rows: usize = template.grid.rows;
    let cols: usize = template.grid.cols;
    let mut i: usize = 0;
    while i < rows
        invariant
            rows == template.grid.rows,
            cols == template.grid.cols,
            i <= rows,
            forall|a: usize, b: usize|
                a < i && b < cols ==> #[trigger] template.occupied((a, b)),
        decreases rows - i,
    {
        let mut j: usize = 0;
        while j < cols
            invariant
                rows == template.grid.rows,
                cols == template.grid.cols,
                i < rows,
                j <= cols,
                forall|a: usize, b: usize|
                    a < i && b < cols ==> #[trigger] template.occupied((a, b)),
                forall|b: usize| b < j ==> #[trigger] template.occupied((i, b)),
            decreases cols - j,
        {
            if !template.is_occupied((i, j)) {
                return (i, j);
            }
            j = j + 1;
        }
        i = i + 1;
    }
    (rows, 0)
}

/// What is said of a slot that is taken already.
pub open spec fn taken_sentence(row: usize, col: usize) -> Seq<char> {
    slot_sentence(
        "Panel already exists at ("@,
        row,
        ","@,
        col,
        "); pick a different slot or delete the existing one first"@,
    )
}

/// As `apply_panel_draft`, but a slot that holds a panel is refused, and the
/// template then stays as it was.
pub fn add_panel_draft(tpl: &mut Template, draft: &PanelDraft) -> (r: Result<(), String>)
    ensures
        match r {
            Err(e) => {
                &&& *final(tpl) == *old(tpl)
                &&& if old(tpl).occupied((draft.row, draft.col)) {
                    e@ == taken_sentence(draft.row, draft.col)
                } else {
                    draft_fault(*draft) == Some(e@)
                }
            },
            Ok(_) => {
                &&& !old(tpl).occupied((draft.row, draft.col))
                &&& draft_fault(*draft) is None
                &&& final(tpl).cells.len() == old(tpl).cells.len() + 1
                &&& drafted(final(tpl).cells@.last(), *draft)
                &&& final(tpl).cells@ == old(tpl).cells@.push(final(tpl).cells@.last())
                &&& *final(tpl) == (Template {
                    grid: grown(old(tpl).grid, draft.row, draft.col),
                    cells: final(tpl).cells,
                    ..*old(tpl)
                })
            },
        },
{
    if tpl.is_occupied((draft.row, draft.col)) {
        return Err(
            say_slot(
                "Panel already exists at (",
                draft.row,
                ",",
                draft.col,
                "); pick a different slot or delete the existing one first",
            ),
        );
    }
    apply_panel_draft(tpl, draft)
}

/// The panels that are not at `at`.
pub open spec fn without_slot(cells: Seq<Cell>, at: Slot) -> Seq<Cell> {
    cells.filter(|c: Cell| slot_of(c) != at)
}

/// Take every panel at `(row, col)` out.
pub fn remove_cell_at(tpl: &mut Template, row: usize, col: usize) -> (r: Result<(), String>)
    ensures
        final(tpl).cells@ == without_slot(old(tpl).cells@, (row, col)),
        *final(tpl) == (Template { cells: final(tpl).cells, ..*old(tpl) }),
        r is Ok <==> old(tpl).occupied((row, col)),
        match r {
            Ok(_) => final(tpl).cells.len() < old(tpl).cells.len(),
            Err(e) => e@ == slot_sentence("no cell at ("@, row, ", "@, col, ")"@)
                && final(tpl).cells@ == old(tpl).cells@,
        },
        !final(tpl).occupied((row, col)),
{
    let ghost all = tpl.cells@;
    let ghost at: Slot = (row, col);
    let ghost away = |c: Cell| slot_of(c) != at;
    let ghost mut seen: int = 0;
    let mut gone: bool = false;
    let mut i: usize = 0;
    proof {
        reveal(Seq::filter);
        assert(all.take(0).filter(away) + all.skip(0) =~= all);
    }
    while i < tpl.cells.len()
        invariant
            0 <= seen <= all.len(),
            at == (row, col),
            away == (|c: Cell| slot_of(c) != at),
            tpl.cells@ == all.take(seen).filter(away) + all.skip(seen),
            i == all.take(seen).filter(away).len(),
            gone <==> exists|k: int| 0 <= k < seen && slot_of(#[trigger] all[k]) == at,
            gone <==> i < seen,
            i <= seen,
            *tpl == (Template { cells: tpl.cells, ..*old(tpl) }),
        decreases tpl.cells.len() - i,
    {
        proof {
            reveal(Seq::filter);
            assert(tpl.cells@[i as int] == all[seen]);
            assert(all.take(seen + 1).drop_last() =~= all.take(seen));
            assert(all.take(seen + 1).last() == all[seen]);
        }
        if tpl.cells[i].row == row && tpl.cells[i].col == col {
            let _dropped = tpl.cells.remove(i);
            proof {
                assert(slot_of(all[seen]) == at);
                assert(tpl.cells@ =~= all.take(seen + 1).filter(away) + all.skip(seen + 1));
            }
            gone = true;
        } else {
            proof {
                assert(tpl.cells@ =~= all.take(seen + 1).filter(away) + all.skip(seen + 1));
            }
            i = i + 1;
        }
        proof {
            seen = seen + 1;
        }
    }
    proof {
        assert(all.skip(seen).len() == 0);
        assert(all.take(seen) =~= all);
        assert(tpl.cells@ =~= all.filter(away));
        if tpl.occupied(at) {
            let k = choose|k: int| 0 <= k < tpl.cells.len() && slot_of(#[trigger] tpl.cells@[k]) == at;
            lemma_filtered(all, away, k);
        }
        if old(tpl).occupied(at) {
            let k = choose|k: int| 0 <= k < all.len() && slot_of(#[trigger] all[k]) == at;
        }
    }
    if gone {
        Ok(())
    } else {
        proof {
            lemma_filter_all(all, away);
        }
        Err(say_slot("no cell at (", row, ", ", col, ")"))
    }
}

/// What a filter lets through meets it.
proof fn lemma_filtered(s: Seq<Cell>, f: spec_fn(Cell) -> bool, k: int)
    requires
        0 <= k < s.filter(f).len(),
    ensures
        f(s.filter(f)[k]),
    decreases s.len(),
{
    reveal(Seq::filter);
    if s.len() > 0 {
        let t = s.drop_last();
        if k < t.filter(f).len() {
            lemma_filtered(t, f, k);
        }
    }
}

/// Filtering by what all items meet changes nothing.
proof fn lemma_filter_all(s: Seq<Cell>, f: spec_fn(Cell) -> bool)
    requires
        forall|i: int| 0 <= i < s.len() ==> f(#[trigger] s[i]),
    ensures
        s.filter(f) == s,
    decreases s.len(),
{
    reveal(Seq::filter);
    if s.len() > 0 {
        lemma_filter_all(s.drop_last(), f);
        assert(s.drop_last().push(s.last()) =~= s);
    }
}

// ---------------------------------------------------------------- compaction

/// The slot of a panel, as a sort key.
pub open spec fn cell_slot() -> spec_fn(Cell) -> Slot {
    |c: Cell| slot_of(c)
}

/// Panels set one behind the other into rows of `cols` slots.
pub open spec fn packed(cells: Seq<Cell>, cols: int) -> Seq<Cell> {
    Seq::new(
        cells.len(),
        |i: int| Cell { row: (i / cols) as usize, col: (i % cols) as usize, ..cells[i] },
    )
}

/// The number of rows that `n` panels take, at least one.
pub open spec fn rows_for(n: int, cols: int) -> int {
    if n == 0 {
        1
    } else {
        (n - 1) / cols + 1
    }
}

/// The column count that compaction goes by: at least one.
pub open spec fn width(g: Grid) -> int {
    if g.cols == 0 {
        1
    } else {
        g.cols as int
    }
}

/// The panels of a grid after compaction: in reading order, with no gaps.
pub open spec fn compacted(cells: Seq<Cell>, cols: int) -> Seq<Cell> {
    packed(by_slot(cells, cell_slot()), cols)
}

/// Sort panels by slot; those in one slot keep their order.
fn sort_cells(cells: &mut Vec<Cell>)
    ensures
        final(cells)@ == by_slot(old(cells)@, cell_slot()),
{
    let ghost all = cells@;
    let mut i: usize = 0;
    proof {
        assert(by_slot(all.take(0), cell_slot()) + all.skip(0) =~= all);
    }
    while i < cells.len()
        invariant
            i <= cells.len() == all.len(),
            cells@ == by_slot(all.take(i as int), cell_slot()) + all.skip(i as int),
            by_slot(all.take(i as int), cell_slot()).len() == i,
        decreases cells.len() - i,
    {
        let ghost done = by_slot(all.take(i as int), cell_slot());
        proof {
            assert(all.take(i + 1).drop_last() =~= all.take(i as int));
            assert(all.take(i + 1).last() == all[i as int]);
            by_slot_sorts(all.take(i as int), cell_slot());
            by_slot_sorts(all.take(i + 1), cell_slot());
        }
        let c = cells.remove(i);
        let mut j: usize = i;
        proof {
            assert(c == all[i as int]);
            assert(cells@ =~= done + all.skip(i + 1));
        }
        while j > 0 && !at_or_before((cells[j - 1].row, cells[j - 1].col), (c.row, c.col))
            invariant
                j <= i,
                i == done.len(),
                i < all.len(),
                cells@ == done + all.skip(i + 1),
                forall|k: int|
                    j <= k < i ==> !slot_le(slot_of(#[trigger] done[k]), slot_of(c)),
            decreases j,
        {
            proof {
                assert(cells@[j - 1] == done[j - 1]);
            }
            j = j - 1;
        }
        proof {
            if j > 0 {
                assert(cells@[j - 1] == done[j - 1]);
            }
            put_in_at(done, c, cell_slot(), j as int);
            assert((done + all.skip(i + 1)).insert(j as int, c) =~= done.insert(j as int, c)
                + all.skip(i + 1));
        }
        cells.insert(j, c);
        i = i + 1;
    }
    proof {
        assert(all.take(i as int) =~= all);
        assert(cells@ =~= by_slot(all, cell_slot()));
    }
}

/// Set the panels into the grid in reading order with no gaps, and cut the rows
/// to what they take. The number of columns stays.
pub fn compact_cells(tpl: &mut Template)
    ensures
        final(tpl).cells@ == compacted(old(tpl).cells@, width(old(tpl).grid)),
        final(tpl).grid.cols == old(tpl).grid.cols,
        final(tpl).grid.rows == rows_for(old(tpl).cells.len() as int, width(old(tpl).grid)),
        *final(tpl) == (Template { cells: final(tpl).cells, grid: final(tpl).grid, ..*old(tpl) }),
{
    let cols: usize = if tpl.grid.cols == 0 {
        1
    } else {
        tpl.grid.cols
    };
    proof {
        by_slot_sorts(tpl.cells@, cell_slot());
    }
    sort_cells(&mut tpl.cells);
    let ghost sorted = tpl.cells@;
    let ghost mid = *tpl;
    let n: usize = tpl.cells.len();
    let mut i: usize = 0;
    while i < n
        invariant
            i <= n == tpl.cells.len() == sorted.len(),
            cols > 0,
            forall|k: int|
                0 <= k < i ==> #[trigger] tpl.cells@[k] == packed(sorted, cols as int)[k],
            forall|k: int| i <= k < n ==> #[trigger] tpl.cells@[k] == sorted[k],
            *tpl == (Template { cells: tpl.cells, ..mid }),
        decreases n - i,
    {
        tpl.cells[i].row = i / cols;
        tpl.cells[i].col = i % cols;
        i = i + 1;
    }
    proof {
        assert(tpl.cells@ =~= packed(sorted, cols as int));
        if n > 0 {
            assert((n - 1) / cols as int <= n - 1) by (nonlinear_arith)
                requires
                    n >= 1,
                    cols >= 1,
            ;
        }
    }
    tpl.grid.rows = if n == 0 {
        1
    } else {
        (n - 1) / cols + 1
    };
}

// ---------------------------------------------------------------- moving panels

/// What is said of a destination that is taken.
pub open spec fn destination_sentence(row: usize, col: usize) -> Seq<char> {
    slot_sentence(
        "destination ("@,
        row,
        ", "@,
        col,
        ") is already occupied; delete that cell first"@,
    )
}

/// Replace what is at `(row, col)` by the panel that `draft` describes, which may
/// name another slot. A slot other than `(row, col)` must be free; if it is not,
/// nothing changes. What was at `(row, col)` goes even where the draft turns out
/// to be faulty.
pub fn replace_cell_at(tpl: &mut Template, row: usize, col: usize, draft: &PanelDraft) -> (r: Result<
    (),
    String,
>)
    ensures
        ({
            let blocked = (draft.row, draft.col) != (row, col) && old(tpl).occupied(
                (draft.row, draft.col),
            );
            let kept = without_slot(old(tpl).cells@, (row, col));
            match r {
                Err(e) => if blocked {
                    e@ == destination_sentence(draft.row, draft.col) && *final(tpl) == *old(tpl)
                } else {
                    &&& draft_fault(*draft) == Some(e@)
                    &&& final(tpl).cells@ == kept
                    &&& *final(tpl) == (Template { cells: final(tpl).cells, ..*old(tpl) })
                },
                Ok(_) => {
                    &&& !blocked
                    &&& draft_fault(*draft) is None
                    &&& final(tpl).cells.len() == kept.len() + 1
                    &&& drafted(final(tpl).cells@.last(), *draft)
                    &&& final(tpl).cells@ == kept.push(final(tpl).cells@.last())
                    &&& *final(tpl) == (Template {
                        grid: grown(old(tpl).grid, draft.row, draft.col),
                        cells: final(tpl).cells,
                        ..*old(tpl)
                    })
                },
            }
        }),
{
    let relocating = draft.row != row || draft.col != col;
    if relocating && tpl.is_occupied((draft.row, draft.col)) {
        return Err(
            say_slot(
                "destination (",
                draft.row,
                ", ",
                draft.col,
                ") is already occupied; delete that cell first",
            ),
        );
    }
    let _ = remove_cell_at(tpl, row, col);
    apply_panel_draft(tpl, draft)
}

/// A panel moved to another slot.
pub open spec fn moved(c: Cell, to: Slot) -> Cell {
    Cell { row: to.0, col: to.1, ..c }
}

/// Is `i` the first panel at `at`?
pub open spec fn first_in(cells: Seq<Cell>, at: Slot, i: int) -> bool {
    &&& 0 <= i < cells.len()
    &&& slot_of(cells[i]) == at
    &&& forall|k: int| 0 <= k < i ==> slot_of(#[trigger] cells[k]) != at
}

/// Panels `i` and `j` with their slots exchanged.
pub open spec fn exchanged(cells: Seq<Cell>, i: int, j: int) -> Seq<Cell> {
    cells.update(i, moved(cells[i], slot_of(cells[j]))).update(j, moved(cells[j], slot_of(cells[i])))
}

/// What is said of a slot without a panel.
pub open spec fn nothing_sentence(at: Slot) -> Seq<char> {
    slot_sentence("no cell at ("@, at.0, ", "@, at.1, ")"@)
}

/// Exchange the slots of the first panel at `a` and the first panel at `b`. Both
/// must hold one, unless they are the same slot.
pub fn swap_cells(tpl: &mut Template, a: (usize, usize), b: (usize, usize)) -> (r: Result<(), String>)
    ensures
        *final(tpl) == (Template { cells: final(tpl).cells, ..*old(tpl) }),
        match r {
            Err(e) => {
                &&& a != b
                &&& *final(tpl) == *old(tpl)
                &&& if !old(tpl).occupied(a) {
                    e@ == nothing_sentence(a)
                } else {
                    !old(tpl).occupied(b) && e@ == nothing_sentence(b)
                }
            },
            Ok(_) => if a == b {
                *final(tpl) == *old(tpl)
            } else {
                exists|i: int, j: int|
                    #![trigger exchanged(old(tpl).cells@, i, j)]
                    {
                        &&& first_in(old(tpl).cells@, a, i)
                        &&& first_in(old(tpl).cells@, b, j)
                        &&& final(tpl).cells@ == exchanged(old(tpl).cells@, i, j)
                    }
            },
        },
{
    if a.0 == b.0 && a.1 == b.1 {
        return Ok(());
    }
    let ghost before = tpl.cells@;
    let ai: usize = match tpl.first_at(a) {
        Some(i) => i,
        None => {
            return Err(say_slot("no cell at (", a.0, ", ", a.1, ")"));
        },
    };
    let bi: usize = match tpl.first_at(b) {
        Some(i) => i,
        None => {
            return Err(say_slot("no cell at (", b.0, ", ", b.1, ")"));
        },
    };
    tpl.cells[ai].row = b.0;
    tpl.cells[ai].col = b.1;
    tpl.cells[bi].row = a.0;
    tpl.cells[bi].col = a.1;
    proof {
        assert(first_in(before, a, ai as int));
        assert(first_in(before, b, bi as int));
        assert(tpl.cells@ =~= exchanged(before, ai as int, bi as int));
    }
    Ok(())
}

/// What is said of a slot that should be empty.
pub open spec fn blocked_sentence(at: Slot) -> Seq<char> {
    slot_sentence("destination ("@, at.0, ", "@, at.1, ") is occupied"@)
}

/// Move the first panel at `from` to the free slot `to`, and grow the grid where
/// that lies outside it.
pub fn relocate_cell(tpl: &mut Template, from: (usize, usize), to: (usize, usize)) -> (r: Result<
    (),
    String,
>)
    requires
        to.0 < usize::MAX,
        to.1 < usize::MAX,
    ensures
        match r {
            Err(e) => {
                &&& from != to
                &&& *final(tpl) == *old(tpl)
                &&& if old(tpl).occupied(to) {
                    e@ == blocked_sentence(to)
                } else {
                    !old(tpl).occupied(from) && e@ == nothing_sentence(from)
                }
            },
            Ok(_) => if from == to {
                *final(tpl) == *old(tpl)
            } else {
                &&& !old(tpl).occupied(to)
                &&& *final(tpl) == (Template {
                    grid: grown(old(tpl).grid, to.0, to.1),
                    cells: final(tpl).cells,
                    ..*old(tpl)
                })
                &&& exists|i: int|
                    #![trigger first_in(old(tpl).cells@, from, i)]
                    first_in(old(tpl).cells@, from, i) && final(tpl).cells@
                        == old(tpl).cells@.update(i, moved(old(tpl).cells@[i], to))
            },
        },
{
    if from.0 == to.0 && from.1 == to.1 {
        return Ok(());
    }
    if tpl.is_occupied(to) {
        return Err(say_slot("destination (", to.0, ", ", to.1, ") is occupied"));
    }
    let idx: usize = match tpl.first_at(from) {
        Some(i) => i,
        None => {
            return Err(say_slot("no cell at (", from.0, ", ", from.1, ")"));
        },
    };
    let ghost before = tpl.cells@;
    tpl.cells[idx].row = to.0;
    tpl.cells[idx].col = to.1;
    proof {
        assert(first_in(before, from, idx as int));
        assert(tpl.cells@ =~= before.update(idx as int, moved(before[idx as int], to)));
    }
    if to.0 >= tpl.grid.rows {
        tpl.grid.rows = to.0 + 1;
    }
    if to.1 >= tpl.grid.cols {
        tpl.grid.cols = to.1 + 1;
    }
    Ok(())
}

// ---------------------------------------------------------------- laws

/// Compaction keeps every panel, in the order in which the grid showed them, and
/// gives each a slot of its own in reading order.
pub proof fn compaction_keeps_the_panels(cells: Seq<Cell>, cols: int)
    requires
        0 < cols <= usize::MAX,
        cells.len() <= usize::MAX,
    ensures
        compacted(cells, cols).len() == cells.len(),
        by_slot(cells, cell_slot()).to_multiset() == cells.to_multiset(),
        in_slot_order(by_slot(cells, cell_slot()), cell_slot()),
        forall|i: int|
            0 <= i < cells.len() ==> #[trigger] compacted(cells, cols)[i] == moved(
                by_slot(cells, cell_slot())[i],
                ((i / cols) as usize, (i % cols) as usize),
            ),
        in_slot_order(compacted(cells, cols), cell_slot()),
        forall|i: int, j: int|
            0 <= i < j < cells.len() ==> slot_of(#[trigger] compacted(cells, cols)[i]) != slot_of(
                #[trigger] compacted(cells, cols)[j],
            ),
{
    by_slot_sorts(cells, cell_slot());
    let c = compacted(cells, cols);
    assert forall|i: int, j: int| 0 <= i < j < c.len() implies slot_le(
        slot_of(#[trigger] c[i]),
        slot_of(#[trigger] c[j]),
    ) && slot_of(c[i]) != slot_of(c[j]) by {
        lemma_reading_order(i, j, cols);
    }
}

/// Reading order of positions is slot order.
pub(crate) proof fn lemma_reading_order(i: int, j: int, cols: int)
    requires
        0 <= i < j <= usize::MAX,
        0 < cols <= usize::MAX,
    ensures
        0 <= i / cols <= i,
        0 <= i % cols < cols,
        0 <= j / cols <= j,
        0 <= j % cols < cols,
        i / cols < j / cols || (i / cols == j / cols && i % cols < j % cols),
{
    assert(0 <= i / cols <= i && 0 <= j / cols <= j) by (nonlinear_arith)
        requires
            0 <= i < j,
            0 < cols,
    ;
    vstd::arithmetic::div_mod::lemma_fundamental_div_mod(i, cols);
    vstd::arithmetic::div_mod::lemma_fundamental_div_mod(j, cols);
    vstd::arithmetic::div_mod::lemma_div_is_ordered(i, j, cols);
}

/// Compacting a compacted grid changes nothing.
pub proof fn compaction_is_idempotent(cells: Seq<Cell>, cols: int)
    requires
        0 < cols <= usize::MAX,
        cells.len() <= usize::MAX,
    ensures
        compacted(compacted(cells, cols), cols) == compacted(cells, cols),
{
    compaction_keeps_the_panels(cells, cols);
    let c = compacted(cells, cols);
    by_slot_keeps_order(c, cell_slot());
    assert(packed(c, cols) =~= c);
}

/// Exchanging two slots twice puts all panels back, where no other panel of the
/// two slots stands before those exchanged.
pub proof fn swapping_twice_restores(cells: Seq<Cell>, a: Slot, b: Slot, i: int, j: int)
    requires
        a != b,
        first_in(cells, a, i),
        first_in(cells, b, j),
        forall|k: int| 0 <= k < j && k != i ==> slot_of(#[trigger] cells[k]) != a,
        forall|k: int| 0 <= k < i && k != j ==> slot_of(#[trigger] cells[k]) != b,
    ensures
        first_in(exchanged(cells, i, j), a, j),
        first_in(exchanged(cells, i, j), b, i),
        exchanged(exchanged(cells, i, j), j, i) == cells,
{
    let s = exchanged(cells, i, j);
    assert(exchanged(s, j, i) =~= cells);
}

/// A draft at the first free slot is never refused for its slot, unless the grid
/// is full at its largest.
pub proof fn first_free_slot_is_accepted(tpl: Template, d: PanelDraft)
    requires
        d.row <= tpl.grid.rows,
        d.row < tpl.grid.rows ==> d.col < tpl.grid.cols && !tpl.occupied((d.row, d.col)),
        d.row == tpl.grid.rows ==> d.col == 0,
        forall|i: int| 0 <= i < tpl.cells.len() ==> (#[trigger] tpl.cells@[i]).row < tpl.grid.rows,
        tpl.grid.rows < MAX_GRID_DIM,
        tpl.grid.cols <= MAX_GRID_DIM,
        trimmed(d.source_key@).len() > 0,
        d.primitive == Primitive::Diff ==> trimmed(d.minus@).len() > 0,
    ensures
        !tpl.occupied((d.row, d.col)),
        draft_fault(d) is None,
{
}

/// Taking the panel out that was added to a free slot gives the panels as they were.
pub proof fn removing_undoes_adding(tpl: Template, added: Cell)
    requires
        !tpl.occupied(slot_of(added)),
    ensures
        without_slot(tpl.cells@.push(added), slot_of(added)) == tpl.cells@,
{
    let away = |c: Cell| slot_of(c) != slot_of(added);
    reveal(Seq::filter);
    let all = tpl.cells@.push(added);
    assert(all.drop_last() =~= tpl.cells@);
    lemma_filter_all(tpl.cells@, away);
}

/// Moving a panel to a free slot and back gives the panels as they were, where no
/// other panel shares its slot.
pub proof fn moving_back_restores(cells: Seq<Cell>, from: Slot, to: Slot, i: int)
    requires
        from != to,
        first_in(cells, from, i),
        forall|k: int| 0 <= k < cells.len() ==> slot_of(#[trigger] cells[k]) != to,
        forall|k: int| 0 <= k < cells.len() && k != i ==> slot_of(#[trigger] cells[k]) != from,
    ensures
        ({
            let there = cells.update(i, moved(cells[i], to));
            &&& first_in(there, to, i)
            &&& forall|k: int| 0 <= k < there.len() ==> slot_of(#[trigger] there[k]) != from
            &&& there.update(i, moved(there[i], from)) == cells
        }),
{
    let there = cells.update(i, moved(cells[i], to));
    assert(there.update(i, moved(there[i], from)) =~= cells);
}

} // verus!
