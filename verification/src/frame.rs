//! What a frame of the grid came to: how many panels it showed and how many of them
//! had data.
use vstd::prelude::*;

use crate::layout::{is_paintable, paintable, Arrangement};
use crate::plot::{
    components_with_points, count_keys_with_data, has_data, lines_of, norm_len, plot_lines, refers,
    source_points, store_of, with_points, PlotLine,
};
use crate::keymap::{ascending, SlotMap};
use crate::status::{has_status, status_body};
use crate::store::{shorter, StoresView, TraceStore};
use crate::template::{Cell, Primitive, Template};

verus! {

/// What a frame of the grid came to.
#[derive(Clone, Copy, Debug, PartialEq, Eq, Structural)]
pub struct GridStats {
    /// Panels that were shown.
    pub panels: usize,
    /// Panels that had data.
    pub panels_with_data: usize,
    /// Keys with data, of those that the template refers to.
    pub keys_with_data: usize,
}

impl Default for GridStats {
    fn default() -> (r: GridStats)
        ensures
            r == (GridStats { panels: 0, panels_with_data: 0, keys_with_data: 0 }),
    {
        GridStats { panels: 0, panels_with_data: 0, keys_with_data: 0 }
    }
}

/// The store that a status panel reads from: that of its first source, else that on
/// view.
pub open spec fn status_store(view: StoresView, c: Cell) -> TraceStore {
    if c.sources.len() > 0 {
        store_of(view, c.sources@[0])
    } else {
        view.on_view()
    }
}

/// Does a panel plot anything?
pub open spec fn plots(view: StoresView, c: Cell) -> bool {
    let src = c.sources@[0];
    match c.primitive {
        Primitive::Scalar | Primitive::Overlay => with_points(
            view,
            c.sources@,
            c.sources.len() as int,
        ).len() > 0,
        Primitive::Status | Primitive::StatusBadge | Primitive::InfoText => false,
        _ => c.sources.len() > 0 && match c.primitive {
            Primitive::Vector | Primitive::AttitudeRpy => components_with_points(
                view,
                src,
                3,
            ).len() > 0,
            Primitive::MagInterference => components_with_points(view, src, 3).len() > 0 || norm_len(
                view,
                src,
            ) > 0,
            Primitive::Magnitude => norm_len(view, src) > 0,
            _ => match src.minus {
                None => source_points(view, src).len() > 0,
                Some(m) => shorter(
                    store_of(view, src).series(src.key@).len(),
                    store_of(view, src).series(m@).len(),
                ) > 0,
            },
        },
    }
}

/// Does a panel have data?
pub open spec fn panel_has_data(view: StoresView, c: Cell) -> bool {
    if c.primitive == Primitive::Status {
        has_status(c, status_store(view, c))
    } else {
        plots(view, c)
    }
}

proof fn lemma_lines(ls: Seq<PlotLine>, view: StoresView, c: Cell)
    requires
        lines_of(ls, view, c),
    ensures
        ls.len() > 0 <==> plots(view, c),
{
}

/// Does a panel have data?
pub fn has_panel_data(cell: &Cell, view: &StoresView) -> (r: bool)
    requires
        view.wf(),
        cell.color_map.wf(),
    ensures
        r == panel_has_data(*view, *cell),
{
    let status = match cell.primitive {
        Primitive::Status => true,
        _ => false,
    };
    if status {
        let store = if cell.sources.len() > 0 {
            view.for_source(&cell.sources[0])
        } else {
            view.view_store()
        };
        let (_, has) = status_body(cell, store, "");
        has
    } else {
        let lines = plot_lines(cell, view);
        proof {
            lemma_lines(lines@, *view, *cell);
        }
        lines.len() > 0
    }
}

/// Did the operator leave slot `i` of the window on? Where panels are set anew, those
/// that are hidden have no slot.
pub open spec fn slot_on(a: Arrangement, visibility: SlotMap<bool>, compact: bool, i: int) -> bool {
    let at = ((i / a.cols as int) as usize, (i % a.cols as int) as usize);
    compact || (visibility@.contains_key(at) ==> visibility@[at])
}

/// Is the panel in slot `i` shown?
pub open spec fn slot_shown(
    a: Arrangement,
    tpl: Template,
    visibility: SlotMap<bool>,
    compact: bool,
    i: int,
) -> bool {
    a.at@[i] is Some && paintable(tpl.cells@[a.at@[i]->0 as int]) && slot_on(
        a,
        visibility,
        compact,
        i,
    )
}

/// The panels shown in the first `n` slots, and those of them with data. The panel
/// that is being dragged is not asked for data.
pub open spec fn shown_upto(
    a: Arrangement,
    tpl: Template,
    visibility: SlotMap<bool>,
    compact: bool,
    view: StoresView,
    dragged: Option<usize>,
    n: int,
) -> (nat, nat)
    decreases n,
{
    if n <= 0 {
        (0, 0)
    } else {
        let (p, d) = shown_upto(a, tpl, visibility, compact, view, dragged, n - 1);
        if !slot_shown(a, tpl, visibility, compact, n - 1) {
            (p, d)
        } else if dragged != Some((n - 1) as usize) && panel_has_data(
            view,
            tpl.cells@[a.at@[n - 1]->0 as int],
        ) {
            (p + 1, d + 1)
        } else {
            (p + 1, d)
        }
    }
}

/// What a frame of the grid came to. `dragged` is the slot of the panel that is being
/// dragged.
pub fn grid_stats(
    tpl: &Template,
    a: &Arrangement,
    visibility: &SlotMap<bool>,
    compact: bool,
    view: &StoresView,
    dragged: Option<usize>,
) -> (r: GridStats)
    requires
        view.wf(),
        tpl.wf(),
        visibility.wf(),
        a.cols > 0,
        forall|i: int|
            0 <= i < a.at.len() ==> ((#[trigger] a.at@[i]) is Some ==> a.at@[i]->0 < tpl.cells.len()),
    ensures
        (r.panels as nat, r.panels_with_data as nat) == shown_upto(
            *a,
            *tpl,
            *visibility,
            compact,
            *view,
            dragged,
            a.at.len() as int,
        ),
        exists|ks: Seq<Seq<char>>|
            #![trigger ascending(ks)]
            {
                &&& ascending(ks)
                &&& forall|k: Seq<char>| #[trigger] ks.contains(k) <==> refers(*tpl, k)
                &&& r.keys_with_data == ks.filter(
                    |k: Seq<char>| has_data(view.on_view(), k),
                ).len()
            },
{
    let mut panels: usize = 0;
    let mut with_data: usize = 0;
    let mut i: usize = 0;
    while i < a.at.len()
        invariant
            i <= a.at.len(),
            view.wf(),
            tpl.wf(),
            visibility.wf(),
            a.cols > 0,
            forall|i: int|
                0 <= i < a.at.len() ==> ((#[trigger] a.at@[i]) is Some ==> a.at@[i]->0
                    < tpl.cells.len()),
            (panels as nat, with_data as nat) == shown_upto(
                *a,
                *tpl,
                *visibility,
                compact,
                *view,
                dragged,
                i as int,
            ),
            with_data <= panels <= i,
        decreases a.at.len() - i,
    {
        match a.at[i] {
            Some(k) => {
                let on = compact || match visibility.get((i / a.cols, i % a.cols)) {
                    Some(v) => *v,
                    None => true,
                };
                if is_paintable(&tpl.cells[k]) && on {
                    panels = panels + 1;
                    let is_dragged = match dragged {
                        Some(d) => d == i,
                        None => false,
                    };
                    proof {
                        assert(crate::template::cell_wf(tpl.cells@[k as int]));
                    }
                    if !is_dragged && has_panel_data(&tpl.cells[k], view) {
                        with_data = with_data + 1;
                    }
                }
            },
            None => {},
        }
        i = i + 1;
    }
    let store = view.view_store();
    let keys: usize = count_keys_with_data(tpl, store);
    GridStats { panels, panels_with_data: with_data, keys_with_data: keys }
}

} // verus!
