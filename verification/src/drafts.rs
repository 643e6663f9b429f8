//! Drafts of trails, drafts made from panels that exist, and the source that a
//! panel reads from.
use vstd::prelude::*;

use crate::editor::{
    color_rows, draft_fault, drafted, drafted_extras, drafted_source, row_texts, stated,
    stated_keys, text_map, PanelDraft,
};
use crate::keymap::{ascending_distinct, ascending_unique, KeyMap};
use crate::template::{
    same_cell, same_source, slot_of, text_entries, Cell, CellSource, Primitive, StatusKind,
    Template, Trail3d, Trail3dDeadreckon, Trail3dSources, View3d,
};
use crate::text::{is_blank, owned, texts, trim, trim_twice, trimmed};

verus! {

// ---------------------------------------------------------------- trails

/// Draft of a trail, as the form fills it in.
#[derive(Clone, Debug)]
pub struct TrailDraft {
    pub name: String,
    pub label: String,
    pub color: String,
    /// Integrate acceleration and attitude instead of reading positions.
    pub use_deadreckon: bool,
    pub x_key: String,
    pub y_key: String,
    pub z_neg_key: String,
    pub accel_key: String,
    pub quat_key: String,
    pub seed_key: String,
}

impl Default for TrailDraft {
    fn default() -> (r: TrailDraft)
        ensures
            r.name@ == Seq::<char>::empty(),
            r.label@ == Seq::<char>::empty(),
            r.color@ == Seq::<char>::empty(),
            !r.use_deadreckon,
            r.x_key@ == Seq::<char>::empty(),
            r.y_key@ == Seq::<char>::empty(),
            r.z_neg_key@ == Seq::<char>::empty(),
            r.accel_key@ == Seq::<char>::empty(),
            r.quat_key@ == Seq::<char>::empty(),
            r.seed_key@ == Seq::<char>::empty(),
    {
        TrailDraft {
            name: String::new(),
            label: String::new(),
            color: String::new(),
            use_deadreckon: false,
            x_key: String::new(),
            y_key: String::new(),
            z_neg_key: String::new(),
            accel_key: String::new(),
            quat_key: String::new(),
            seed_key: String::new(),
        }
    }
}

/// Is `s` white space only?
pub open spec fn blank(s: String) -> bool {
    trimmed(s@).len() == 0
}

/// What is wrong with a trail draft, if anything is.
pub open spec fn trail_fault(d: TrailDraft) -> Option<Seq<char>> {
    if blank(d.name) {
        Some("trail name must not be empty"@)
    } else if d.use_deadreckon && (blank(d.accel_key) || blank(d.quat_key) || blank(d.seed_key)) {
        Some("dead-reckon trail requires accel + quat + seed keys"@)
    } else if !d.use_deadreckon && (blank(d.x_key) || blank(d.y_key) || blank(d.z_neg_key)) {
        Some("direct trail requires x + y + z_neg keys"@)
    } else {
        None
    }
}

/// Is `t` the trail that a draft describes?
pub open spec fn drafted_trail(t: Trail3d, d: TrailDraft) -> bool {
    &&& t.name@ == trimmed(d.name@)
    &&& t.label@ == if d.label@.len() == 0 {
        trimmed(d.name@)
    } else {
        d.label@
    }
    &&& t.color@ == d.color@
    &&& t.sources is Some <==> !d.use_deadreckon
    &&& t.deadreckon is Some <==> d.use_deadreckon
    &&& t.sources is Some ==> {
        &&& t.sources->0.x@ == trimmed(d.x_key@)
        &&& t.sources->0.y@ == trimmed(d.y_key@)
        &&& t.sources->0.z_neg@ == trimmed(d.z_neg_key@)
    }
    &&& t.deadreckon is Some ==> {
        &&& t.deadreckon->0.accel@ == trimmed(d.accel_key@)
        &&& t.deadreckon->0.quat@ == trimmed(d.quat_key@)
        &&& t.deadreckon->0.seed_from@ == trimmed(d.seed_key@)
    }
}

/// The trails of a template; none without a 3D view.
pub open spec fn trails_of(t: Template) -> Seq<Trail3d> {
    match t.view_3d {
        Some(v) => v.trails@,
        None => Seq::empty(),
    }
}

/// Put the trail that `draft` describes behind the others; a template without a
/// 3D view gets the default one first.
pub fn apply_trail_draft(tpl: &mut Template, draft: &TrailDraft) -> (r: Result<(), String>)
    ensures
        match r {
            Err(e) => trail_fault(*draft) == Some(e@) && *final(tpl) == *old(tpl),
            Ok(_) => {
                &&& trail_fault(*draft) is None
                &&& final(tpl).view_3d is Some
                &&& final(tpl).view_3d->0.trails.len() == trails_of(*old(tpl)).len() + 1
                &&& drafted_trail(final(tpl).view_3d->0.trails@.last(), *draft)
                &&& final(tpl).view_3d->0.trails@ == trails_of(*old(tpl)).push(
                    final(tpl).view_3d->0.trails@.last(),
                )
                &&& match old(tpl).view_3d {
                    Some(v) => final(tpl).view_3d->0.title == v.title
                        && final(tpl).view_3d->0.trail_slider_initial == v.trail_slider_initial,
                    None => final(tpl).view_3d->0.title@ == Seq::<char>::empty()
                        && final(tpl).view_3d->0.trail_slider_initial.bits
                        == 0x3FD0_0000_0000_0000,
                }
                &&& *final(tpl) == (Template { view_3d: final(tpl).view_3d, ..*old(tpl) })
            },
        },
{
    if is_blank(draft.name.as_str()) {
        return Err(owned("trail name must not be empty"));
    }
    if draft.use_deadreckon {
        if is_blank(draft.accel_key.as_str()) || is_blank(draft.quat_key.as_str()) || is_blank(
            draft.seed_key.as_str(),
        ) {
            return Err(owned("dead-reckon trail requires accel + quat + seed keys"));
        }
    } else if is_blank(draft.x_key.as_str()) || is_blank(draft.y_key.as_str()) || is_blank(
        draft.z_neg_key.as_str(),
    ) {
        return Err(owned("direct trail requires x + y + z_neg keys"));
    }
    let trail = Trail3d {
        name: owned(trim(draft.name.as_str())),
        label: if draft.label.as_str().is_empty() {
            owned(trim(draft.name.as_str()))
        } else {
            draft.label.clone()
        },
        color: draft.color.clone(),
        sources: if draft.use_deadreckon {
            None
        } else {
            Some(
                Trail3dSources {
                    x: owned(trim(draft.x_key.as_str())),
                    y: owned(trim(draft.y_key.as_str())),
                    z_neg: owned(trim(draft.z_neg_key.as_str())),
                },
            )
        },
        deadreckon: if draft.use_deadreckon {
            Some(
                Trail3dDeadreckon {
                    accel: owned(trim(draft.accel_key.as_str())),
                    quat: owned(trim(draft.quat_key.as_str())),
                    seed_from: owned(trim(draft.seed_key.as_str())),
                },
            )
        } else {
            None
        },
    };
    let mut view = match tpl.view_3d.take() {
        Some(v) => v,
        None => View3d::default(),
    };
    view.trails.push(trail);
    tpl.view_3d = Some(view);
    Ok(())
}

// ---------------------------------------------------------------- from a panel

/// The text, or nothing.
pub open spec fn text_or(o: Option<String>, other: Seq<char>) -> Seq<char> {
    match o {
        Some(s) => s@,
        None => other,
    }
}

/// A copy of the text, or of `other`.
pub fn copy_or(o: &Option<String>, other: &str) -> (r: String)
    ensures
        r@ == text_or(*o, other@),
{
    match o {
        Some(s) => s.clone(),
        None => owned(other),
    }
}

/// The colour that a panel's draft starts with.
pub open spec fn color_of(c: Cell) -> Seq<char> {
    if c.sources.len() > 0 && c.sources@[0].color@.len() > 0 {
        c.sources@[0].color@
    } else {
        text_or(c.color, "#1f77b4"@)
    }
}

/// The keys of a panel's further sources.
pub open spec fn extra_keys_of(c: Cell) -> Seq<Seq<char>> {
    if c.sources.len() == 0 {
        Seq::empty()
    } else {
        c.sources@.drop_first().map_values(|s: CellSource| s.key@)
    }
}

/// Is `d` the draft that editing panel `c` starts with?
pub open spec fn draft_of(d: PanelDraft, c: Cell) -> bool {
    let none = Seq::<char>::empty();
    let has = c.sources.len() > 0;
    let first = c.sources@[0];
    &&& (d.row, d.col) == slot_of(c)
    &&& d.primitive == c.primitive
    &&& d.title@ == c.title@
    &&& d.source_key@ == if c.primitive == Primitive::Status && c.source@.len() > 0 {
        c.source@
    } else if has {
        first.key@
    } else {
        none
    }
    &&& d.source_uri@ == if has { text_or(first.source_uri, none) } else { none }
    &&& d.source_drone@ == if has { text_or(first.source_drone, none) } else { none }
    &&& d.fallback@ == if has { text_or(first.fallback, none) } else { none }
    &&& d.minus@ == if has { text_or(first.minus, none) } else { none }
    &&& d.color@ == color_of(c)
    &&& d.label_mode == c.label_mode
    &&& texts(d.overlay_extra_keys@) == extra_keys_of(c)
    &&& d.status_kind == match c.kind {
        Some(k) => k,
        None => StatusKind::Text,
    }
    &&& row_texts(d.status_color_map@) == text_entries(c.color_map)
    &&& d.status_default_color@ == text_or(c.default_color, "#aaaaaa"@)
}

/// The draft that editing `cell` starts with.
pub fn panel_draft_from_cell(cell: &Cell) -> (d: PanelDraft)
    ensures
        draft_of(d, *cell),
{
    let mut extra: Vec<String> = Vec::new();
    let mut i: usize = 1;
    proof {
        assert(texts(extra@) =~= extra_keys_of(*cell).take(0));
    }
    while i < cell.sources.len()
        invariant
            1 <= i,
            cell.sources.len() > 0 ==> i <= cell.sources.len(),
            cell.sources.len() == 0 ==> i == 1,
            texts(extra@) == extra_keys_of(*cell).take(i - 1),
        decreases cell.sources.len() - i,
    {
        let ghost before = extra@;
        extra.push(cell.sources[i].key.clone());
        proof {
            let all = extra_keys_of(*cell);
            assert(all[i - 1] == cell.sources@[i as int].key@);
            assert(texts(extra@) =~= texts(before).push(cell.sources@[i as int].key@));
            assert(all.take(i as int) =~= all.take(i - 1).push(all[i - 1]));
        }
        i = i + 1;
    }
    proof {
        let all = extra_keys_of(*cell);
        assert(all.take(all.len() as int) =~= all);
        assert(cell.sources.len() == 0 ==> texts(extra@) =~= all);
    }
    let mut rows: Vec<(String, String)> = Vec::new();
    let mut j: usize = 0;
    while j < cell.color_map.entries.len()
        invariant
            j <= cell.color_map.entries.len(),
            rows.len() == j,
            forall|k: int|
                0 <= k < j ==> (#[trigger] rows@[k]).0@ == cell.color_map.entries@[k].0@
                    && rows@[k].1@ == cell.color_map.entries@[k].1@,
        decreases cell.color_map.entries.len() - j,
    {
        rows.push((cell.color_map.entries[j].0.clone(), cell.color_map.entries[j].1.clone()));
        j = j + 1;
    }
    proof {
        assert(row_texts(rows@) =~= text_entries(cell.color_map));
    }
    let status = match cell.primitive {
        Primitive::Status => true,
        _ => false,
    };
    let has = cell.sources.len() > 0;
    let source_key = if status && !cell.source.as_str().is_empty() {
        cell.source.clone()
    } else if has {
        cell.sources[0].key.clone()
    } else {
        String::new()
    };
    let color = if has && !cell.sources[0].color.as_str().is_empty() {
        cell.sources[0].color.clone()
    } else {
        copy_or(&cell.color, "#1f77b4")
    };
    let nothing: Option<String> = None;
    proof {
        reveal_strlit("");
        assert(""@ =~= Seq::<char>::empty());
    }
    PanelDraft {
        row: cell.row,
        col: cell.col,
        primitive: cell.primitive,
        title: cell.title.clone(),
        source_key,
        source_uri: if has {
            copy_or(&cell.sources[0].source_uri, "")
        } else {
            String::new()
        },
        source_drone: if has {
            copy_or(&cell.sources[0].source_drone, "")
        } else {
            String::new()
        },
        fallback: if has {
            copy_or(&cell.sources[0].fallback, "")
        } else {
            String::new()
        },
        minus: if has {
            copy_or(&cell.sources[0].minus, "")
        } else {
            String::new()
        },
        color,
        label_mode: cell.label_mode,
        overlay_extra_keys: extra,
        status_kind: match cell.kind {
            Some(k) => k,
            None => StatusKind::Text,
        },
        status_color_map: rows,
        status_default_color: copy_or(&cell.default_color, "#aaaaaa"),
    }
}

// ---------------------------------------------------------------- round trip

proof fn lemma_stated_again(s: Seq<char>)
    ensures
        stated(trimmed(s)) == stated(s),
        match stated(s) {
            Some(t) => trimmed(t) == t && t.len() > 0,
            None => true,
        },
        stated(Seq::<char>::empty()) is None,
{
    trim_twice(s);
}

/// Keys that were trimmed and not blank stay as they are.
proof fn lemma_stated_keys_again(v: Seq<Seq<char>>)
    ensures
        stated_keys(stated_keys(v)) == stated_keys(v),
    decreases v.len(),
{
    if v.len() > 0 {
        lemma_stated_keys_again(v.drop_last());
        lemma_stated_again(v.last());
        let r = stated_keys(v);
        match stated(v.last()) {
            Some(k) => {
                assert(r.drop_last() =~= stated_keys(v.drop_last()));
                assert(r.last() == k);
            },
            None => {},
        }
    }
}

/// Every key and every colour of a colour map made from rows is trimmed and not
/// blank.
proof fn lemma_color_rows_stated(rows: Seq<(Seq<char>, Seq<char>)>)
    ensures
        forall|k: Seq<char>| #[trigger]
            color_rows(rows).contains_key(k) ==> trimmed(k) == k && k.len() > 0 && trimmed(
                color_rows(rows)[k],
            ) == color_rows(rows)[k] && color_rows(rows)[k].len() > 0,
    decreases rows.len(),
{
    if rows.len() > 0 {
        lemma_color_rows_stated(rows.drop_last());
        trim_twice(rows.last().0);
        trim_twice(rows.last().1);
        let head = color_rows(rows.drop_last());
        assert forall|k: Seq<char>| #[trigger] color_rows(rows).contains_key(k) implies trimmed(k)
            == k && k.len() > 0 && trimmed(color_rows(rows)[k]) == color_rows(rows)[k] && color_rows(
            rows,
        )[k].len() > 0 by {
            if k != trimmed(rows.last().0) {
                assert(head.contains_key(k));
            }
        }
    }
}

/// The rows of a map whose keys and colours are trimmed and not blank make that
/// map again.
proof fn lemma_rows_of_map(rows: Seq<(Seq<char>, Seq<char>)>)
    requires
        forall|i: int, j: int|
            0 <= i < rows.len() && 0 <= j < rows.len() && i != j ==> (#[trigger] rows[i]).0 != (
            #[trigger] rows[j]).0,
        forall|i: int|
            0 <= i < rows.len() ==> trimmed((#[trigger] rows[i]).0) == rows[i].0 && rows[i].0.len()
                > 0 && trimmed(rows[i].1) == rows[i].1 && rows[i].1.len() > 0,
    ensures
        forall|i: int|
            0 <= i < rows.len() ==> color_rows(rows).contains_key((#[trigger] rows[i]).0)
                && color_rows(rows)[rows[i].0] == rows[i].1,
        forall|k: Seq<char>| #[trigger]
            color_rows(rows).contains_key(k) ==> exists|i: int|
                0 <= i < rows.len() && (#[trigger] rows[i]).0 == k,
    decreases rows.len(),
{
    if rows.len() > 0 {
        let head = rows.drop_last();
        assert forall|i: int, j: int|
            0 <= i < head.len() && 0 <= j < head.len() && i != j implies (#[trigger] head[i]).0 != (
        #[trigger] head[j]).0 by {
            assert(rows[i].0 != rows[j].0);
        }
        assert forall|i: int| 0 <= i < head.len() implies trimmed((#[trigger] head[i]).0)
            == head[i].0 && head[i].0.len() > 0 && trimmed(head[i].1) == head[i].1
            && head[i].1.len() > 0 by {
            assert(rows[i].0 == head[i].0);
        }
        lemma_rows_of_map(head);
        let l = rows[rows.len() - 1];
        assert(rows.last() == l);
        assert forall|i: int| 0 <= i < rows.len() implies color_rows(rows).contains_key(
            (#[trigger] rows[i]).0,
        ) && color_rows(rows)[rows[i].0] == rows[i].1 by {
            if i < head.len() {
                assert(head[i] == rows[i]);
                assert(rows[i].0 != rows[rows.len() - 1].0);
            }
        }
        assert forall|k: Seq<char>| #[trigger] color_rows(rows).contains_key(k) implies exists|i: int|
            0 <= i < rows.len() && (#[trigger] rows[i]).0 == k by {
            if k == l.0 {
                assert(rows[rows.len() - 1].0 == k);
            } else {
                assert(color_rows(head).contains_key(k));
                let i = choose|i: int| 0 <= i < head.len() && (#[trigger] head[i]).0 == k;
                assert(rows[i].0 == k);
            }
        }
    }
}

/// The colour map of a drafted panel comes back from its own rows.
proof fn lemma_map_again(m: KeyMap<String>, rows: Seq<(Seq<char>, Seq<char>)>)
    requires
        m.wf(),
        text_map(m) == color_rows(rows),
    ensures
        color_rows(text_entries(m)) == text_map(m),
{
    let e = text_entries(m);
    lemma_color_rows_stated(rows);
    ascending_distinct(m.key_seq());
    assert forall|i: int| 0 <= i < e.len() implies trimmed((#[trigger] e[i]).0) == e[i].0
        && e[i].0.len() > 0 && trimmed(e[i].1) == e[i].1 && e[i].1.len() > 0 by {
        m.entry_value(i);
        assert(color_rows(rows).contains_key(e[i].0));
        assert(color_rows(rows)[e[i].0] == e[i].1);
    }
    assert forall|i: int, j: int| 0 <= i < e.len() && 0 <= j < e.len() && i != j implies (
    #[trigger] e[i]).0 != (#[trigger] e[j]).0 by {
        assert(m.key_seq()[i] != m.key_seq()[j]);
    }
    lemma_rows_of_map(e);
    assert forall|k: Seq<char>| color_rows(e).contains_key(k) <==> text_map(m).contains_key(k) by {
        if text_map(m).contains_key(k) {
            let i = choose|i: int| 0 <= i < m.key_seq().len() && m.key_seq()[i] == k;
            assert(e[i].0 == k);
        }
        if color_rows(e).contains_key(k) {
            let i = choose|i: int| 0 <= i < e.len() && (#[trigger] e[i]).0 == k;
            m.entry_value(i);
        }
    }
    assert forall|k: Seq<char>| color_rows(e).contains_key(k) implies #[trigger] color_rows(e)[k]
        == text_map(m)[k] by {
        let i = choose|i: int| 0 <= i < e.len() && (#[trigger] e[i]).0 == k;
        m.entry_value(i);
    }
    assert(color_rows(e) =~= text_map(m));
}

/// Two colour maps with the same contents have the same entries in the same order.
proof fn lemma_same_entries(a: KeyMap<String>, b: KeyMap<String>)
    requires
        a.wf(),
        b.wf(),
        text_map(a) == text_map(b),
    ensures
        text_entries(a) == text_entries(b),
{
    assert forall|k: Seq<char>| a.key_seq().contains(k) <==> b.key_seq().contains(k) by {
        assert(text_map(a).contains_key(k) <==> a@.contains_key(k));
        assert(text_map(b).contains_key(k) <==> b@.contains_key(k));
    }
    ascending_unique(a.key_seq(), b.key_seq());
    assert(a.key_seq().len() == b.key_seq().len());
    assert forall|i: int| 0 <= i < a.entries.len() implies #[trigger] text_entries(a)[i]
        == text_entries(b)[i] by {
        a.entry_value(i);
        b.entry_value(i);
        assert(a.key_seq()[i] == b.key_seq()[i]);
        let k = a.key_seq()[i];
        assert(text_map(a)[k] == text_map(b)[k]);
    }
    assert(text_entries(a) =~= text_entries(b));
}

/// A panel made from a draft that names its colours comes back unchanged when it
/// is edited and nothing is altered: the draft that editing starts with is
/// accepted, and the panel that it describes is like the first in all fields.
pub proof fn editing_unchanged_keeps_the_panel(
    first: PanelDraft,
    panel: Cell,
    again: PanelDraft,
    result: Cell,
)
    requires
        draft_fault(first) is None,
        first.color@.len() > 0,
        first.primitive == Primitive::Status ==> trimmed(first.status_default_color@).len() > 0,
        drafted(panel, first),
        draft_of(again, panel),
        drafted(result, again),
    ensures
        draft_fault(again) is None,
        same_cell(result, panel),
{
    let status = first.primitive == Primitive::Status;
    lemma_stated_again(first.source_key@);
    lemma_stated_again(first.source_uri@);
    lemma_stated_again(first.source_drone@);
    lemma_stated_again(first.fallback@);
    lemma_stated_again(first.minus@);
    lemma_stated_again(first.color@);
    lemma_stated_again(first.status_default_color@);
    trim_twice(first.source_key@);
    trim_twice(first.minus@);
    let none = Seq::<char>::empty();
    assert(again.source_key@ == trimmed(first.source_key@));
    assert(stated(again.source_uri@) == stated(first.source_uri@));
    assert(stated(again.source_drone@) == stated(first.source_drone@));
    assert(stated(again.fallback@) == stated(first.fallback@));
    let ks = texts(first.overlay_extra_keys@);
    let extras = drafted_extras(first);
    assert(extra_keys_of(panel) =~= extras) by {
        assert forall|i: int| 0 <= i < extras.len() implies extra_keys_of(panel)[i] == extras[i] by {
            assert(panel.sources@.drop_first()[i] == panel.sources@[i + 1]);
        }
    }
    lemma_stated_keys_again(ks);
    assert(drafted_extras(again) =~= extras);
    if status {
        lemma_map_again(panel.color_map, row_texts(first.status_color_map@));
    }
    lemma_same_entries(result.color_map, panel.color_map);
    assert forall|i: int| 0 <= i < result.sources.len() implies same_source(
        #[trigger] result.sources@[i],
        panel.sources@[i],
    ) by {
        if i > 0 {
            assert(drafted_source(
                panel.sources@[i],
                extras[i - 1],
                first,
                None,
                None,
                Seq::empty(),
            ));
        }
    }
}

} // verus!
