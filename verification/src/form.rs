//! The form of a panel draft: what choosing a key sets along with it, the list of
//! overlay keys, and the rows of the colour map.
use vstd::prelude::*;

use crate::editor::{stated_keys, PanelDraft};
use crate::keys::{
    default_status_kind, infer_primitive, known_from, known_value_shape, status_kind_for,
    ValueShape,
};
use crate::template::{Primitive, StatusKind};
use crate::text::{owned, same_text, split, split_on, texts, trim};

verus! {

/// The primitive after a key was chosen: that which suits a known key, unless another
/// than the first was chosen already.
pub open spec fn suited_primitive(p: Primitive, key: Seq<char>) -> Primitive {
    match known_from(key, 0) {
        Some(shape) => if p == Primitive::Scalar {
            match shape {
                ValueShape::Vector(n) => if n == 3 {
                    Primitive::Vector
                } else {
                    Primitive::Scalar
                },
                ValueShape::Scalar => Primitive::Scalar,
                _ => Primitive::Status,
            }
        } else {
            p
        },
        None => p,
    }
}

/// The kind of status after a key was chosen: that which suits a known key.
pub open spec fn suited_kind(p: Primitive, kind: StatusKind, key: Seq<char>) -> StatusKind {
    match known_from(key, 0) {
        Some(shape) => if suited_primitive(p, key) == Primitive::Status && status_kind_for(
            key,
            shape,
        ) is Some {
            status_kind_for(key, shape)->0
        } else {
            kind
        },
        None => kind,
    }
}

/// Is `next` the form `d` after its channel was chosen, which was `prev` before?
pub open spec fn rechosen(d: PanelDraft, next: PanelDraft, prev: Seq<char>) -> bool {
    let key = d.source_key@;
    if key != prev && key.len() > 0 {
        next == (PanelDraft {
            primitive: suited_primitive(d.primitive, key),
            status_kind: suited_kind(d.primitive, d.status_kind, key),
            ..d
        })
    } else {
        next == d
    }
}

/// Set what goes with the draft's key, where that is another than `prev_key` and not
/// empty: the primitive, and for a status panel its kind.
pub fn key_chosen(draft: &mut PanelDraft, prev_key: &str)
    ensures
        rechosen(*old(draft), *final(draft), prev_key@),
{
    if same_text(draft.source_key.as_str(), prev_key) || draft.source_key.as_str().is_empty() {
        return ;
    }
    match known_value_shape(draft.source_key.as_str()) {
        Some(shape) => {
            let scalar = match draft.primitive {
                Primitive::Scalar => true,
                _ => false,
            };
            if scalar {
                let name = infer_primitive(&shape);
                proof {
                    reveal_strlit("vector");
                    reveal_strlit("status");
                    reveal_strlit("scalar");
                    assert("vector"@[0] != "status"@[0] && "vector"@[0] != "scalar"@[0]);
                    assert("scalar"@[1] != "status"@[1]);
                }
                if same_text(name, "vector") {
                    draft.primitive = Primitive::Vector;
                } else if same_text(name, "status") {
                    draft.primitive = Primitive::Status;
                }
            }
            let status = match draft.primitive {
                Primitive::Status => true,
                _ => false,
            };
            if status {
                match default_status_kind(draft.source_key.as_str(), &shape) {
                    Some(k) => {
                        draft.status_kind = k;
                    },
                    None => {},
                }
            }
        },
        None => {},
    }
}

/// The keys of an overlay, one to a line; blank lines are left out.
pub fn overlay_lines(text: &str) -> (r: Vec<String>)
    ensures
        texts(r@) == stated_keys(split(text@, '\n')),
{
    let lines = split_on(text, '\n');
    let ghost all = split(text@, '\n');
    let mut out: Vec<String> = Vec::new();
    let mut i: usize = 0;
    proof {
        assert(texts(lines@).len() == lines.len());
        assert(all.take(0) =~= Seq::empty());
        assert(texts(out@) =~= stated_keys(all.take(0)));
    }
    while i < lines.len()
        invariant
            i <= lines.len() == all.len(),
            texts(lines@) == all,
            texts(out@) == stated_keys(all.take(i as int)),
        decreases lines.len() - i,
    {
        proof {
            assert(all.take(i + 1).drop_last() =~= all.take(i as int));
            assert(all.take(i + 1).last() == all[i as int]);
            assert(all[i as int] == lines@[i as int]@);
        }
        let t = trim(lines[i].as_str());
        if !t.is_empty() {
            let ghost was = out@;
            out.push(owned(t));
            proof {
                assert(texts(out@) =~= texts(was).push(t@));
            }
        }
        i = i + 1;
    }
    proof {
        assert(all.take(all.len() as int) =~= all);
    }
    out
}

/// Does a kind of status have colours of its own, so that its map is not offered?
pub fn has_preset_colors(kind: StatusKind) -> (r: bool)
    ensures
        r == (kind == StatusKind::ArmedBool || kind == StatusKind::FixType),
{
    match kind {
        StatusKind::ArmedBool => true,
        StatusKind::FixType => true,
        _ => false,
    }
}

/// Add an empty row to the colour map.
pub fn add_color_row(draft: &mut PanelDraft)
    ensures
        final(draft).status_color_map.len() == old(draft).status_color_map.len() + 1,
        final(draft).status_color_map@.drop_last() == old(draft).status_color_map@,
        final(draft).status_color_map@.last().0@ == Seq::<char>::empty(),
        final(draft).status_color_map@.last().1@ == "#1f77b4"@,
        *final(draft) == (PanelDraft {
            status_color_map: final(draft).status_color_map,
            ..*old(draft)
        }),
{
    let ghost before = draft.status_color_map@;
    draft.status_color_map.push((String::new(), owned("#1f77b4")));
    proof {
        assert(draft.status_color_map@.drop_last() =~= before);
    }
}

/// Take a row out of the colour map, if there is one at `idx`.
pub fn remove_color_row(draft: &mut PanelDraft, idx: usize)
    ensures
        final(draft).status_color_map@ == if idx < old(draft).status_color_map.len() {
            old(draft).status_color_map@.remove(idx as int)
        } else {
            old(draft).status_color_map@
        },
        *final(draft) == (PanelDraft {
            status_color_map: final(draft).status_color_map,
            ..*old(draft)
        }),
{
    if idx < draft.status_color_map.len() {
        let _gone = draft.status_color_map.remove(idx);
    }
}

} // verus!
