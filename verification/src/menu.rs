//! The menu of a panel, the buttons and keys of the toolbar, and which panels run
//! behind it.
use vstd::prelude::*;

use crate::layout::CellMenuAction;
use crate::status::{primitive_supports_label_mode, primitive_supports_zoom, zooms};
use crate::template::{Cell, LabelMode};
use crate::text::{cat3, dec, decimal, owned};

verus! {

/// An item of a panel's menu.
#[derive(Clone, Copy, Debug)]
pub struct MenuItem {
    pub caption: &'static str,
    pub action: CellMenuAction,
}

/// Is it the item with this caption and action?
pub open spec fn is_item(i: MenuItem, caption: Seq<char>, action: CellMenuAction) -> bool {
    i.caption@ == caption && i.action == action
}

/// Are these the items of a panel's menu? Zoom and label are for plots only.
pub open spec fn menu_of(m: Seq<MenuItem>, c: Cell) -> bool {
    let (row, col) = (c.row, c.col);
    let n: int = if zooms(c.primitive) {
        7
    } else {
        3
    };
    &&& m.len() == n
    &&& is_item(m[0], "Edit panel..."@, CellMenuAction::Edit { row, col })
    &&& is_item(m[1], "Hide panel"@, CellMenuAction::HideToggle { row, col })
    &&& zooms(c.primitive) ==> {
        &&& is_item(m[2], "Reset zoom"@, CellMenuAction::ResetZoom { row, col })
        &&& is_item(
            m[3],
            "off"@,
            CellMenuAction::SetLabelMode { row, col, mode: LabelMode::Off },
        )
        &&& is_item(
            m[4],
            "data"@,
            CellMenuAction::SetLabelMode { row, col, mode: LabelMode::Data },
        )
        &&& is_item(
            m[5],
            "metadata"@,
            CellMenuAction::SetLabelMode { row, col, mode: LabelMode::Metadata },
        )
    }
    &&& is_item(m[n - 1], "Delete panel"@, CellMenuAction::Delete { row, col })
}

/// The items of a panel's menu.
pub fn panel_menu(cell: &Cell) -> (m: Vec<MenuItem>)
    ensures
        menu_of(m@, *cell),
{
    let row: usize = cell.row;
    let col: usize = cell.col;
    let mut m: Vec<MenuItem> = Vec::new();
    m.push(MenuItem { caption: "Edit panel...", action: CellMenuAction::Edit { row, col } });
    m.push(MenuItem { caption: "Hide panel", action: CellMenuAction::HideToggle { row, col } });
    if primitive_supports_zoom(cell.primitive) {
        m.push(MenuItem { caption: "Reset zoom", action: CellMenuAction::ResetZoom { row, col } });
    }
    if primitive_supports_label_mode(cell.primitive) {
        m.push(
            MenuItem {
                caption: "off",
                action: CellMenuAction::SetLabelMode { row, col, mode: LabelMode::Off },
            },
        );
        m.push(
            MenuItem {
                caption: "data",
                action: CellMenuAction::SetLabelMode { row, col, mode: LabelMode::Data },
            },
        );
        m.push(
            MenuItem {
                caption: "metadata",
                action: CellMenuAction::SetLabelMode { row, col, mode: LabelMode::Metadata },
            },
        );
    }
    m.push(MenuItem { caption: "Delete panel", action: CellMenuAction::Delete { row, col } });
    m
}

// ---------------------------------------------------------------- keys

/// The keys that were pressed in a frame.
#[derive(Clone, Copy, Debug, PartialEq, Eq, Structural)]
pub struct KeyPress {
    pub command: bool,
    pub shift: bool,
    pub s: bool,
    pub z: bool,
    pub y: bool,
}

/// What keys ask for.
#[derive(Clone, Copy, Debug, PartialEq, Eq, Structural)]
pub enum EditKey {
    Nothing,
    Undo,
    Redo,
}

/// Do the keys ask for saving?
pub fn asks_save(k: KeyPress) -> (r: bool)
    ensures
        r == (k.command && k.s),
{
    k.command && k.s
}

/// What a key press asks of the history.
pub open spec fn key_asks(k: KeyPress) -> EditKey {
    if k.command && k.z && !k.shift {
        EditKey::Undo
    } else if k.command && (k.y || (k.z && k.shift)) {
        EditKey::Redo
    } else {
        EditKey::Nothing
    }
}

/// What the keys ask for: command and Z goes back, command and Y, or command, shift
/// and Z, goes forth.
pub fn edit_key(k: KeyPress) -> (r: EditKey)
    ensures
        r == key_asks(k),
{
    if k.command && !k.shift && k.z {
        EditKey::Undo
    } else if (k.command && k.y) || (k.command && k.shift && k.z) {
        EditKey::Redo
    } else {
        EditKey::Nothing
    }
}

// ---------------------------------------------------------------- side panels

/// How a side panel runs in a frame.
#[derive(Clone, Copy, Debug, PartialEq, Eq, Structural)]
pub enum PanelRun {
    /// Not at all.
    Off,
    /// On screen.
    Shown,
    /// Behind the scenes.
    Unseen,
}

/// How a panel that sends commands runs: not at all where none can be sent, shown where it is
/// on screen, and else unseen where there is something to do.
pub open spec fn run_of(can_send: bool, visible: bool, busy: bool) -> PanelRun {
    if !can_send {
        PanelRun::Off
    } else if visible {
        PanelRun::Shown
    } else if busy {
        PanelRun::Unseen
    } else {
        PanelRun::Off
    }
}

/// How the generators run: they drive their sliders whether they are on screen or
/// not, as long as commands can be sent.
pub fn generators_run(can_send: bool, visible: bool) -> (r: PanelRun)
    ensures
        r == run_of(can_send, visible, true),
{
    if !can_send {
        PanelRun::Off
    } else if visible {
        PanelRun::Shown
    } else {
        PanelRun::Unseen
    }
}

/// How the faults panel runs: unseen only while there are generators that drive it.
pub fn faults_run(can_send: bool, visible: bool, generators: usize) -> (r: PanelRun)
    ensures
        r == run_of(can_send, visible, generators > 0),
{
    if !can_send {
        PanelRun::Off
    } else if visible {
        PanelRun::Shown
    } else if generators > 0 {
        PanelRun::Unseen
    } else {
        PanelRun::Off
    }
}

/// Are commands sent at all? The generators need it too.
pub fn sends_commands(fault_panel: bool, generators: bool) -> (r: bool)
    ensures
        r == (fault_panel || generators),
{
    fault_panel || generators
}

/// The face of the template picker: the name and origin of the entry that is shown.
pub fn picker_caption(current: Option<(&str, &str)>) -> (r: String)
    ensures
        r@ == match current {
            Some((name, origin)) => "Template: "@ + name@ + " ("@ + origin@ + ")"@,
            None => "Template: (none)"@,
        },
{
    match current {
        Some((name, origin)) => {
            let head = cat3("Template: ", name, " (");
            cat3(head.as_str(), origin, ")")
        },
        None => owned("Template: (none)"),
    }
}

/// The face of the button that shows the hidden panels again; none while there are
/// none.
pub fn hidden_caption(hidden: usize) -> (r: Option<String>)
    ensures
        crate::template::opt_text(r) == if hidden == 0 {
            None
        } else {
            Some("Hidden panels ("@ + dec(hidden as nat) + ")"@)
        },
{
    if hidden == 0 {
        None
    } else {
        let n = decimal(hidden as u64);
        Some(cat3("Hidden panels (", n.as_str(), ")"))
    }
}

} // verus!
