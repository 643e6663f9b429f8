//! Telemetry sources: the list of those connected, the dialog that connects them,
//! what a scan found, and the panels that name one that is not there.
use vstd::prelude::*;
use vstd::string::*;

use crate::color::{gray, Rgb};
use crate::faults::{is_member, with_new};
use crate::keymap::KeyMap;
use crate::template::{opt_text, Cell, CellSource, Template};
use crate::text::{
    begins, cat2, cat3, dec, decimal, owned, same_text, starts_with, texts, trim, trimmed,
};

verus! {

/// A connected source.
#[derive(Clone, Debug)]
pub struct SourceListEntry {
    pub uri: String,
    /// The drone that was last heard there.
    pub drone_name: Option<String>,
    /// The name that goes by the address alone.
    pub fallback_name: String,
    pub is_live: bool,
}

/// The URI that a panel should read from.
#[derive(Clone, Debug, PartialEq, Eq)]
pub struct ResolvedSource {
    /// None where nothing is connected.
    pub uri: Option<String>,
    /// Was another taken in place of the one asked for?
    pub fallback_applied: bool,
}

/// Is `r` the connection that a declared address stands for: itself where it is connected,
/// else the first connection, with a note where another was declared?
pub open spec fn resolves(
    r: ResolvedSource,
    declared: Option<&str>,
    all: Seq<Seq<char>>,
) -> bool {
    let first = if all.len() > 0 {
        Some(all[0])
    } else {
        None
    };
    match declared {
        None => opt_text(r.uri) == first && !r.fallback_applied,
        Some(d) => if all.contains(d@) {
            opt_text(r.uri) == Some(d@) && !r.fallback_applied
        } else {
            opt_text(r.uri) == first && r.fallback_applied
        },
    }
}

/// The source to read from: the one asked for where it is connected, else the first
/// that is. `fallback_applied` says that one was asked for and is not connected.
pub fn resolve_source_uri(declared: Option<&str>, connected: &[String]) -> (r: ResolvedSource)
    ensures
        resolves(r, declared, texts(connected@)),
{
    let first: Option<String> = if connected.len() > 0 {
        proof {
            assert(texts(connected@)[0] == connected@[0]@);
        }
        Some(connected[0].clone())
    } else {
        None
    };
    match declared {
        None => ResolvedSource { uri: first, fallback_applied: false },
        Some(d) => if is_member(connected, d) {
            ResolvedSource { uri: Some(owned(d)), fallback_applied: false }
        } else {
            ResolvedSource { uri: first, fallback_applied: true }
        },
    }
}

// ---------------------------------------------------------------- names

/// The drone behind a source, as far as it is known.
pub open spec fn drone_of(e: SourceListEntry) -> Seq<char> {
    match e.drone_name {
        Some(d) => d@,
        None => e.fallback_name@,
    }
}

/// The drone behind each of the first `n` sources; the later counts where two have
/// one address.
pub open spec fn uri_map(entries: Seq<SourceListEntry>, n: int) -> Map<Seq<char>, Seq<char>>
    decreases n,
{
    if n <= 0 {
        Map::empty()
    } else {
        uri_map(entries, n - 1).insert(entries[n - 1].uri@, drone_of(entries[n - 1]))
    }
}

/// The drone behind each connected source.
pub fn build_uri_to_drone(entries: &Vec<SourceListEntry>) -> (m: KeyMap<String>)
    ensures
        m.wf(),
        m@.map_values(|s: String| s@) == uri_map(entries@, entries.len() as int),
{
    let mut m: KeyMap<String> = KeyMap::new();
    let mut i: usize = 0;
    proof {
        assert(m@.map_values(|s: String| s@) =~= uri_map(entries@, 0));
    }
    while i < entries.len()
        invariant
            i <= entries.len(),
            m.wf(),
            m@.map_values(|s: String| s@) == uri_map(entries@, i as int),
        decreases entries.len() - i,
    {
        let name = match &entries[i].drone_name {
            Some(d) => d.clone(),
            None => entries[i].fallback_name.clone(),
        };
        let ghost was = m@;
        m.insert(entries[i].uri.clone(), name);
        proof {
            assert(m@.map_values(|s: String| s@) =~= was.map_values(|s: String| s@).insert(
                entries@[i as int].uri@,
                name@,
            ));
        }
        i = i + 1;
    }
    m
}

/// How a source is listed.
pub open spec fn entry_words(e: SourceListEntry) -> Seq<char> {
    (if e.is_live {
        "●"@
    } else {
        "◌"@
    }) + " "@ + e.uri@ + " — "@ + caption(e)
}

/// The drone behind a source; its address name in brackets where it is not known.
pub open spec fn caption(e: SourceListEntry) -> Seq<char> {
    match e.drone_name {
        Some(d) => d@,
        None => "("@ + e.fallback_name@ + ")"@,
    }
}

/// The drone behind a source; its address name in brackets where it is not known.
pub fn source_caption(e: &SourceListEntry) -> (r: String)
    ensures
        r@ == caption(*e),
{
    match &e.drone_name {
        Some(d) => d.clone(),
        None => cat3("(", e.fallback_name.as_str(), ")"),
    }
}

/// How a source is listed.
pub fn format_source_combo_entry(e: &SourceListEntry) -> (r: String)
    ensures
        r@ == entry_words(*e),
{
    let name = source_caption(e);
    let live = if e.is_live {
        "●"
    } else {
        "◌"
    };
    let mut s = cat3(live, " ", e.uri.as_str());
    s.append(" — ");
    s.append(name.as_str());
    s
}

/// Is it the first source with an address?
pub open spec fn first_with(sources: Seq<SourceListEntry>, uri: Seq<char>, i: int) -> bool {
    0 <= i < sources.len() && sources[i].uri@ == uri && forall|k: int|
        0 <= k < i ==> (#[trigger] sources[k]).uri@ != uri
}

/// How the chosen source is shown: as it is listed, or with a note that it is not
/// connected.
pub fn format_source_combo_label(uri: &str, sources: &Vec<SourceListEntry>) -> (r: String)
    ensures
        uri@.len() == 0 ==> r@ == "(any)"@,
        uri@.len() > 0 && (forall|k: int| 0 <= k < sources.len() ==> (#[trigger] sources@[k]).uri@ != uri@)
            ==> r@ == uri@ + " (not connected)"@,
        uri@.len() > 0 ==> forall|i: int| #[trigger]
            first_with(sources@, uri@, i) ==> r@ == entry_words(sources@[i]),
{
    if uri.is_empty() {
        return owned("(any)");
    }
    let mut i: usize = 0;
    while i < sources.len()
        invariant
            i <= sources.len(),
            uri@.len() > 0,
            forall|k: int| 0 <= k < i ==> (#[trigger] sources@[k]).uri@ != uri@,
        decreases sources.len() - i,
    {
        if same_text(sources[i].uri.as_str(), uri) {
            proof {
                assert forall|j: int| #[trigger] first_with(sources@, uri@, j) implies j == i by {
                    if j > i {
                        assert(sources@[i as int].uri@ != uri@);
                    }
                }
            }
            return format_source_combo_entry(&sources[i]);
        }
        i = i + 1;
    }
    cat2(uri, " (not connected)")
}

/// What an address is for, by its scheme.
pub open spec fn scheme_words(uri: Seq<char>) -> Seq<char> {
    if begins(uri, "zmq://"@) {
        "ZMQ (HVN-SITL streamer)"@
    } else if begins(uri, "mavlink://"@) {
        "MAVLink UDP (udpin / listen)"@
    } else if begins(uri, "mavlinkout://"@) {
        "MAVLink UDP (udpout / send-first)"@
    } else if begins(uri, "mock://"@) {
        "Synthetic (sine wave)"@
    } else if uri.len() == 0 {
        "(auto-detected from URI scheme)"@
    } else {
        "(unrecognised scheme — will default to mock://)"@
    }
}

/// What an address is for, by its scheme.
pub fn scheme_hint(uri: &str) -> (r: &'static str)
    ensures
        r@ == scheme_words(uri@),
{
    if starts_with(uri, "zmq://") {
        "ZMQ (HVN-SITL streamer)"
    } else if starts_with(uri, "mavlink://") {
        "MAVLink UDP (udpin / listen)"
    } else if starts_with(uri, "mavlinkout://") {
        "MAVLink UDP (udpout / send-first)"
    } else if starts_with(uri, "mock://") {
        "Synthetic (sine wave)"
    } else if uri.is_empty() {
        "(auto-detected from URI scheme)"
    } else {
        "(unrecognised scheme — will default to mock://)"
    }
}

// ---------------------------------------------------------------- the dialog

/// What the operator asks for.
#[derive(Clone, Debug)]
pub enum SourceAction {
    /// Open the dialog.
    OpenAddDialog,
    /// Connect to what was typed.
    Connect(String),
    /// Close the dialog.
    CancelAdd,
    /// Disconnect.
    Remove(String),
    /// Scan again.
    Rescan,
    /// Connect to what the scan found; the dialog stays open.
    ConnectDiscovered(String),
}

/// What has to be done outside.
#[derive(Clone, Debug)]
pub enum SourceCommand {
    Nothing,
    /// Look for sources.
    Scan,
    /// Connect; a streamer has its own way.
    Open { uri: String, streamer: bool },
    /// Disconnect.
    Close(String),
}

/// The dialog and what was last done.
#[derive(Clone, Debug)]
pub struct SourcesState {
    /// What was typed, while the dialog is open.
    pub add_source_uri: Option<String>,
    pub last_source_action: Option<String>,
}

/// Is it the address of a streamer?
pub open spec fn is_streamer(uri: Seq<char>) -> bool {
    begins(uri, "zmq://"@)
}

/// Is it the command to connect to `uri`?
pub open spec fn opens(c: SourceCommand, u: Seq<char>) -> bool {
    match c {
        SourceCommand::Open { uri, streamer } => uri@ == u && streamer == is_streamer(u),
        _ => false,
    }
}

/// Is `next` the state of the sources after an action was begun, and `c` what it asks for?
pub open spec fn begun(
    s: SourcesState,
    next: SourcesState,
    action: SourceAction,
    c: SourceCommand,
) -> bool {
    match action {
        SourceAction::OpenAddDialog => {
            &&& c is Scan
            &&& opt_text(next.add_source_uri) == Some(Seq::<char>::empty())
            &&& next.last_source_action == s.last_source_action
        },
        SourceAction::CancelAdd => {
            &&& c is Nothing
            &&& next.add_source_uri is None
            &&& next.last_source_action == s.last_source_action
        },
        SourceAction::Rescan => c is Scan && next == s,
        SourceAction::ConnectDiscovered(u) => opens(c, u@) && next == s,
        SourceAction::Connect(u) => {
            &&& next.add_source_uri is None
            &&& if trimmed(u@).len() == 0 {
                c is Nothing && opt_text(next.last_source_action) == Some(
                    "Connect failed: URI must not be empty"@,
                )
            } else {
                opens(c, trimmed(u@)) && next.last_source_action
                    == s.last_source_action
            }
        },
        SourceAction::Remove(u) => {
            &&& c is Close
            &&& c->Close_0@ == u@
            &&& next == s
        },
    }
}

impl SourcesState {
    /// The dialog closed, nothing done.
    pub fn new() -> (r: SourcesState)
        ensures
            r.add_source_uri is None,
            r.last_source_action is None,
    {
        SourcesState { add_source_uri: None, last_source_action: None }
    }

    /// Begin what the operator asked for: what has to be done outside.
    pub fn begin(&mut self, action: SourceAction) -> (c: SourceCommand)
        ensures
            begun(*old(self), *final(self), action, c),
    {
        match action {
            SourceAction::OpenAddDialog => {
                self.add_source_uri = Some(String::new());
                SourceCommand::Scan
            },
            SourceAction::CancelAdd => {
                self.add_source_uri = None;
                SourceCommand::Nothing
            },
            SourceAction::Rescan => SourceCommand::Scan,
            SourceAction::ConnectDiscovered(u) => {
                let streamer = starts_with(u.as_str(), "zmq://");
                SourceCommand::Open { uri: u, streamer }
            },
            SourceAction::Connect(u) => {
                let t = owned(trim(u.as_str()));
                self.add_source_uri = None;
                if t.as_str().is_empty() {
                    self.last_source_action = Some(
                        owned("Connect failed: URI must not be empty"),
                    );
                    return SourceCommand::Nothing;
                }
                let streamer = starts_with(t.as_str(), "zmq://");
                SourceCommand::Open { uri: t, streamer }
            },
            SourceAction::Remove(u) => SourceCommand::Close(u),
        }
    }

    /// Note how connecting went.
    pub fn opened(&mut self, uri: &str, error: Option<&str>)
        ensures
            final(self).add_source_uri == old(self).add_source_uri,
            opt_text(final(self).last_source_action) == Some(
                match error {
                    None => "Connected to "@ + uri@,
                    Some(e) => "Connect failed: "@ + e@,
                },
            ),
    {
        self.last_source_action = Some(
            match error {
                None => cat2("Connected to ", uri),
                Some(e) => cat2("Connect failed: ", e),
            },
        );
    }

    /// Note how disconnecting went.
    pub fn closed(&mut self, uri: &str, removed: bool)
        ensures
            final(self).add_source_uri == old(self).add_source_uri,
            opt_text(final(self).last_source_action) == Some(
                if removed {
                    "Removed "@ + uri@
                } else {
                    "Remove failed: "@ + uri@ + " not in list"@
                },
            ),
    {
        self.last_source_action = Some(
            if removed {
                cat2("Removed ", uri)
            } else {
                cat3("Remove failed: ", uri, " not in list")
            },
        );
    }
}

/// What the operator pressed in the dialog.
#[derive(Clone, Debug)]
pub struct DialogInput {
    /// The address of a row that was to be connected.
    pub picked: Option<String>,
    pub rescan: bool,
    pub connect: bool,
    pub cancel: bool,
    /// What was typed.
    pub typed: String,
}

/// What the dialog asks for: a click on a found source before a scan, a scan before a
/// connection, and that before closing it.
pub open spec fn asked(input: DialogInput) -> Option<SourceAction> {
    match input.picked {
        Some(u) => Some(SourceAction::ConnectDiscovered(u)),
        None => if input.rescan {
            Some(SourceAction::Rescan)
        } else if input.connect {
            Some(SourceAction::Connect(input.typed))
        } else if input.cancel {
            Some(SourceAction::CancelAdd)
        } else {
            None
        },
    }
}

/// What the dialog asks for: a row that was picked counts before all buttons, then a
/// new scan, then connecting, then closing.
pub fn dialog_action(input: DialogInput) -> (r: Option<SourceAction>)
    ensures
        r == asked(input),
{
    match input.picked {
        Some(u) => Some(SourceAction::ConnectDiscovered(u)),
        None => if input.rescan {
            Some(SourceAction::Rescan)
        } else if input.connect {
            Some(SourceAction::Connect(input.typed))
        } else if input.cancel {
            Some(SourceAction::CancelAdd)
        } else {
            None
        },
    }
}

// ---------------------------------------------------------------- what a scan found

/// What is known of a source that a scan found.
#[derive(Clone, Debug)]
pub enum DiscoveryStatus {
    /// Data comes from it, of this drone where that is known.
    Live { drone_name: Option<String> },
    /// It is there, but nothing comes.
    Silent,
    /// It is connected already.
    InUse,
}

/// A source that a scan found.
#[derive(Clone, Debug)]
pub struct DiscoveredSource {
    pub uri: String,
    pub status: DiscoveryStatus,
}

/// The scan for sources.
#[derive(Clone, Debug)]
pub struct DiscoveryState {
    /// Is a scan under way?
    pub scanning: bool,
    /// What the last scan found.
    pub results: Option<Vec<DiscoveredSource>>,
}

/// What the dialog shows of a scan.
#[derive(Clone, Copy, Debug, PartialEq, Eq, Structural)]
pub enum ScanView {
    /// No scan has been made.
    Pending,
    /// The first scan is under way.
    Scanning,
    /// Nothing was found.
    Nothing,
    /// What was found, while another scan may be under way.
    Rows { again: bool },
}

/// What the dialog shows of a scan.
pub open spec fn scan_view(d: DiscoveryState) -> ScanView {
    match d.results {
        Some(rows) => if rows.len() == 0 {
            ScanView::Nothing
        } else {
            ScanView::Rows { again: d.scanning }
        },
        None => if d.scanning {
            ScanView::Scanning
        } else {
            ScanView::Pending
        },
    }
}

impl DiscoveryState {
    /// No scan so far.
    pub fn new() -> (r: DiscoveryState)
        ensures
            !r.scanning,
            r.results is None,
    {
        DiscoveryState { scanning: false, results: None }
    }

    /// Begin a scan, unless one is under way. Was it begun?
    pub fn begin(&mut self) -> (r: bool)
        ensures
            r == !old(self).scanning,
            *final(self) == (DiscoveryState { scanning: true, ..*old(self) }),
    {
        if self.scanning {
            return false;
        }
        self.scanning = true;
        true
    }

    /// Note what a scan found.
    pub fn finish(&mut self, found: Vec<DiscoveredSource>)
        ensures
            *final(self) == (DiscoveryState { scanning: false, results: Some(found) }),
    {
        self.results = Some(found);
        self.scanning = false;
    }

    /// What the dialog shows.
    pub fn shown(&self) -> (r: ScanView)
        ensures
            r == scan_view(*self),
    {
        match &self.results {
            Some(rows) => if rows.len() == 0 {
                ScanView::Nothing
            } else {
                ScanView::Rows { again: self.scanning }
            },
            None => if self.scanning {
                ScanView::Scanning
            } else {
                ScanView::Pending
            },
        }
    }
}

/// How a source that a scan found is listed.
#[derive(Clone, Debug)]
pub struct DiscoveryRow {
    pub glyph: &'static str,
    pub color: Rgb,
    pub descriptor: String,
    /// It cannot be connected again.
    pub connected: bool,
}

/// Is it how a source that a scan found is listed?
pub open spec fn row_of(r: DiscoveryRow, d: DiscoveredSource, connected: Seq<Seq<char>>) -> bool {
    let joined = connected.contains(d.uri@) || d.status is InUse;
    &&& r.connected == joined
    &&& if joined {
        r.glyph@ == "✓"@ && r.color == (Rgb { r: 100, g: 160, b: 220 })
    } else if d.status is Live {
        r.glyph@ == "●"@ && r.color == (Rgb { r: 80, g: 200, b: 120 })
    } else {
        r.glyph@ == "◌"@ && r.color == gray(140)
    }
    &&& r.descriptor@ == match d.status {
        DiscoveryStatus::Live { drone_name } => match drone_name {
            Some(n) => n@,
            None => "(live)"@,
        },
        DiscoveryStatus::Silent => "(silent)"@,
        DiscoveryStatus::InUse => "(already connected)"@,
    }
}

/// How a source that a scan found is listed.
pub fn discovery_row(d: &DiscoveredSource, connected: &[String]) -> (r: DiscoveryRow)
    ensures
        row_of(r, *d, texts(connected@)),
{
    let in_use = match &d.status {
        DiscoveryStatus::InUse => true,
        _ => false,
    };
    let joined = is_member(connected, d.uri.as_str()) || in_use;
    let live = match &d.status {
        DiscoveryStatus::Live { drone_name: _ } => true,
        _ => false,
    };
    let descriptor = match &d.status {
        DiscoveryStatus::Live { drone_name } => match drone_name {
            Some(n) => n.clone(),
            None => owned("(live)"),
        },
        DiscoveryStatus::Silent => owned("(silent)"),
        DiscoveryStatus::InUse => owned("(already connected)"),
    };
    let (glyph, color) = if joined {
        ("✓", Rgb { r: 100, g: 160, b: 220 })
    } else if live {
        ("●", Rgb { r: 80, g: 200, b: 120 })
    } else {
        ("◌", Rgb { r: 140, g: 140, b: 140 })
    };
    DiscoveryRow { glyph, color, descriptor, connected: joined }
}

/// How many of the first `n` sources are live, silent, in use.
pub open spec fn tally(rows: Seq<DiscoveredSource>, n: int) -> (nat, nat, nat)
    decreases n,
{
    if n <= 0 {
        (0, 0, 0)
    } else {
        let (a, b, c) = tally(rows, n - 1);
        match rows[n - 1].status {
            DiscoveryStatus::Live { drone_name: _ } => (a + 1, b, c),
            DiscoveryStatus::Silent => (a, b + 1, c),
            DiscoveryStatus::InUse => (a, b, c + 1),
        }
    }
}

/// How many of the found sources are live, silent and connected.
pub open spec fn found_words(rows: Seq<DiscoveredSource>) -> Seq<char> {
    let (a, b, c) = tally(rows, rows.len() as int);
    dec(a) + " live / "@ + dec(b) + " silent / "@ + dec(c) + " connected"@
}

/// How many of the sources that a scan found are live, silent, in use, in words.
pub fn discovery_summary(rows: &Vec<DiscoveredSource>) -> (r: String)
    ensures
        r@ == found_words(rows@),
{
    let mut live: u64 = 0;
    let mut silent: u64 = 0;
    let mut used: u64 = 0;
    let mut i: usize = 0;
    while i < rows.len()
        invariant
            i <= rows.len(),
            tally(rows@, i as int) == (live as nat, silent as nat, used as nat),
            live + silent + used == i,
        decreases rows.len() - i,
    {
        match &rows[i].status {
            DiscoveryStatus::Live { drone_name: _ } => {
                live = live + 1;
            },
            DiscoveryStatus::Silent => {
                silent = silent + 1;
            },
            DiscoveryStatus::InUse => {
                used = used + 1;
            },
        }
        i = i + 1;
    }
    let mut s = decimal(live);
    s.append(" live / ");
    let b = decimal(silent);
    s.append(b.as_str());
    s.append(" silent / ");
    let c = decimal(used);
    s.append(c.as_str());
    s.append(" connected");
    s
}

// ---------------------------------------------------------------- missing sources

/// The addresses that the first `n` sources name.
pub open spec fn source_uris(v: Seq<CellSource>, n: int) -> Seq<Seq<char>>
    decreases n,
{
    if n <= 0 {
        Seq::empty()
    } else {
        match v[n - 1].source_uri {
            Some(u) => source_uris(v, n - 1).push(u@),
            None => source_uris(v, n - 1),
        }
    }
}

/// The addresses that the first `n` panels name.
pub open spec fn panel_uris(cells: Seq<Cell>, n: int) -> Seq<Seq<char>>
    decreases n,
{
    if n <= 0 {
        Seq::empty()
    } else {
        panel_uris(cells, n - 1) + source_uris(
            cells[n - 1].sources@,
            cells[n - 1].sources.len() as int,
        )
    }
}

/// The addresses that panels name and that are not connected, each once, in the
/// order in which they come up.
pub open spec fn missing(cells: Seq<Cell>, connected: Seq<Seq<char>>) -> Seq<Seq<char>> {
    with_new(
        Seq::empty(),
        panel_uris(cells, cells.len() as int).filter(|u: Seq<char>| !connected.contains(u)),
    )
}

/// The addresses that a template names and that are not connected, each once.
pub fn missing_sources(tpl: &Template, connected: &[String]) -> (r: Vec<String>)
    ensures
        texts(r@) == missing(tpl.cells@, texts(connected@)),
        r.len() == missing(tpl.cells@, texts(connected@)).len(),
{
    let mut out: Vec<String> = Vec::new();
    let ghost none = Seq::<Seq<char>>::empty();
    let ghost f = |u: Seq<char>| !texts(connected@).contains(u);
    let mut i: usize = 0;
    proof {
        reveal(Seq::filter);
        assert(texts(out@) =~= with_new(none, panel_uris(tpl.cells@, 0).filter(f)));
    }
    while i < tpl.cells.len()
        invariant
            i <= tpl.cells.len(),
            none == Seq::<Seq<char>>::empty(),
            f == (|u: Seq<char>| !texts(connected@).contains(u)),
            texts(out@) == with_new(none, panel_uris(tpl.cells@, i as int).filter(f)),
        decreases tpl.cells.len() - i,
    {
        let ghost head = panel_uris(tpl.cells@, i as int);
        let ghost src = tpl.cells@[i as int].sources@;
        let mut j: usize = 0;
        proof {
            assert(head + source_uris(src, 0) =~= head);
        }
        while j < tpl.cells[i].sources.len()
            invariant
                i < tpl.cells.len(),
                src == tpl.cells@[i as int].sources@,
                j <= src.len(),
                none == Seq::<Seq<char>>::empty(),
                f == (|u: Seq<char>| !texts(connected@).contains(u)),
                texts(out@) == with_new(none, (head + source_uris(src, j as int)).filter(f)),
            decreases src.len() - j,
        {
            let ghost so_far = head + source_uris(src, j as int);
            match &tpl.cells[i].sources[j].source_uri {
                Some(u) => {
                    proof {
                        reveal(Seq::filter);
                        let more = head + source_uris(src, j + 1);
                        assert(more =~= so_far.push(u@));
                        assert(more.drop_last() =~= so_far);
                        assert(so_far.filter(f).push(u@).drop_last() =~= so_far.filter(f));
                    }
                    if !is_member(connected, u.as_str()) && !is_member(out.as_slice(), u.as_str()) {
                        let ghost was = out@;
                        out.push(u.clone());
                        proof {
                            assert(texts(out@) =~= texts(was).push(u@));
                        }
                    }
                },
                None => {},
            }
            j = j + 1;
        }
        i = i + 1;
    }
    proof {
        assert(texts(out@).len() == out.len());
    }
    out
}

/// What is said of addresses that are not connected.
pub open spec fn warning_words(missing: Seq<Seq<char>>) -> Option<Seq<char>> {
    if missing.len() == 0 {
        None
    } else if missing.len() == 1 {
        Some(
            "Template references source `"@ + missing[0]
                + "` which isn't connected — using first available."@,
        )
    } else {
        Some(
            "Template references "@ + dec(missing.len())
                + " sources that aren't connected — using first available."@,
        )
    }
}

/// The warning about panels that name a source that is not connected.
pub fn template_fallback_warning(tpl: Option<&Template>, connected: &[String]) -> (r: Option<String>)
    ensures
        opt_text(r) == match tpl {
            Some(t) => warning_words(missing(t.cells@, texts(connected@))),
            None => None,
        },
{
    match tpl {
        None => None,
        Some(t) => {
            let gone = missing_sources(t, connected);
            if gone.len() == 0 {
                None
            } else if gone.len() == 1 {
                proof {
                    assert(texts(gone@)[0] == gone@[0]@);
                }
                Some(
                    cat3(
                        "Template references source `",
                        gone[0].as_str(),
                        "` which isn't connected — using first available.",
                    ),
                )
            } else {
                let n = decimal(gone.len() as u64);
                Some(
                    cat3(
                        "Template references ",
                        n.as_str(),
                        " sources that aren't connected — using first available.",
                    ),
                )
            }
        },
    }
}

} // verus!
