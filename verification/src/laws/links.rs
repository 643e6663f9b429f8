//! Connections: which one a panel reads, what the dialog and the arguments of the program
//! ask for, and how drones are named on the way in.
use vstd::prelude::*;

use crate::color::Rgb;
use crate::faults::with_new_adds_once;
use crate::fleet::{restored, Fleet};
use crate::menu::{run_of, PanelRun};
use crate::sources::{
    asked, begun, caption, entry_words, found_words, is_streamer, missing, panel_uris, resolves,
    row_of, scan_view, scheme_words, source_uris, tally, uri_map, warning_words, DialogInput,
    DiscoveredSource, DiscoveryRow, DiscoveryState, ResolvedSource, SourceAction, SourceCommand,
    SourceListEntry, SourcesState,
};
use crate::startup::{
    drone_names, found_live, opened_first, override_of, read_entry, summary_words, title_words,
    LabelArg,
};
use crate::template::{opt_text, Cell, CellSource, LabelMode};
use crate::text::{
    dec, first_of_unique, is_digit, is_space, printing_can_be_read_back, split, trimmed,
    unsigned_number, NumberError,
};

verus! {

// ---------------------------------------------------------------- resolution

/// A declared connection that is there is taken as it is. Where none is declared, or the
/// declared one is missing, the first that is there is taken, and only the second is noted.
pub proof fn declared_connections_are_taken_where_they_are(
    r: ResolvedSource,
    declared: Option<&str>,
    all: Seq<Seq<char>>,
)
    requires
        resolves(r, declared, all),
    ensures
        r.fallback_applied <==> declared is Some && !all.contains(declared->0@),
        declared is Some && all.contains(declared->0@) ==> r.uri is Some && r.uri->0@
            == declared->0@,
        (declared is None || !all.contains(declared->0@)) && all.len() > 0 ==> r.uri is Some
            && r.uri->0@ == all[0],
        (declared is None || !all.contains(declared->0@)) && all.len() == 0 ==> r.uri is None,
{
}

/// An address stands for the drone of the last connection with that address: by its own
/// name where it gave one, else by its fallback. An address without a connection stands
/// for none.
pub proof fn addresses_stand_for_their_last_drone(
    entries: Seq<SourceListEntry>,
    n: int,
    i: int,
    u: Seq<char>,
)
    requires
        0 <= i < n <= entries.len(),
        entries[i].uri@ == u,
        forall|k: int| i < k < n ==> (#[trigger] entries[k]).uri@ != u,
    ensures
        uri_map(entries, n).contains_key(u),
        entries[i].drone_name is Some ==> uri_map(entries, n)[u] == entries[i].drone_name->0@,
        entries[i].drone_name is None ==> uri_map(entries, n)[u] == entries[i].fallback_name@,
    decreases n,
{
    if i < n - 1 {
        addresses_stand_for_their_last_drone(entries, n - 1, i, u);
        assert(entries[n - 1].uri@ != u);
    }
}

/// An address without a connection stands for no drone.
pub proof fn other_addresses_stand_for_none(entries: Seq<SourceListEntry>, n: int, u: Seq<char>)
    requires
        0 <= n <= entries.len(),
        forall|k: int| 0 <= k < n ==> (#[trigger] entries[k]).uri@ != u,
    ensures
        !uri_map(entries, n).contains_key(u),
    decreases n,
{
    if n > 0 {
        other_addresses_stand_for_none(entries, n - 1, u);
        assert(entries[n - 1].uri@ != u);
    }
}

/// A connection is listed with its address and its drone, the name in brackets where it
/// is a guess, behind a dot that is full where data comes in.
pub proof fn connections_are_listed_with_address_and_drone(e: SourceListEntry)
    ensures
        e.drone_name is Some ==> caption(e) == e.drone_name->0@,
        e.drone_name is None ==> caption(e) == seq!['('] + e.fallback_name@ + seq![')'],
        entry_words(e)[0] == if e.is_live {
            '●'
        } else {
            '◌'
        },
        entry_words(e) == seq![entry_words(e)[0], ' '] + e.uri@ + seq![' ', '—', ' '] + caption(e),
{
    reveal_strlit("●");
    reveal_strlit("◌");
    reveal_strlit(" ");
    reveal_strlit(" — ");
    reveal_strlit("(");
    reveal_strlit(")");
    assert("("@ =~= seq!['(']);
    assert(")"@ =~= seq![')']);
    let w = entry_words(e);
    assert(w =~= seq![w[0], ' '] + e.uri@ + seq![' ', '—', ' '] + caption(e));
}

/// The beginning of an address says what is behind it.
pub proof fn schemes_are_told_by_their_beginning(rest: Seq<char>)
    ensures
        scheme_words("zmq://"@ + rest) == "ZMQ (HVN-SITL streamer)"@,
        scheme_words("mavlink://"@ + rest) == "MAVLink UDP (udpin / listen)"@,
        scheme_words("mavlinkout://"@ + rest) == "MAVLink UDP (udpout / send-first)"@,
        scheme_words("mock://"@ + rest) == "Synthetic (sine wave)"@,
        is_streamer("zmq://"@ + rest),
        !is_streamer("mavlink://"@ + rest),
        !is_streamer("mavlinkout://"@ + rest),
        !is_streamer("mock://"@ + rest),
{
    reveal_strlit("zmq://");
    reveal_strlit("mavlink://");
    reveal_strlit("mavlinkout://");
    reveal_strlit("mock://");
    let z = "zmq://"@;
    let m = "mavlink://"@;
    let o = "mavlinkout://"@;
    let k = "mock://"@;
    assert((z + rest).take(6) =~= z);
    assert((m + rest).take(10) =~= m);
    assert((o + rest).take(13) =~= o);
    assert((k + rest).take(7) =~= k);
    assert(z[0] == 'z' && m[0] == 'm' && m[7] == ':' && o[0] == 'm' && o[7] == 'o' && k[1] == 'o');
    assert((m + rest).take(6)[0] != z[0]);
    assert((o + rest).take(6)[0] != z[0]);
    assert((k + rest).take(6)[0] != z[0]);
    assert((o + rest).take(10)[7] != m[7]);
    if (k + rest).len() >= 10 {
        assert((k + rest).take(10)[1] != m[1]);
    }
    if (k + rest).len() >= 13 {
        assert((k + rest).take(13)[1] != o[1]);
    }
}

// ---------------------------------------------------------------- dialog

/// A source that is picked is connected, whatever else was pressed; a scan goes before
/// typing, and typing before closing.
pub proof fn picking_goes_before_all_else(input: DialogInput)
    ensures
        input.picked is Some ==> asked(input) == Some(
            SourceAction::ConnectDiscovered(input.picked->0),
        ),
        input.picked is None && input.rescan ==> asked(input) == Some(SourceAction::Rescan),
        input.picked is None && !input.rescan && input.connect ==> asked(input) == Some(
            SourceAction::Connect(input.typed),
        ),
        input.picked is None && !input.rescan && !input.connect && input.cancel ==> asked(input)
            == Some(SourceAction::CancelAdd),
        asked(input) is None <==> input.picked is None && !input.rescan && !input.connect
            && !input.cancel,
{
}

/// Opening the dialog and a scan in it look for sources; connecting opens what was typed,
/// without blanks around it, and closes the dialog; what was typed is never opened where
/// nothing is left of it.
pub proof fn actions_ask_for_what_they_say(
    s: SourcesState,
    next: SourcesState,
    action: SourceAction,
    c: SourceCommand,
)
    requires
        begun(s, next, action, c),
    ensures
        c is Scan <==> action is OpenAddDialog || action is Rescan,
        c is Close <==> action is Remove,
        action is Remove ==> c->Close_0@ == action->Remove_0@,
        c is Open <==> action is ConnectDiscovered || action is Connect && trimmed(
            action->Connect_0@,
        ).len() > 0,
        action is ConnectDiscovered ==> c->uri@ == action->ConnectDiscovered_0@,
        action is Connect && c is Open ==> c->uri@ == trimmed(action->Connect_0@),
        c is Open ==> c->streamer == is_streamer(c->uri@),
        action is Connect || action is CancelAdd ==> next.add_source_uri is None,
        action is OpenAddDialog ==> next.add_source_uri is Some && next.add_source_uri->0@.len()
            == 0,
        action is Rescan || action is ConnectDiscovered || action is Remove ==> next == s,
        action is Connect && c is Nothing ==> opt_text(next.last_source_action) == Some(
            "Connect failed: URI must not be empty"@,
        ),
{
}

/// A source that was found shows whether it is connected already, whether data comes in
/// from it, and from which drone.
pub proof fn found_sources_show_their_state(
    r: DiscoveryRow,
    d: DiscoveredSource,
    connected: Seq<Seq<char>>,
)
    requires
        row_of(r, d, connected),
    ensures
        r.connected <==> connected.contains(d.uri@) || d.status is InUse,
        r.connected ==> r.glyph@ == "✓"@ && r.color.b > r.color.r && r.color.b > r.color.g,
        !r.connected && d.status is Live ==> r.glyph@ == "●"@ && r.color.g > r.color.r && r.color.g
            > r.color.b,
        !r.connected && d.status is Silent ==> r.glyph@ == "◌"@ && r.color == (Rgb {
            r: 140,
            g: 140,
            b: 140,
        }),
        d.status is Silent ==> r.descriptor@ == "(silent)"@,
        d.status is InUse ==> r.descriptor@ == "(already connected)"@,
        d.status is Live && d.status->drone_name is None ==> r.descriptor@ == "(live)"@,
        d.status is Live && d.status->drone_name is Some ==> r.descriptor@
            == d.status->drone_name->0@,
{
}

/// Every source that was found is counted once: live, silent or in use.
pub proof fn found_sources_are_counted_once(rows: Seq<DiscoveredSource>, n: int)
    requires
        0 < n <= rows.len(),
    ensures
        ({
            let (a, b, c) = tally(rows, n);
            let (x, y, z) = tally(rows, n - 1);
            &&& a + b + c == n
            &&& a == x + 1 <==> rows[n - 1].status is Live
            &&& b == y + 1 <==> rows[n - 1].status is Silent
            &&& c == z + 1 <==> rows[n - 1].status is InUse
        }),
    decreases n,
{
    reveal_with_fuel(tally, 2);
    if n > 1 {
        found_sources_are_counted_once(rows, n - 1);
    }
}

/// The counts are told in the order live, silent, connected.
pub proof fn found_sources_are_told_in_order(rows: Seq<DiscoveredSource>)
    ensures
        ({
            let (live, silent, used) = tally(rows, rows.len() as int);
            found_words(rows) == dec(live) + " live / "@ + dec(silent) + " silent / "@ + dec(used)
                + " connected"@
        }),
{
}

// ---------------------------------------------------------------- missing

proof fn lemma_source_uris(v: Seq<CellSource>, n: int, u: Seq<char>)
    requires
        0 <= n <= v.len(),
    ensures
        source_uris(v, n).contains(u) <==> exists|i: int|
            0 <= i < n && (#[trigger] v[i]).source_uri is Some && v[i].source_uri->0@ == u,
    decreases n,
{
    if n > 0 {
        lemma_source_uris(v, n - 1, u);
        let head = source_uris(v, n - 1);
        let all = source_uris(v, n);
        if all.contains(u) {
            let i = choose|i: int| 0 <= i < all.len() && all[i] == u;
            if i < head.len() {
                assert(head[i] == u);
                assert(head.contains(u));
            } else {
                assert(v[n - 1].source_uri->0@ == u);
            }
        }
        if exists|i: int| 0 <= i < n && (#[trigger] v[i]).source_uri is Some && v[i].source_uri->0@ == u {
            let i = choose|i: int|
                0 <= i < n && (#[trigger] v[i]).source_uri is Some && v[i].source_uri->0@ == u;
            if i < n - 1 {
                assert(head.contains(u));
                let k = choose|k: int| 0 <= k < head.len() && head[k] == u;
                assert(all[k] == u);
            } else {
                assert(all[all.len() - 1] == u);
            }
        }
    }
}

proof fn lemma_panel_uris(cells: Seq<Cell>, n: int, u: Seq<char>)
    requires
        0 <= n <= cells.len(),
    ensures
        panel_uris(cells, n).contains(u) <==> exists|c: int, i: int|
            #![trigger cells[c].sources@[i]]
            0 <= c < n && 0 <= i < cells[c].sources.len() && cells[c].sources@[i].source_uri is Some
                && cells[c].sources@[i].source_uri->0@ == u,
    decreases n,
{
    if n > 0 {
        lemma_panel_uris(cells, n - 1, u);
        let v = cells[n - 1].sources@;
        lemma_source_uris(v, v.len() as int, u);
        let head = panel_uris(cells, n - 1);
        let tail = source_uris(v, v.len() as int);
        let all = head + tail;
        if all.contains(u) {
            let k = choose|k: int| 0 <= k < all.len() && all[k] == u;
            if k < head.len() {
                assert(head[k] == u);
                assert(head.contains(u));
            } else {
                assert(tail[k - head.len()] == u);
                assert(tail.contains(u));
                let i = choose|i: int|
                    0 <= i < v.len() && (#[trigger] v[i]).source_uri is Some && v[i].source_uri->0@
                        == u;
                assert(cells[n - 1].sources@[i].source_uri->0@ == u);
            }
        }
        if head.contains(u) {
            let k = choose|k: int| 0 <= k < head.len() && head[k] == u;
            assert(all[k] == u);
        }
        if tail.contains(u) {
            let k = choose|k: int| 0 <= k < tail.len() && tail[k] == u;
            assert(all[head.len() + k] == u);
        }
        if exists|c: int, i: int|
            #![trigger cells[c].sources@[i]]
            0 <= c < n && 0 <= i < cells[c].sources.len() && cells[c].sources@[i].source_uri is Some
                && cells[c].sources@[i].source_uri->0@ == u {
            let (c, i) = choose|c: int, i: int|
                #![trigger cells[c].sources@[i]]
                0 <= c < n && 0 <= i < cells[c].sources.len()
                    && cells[c].sources@[i].source_uri is Some
                    && cells[c].sources@[i].source_uri->0@ == u;
            if c == n - 1 {
                assert(v[i].source_uri->0@ == u);
                assert(tail.contains(u));
            } else {
                assert(head.contains(u));
            }
        }
    }
}

/// An address is missing exactly if a panel asks for it and it is not connected. None is
/// named twice.
pub proof fn addresses_are_missing_where_panels_ask_in_vain(
    cells: Seq<Cell>,
    connected: Seq<Seq<char>>,
    u: Seq<char>,
)
    ensures
        missing(cells, connected).no_duplicates(),
        missing(cells, connected).contains(u) <==> !connected.contains(u) && exists|c: int, i: int|
            #![trigger cells[c].sources@[i]]
            0 <= c < cells.len() && 0 <= i < cells[c].sources.len()
                && cells[c].sources@[i].source_uri is Some && cells[c].sources@[i].source_uri->0@
                == u,
{
    let n = cells.len() as int;
    let all = panel_uris(cells, n);
    let f = |u: Seq<char>| !connected.contains(u);
    let few = all.filter(f);
    lemma_panel_uris(cells, n, u);
    let none = Seq::<Seq<char>>::empty();
    assert(none.no_duplicates());
    with_new_adds_once(none, few);
    assert(!none.contains(u));
    if few.contains(u) {
        crate::keys::lemma_filter_members(all, f, u);
    }
    if all.contains(u) && f(u) {
        let i = choose|i: int| 0 <= i < all.len() && all[i] == u;
        crate::keys::lemma_filter_keeps(all, f, i);
    }
    assert(missing(cells, connected).contains(u) <==> few.contains(u));
}

/// A warning is given exactly where something is missing; it names one address, and
/// counts several.
pub proof fn warnings_name_one_and_count_several(m: Seq<Seq<char>>)
    ensures
        warning_words(m) is None <==> m.len() == 0,
        m.len() == 1 ==> warning_words(m) == Some(
            "Template references source `"@ + m[0]
                + "` which isn't connected — using first available."@,
        ),
        m.len() > 1 ==> warning_words(m) == Some(
            "Template references "@ + dec(m.len())
                + " sources that aren't connected — using first available."@,
        ),
{
}

// ---------------------------------------------------------------- view

/// The drone that was on view when the layout was saved is put on view again where it is
/// known; otherwise the first drone that is.
pub proof fn saved_drones_are_put_on_view(f: Fleet, saved: Option<Seq<char>>)
    ensures
        saved is Some && f.stores@.contains_key(saved->0) ==> restored(f, saved) == saved,
        (saved is None || !f.stores@.contains_key(saved->0)) && f.discovered.len() > 0 ==> restored(
            f,
            saved,
        ) == Some(f.discovered@[0]@),
        (saved is None || !f.stores@.contains_key(saved->0)) && f.discovered.len() == 0 ==> restored(
            f,
            saved,
        ) is None,
{
}

// ---------------------------------------------------------------- start

/// An entry of the drone map that was written as a number, an equals sign and a name is
/// read as that number and that name.
pub proof fn entries_are_read_as_written(k: nat, name: Seq<char>)
    requires
        k <= 255,
        name.len() > 0,
        !is_space(name[0]),
        !is_space(name.last()),
    ensures
        read_entry(dec(k) + seq!['='] + name) == Ok::<Option<(nat, Seq<char>)>, Seq<char>>(
            Some((k, name)),
        ),
{
    let e = dec(k) + seq!['='] + name;
    let i = dec(k).len() as int;
    printing_can_be_read_back(k);
    assert(e[0] == dec(k)[0]);
    assert(e.last() == name.last());
    assert(is_digit(dec(k)[0]) && is_digit(dec(k)[i - 1]));
    assert(trimmed(e) == e);
    assert forall|j: int| 0 <= j < i implies e[j] != '=' by {
        assert(e[j] == dec(k)[j]);
    }
    assert(e[i] == '=');
    first_of_unique(e, '=', '=', i);
    assert(e.take(i) =~= dec(k));
    assert(e.skip(i + 1) =~= name);
    assert(trimmed(dec(k)) == dec(k)) by {
        assert(!is_space(dec(k)[0]));
        assert(!is_space(dec(k).last()));
    }
    assert(trimmed(name) == name);
    assert(unsigned_number(dec(k), 255) == Ok::<nat, NumberError>(k));
}

/// A map of one entry names that drone and no other.
pub proof fn single_entries_name_one_drone(k: nat, name: Seq<char>)
    requires
        k <= 255,
        name.len() > 0,
        !is_space(name[0]),
        !is_space(name.last()),
        forall|i: int| 0 <= i < name.len() ==> name[i] != ',',
    ensures
        drone_names(dec(k) + seq!['='] + name) == Ok::<Map<u8, Seq<char>>, Seq<char>>(
            Map::empty().insert(k as u8, name),
        ),
{
    let e = dec(k) + seq!['='] + name;
    entries_are_read_as_written(k, name);
    printing_can_be_read_back(k);
    assert(e[0] == dec(k)[0]);
    assert(is_digit(e[0]));
    assert(e.last() == name.last());
    assert(trimmed(e) == e);
    assert forall|j: int| 0 <= j < e.len() implies e[j] != ',' by {
        if j < dec(k).len() {
            assert(e[j] == dec(k)[j]);
        } else if j > dec(k).len() {
            assert(e[j] == name[j - dec(k).len() - 1]);
        }
    }
    first_of_unique(e, ',', ',', e.len() as int);
    assert(split(e, ',') =~= seq![e]);
    reveal_with_fuel(crate::startup::read_entries, 2);
}

/// Only sources that are live and were not given are added; each of these is.
pub proof fn live_sources_are_added(
    scan: Seq<DiscoveredSource>,
    given: Seq<Seq<char>>,
    n: int,
    u: Seq<char>,
)
    requires
        0 <= n <= scan.len(),
    ensures
        found_live(scan, given, n).contains(u) <==> !given.contains(u) && exists|i: int|
            0 <= i < n && (#[trigger] scan[i]).uri@ == u && scan[i].status is Live,
    decreases n,
{
    if n > 0 {
        live_sources_are_added(scan, given, n - 1, u);
        let head = found_live(scan, given, n - 1);
        let all = found_live(scan, given, n);
        if all.contains(u) {
            let i = choose|i: int| 0 <= i < all.len() && all[i] == u;
            if i < head.len() {
                assert(head[i] == u);
                assert(head.contains(u));
            } else {
                assert(scan[n - 1].uri@ == u);
            }
        }
        if head.contains(u) {
            let i = choose|i: int| 0 <= i < head.len() && head[i] == u;
            assert(all[i] == u);
        }
        if scan[n - 1].uri@ == u && scan[n - 1].status is Live && !given.contains(u) {
            assert(all[all.len() - 1] == u);
        }
    }
}

/// What was given is opened before what was found, and the synthetic source only where
/// there is neither.
pub proof fn given_sources_are_opened_first(given: Seq<Seq<char>>, found: Seq<Seq<char>>, i: int)
    ensures
        given.len() + found.len() > 0 ==> opened_first(given, found).len() == given.len()
            + found.len(),
        0 <= i < given.len() ==> opened_first(given, found)[i] == given[i],
        0 <= i < found.len() ==> opened_first(given, found)[given.len() + i] == found[i],
        given.len() + found.len() == 0 ==> opened_first(given, found) == seq!["mock://"@],
{
}

/// The argument for labels leaves them to the panels only where it says so.
pub proof fn arguments_force_label_modes(a: LabelArg, m: LabelMode)
    ensures
        a == LabelArg::Template ==> override_of(a).effective(m) == m,
        a == LabelArg::Off ==> override_of(a).effective(m) == LabelMode::Off,
        a == LabelArg::Data ==> override_of(a).effective(m) == LabelMode::Data,
        a == LabelArg::Metadata ==> override_of(a).effective(m) == LabelMode::Metadata,
{
}

/// The title names the version first, then the template where there is one, then the
/// sources; several sources are counted and named in their order.
pub proof fn titles_name_version_template_and_sources(
    version: Seq<char>,
    template: Seq<char>,
    uris: Seq<Seq<char>>,
)
    ensures
        title_words(version, Some(template), summary_words(uris)) == "hvn-profiler v"@ + version
            + " — "@ + template + " — "@ + summary_words(uris),
        title_words(version, None, summary_words(uris)) == "hvn-profiler v"@ + version + " — "@
            + summary_words(uris),
        uris.len() == 1 ==> summary_words(uris) == uris[0],
        uris.len() == 2 ==> summary_words(uris) == dec(2) + " sources: "@ + uris[0] + " + "@
            + uris[1],
{
    if uris.len() == 2 {
        reveal_with_fuel(crate::text::joined, 2);
        assert(uris.drop_last()[0] == uris[0]);
        assert(summary_words(uris) =~= dec(2) + " sources: "@ + uris[0] + " + "@ + uris[1]);
    }
}

/// A scan shows its rows as soon as it has had any, that there are none where it found none,
/// and that it runs or waits where it has not ended yet.
pub proof fn scans_show_what_they_found(d: DiscoveryState)
    ensures
        scan_view(d) is Rows <==> d.results is Some && d.results->0.len() > 0,
        scan_view(d) is Rows ==> scan_view(d)->again == d.scanning,
        scan_view(d) is Nothing <==> d.results is Some && d.results->0.len() == 0,
        scan_view(d) is Scanning <==> d.results is None && d.scanning,
        scan_view(d) is Pending <==> d.results is None && !d.scanning,
{
}

/// Nothing runs where no command can be sent; what is on screen is shown; what is not runs
/// unseen exactly where it has something to do.
pub proof fn panels_run_where_they_can_send(can_send: bool, visible: bool, busy: bool)
    ensures
        run_of(can_send, visible, busy) == PanelRun::Shown <==> can_send && visible,
        run_of(can_send, visible, busy) == PanelRun::Unseen <==> can_send && !visible && busy,
        run_of(can_send, visible, busy) == PanelRun::Off <==> !can_send || !visible && !busy,
{
}

} // verus!
