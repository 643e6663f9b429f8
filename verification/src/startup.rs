//! Starting up: names for system numbers, the sources to connect to, and the words
//! of the window's title.
use std::collections::HashMap;
use vstd::prelude::*;
use vstd::string::*;

use crate::faults::is_member;
use crate::label::LabelOverride;
use crate::sources::{DiscoveredSource, DiscoveryStatus};
use crate::template::{opt_text, LabelMode};
use crate::text::{
    cat3, chars_of, dec, decimal, find_from, first_of, join, joined, owned, parse_unsigned, split,
    split_on, string_of, texts, trim, trimmed, unsigned_number, NumberError,
};

verus! {

broadcast use vstd::std_specs::hash::group_hash_axioms;

/// Names for system numbers.
#[derive(Clone, Debug)]
pub struct DroneMap(pub HashMap<u8, String>);

/// What is said of a text that is no number.
pub open spec fn number_words(e: NumberError) -> Seq<char> {
    match e {
        NumberError::Empty => "cannot parse integer from empty string"@,
        NumberError::InvalidDigit => "invalid digit found in string"@,
        NumberError::TooLarge => "number too large to fit in target type"@,
    }
}

fn say_number(e: NumberError) -> (r: &'static str)
    ensures
        r@ == number_words(e),
{
    match e {
        NumberError::Empty => "cannot parse integer from empty string",
        NumberError::InvalidDigit => "invalid digit found in string",
        NumberError::TooLarge => "number too large to fit in target type",
    }
}

/// One entry: nothing where it is blank, else a system number and a name with an
/// equals sign between them, or what is wrong with it.
pub open spec fn read_entry(entry: Seq<char>) -> Result<Option<(nat, Seq<char>)>, Seq<char>> {
    let e = trimmed(entry);
    let i = first_of(e, '=', '=');
    let number = unsigned_number(trimmed(e.take(i)), 255);
    let name = trimmed(e.skip(i + 1));
    if e.len() == 0 {
        Ok(None)
    } else if i >= e.len() {
        Err("invalid --drone-map entry '"@ + e + "': expected SYSID=NAME"@)
    } else if number is Err {
        Err("invalid sysid in --drone-map entry '"@ + e + "': "@ + number_words(number->Err_0))
    } else if name.len() == 0 {
        Err("empty drone name in --drone-map entry '"@ + e + "'"@)
    } else {
        Ok(Some((number->Ok_0, name)))
    }
}

/// The first `n` entries; what is wrong first is what is reported, and of two entries
/// for one number the later counts.
pub open spec fn read_entries(entries: Seq<Seq<char>>, n: int) -> Result<
    Map<u8, Seq<char>>,
    Seq<char>,
>
    decreases n,
{
    if n <= 0 {
        Ok(Map::empty())
    } else {
        match read_entries(entries, n - 1) {
            Err(e) => Err(e),
            Ok(m) => match read_entry(entries[n - 1]) {
                Err(e) => Err(e),
                Ok(None) => Ok(m),
                Ok(Some((k, v))) => Ok(m.insert(k as u8, v)),
            },
        }
    }
}

/// The names that a map holds.
pub open spec fn names_of(m: Map<u8, String>) -> Map<u8, Seq<char>> {
    m.map_values(|s: String| s@)
}

/// The names that a text gives, if all its entries are in order.
pub open spec fn drone_names(raw: Seq<char>) -> Result<Map<u8, Seq<char>>, Seq<char>> {
    let t = trimmed(raw);
    if t.len() == 0 {
        Ok(Map::empty())
    } else {
        let entries = split(t, ',');
        read_entries(entries, entries.len() as int)
    }
}

/// What is wrong first stays wrong.
proof fn lemma_first_error(entries: Seq<Seq<char>>, k: int, n: int)
    requires
        0 <= k <= n,
        read_entries(entries, k) is Err,
    ensures
        read_entries(entries, n) == read_entries(entries, k),
    decreases n,
{
    if k < n {
        lemma_first_error(entries, k, n - 1);
    }
}

/// Read one entry.
fn parse_entry(entry: &str) -> (r: Result<Option<(u8, String)>, String>)
    ensures
        match (r, read_entry(entry@)) {
            (Ok(None), Ok(None)) => true,
            (Ok(Some(p)), Ok(Some(q))) => p.0 == q.0 && p.1@ == q.1 && q.0 <= 255,
            (Err(a), Err(b)) => a@ == b,
            _ => false,
        },
{
    let e = trim(entry);
    if e.is_empty() {
        return Ok(None);
    }
    let v = chars_of(e);
    let i: usize = find_from(&v, 0, '=', '=');
    proof {
        assert(v@.skip(0) =~= e@);
    }
    if i == v.len() {
        return Err(cat3("invalid --drone-map entry '", e, "': expected SYSID=NAME"));
    }
    let left = string_of(&v, 0, i);
    let right = string_of(&v, i + 1, v.len());
    proof {
        assert(left@ =~= e@.take(i as int));
        assert(right@ =~= e@.skip(i + 1));
    }
    let sysid: u64 = match parse_unsigned(trim(left.as_str()), 255) {
        Ok(n) => n,
        Err(bad) => {
            let mut msg = cat3("invalid sysid in --drone-map entry '", e, "': ");
            msg.append(say_number(bad));
            return Err(msg);
        },
    };
    let name = trim(right.as_str());
    if name.is_empty() {
        return Err(cat3("empty drone name in --drone-map entry '", e, "'"));
    }
    proof {
        lemma_bounded(trimmed(e@.take(i as int)), 255);
    }
    Ok(Some((sysid as u8, owned(name))))
}

/// A number that was read is no larger than allowed.
proof fn lemma_bounded(s: Seq<char>, max: nat)
    ensures
        unsigned_number(s, max) is Ok ==> unsigned_number(s, max)->Ok_0 <= max,
{
    lemma_digits_bounded(crate::text::unsigned_digits(s), max);
}

proof fn lemma_digits_bounded(d: Seq<char>, max: nat)
    ensures
        crate::text::read_digits(d, max) is Ok ==> crate::text::read_digits(d, max)->Ok_0 <= max,
    decreases d.len(),
{
    if d.len() > 0 {
        lemma_digits_bounded(d.drop_last(), max);
    }
}

/// Read names for system numbers, such as `1=eric_1,2=eric_2`. Blank entries are
/// passed over.
pub fn parse_drone_map(raw: &str) -> (r: Result<DroneMap, String>)
    ensures
        match (r, drone_names(raw@)) {
            (Ok(m), Ok(n)) => names_of(m.0@) == n,
            (Err(a), Err(b)) => a@ == b,
            _ => false,
        },
{
    let mut map: HashMap<u8, String> = HashMap::new();
    let t = trim(raw);
    proof {
        assert(names_of(map@) =~= Map::empty());
    }
    if t.is_empty() {
        return Ok(DroneMap(map));
    }
    let entries = split_on(t, ',');
    let ghost all = split(t@, ',');
    let mut i: usize = 0;
    proof {
        assert(texts(entries@).len() == entries.len());
    }
    while i < entries.len()
        invariant
            i <= entries.len() == all.len(),
            texts(entries@) == all,
            drone_names(raw@) == read_entries(all, all.len() as int),
            read_entries(all, i as int) == Ok::<Map<u8, Seq<char>>, Seq<char>>(names_of(map@)),
        decreases entries.len() - i,
    {
        proof {
            assert(all[i as int] == entries@[i as int]@);
        }
        match parse_entry(entries[i].as_str()) {
            Err(e) => {
                proof {
                    lemma_first_error(all, i + 1, all.len() as int);
                }
                return Err(e);
            },
            Ok(None) => {},
            Ok(Some((sysid, name))) => {
                let ghost was = map@;
                let ghost nv = name@;
                let _ = map.insert(sysid, name);
                proof {
                    assert(names_of(map@) =~= names_of(was).insert(sysid, nv));
                }
            },
        }
        i = i + 1;
    }
    Ok(DroneMap(map))
}

// ---------------------------------------------------------------- sources

/// Is data coming from a source that a scan found?
pub open spec fn is_live(d: DiscoveredSource) -> bool {
    d.status is Live
}

/// The sources, of the first `n` that a scan found, that are live and were not given.
pub open spec fn found_live(scan: Seq<DiscoveredSource>, given: Seq<Seq<char>>, n: int) -> Seq<Seq<char>>
    decreases n,
{
    if n <= 0 {
        Seq::empty()
    } else if is_live(scan[n - 1]) && !given.contains(scan[n - 1].uri@) {
        found_live(scan, given, n - 1).push(scan[n - 1].uri@)
    } else {
        found_live(scan, given, n - 1)
    }
}

/// The live sources that a scan found and that were not given.
pub fn autodiscovered(given: &Vec<String>, scan: &Vec<DiscoveredSource>) -> (r: Vec<String>)
    ensures
        texts(r@) == found_live(scan@, texts(given@), scan.len() as int),
{
    let mut out: Vec<String> = Vec::new();
    let mut i: usize = 0;
    proof {
        assert(texts(out@) =~= found_live(scan@, texts(given@), 0));
    }
    while i < scan.len()
        invariant
            i <= scan.len(),
            texts(out@) == found_live(scan@, texts(given@), i as int),
        decreases scan.len() - i,
    {
        let live = match &scan[i].status {
            DiscoveryStatus::Live { drone_name: _ } => true,
            _ => false,
        };
        if live && !is_member(given.as_slice(), scan[i].uri.as_str()) {
            let ghost was = out@;
            out.push(scan[i].uri.clone());
            proof {
                assert(texts(out@) =~= texts(was).push(scan@[i as int].uri@));
            }
        }
        i = i + 1;
    }
    out
}

/// The sources that a program opens: those that were given, then those that were found, and
/// the synthetic one where there are neither.
pub open spec fn opened_first(given: Seq<Seq<char>>, found: Seq<Seq<char>>) -> Seq<Seq<char>> {
    if given.len() == 0 && found.len() == 0 {
        seq!["mock://"@]
    } else {
        given + found
    }
}

/// The sources to connect to: those given, then the live ones that a scan found; the
/// synthetic one where there is neither.
pub fn startup_uris(given: Vec<String>, found: &Vec<String>) -> (r: Vec<String>)
    ensures
        texts(r@) == opened_first(texts(given@), texts(found@)),
{
    let mut out = given;
    let ghost base = texts(given@);
    if out.len() == 0 && found.len() == 0 {
        out.push(owned("mock://"));
        proof {
            assert(texts(out@) =~= seq!["mock://"@]);
        }
        return out;
    }
    let mut i: usize = 0;
    while i < found.len()
        invariant
            i <= found.len(),
            texts(out@) =~= base + texts(found@).take(i as int),
        decreases found.len() - i,
    {
        let ghost was = out@;
        out.push(found[i].clone());
        proof {
            let all = texts(found@);
            assert(all[i as int] == found@[i as int]@);
            assert(texts(out@) =~= texts(was).push(all[i as int]));
            assert(all.take(i + 1) =~= all.take(i as int).push(all[i as int]));
        }
        i = i + 1;
    }
    proof {
        assert(texts(found@).take(found.len() as int) =~= texts(found@));
    }
    out
}

/// The sources in words: the one, or how many and which.
pub open spec fn summary_words(uris: Seq<Seq<char>>) -> Seq<char> {
    if uris.len() == 1 {
        uris[0]
    } else {
        dec(uris.len()) + " sources: "@ + joined(uris, " + "@)
    }
}

/// The sources in words.
pub fn sources_summary(uris: &Vec<String>) -> (r: String)
    ensures
        r@ == summary_words(texts(uris@)),
{
    proof {
        assert(texts(uris@).len() == uris.len());
    }
    if uris.len() == 1 {
        proof {
            assert(texts(uris@)[0] == uris@[0]@);
        }
        uris[0].clone()
    } else {
        let n = decimal(uris.len() as u64);
        let list = join(uris, " + ");
        cat3(n.as_str(), " sources: ", list.as_str())
    }
}

/// The title of the window: the version, the template where there is one, and the sources.
pub open spec fn title_words(
    version: Seq<char>,
    template: Option<Seq<char>>,
    summary: Seq<char>,
) -> Seq<char> {
    match template {
        Some(t) => "hvn-profiler v"@ + version + " — "@ + t + " — "@ + summary,
        None => "hvn-profiler v"@ + version + " — "@ + summary,
    }
}

/// The title of the window.
pub fn window_title(version: &str, template: Option<&str>, summary: &str) -> (r: String)
    ensures
        r@ == title_words(
            version@,
            match template {
                Some(t) => Some(t@),
                None => None,
            },
            summary@,
        ),
{
    let mut s = cat3("hvn-profiler v", version, " — ");
    match template {
        Some(t) => {
            s.append(t);
            s.append(" — ");
        },
        None => {},
    }
    s.append(summary);
    s
}

/// What is said of sources that were found at the start; nothing where none was.
pub fn discovery_toast(found: usize) -> (r: Option<String>)
    ensures
        opt_text(r) == if found == 0 {
            None
        } else {
            Some(
                "Auto-connected to "@ + dec(found as nat) + " source(s) discovered on localhost"@,
            )
        },
{
    if found == 0 {
        None
    } else {
        let n = decimal(found as u64);
        Some(cat3("Auto-connected to ", n.as_str(), " source(s) discovered on localhost"))
    }
}

// ---------------------------------------------------------------- switches

/// The label mode that was asked for at the start or in the toolbar.
#[derive(Clone, Copy, Debug, PartialEq, Eq, Structural)]
pub enum LabelArg {
    /// Each panel goes by its own.
    Template,
    Off,
    Data,
    Metadata,
}

impl Default for LabelArg {
    fn default() -> (r: LabelArg)
        ensures
            r == LabelArg::Off,
    {
        LabelArg::Off
    }
}

/// What an argument makes of the panels' label modes.
pub open spec fn override_of(a: LabelArg) -> LabelOverride {
    match a {
        LabelArg::Template => LabelOverride::Respect,
        LabelArg::Off => LabelOverride::Force(LabelMode::Off),
        LabelArg::Data => LabelOverride::Force(LabelMode::Data),
        LabelArg::Metadata => LabelOverride::Force(LabelMode::Metadata),
    }
}

impl LabelArg {
    /// The label mode of all panels.
    pub fn to_override(self) -> (r: LabelOverride)
        ensures
            r == override_of(self),
    {
        match self {
            LabelArg::Template => LabelOverride::Respect,
            LabelArg::Off => LabelOverride::Force(LabelMode::Off),
            LabelArg::Data => LabelOverride::Force(LabelMode::Data),
            LabelArg::Metadata => LabelOverride::Force(LabelMode::Metadata),
        }
    }
}

} // verus!
