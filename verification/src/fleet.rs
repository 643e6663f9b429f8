//! The drones that data comes from: which drone a sample belongs to, where it is
//! stored, which drones are known, and which one is on view.
use std::collections::HashMap;
use vstd::prelude::*;

use crate::faults::{add_new, with_new, with_new_adds_once};
use crate::keymap::KeyMap;
use crate::merge::is_merge;
use crate::num::Num;
use crate::store::{TextLogEntry, TraceStore, DEFAULT_WINDOW_US};
use crate::template::opt_text;
use crate::text::{cat2, cat3, dec, decimal, owned, precedes, same_text, texts};

verus! {

broadcast use vstd::std_specs::hash::group_hash_axioms;

/// How many samples are taken in at most between two frames.
pub const MAX_DRAIN_PER_FRAME: usize = 5_000;

/// The channel that is shown where there is no template.
pub const PREFERRED_KEY: &'static str = "accel[0]";

/// The name of drones that give none.
pub const UNNAMED_DRONE: &'static str = "(unnamed)";

/// What a sample carries.
#[derive(Clone, Debug)]
pub enum SampleValue {
    /// The channel is announced, but has no value.
    Null,
    Scalar(Num),
    Bool(bool),
    Text(String),
    IntVector(Vec<i64>),
    Vector(Vec<Num>),
    TextLog(Vec<TextLogEntry>),
}

/// A value of a channel at a time.
#[derive(Clone, Debug)]
pub struct Sample {
    pub drone_name: Option<String>,
    /// The system number on the link, where the transport has one.
    pub sysid: Option<u8>,
    /// Microseconds.
    pub ts: i64,
    pub key: String,
    pub value: SampleValue,
}

/// What became of a sample.
#[derive(Clone, Debug)]
pub struct Routed {
    /// The drone whose store took it.
    pub drone: String,
    /// Is this the drone's first?
    pub is_new: bool,
}

/// Is it the name that a drone gets from its system number alone?
pub open spec fn synthetic(name: Seq<char>, sysid: u8) -> bool {
    name == "drone_"@ + dec(sysid as nat)
}

/// Is it the name that a drone gets from its system number alone?
pub fn is_synthetic_drone_name(name: &str, sysid: u8) -> (r: bool)
    ensures
        r == synthetic(name@, sysid),
{
    let n = decimal(sysid as u64);
    let expected = cat2("drone_", n.as_str());
    same_text(name, expected.as_str())
}

/// The name that a sample gives.
pub open spec fn raw_name(name: Option<String>) -> Seq<char> {
    match name {
        Some(n) => n@,
        None => UNNAMED_DRONE@,
    }
}

/// `base[i]`.
pub open spec fn indexed(base: Seq<char>, i: int) -> Seq<char> {
    base + "["@ + dec(i as nat) + "]"@
}

/// Does `chain` lead from store `s` to store `next` by the components of a vector,
/// one behind the other?
pub open spec fn component_chain(
    chain: Seq<TraceStore>,
    s: TraceStore,
    next: TraceStore,
    t: i64,
    key: Seq<char>,
    values: Seq<Num>,
) -> bool {
    &&& chain.len() == values.len() + 1
    &&& chain[0] == s
    &&& chain.last() == next
    &&& forall|i: int|
        0 <= i < values.len() ==> (#[trigger] chain[i]).after_push(
            chain[i + 1],
            t,
            indexed(key, i),
            values[i],
        )
}

/// Is `next` the store `s` after the components of a vector, one behind the other?
pub open spec fn after_components(
    s: TraceStore,
    next: TraceStore,
    t: i64,
    key: Seq<char>,
    values: Seq<Num>,
) -> bool {
    exists|chain: Seq<TraceStore>| component_chain(chain, s, next, t, key, values)
}

/// Does `chain` lead from store `s` to store `next` by the entries of a log, one
/// behind the other?
pub open spec fn entry_chain(
    chain: Seq<TraceStore>,
    s: TraceStore,
    next: TraceStore,
    t: i64,
    key: Seq<char>,
    entries: Seq<TextLogEntry>,
) -> bool {
    &&& chain.len() == entries.len() + 1
    &&& chain[0] == s
    &&& chain.last() == next
    &&& forall|i: int|
        0 <= i < entries.len() ==> (#[trigger] chain[i]).after_log(chain[i + 1], t, key, entries[i])
}

/// Is `next` the store `s` after the entries of a log, one behind the other?
pub open spec fn after_entries(
    s: TraceStore,
    next: TraceStore,
    t: i64,
    key: Seq<char>,
    entries: Seq<TextLogEntry>,
) -> bool {
    exists|chain: Seq<TraceStore>| entry_chain(chain, s, next, t, key, entries)
}

/// Does a sample carry no value? A number that is none counts as such.
pub open spec fn empty_value(v: SampleValue) -> bool {
    match v {
        SampleValue::Null => true,
        SampleValue::Scalar(x) => x.nan(),
        _ => false,
    }
}

/// Is `next` the store `s` after a sample?
pub open spec fn after_sample(
    s: TraceStore,
    next: TraceStore,
    t: i64,
    key: Seq<char>,
    value: SampleValue,
) -> bool {
    match value {
        SampleValue::Null => s.after_null(next, key),
        SampleValue::Scalar(x) => if x.nan() {
            s.after_null(next, key)
        } else {
            s.after_push(next, t, key, x)
        },
        SampleValue::Bool(b) => s.after_push(
            next,
            t,
            key,
            (Num { bits: if b { crate::num::ONE_WORD } else { 0 } }),
        ),
        SampleValue::Text(x) => s.after_string(next, t, key, x@),
        SampleValue::IntVector(v) => s.after_vec_int(next, t, key, v),
        SampleValue::Vector(v) => after_components(s, next, t, key, v@),
        SampleValue::TextLog(v) => after_entries(s, next, t, key, v@),
    }
}

/// Put a sample into a store.
fn store_sample(store: &mut TraceStore, t: i64, key: &str, value: SampleValue)
    requires
        old(store).wf(),
    ensures
        final(store).wf(),
        after_sample(*old(store), *final(store), t, key@, value),
{
    let ghost start = *store;
    match value {
        SampleValue::Null => {
            store.note_null_key(key);
        },
        SampleValue::Scalar(x) => {
            if x.is_nan() {
                store.note_null_key(key);
            } else {
                store.push(t, key, x);
            }
        },
        SampleValue::Bool(b) => {
            store.push_bool(t, key, b);
        },
        SampleValue::Text(x) => {
            store.push_string(t, key, x.as_str());
        },
        SampleValue::IntVector(v) => {
            store.push_vec_int(t, key, v);
        },
        SampleValue::Vector(v) => {
            let mut i: usize = 0;
            let ghost mut chain: Seq<TraceStore> = seq![start];
            while i < v.len()
                invariant
                    i <= v.len(),
                    store.wf(),
                    component_chain(chain, start, *store, t, key@, v@.take(i as int)),
                decreases v.len() - i,
            {
                let n = decimal(i as u64);
                let head = cat2(key, "[");
                let full = cat3(head.as_str(), n.as_str(), "]");
                let ghost before = chain;
                store.push(t, full.as_str(), v[i]);
                proof {
                    assert(full@ == indexed(key@, i as int));
                    chain = chain.push(*store);
                    let vs = v@.take(i + 1);
                    assert forall|k: int| 0 <= k < vs.len() implies (#[trigger] chain[k]).after_push(
                        chain[k + 1],
                        t,
                        indexed(key@, k),
                        vs[k],
                    ) by {
                        if k < i {
                            assert(before[k].after_push(
                                before[k + 1],
                                t,
                                indexed(key@, k),
                                v@.take(i as int)[k],
                            ));
                        }
                    }
                }
                i = i + 1;
            }
            proof {
                assert(v@.take(v.len() as int) =~= v@);
                assert(component_chain(chain, start, *store, t, key@, v@));
            }
        },
        SampleValue::TextLog(v) => {
            let ghost all = v@;
            let mut rest: Vec<TextLogEntry> = v;
            let ghost mut done: int = 0;
            let ghost mut chain: Seq<TraceStore> = seq![start];
            while rest.len() > 0
                invariant
                    0 <= done <= all.len(),
                    rest@ == all.skip(done),
                    store.wf(),
                    entry_chain(chain, start, *store, t, key@, all.take(done)),
                decreases rest.len(),
            {
                let ghost before = chain;
                let e = rest.remove(0);
                proof {
                    assert(e == all[done]);
                    assert(rest@ =~= all.skip(done + 1));
                }
                store.push_text_log(t, key, e);
                proof {
                    chain = chain.push(*store);
                    let es = all.take(done + 1);
                    assert forall|k: int| 0 <= k < es.len() implies (#[trigger] chain[k]).after_log(
                        chain[k + 1],
                        t,
                        key@,
                        es[k],
                    ) by {
                        if k < done {
                            assert(before[k].after_log(before[k + 1], t, key@, all.take(done)[k]));
                        }
                    }
                    done = done + 1;
                }
            }
            proof {
                assert(all.take(done) =~= all);
                assert(entry_chain(chain, start, *store, t, key@, all));
            }
        },
    }
}

/// The drones and their data.
#[derive(Clone, Debug)]
pub struct Fleet {
    /// The data of each drone.
    pub stores: KeyMap<TraceStore>,
    /// The drone on view.
    pub view_drone: Option<String>,
    /// The drones in the order in which they were first heard of.
    pub discovered: Vec<String>,
    /// The name of the drone behind each system number.
    pub names: HashMap<u8, String>,
    /// When each channel last had a value.
    pub last_seen: KeyMap<i64>,
}

/// A list of names with one of them replaced.
pub open spec fn renamed(v: Seq<Seq<char>>, from: Seq<char>, to: Seq<char>) -> Seq<Seq<char>> {
    v.map_values(
        |s: Seq<char>|
            if s == from {
                to
            } else {
                s
            },
    )
}

/// Is `next` the fleet after a sample was taken in?
pub open spec fn after_ingest(s: Fleet, next: Fleet, sample: Sample, r: Routed) -> bool {
    let raw = raw_name(sample.drone_name);
    let key = s.routed(sample.sysid, raw);
    let drones = s.moved_drones(sample.sysid, raw);
    let names = s.moved_names(sample.sysid, raw);
    let view = s.moved_view(sample.sysid, raw);
    &&& r.drone@ == key
    &&& r.is_new == !drones.contains(key)
    &&& next.stores@.dom() == drones.insert(key)
    &&& forall|k: Seq<char>|
        k != key && drones.contains(k) ==> #[trigger] next.stores@[k] == s.stores@[k]
    &&& exists|b: TraceStore| #[trigger]
        s.opened(sample.sysid, raw, b) && after_sample(
            b,
            next.stores@[key],
            sample.ts,
            sample.key@,
            sample.value,
        )
    &&& texts(next.discovered@) == if r.is_new {
        names.push(key)
    } else {
        names
    }
    &&& opt_text(next.view_drone) == if r.is_new && view is None {
        Some(key)
    } else {
        view
    }
    &&& next.names@.dom() == if sample.sysid is Some {
        s.names@.dom().insert(sample.sysid->0)
    } else {
        s.names@.dom()
    }
    &&& sample.sysid is Some ==> next.names@[sample.sysid->0]@ == key
    &&& forall|k: u8|
        s.names@.contains_key(k) && sample.sysid != Some(k) ==> #[trigger] next.names@[k] == s.names@[k]
    &&& next.last_seen@ == if empty_value(sample.value) {
        s.last_seen@
    } else {
        s.last_seen@.insert(sample.key@, sample.ts)
    }
}

/// The drone that is put on view for one that was saved: itself where it is known, else the
/// first that is.
pub open spec fn restored(f: Fleet, captured: Option<Seq<char>>) -> Option<Seq<char>> {
    if captured is Some && f.stores@.contains_key(captured->0) {
        captured
    } else if f.discovered.len() > 0 {
        Some(f.discovered@[0]@)
    } else {
        None
    }
}

impl Fleet {
    /// Every map and every store is in order.
    pub open spec fn wf(self) -> bool {
        &&& self.stores.wf()
        &&& self.last_seen.wf()
        &&& forall|k: Seq<char>| self.stores@.contains_key(k) ==> (#[trigger] self.stores@[k]).wf()
    }

    /// Does a sample bring the real name of a drone that had been named after its
    /// system number?
    pub open spec fn upgrades(self, sysid: Option<u8>, raw: Seq<char>) -> bool {
        &&& sysid is Some
        &&& self.names@.contains_key(sysid->0)
        &&& synthetic(self.names@[sysid->0]@, sysid->0)
        &&& !synthetic(raw, sysid->0)
    }

    /// The drone that a sample belongs to: the one behind its system number, where
    /// that is known and keeps its name, else the one it names.
    pub open spec fn routed(self, sysid: Option<u8>, raw: Seq<char>) -> Seq<char> {
        if sysid is Some && self.names@.contains_key(sysid->0) && !self.upgrades(sysid, raw) {
            self.names@[sysid->0]@
        } else {
            raw
        }
    }

    /// The drones with a store, with the real name of one that came up.
    pub open spec fn moved_drones(self, sysid: Option<u8>, raw: Seq<char>) -> Set<Seq<char>> {
        let prev = self.names@[sysid->0]@;
        if self.upgrades(sysid, raw) && self.stores@.contains_key(prev) {
            self.stores@.dom().remove(prev).insert(raw)
        } else {
            self.stores@.dom()
        }
    }

    /// Is it the store that a sample goes to? Where the real name of a drone came up,
    /// that is the store it had so far, put to that of the real name where there is
    /// one; a drone without a store gets a new one.
    pub open spec fn opened(self, sysid: Option<u8>, raw: Seq<char>, b: TraceStore) -> bool {
        let key = self.routed(sysid, raw);
        let prev = self.names@[sysid->0]@;
        if self.upgrades(sysid, raw) && self.stores@.contains_key(prev) {
            if self.stores@.contains_key(raw) {
                is_merge(self.stores@[raw], self.stores@[prev], b)
            } else {
                b == self.stores@[prev]
            }
        } else if self.stores@.contains_key(key) {
            b == self.stores@[key]
        } else {
            b.fresh_store(DEFAULT_WINDOW_US)
        }
    }

    /// The known drones, with the real name of one that came up, none of them twice.
    pub open spec fn moved_names(self, sysid: Option<u8>, raw: Seq<char>) -> Seq<Seq<char>> {
        if self.upgrades(sysid, raw) {
            with_new(
                Seq::empty(),
                renamed(texts(self.discovered@), self.names@[sysid->0]@, raw),
            )
        } else {
            texts(self.discovered@)
        }
    }

    /// The drone on view, with the real name of one that came up.
    pub open spec fn moved_view(self, sysid: Option<u8>, raw: Seq<char>) -> Option<Seq<char>> {
        if self.upgrades(sysid, raw) && opt_text(self.view_drone) == Some(
            self.names@[sysid->0]@,
        ) {
            Some(raw)
        } else {
            opt_text(self.view_drone)
        }
    }

    /// The list of drones has each drone with data once and no other, and the drone
    /// on view is one of them.
    pub open spec fn roster_ok(self) -> bool {
        let names = texts(self.discovered@);
        &&& names.no_duplicates()
        &&& forall|k: Seq<char>| #[trigger] names.contains(k) <==> self.stores@.contains_key(k)
        &&& self.view_drone is Some ==> self.stores@.contains_key(self.view_drone->0@)
        &&& names.len() > 0 ==> self.view_drone is Some
    }

    /// No drones.
    pub fn new() -> (r: Fleet)
        ensures
            r.wf(),
            r.roster_ok(),
            r.stores@ == Map::<Seq<char>, TraceStore>::empty(),
            r.view_drone is None,
            r.discovered@ == Seq::<String>::empty(),
            r.names@ == Map::<u8, String>::empty(),
            r.last_seen@ == Map::<Seq<char>, i64>::empty(),
    {
        Fleet {
            stores: KeyMap::new(),
            view_drone: None,
            discovered: Vec::new(),
            names: HashMap::new(),
            last_seen: KeyMap::new(),
        }
    }

    /// Give a drone its real name, in the stores, in the list, and on view. The data of
    /// a drone that has the name already is put together with its own.
    fn rename(&mut self, prev: &str, raw: &str)
        requires
            old(self).wf(),
            prev@ != raw@,
        ensures
            final(self).wf(),
            final(self).stores@.dom() == if old(self).stores@.contains_key(prev@) {
                old(self).stores@.dom().remove(prev@).insert(raw@)
            } else {
                old(self).stores@.dom()
            },
            forall|k: Seq<char>|
                k != raw@ && final(self).stores@.contains_key(k) ==> #[trigger] final(self).stores@[k]
                    == old(self).stores@[k],
            old(self).stores@.contains_key(prev@) ==> if old(self).stores@.contains_key(raw@) {
                is_merge(
                    old(self).stores@[raw@],
                    old(self).stores@[prev@],
                    final(self).stores@[raw@],
                )
            } else {
                final(self).stores@[raw@] == old(self).stores@[prev@]
            },
            !old(self).stores@.contains_key(prev@) ==> final(self).stores@ == old(self).stores@,
            texts(final(self).discovered@) == with_new(
                Seq::empty(),
                renamed(texts(old(self).discovered@), prev@, raw@),
            ),
            opt_text(final(self).view_drone) == if opt_text(old(self).view_drone) == Some(prev@) {
                Some(raw@)
            } else {
                opt_text(old(self).view_drone)
            },
            final(self).names == old(self).names,
            final(self).last_seen == old(self).last_seen,
    {
        let ghost start = *self;
        match self.stores.remove(prev) {
            Some(s) => {
                let joined = match self.stores.remove(raw) {
                    Some(own) => {
                        let mut both = own;
                        both.absorb(s);
                        both
                    },
                    None => s,
                };
                self.stores.insert(owned(raw), joined);
                proof {
                    assert(self.stores@.dom() =~= start.stores@.dom().remove(prev@).insert(raw@));
                    assert(self.stores@[raw@] == joined);
                }
            },
            None => {
                proof {
                    assert(self.stores@ =~= start.stores@);
                }
            },
        }
        proof {
            assert forall|k: Seq<char>| self.stores@.contains_key(k) implies (
            #[trigger] self.stores@[k]).wf() by {
                if k != raw@ {
                    assert(start.stores@.contains_key(k));
                    assert(self.stores@[k] == start.stores@[k]);
                }
            }
        }
        let ghost mid = *self;
        let mut list: Vec<String> = Vec::new();
        let ghost old_names = texts(start.discovered@);
        let mut i: usize = 0;
        while i < self.discovered.len()
            invariant
                i <= self.discovered.len(),
                self.discovered@ == start.discovered@,
                old_names == texts(start.discovered@),
                texts(list@) =~= renamed(old_names, prev@, raw@).take(i as int),
                *self == mid,
            decreases self.discovered.len() - i,
        {
            let ghost was = list@;
            if same_text(self.discovered[i].as_str(), prev) {
                list.push(owned(raw));
            } else {
                list.push(self.discovered[i].clone());
            }
            proof {
                let all = renamed(old_names, prev@, raw@);
                assert(old_names[i as int] == start.discovered@[i as int]@);
                assert(texts(list@) =~= texts(was).push(all[i as int]));
                assert(all.take(i + 1) =~= all.take(i as int).push(all[i as int]));
            }
            i = i + 1;
        }
        proof {
            let all = renamed(old_names, prev@, raw@);
            assert(all.take(all.len() as int) =~= all);
        }
        let mut once: Vec<String> = Vec::new();
        proof {
            assert(texts(once@) =~= Seq::<Seq<char>>::empty());
        }
        add_new(&mut once, &list);
        self.discovered = once;
        let on_view = match &self.view_drone {
            Some(v) => same_text(v.as_str(), prev),
            None => false,
        };
        if on_view {
            self.view_drone = Some(owned(raw));
        }
    }

    /// The drone that a sample belongs to. Its system number is remembered, and a
    /// drone that had been named after its number is given its real name.
    fn resolve(&mut self, sysid: Option<u8>, raw: &str) -> (r: String)
        requires
            old(self).wf(),
        ensures
            final(self).wf(),
            r@ == old(self).routed(sysid, raw@),
            final(self).stores@.dom() == old(self).moved_drones(sysid, raw@),
            forall|k: Seq<char>|
                k != r@ && final(self).stores@.contains_key(k) ==> #[trigger] final(self).stores@[k]
                    == old(self).stores@[k],
            final(self).stores@.contains_key(r@) ==> old(self).opened(
                sysid,
                raw@,
                final(self).stores@[r@],
            ),
            texts(final(self).discovered@) == old(self).moved_names(sysid, raw@),
            opt_text(final(self).view_drone) == old(self).moved_view(sysid, raw@),
            final(self).names@.dom() == if sysid is Some {
                old(self).names@.dom().insert(sysid->0)
            } else {
                old(self).names@.dom()
            },
            sysid is Some ==> final(self).names@[sysid->0]@ == r@,
            forall|k: u8|
                old(self).names@.contains_key(k) && sysid != Some(k) ==> #[trigger] final(
                    self).names@[k] == old(self).names@[k],
            final(self).last_seen == old(self).last_seen,
    {
        let ghost start = *self;
        match sysid {
            None => owned(raw),
            Some(sid) => {
                let known: Option<String> = match self.names.get(&sid) {
                    Some(c) => Some(c.clone()),
                    None => None,
                };
                match known {
                    Some(canonical) => {
                        if is_synthetic_drone_name(canonical.as_str(), sid)
                            && !is_synthetic_drone_name(raw, sid) {
                            self.rename(canonical.as_str(), raw);
                            let _ = self.names.insert(sid, owned(raw));
                            proof {
                                assert(self.names@.dom() =~= start.names@.dom().insert(sid));
                            }
                            owned(raw)
                        } else {
                            proof {
                                assert(self.names@.dom() =~= start.names@.dom().insert(sid));
                            }
                            canonical
                        }
                    },
                    None => {
                        let _ = self.names.insert(sid, owned(raw));
                        owned(raw)
                    },
                }
            },
        }
    }

    /// Take a sample in. It goes to the store of the drone that it belongs to, which
    /// is made where there is none; a new drone joins the list, and the first comes
    /// on view.
    pub fn ingest(&mut self, sample: Sample) -> (r: Routed)
        requires
            old(self).wf(),
        ensures
            final(self).wf(),
            after_ingest(*old(self), *final(self), sample, r),
    {
        let ghost start = *self;
        let raw = match &sample.drone_name {
            Some(n) => n.clone(),
            None => owned(UNNAMED_DRONE),
        };
        let key = self.resolve(sample.sysid, raw.as_str());
        let ghost mid = *self;
        let found = self.stores.remove(key.as_str());
        let is_new = found.is_none();
        let mut store = match found {
            Some(s) => s,
            None => TraceStore::default(),
        };
        let ghost first = store;
        let carries = match &sample.value {
            SampleValue::Null => false,
            SampleValue::Scalar(x) => !x.is_nan(),
            _ => true,
        };
        let Sample { drone_name: _, sysid: _, ts, key: channel, value } = sample;
        store_sample(&mut store, ts, channel.as_str(), value);
        let ghost after = store;
        proof {
            assert(start.opened(sample.sysid, raw@, first));
        }
        self.stores.insert(key.clone(), store);
        if carries {
            self.last_seen.insert(channel, ts);
        }
        if is_new {
            let ghost was = self.discovered@;
            self.discovered.push(key.clone());
            proof {
                assert(texts(self.discovered@) =~= texts(was).push(key@));
            }
            if self.view_drone.is_none() {
                self.view_drone = Some(key.clone());
            }
        }
        proof {
            assert(self.stores@.dom() =~= mid.stores@.dom().insert(key@));
            assert(self.stores@[key@] == after);
            assert forall|k: Seq<char>| self.stores@.contains_key(k) implies (
            #[trigger] self.stores@[k]).wf() by {
                if k != key@ {
                    assert(self.stores@[k] == mid.stores@[k]);
                }
            }
        }
        Routed { drone: key, is_new }
    }

    /// The drone to put on view after a template was loaded: the one that was, where
    /// it still has data, else the first that was heard of.
    pub fn restore_view_drone(&mut self, captured: Option<String>)
        requires
            old(self).wf(),
        ensures
            final(self).wf(),
            *final(self) == (Fleet { view_drone: final(self).view_drone, ..*old(self) }),
            opt_text(final(self).view_drone) == restored(*old(self), opt_text(captured)),
    {
        let first: Option<String> = if self.discovered.len() > 0 {
            Some(self.discovered[0].clone())
        } else {
            None
        };
        self.view_drone = match captured {
            Some(d) => if self.stores.contains_key(d.as_str()) {
                Some(d)
            } else {
                first
            },
            None => first,
        };
    }

    /// Put another of the known drones on view. Is it one of them?
    pub fn put_on_view(&mut self, index: usize) -> (r: bool)
        requires
            old(self).wf(),
        ensures
            final(self).wf(),
            r == (index < old(self).discovered.len()),
            r ==> opt_text(final(self).view_drone) == Some(old(self).discovered@[index as int]@),
            !r ==> final(self).view_drone == old(self).view_drone,
            *final(self) == (Fleet { view_drone: final(self).view_drone, ..*old(self) }),
    {
        if index < self.discovered.len() {
            self.view_drone = Some(self.discovered[index].clone());
            true
        } else {
            false
        }
    }

    /// The face of the drone selector: the drone on view, else the first. None while
    /// there are not two drones to choose from.
    pub fn selector_caption(&self) -> (r: Option<String>)
        ensures
            opt_text(r) == if self.discovered.len() < 2 {
                None
            } else {
                match self.view_drone {
                    Some(d) => Some(d@),
                    None => Some(self.discovered@[0]@),
                }
            },
    {
        if self.discovered.len() < 2 {
            return None;
        }
        match &self.view_drone {
            Some(d) => Some(d.clone()),
            None => Some(self.discovered[0].clone()),
        }
    }

    /// The data of the drone on view.
    pub fn view_store(&self) -> (r: Option<&TraceStore>)
        requires
            self.wf(),
        ensures
            r is Some <==> self.view_drone is Some && self.stores@.contains_key(
                self.view_drone->0@,
            ),
            r is Some ==> *r->0 == self.stores@[self.view_drone->0@] && r->0.wf(),
    {
        match &self.view_drone {
            Some(d) => self.stores.get(d.as_str()),
            None => None,
        }
    }

    /// The data of all drones.
    pub fn all_stores(&self) -> (r: Vec<&TraceStore>)
        requires
            self.wf(),
        ensures
            r.len() == self.stores.entries.len(),
            forall|i: int|
                0 <= i < r.len() ==> *(#[trigger] r@[i]) == self.stores.entries@[i].1
                    && r@[i].wf(),
    {
        let mut out: Vec<&TraceStore> = Vec::new();
        let mut i: usize = 0;
        while i < self.stores.entries.len()
            invariant
                self.wf(),
                i <= self.stores.entries.len(),
                out.len() == i,
                forall|k: int|
                    0 <= k < i ==> *(#[trigger] out@[k]) == self.stores.entries@[k].1
                        && out@[k].wf(),
            decreases self.stores.entries.len() - i,
        {
            proof {
                self.stores.entry_value(i as int);
            }
            out.push(&self.stores.entries[i].1);
            i = i + 1;
        }
        out
    }
}

/// The channel that is shown where there is no template: the preferred one where it
/// has points, else the one with the most, of several the first in the alphabet.
pub fn select_key(store: &TraceStore) -> (r: Option<String>)
    requires
        store.wf(),
    ensures
        store.series(PREFERRED_KEY@).len() > 0 ==> opt_text(r) == Some(PREFERRED_KEY@),
        store.series(PREFERRED_KEY@).len() == 0 ==> {
            &&& r is None <==> store.traces.entries.len() == 0
            &&& r is Some ==> {
                let b = r->0@;
                &&& store.traces@.contains_key(b)
                &&& forall|k: Seq<char>|
                    store.traces@.contains_key(k) && k != b ==> (#[trigger] store.series(k)).len()
                        < store.series(b).len() || (store.series(k).len() == store.series(b).len()
                        && precedes(b, k))
            }
        },
{
    if store.len(PREFERRED_KEY) > 0 {
        Some(owned(PREFERRED_KEY))
    } else {
        store.busiest_key()
    }
}

/// Once a drone has a real name, everything that comes under its system number goes
/// to it, whatever name it comes under.
pub proof fn one_number_one_drone(f: Fleet, sysid: u8, raw: Seq<char>)
    requires
        f.names@.contains_key(sysid),
        !synthetic(f.names@[sysid]@, sysid),
    ensures
        f.routed(Some(sysid), raw) == f.names@[sysid]@,
        f.moved_drones(Some(sysid), raw) == f.stores@.dom(),
        f.moved_names(Some(sysid), raw) == texts(f.discovered@),
{
}

/// Each drone has its own data: a sample leaves the stores of all other drones as
/// they were.
pub proof fn drones_do_not_mix(f: Fleet, next: Fleet, sample: Sample, r: Routed, other: Seq<char>)
    requires
        after_ingest(f, next, sample, r),
        f.stores@.contains_key(other),
        other != r.drone@,
        f.upgrades(sample.sysid, raw_name(sample.drone_name)) ==> other
            != f.names@[sample.sysid->0]@,
    ensures
        next.stores@.contains_key(other),
        next.stores@[other] == f.stores@[other],
{
    assert(f.moved_drones(sample.sysid, raw_name(sample.drone_name)).contains(other));
    assert(next.stores@.dom().contains(other));
}

/// A drone that is known under two names becomes one: once its real name comes up, the
/// name after its number is gone, and the store of the real name holds the data of both.
pub proof fn two_names_become_one(f: Fleet, next: Fleet, sample: Sample, r: Routed)
    requires
        after_ingest(f, next, sample, r),
        f.upgrades(sample.sysid, raw_name(sample.drone_name)),
        f.stores@.contains_key(f.names@[sample.sysid->0]@),
        f.stores@.contains_key(raw_name(sample.drone_name)),
    ensures
        r.drone@ == raw_name(sample.drone_name),
        !r.is_new,
        !next.stores@.contains_key(f.names@[sample.sysid->0]@),
        exists|b: TraceStore| #[trigger]
            is_merge(f.stores@[r.drone@], f.stores@[f.names@[sample.sysid->0]@], b) && after_sample(
                b,
                next.stores@[r.drone@],
                sample.ts,
                sample.key@,
                sample.value,
            ),
{
    let raw = raw_name(sample.drone_name);
    let prev = f.names@[sample.sysid->0]@;
    let b = choose|b: TraceStore| #[trigger]
        f.opened(sample.sysid, raw, b) && after_sample(
            b,
            next.stores@[raw],
            sample.ts,
            sample.key@,
            sample.value,
        );
    assert(is_merge(f.stores@[raw], f.stores@[prev], b));
    assert(!next.stores@.dom().contains(prev));
}

/// The list of drones stays right: each drone with data is in it once and no other,
/// and one of them is on view.
pub proof fn roster_stays_right(f: Fleet, next: Fleet, sample: Sample, r: Routed)
    requires
        f.roster_ok(),
        after_ingest(f, next, sample, r),
    ensures
        next.roster_ok(),
{
    let (sysid, raw, is_new) = (sample.sysid, raw_name(sample.drone_name), r.is_new);
    let key = f.routed(sysid, raw);
    let drones = f.moved_drones(sysid, raw);
    let names = f.moved_names(sysid, raw);
    let old_names = texts(f.discovered@);
    let up = f.upgrades(sysid, raw);
    let prev = f.names@[sysid->0]@;
    assert(names.no_duplicates() && (forall|k: Seq<char>| #[trigger]
        names.contains(k) <==> drones.contains(k))) by {
        if up {
            let all = renamed(old_names, prev, raw);
            with_new_adds_once(Seq::empty(), all);
            assert forall|k: Seq<char>| #[trigger] names.contains(k) <==> drones.contains(k) by {
                if all.contains(k) {
                    let i = choose|i: int| 0 <= i < all.len() && all[i] == k;
                    assert(old_names.contains(old_names[i]));
                    if old_names[i] == prev {
                        assert(f.stores@.contains_key(prev));
                    }
                }
                if drones.contains(k) {
                    if k == raw && f.stores@.contains_key(prev) {
                        assert(old_names.contains(prev));
                        let i = choose|i: int| 0 <= i < old_names.len() && old_names[i] == prev;
                        assert(all[i] == raw);
                    } else {
                        assert(f.stores@.contains_key(k));
                        assert(old_names.contains(k));
                        let i = choose|i: int| 0 <= i < old_names.len() && old_names[i] == k;
                        assert(all[i] == k);
                    }
                }
            }
        }
    }
    let nn = texts(next.discovered@);
    assert forall|k: Seq<char>| #[trigger] nn.contains(k) <==> next.stores@.contains_key(k) by {
        assert(next.stores@.contains_key(k) <==> next.stores@.dom().contains(k));
        if is_new {
            if nn.contains(k) && k != key {
                let i = choose|i: int| 0 <= i < nn.len() && nn[i] == k;
                assert(names[i] == k);
                assert(names.contains(k));
            }
            if names.contains(k) {
                let i = choose|i: int| 0 <= i < names.len() && names[i] == k;
                assert(nn[i] == k);
            }
            if k == key {
                assert(nn[nn.len() - 1] == key);
            }
        } else {
            assert(names.contains(key));
        }
        assert(names.contains(k) <==> drones.contains(k));
    }
    if is_new {
        assert(!names.contains(key));
        assert forall|i: int, j: int| 0 <= i < nn.len() && 0 <= j < nn.len() && i != j implies nn[i]
            != nn[j] by {
            if i < names.len() {
                assert(names.contains(names[i]));
            }
            if j < names.len() {
                assert(names.contains(names[j]));
            }
        }
    }
    let view = f.moved_view(sysid, raw);
    if view is Some {
        assert(drones.contains(view->0));
        assert(next.stores@.dom().contains(view->0));
    }
    if next.view_drone is Some {
        assert(next.stores@.dom().contains(next.view_drone->0@));
    }
    if nn.len() > 0 && !is_new {
        assert(names.contains(nn[0]));
        assert(drones.contains(nn[0]));
        assert(old_names.len() > 0) by {
            if old_names.len() == 0 {
                if f.stores@.contains_key(prev) {
                    assert(old_names.contains(prev));
                }
                if f.stores@.contains_key(nn[0]) {
                    assert(old_names.contains(nn[0]));
                }
            }
        }
        assert(f.view_drone is Some);
    }
}

} // verus!
