//! Stable sorting by grid slot, row first.
use vstd::prelude::*;

verus! {

/// A grid slot: row, then column.
pub type Slot = (usize, usize);

/// Does slot `a` come before slot `b`, or is it the same?
pub open spec fn slot_le(a: Slot, b: Slot) -> bool {
    a.0 < b.0 || (a.0 == b.0 && a.1 <= b.1)
}

/// Does slot `a` come before slot `b`, or is it the same?
pub fn at_or_before(a: Slot, b: Slot) -> (r: bool)
    ensures
        r == slot_le(a, b),
{
    a.0 < b.0 || (a.0 == b.0 && a.1 <= b.1)
}

/// `s` with `x` put in behind the last item that may stand before it.
pub open spec fn put_in<T>(s: Seq<T>, x: T, key: spec_fn(T) -> Slot) -> Seq<T>
    decreases s.len(),
{
    if s.len() == 0 {
        seq![x]
    } else if slot_le(key(s.last()), key(x)) {
        s.push(x)
    } else {
        put_in(s.drop_last(), x, key).push(s.last())
    }
}

/// The items of `s` by slot, those of one slot in the order they had.
pub open spec fn by_slot<T>(s: Seq<T>, key: spec_fn(T) -> Slot) -> Seq<T>
    decreases s.len(),
{
    if s.len() == 0 {
        Seq::empty()
    } else {
        put_in(by_slot(s.drop_last(), key), s.last(), key)
    }
}

/// Slots do not go down along `s`.
pub open spec fn in_slot_order<T>(s: Seq<T>, key: spec_fn(T) -> Slot) -> bool {
    forall|i: int, j: int| 0 <= i < j < s.len() ==> slot_le(key(#[trigger] s[i]), key(#[trigger] s[j]))
}

/// The items of `s` in one slot, in order.
pub open spec fn in_slot<T>(s: Seq<T>, key: spec_fn(T) -> Slot, at: Slot) -> Seq<T> {
    s.filter(|x: T| key(x) == at)
}

/// Where `put_in` puts the item.
pub proof fn put_in_at<T>(s: Seq<T>, x: T, key: spec_fn(T) -> Slot, j: int)
    requires
        0 <= j <= s.len(),
        forall|k: int| j <= k < s.len() ==> !slot_le(key(#[trigger] s[k]), key(x)),
        j > 0 ==> slot_le(key(s[j - 1]), key(x)),
    ensures
        put_in(s, x, key) == s.insert(j, x),
    decreases s.len(),
{
    if s.len() == 0 {
        assert(s.insert(j, x) =~= seq![x]);
    } else if slot_le(key(s.last()), key(x)) {
        assert(j == s.len());
        assert(s.insert(j, x) =~= s.push(x));
    } else {
        assert(j < s.len());
        put_in_at(s.drop_last(), x, key, j);
        assert(s.drop_last().insert(j, x).push(s.last()) =~= s.insert(j, x));
    }
}

proof fn put_in_facts<T>(s: Seq<T>, x: T, key: spec_fn(T) -> Slot)
    requires
        in_slot_order(s, key),
    ensures
        put_in(s, x, key).len() == s.len() + 1,
        in_slot_order(put_in(s, x, key), key),
        put_in(s, x, key).to_multiset() =~= s.push(x).to_multiset(),
        forall|at: Slot| #[trigger]
            in_slot(put_in(s, x, key), key, at) == in_slot(s.push(x), key, at),
        forall|y: T| #[trigger] put_in(s, x, key).contains(y) ==> y == x || s.contains(y),
    decreases s.len(),
{
    broadcast use vstd::seq_lib::group_to_multiset_ensures;

    let r = put_in(s, x, key);
    if s.len() == 0 {
        assert(s.push(x) =~= seq![x]);
    } else if slot_le(key(s.last()), key(x)) {
        assert forall|i: int, j: int| 0 <= i < j < r.len() implies slot_le(
            key(#[trigger] r[i]),
            key(#[trigger] r[j]),
        ) by {
            if j == s.len() && i < s.len() - 1 {
                assert(slot_le(key(s[i]), key(s[s.len() - 1])));
            }
        }
        assert forall|y: T| #[trigger] r.contains(y) implies y == x || s.contains(y) by {
            let i = choose|i: int| 0 <= i < r.len() && r[i] == y;
            if i < s.len() {
                assert(s[i] == y);
            }
        }
    } else {
        let t = s.drop_last();
        let l = s.last();
        put_in_facts(t, x, key);
        let p = put_in(t, x, key);
        assert forall|y: T| #[trigger] r.contains(y) implies y == x || s.contains(y) by {
            let i = choose|i: int| 0 <= i < r.len() && r[i] == y;
            if i < p.len() {
                assert(p[i] == y);
                assert(p.contains(y));
                if y != x {
                    let k = choose|k: int| 0 <= k < t.len() && t[k] == y;
                    assert(s[k] == y);
                }
            } else {
                assert(s[s.len() - 1] == y);
            }
        }
        assert forall|i: int, j: int| 0 <= i < j < r.len() implies slot_le(
            key(#[trigger] r[i]),
            key(#[trigger] r[j]),
        ) by {
            if j < p.len() {
                assert(r[i] == p[i] && r[j] == p[j]);
            } else {
                assert(r[i] == p[i]);
                assert(p.contains(r[i]));
                if r[i] != x {
                    let k = choose|k: int| 0 <= k < t.len() && t[k] == r[i];
                    assert(s[k] == r[i]);
                    assert(slot_le(key(s[k]), key(s[s.len() - 1])));
                }
            }
        }
        assert(s =~= t.push(l));
        assert(r.to_multiset() =~= p.to_multiset().insert(l));
        assert(s.push(x).to_multiset() =~= t.to_multiset().insert(l).insert(x));
        assert forall|at: Slot| #[trigger] in_slot(r, key, at) == in_slot(s.push(x), key, at) by {
            let f = |y: T| key(y) == at;
            reveal_with_fuel(Seq::filter, 4);
            assert(in_slot(p, key, at) == in_slot(t.push(x), key, at));
            assert(r.drop_last() =~= p);
            assert(t.push(x).drop_last() =~= t);
            assert(s.push(x).drop_last() =~= s);
            assert(s.drop_last() =~= t);
        }
    }
}

/// Sorting by slot gives the same items in slot order, and those of one slot keep
/// the order they had.
pub proof fn by_slot_sorts<T>(s: Seq<T>, key: spec_fn(T) -> Slot)
    ensures
        by_slot(s, key).len() == s.len(),
        in_slot_order(by_slot(s, key), key),
        by_slot(s, key).to_multiset() == s.to_multiset(),
        forall|at: Slot| #[trigger] in_slot(by_slot(s, key), key, at) == in_slot(s, key, at),
        forall|y: T| #[trigger] by_slot(s, key).contains(y) ==> s.contains(y),
    decreases s.len(),
{
    broadcast use vstd::seq_lib::group_to_multiset_ensures;

    if s.len() > 0 {
        let t = s.drop_last();
        let l = s.last();
        by_slot_sorts(t, key);
        let b = by_slot(t, key);
        put_in_facts(b, l, key);
        assert(s =~= t.push(l));
        assert(by_slot(s, key).to_multiset() =~= s.to_multiset());
        assert forall|at: Slot| #[trigger] in_slot(by_slot(s, key), key, at) == in_slot(s, key, at) by {
            assert(in_slot(put_in(b, l, key), key, at) == in_slot(b.push(l), key, at));
            assert(in_slot(b, key, at) == in_slot(t, key, at));
            reveal_with_fuel(Seq::filter, 3);
            assert(b.push(l).drop_last() =~= b);
            assert(t.push(l).drop_last() =~= t);
        }
        assert forall|y: T| #[trigger] by_slot(s, key).contains(y) implies s.contains(y) by {
            if y == l {
                assert(s[s.len() - 1] == y);
            } else {
                assert(b.contains(y));
                assert(t.contains(y));
                let k = choose|k: int| 0 <= k < t.len() && t[k] == y;
                assert(s[k] == y);
            }
        }
    } else {
        assert(by_slot(s, key) =~= s);
    }
}

/// What is in slot order already stays as it is.
pub proof fn by_slot_keeps_order<T>(s: Seq<T>, key: spec_fn(T) -> Slot)
    requires
        in_slot_order(s, key),
    ensures
        by_slot(s, key) == s,
    decreases s.len(),
{
    if s.len() > 0 {
        let t = s.drop_last();
        assert forall|i: int, j: int| 0 <= i < j < t.len() implies slot_le(
            key(#[trigger] t[i]),
            key(#[trigger] t[j]),
        ) by {
            assert(slot_le(key(s[i]), key(s[j])));
        }
        by_slot_keeps_order(t, key);
        if t.len() > 0 {
            assert(slot_le(key(s[t.len() - 1]), key(s[s.len() - 1])));
        }
        assert(t.push(s.last()) =~= s);
        assert(seq![s.last()] + Seq::<T>::empty() =~= seq![s.last()]);
        if t.len() == 0 {
            assert(s =~= seq![s.last()]);
        }
    } else {
        assert(by_slot(s, key) =~= s);
    }
}

} // verus!
