//! Undo and redo of template edits.
use vstd::prelude::*;

use crate::template::Template;

verus! {

/// Snapshots to go back and forth between.
#[derive(Clone, Debug)]
pub struct EditHistory {
    /// States to go back to, the most recent last.
    pub past: Vec<Template>,
    /// States that were undone, the most recent last.
    pub future: Vec<Template>,
    /// How many snapshots are kept.
    pub capacity: usize,
}

/// The last `n` items of `s`, or all of them.
pub open spec fn last_n<T>(s: Seq<T>, n: int) -> Seq<T> {
    if s.len() > n {
        s.skip(s.len() - n)
    } else {
        s
    }
}

/// The two stacks of a history after one step back from `current`.
pub open spec fn stepped_back(h: (Seq<Template>, Seq<Template>), current: Template) -> (
    (Seq<Template>, Seq<Template>),
    Template,
) {
    if h.0.len() == 0 {
        (h, current)
    } else {
        ((h.0.drop_last(), h.1.push(current)), h.0.last())
    }
}

/// The two stacks of a history after one step forth from `current`.
pub open spec fn stepped_forth(h: (Seq<Template>, Seq<Template>), current: Template) -> (
    (Seq<Template>, Seq<Template>),
    Template,
) {
    if h.1.len() == 0 {
        (h, current)
    } else {
        ((h.0.push(current), h.1.drop_last()), h.1.last())
    }
}

impl Default for EditHistory {
    fn default() -> (r: EditHistory)
        ensures
            r.wf(),
            r.capacity == 64,
            r.past@ == Seq::<Template>::empty(),
            r.future@ == Seq::<Template>::empty(),
    {
        EditHistory::new(64)
    }
}

impl EditHistory {
    /// No more snapshots than the capacity, on the two stacks together.
    pub open spec fn wf(self) -> bool {
        self.capacity >= 1 && self.past.len() + self.future.len() <= self.capacity
    }

    /// The states to go back to and those to go forth to.
    pub open spec fn stacks(self) -> (Seq<Template>, Seq<Template>) {
        (self.past@, self.future@)
    }

    /// An empty history that keeps `capacity` snapshots, at least one.
    pub fn new(capacity: usize) -> (r: EditHistory)
        ensures
            r.wf(),
            r.capacity == if capacity == 0 { 1 } else { capacity },
            r.past@ == Seq::<Template>::empty(),
            r.future@ == Seq::<Template>::empty(),
    {
        EditHistory {
            past: Vec::new(),
            future: Vec::new(),
            capacity: if capacity == 0 {
                1
            } else {
                capacity
            },
        }
    }

    /// Keep `snapshot` as the state to go back to. What had been undone is
    /// forgotten, and so is the oldest snapshot where there are too many.
    pub fn record(&mut self, snapshot: Template)
        requires
            old(self).wf(),
        ensures
            final(self).wf(),
            final(self).capacity == old(self).capacity,
            final(self).future@ == Seq::<Template>::empty(),
            final(self).past@ == last_n(old(self).past@.push(snapshot), old(self).capacity as int),
            final(self).past@.last() == snapshot,
    {
        self.future.clear();
        let ghost all = self.past@.push(snapshot);
        if self.past.len() == self.capacity {
            let _oldest = self.past.remove(0);
            self.past.push(snapshot);
            proof {
                assert(self.past@ =~= all.skip(1));
            }
        } else {
            self.past.push(snapshot);
        }
    }

    /// Go back: the state to return to, if there is one. `current` can be had
    /// back by `redo`.
    pub fn undo(&mut self, current: Template) -> (r: Option<Template>)
        requires
            old(self).wf(),
        ensures
            final(self).wf(),
            final(self).capacity == old(self).capacity,
            r is Some <==> old(self).past.len() > 0,
            (
                final(self).stacks(),
                match r {
                    Some(t) => t,
                    None => current,
                },
            ) == stepped_back(old(self).stacks(), current),
    {
        if self.past.len() == 0 {
            return None;
        }
        match self.past.pop() {
            None => None,
            Some(t) => {
                self.future.push(current);
                Some(t)
            },
        }
    }

    /// Go forth again: the state that was undone last, if there is one. `current`
    /// can be had back by `undo`.
    pub fn redo(&mut self, current: Template) -> (r: Option<Template>)
        requires
            old(self).wf(),
        ensures
            final(self).wf(),
            final(self).capacity == old(self).capacity,
            r is Some <==> old(self).future.len() > 0,
            (
                final(self).stacks(),
                match r {
                    Some(t) => t,
                    None => current,
                },
            ) == stepped_forth(old(self).stacks(), current),
    {
        if self.future.len() == 0 {
            return None;
        }
        match self.future.pop() {
            None => None,
            Some(t) => {
                self.past.push(current);
                Some(t)
            },
        }
    }

    /// Is there a state to go back to?
    pub fn can_undo(&self) -> (r: bool)
        ensures
            r == (self.past.len() > 0),
    {
        self.past.len() > 0
    }

    /// Is there a state to go forth to?
    pub fn can_redo(&self) -> (r: bool)
        ensures
            r == (self.future.len() > 0),
    {
        self.future.len() > 0
    }

    /// The number of states to go back to.
    pub fn past_len(&self) -> (r: usize)
        ensures
            r == self.past.len(),
    {
        self.past.len()
    }

    /// The number of states to go forth to.
    pub fn future_len(&self) -> (r: usize)
        ensures
            r == self.future.len(),
    {
        self.future.len()
    }
}

/// A step forth takes back a step back, and a step back takes back a step forth:
/// the history and the state on screen are what they were.
pub proof fn undo_and_redo_are_inverse(h: (Seq<Template>, Seq<Template>), current: Template)
    ensures
        h.0.len() > 0 ==> {
            let (g, t) = stepped_back(h, current);
            stepped_forth(g, t) == (h, current)
        },
        h.1.len() > 0 ==> {
            let (g, t) = stepped_forth(h, current);
            stepped_back(g, t) == (h, current)
        },
{
    if h.0.len() > 0 {
        let (g, t) = stepped_back(h, current);
        assert(g.1.drop_last() =~= h.1);
        assert(g.0.push(t) =~= h.0);
    }
    if h.1.len() > 0 {
        let (g, t) = stepped_forth(h, current);
        assert(g.0.drop_last() =~= h.0);
        assert(g.1.push(t) =~= h.1);
    }
}

} // verus!
