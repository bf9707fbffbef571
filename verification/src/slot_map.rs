//! A small map from stream slot names to per-slot state: the frame slots the
//! websocket server serves and the capture workers running for each slot.
use vstd::prelude::*;

use crate::text::str_eq;

verus! {

/// Per-slot values keyed by slot name; a slot holds at most one value.
pub struct SlotMap<W> {
    entries: Vec<(String, W)>,
}

impl<W> SlotMap<W> {
    /// No slot names two entries.
    #[verifier::type_invariant]
    closed spec fn unique_slots(self) -> bool {
        forall|i: int, j: int|
            0 <= i < j < self.entries.len() ==> (#[trigger] self.entries@[i]).0@ != (#[trigger] self.entries@[j]).0@
    }

    /// Whether `slot` has an entry.
    closed spec fn has(&self, slot: Seq<char>) -> bool {
        exists|i: int| 0 <= i < self.entries.len() && #[trigger] self.entries@[i].0@ == slot
    }

    /// The position of the entry of `slot`.
    closed spec fn index_of(&self, slot: Seq<char>) -> int {
        choose|i: int| 0 <= i < self.entries.len() && #[trigger] self.entries@[i].0@ == slot
    }

    /// The value held for each slot.
    pub closed spec fn view(&self) -> Map<Seq<char>, W> {
        Map::new(|k: Seq<char>| self.has(k), |k: Seq<char>| self.entries@[self.index_of(k)].1)
    }

    /// An empty map.
    pub fn new() -> (m: Self)
        ensures
            m.view() == Map::<Seq<char>, W>::empty(),
    {
        let m = SlotMap { entries: Vec::new() };
        assert(m.view() =~= Map::<Seq<char>, W>::empty());
        m
    }

    fn position(&self, slot: &str) -> (r: Option<usize>)
        ensures
            match r {
                Some(i) => i < self.entries.len() && self.entries@[i as int].0@ == slot@,
                None => forall|i: int| 0 <= i < self.entries.len() ==> (#[trigger] self.entries@[i]).0@ != slot@,
            },
    {
        let mut i: usize = 0;
        while i < self.entries.len()
            invariant
                i <= self.entries.len(),
                forall|k: int| 0 <= k < i ==> (#[trigger] self.entries@[k]).0@ != slot@,
            decreases self.entries.len() - i,
        {
            if str_eq(self.entries[i].0.as_str(), slot) {
                return Some(i);
            }
            i = i + 1;
        }
        None
    }

    /// The value held for `slot`.
    pub fn get(&self, slot: &str) -> (r: Option<&W>)
        ensures
            match r {
                Some(w) => self.view().contains_key(slot@) && self.view()[slot@] == *w,
                None => !self.view().contains_key(slot@),
            },
    {
        proof {
            use_type_invariant(self);
        }
        match self.position(slot) {
            Some(i) => {
                proof {
                    let t = self.index_of(slot@);
                    assert(self.entries@[i as int].0@ == slot@);
                    assert(t == i as int);
                }
                Some(&self.entries[i].1)
            },
            None => None,
        }
    }

    /// Puts `value` in `slot`, handing back the value it replaces.
    pub fn insert(&mut self, slot: &str, value: W) -> (old_value: Option<W>)
        ensures
            final(self).view() == old(self).view().insert(slot@, value),
            match old_value {
                Some(w) => old(self).view().contains_key(slot@) && old(self).view()[slot@] == w,
                None => !old(self).view().contains_key(slot@),
            },
    {
        proof {
            use_type_invariant(&*self);
        }
        let ghost old_view = self.view();
        let ghost before = self.entries@;
        match self.position(slot) {
            Some(i) => {
                proof {
                    assert(self.index_of(slot@) == i as int);
                }
                let mut entries: Vec<(String, W)> = Vec::new();
                std::mem::swap(&mut entries, &mut self.entries);
                let (key, previous) = entries.remove(i);
                entries.insert(i, (key, value));
                self.entries = entries;
                proof {
                    assert(self.entries@ == before.update(i as int, (before[i as int].0, value)));
                    assert forall|a: int, b: int| 0 <= a < b < self.entries.len() implies (
                    #[trigger] self.entries@[a]).0@ != (#[trigger] self.entries@[b]).0@ by {
                        assert(before[a].0@ != before[b].0@);
                    }
                    let new_view = self.view();
                    let expected = old_view.insert(slot@, value);
                    assert forall|k: Seq<char>| #[trigger] new_view.contains_key(k) <==> expected.contains_key(k) by {
                        if k == slot@ {
                            assert(self.entries@[i as int].0@ == k);
                        } else if new_view.contains_key(k) {
                            let t = self.index_of(k);
                            assert(before[t].0@ == k);
                        } else if old_view.contains_key(k) {
                            let t = choose|t: int| 0 <= t < before.len() && #[trigger] before[t].0@ == k;
                            assert(self.entries@[t].0@ == k);
                        }
                    }
                    assert forall|k: Seq<char>| #[trigger] new_view.contains_key(k) implies new_view[k] == expected[k] by {
                        let t = self.index_of(k);
                        if k == slot@ {
                            assert(t == i as int);
                        } else {
                            assert(before[t].0@ == k);
                            let u = choose|u: int| 0 <= u < before.len() && #[trigger] before[u].0@ == k;
                            assert(t == u);
                        }
                    }
                    assert(new_view =~= expected);
                }
                Some(previous)
            },
            None => {
                let mut entries: Vec<(String, W)> = Vec::new();
                std::mem::swap(&mut entries, &mut self.entries);
                entries.push((String::from_str(slot), value));
                self.entries = entries;
                proof {
                    let n = before.len() as int;
                    assert forall|a: int, b: int| 0 <= a < b < self.entries.len() implies (
                    #[trigger] self.entries@[a]).0@ != (#[trigger] self.entries@[b]).0@ by {
                        if b < n {
                            assert(before[a].0@ != before[b].0@);
                        } else {
                            assert(before[a].0@ != slot@);
                        }
                    }
                    let new_view = self.view();
                    let expected = old_view.insert(slot@, value);
                    assert forall|k: Seq<char>| #[trigger] new_view.contains_key(k) <==> expected.contains_key(k) by {
                        if k == slot@ {
                            assert(self.entries@[n].0@ == k);
                        } else if new_view.contains_key(k) {
                            let t = self.index_of(k);
                            assert(before[t].0@ == k);
                        } else if old_view.contains_key(k) {
                            let t = choose|t: int| 0 <= t < before.len() && #[trigger] before[t].0@ == k;
                            assert(self.entries@[t].0@ == k);
                        }
                    }
                    assert forall|k: Seq<char>| #[trigger] new_view.contains_key(k) implies new_view[k] == expected[k] by {
                        let t = self.index_of(k);
                        if k == slot@ {
                            assert(t == n);
                        } else {
                            assert(before[t].0@ == k);
                            let u = choose|u: int| 0 <= u < before.len() && #[trigger] before[u].0@ == k;
                            assert(t == u);
                        }
                    }
                    assert(new_view =~= expected);
                }
                None
            },
        }
    }

    /// Takes the value out of `slot`, if it holds one.
    pub fn remove(&mut self, slot: &str) -> (r: Option<W>)
        ensures
            final(self).view() == old(self).view().remove(slot@),
            match r {
                Some(w) => old(self).view().contains_key(slot@) && old(self).view()[slot@] == w,
                None => !old(self).view().contains_key(slot@),
            },
    {
        proof {
            use_type_invariant(&*self);
        }
        let ghost old_view = self.view();
        let ghost before = self.entries@;
        match self.position(slot) {
            Some(i) => {
                proof {
                    assert(self.index_of(slot@) == i as int);
                }
                let mut entries: Vec<(String, W)> = Vec::new();
                std::mem::swap(&mut entries, &mut self.entries);
                let (_key, previous) = entries.remove(i);
                self.entries = entries;
                proof {
                    let ii = i as int;
                    assert forall|t: int| 0 <= t < self.entries.len() implies #[trigger] self.entries@[t] == (if t < ii {
                        before[t]
                    } else {
                        before[t + 1]
                    }) by {}
                    assert forall|a: int, b: int| 0 <= a < b < self.entries.len() implies (
                    #[trigger] self.entries@[a]).0@ != (#[trigger] self.entries@[b]).0@ by {
                        let aa = if a < ii { a } else { a + 1 };
                        let bb = if b < ii { b } else { b + 1 };
                        assert(self.entries@[a] == before[aa]);
                        assert(self.entries@[b] == before[bb]);
                        assert(before[aa].0@ != before[bb].0@);
                    }
                    let new_view = self.view();
                    let expected = old_view.remove(slot@);
                    assert forall|k: Seq<char>| #[trigger] new_view.contains_key(k) <==> expected.contains_key(k) by {
                        if new_view.contains_key(k) {
                            let t = self.index_of(k);
                            let tt = if t < ii { t } else { t + 1 };
                            assert(self.entries@[t] == before[tt]);
                            assert(before[tt].0@ == k);
                            if k == slot@ {
                                assert(before[ii].0@ == k);
                            }
                        } else if expected.contains_key(k) {
                            let u = choose|u: int| 0 <= u < before.len() && #[trigger] before[u].0@ == k;
                            assert(u != ii);
                            let t = if u < ii { u } else { u - 1 };
                            assert(self.entries@[t] == before[u]);
                            assert(self.entries@[t].0@ == k);
                        }
                    }
                    assert forall|k: Seq<char>| #[trigger] new_view.contains_key(k) implies new_view[k] == expected[k] by {
                        let t = self.index_of(k);
                        let tt = if t < ii { t } else { t + 1 };
                        assert(self.entries@[t] == before[tt]);
                        assert(before[tt].0@ == k);
                        let u = choose|u: int| 0 <= u < before.len() && #[trigger] before[u].0@ == k;
                        assert(u == tt);
                    }
                    assert(new_view =~= expected);
                }
                Some(previous)
            },
            None => {
                proof {
                    assert(old_view.remove(slot@) =~= old_view);
                }
                None
            },
        }
    }
}

/// What was put in a slot is what the slot then holds, other slots keep
/// theirs, and a slot taken out holds nothing.
pub proof fn lemma_slot_read_back<W>(before: Map<Seq<char>, W>, slot: Seq<char>, value: W, other: Seq<char>)
    ensures
        before.insert(slot, value).contains_key(slot),
        before.insert(slot, value)[slot] == value,
        other != slot ==> before.insert(slot, value).contains_key(other) == before.contains_key(other),
        other != slot && before.contains_key(other) ==> before.insert(slot, value)[other] == before[other],
        !before.remove(slot).contains_key(slot),
{
}

} // verus!
