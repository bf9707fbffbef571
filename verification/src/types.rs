//! Capture sources, the stream slots they are assigned to, and the slot state
//! reported to the user interface.
use vstd::prelude::*;

use crate::text::str_eq;

verus! {

/// What kind of device a capture source is.
#[derive(Debug, Clone, Copy, PartialEq, Eq, Structural)]
pub enum CaptureSourceKind {
    Screen,
    Webcam,
    Ndi,
}

/// A source that can be captured.
#[derive(Debug, Clone)]
pub struct CaptureSource {
    pub id: String,
    pub kind: CaptureSourceKind,
    pub label: String,
}

/// The abstract contents of a source: id, kind and label.
pub open spec fn source_view(s: &CaptureSource) -> (Seq<char>, CaptureSourceKind, Seq<char>) {
    (s.id@, s.kind, s.label@)
}

impl CaptureSource {
    /// A copy of this source.
    pub fn duplicate(&self) -> (r: CaptureSource)
        ensures
            source_view(&r) == source_view(self),
    {
        CaptureSource { id: self.id.clone(), kind: self.kind, label: self.label.clone() }
    }
}

/// A window that presentation keys can be sent to.
#[derive(Debug, Clone)]
pub struct PresentationWindow {
    pub id: String,
    pub label: String,
}

/// What the user interface shows for a stream slot.
#[derive(Debug, Clone)]
pub struct SlotCaptureState {
    pub slot: String,
    pub label: String,
    pub source: Option<CaptureSource>,
    pub preview: Option<String>,
    pub active: bool,
}

/// The source id assigned to each slot.
pub struct CaptureManager {
    assignments: Vec<(String, Option<String>)>,
}

/// The character view of an optional string.
pub open spec fn opt_string_view(s: &Option<String>) -> Option<Seq<char>> {
    match s {
        Some(t) => Some(t@),
        None => None,
    }
}

impl CaptureManager {
    /// No slot names two entries.
    #[verifier::type_invariant]
    closed spec fn unique_slots(self) -> bool {
        forall|i: int, j: int|
            0 <= i < j < self.assignments.len() ==> (#[trigger] self.assignments@[i]).0@ != (
            #[trigger] self.assignments@[j]).0@
    }

    /// The slots that have been assigned, with their (possibly empty) source id.
    pub closed spec fn assignments_view(&self) -> Map<Seq<char>, Option<Seq<char>>> {
        Map::new(
            |k: Seq<char>| exists|i: int| 0 <= i < self.assignments.len() && #[trigger] self.assignments@[i].0@ == k,
            |k: Seq<char>|
                opt_string_view(
                    &self.assignments@[choose|i: int|
                        0 <= i < self.assignments.len() && #[trigger] self.assignments@[i].0@ == k].1,
                ),
        )
    }

    /// A manager with no assignments.
    pub fn new() -> (m: Self)
        ensures
            m.assignments_view() == Map::<Seq<char>, Option<Seq<char>>>::empty(),
    {
        let m = CaptureManager { assignments: Vec::new() };
        assert(m.assignments_view() =~= Map::<Seq<char>, Option<Seq<char>>>::empty());
        m
    }

    fn position(&self, slot: &str) -> (r: Option<usize>)
        ensures
            match r {
                Some(i) => i < self.assignments.len() && self.assignments@[i as int].0@ == slot@,
                None => forall|i: int| 0 <= i < self.assignments.len() ==> (#[trigger] self.assignments@[i]).0@ != slot@,
            },
    {
        let mut i: usize = 0;
        while i < self.assignments.len()
            invariant
                i <= self.assignments.len(),
                forall|k: int| 0 <= k < i ==> (#[trigger] self.assignments@[k]).0@ != slot@,
            decreases self.assignments.len() - i,
        {
            if str_eq(self.assignments[i].0.as_str(), slot) {
                return Some(i);
            }
            i = i + 1;
        }
        None
    }

    /// Assigns `source_id` (or no source) to `slot`.
    pub fn set_assignment(&mut self, slot: &str, source_id: Option<String>)
        ensures
            final(self).assignments_view() == old(self).assignments_view().insert(slot@, opt_string_view(&source_id)),
    {
        proof {
            use_type_invariant(&*self);
        }
        let ghost v = opt_string_view(&source_id);
        let ghost old_view = self.assignments_view();
        match self.position(slot) {
            Some(i) => {
                let key = self.assignments[i].0.clone();
                let ghost before = self.assignments@;
                let mut assignments: Vec<(String, Option<String>)> = Vec::new();
                std::mem::swap(&mut assignments, &mut self.assignments);
                assignments.set(i, (key, source_id));
                self.assignments = assignments;
                proof {
                    assert forall|a: int, b: int| 0 <= a < b < self.assignments.len() implies (
                    #[trigger] self.assignments@[a]).0@ != (#[trigger] self.assignments@[b]).0@ by {
                        assert(before[a].0@ != before[b].0@);
                    }
                    let new_view = self.assignments_view();
                    assert forall|k: Seq<char>| #[trigger] new_view.contains_key(k) <==> old_view.insert(slot@, v).contains_key(k) by {
                        if k == slot@ {
                            assert(self.assignments@[i as int].0@ == k);
                        } else if new_view.contains_key(k) {
                            let t = choose|t: int| 0 <= t < self.assignments.len() && #[trigger] self.assignments@[t].0@ == k;
                            assert(before[t].0@ == k);
                        } else if old_view.contains_key(k) {
                            let t = choose|t: int| 0 <= t < before.len() && #[trigger] before[t].0@ == k;
                            assert(self.assignments@[t].0@ == k);
                        }
                    }
                    assert forall|k: Seq<char>| #[trigger] new_view.contains_key(k) implies new_view[k] == old_view.insert(slot@, v)[k] by {
                        let t = choose|t: int| 0 <= t < self.assignments.len() && #[trigger] self.assignments@[t].0@ == k;
                        if k == slot@ {
                            assert(t == i);
                        } else {
                            assert(before[t].0@ == k);
                            let u = choose|u: int| 0 <= u < before.len() && #[trigger] before[u].0@ == k;
                            assert(t == u);
                        }
                    }
                    assert(new_view =~= old_view.insert(slot@, v));
                }
            },
            None => {
                let ghost before = self.assignments@;
                let mut assignments: Vec<(String, Option<String>)> = Vec::new();
                std::mem::swap(&mut assignments, &mut self.assignments);
                assignments.push((String::from_str(slot), source_id));
                self.assignments = assignments;
                proof {
                    let n = before.len() as int;
                    assert forall|a: int, b: int| 0 <= a < b < self.assignments.len() implies (
                    #[trigger] self.assignments@[a]).0@ != (#[trigger] self.assignments@[b]).0@ by {
                        if b < n {
                            assert(before[a].0@ != before[b].0@);
                        } else {
                            assert(before[a].0@ != slot@);
                        }
                    }
                    let new_view = self.assignments_view();
                    assert forall|k: Seq<char>| #[trigger] new_view.contains_key(k) <==> old_view.insert(slot@, v).contains_key(k) by {
                        if k == slot@ {
                            assert(self.assignments@[n].0@ == k);
                        } else if new_view.contains_key(k) {
                            let t = choose|t: int| 0 <= t < self.assignments.len() && #[trigger] self.assignments@[t].0@ == k;
                            assert(before[t].0@ == k);
                        } else if old_view.contains_key(k) {
                            let t = choose|t: int| 0 <= t < before.len() && #[trigger] before[t].0@ == k;
                            assert(self.assignments@[t].0@ == k);
                        }
                    }
                    assert forall|k: Seq<char>| #[trigger] new_view.contains_key(k) implies new_view[k] == old_view.insert(slot@, v)[k] by {
                        let t = choose|t: int| 0 <= t < self.assignments.len() && #[trigger] self.assignments@[t].0@ == k;
                        if k == slot@ {
                            assert(t == n);
                        } else {
                            assert(before[t].0@ == k);
                            let u = choose|u: int| 0 <= u < before.len() && #[trigger] before[u].0@ == k;
                            assert(t == u);
                        }
                    }
                    assert(new_view =~= old_view.insert(slot@, v));
                }
            },
        }
    }

    /// The source id assigned to `slot`, if the slot was ever assigned.
    pub fn get_assignment(&self, slot: &str) -> (r: Option<&Option<String>>)
        ensures
            match r {
                Some(v) => self.assignments_view().contains_key(slot@) && self.assignments_view()[slot@] == opt_string_view(v),
                None => !self.assignments_view().contains_key(slot@),
            },
    {
        proof {
            use_type_invariant(&*self);
        }
        match self.position(slot) {
            Some(i) => {
                proof {
                    let t = choose|t: int| 0 <= t < self.assignments.len() && #[trigger] self.assignments@[t].0@ == slot@;
                    assert(t == i);
                }
                Some(&self.assignments[i].1)
            },
            None => None,
        }
    }
}

/// What is assigned to a slot is what the slot then reports, and assigning
/// one slot leaves every other slot's assignment as it was.
pub proof fn lemma_assignment_read_back(
    before: &CaptureManager,
    after: &CaptureManager,
    slot: Seq<char>,
    value: Option<Seq<char>>,
    other: Seq<char>,
)
    requires
        after.assignments_view() == before.assignments_view().insert(slot, value),
    ensures
        after.assignments_view().contains_key(slot),
        after.assignments_view()[slot] == value,
        other != slot ==> after.assignments_view().contains_key(other) == before.assignments_view().contains_key(other),
        other != slot && before.assignments_view().contains_key(other) ==> after.assignments_view()[other]
            == before.assignments_view()[other],
{
}

/// The stream slots, in the order the user interface lists them.
pub open spec fn stream_slots() -> Seq<Seq<char>> {
    seq!["main"@, "notes"@, "aux1"@, "aux2"@]
}

/// Whether `slot` is one of the stream slots (`STREAM_SLOTS.contains`).
pub fn is_stream_slot(slot: &str) -> (b: bool)
    ensures
        b == stream_slots().contains(slot@),
{
    let r = str_eq(slot, "main") || str_eq(slot, "notes") || str_eq(slot, "aux1") || str_eq(slot, "aux2");
    proof {
        if r {
            if slot@ == "main"@ {
                assert(stream_slots()[0] == slot@);
            } else if slot@ == "notes"@ {
                assert(stream_slots()[1] == slot@);
            } else if slot@ == "aux1"@ {
                assert(stream_slots()[2] == slot@);
            } else {
                assert(stream_slots()[3] == slot@);
            }
        }
    }
    r
}

/// The label of a stream slot.
pub open spec fn slot_label_spec(slot: Seq<char>) -> Seq<char> {
    if slot == "main"@ {
        "Main presentation"@
    } else if slot == "notes"@ {
        "Presenter notes"@
    } else if slot == "aux1"@ {
        "Auxiliary 1"@
    } else if slot == "aux2"@ {
        "Auxiliary 2"@
    } else {
        "Capture"@
    }
}

/// The label shown for a stream slot.
pub fn slot_label(slot: &str) -> (label: &'static str)
    ensures
        label@ == slot_label_spec(slot@),
{
    if str_eq(slot, "main") {
        "Main presentation"
    } else if str_eq(slot, "notes") {
        "Presenter notes"
    } else if str_eq(slot, "aux1") {
        "Auxiliary 1"
    } else if str_eq(slot, "aux2") {
        "Auxiliary 2"
    } else {
        "Capture"
    }
}

/// The optional source as an abstract value.
pub open spec fn opt_source_view(s: Option<&CaptureSource>) -> Option<(Seq<char>, CaptureSourceKind, Seq<char>)> {
    match s {
        Some(src) => Some(source_view(src)),
        None => None,
    }
}

/// The state reported for `slot` with the source resolved for it: active
/// exactly when a source is assigned, and never with a preview image.
pub fn build_slot_state(slot: &str, _manager: &CaptureManager, source: Option<&CaptureSource>) -> (r: Result<SlotCaptureState, String>)
    ensures
        r matches Ok(state) && state.slot@ == slot@ && state.label@ == slot_label_spec(slot@)
            && state.active == source is Some && state.preview is None
            && opt_source_view(match &state.source { Some(s) => Some(s), None => None }) == opt_source_view(source),
{
    let copy: Option<CaptureSource> = match source {
        Some(s) => Some(s.duplicate()),
        None => None,
    };
    let active = copy.is_some();
    Ok(SlotCaptureState {
        slot: String::from_str(slot),
        label: String::from_str(slot_label(slot)),
        source: copy,
        preview: None,
        active,
    })
}

} // verus!
