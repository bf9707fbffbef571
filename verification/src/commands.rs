//! What the client does when the user interface assigns sources to slots,
//! asks for the slots' state, or starts a slot's video: the checks, the
//! source lookups and the resulting state.
use vstd::prelude::*;

use crate::sources::{find_source, CaptureError};
use crate::types::{
    build_slot_state, is_stream_slot, opt_source_view, opt_string_view, slot_label_spec, source_view, stream_slots,
    CaptureManager, CaptureSource, CaptureSourceKind, SlotCaptureState,
};

verus! {

/// `Unknown slot: <slot>`.
pub open spec fn unknown_slot_spec(slot: Seq<char>) -> Seq<char> {
    "Unknown slot: "@ + slot
}

fn unknown_slot(slot: &str) -> (m: String)
    ensures
        m@ == unknown_slot_spec(slot@),
{
    let mut m = String::from_str("Unknown slot: ");
    m.append(slot);
    m
}

/// `i` is the first position of a source with id `id`.
pub open spec fn first_match(sources: Seq<CaptureSource>, id: Seq<char>, i: int) -> bool {
    &&& 0 <= i < sources.len()
    &&& sources[i].id@ == id
    &&& forall|j: int| 0 <= j < i ==> #[trigger] sources[j].id@ != id
}

/// `r` is what looking `id` up among the listed sources gives (`find_source`
/// with its error as text): the listing's error, the first source with that
/// id, or `Source not found: <id>`.
pub open spec fn resolves(
    listed: &Result<Vec<CaptureSource>, CaptureError>,
    id: Seq<char>,
    r: Result<(Seq<char>, CaptureSourceKind, Seq<char>), Seq<char>>,
) -> bool {
    match listed {
        Err(e) => r == Err::<(Seq<char>, CaptureSourceKind, Seq<char>), Seq<char>>(e.spec_message()),
        Ok(v) => match r {
            Ok(s) => exists|i: int| first_match(v@, id, i) && s == source_view(&v@[i]),
            Err(m) => (forall|i: int| 0 <= i < v@.len() ==> #[trigger] v@[i].id@ != id) && m == "Source not found: "@ + id,
        },
    }
}

/// The view of a looked-up source, or its error text.
pub open spec fn lookup_view(r: &Result<CaptureSource, String>) -> Result<(Seq<char>, CaptureSourceKind, Seq<char>), Seq<char>> {
    match r {
        Ok(s) => Ok(source_view(s)),
        Err(m) => Err(m@),
    }
}

/// Looks a source id up among the listed sources; the error is the text the
/// user interface shows.
pub fn resolve_source(listed: &Result<Vec<CaptureSource>, CaptureError>, id: &str) -> (r: Result<CaptureSource, String>)
    ensures
        resolves(listed, id@, lookup_view(&r)),
{
    match listed {
        Err(e) => Err(e.message()),
        Ok(sources) => match find_source(sources, id) {
            Ok(s) => {
                proof {
                    let i = choose|i: int|
                        0 <= i < sources@.len() && source_view(&s) == source_view(&sources@[i]) && sources@[i].id@ == id@
                            && forall|j: int| 0 <= j < i ==> #[trigger] sources@[j].id@ != id@;
                    assert(first_match(sources@, id@, i));
                }
                Ok(s)
            },
            Err(e) => {
                let m = e.message();
                Err(m)
            },
        },
    }
}

/// The source id assigned to `slot`, if any.
pub open spec fn assigned_id(manager: &CaptureManager, slot: Seq<char>) -> Option<Seq<char>> {
    if manager.assignments_view().contains_key(slot) {
        manager.assignments_view()[slot]
    } else {
        None
    }
}

/// `state` reports `slot` with `source`: its label, active exactly when it
/// has a source, and no preview image.
pub open spec fn reports(state: &SlotCaptureState, slot: Seq<char>, source: Option<(Seq<char>, CaptureSourceKind, Seq<char>)>) -> bool {
    &&& state.slot@ == slot
    &&& state.label@ == slot_label_spec(slot)
    &&& state.active == source is Some
    &&& state.preview is None
    &&& opt_source_view(
        match &state.source {
            Some(s) => Some(s),
            None => None,
        },
    ) == source
}

/// The optional source id as an optional string slice.
fn id_ref(id: &Option<String>) -> (r: Option<&str>)
    ensures
        match r {
            Some(s) => id matches Some(t) && s@ == t@,
            None => id is None,
        },
{
    match id {
        Some(s) => Some(s.as_str()),
        None => None,
    }
}

/// The state of `slot` with its assigned source looked up among the listed
/// sources (`refresh_slot_preview` without the slot check).
pub fn slot_state(manager: &CaptureManager, listed: &Result<Vec<CaptureSource>, CaptureError>, slot: &str) -> (r: Result<
    SlotCaptureState,
    String,
>)
    ensures
        slot_outcome(manager, listed, slot@, outcome_view(&r)),
{
    let assigned: Option<&Option<String>> = manager.get_assignment(slot);
    let id: Option<&str> = match assigned {
        Some(inner) => id_ref(inner),
        None => None,
    };
    proof {
        match id {
            Some(t) => assert(assigned_id(manager, slot@) == Some(t@)),
            None => assert(assigned_id(manager, slot@) is None),
        }
    }
    match id {
        None => build_slot_state(slot, manager, None),
        Some(id) => {
            let source = match resolve_source(listed, id) {
                Ok(source) => source,
                Err(m) => return Err(m),
            };
            let r = build_slot_state(slot, manager, Some(&source));
            proof {
                let sv = source_view(&source);
                assert(resolves(listed, id@, Ok(sv)));
                if let Ok(state) = &r {
                    assert(opt_source_view(Some(&source)) == Some(sv));
                    assert(reports(state, slot@, Some(sv)));
                }
            }
            r
        },
    }
}

/// `refresh_slot_preview`: the state of one stream slot.
pub fn refresh_slot_preview(manager: &CaptureManager, listed: &Result<Vec<CaptureSource>, CaptureError>, slot: &str) -> (r: Result<
    SlotCaptureState,
    String,
>)
    ensures
        !stream_slots().contains(slot@) ==> (r matches Err(m) && m@ == unknown_slot_spec(slot@)),
        stream_slots().contains(slot@) ==> slot_outcome(manager, listed, slot@, outcome_view(&r)),
{
    if !is_stream_slot(slot) {
        return Err(unknown_slot(slot));
    }
    slot_state(manager, listed, slot)
}

/// The outcome for one slot of `get_slot_states`: its state, or the error
/// that looking its source up gave.
pub open spec fn slot_outcome(
    manager: &CaptureManager,
    listed: &Result<Vec<CaptureSource>, CaptureError>,
    slot: Seq<char>,
    r: Result<&SlotCaptureState, Seq<char>>,
) -> bool {
    match assigned_id(manager, slot) {
        None => r matches Ok(state) && reports(state, slot, None),
        Some(id) => match r {
            Ok(state) => exists|s: (Seq<char>, CaptureSourceKind, Seq<char>)|
                resolves(listed, id, Ok(s)) && reports(state, slot, Some(s)),
            Err(m) => resolves(listed, id, Err(m)),
        },
    }
}

/// The state, or the error text, of a slot's answer.
pub open spec fn outcome_view(r: &Result<SlotCaptureState, String>) -> Result<&SlotCaptureState, Seq<char>> {
    match r {
        Ok(state) => Ok(state),
        Err(m) => Err(m@),
    }
}

/// Whether looking up the source of `slot` fails.
pub open spec fn slot_fails(manager: &CaptureManager, listed: &Result<Vec<CaptureSource>, CaptureError>, slot: Seq<char>) -> bool {
    assigned_id(manager, slot) matches Some(id) && !resolves_ok(listed, id)
}

/// Whether `id` is among the listed sources.
pub open spec fn resolves_ok(listed: &Result<Vec<CaptureSource>, CaptureError>, id: Seq<char>) -> bool {
    listed matches Ok(v) && exists|i: int| 0 <= i < v@.len() && #[trigger] v@[i].id@ == id
}

proof fn lemma_resolves_ok(
    listed: &Result<Vec<CaptureSource>, CaptureError>,
    id: Seq<char>,
    r: Result<(Seq<char>, CaptureSourceKind, Seq<char>), Seq<char>>,
)
    requires
        resolves(listed, id, r),
    ensures
        r is Ok <==> resolves_ok(listed, id),
{
    if let Ok(v) = listed {
        if let Ok(s) = r {
            let i = choose|i: int| first_match(v@, id, i) && s == source_view(&v@[i]);
            assert(v@[i].id@ == id);
        }
    }
}

/// `get_slot_states`: the state of every stream slot, in order; the first
/// slot whose source cannot be looked up makes the whole answer its error.
pub fn get_slot_states(manager: &CaptureManager, listed: &Result<Vec<CaptureSource>, CaptureError>) -> (r: Result<
    Vec<SlotCaptureState>,
    String,
>)
    ensures
        match r {
            Ok(states) => states@.len() == stream_slots().len() && forall|k: int|
                0 <= k < stream_slots().len() ==> slot_outcome(manager, listed, stream_slots()[k], Ok(&#[trigger] states@[k])),
            Err(m) => exists|k: int|
                0 <= k < stream_slots().len() && (forall|j: int| 0 <= j < k ==> !#[trigger] slot_fails(manager, listed, stream_slots()[j]))
                    && slot_fails(manager, listed, stream_slots()[k]) && slot_outcome(manager, listed, #[trigger] stream_slots()[k], Err(m@)),
        },
{
    let slots: [&str; 4] = ["main", "notes", "aux1", "aux2"];
    proof {
        assert(slots@[0]@ == stream_slots()[0]);
        assert(slots@[1]@ == stream_slots()[1]);
        assert(slots@[2]@ == stream_slots()[2]);
        assert(slots@[3]@ == stream_slots()[3]);
    }
    let mut states: Vec<SlotCaptureState> = Vec::new();
    let mut k: usize = 0;
    while k < 4
        invariant
            k <= 4,
            states@.len() == k,
            forall|t: int| 0 <= t < 4 ==> (#[trigger] slots@[t])@ == stream_slots()[t],
            forall|t: int| 0 <= t < k ==> slot_outcome(manager, listed, stream_slots()[t], Ok(&#[trigger] states@[t])),
            forall|t: int| 0 <= t < k ==> !#[trigger] slot_fails(manager, listed, stream_slots()[t]),
        decreases 4 - k,
    {
        let slot = slots[k];
        let state = slot_state(manager, listed, slot);
        match state {
            Ok(s) => {
                proof {
                    if let Some(id) = assigned_id(manager, slot@) {
                        let sv = choose|sv: (Seq<char>, CaptureSourceKind, Seq<char>)|
                            resolves(listed, id, Ok(sv)) && reports(&s, slot@, Some(sv));
                        lemma_resolves_ok(listed, id, Ok(sv));
                    }
                }
                states.push(s);
                proof {
                    assert(slot_outcome(manager, listed, stream_slots()[k as int], Ok(&states@[k as int])));
                }
            },
            Err(m) => {
                proof {
                    let id = assigned_id(manager, slot@)->0;
                    lemma_resolves_ok(listed, id, Err(m@));
                    assert(slot_fails(manager, listed, stream_slots()[k as int]));
                    assert(slot_outcome(manager, listed, stream_slots()[k as int], Err(m@)));
                }
                return Err(m);
            },
        }
        k = k + 1;
    }
    Ok(states)
}

/// `set_slot_source`: assigns `source_id` (or nothing) to a stream slot and
/// reports the slot's new state. The source must be among the listed
/// sources. The returned flag says whether the slot's video must be stopped:
/// when the slot was cleared or now names another source than before. A
/// refused request leaves the assignments unchanged.
pub fn set_slot_source(
    manager: &mut CaptureManager,
    listed: &Result<Vec<CaptureSource>, CaptureError>,
    slot: &str,
    source_id: Option<String>,
) -> (r: Result<(SlotCaptureState, bool), String>)
    ensures
        !stream_slots().contains(slot@) ==> (r matches Err(m) && m@ == unknown_slot_spec(slot@)),
        stream_slots().contains(slot@) ==> match &source_id {
            None => (r matches Ok((state, stop_video)) && reports(&state, slot@, None) && stop_video),
            Some(id) => match &r {
                Ok((state, stop_video)) => (exists|s: (Seq<char>, CaptureSourceKind, Seq<char>)|
                    resolves(listed, id@, Ok(s)) && reports(state, slot@, Some(s)))
                    && *stop_video == (assigned_id(old(manager), slot@) != Some(id@)),
                Err(m) => resolves(listed, id@, Err(m@)),
            },
        },
        r is Ok ==> final(manager).assignments_view() == old(manager).assignments_view().insert(slot@, opt_string_view(&source_id)),
        r is Err ==> final(manager).assignments_view() == old(manager).assignments_view(),
{
    if !is_stream_slot(slot) {
        return Err(unknown_slot(slot));
    }
    let resolved: Option<CaptureSource> = match &source_id {
        Some(id) => match resolve_source(listed, id.as_str()) {
            Ok(source) => Some(source),
            Err(m) => return Err(m),
        },
        None => None,
    };
    let previous: Option<&Option<String>> = manager.get_assignment(slot);
    let changed = match (previous, &source_id) {
        (Some(Some(p)), Some(n)) => !crate::text::str_eq(p.as_str(), n.as_str()),
        (Some(Some(_)), None) => true,
        (_, Some(_)) => true,
        (_, None) => false,
    };
    let stop_video = resolved.is_none() || changed;
    manager.set_assignment(slot, source_id);
    let source_ref: Option<&CaptureSource> = match &resolved {
        Some(s) => Some(s),
        None => None,
    };
    let state = build_slot_state(slot, manager, source_ref);
    match state {
        Ok(s) => Ok((s, stop_video)),
        Err(m) => Err(m),
    }
}

/// `start_slot_video`: the source whose video a stream slot is to serve.
pub fn start_slot_video_source(listed: &Result<Vec<CaptureSource>, CaptureError>, slot: &str, source_id: &str) -> (r: Result<
    CaptureSource,
    String,
>)
    ensures
        !stream_slots().contains(slot@) ==> (r matches Err(m) && m@ == unknown_slot_spec(slot@)),
        stream_slots().contains(slot@) ==> resolves(listed, source_id@, lookup_view(&r)),
{
    if !is_stream_slot(slot) {
        return Err(unknown_slot(slot));
    }
    resolve_source(listed, source_id)
}

} // verus!
