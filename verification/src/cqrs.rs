//! CQRS building blocks: the stored event record, the error type and an
//! in-memory store holding event streams (write side) and projections
//! (read side).

use vstd::prelude::*;
use vstd::string::*;
use crate::json::{JsonValue, JsonView};
use crate::resilience::now_ms;
use crate::json_text::{json_parse, json_render, parse_json_text, parse_view, render_json_text};

verus! {

/// Errors returned by CQRS stores and operations.
#[derive(Debug, Clone)]
pub enum CqrsError {
    /// Backend-specific error.
    Backend(String),
    /// Serialization/deserialization error.
    Serialization(String),
    /// Optimistic concurrency violation.
    Concurrency(String),
}

/// Rendered text of a CQRS error.
pub open spec fn cqrs_error_text(e: CqrsError) -> Seq<char> {
    match e {
        CqrsError::Backend(m) => "CQRS backend error: "@ + m@,
        CqrsError::Serialization(m) => "CQRS serialization error: "@ + m@,
        CqrsError::Concurrency(m) => "CQRS concurrency error: "@ + m@,
    }
}

impl CqrsError {
    /// Rendered text of the error, as its `Display` form prints it.
    pub fn to_display_string(&self) -> (r: String)
        ensures
            r@ == cqrs_error_text(*self),
    {
        match self {
            CqrsError::Backend(m) => String::from_str("CQRS backend error: ").concat(m.as_str()),
            CqrsError::Serialization(m) => String::from_str("CQRS serialization error: ").concat(m.as_str()),
            CqrsError::Concurrency(m) => String::from_str("CQRS concurrency error: ").concat(m.as_str()),
        }
    }
}

/// The canonical persistence record of a domain event.
#[derive(Debug)]
pub struct StoredEvent {
    pub aggregate_id: String,
    pub event_type: String,
    pub payload: JsonValue,
    pub version: u32,
    pub timestamp_ms: u64,
}

/// Abstract stored event.
pub struct StoredEventView {
    pub aggregate_id: Seq<char>,
    pub event_type: Seq<char>,
    pub payload: JsonView,
    pub version: u32,
    pub timestamp_ms: u64,
}

impl StoredEvent {
    /// The abstract value.
    pub open spec fn view(&self) -> StoredEventView {
        StoredEventView {
            aggregate_id: self.aggregate_id@,
            event_type: self.event_type@,
            payload: self.payload@,
            version: self.version,
            timestamp_ms: self.timestamp_ms,
        }
    }

    /// An event recorded at `timestamp_ms` (milliseconds since the epoch).
    pub fn new_at(aggregate_id: String, event_type: String, payload: JsonValue, version: u32, timestamp_ms: u64) -> (r:
        Self)
        ensures
            r.aggregate_id == aggregate_id,
            r.event_type == event_type,
            r.payload == payload,
            r.version == version,
            r.timestamp_ms == timestamp_ms,
    {
        StoredEvent { aggregate_id, event_type, payload, version, timestamp_ms }
    }

    /// An event recorded now.
    pub fn new(aggregate_id: String, event_type: String, payload: JsonValue, version: u32) -> (r: Self)
        ensures
            r.aggregate_id == aggregate_id,
            r.event_type == event_type,
            r.payload == payload,
            r.version == version,
    {
        let now = now_ms();
        Self::new_at(aggregate_id, event_type, payload, version, now)
    }

    /// A copy of the event.
    pub fn duplicate(&self) -> (r: Self)
        ensures
            r@ == self@,
    {
        StoredEvent {
            aggregate_id: self.aggregate_id.clone(),
            event_type: self.event_type.clone(),
            payload: self.payload.duplicate(),
            version: self.version,
            timestamp_ms: self.timestamp_ms,
        }
    }
}

/// The abstract form of each event.
pub open spec fn events_view(v: Seq<StoredEvent>) -> Seq<StoredEventView> {
    v.map_values(|e: StoredEvent| e@)
}

/// Position of the first stream (or projection) named `key`, or -1.
pub open spec fn slot_of<V>(slots: Seq<(String, V)>, key: Seq<char>) -> int
    decreases slots.len(),
{
    if slots.len() == 0 {
        -1
    } else if slots[0].0@ == key {
        0
    } else {
        let r = slot_of(slots.drop_first(), key);
        if r < 0 { -1 } else { r + 1 }
    }
}

/// Where `slot_of` points: a slot with the key, or nowhere when no slot has it.
pub proof fn lemma_slot_of_bound<V>(slots: Seq<(String, V)>, key: Seq<char>)
    ensures
        -1 <= slot_of(slots, key) < slots.len(),
        slot_of(slots, key) >= 0 ==> slots[slot_of(slots, key)].0@ == key,
        slot_of(slots, key) < 0 ==> forall|i: int| 0 <= i < slots.len() ==> (#[trigger] slots[i]).0@ != key,
    decreases slots.len(),
{
    if slots.len() > 0 {
        lemma_slot_of_bound(slots.drop_first(), key);
        if slot_of(slots, key) < 0 {
            assert forall|i: int| 0 <= i < slots.len() implies (#[trigger] slots[i]).0@ != key by {
                if i > 0 {
                    assert(slots[i] == slots.drop_first()[i - 1]);
                }
            }
        }
    }
}

proof fn lemma_slot_of_first<V>(slots: Seq<(String, V)>, key: Seq<char>, i: int)
    requires
        0 <= i < slots.len(),
        slots[i].0@ == key,
        forall|j: int| 0 <= j < i ==> (#[trigger] slots[j]).0@ != key,
    ensures
        slot_of(slots, key) == i,
    decreases i,
{
    if i > 0 {
        lemma_slot_of_first(slots.drop_first(), key, i - 1);
    }
}

/// Slots whose keys are the same position by position find the same slot.
pub proof fn lemma_slot_of_same_keys<V, W>(a: Seq<(String, V)>, b: Seq<(String, W)>, key: Seq<char>)
    requires
        a.len() == b.len(),
        forall|i: int| 0 <= i < a.len() ==> (#[trigger] a[i]).0@ == b[i].0@,
    ensures
        slot_of(a, key) == slot_of(b, key),
    decreases a.len(),
{
    if a.len() > 0 {
        lemma_slot_of_same_keys(a.drop_first(), b.drop_first(), key);
    }
}

/// A new slot at the end is found only when no earlier slot has its key.
pub proof fn lemma_slot_of_push<V>(slots: Seq<(String, V)>, x: (String, V), key: Seq<char>)
    ensures
        slot_of(slots, key) >= 0 ==> slot_of(slots.push(x), key) == slot_of(slots, key),
        slot_of(slots, key) < 0 && x.0@ == key ==> slot_of(slots.push(x), key) == slots.len(),
        slot_of(slots, key) < 0 && x.0@ != key ==> slot_of(slots.push(x), key) < 0,
    decreases slots.len(),
{
    if slots.len() > 0 {
        assert(slots.push(x).drop_first() =~= slots.drop_first().push(x));
        lemma_slot_of_push(slots.drop_first(), x, key);
    } else {
        assert(slots.push(x).drop_first() =~= Seq::<(String, V)>::empty());
        assert(slot_of(Seq::<(String, V)>::empty(), key) == -1);
    }
}

/// Index of the first slot named `key`.
pub fn find_slot<V>(slots: &Vec<(String, V)>, key: &str) -> (r: Option<usize>)
    ensures
        r is None <==> slot_of(slots@, key@) < 0,
        r matches Some(i) ==> i as int == slot_of(slots@, key@) && i < slots@.len()
            && slots@[i as int].0@ == key@,
{
    let mut i: usize = 0;
    while i < slots.len()
        invariant
            i <= slots@.len(),
            forall|j: int| 0 <= j < i ==> (#[trigger] slots@[j]).0@ != key@,
        decreases slots.len() - i,
    {
        if slots[i].0.as_str().unicode_len() == key.unicode_len() && crate::text::starts_with(
            slots[i].0.as_str(),
            key,
        ) {
            assert(slots@[i as int].0@ =~= key@);
            proof {
                lemma_slot_of_first(slots@, key@, i as int);
            }
            return Some(i);
        }
        i = i + 1;
    }
    proof {
        lemma_slot_of_bound(slots@, key@);
    }
    None
}

/// In-memory store implementing both the command side (event streams per
/// aggregate) and the query side (projections by key).
pub struct InMemoryCqrsStore {
    events: Vec<(String, Vec<StoredEvent>)>,
    projections: Vec<(String, JsonValue)>,
}

impl InMemoryCqrsStore {
    /// The events saved for `aggregate_id`, in order (empty when none).
    pub closed spec fn stream(&self, aggregate_id: Seq<char>) -> Seq<StoredEventView> {
        let i = slot_of(self.events@, aggregate_id);
        if i < 0 { Seq::empty() } else { events_view(self.events@[i].1@) }
    }

    /// The projection stored under `key`, if any.
    pub closed spec fn projection(&self, key: Seq<char>) -> Option<JsonView> {
        let i = slot_of(self.projections@, key);
        if i < 0 { None } else { Some(self.projections@[i].1@) }
    }

    /// An empty store.
    pub fn new() -> (r: Self)
        ensures
            forall|k: Seq<char>| r.stream(k) == Seq::<StoredEventView>::empty(),
            forall|k: Seq<char>| r.projection(k) is None,
    {
        InMemoryCqrsStore { events: Vec::new(), projections: Vec::new() }
    }

    /// Append `event` to the stream of its aggregate.
    pub fn save_event(&mut self, event: StoredEvent)
        ensures
            final(self).stream(event.aggregate_id@) == old(self).stream(event.aggregate_id@).push(event@),
            forall|k: Seq<char>| k != event.aggregate_id@ ==> final(self).stream(k) == old(self).stream(k),
            forall|k: Seq<char>| final(self).projection(k) == old(self).projection(k),
    {
        let ghost old_events = self.events@;
        let ghost id = event.aggregate_id@;
        proof {
            lemma_slot_of_bound(old_events, id);
        }
        match find_slot(&self.events, event.aggregate_id.as_str()) {
            Some(i) => {
                let (key, mut stream) = self.events.remove(i);
                let ghost before = stream@;
                stream.push(event);
                self.events.insert(i, (key, stream));
                assert(events_view(stream@) =~= events_view(before).push(event@));
                assert forall|k: Seq<char>| true implies slot_of(self.events@, k) == slot_of(old_events, k) by {
                    lemma_slot_of_same_keys(self.events@, old_events, k);
                }
                assert forall|k: Seq<char>| k != id implies self.stream(k) == old(self).stream(k) by {
                    let j = slot_of(old_events, k);
                    lemma_slot_of_bound(old_events, k);
                    if j >= 0 {
                        assert(j != i);
                        assert(self.events@[j] == old_events[j]);
                    }
                }
                assert(slot_of(self.events@, id) == i);
                assert(self.events@[i as int].1 == stream);
                assert(old_events[i as int].1@ == before);
                assert(self.stream(id) == old(self).stream(id).push(event@));
            },
            None => {
                let key = event.aggregate_id.clone();
                let mut stream: Vec<StoredEvent> = Vec::new();
                stream.push(event);
                let entry = (key, stream);
                self.events.push(entry);
                assert(events_view(stream@) =~= Seq::<StoredEventView>::empty().push(event@));
                assert forall|k: Seq<char>| true implies (k == id ==> slot_of(self.events@, k) == old_events.len()) && (k
                    != id ==> (slot_of(self.events@, k) < 0 <==> slot_of(old_events, k) < 0)) && (k != id && slot_of(
                    old_events,
                    k,
                ) >= 0 ==> slot_of(self.events@, k) == slot_of(old_events, k)) by {
                    lemma_slot_of_push(old_events, entry, k);
                }
                assert forall|k: Seq<char>| k != id implies self.stream(k) == old(self).stream(k) by {
                    lemma_slot_of_bound(old_events, k);
                    let j = slot_of(old_events, k);
                    if j >= 0 {
                        assert(self.events@[j] == old_events[j]);
                    }
                }
                assert(slot_of(self.events@, id) == old_events.len());
                assert(self.events@[old_events.len() as int] == entry);
                assert(old(self).stream(id) == Seq::<StoredEventView>::empty());
                assert(self.stream(id) =~= old(self).stream(id).push(event@));
            },
        }
    }

    /// The events of `aggregate_id`, in the order they were saved (empty
    /// when none were).
    pub fn get_events(&self, aggregate_id: &str) -> (r: Vec<StoredEvent>)
        ensures
            events_view(r@) == self.stream(aggregate_id@),
    {
        let mut out: Vec<StoredEvent> = Vec::new();
        proof {
            lemma_slot_of_bound(self.events@, aggregate_id@);
        }
        match find_slot(&self.events, aggregate_id) {
            Some(i) => {
                let stream = &self.events[i].1;
                let mut j: usize = 0;
                assert(events_view(out@) =~= events_view(stream@).take(0));
                while j < stream.len()
                    invariant
                        j <= stream@.len(),
                        events_view(out@) == events_view(stream@).take(j as int),
                    decreases stream.len() - j,
                {
                    let ghost before = out@;
                    let e = stream[j].duplicate();
                    out.push(e);
                    assert(events_view(out@) =~= events_view(before).push(e@));
                    assert(events_view(out@) =~= events_view(stream@).take(j + 1));
                    j = j + 1;
                }
                assert(events_view(stream@).take(j as int) =~= events_view(stream@));
            },
            None => {
                assert(events_view(out@) =~= Seq::<StoredEventView>::empty());
            },
        }
        out
    }

    /// The projection stored under `key`, if any.
    pub fn get_projection_raw(&self, key: &str) -> (r: Option<JsonValue>)
        ensures
            (match r {
                Some(v) => Some(v@),
                None => None,
            }) == self.projection(key@),
    {
        proof {
            lemma_slot_of_bound(self.projections@, key@);
        }
        match find_slot(&self.projections, key) {
            Some(i) => Some(self.projections[i].1.duplicate()),
            None => None,
        }
    }

    /// Store `value` as the projection under `key`, replacing any previous one.
    pub fn upsert_projection_raw(&mut self, key: &str, value: JsonValue)
        ensures
            final(self).projection(key@) == Some(value@),
            forall|k: Seq<char>| k != key@ ==> final(self).projection(k) == old(self).projection(k),
            forall|k: Seq<char>| final(self).stream(k) == old(self).stream(k),
    {
        let ghost old_p = self.projections@;
        let ghost vv = value@;
        proof {
            lemma_slot_of_bound(old_p, key@);
        }
        match find_slot(&self.projections, key) {
            Some(i) => {
                let (k0, _) = self.projections.remove(i);
                self.projections.insert(i, (k0, value));
                assert forall|k: Seq<char>| true implies slot_of(self.projections@, k) == slot_of(old_p, k) by {
                    lemma_slot_of_same_keys(self.projections@, old_p, k);
                }
                assert forall|k: Seq<char>| k != key@ implies self.projection(k) == old(self).projection(k) by {
                    let j = slot_of(old_p, k);
                    lemma_slot_of_bound(old_p, k);
                    if j >= 0 {
                        assert(j != i);
                        assert(self.projections@[j] == old_p[j]);
                    }
                }
            },
            None => {
                let entry = (String::from_str(key), value);
                self.projections.push(entry);
                assert forall|k: Seq<char>| true implies (k == key@ ==> slot_of(self.projections@, k) == old_p.len()) && (k
                    != key@ ==> (slot_of(self.projections@, k) < 0 <==> slot_of(old_p, k) < 0)) && (k != key@ && slot_of(
                    old_p,
                    k,
                ) >= 0 ==> slot_of(self.projections@, k) == slot_of(old_p, k)) by {
                    lemma_slot_of_push(old_p, entry, k);
                }
                assert forall|k: Seq<char>| k != key@ implies self.projection(k) == old(self).projection(k) by {
                    lemma_slot_of_bound(old_p, k);
                    let j = slot_of(old_p, k);
                    if j >= 0 {
                        assert(self.projections@[j] == old_p[j]);
                    }
                }
            },
        }
    }
}

/// The key under which a Redis-backed query store keeps projection `key`:
/// `{prefix}:{key}`.
pub fn projection_key(prefix: &str, key: &str) -> (r: String)
    ensures
        r@ == prefix@ + ":"@ + key@,
{
    String::from_str(prefix).concat(":").concat(key)
}

/// `r` is what stored projection text gives for the outcome `parsed` of
/// reading it.
pub open spec fn projection_outcome(r: Result<JsonValue, CqrsError>, parsed: Result<JsonView, Seq<char>>) -> bool {
    match parsed {
        Ok(v) => r matches Ok(x) && x@ == v,
        Err(m) => r matches Err(CqrsError::Serialization(s)) && s@ == m,
    }
}

/// The projection that stored JSON text holds: the JSON it parses to, or a
/// `Serialization` error carrying the parser's complaint.
pub fn projection_from_text(raw: &str) -> (r: Result<JsonValue, CqrsError>)
    ensures
        projection_outcome(r, json_parse(raw@)),
{
    let parsed = parse_json_text(raw);
    projection_from_parsed(parsed)
}

/// The projection that stored JSON text holds, given what parsing it gave.
pub fn projection_from_parsed(parsed: Result<JsonValue, String>) -> (r: Result<JsonValue, CqrsError>)
    ensures
        projection_outcome(r, parse_view(parsed)),
{
    match parsed {
        Ok(v) => Ok(v),
        Err(e) => Err(CqrsError::Serialization(e)),
    }
}

/// The JSON text stored for a payload or projection value.
pub fn json_text_of(value: &JsonValue) -> (r: Result<String, CqrsError>)
    ensures
        r is Ok,
        r->Ok_0@ == json_render(value@),
{
    match render_json_text(value) {
        Ok(text) => Ok(text),
        Err(e) => Err(CqrsError::Serialization(e)),
    }
}

} // verus!
