//! Event sourcing: an in-memory event store with optimistic concurrency,
//! the stamping of new domain events with versions, and the rebuilding of
//! an aggregate from its event stream.

use vstd::prelude::*;
use vstd::string::*;
use crate::cqrs::{
    CqrsError, StoredEvent, StoredEventView, events_view, slot_of, find_slot, lemma_slot_of_bound,
    lemma_slot_of_same_keys, lemma_slot_of_push,
};
use crate::json::JsonValue;
use crate::text::{decimal, u64_to_decimal};

verus! {

/// The version of a stream: the version of its last event, 0 when empty.
pub open spec fn stream_version(events: Seq<StoredEventView>) -> u32 {
    if events.len() == 0 { 0 } else { events.last().version }
}

/// Message of the concurrency error of an append that expected `expected`
/// while the stream of `aggregate_id` was at `current`.
pub open spec fn version_conflict(expected: u32, current: u32, aggregate_id: Seq<char>) -> Seq<char> {
    "expected version "@ + decimal(expected as nat) + " but current version is "@ + decimal(current as nat)
        + " for aggregate '"@ + aggregate_id + "'"@
}

/// In-memory event store.
pub struct InMemoryEventStore {
    events: Vec<(String, Vec<StoredEvent>)>,
}

impl InMemoryEventStore {
    /// The events stored for `aggregate_id`, in order (empty when none).
    pub closed spec fn stream(&self, aggregate_id: Seq<char>) -> Seq<StoredEventView> {
        let i = slot_of(self.events@, aggregate_id);
        if i < 0 { Seq::empty() } else { events_view(self.events@[i].1@) }
    }

    /// An empty store.
    pub fn new() -> (r: Self)
        ensures
            forall|k: Seq<char>| r.stream(k) == Seq::<StoredEventView>::empty(),
    {
        InMemoryEventStore { events: Vec::new() }
    }

    /// Append `events` to the stream of `aggregate_id` if the stream is at
    /// `expected_version` (the version of its last event, 0 when empty);
    /// otherwise fail with a `Concurrency` error that names both versions and
    /// the aggregate, and store nothing.
    pub fn append_events(&mut self, aggregate_id: &str, events: &[StoredEvent], expected_version: u32) -> (r: Result<
        (),
        CqrsError,
    >)
        ensures
            stream_version(old(self).stream(aggregate_id@)) == expected_version ==> {
                &&& r is Ok
                &&& final(self).stream(aggregate_id@) == old(self).stream(aggregate_id@) + events_view(events@)
            },
            stream_version(old(self).stream(aggregate_id@)) != expected_version ==> {
                &&& r matches Err(CqrsError::Concurrency(m)) && m@ == version_conflict(
                    expected_version,
                    stream_version(old(self).stream(aggregate_id@)),
                    aggregate_id@,
                )
                &&& final(self).stream(aggregate_id@) == old(self).stream(aggregate_id@)
            },
            forall|k: Seq<char>| k != aggregate_id@ ==> final(self).stream(k) == old(self).stream(k),
    {
        let ghost old_events = self.events@;
        let ghost id = aggregate_id@;
        proof {
            lemma_slot_of_bound(old_events, id);
        }
        let (existed, idx, mut stream) = match find_slot(&self.events, aggregate_id) {
            Some(i) => {
                let (_, s) = self.events.remove(i);
                (true, i, s)
            },
            None => (false, self.events.len(), Vec::new()),
        };
        let ghost before = stream@;
        assert(events_view(before) == old(self).stream(id));
        let current: u32 = if stream.len() == 0 { 0 } else { stream[stream.len() - 1].version };
        assert(current == stream_version(events_view(before)));
        let result;
        if current != expected_version {
            let msg = String::from_str("expected version ").concat(u64_to_decimal(expected_version as u64).as_str())
                .concat(" but current version is ").concat(u64_to_decimal(current as u64).as_str()).concat(
                " for aggregate '",
            ).concat(aggregate_id).concat("'");
            result = Err(CqrsError::Concurrency(msg));
        } else {
            let mut j: usize = 0;
            while j < events.len()
                invariant
                    j <= events@.len(),
                    events_view(stream@) == events_view(before) + events_view(events@).take(j as int),
                decreases events.len() - j,
            {
                let ghost prev = stream@;
                let e = events[j].duplicate();
                stream.push(e);
                assert(events_view(stream@) =~= events_view(prev).push(e@));
                assert(events_view(events@).take(j + 1) =~= events_view(events@).take(j as int).push(e@));
                assert(events_view(stream@) =~= events_view(before) + events_view(events@).take(j + 1));
                j = j + 1;
            }
            assert(events_view(events@).take(j as int) =~= events_view(events@));
            result = Ok(());
        }
        let ghost new_stream = stream@;
        let entry = (String::from_str(aggregate_id), stream);
        if existed {
            // The stream existed: put it back in its slot.
            self.events.insert(idx, entry);
            assert forall|k: Seq<char>| true implies slot_of(self.events@, k) == slot_of(old_events, k) by {
                lemma_slot_of_same_keys(self.events@, old_events, k);
            }
            assert forall|k: Seq<char>| k != id implies self.stream(k) == old(self).stream(k) by {
                let j = slot_of(old_events, k);
                lemma_slot_of_bound(old_events, k);
                if j >= 0 {
                    assert(self.events@[j] == old_events[j]);
                }
            }
        } else {
            self.events.push(entry);
            assert forall|k: Seq<char>| true implies (k == id ==> slot_of(self.events@, k) == old_events.len()) && (k
                != id ==> (slot_of(self.events@, k) < 0 <==> slot_of(old_events, k) < 0)) && (k != id && slot_of(
                old_events,
                k,
            ) >= 0 ==> slot_of(self.events@, k) == slot_of(old_events, k)) by {
                lemma_slot_of_push(old_events, entry, k);
            }
            assert forall|k: Seq<char>| k != id implies self.stream(k) == old(self).stream(k) by {
                lemma_slot_of_bound(old_events, k);
                let j = slot_of(old_events, k);
                if j >= 0 {
                    assert(self.events@[j] == old_events[j]);
                }
            }
        }
        assert(self.stream(id) == events_view(new_stream));
        result
    }

    /// The events of `aggregate_id`, in order (empty when none).
    pub fn load_events(&self, aggregate_id: &str) -> (r: Vec<StoredEvent>)
        ensures
            events_view(r@) == self.stream(aggregate_id@),
    {
        let mut out: Vec<StoredEvent> = Vec::new();
        proof {
            lemma_slot_of_bound(self.events@, aggregate_id@);
        }
        match find_slot(&self.events, aggregate_id) {
            Some(i) => {
                let stream = &self.events[i].1;
                let mut j: usize = 0;
                assert(events_view(out@) =~= events_view(stream@).take(0));
                while j < stream.len()
                    invariant
                        j <= stream@.len(),
                        events_view(out@) == events_view(stream@).take(j as int),
                    decreases stream.len() - j,
                {
                    let ghost before = out@;
                    let e = stream[j].duplicate();
                    out.push(e);
                    assert(events_view(out@) =~= events_view(before).push(e@));
                    assert(events_view(out@) =~= events_view(stream@).take(j + 1));
                    j = j + 1;
                }
                assert(events_view(stream@).take(j as int) =~= events_view(stream@));
            },
            None => {
                assert(events_view(out@) =~= Seq::<StoredEventView>::empty());
            },
        }
        out
    }
}

/// The events of a save: each payload becomes an event of `aggregate_id`
/// with type `event_type`, numbered from `expected_version + 1` on, all
/// stamped at `timestamp_ms`.
pub open spec fn stamped(
    aggregate_id: Seq<char>,
    event_type: Seq<char>,
    payloads: Seq<JsonValue>,
    expected_version: u32,
    timestamp_ms: u64,
) -> Seq<StoredEventView> {
    Seq::new(
        payloads.len(),
        |i: int|
            StoredEventView {
                aggregate_id,
                event_type,
                payload: payloads[i]@,
                version: (expected_version + 1 + i) as u32,
                timestamp_ms,
            },
    )
}

/// Turn new domain events (already serialized to `payloads`) into stored
/// events numbered after `expected_version`.
pub fn stamp_events(
    aggregate_id: &str,
    event_type: &str,
    payloads: Vec<JsonValue>,
    expected_version: u32,
    timestamp_ms: u64,
) -> (r: Vec<StoredEvent>)
    requires
        expected_version + payloads@.len() <= u32::MAX,
    ensures
        events_view(r@) == stamped(aggregate_id@, event_type@, payloads@, expected_version, timestamp_ms),
{
    let ghost all = payloads@;
    let mut rest = payloads;
    let n = rest.len();
    let mut out: Vec<StoredEvent> = Vec::new();
    let mut i: usize = 0;
    while i < n
        invariant
            n == all.len(),
            expected_version + n <= u32::MAX,
            i <= n,
            rest@ == all.subrange(i as int, n as int),
            events_view(out@) == stamped(aggregate_id@, event_type@, all, expected_version, timestamp_ms).take(
                i as int,
            ),
        decreases n - i,
    {
        let payload = rest.remove(0);
        assert(all[i as int] == payload);
        let version = expected_version + 1 + i as u32;
        let e = StoredEvent::new_at(
            String::from_str(aggregate_id),
            String::from_str(event_type),
            payload,
            version,
            timestamp_ms,
        );
        let ghost before = out@;
        out.push(e);
        assert(events_view(out@) =~= events_view(before).push(e@));
        assert(events_view(out@) =~= stamped(aggregate_id@, event_type@, all, expected_version, timestamp_ms).take(
            i + 1,
        ));
        i = i + 1;
        assert(rest@ =~= all.subrange(i as int, n as int));
    }
    assert(stamped(aggregate_id@, event_type@, all, expected_version, timestamp_ms).take(n as int) =~= stamped(
        aggregate_id@,
        event_type@,
        all,
        expected_version,
        timestamp_ms,
    ));
    out
}

/// The events a save appends, for new domain events already serialized to
/// `payloads`: none for an empty list (nothing is saved), otherwise the
/// events stamped after `expected_version`.
pub fn events_to_append(
    aggregate_id: &str,
    event_type: &str,
    payloads: Vec<JsonValue>,
    expected_version: u32,
    timestamp_ms: u64,
) -> (r: Option<Vec<StoredEvent>>)
    requires
        expected_version + payloads@.len() <= u32::MAX,
    ensures
        payloads@.len() == 0 ==> r is None,
        payloads@.len() > 0 ==> (r matches Some(events) && events_view(events@) == stamped(
            aggregate_id@,
            event_type@,
            payloads@,
            expected_version,
            timestamp_ms,
        )),
{
    if payloads.len() == 0 {
        None
    } else {
        Some(stamp_events(aggregate_id, event_type, payloads, expected_version, timestamp_ms))
    }
}

/// Persist new domain events, already serialized to `payloads`, for
/// `aggregate_id`: nothing happens for an empty list; otherwise they are
/// stamped after `expected_version` and appended under optimistic
/// concurrency (see `append_events`).
pub fn save_payloads(
    store: &mut InMemoryEventStore,
    aggregate_id: &str,
    event_type: &str,
    payloads: Vec<JsonValue>,
    expected_version: u32,
    timestamp_ms: u64,
) -> (r: Result<(), CqrsError>)
    requires
        expected_version + payloads@.len() <= u32::MAX,
    ensures
        payloads@.len() == 0 ==> r is Ok && *final(store) == *old(store),
        payloads@.len() > 0 && stream_version(old(store).stream(aggregate_id@)) == expected_version ==> {
            &&& r is Ok
            &&& final(store).stream(aggregate_id@) == old(store).stream(aggregate_id@) + stamped(
                aggregate_id@,
                event_type@,
                payloads@,
                expected_version,
                timestamp_ms,
            )
        },
        payloads@.len() > 0 && stream_version(old(store).stream(aggregate_id@)) != expected_version ==> {
            &&& r matches Err(CqrsError::Concurrency(m)) && m@ == version_conflict(
                expected_version,
                stream_version(old(store).stream(aggregate_id@)),
                aggregate_id@,
            )
            &&& final(store).stream(aggregate_id@) == old(store).stream(aggregate_id@)
        },
        forall|k: Seq<char>| k != aggregate_id@ ==> final(store).stream(k) == old(store).stream(k),
{
    match events_to_append(aggregate_id, event_type, payloads, expected_version, timestamp_ms) {
        None => Ok(()),
        Some(events) => store.append_events(aggregate_id, events.as_slice(), expected_version),
    }
}

/// Saving events moves the stream forward: `n > 0` events stamped after the
/// stream's own version and appended leave the stream at version
/// `version + n`, which is what the rebuilt aggregate reports.
pub proof fn law_save_advances_version(
    stream: Seq<StoredEventView>,
    aggregate_id: Seq<char>,
    event_type: Seq<char>,
    payloads: Seq<JsonValue>,
    timestamp_ms: u64,
)
    requires
        payloads.len() > 0,
        stream_version(stream) + payloads.len() <= u32::MAX,
    ensures
        stream_version(
            stream + stamped(aggregate_id, event_type, payloads, stream_version(stream), timestamp_ms),
        ) == stream_version(stream) + payloads.len(),
{
    let s = stamped(aggregate_id, event_type, payloads, stream_version(stream), timestamp_ms);
    assert((stream + s).last() == s[payloads.len() - 1]);
}

/// An aggregate rebuilt from its events.
pub trait Aggregate: Sized {
    type Event;

    /// The aggregate after `event`.
    spec fn spec_apply(self, event: Self::Event) -> Self;

    /// The version the aggregate reports.
    spec fn spec_version(self) -> u32;

    /// The aggregate with its version set to `version`.
    spec fn spec_with_version(self, version: u32) -> Self;

    fn apply(&mut self, event: &Self::Event)
        ensures
            *final(self) == old(self).spec_apply(*event),
    ;

    fn version(&self) -> (r: u32)
        ensures
            r == self.spec_version(),
    ;

    fn set_version(&mut self, version: u32)
        ensures
            *final(self) == old(self).spec_with_version(version),
    ;
}

/// `a` after the events `events`, in order.
pub open spec fn replay<A: Aggregate>(a: A, events: Seq<A::Event>) -> A
    decreases events.len(),
{
    if events.len() == 0 {
        a
    } else {
        replay(a.spec_apply(events[0]), events.drop_first())
    }
}

/// Rebuild an aggregate: apply each event, in order, to `initial` (the
/// aggregate's default state), then set the version to `last_version`, the
/// version of the last stored event. `None` when there are no events.
pub fn rebuild<A: Aggregate>(initial: A, events: &Vec<A::Event>, last_version: u32) -> (r: Option<A>)
    ensures
        events@.len() == 0 ==> r is None,
        events@.len() > 0 ==> r == Some(replay(initial, events@).spec_with_version(last_version)),
{
    if events.len() == 0 {
        return None;
    }
    let mut a = initial;
    let mut i: usize = 0;
    assert(events@.skip(0) =~= events@);
    while i < events.len()
        invariant
            i <= events@.len(),
            replay(initial, events@) == replay(a, events@.skip(i as int)),
        decreases events.len() - i,
    {
        assert(events@.skip(i as int).drop_first() =~= events@.skip(i + 1));
        a.apply(&events[i]);
        i = i + 1;
    }
    assert(events@.skip(i as int) =~= Seq::<A::Event>::empty());
    a.set_version(last_version);
    Some(a)
}

} // verus!
