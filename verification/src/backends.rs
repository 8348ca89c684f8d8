//! The rules of the etcd and Consul discovery backends that do not depend
//! on the network: key layout, stored records, the lease table, addresses,
//! URLs and how HTTP answers are classified.

use vstd::prelude::*;
use vstd::string::*;
use crate::discovery::{
    DiscoveryError, DiscoveryErrorView, InstanceStatus, InstanceView, ServiceInstance, instance_not_found,
};
use crate::cqrs::{slot_of, find_slot};
use crate::keyed::{keyed_value, keyed_put, keyed_remove};
use crate::json::{JsonValue, JsonView, entries_view, object_of, lemma_object_view};
use crate::json_text::{json_render, render_json_text};
use crate::text::{
    decimal, int_error_string, int_error_text, last_index_of, parse_unsigned, parse_u16, strip_leading,
    strip_trailing, trim_char, trim_end_char, trim_start_matches, u64_to_decimal, IntErrorKind,
};

verus! {

/// `p` without leading and trailing slashes.
pub open spec fn trim_slashes(p: Seq<char>) -> Seq<char> {
    strip_trailing(strip_leading(p, seq!['/']), seq!['/'])
}

/// `/<prefix>/<service>`, or `/<service>` when the prefix is only slashes.
pub open spec fn joined_prefix(prefix: Seq<char>, service: Seq<char>) -> Seq<char> {
    let p = trim_slashes(prefix);
    if p.len() == 0 {
        "/"@ + service
    } else {
        "/"@ + p + "/"@ + service
    }
}

/// The key prefix under which a service's instances are stored.
pub open spec fn service_prefix_text(prefix: Seq<char>, service: Seq<char>) -> Seq<char> {
    joined_prefix(prefix, service) + "/"@
}

/// The key of one instance.
pub open spec fn instance_key_text(prefix: Seq<char>, service: Seq<char>, id: Seq<char>) -> Seq<char> {
    service_prefix_text(prefix, service) + id
}

/// An instance as the etcd backend stores it.
#[derive(Debug, Clone)]
pub struct StoredServiceInstance {
    pub id: String,
    pub name: String,
    pub address: String,
    pub metadata: Vec<(String, String)>,
    pub status: InstanceStatus,
    /// Last heartbeat, in milliseconds since the epoch.
    pub last_heartbeat_unix_ms: Option<u64>,
}

impl StoredServiceInstance {
    /// The abstract value.
    pub open spec fn view(&self) -> InstanceView {
        InstanceView {
            id: self.id@,
            name: self.name@,
            address: self.address@,
            metadata: self.metadata@.map_values(|p: (String, String)| (p.0@, p.1@)),
            status: self.status,
            last_heartbeat: self.last_heartbeat_unix_ms,
        }
    }
}

/// The etcd backend's configuration and lease table.
pub struct EtcdDiscovery {
    prefix: String,
    lease_ttl: i64,
    leases: Vec<(String, i64)>,
}

impl EtcdDiscovery {
    /// The normalized key prefix.
    pub closed spec fn prefix_view(&self) -> Seq<char> {
        self.prefix@
    }

    /// The lease time-to-live, in seconds.
    pub closed spec fn lease_ttl_view(&self) -> i64 {
        self.lease_ttl
    }

    /// The lease held for an instance key, if any.
    pub closed spec fn lease(&self, key: Seq<char>) -> Option<i64> {
        keyed_value(self.leases@, key)
    }

    /// The backend state for `prefix` (slashes trimmed) and `lease_ttl`, with
    /// no lease yet; what is left once the client has connected.
    pub fn configure(prefix: &str, lease_ttl: i64) -> (r: Self)
        ensures
            r.prefix_view() == trim_slashes(prefix@),
            r.lease_ttl_view() == lease_ttl,
            forall|k: Seq<char>| #[trigger] r.lease(k) is None,
    {
        EtcdDiscovery { prefix: Self::normalize_prefix(prefix), lease_ttl, leases: Vec::new() }
    }

    /// `prefix` with leading and trailing slashes removed.
    pub fn normalize_prefix(prefix: &str) -> (r: String)
        ensures
            r@ == trim_slashes(prefix@),
    {
        trim_char(prefix, '/')
    }

    /// `/<prefix>/<service>` (or `/<service>` for an empty prefix).
    pub fn join_prefix(prefix: &str, service_name: &str) -> (r: String)
        ensures
            r@ == joined_prefix(prefix@, service_name@),
    {
        let p = trim_char(prefix, '/');
        if p.unicode_len() == 0 {
            String::from_str("/").concat(service_name)
        } else {
            String::from_str("/").concat(p.as_str()).concat("/").concat(service_name)
        }
    }

    /// The key prefix of a service: the joined prefix and a slash.
    pub fn service_prefix_from(prefix: &str, service_name: &str) -> (r: String)
        ensures
            r@ == service_prefix_text(prefix@, service_name@),
    {
        Self::join_prefix(prefix, service_name).concat("/")
    }

    /// The key of an instance: the service's key prefix and the id.
    pub fn instance_key_from(prefix: &str, service_name: &str, instance_id: &str) -> (r: String)
        ensures
            r@ == instance_key_text(prefix@, service_name@, instance_id@),
    {
        Self::service_prefix_from(prefix, service_name).concat(instance_id)
    }

    /// The key prefix of a service under this backend's prefix.
    pub fn service_prefix(&self, service_name: &str) -> (r: String)
        ensures
            r@ == service_prefix_text(self.prefix_view(), service_name@),
    {
        Self::service_prefix_from(self.prefix.as_str(), service_name)
    }

    /// The key of an instance under this backend's prefix.
    pub fn instance_key(&self, service_name: &str, instance_id: &str) -> (r: String)
        ensures
            r@ == instance_key_text(self.prefix_view(), service_name@, instance_id@),
    {
        Self::instance_key_from(self.prefix.as_str(), service_name, instance_id)
    }

    /// The lease time-to-live, in seconds.
    pub fn lease_ttl(&self) -> (r: i64)
        ensures
            r == self.lease_ttl_view(),
    {
        self.lease_ttl
    }

    /// The lease held for `key`.
    pub fn lease_for(&self, key: &str) -> (r: Option<i64>)
        ensures
            r == self.lease(key@),
    {
        match find_slot(&self.leases, key) {
            Some(i) => Some(self.leases[i].1),
            None => None,
        }
    }

    /// Remembers `lease_id` as the lease of `key`, replacing any earlier one.
    pub fn record_lease(&mut self, key: &str, lease_id: i64)
        ensures
            final(self).lease(key@) == Some(lease_id),
            forall|k: Seq<char>| k != key@ ==> #[trigger] final(self).lease(k) == old(self).lease(k),
            final(self).prefix_view() == old(self).prefix_view(),
            final(self).lease_ttl_view() == old(self).lease_ttl_view(),
    {
        keyed_put(&mut self.leases, key, lease_id);
    }

    /// Forgets the lease of `key` and returns it.
    pub fn take_lease(&mut self, key: &str) -> (r: Option<i64>)
        ensures
            r == old(self).lease(key@),
            final(self).lease(key@) is None,
            forall|k: Seq<char>| k != key@ ==> #[trigger] final(self).lease(k) == old(self).lease(k),
            final(self).prefix_view() == old(self).prefix_view(),
            final(self).lease_ttl_view() == old(self).lease_ttl_view(),
    {
        let found = self.lease_for(key);
        keyed_remove(&mut self.leases, key);
        found
    }

    /// The lease to keep alive for a heartbeat of `instance_id` of
    /// `service_name`; without one the instance is `NotFound`.
    pub fn heartbeat_lease(&self, service_name: &str, instance_id: &str) -> (r: Result<i64, DiscoveryError>)
        ensures
            match self.lease(instance_key_text(self.prefix_view(), service_name@, instance_id@)) {
                Some(l) => r == Ok::<i64, DiscoveryError>(l),
                None => r is Err && r->Err_0@ == DiscoveryErrorView::NotFound(
                    instance_not_found(service_name@, instance_id@),
                ),
            },
    {
        let key = self.instance_key(service_name, instance_id);
        match self.lease_for(key.as_str()) {
            Some(l) => Ok(l),
            None => Err(DiscoveryError::NotFound(not_found_message(service_name, instance_id))),
        }
    }

    /// The record written for a registered or refreshed instance: healthy,
    /// with its heartbeat at `now` (milliseconds).
    pub fn service_instance_to_record(instance: &ServiceInstance, now: u64) -> (r: StoredServiceInstance)
        ensures
            r@ == (InstanceView { status: InstanceStatus::Healthy, last_heartbeat: Some(now), ..instance@ }),
    {
        let dup = instance.duplicate();
        let r = StoredServiceInstance {
            id: dup.id,
            name: dup.name,
            address: dup.address,
            metadata: dup.metadata,
            status: InstanceStatus::Healthy,
            last_heartbeat_unix_ms: Some(now),
        };
        r
    }

    /// The instance a stored record describes.
    pub fn service_instance_from_record(record: StoredServiceInstance) -> (r: ServiceInstance)
        ensures
            r@ == record@,
    {
        ServiceInstance {
            id: record.id,
            name: record.name,
            address: record.address,
            metadata: record.metadata,
            status: record.status,
            last_heartbeat: record.last_heartbeat_unix_ms,
        }
    }

    /// The record written by a heartbeat: the stored record `found` made
    /// healthy with its heartbeat at `now`; without a stored record the
    /// instance is `NotFound`.
    pub fn heartbeat_record(found: Option<StoredServiceInstance>, service_name: &str, instance_id: &str, now: u64) -> (r:
        Result<StoredServiceInstance, DiscoveryError>)
        ensures
            found is None ==> r is Err && r->Err_0@ == DiscoveryErrorView::NotFound(
                instance_not_found(service_name@, instance_id@),
            ),
            found matches Some(rec) ==> (r matches Ok(x) && x@ == (InstanceView {
                status: InstanceStatus::Healthy,
                last_heartbeat: Some(now),
                ..rec@
            })),
    {
        match found {
            None => Err(DiscoveryError::NotFound(not_found_message(service_name, instance_id))),
            Some(rec) => {
                let instance = Self::service_instance_from_record(rec);
                Ok(Self::service_instance_to_record(&instance, now))
            },
        }
    }

    /// What a delete answered with `deleted` removed keys means: none
    /// removed is `NotFound`.
    pub fn deletion_outcome(deleted: i64, service_name: &str, instance_id: &str) -> (r: Result<(), DiscoveryError>)
        ensures
            deleted == 0 ==> r is Err && r->Err_0@ == DiscoveryErrorView::NotFound(
                instance_not_found(service_name@, instance_id@),
            ),
            deleted != 0 ==> r is Ok,
    {
        if deleted == 0 {
            Err(DiscoveryError::NotFound(not_found_message(service_name, instance_id)))
        } else {
            Ok(())
        }
    }
}

/// `service '<service>' instance '<id>' not found`.
pub fn not_found_message(service_name: &str, instance_id: &str) -> (r: String)
    ensures
        r@ == instance_not_found(service_name@, instance_id@),
{
    String::from_str("service '").concat(service_name).concat("' instance '").concat(instance_id).concat(
        "' not found",
    )
}

/// How `address` splits at its last `:` into host and port.
pub open spec fn split_address_spec(a: Seq<char>) -> Result<(Seq<char>, u16), DiscoveryErrorView> {
    let i = last_index_of(a, ':');
    if i < 0 {
        Err(DiscoveryErrorView::Backend("invalid address: "@ + a))
    } else {
        match parse_unsigned(a.subrange(i + 1, a.len() as int), 65535) {
            Ok(v) => Ok((a.take(i), v as u16)),
            Err(k) => Err(DiscoveryErrorView::Backend("invalid address port: "@ + int_error_text(k))),
        }
    }
}

/// Index of the last `c` in `s`.
pub fn find_last_char(s: &str, c: char) -> (r: Option<usize>)
    ensures
        r is None <==> last_index_of(s@, c) < 0,
        r matches Some(i) ==> i as int == last_index_of(s@, c) && i < s@.len(),
{
    let n = s.unicode_len();
    let mut i: usize = n;
    assert(s@.take(n as int) =~= s@);
    while i > 0
        invariant
            n == s@.len(),
            i <= n,
            last_index_of(s@, c) == last_index_of(s@.take(i as int), c),
        decreases i,
    {
        let ghost t = s@.take(i as int);
        assert(t.last() == s@[i - 1]);
        assert(t.drop_last() =~= s@.take(i - 1));
        if s.get_char(i - 1) == c {
            proof { lemma_last_index_bound(t, c); }
            return Some(i - 1);
        }
        i = i - 1;
    }
    assert(s@.take(0) =~= Seq::<char>::empty());
    None
}

proof fn lemma_last_index_bound(s: Seq<char>, c: char)
    ensures
        -1 <= last_index_of(s, c) < s.len(),
    decreases s.len(),
{
    if s.len() > 0 && s.last() != c {
        lemma_last_index_bound(s.drop_last(), c);
    }
}

/// The Consul backend's configuration.
pub struct ConsulDiscovery {
    pub base_url: String,
    pub datacenter: Option<String>,
    pub token: Option<String>,
}

/// Canonical reason phrase of an HTTP status code, as the `http` crate's
/// table gives it (`None` for codes it does not name).
pub uninterp spec fn reason_phrase(status: u16) -> Option<Seq<char>>;

/// The reason phrase of `status`.
///
/// Calls `http::StatusCode::from_u16` and `StatusCode::canonical_reason`;
/// the result is named `reason_phrase(status)`, a function of the code alone.
#[verifier::external_body]
fn canonical_reason(status: u16) -> (r: Option<&'static str>)
    ensures
        match r {
            Some(s) => reason_phrase(status) == Some(s@),
            None => reason_phrase(status) is None,
        },
{
    axum::http::StatusCode::from_u16(status).ok().and_then(|s| s.canonical_reason())
}

/// `StatusCode`'s display text: the code and its reason phrase.
pub open spec fn status_text(status: u16) -> Seq<char> {
    decimal(status as nat) + " "@ + match reason_phrase(status) {
        Some(p) => p,
        None => "<unknown status code>"@,
    }
}

impl ConsulDiscovery {
    /// The agent's base URL, trailing slashes removed.
    pub closed spec fn base_url_view(&self) -> Seq<char> {
        self.base_url@
    }

    /// A backend talking to the agent at `base_url`.
    pub fn new(base_url: &str, datacenter: Option<String>, token: Option<String>) -> (r: Self)
        ensures
            r.base_url_view() == strip_trailing(base_url@, seq!['/']),
            r.datacenter == datacenter,
            r.token == token,
    {
        ConsulDiscovery { base_url: trim_end_char(base_url, '/'), datacenter, token }
    }

    /// The full URL of an API path: base URL, one slash, the path without
    /// its leading slashes.
    pub fn url(&self, path: &str) -> (r: String)
        ensures
            r@ == strip_trailing(self.base_url_view(), seq!['/']) + "/"@ + strip_leading(path@, "/"@),
    {
        let base = trim_end_char(self.base_url.as_str(), '/');
        let tail = trim_start_matches(path, "/");
        base.concat("/").concat(tail.as_str())
    }

    /// Host and port of an `host:port` address, split at the last `:`.
    pub fn split_address(address: &str) -> (r: Result<(String, u16), DiscoveryError>)
        ensures
            match r {
                Ok((h, p)) => split_address_spec(address@) == Ok::<(Seq<char>, u16), DiscoveryErrorView>((h@, p)),
                Err(e) => split_address_spec(address@) == Err::<(Seq<char>, u16), DiscoveryErrorView>(e@),
            },
    {
        match find_last_char(address, ':') {
            None => Err(DiscoveryError::Backend(String::from_str("invalid address: ").concat(address))),
            Some(i) => {
                let n = address.unicode_len();
                assert(i < n);
                let port_text = address.substring_char(i + 1, n);
                match parse_u16(port_text) {
                    Ok(port) => Ok((String::from_str(address.substring_char(0, i)), port)),
                    Err(k) => {
                        let msg = int_error_string(&k);
                        Err(DiscoveryError::Backend(String::from_str("invalid address port: ").concat(msg.as_str())))
                    },
                }
            },
        }
    }

    /// The id of an instance's TTL check: `service:<id>`.
    pub fn check_id(instance_id: &str) -> (r: String)
        ensures
            r@ == "service:"@ + instance_id@,
    {
        String::from_str("service:").concat(instance_id)
    }

    /// The address an instance is reached at: the service address (the
    /// node's when the service gives none), a colon and the port.
    pub fn instance_address(node_address: &str, service_address: &str, port: u16) -> (r: String)
        ensures
            r@ == (if service_address@.len() == 0 { node_address@ } else { service_address@ }) + ":"@
                + decimal(port as nat),
    {
        let host = if service_address.unicode_len() == 0 { node_address } else { service_address };
        let digits = u64_to_decimal(port as u64);
        String::from_str(host).concat(":").concat(digits.as_str())
    }

    /// The instance a health entry describes: healthy, with no heartbeat.
    pub fn instance_from_entry(
        id: String,
        service: String,
        node_address: &str,
        service_address: &str,
        port: u16,
        metadata: Vec<(String, String)>,
    ) -> (r: ServiceInstance)
        ensures
            r.id@ == id@,
            r.name@ == service@,
            r.address@ == (if service_address@.len() == 0 { node_address@ } else { service_address@ }) + ":"@
                + decimal(port as nat),
            r.metadata@ == metadata@,
            r.status == InstanceStatus::Healthy,
            r.last_heartbeat is None,
    {
        let address = Self::instance_address(node_address, service_address, port);
        ServiceInstance { id, name: service, address, metadata, status: InstanceStatus::Healthy, last_heartbeat: None }
    }

    /// The metadata that a service entry's `Meta` field gives: for an
    /// object, each key with its value, a string as it is and any other
    /// value as its JSON text; nothing for an absent field or a non-object.
    pub fn metadata_from_value(value: Option<&JsonValue>) -> (r: Vec<(String, String)>)
        ensures
            pair_views(r@) == metadata_view(
                match value {
                    Some(v) => Some(v@),
                    None => None,
                },
            ),
    {
        let mut out: Vec<(String, String)> = Vec::new();
        match value {
            Some(JsonValue::Object(entries)) => {
                proof {
                    lemma_object_view(*entries);
                }
                let ghost es = entries_view(entries@);
                let mut i: usize = 0;
                while i < entries.len()
                    invariant
                        i <= entries@.len(),
                        es == entries_view(entries@),
                        pair_views(out@) == es.take(i as int).map_values(
                            |e: (Seq<char>, JsonView)| (e.0, meta_text(e.1)),
                        ),
                    decreases entries.len() - i,
                {
                    let text = match &entries[i].1 {
                        JsonValue::String(t) => t.clone(),
                        other => match render_json_text(other) {
                            Ok(t) => t,
                            Err(_) => String::new(),
                        },
                    };
                    let ghost before = pair_views(out@);
                    out.push((entries[i].0.clone(), text));
                    assert(pair_views(out@) =~= before.push((es[i as int].0, meta_text(es[i as int].1))));
                    assert(es.take(i + 1).map_values(|e: (Seq<char>, JsonView)| (e.0, meta_text(e.1)))
                        =~= es.take(i as int).map_values(|e: (Seq<char>, JsonView)| (e.0, meta_text(e.1))).push(
                        (es[i as int].0, meta_text(es[i as int].1)),
                    ));
                    i = i + 1;
                }
                assert(es.take(i as int) =~= es);
            },
            _ => {
                assert(pair_views(out@) =~= Seq::<(Seq<char>, Seq<char>)>::empty());
            },
        }
        out
    }

    /// What an HTTP answer with `status` means: 404 is `NotFound`, another
    /// code outside 2xx a backend error naming the status.
    pub fn status_outcome(status: u16) -> (r: Result<(), DiscoveryError>)
        ensures
            status == 404 ==> r is Err && r->Err_0@ == DiscoveryErrorView::NotFound("consul resource not found"@),
            status != 404 && !(200 <= status <= 299) ==> r is Err && r->Err_0@ == DiscoveryErrorView::Backend(
                "consul request failed with status "@ + status_text(status),
            ),
            200 <= status <= 299 ==> r is Ok,
    {
        if status == 404 {
            Err(DiscoveryError::NotFound(String::from_str("consul resource not found")))
        } else if status < 200 || status > 299 {
            let code = u64_to_decimal(status as u64);
            let reason: String = match canonical_reason(status) {
                Some(p) => String::from_str(p),
                None => String::from_str("<unknown status code>"),
            };
            let text = code.concat(" ").concat(reason.as_str());
            assert(text@ == status_text(status));
            Err(DiscoveryError::Backend(String::from_str("consul request failed with status ").concat(text.as_str())))
        } else {
            Ok(())
        }
    }

    /// The index to wait from after a long poll: the `X-Consul-Index`
    /// header's number when it parses, else the previous index.
    pub fn next_index(header: Option<u64>, last_index: u64) -> (r: u64)
        ensures
            r == (match header {
                Some(v) => v,
                None => last_index,
            }),
    {
        match header {
            Some(v) => v,
            None => last_index,
        }
    }
}

/// Where the etcd watch loop of one service stands.
#[derive(Debug, Clone, Copy, PartialEq, Eq, Structural)]
pub enum WatchPhase {
    /// About to look whether anyone still watches the service.
    Checking,
    /// Opening a watch on the service's key prefix.
    Opening,
    /// Reading messages from an open watch.
    Reading,
    /// Waiting before looking again.
    Sleeping,
    /// The loop has ended and its task is removed.
    Finished,
}

/// What the outside world answered to the loop's last action.
#[derive(Debug, Clone, Copy, PartialEq, Eq, Structural)]
pub enum WatchEvent {
    /// Whether any watcher is registered for the service.
    Watchers { present: bool },
    /// The watch was opened.
    Opened,
    /// Opening the watch failed.
    OpenFailed,
    /// A watch message arrived: whether it cancels the watch, and whether
    /// it carries a put or delete event.
    Message { canceled: bool, changed: bool },
    /// The message stream ended or failed.
    StreamClosed,
    /// The wait is over.
    Slept,
}

/// What the loop asks to be done next.
#[derive(Debug, Clone, Copy, PartialEq, Eq, Structural)]
pub enum WatchAction {
    CheckWatchers,
    OpenWatch,
    ReadMessage,
    /// Send the watchers a fresh snapshot, then read the next message.
    NotifyAndRead,
    Sleep { ms: u64 },
    /// Remove the loop's task from the task table.
    RemoveTask,
    /// The event does not fit the phase and changes nothing.
    Ignore,
}

/// The watch loop's transition table.
pub open spec fn watch_transition(phase: WatchPhase, event: WatchEvent) -> (WatchPhase, WatchAction) {
    match (phase, event) {
        (WatchPhase::Checking, WatchEvent::Watchers { present }) => if present {
            (WatchPhase::Opening, WatchAction::OpenWatch)
        } else {
            (WatchPhase::Finished, WatchAction::RemoveTask)
        },
        (WatchPhase::Opening, WatchEvent::Opened) => (WatchPhase::Reading, WatchAction::ReadMessage),
        (WatchPhase::Opening, WatchEvent::OpenFailed) => (WatchPhase::Sleeping, WatchAction::Sleep { ms: 1000 }),
        (WatchPhase::Reading, WatchEvent::Message { canceled, changed }) => if canceled {
            (WatchPhase::Sleeping, WatchAction::Sleep { ms: 250 })
        } else if changed {
            (WatchPhase::Reading, WatchAction::NotifyAndRead)
        } else {
            (WatchPhase::Reading, WatchAction::ReadMessage)
        },
        (WatchPhase::Reading, WatchEvent::StreamClosed) => (WatchPhase::Sleeping, WatchAction::Sleep { ms: 250 }),
        (WatchPhase::Sleeping, WatchEvent::Slept) => (WatchPhase::Checking, WatchAction::CheckWatchers),
        _ => (phase, WatchAction::Ignore),
    }
}

/// One step of the etcd watch loop: the next phase and action for `event`.
pub fn watch_step(phase: WatchPhase, event: WatchEvent) -> (r: (WatchPhase, WatchAction))
    ensures
        r == watch_transition(phase, event),
{
    match (phase, event) {
        (WatchPhase::Checking, WatchEvent::Watchers { present }) => if present {
            (WatchPhase::Opening, WatchAction::OpenWatch)
        } else {
            (WatchPhase::Finished, WatchAction::RemoveTask)
        },
        (WatchPhase::Opening, WatchEvent::Opened) => (WatchPhase::Reading, WatchAction::ReadMessage),
        (WatchPhase::Opening, WatchEvent::OpenFailed) => (WatchPhase::Sleeping, WatchAction::Sleep { ms: 1000 }),
        (WatchPhase::Reading, WatchEvent::Message { canceled, changed }) => if canceled {
            (WatchPhase::Sleeping, WatchAction::Sleep { ms: 250 })
        } else if changed {
            (WatchPhase::Reading, WatchAction::NotifyAndRead)
        } else {
            (WatchPhase::Reading, WatchAction::ReadMessage)
        },
        (WatchPhase::Reading, WatchEvent::StreamClosed) => (WatchPhase::Sleeping, WatchAction::Sleep { ms: 250 }),
        (WatchPhase::Sleeping, WatchEvent::Slept) => (WatchPhase::Checking, WatchAction::CheckWatchers),
        _ => (phase, WatchAction::Ignore),
    }
}

/// The views of text pairs.
pub open spec fn pair_views(v: Seq<(String, String)>) -> Seq<(Seq<char>, Seq<char>)> {
    v.map_values(|p: (String, String)| (p.0@, p.1@))
}

/// A metadata value's text: a string as it is, any other value as its
/// JSON text.
pub open spec fn meta_text(v: JsonView) -> Seq<char> {
    match v {
        JsonView::Str(s) => s,
        other => json_render(other),
    }
}

/// The metadata pairs of a `Meta` field.
pub open spec fn metadata_view(value: Option<JsonView>) -> Seq<(Seq<char>, Seq<char>)> {
    match value {
        Some(JsonView::Object(es)) => es.map_values(|e: (Seq<char>, JsonView)| (e.0, meta_text(e.1))),
        _ => Seq::empty(),
    }
}

/// The watch loop ends only when no watcher is left, and once ended it
/// stays ended.
pub proof fn law_watch_ends_only_without_watchers(phase: WatchPhase, event: WatchEvent)
    ensures
        watch_transition(phase, event).0 == WatchPhase::Finished && phase != WatchPhase::Finished ==> phase
            == WatchPhase::Checking && event == (WatchEvent::Watchers { present: false }),
        phase == WatchPhase::Finished ==> watch_transition(phase, event) == (WatchPhase::Finished, WatchAction::Ignore),
        watch_transition(phase, event).1 == WatchAction::RemoveTask ==> event == (WatchEvent::Watchers { present: false }),
{
}

/// Watchers are notified only for messages that carry a change and do not
/// cancel the watch.
pub proof fn law_watch_notifies_only_on_change(phase: WatchPhase, event: WatchEvent)
    ensures
        watch_transition(phase, event).1 == WatchAction::NotifyAndRead ==> phase == WatchPhase::Reading
            && event == (WatchEvent::Message { canceled: false, changed: true }),
{
}

impl ConsulDiscovery {
    /// After a long poll that answered with `index`: the index to keep and
    /// whether the watchers are notified (only when the index advanced).
    pub fn after_poll(last_index: u64, index: u64) -> (r: (u64, bool))
        ensures
            index > last_index ==> r == (index, true),
            index <= last_index ==> r == (last_index, false),
    {
        if index > last_index {
            (index, true)
        } else {
            (last_index, false)
        }
    }
}

/// Instance metadata as JSON object entries with string values.
pub open spec fn meta_entries(m: Seq<(Seq<char>, Seq<char>)>) -> Seq<(Seq<char>, JsonView)> {
    m.map_values(|p: (Seq<char>, Seq<char>)| (p.0, JsonView::Str(p.1)))
}

/// The body of a Consul agent registration: the instance's id, name, host
/// and port, its metadata, and a TTL check of 30 s whose service is removed
/// after 90 s critical.
pub open spec fn registration_view(
    id: Seq<char>,
    name: Seq<char>,
    host: Seq<char>,
    port: u16,
    meta: Seq<(Seq<char>, Seq<char>)>,
) -> JsonView {
    JsonView::Object(
        seq![
            ("ID"@, JsonView::Str(id)),
            ("Name"@, JsonView::Str(name)),
            ("Address"@, JsonView::Str(host)),
            ("Port"@, JsonView::Number(decimal(port as nat))),
            ("Meta"@, JsonView::Object(meta_entries(meta))),
            ("Check"@, JsonView::Object(seq![
                ("CheckID"@, JsonView::Str("service:"@ + id)),
                ("TTL"@, JsonView::Str("30s"@)),
                ("DeregisterCriticalServiceAfter"@, JsonView::Str("90s"@)),
            ])),
        ],
    )
}

fn entry(k: &str, v: JsonValue) -> (r: (String, JsonValue))
    ensures
        r.0@ == k@,
        r.1 == v,
{
    (String::from_str(k), v)
}

impl ConsulDiscovery {
    /// The registration body of `instance`, reached at `host:port`.
    pub fn registration_payload(instance: &ServiceInstance, host: &str, port: u16) -> (r: JsonValue)
        ensures
            r@ == registration_view(instance.id@, instance.name@, host@, port, instance@.metadata),
    {
        let ghost mv = instance@.metadata;
        let mut meta: Vec<(String, JsonValue)> = Vec::new();
        let mut i: usize = 0;
        while i < instance.metadata.len()
            invariant
                i <= instance.metadata@.len(),
                mv == instance@.metadata,
                entries_view(meta@) == meta_entries(mv.take(i as int)),
            decreases instance.metadata.len() - i,
        {
            let k = instance.metadata[i].0.clone();
            let v = JsonValue::String(instance.metadata[i].1.clone());
            let ghost before = meta@;
            assert(mv[i as int] == (instance.metadata@[i as int].0@, instance.metadata@[i as int].1@));
            meta.push((k, v));
            assert(entries_view(meta@) =~= entries_view(before).push((mv[i as int].0, JsonView::Str(mv[i as int].1))));
            assert(meta_entries(mv.take(i + 1)) =~= meta_entries(mv.take(i as int)).push(
                (mv[i as int].0, JsonView::Str(mv[i as int].1)),
            ));
            i = i + 1;
        }
        assert(mv.take(i as int) =~= mv);
        let meta_v = object_of(meta);
        let mut check: Vec<(String, JsonValue)> = Vec::new();
        check.push(entry("CheckID", JsonValue::String(Self::check_id(instance.id.as_str()))));
        check.push(entry("TTL", JsonValue::String(String::from_str("30s"))));
        check.push(entry("DeregisterCriticalServiceAfter", JsonValue::String(String::from_str("90s"))));
        assert(entries_view(check@) =~= seq![
            ("CheckID"@, JsonView::Str("service:"@ + instance.id@)),
            ("TTL"@, JsonView::Str("30s"@)),
            ("DeregisterCriticalServiceAfter"@, JsonView::Str("90s"@)),
        ]);
        let check_v = object_of(check);
        let mut top: Vec<(String, JsonValue)> = Vec::new();
        top.push(entry("ID", JsonValue::String(instance.id.clone())));
        top.push(entry("Name", JsonValue::String(instance.name.clone())));
        top.push(entry("Address", JsonValue::String(String::from_str(host))));
        top.push(entry("Port", JsonValue::Number(u64_to_decimal(port as u64))));
        top.push(entry("Meta", meta_v));
        top.push(entry("Check", check_v));
        assert(entries_view(top@) =~= registration_view(instance.id@, instance.name@, host@, port, mv)->Object_0);
        object_of(top)
    }

    /// What registering `instance` sends: its address split into host and
    /// port, and the registration body; an address that does not split is
    /// the error `split_address` gives.
    pub fn registration(instance: &ServiceInstance) -> (r: Result<JsonValue, DiscoveryError>)
        ensures
            match split_address_spec(instance.address@) {
                Ok((h, p)) => r matches Ok(v) && v@ == registration_view(instance.id@, instance.name@, h, p, instance@.metadata),
                Err(e) => r matches Err(x) && x@ == e,
            },
    {
        match Self::split_address(instance.address.as_str()) {
            Ok((host, port)) => Ok(Self::registration_payload(instance, host.as_str(), port)),
            Err(e) => Err(e),
        }
    }
}


/// An instance's key lies under its service's key prefix, so a prefix watch
/// or read of the service sees it.
pub proof fn law_instance_key_under_service_prefix(prefix: Seq<char>, service: Seq<char>, id: Seq<char>)
    ensures
        service_prefix_text(prefix, service).is_prefix_of(instance_key_text(prefix, service, id)),
{
    let p = service_prefix_text(prefix, service);
    assert(instance_key_text(prefix, service, id).subrange(0, p.len() as int) =~= p);
}

/// The key prefix of one service never covers an instance of another
/// service, as long as service names hold no slash.
pub proof fn law_service_prefixes_are_disjoint(prefix: Seq<char>, s1: Seq<char>, s2: Seq<char>, id: Seq<char>)
    requires
        s1 != s2,
        !s1.contains('/'),
        !s2.contains('/'),
    ensures
        !service_prefix_text(prefix, s1).is_prefix_of(instance_key_text(prefix, s2, id)),
{
    reveal_strlit("/");
    let base = joined_prefix(prefix, Seq::empty());
    assert(joined_prefix(prefix, s1) =~= base + s1);
    assert(joined_prefix(prefix, s2) =~= base + s2);
    let a = base + s1 + "/"@;
    let b = base + s2 + "/"@ + id;
    assert(service_prefix_text(prefix, s1) =~= a);
    assert(instance_key_text(prefix, s2, id) =~= b);
    if a.is_prefix_of(b) {
        let n: int = base.len() as int;
        if s1.len() < s2.len() {
            assert(a[n + s1.len() as int] == '/');
            assert(b[n + s1.len() as int] == s2[s1.len() as int]);
            assert(s2.contains('/'));
        } else if s1.len() > s2.len() {
            assert(b[n + s2.len() as int] == '/');
            assert(a[n + s2.len() as int] == s1[s2.len() as int]);
            assert(s1.contains('/'));
        } else {
            assert forall|k: int| 0 <= k < s1.len() implies s1[k] == s2[k] by {
                assert(a[n + k] == s1[k]);
                assert(b[n + k] == s2[k]);
            }
            assert(s1 =~= s2);
        }
    }
}

} // verus!
