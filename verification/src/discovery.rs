//! Service discovery: instances, the in-process (static) registry, and the
//! key and address rules of the etcd and Consul backends.

use vstd::prelude::*;
use vstd::string::*;
use crate::cqrs::{slot_of, find_slot, lemma_slot_of_bound, lemma_slot_of_same_keys, lemma_slot_of_push};

verus! {

/// Discovery subsystem errors.
#[derive(Debug, Clone)]
pub enum DiscoveryError {
    NotFound(String),
    Backend(String),
    ConnectionFailed(String),
}

/// Abstract discovery error.
pub enum DiscoveryErrorView {
    NotFound(Seq<char>),
    Backend(Seq<char>),
    ConnectionFailed(Seq<char>),
}

impl DiscoveryError {
    /// The abstract value.
    pub open spec fn view(&self) -> DiscoveryErrorView {
        match *self {
            DiscoveryError::NotFound(m) => DiscoveryErrorView::NotFound(m@),
            DiscoveryError::Backend(m) => DiscoveryErrorView::Backend(m@),
            DiscoveryError::ConnectionFailed(m) => DiscoveryErrorView::ConnectionFailed(m@),
        }
    }

    /// Rendered text of the error, as its `Display` form prints it.
    pub fn to_display_string(&self) -> (r: String)
        ensures
            r@ == (match self@ {
                DiscoveryErrorView::NotFound(m) => "Discovery not found: "@ + m,
                DiscoveryErrorView::Backend(m) => "Discovery backend error: "@ + m,
                DiscoveryErrorView::ConnectionFailed(m) => "Discovery connection failed: "@ + m,
            }),
    {
        match self {
            DiscoveryError::NotFound(m) => String::from_str("Discovery not found: ").concat(m.as_str()),
            DiscoveryError::Backend(m) => String::from_str("Discovery backend error: ").concat(m.as_str()),
            DiscoveryError::ConnectionFailed(m) => String::from_str("Discovery connection failed: ").concat(
                m.as_str(),
            ),
        }
    }
}

/// Health of a service instance.
#[derive(Debug, Clone, Copy, PartialEq, Eq, Structural)]
pub enum InstanceStatus {
    Healthy,
    Unhealthy,
    Starting,
    Draining,
}

/// A discovered service instance.
#[derive(Debug, Clone)]
pub struct ServiceInstance {
    pub id: String,
    pub name: String,
    pub address: String,
    /// Metadata as key/value pairs.
    pub metadata: Vec<(String, String)>,
    pub status: InstanceStatus,
    /// Time of the last heartbeat, in milliseconds since the epoch.
    pub last_heartbeat: Option<u64>,
}

/// Abstract service instance.
pub struct InstanceView {
    pub id: Seq<char>,
    pub name: Seq<char>,
    pub address: Seq<char>,
    pub metadata: Seq<(Seq<char>, Seq<char>)>,
    pub status: InstanceStatus,
    pub last_heartbeat: Option<u64>,
}

impl ServiceInstance {
    /// The abstract value.
    pub open spec fn view(&self) -> InstanceView {
        InstanceView {
            id: self.id@,
            name: self.name@,
            address: self.address@,
            metadata: self.metadata@.map_values(|p: (String, String)| (p.0@, p.1@)),
            status: self.status,
            last_heartbeat: self.last_heartbeat,
        }
    }

    /// A copy of the instance.
    pub fn duplicate(&self) -> (r: Self)
        ensures
            r@ == self@,
    {
        let mut metadata: Vec<(String, String)> = Vec::new();
        let mut i: usize = 0;
        while i < self.metadata.len()
            invariant
                i <= self.metadata@.len(),
                metadata@.len() == i,
                forall|j: int| 0 <= j < i ==> (#[trigger] metadata@[j]).0@ == self.metadata@[j].0@
                    && metadata@[j].1@ == self.metadata@[j].1@,
            decreases self.metadata.len() - i,
        {
            metadata.push((self.metadata[i].0.clone(), self.metadata[i].1.clone()));
            i = i + 1;
        }
        let r = ServiceInstance {
            id: self.id.clone(),
            name: self.name.clone(),
            address: self.address.clone(),
            metadata,
            status: self.status,
            last_heartbeat: self.last_heartbeat,
        };
        assert(r@.metadata =~= self@.metadata);
        r
    }
}

/// The abstract form of each instance.
pub open spec fn instance_views(v: Seq<ServiceInstance>) -> Seq<InstanceView> {
    v.map_values(|i: ServiceInstance| i@)
}

/// An instance as the static registry keeps it: healthy, with no heartbeat yet.
pub open spec fn normalized(i: InstanceView) -> InstanceView {
    InstanceView { status: InstanceStatus::Healthy, last_heartbeat: None, ..i }
}

/// The instances of `s` whose id is not `id`, in order.
pub open spec fn without_id(s: Seq<InstanceView>, id: Seq<char>) -> Seq<InstanceView>
    decreases s.len(),
{
    if s.len() == 0 {
        s
    } else {
        let rest = without_id(s.drop_last(), id);
        if s.last().id == id { rest } else { rest.push(s.last()) }
    }
}

/// The healthy instances of `s`, in order.
pub open spec fn healthy(s: Seq<InstanceView>) -> Seq<InstanceView>
    decreases s.len(),
{
    if s.len() == 0 {
        s
    } else {
        let rest = healthy(s.drop_last());
        if s.last().status == InstanceStatus::Healthy { rest.push(s.last()) } else { rest }
    }
}

/// Index of the first instance with id `id`, or -1.
pub open spec fn instance_index(s: Seq<InstanceView>, id: Seq<char>) -> int
    decreases s.len(),
{
    if s.len() == 0 {
        -1
    } else if s[0].id == id {
        0
    } else {
        let r = instance_index(s.drop_first(), id);
        if r < 0 { -1 } else { r + 1 }
    }
}

/// `r` is a `NotFound` error with message `msg`.
pub open spec fn not_found_with<T>(r: Result<T, DiscoveryError>, msg: Seq<char>) -> bool {
    match r {
        Err(e) => e@ == DiscoveryErrorView::NotFound(msg),
        Ok(_) => false,
    }
}

/// Message of the error for an instance that the registry does not hold.
pub open spec fn instance_not_found(service: Seq<char>, id: Seq<char>) -> Seq<char> {
    "service '"@ + service + "' instance '"@ + id + "' not found"@
}

pub(crate) fn same_text(a: &str, b: &str) -> (r: bool)
    ensures
        r == (a@ == b@),
{
    if a.unicode_len() == b.unicode_len() && crate::text::starts_with(a, b) {
        assert(a@ =~= b@);
        true
    } else {
        false
    }
}

fn normalize_instance(instance: ServiceInstance) -> (r: ServiceInstance)
    ensures
        r@ == normalized(instance@),
{
    let mut instance = instance;
    instance.status = InstanceStatus::Healthy;
    instance.last_heartbeat = None;
    instance
}

fn remove_id(list: Vec<ServiceInstance>, id: &str) -> (r: Vec<ServiceInstance>)
    ensures
        instance_views(r@) == without_id(instance_views(list@), id@),
{
    let ghost all = instance_views(list@);
    let mut rest = list;
    let n = rest.len();
    let mut out: Vec<ServiceInstance> = Vec::new();
    let mut i: usize = 0;
    let ghost orig = rest@;
    while i < n
        invariant
            n == orig.len(),
            all == instance_views(orig),
            i <= n,
            rest@ == orig.subrange(i as int, n as int),
            instance_views(out@) == without_id(all.take(i as int), id@),
        decreases n - i,
    {
        let x = rest.remove(0);
        assert(orig[i as int] == x);
        assert(all.take(i + 1).drop_last() =~= all.take(i as int));
        assert(all.take(i + 1).last() == x@);
        if !same_text(x.id.as_str(), id) {
            let ghost before = out@;
            out.push(x);
            assert(instance_views(out@) =~= instance_views(before).push(x@));
        }
        i = i + 1;
        assert(rest@ =~= orig.subrange(i as int, n as int));
    }
    assert(all.take(n as int) =~= all);
    out
}

/// The healthy instances of `instances`, in order.
pub fn healthy_instances(instances: Vec<ServiceInstance>) -> (r: Vec<ServiceInstance>)
    ensures
        instance_views(r@) == healthy(instance_views(instances@)),
{
    let ghost all = instances@;
    let ghost lv = instance_views(all);
    let mut rest = instances;
    let n = rest.len();
    let mut out: Vec<ServiceInstance> = Vec::new();
    let mut i: usize = 0;
    assert(instance_views(out@) =~= healthy(lv.take(0)));
    while i < n
        invariant
            n == all.len(),
            i <= n,
            lv == instance_views(all),
            rest@ == all.subrange(i as int, n as int),
            instance_views(out@) == healthy(lv.take(i as int)),
        decreases n - i,
    {
        let x = rest.remove(0);
        assert(all[i as int] == x);
        assert(lv.take(i + 1).drop_last() =~= lv.take(i as int));
        assert(lv.take(i + 1).last() == x@);
        if x.status == InstanceStatus::Healthy {
            let ghost before = out@;
            out.push(x);
            assert(instance_views(out@) =~= instance_views(before).push(x@));
        }
        i = i + 1;
        assert(rest@ =~= all.subrange(i as int, n as int));
    }
    assert(lv.take(n as int) =~= lv);
    out
}

/// The in-process registry of service instances.
pub struct StaticDiscovery {
    services: Vec<(String, Vec<ServiceInstance>)>,
}

impl StaticDiscovery {
    /// Whether the registry holds an entry for `service`.
    pub closed spec fn has_service(&self, service: Seq<char>) -> bool {
        slot_of(self.services@, service) >= 0
    }

    /// The instances registered for `service`, in registration order.
    pub closed spec fn instances_of(&self, service: Seq<char>) -> Seq<InstanceView> {
        let i = slot_of(self.services@, service);
        if i < 0 { Seq::empty() } else { instance_views(self.services@[i].1@) }
    }

    fn put_list(&mut self, name: &str, list: Vec<ServiceInstance>)
        ensures
            final(self).has_service(name@),
            final(self).instances_of(name@) == instance_views(list@),
            forall|k: Seq<char>| k != name@ ==> final(self).has_service(k) == old(self).has_service(k),
            forall|k: Seq<char>| k != name@ ==> final(self).instances_of(k) == old(self).instances_of(k),
    {
        let ghost old_s = self.services@;
        match find_slot(&self.services, name) {
            Some(i) => {
                let (key, _) = self.services.remove(i);
                self.services.insert(i, (key, list));
                assert forall|k: Seq<char>| true implies slot_of(self.services@, k) == slot_of(old_s, k) by {
                    lemma_slot_of_same_keys(self.services@, old_s, k);
                }
                assert forall|k: Seq<char>| k != name@ implies self.instances_of(k) == old(self).instances_of(k) by {
                    let j = slot_of(old_s, k);
                    lemma_slot_of_bound(old_s, k);
                    if j >= 0 {
                        assert(j != i);
                        assert(self.services@[j] == old_s[j]);
                    }
                }
            },
            None => {
                let entry = (String::from_str(name), list);
                self.services.push(entry);
                assert forall|k: Seq<char>| true implies (k == name@ ==> slot_of(self.services@, k) == old_s.len())
                    && (k != name@ ==> (slot_of(self.services@, k) < 0 <==> slot_of(old_s, k) < 0)) && (k != name@
                    && slot_of(old_s, k) >= 0 ==> slot_of(self.services@, k) == slot_of(old_s, k)) by {
                    lemma_slot_of_push(old_s, entry, k);
                }
                assert forall|k: Seq<char>| k != name@ implies self.instances_of(k) == old(self).instances_of(k) by {
                    lemma_slot_of_bound(old_s, k);
                    let j = slot_of(old_s, k);
                    if j >= 0 {
                        assert(self.services@[j] == old_s[j]);
                    }
                }
            },
        }
    }

    fn take_list(&mut self, name: &str) -> (r: Vec<ServiceInstance>)
        ensures
            instance_views(r@) == old(self).instances_of(name@),
            final(self).has_service(name@) == old(self).has_service(name@),
            forall|k: Seq<char>| final(self).has_service(k) == old(self).has_service(k),
            forall|k: Seq<char>| k != name@ ==> final(self).instances_of(k) == old(self).instances_of(k),
    {
        let ghost old_s = self.services@;
        proof {
            lemma_slot_of_bound(old_s, name@);
        }
        match find_slot(&self.services, name) {
            Some(i) => {
                let (key, list) = self.services.remove(i);
                self.services.insert(i, (key, Vec::new()));
                assert forall|k: Seq<char>| true implies slot_of(self.services@, k) == slot_of(old_s, k) by {
                    lemma_slot_of_same_keys(self.services@, old_s, k);
                }
                assert forall|k: Seq<char>| k != name@ implies self.instances_of(k) == old(self).instances_of(k) by {
                    let j = slot_of(old_s, k);
                    lemma_slot_of_bound(old_s, k);
                    if j >= 0 {
                        assert(j != i);
                        assert(self.services@[j] == old_s[j]);
                    }
                }
                list
            },
            None => {
                let v: Vec<ServiceInstance> = Vec::new();
                assert(instance_views(v@) =~= Seq::<InstanceView>::empty());
                v
            },
        }
    }

    fn remove_service(&mut self, name: &str)
        ensures
            !final(self).has_service(name@),
            forall|k: Seq<char>| k != name@ ==> final(self).has_service(k) == old(self).has_service(k),
            forall|k: Seq<char>| k != name@ ==> final(self).instances_of(k) == old(self).instances_of(k),
    {
        let ghost orig = self.services@;
        let mut rest: Vec<(String, Vec<ServiceInstance>)> = Vec::new();
        std::mem::swap(&mut rest, &mut self.services);
        assert(rest@ == orig);
        let n = rest.len();
        let mut out: Vec<(String, Vec<ServiceInstance>)> = Vec::new();
        let mut i: usize = 0;
        assert(drop_key(orig.take(0), name@) =~= Seq::<(String, Vec<ServiceInstance>)>::empty());
        while i < n
            invariant
                n == orig.len(),
                i <= n,
                rest@ == orig.subrange(i as int, n as int),
                out@ == drop_key(orig.take(i as int), name@),
            decreases n - i,
        {
            let x = rest.remove(0);
            assert(orig[i as int] == x);
            assert(orig.take(i + 1) =~= orig.take(i as int).push(x));
            proof {
                lemma_drop_key_push(orig.take(i as int), x, name@);
            }
            if !same_text(x.0.as_str(), name) {
                out.push(x);
            }
            i = i + 1;
            assert(rest@ =~= orig.subrange(i as int, n as int));
        }
        assert(orig.take(n as int) =~= orig);
        self.services = out;
        assert forall|k: Seq<char>| true implies (k != name@ ==> self.has_service(k) == old(self).has_service(k))
            && (k != name@ ==> self.instances_of(k) == old(self).instances_of(k)) by {
            lemma_slot_of_drop_key(orig, name@, k);
        }
        proof {
            lemma_slot_of_drop_key(orig, name@, name@);
        }
    }
}

/// The instances among `s` named `service`, normalized, in order.
pub open spec fn by_name(s: Seq<InstanceView>, service: Seq<char>) -> Seq<InstanceView>
    decreases s.len(),
{
    if s.len() == 0 {
        Seq::empty()
    } else {
        let rest = by_name(s.drop_last(), service);
        if s.last().name == service { rest.push(normalized(s.last())) } else { rest }
    }
}

/// The instance the static registry makes of an address of `service`: the
/// address is also its id; no metadata; healthy; no heartbeat.
pub open spec fn instance_from_address(service: Seq<char>, address: Seq<char>) -> InstanceView {
    InstanceView {
        id: address,
        name: service,
        address,
        metadata: Seq::empty(),
        status: InstanceStatus::Healthy,
        last_heartbeat: None,
    }
}

/// The addresses the last pair for `service` in `map` lists, if any.
pub open spec fn last_addresses(map: Seq<(String, Vec<String>)>, service: Seq<char>) -> Option<Seq<String>>
    decreases map.len(),
{
    if map.len() == 0 {
        None
    } else if map.last().0@ == service {
        Some(map.last().1@)
    } else {
        last_addresses(map.drop_last(), service)
    }
}

/// The instance with index `i` updated by a heartbeat at `now`.
pub open spec fn beat(s: Seq<InstanceView>, i: int, now: u64) -> Seq<InstanceView> {
    s.update(i, InstanceView { status: InstanceStatus::Healthy, last_heartbeat: Some(now), ..s[i] })
}

fn instance_from_address_exec(service: &str, address: String) -> (r: ServiceInstance)
    ensures
        r@ == instance_from_address(service@, address@),
{
    let r = ServiceInstance {
        id: address.clone(),
        name: String::from_str(service),
        address,
        metadata: Vec::new(),
        status: InstanceStatus::Healthy,
        last_heartbeat: None,
    };
    assert(r@.metadata =~= Seq::<(Seq<char>, Seq<char>)>::empty());
    r
}

impl StaticDiscovery {
    /// A registry holding `instances`, grouped by service name in the given
    /// order, each made healthy with no heartbeat.
    pub fn new(instances: Vec<ServiceInstance>) -> (r: Self)
        ensures
            forall|k: Seq<char>| #[trigger] r.instances_of(k) == by_name(instance_views(instances@), k),
            forall|k: Seq<char>| #[trigger] r.has_service(k) == (by_name(instance_views(instances@), k).len() > 0),
    {
        let mut reg = StaticDiscovery { services: Vec::new() };
        let ghost all = instances@;
        let ghost av = instance_views(all);
        let mut rest = instances;
        let n = rest.len();
        let mut i: usize = 0;
        while i < n
            invariant
                n == all.len(),
                av == instance_views(all),
                i <= n,
                rest@ == all.subrange(i as int, n as int),
                forall|k: Seq<char>| #[trigger] reg.instances_of(k) == by_name(av.take(i as int), k),
                forall|k: Seq<char>| #[trigger] reg.has_service(k) == (by_name(av.take(i as int), k).len() > 0),
            decreases n - i,
        {
            let x = rest.remove(0);
            assert(all[i as int] == x);
            assert(av.take(i + 1).drop_last() =~= av.take(i as int));
            assert(av.take(i + 1).last() == x@);
            let name = x.name.clone();
            let mut list = reg.take_list(name.as_str());
            let ghost before = list@;
            let y = normalize_instance(x);
            list.push(y);
            assert(instance_views(list@) =~= instance_views(before).push(y@));
            reg.put_list(name.as_str(), list);
            i = i + 1;
            assert(rest@ =~= all.subrange(i as int, n as int));
        }
        assert(av.take(n as int) =~= av);
        reg
    }

    /// A registry from a service-name to addresses mapping: each address
    /// becomes a healthy instance whose id is the address; a later pair for
    /// the same service replaces an earlier one.
    pub fn from_map(map: Vec<(String, Vec<String>)>) -> (r: Self)
        ensures
            forall|k: Seq<char>| #[trigger] r.has_service(k) == (last_addresses(map@, k) is Some),
            forall|k: Seq<char>| #![trigger r.instances_of(k)] last_addresses(map@, k) matches Some(a) ==> r.instances_of(k)
                == a.map_values(|x: String| instance_from_address(k, x@)),
    {
        let mut reg = StaticDiscovery { services: Vec::new() };
        let ghost all = map@;
        let mut rest = map;
        let n = rest.len();
        let mut i: usize = 0;
        while i < n
            invariant
                n == all.len(),
                i <= n,
                rest@ == all.subrange(i as int, n as int),
                forall|k: Seq<char>| #[trigger] reg.has_service(k) == (last_addresses(all.take(i as int), k) is Some),
                forall|k: Seq<char>| #![trigger reg.instances_of(k)] last_addresses(all.take(i as int), k) matches Some(a)
                    ==> reg.instances_of(k) == a.map_values(|x: String| instance_from_address(k, x@)),
            decreases n - i,
        {
            let (service, addresses) = rest.remove(0);
            assert(all[i as int] == (service, addresses));
            assert(all.take(i + 1).drop_last() =~= all.take(i as int));
            assert(all.take(i + 1).last() == (service, addresses));
            let mut list: Vec<ServiceInstance> = Vec::new();
            let mut j: usize = 0;
            while j < addresses.len()
                invariant
                    j <= addresses@.len(),
                    instance_views(list@) == addresses@.take(j as int).map_values(
                        |x: String| instance_from_address(service@, x@),
                    ),
                decreases addresses.len() - j,
            {
                let ghost before = list@;
                let inst = instance_from_address_exec(service.as_str(), addresses[j].clone());
                list.push(inst);
                assert(instance_views(list@) =~= instance_views(before).push(inst@));
                assert(addresses@.take(j + 1).map_values(|x: String| instance_from_address(service@, x@))
                    =~= addresses@.take(j as int).map_values(|x: String| instance_from_address(service@, x@)).push(
                    inst@,
                ));
                j = j + 1;
            }
            assert(addresses@.take(j as int) =~= addresses@);
            reg.put_list(service.as_str(), list);
            i = i + 1;
            assert(rest@ =~= all.subrange(i as int, n as int));
        }
        assert(all.take(n as int) =~= all);
        reg
    }

    /// Register `instance` (made healthy, without heartbeat) under its
    /// service name, replacing an instance with the same id.
    pub fn register(&mut self, instance: ServiceInstance) -> (r: Result<(), DiscoveryError>)
        ensures
            r is Ok,
            final(self).has_service(instance.name@),
            final(self).instances_of(instance.name@) == without_id(
                old(self).instances_of(instance.name@),
                instance.id@,
            ).push(normalized(instance@)),
            forall|k: Seq<char>| k != instance.name@ ==> final(self).has_service(k) == old(self).has_service(k),
            forall|k: Seq<char>| k != instance.name@ ==> final(self).instances_of(k) == old(self).instances_of(k),
    {
        let name = instance.name.clone();
        let id = instance.id.clone();
        let list = self.take_list(name.as_str());
        let mut list = remove_id(list, id.as_str());
        let ghost before = list@;
        let y = normalize_instance(instance);
        list.push(y);
        assert(instance_views(list@) =~= instance_views(before).push(y@));
        self.put_list(name.as_str(), list);
        Ok(())
    }

    /// Add an instance (same as `register`).
    pub fn add_instance(&mut self, instance: ServiceInstance)
        ensures
            final(self).has_service(instance.name@),
            final(self).instances_of(instance.name@) == without_id(
                old(self).instances_of(instance.name@),
                instance.id@,
            ).push(normalized(instance@)),
            forall|k: Seq<char>| k != instance.name@ ==> final(self).has_service(k) == old(self).has_service(k),
            forall|k: Seq<char>| k != instance.name@ ==> final(self).instances_of(k) == old(self).instances_of(k),
    {
        let _ = self.register(instance);
    }

    /// The healthy instances of `service_name`, in registration order (empty
    /// for an unknown service).
    pub fn discover(&self, service_name: &str) -> (r: Result<Vec<ServiceInstance>, DiscoveryError>)
        ensures
            r matches Ok(v) && instance_views(v@) == healthy(self.instances_of(service_name@)),
    {
        let mut out: Vec<ServiceInstance> = Vec::new();
        proof {
            lemma_slot_of_bound(self.services@, service_name@);
        }
        match find_slot(&self.services, service_name) {
            Some(i) => {
                let list = &self.services[i].1;
                let ghost lv = instance_views(list@);
                let mut j: usize = 0;
                assert(instance_views(out@) =~= healthy(lv.take(0)));
                while j < list.len()
                    invariant
                        j <= list@.len(),
                        lv == instance_views(list@),
                        instance_views(out@) == healthy(lv.take(j as int)),
                    decreases list.len() - j,
                {
                    assert(lv.take(j + 1).drop_last() =~= lv.take(j as int));
                    assert(lv.take(j + 1).last() == list@[j as int]@);
                    if list[j].status == InstanceStatus::Healthy {
                        let ghost before = out@;
                        let x = list[j].duplicate();
                        out.push(x);
                        assert(instance_views(out@) =~= instance_views(before).push(x@));
                    }
                    j = j + 1;
                }
                assert(lv.take(j as int) =~= lv);
            },
            None => {
                assert(instance_views(out@) =~= Seq::<InstanceView>::empty());
            },
        }
        Ok(out)
    }

    /// Record a heartbeat at `now` (milliseconds) for instance `instance_id`
    /// of `service_name`: the first instance with that id becomes healthy and
    /// remembers the time. An unknown service or instance is `NotFound`.
    pub fn heartbeat_at(&mut self, service_name: &str, instance_id: &str, now: u64) -> (r: Result<(), DiscoveryError>)
        ensures
            !old(self).has_service(service_name@) ==> not_found_with(r, service_name@) && *final(self) == *old(self),
            old(self).has_service(service_name@) && instance_index(old(self).instances_of(service_name@), instance_id@)
                < 0 ==> not_found_with(r, instance_not_found(service_name@, instance_id@))
                && final(self).instances_of(service_name@) == old(self).instances_of(service_name@),
            old(self).has_service(service_name@) && instance_index(old(self).instances_of(service_name@), instance_id@)
                >= 0 ==> r is Ok && final(self).instances_of(service_name@) == beat(
                old(self).instances_of(service_name@),
                instance_index(old(self).instances_of(service_name@), instance_id@),
                now,
            ),
            forall|k: Seq<char>| final(self).has_service(k) == old(self).has_service(k),
            forall|k: Seq<char>| k != service_name@ ==> final(self).instances_of(k) == old(self).instances_of(k),
    {
        match find_slot(&self.services, service_name) {
            None => Err(DiscoveryError::NotFound(String::from_str(service_name))),
            Some(_) => {
                let mut list = self.take_list(service_name);
                let ghost lv = instance_views(list@);
                let mut j: usize = 0;
                let mut found = false;
                while j < list.len()
                    invariant
                        j <= list@.len(),
                        lv == instance_views(list@),
                        forall|m: int| 0 <= m < j ==> (#[trigger] lv[m]).id != instance_id@,
                    ensures
                        j <= list@.len(),
                        lv == instance_views(list@),
                        forall|m: int| 0 <= m < j ==> (#[trigger] lv[m]).id != instance_id@,
                        j < list@.len() ==> lv[j as int].id == instance_id@,
                    decreases list.len() - j,
                {
                    if same_text(list[j].id.as_str(), instance_id) {
                        break;
                    }
                    j = j + 1;
                }
                proof {
                    lemma_instance_index(lv, instance_id@, j as int);
                }
                if j < list.len() {
                    let mut x = list.remove(j);
                    x.status = InstanceStatus::Healthy;
                    x.last_heartbeat = Some(now);
                    list.insert(j, x);
                    assert(instance_views(list@) =~= beat(lv, j as int, now));
                    found = true;
                }
                self.put_list(service_name, list);
                if found {
                    Ok(())
                } else {
                    let msg = String::from_str("service '").concat(service_name).concat("' instance '").concat(
                        instance_id,
                    ).concat("' not found");
                    Err(DiscoveryError::NotFound(msg))
                }
            },
        }
    }

    /// Record a heartbeat now.
    pub fn heartbeat(&mut self, service_name: &str, instance_id: &str) -> (r: Result<(), DiscoveryError>)
        ensures
            !old(self).has_service(service_name@) ==> not_found_with(r, service_name@),
            old(self).has_service(service_name@) && instance_index(old(self).instances_of(service_name@), instance_id@)
                < 0 ==> not_found_with(r, instance_not_found(service_name@, instance_id@)),
            old(self).has_service(service_name@) && instance_index(old(self).instances_of(service_name@), instance_id@)
                >= 0 ==> r is Ok && exists|now: u64| final(self).instances_of(service_name@) == beat(
                old(self).instances_of(service_name@),
                instance_index(old(self).instances_of(service_name@), instance_id@),
                now,
            ),
            forall|k: Seq<char>| final(self).has_service(k) == old(self).has_service(k),
            forall|k: Seq<char>| k != service_name@ ==> final(self).instances_of(k) == old(self).instances_of(k),
    {
        let now = crate::resilience::now_ms();
        self.heartbeat_at(service_name, instance_id, now)
    }

    /// Remove instance `instance_id` of `service_name`; a service left
    /// without instances is dropped. An unknown service, or an instance that
    /// was not there, is `NotFound`.
    pub fn deregister(&mut self, service_name: &str, instance_id: &str) -> (r: Result<(), DiscoveryError>)
        ensures
            !old(self).has_service(service_name@) ==> not_found_with(r, service_name@) && *final(self) == *old(self),
            old(self).has_service(service_name@) ==> {
                let after = without_id(old(self).instances_of(service_name@), instance_id@);
                &&& final(self).instances_of(service_name@) == after
                &&& final(self).has_service(service_name@) == (after.len() > 0)
                &&& (after.len() == old(self).instances_of(service_name@).len() ==> not_found_with(
                    r,
                    instance_not_found(service_name@, instance_id@),
                ))
                &&& (after.len() != old(self).instances_of(service_name@).len() ==> r is Ok)
            },
            forall|k: Seq<char>| k != service_name@ ==> final(self).has_service(k) == old(self).has_service(k),
            forall|k: Seq<char>| k != service_name@ ==> final(self).instances_of(k) == old(self).instances_of(k),
    {
        match find_slot(&self.services, service_name) {
            None => Err(DiscoveryError::NotFound(String::from_str(service_name))),
            Some(_) => {
                let list = self.take_list(service_name);
                let before = list.len();
                let list = remove_id(list, instance_id);
                let removed = list.len() != before;
                if list.len() == 0 {
                    self.remove_service(service_name);
                    assert(instance_views(list@) =~= Seq::<InstanceView>::empty());
                } else {
                    self.put_list(service_name, list);
                }
                if removed {
                    Ok(())
                } else {
                    let msg = String::from_str("service '").concat(service_name).concat("' instance '").concat(
                        instance_id,
                    ).concat("' not found");
                    Err(DiscoveryError::NotFound(msg))
                }
            },
        }
    }
}

proof fn lemma_instance_index(s: Seq<InstanceView>, id: Seq<char>, j: int)
    requires
        0 <= j <= s.len(),
        forall|m: int| 0 <= m < j ==> (#[trigger] s[m]).id != id,
        j < s.len() ==> s[j].id == id,
    ensures
        j < s.len() ==> instance_index(s, id) == j,
        j == s.len() ==> instance_index(s, id) < 0,
    decreases j,
{
    if s.len() > 0 {
        if j > 0 {
            lemma_instance_index(s.drop_first(), id, j - 1);
        }
    }
}

proof fn lemma_without_id_excludes(s: Seq<InstanceView>, id: Seq<char>)
    ensures
        forall|i: int| 0 <= i < without_id(s, id).len() ==> (#[trigger] without_id(s, id)[i]).id != id,
    decreases s.len(),
{
    if s.len() > 0 {
        lemma_without_id_excludes(s.drop_last(), id);
    }
}

/// A registered instance is discovered: after `register`, discovering its
/// service yields the other healthy instances followed by the new one, and
/// it is the only instance with its id.
pub proof fn law_registered_instance_is_discovered(before: Seq<InstanceView>, inst: InstanceView)
    ensures
        healthy(without_id(before, inst.id).push(normalized(inst))) == healthy(without_id(before, inst.id)).push(
            normalized(inst),
        ),
        forall|i: int|
            0 <= i < without_id(before, inst.id).len() ==> (#[trigger] without_id(before, inst.id).push(
                normalized(inst),
            )[i]).id != inst.id,
{
    let s = without_id(before, inst.id).push(normalized(inst));
    assert(s.drop_last() =~= without_id(before, inst.id));
    lemma_without_id_excludes(before, inst.id);
    assert forall|i: int| 0 <= i < without_id(before, inst.id).len() implies (#[trigger] s[i]).id != inst.id by {
        assert(s[i] == without_id(before, inst.id)[i]);
    }
}

/// Discovery answers exactly the healthy instances, in registration order:
/// the list filtered by "the status is healthy".
pub proof fn law_discovery_keeps_healthy_instances(s: Seq<InstanceView>)
    ensures
        healthy(s) == s.filter(|x: InstanceView| x.status == InstanceStatus::Healthy),
    decreases s.len(),
{
    reveal(Seq::filter);
    if s.len() > 0 {
        law_discovery_keeps_healthy_instances(s.drop_last());
    }
}

/// Removing an id removes exactly the instances with that id: what is left
/// is the list filtered by "the id differs", in order, so every instance
/// with another id (one that merely starts with it too) is kept.
pub proof fn law_remove_id_keeps_other_ids(s: Seq<InstanceView>, id: Seq<char>)
    ensures
        without_id(s, id) == s.filter(|x: InstanceView| x.id != id),
        forall|j: int| 0 <= j < s.len() && s[j].id != id ==> #[trigger] without_id(s, id).contains(s[j]),
    decreases s.len(),
{
    reveal(Seq::filter);
    if s.len() > 0 {
        law_remove_id_keeps_other_ids(s.drop_last(), id);
    }
    s.filter_lemma(|x: InstanceView| x.id != id);
}

/// Deregistering removes every instance with the id: none is left, so the
/// instance is no longer discovered.
pub proof fn law_deregistered_instance_is_gone(before: Seq<InstanceView>, id: Seq<char>)
    ensures
        forall|i: int| 0 <= i < without_id(before, id).len() ==> (#[trigger] without_id(before, id)[i]).id != id,
        forall|i: int| 0 <= i < healthy(without_id(before, id)).len() ==> (#[trigger] healthy(without_id(before, id))[i]).id != id,
{
    lemma_without_id_excludes(before, id);
    lemma_healthy_from(without_id(before, id));
}

proof fn lemma_healthy_from(s: Seq<InstanceView>)
    ensures
        forall|i: int| 0 <= i < healthy(s).len() ==> exists|j: int| 0 <= j < s.len() && #[trigger] healthy(s)[i] == s[j],
    decreases s.len(),
{
    if s.len() > 0 {
        lemma_healthy_from(s.drop_last());
        let rest = healthy(s.drop_last());
        assert forall|i: int| 0 <= i < healthy(s).len() implies exists|j: int| 0 <= j < s.len() && #[trigger] healthy(s)[i]
            == s[j] by {
            if i < rest.len() {
                let j = choose|j: int| 0 <= j < s.drop_last().len() && rest[i] == s.drop_last()[j];
                assert(s[j] == s.drop_last()[j]);
            } else {
                assert(healthy(s)[i] == s[s.len() - 1]);
            }
        }
    }
}

proof fn lemma_instance_index_bound(s: Seq<InstanceView>, id: Seq<char>)
    ensures
        instance_index(s, id) < s.len(),
        instance_index(s, id) >= 0 ==> s[instance_index(s, id)].id == id,
    decreases s.len(),
{
    if s.len() > 0 && s[0].id != id {
        lemma_instance_index_bound(s.drop_first(), id);
    }
}

/// A heartbeat marks the instance healthy and records its time, and leaves
/// every other instance as it was.
pub proof fn law_heartbeat_records_time(s: Seq<InstanceView>, id: Seq<char>, now: u64)
    requires
        instance_index(s, id) >= 0,
    ensures
        beat(s, instance_index(s, id), now)[instance_index(s, id)].last_heartbeat == Some(now),
        beat(s, instance_index(s, id), now)[instance_index(s, id)].status == InstanceStatus::Healthy,
        beat(s, instance_index(s, id), now)[instance_index(s, id)].id == id,
        forall|k: int| 0 <= k < s.len() && k != instance_index(s, id) ==> #[trigger] beat(s, instance_index(s, id), now)[k] == s[k],
{
    lemma_instance_index_bound(s, id);
}

/// `s` without the slots keyed `key`, in order.
pub open spec fn drop_key<V>(s: Seq<(String, V)>, key: Seq<char>) -> Seq<(String, V)>
    decreases s.len(),
{
    if s.len() == 0 {
        s
    } else {
        let rest = drop_key(s.drop_first(), key);
        if s[0].0@ == key { rest } else { seq![s[0]] + rest }
    }
}

pub(crate) proof fn lemma_drop_key_push<V>(a: Seq<(String, V)>, x: (String, V), key: Seq<char>)
    ensures
        drop_key(a.push(x), key) == (if x.0@ == key { drop_key(a, key) } else { drop_key(a, key).push(x) }),
    decreases a.len(),
{
    if a.len() == 0 {
        assert(a.push(x).drop_first() =~= Seq::<(String, V)>::empty());
        assert(drop_key(Seq::<(String, V)>::empty(), key) =~= Seq::<(String, V)>::empty());
        assert(seq![x] + Seq::<(String, V)>::empty() =~= Seq::<(String, V)>::empty().push(x));
    } else {
        assert(a.push(x).drop_first() =~= a.drop_first().push(x));
        lemma_drop_key_push(a.drop_first(), x, key);
        if a[0].0@ != key {
            assert(seq![a[0]] + drop_key(a.drop_first(), key).push(x) =~= (seq![a[0]] + drop_key(a.drop_first(), key)).push(x));
        }
    }
}

pub(crate) proof fn lemma_slot_of_drop_key<V>(s: Seq<(String, V)>, key: Seq<char>, k: Seq<char>)
    ensures
        k == key ==> slot_of(drop_key(s, key), k) < 0,
        k != key ==> (slot_of(drop_key(s, key), k) < 0 <==> slot_of(s, k) < 0),
        k != key && slot_of(s, k) >= 0 ==> drop_key(s, key)[slot_of(drop_key(s, key), k)] == s[slot_of(s, k)],
    decreases s.len(),
{
    if s.len() > 0 {
        lemma_slot_of_drop_key(s.drop_first(), key, k);
        let rest = drop_key(s.drop_first(), key);
        if s[0].0@ != key {
            let d = seq![s[0]] + rest;
            assert(d.drop_first() =~= rest);
            assert(d[0] == s[0]);
            lemma_slot_of_bound(rest, k);
            lemma_slot_of_bound(s.drop_first(), k);
            if slot_of(rest, k) >= 0 {
                assert(d[slot_of(rest, k) + 1] == rest[slot_of(rest, k)]);
            }
            if s[0].0@ != k && slot_of(s.drop_first(), k) >= 0 {
                assert(s[slot_of(s, k)] == s.drop_first()[slot_of(s.drop_first(), k)]);
            }
        } else {
            lemma_slot_of_bound(s.drop_first(), k);
            if k != key && slot_of(s.drop_first(), k) >= 0 {
                assert(slot_of(s, k) == slot_of(s.drop_first(), k) + 1);
                assert(s[slot_of(s, k)] == s.drop_first()[slot_of(s.drop_first(), k)]);
            }
        }
    }
}

} // verus!
