//! Metrics counters and gauges, and health reporting.
use crate::types::Timestamp;
use std::sync::atomic::AtomicU64;
use vstd::prelude::*;

verus! {

/// The names of a registry of atomic values.
pub open spec fn registry_names(s: Seq<(String, AtomicU64)>) -> Seq<Seq<char>> {
    s.map_values(|e: (String, AtomicU64)| e.0@)
}

/// Position of `name` in a registry, if it is registered.
fn find_metric(entries: &Vec<(String, AtomicU64)>, name: &str) -> (r: Option<usize>)
    ensures
        r matches Some(i) ==> i < entries@.len() && entries@[i as int].0@ == name@,
        r is Some <==> registry_names(entries@).contains(name@),
{
    let key = name.to_owned();
    let mut i: usize = 0;
    while i < entries.len()
        invariant
            key@ == name@,
            i <= entries@.len(),
            forall|k: int| 0 <= k < i ==> (#[trigger] entries@[k]).0@ != name@,
        decreases entries@.len() - i,
    {
        if entries[i].0 == key {
            proof {
                assert(registry_names(entries@)[i as int] == name@);
            }
            return Some(i);
        }
        i = i + 1;
    }
    proof {
        if registry_names(entries@).contains(name@) {
            let k = choose|k: int| 0 <= k < registry_names(entries@).len() && registry_names(entries@)[k] == name@;
            assert(entries@[k].0@ == name@);
        }
    }
    None
}

/// Counters and gauges by name, updated atomically through shared
/// references.  Names are fixed when the collector is made, and a collector
/// is made with none, so every read is zero and every update does nothing.
#[derive(Debug)]
pub struct MetricsCollector {
    counters: Vec<(String, AtomicU64)>,
    gauges: Vec<(String, AtomicU64)>,
}

impl MetricsCollector {
    /// No counter and no gauge is ever registered: there is no way to add
    /// one.
    #[verifier::type_invariant]
    spec fn nothing_registered(self) -> bool {
        self.counters@.len() == 0 && self.gauges@.len() == 0
    }

    /// Names of the counters.
    pub closed spec fn counter_names(&self) -> Seq<Seq<char>> {
        registry_names(self.counters@)
    }

    /// Names of the gauges.
    pub closed spec fn gauge_names(&self) -> Seq<Seq<char>> {
        registry_names(self.gauges@)
    }

    /// A collector without counters or gauges.
    pub fn new() -> (c: MetricsCollector)
        ensures
            c.counter_names().len() == 0,
            c.gauge_names().len() == 0,
    {
        MetricsCollector { counters: Vec::new(), gauges: Vec::new() }
    }

    /// Adds one to the counter `name`; does nothing when there is no such
    /// counter, which is always the case.
    pub fn increment_counter(&self, name: &str)
        ensures
            self.counter_names().len() == 0,
    {
        proof {
            use_type_invariant(self);
        }
        if let Some(i) = find_metric(&self.counters, name) {
            let _ = self.counters[i].1.fetch_add(1, std::sync::atomic::Ordering::Relaxed);
        }
    }

    /// Sets the gauge `name` to `value`; does nothing when there is no such
    /// gauge, which is always the case.
    pub fn set_gauge(&self, name: &str, value: u64)
        ensures
            self.gauge_names().len() == 0,
    {
        proof {
            use_type_invariant(self);
        }
        if let Some(i) = find_metric(&self.gauges, name) {
            self.gauges[i].1.store(value, std::sync::atomic::Ordering::Relaxed);
        }
    }

    /// The value of the counter `name`, zero when there is no such counter
    /// (always).
    pub fn get_counter(&self, name: &str) -> (v: u64)
        ensures
            self.counter_names().len() == 0,
            v == 0,
    {
        proof {
            use_type_invariant(self);
        }
        match find_metric(&self.counters, name) {
            Some(i) => self.counters[i].1.load(std::sync::atomic::Ordering::Relaxed),
            None => 0,
        }
    }

    /// The value of the gauge `name`, zero when there is no such gauge
    /// (always).
    pub fn get_gauge(&self, name: &str) -> (v: u64)
        ensures
            self.gauge_names().len() == 0,
            v == 0,
    {
        proof {
            use_type_invariant(self);
        }
        match find_metric(&self.gauges, name) {
            Some(i) => self.gauges[i].1.load(std::sync::atomic::Ordering::Relaxed),
            None => 0,
        }
    }
}

impl Default for MetricsCollector {
    fn default() -> (c: Self)
        ensures
            c.counter_names().len() == 0,
            c.gauge_names().len() == 0,
    {
        Self::new()
    }
}

/// Health of one component.
#[derive(Debug, Clone)]
pub struct ComponentHealth {
    /// `healthy` or `unhealthy`.
    pub status: String,
    /// When the component was checked.
    pub last_check: Timestamp,
    /// What is wrong, for an unhealthy component.
    pub details: Option<String>,
}

impl ComponentHealth {
    /// A healthy component, checked now.
    pub fn healthy() -> (c: ComponentHealth)
        ensures
            c.status@ == "healthy"@,
            c.details is None,
    {
        ComponentHealth { status: "healthy".to_owned(), last_check: Timestamp::now(), details: None }
    }

    /// An unhealthy component with the given details, checked now.
    pub fn unhealthy(details: String) -> (c: ComponentHealth)
        ensures
            c.status@ == "unhealthy"@,
            c.details == Some(details),
    {
        ComponentHealth { status: "unhealthy".to_owned(), last_check: Timestamp::now(), details: Some(details) }
    }
}

/// Health of the system and of its components.
#[derive(Debug, Clone)]
pub struct HealthStatus {
    /// Overall status.
    pub status: String,
    /// System version.
    pub version: String,
    /// Uptime in seconds.
    pub uptime_seconds: u64,
    /// Time of the check.
    pub timestamp: Timestamp,
    /// Health of each component, by name.
    pub components: Vec<(String, ComponentHealth)>,
}

impl HealthStatus {
    /// A healthy status with no components.
    pub fn new(version: &str, uptime_seconds: u64) -> (h: HealthStatus)
        ensures
            h.status@ == "healthy"@,
            h.version@ == version@,
            h.uptime_seconds == uptime_seconds,
            h.components@.len() == 0,
    {
        HealthStatus {
            status: "healthy".to_owned(),
            version: version.to_owned(),
            uptime_seconds,
            timestamp: Timestamp::now(),
            components: Vec::new(),
        }
    }

    /// Records the health of component `name`, replacing what was recorded
    /// under that name.
    pub fn add_component(&mut self, name: String, health: ComponentHealth)
        ensures
            final(self).status == old(self).status,
            final(self).version == old(self).version,
            final(self).uptime_seconds == old(self).uptime_seconds,
            (exists|i: int|
                0 <= i < old(self).components@.len() && old(self).components@[i].0@ == name@ && (forall|j: int|
                    0 <= j < i ==> (#[trigger] old(self).components@[j]).0@ != name@) && final(self).components@
                    == old(self).components@.update(i, (name, health))) || ((forall|j: int|
                0 <= j < old(self).components@.len() ==> (#[trigger] old(self).components@[j]).0@ != name@)
                && final(self).components@ == old(self).components@.push((name, health))),
    {
        let mut i: usize = 0;
        while i < self.components.len()
            invariant
                i <= self.components@.len(),
                self.components@ == old(self).components@,
                self.status == old(self).status,
                self.version == old(self).version,
                self.uptime_seconds == old(self).uptime_seconds,
                forall|j: int| 0 <= j < i ==> (#[trigger] self.components@[j]).0@ != name@,
            decreases self.components@.len() - i,
        {
            if self.components[i].0 == name {
                self.components.set(i, (name, health));
                return;
            }
            i = i + 1;
        }
        self.components.push((name, health));
    }

    /// Healthy when the overall status and every component's status are
    /// `healthy`.
    pub fn is_healthy(&self) -> (b: bool)
        ensures
            b == (self.status@ == "healthy"@ && forall|i: int|
                0 <= i < self.components@.len() ==> (#[trigger] self.components@[i]).1.status@ == "healthy"@),
    {
        let healthy = "healthy".to_owned();
        if !(self.status == healthy) {
            return false;
        }
        let mut i: usize = 0;
        while i < self.components.len()
            invariant
                healthy@ == "healthy"@,
                i <= self.components@.len(),
                forall|j: int| 0 <= j < i ==> (#[trigger] self.components@[j]).1.status@ == "healthy"@,
            decreases self.components@.len() - i,
        {
            if !(self.components[i].1.status == healthy) {
                return false;
            }
            i = i + 1;
        }
        true
    }
}

} // verus!
