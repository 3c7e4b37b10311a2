//! A registry of services whose entries expire when not refreshed within a
//! time-to-live. Times are microseconds since the Unix epoch.
use vstd::prelude::*;
use crate::error::ProtocolError;
use crate::message::now_micros;
use crate::unique_keys;

verus! {

/// Health of a registered service.
#[derive(Clone, Copy, Debug, PartialEq, Eq, Structural)]
pub enum HealthStatus {
    Healthy,
    Degraded,
    Unhealthy,
    Unknown,
}

/// A registered service.
#[derive(Clone, Debug)]
pub struct ServiceInfo {
    pub id: String,
    pub name: String,
    pub version: String,
    pub capabilities: Vec<String>,
    /// Socket address, as `host:port`.
    pub address: String,
    /// Metadata by key; keys are unique.
    pub metadata: Vec<(String, String)>,
    /// When the service was last heard of, in microseconds since the epoch.
    pub last_seen: u64,
    pub health_status: HealthStatus,
}

impl ServiceInfo {
    /// Metadata keys are unique.
    pub open spec fn wf(&self) -> bool {
        unique_keys(self.metadata@)
    }
}

/// Every entry of `s` is well formed.
pub open spec fn all_wf(s: Seq<ServiceInfo>) -> bool {
    forall|i: int| 0 <= i < s.len() ==> #[trigger] s[i].wf()
}

/// No two entries share an id.
pub open spec fn unique_ids(s: Seq<ServiceInfo>) -> bool {
    forall|i: int, j: int|
        0 <= i < s.len() && 0 <= j < s.len() && i != j ==> #[trigger] s[i].id@ != #[trigger] s[j].id@
}

/// Some entry has id `id`.
pub open spec fn has_id(s: Seq<ServiceInfo>, id: Seq<char>) -> bool {
    exists|i: int| 0 <= i < s.len() && #[trigger] s[i].id@ == id
}

/// An entry last seen at `last_seen` is still fresh at `now`: it was not
/// seen in the future, and less than `ttl` has passed since.
pub open spec fn is_fresh(last_seen: u64, now: u64, ttl: u64) -> bool {
    last_seen <= now && now - last_seen < ttl
}

/// The entries of `s` that satisfy `keep`, in order.
pub open spec fn kept(s: Seq<ServiceInfo>, keep: spec_fn(ServiceInfo) -> bool) -> Seq<ServiceInfo>
    decreases s.len(),
{
    if s.len() == 0 {
        Seq::empty()
    } else {
        let r = kept(s.drop_last(), keep);
        if keep(s.last()) {
            r.push(s.last())
        } else {
            r
        }
    }
}

/// Keeps the entries whose id is not `id`.
pub open spec fn other_id(id: Seq<char>) -> spec_fn(ServiceInfo) -> bool {
    |s: ServiceInfo| s.id@ != id
}

/// Keeps the entries still fresh at `now` under `ttl`.
pub open spec fn fresh_at(now: u64, ttl: u64) -> spec_fn(ServiceInfo) -> bool {
    |s: ServiceInfo| is_fresh(s.last_seen, now, ttl)
}

/// Keeps the healthy entries.
pub open spec fn healthy() -> spec_fn(ServiceInfo) -> bool {
    |s: ServiceInfo| s.health_status == HealthStatus::Healthy
}

/// What `kept` holds comes from `s` and satisfies `keep`, and it keeps ids unique.
pub proof fn lemma_kept_props(s: Seq<ServiceInfo>, keep: spec_fn(ServiceInfo) -> bool)
    ensures
        forall|x: ServiceInfo| #[trigger] kept(s, keep).contains(x) ==> s.contains(x) && keep(x),
        unique_ids(s) ==> unique_ids(kept(s, keep)),
        all_wf(s) ==> all_wf(kept(s, keep)),
    decreases s.len(),
{
    if s.len() > 0 {
        let d = s.drop_last();
        lemma_kept_props(d, keep);
        let r = kept(d, keep);
        let k = kept(s, keep);
        if all_wf(s) {
            assert(all_wf(d)) by {
                assert forall|i: int| 0 <= i < d.len() implies #[trigger] d[i].wf() by {
                    assert(d[i] == s[i]);
                }
            }
            assert(s[s.len() - 1] == s.last());
        }
        assert forall|x: ServiceInfo| #[trigger] k.contains(x) implies s.contains(x) && keep(x) by {
            if keep(s.last()) && x == s.last() {
                assert(s[s.len() - 1] == x);
            } else {
                assert(r.contains(x));
                let n = choose|n: int| 0 <= n < d.len() && d[n] == x;
                assert(s[n] == x);
            }
        }
        if unique_ids(s) && keep(s.last()) {
            assert(unique_ids(d)) by {
                assert forall|a: int, b: int|
                    0 <= a < d.len() && 0 <= b < d.len() && a != b implies #[trigger] d[a].id@
                    != #[trigger] d[b].id@ by {
                    assert(d[a] == s[a] && d[b] == s[b]);
                }
            }
            assert forall|a: int, b: int|
                0 <= a < k.len() && 0 <= b < k.len() && a != b implies #[trigger] k[a].id@
                != #[trigger] k[b].id@ by {
                let last = s.len() - 1;
                if a == k.len() - 1 || b == k.len() - 1 {
                    let o = if a == k.len() - 1 { b } else { a };
                    assert(r.contains(r[o]));
                    let n = choose|n: int| 0 <= n < d.len() && d[n] == r[o];
                    assert(s[n] == k[o] && s[last] == s.last());
                } else {
                    assert(k[a] == r[a] && k[b] == r[b]);
                }
            }
        }
    }
}

/// `o` with its health and last-seen time set, when its id is `id`.
pub open spec fn refreshed(o: ServiceInfo, id: Seq<char>, status: HealthStatus, now: u64) -> ServiceInfo {
    if o.id@ == id {
        ServiceInfo { health_status: status, last_seen: now, ..o }
    } else {
        o
    }
}

/// The entries that a sequence of references points at.
pub open spec fn derefs(v: Seq<&ServiceInfo>) -> Seq<ServiceInfo> {
    v.map_values(|x: &ServiceInfo| *x)
}

/// What `filter` may answer for each entry.
pub open spec fn answers<F: Fn(&ServiceInfo) -> bool>(filter: F) -> spec_fn(ServiceInfo, bool) -> bool {
    |x: ServiceInfo, b: bool| filter.ensures((&x,), b)
}

/// `r` is `s` with, in order, exactly the entries for which the filter
/// answered `true`: each entry of `s` is either taken into `r`, the filter
/// having answered `true` for it, or left out, the filter having answered
/// `false`.
pub open spec fn filtered(
    s: Seq<ServiceInfo>,
    r: Seq<ServiceInfo>,
    answer: spec_fn(ServiceInfo, bool) -> bool,
) -> bool
    decreases s.len(),
{
    if s.len() == 0 {
        r.len() == 0
    } else {
        (r.len() > 0 && r.last() == s.last() && answer(s.last(), true) && filtered(
            s.drop_last(),
            r.drop_last(),
            answer,
        )) || (answer(s.last(), false) && filtered(s.drop_last(), r, answer))
    }
}

/// Registry of services, keyed by id.
pub struct ServiceRegistry {
    services: Vec<ServiceInfo>,
    ttl: u64,
}

impl ServiceRegistry {
    /// The registered services.
    pub closed spec fn entries(&self) -> Seq<ServiceInfo> {
        self.services@
    }

    /// Time-to-live of an entry, in microseconds.
    pub closed spec fn ttl_micros(&self) -> u64 {
        self.ttl
    }

    /// Ids are unique and every entry is well formed.
    pub open spec fn wf(&self) -> bool {
        unique_ids(self.entries()) && all_wf(self.entries())
    }

    /// An empty registry whose entries live `ttl_micros` microseconds.
    pub fn new(ttl_micros: u64) -> (r: ServiceRegistry)
        ensures
            r.wf(),
            r.entries() == Seq::<ServiceInfo>::empty(),
            r.ttl_micros() == ttl_micros,
    {
        ServiceRegistry { services: Vec::new(), ttl: ttl_micros }
    }

    /// Position of the entry with id `id`.
    fn position(&self, id: &str) -> (r: Option<usize>)
        ensures
            match r {
                Some(i) => i < self.entries().len() && self.entries()[i as int].id@ == id@,
                None => !has_id(self.entries(), id@),
            },
    {
        let key = id.to_owned();
        let mut i: usize = 0;
        while i < self.services.len()
            invariant
                i <= self.services@.len(),
                key@ == id@,
                forall|k: int| 0 <= k < i ==> #[trigger] self.services@[k].id@ != id@,
            decreases self.services@.len() - i,
        {
            if self.services[i].id == key {
                return Some(i);
            }
            i = i + 1;
        }
        None
    }

    /// Adds `info`, replacing the entry with the same id. The new entry
    /// comes last; the others keep their order.
    pub fn register(&mut self, info: ServiceInfo)
        ensures
            old(self).wf() && info.wf() ==> final(self).wf(),
            final(self).ttl_micros() == old(self).ttl_micros(),
            final(self).entries() == kept(old(self).entries(), other_id(info.id@)).push(
                info,
            ),
    {
        self.unregister(info.id.as_str());
        proof {
            lemma_kept_props(old(self).entries(), other_id(info.id@));
        }
        self.services.push(info);
        proof {
            let s = self.services@;
            let d = s.drop_last();
            assert(d == kept(old(self).entries(), other_id(info.id@)));
            if old(self).wf() {
                assert(unique_ids(d));
                assert(all_wf(d));
                if info.wf() {
                    assert forall|i: int| 0 <= i < s.len() implies #[trigger] s[i].wf() by {
                        if i < s.len() - 1 {
                            assert(s[i] == d[i]);
                        }
                    }
                }
            }
            assert forall|i: int, j: int|
                0 <= i < s.len() && 0 <= j < s.len() && i != j && unique_ids(d) implies
                #[trigger] s[i].id@ != #[trigger] s[j].id@ by {
                if i == s.len() - 1 || j == s.len() - 1 {
                    let o = if i == s.len() - 1 { j } else { i };
                    assert(d[o] == s[o]);
                    assert(d.contains(d[o]));
                } else {
                    assert(d[i] == s[i] && d[j] == s[j]);
                }
            }
        }
    }

    /// Removes the entry with id `id`, if there is one.
    pub fn unregister(&mut self, id: &str)
        ensures
            old(self).wf() ==> final(self).wf(),
            final(self).ttl_micros() == old(self).ttl_micros(),
            final(self).entries() == kept(old(self).entries(), other_id(id@)),
            !has_id(final(self).entries(), id@),
    {
        let wanted = id.to_owned();
        let ghost o = self.services@;
        let ghost keep = other_id(id@);
        let ghost mut i: int = 0;
        let mut j: usize = 0;
        while j < self.services.len()
            invariant
                0 <= i <= o.len(),
                wanted@ == id@,
                j == kept(o.take(i), keep).len(),
                self.services@ == kept(o.take(i), keep) + o.skip(i),
                self.ttl == old(self).ttl,
                keep == other_id(id@),
            decreases self.services@.len() - j,
        {
            proof {
                assert(o.take(i + 1).drop_last() =~= o.take(i));
                assert(o.take(i + 1).last() == o[i]);
                assert(self.services@[j as int] == o[i]);
                assert(o.skip(i) =~= seq![o[i]] + o.skip(i + 1));
            }
            if self.services[j].id == wanted {
                self.services.remove(j);
            } else {
                j = j + 1;
            }
            proof {
                i = i + 1;
                assert(self.services@ =~= kept(o.take(i), keep) + o.skip(i));
            }
        }
        proof {
            assert(o.take(i) =~= o);
            lemma_kept_props(o, keep);
            let k = self.services@;
            if has_id(k, id@) {
                let n = choose|n: int| 0 <= n < k.len() && #[trigger] k[n].id@ == id@;
                assert(k.contains(k[n]));
            }
        }
    }

    /// The entry with id `id`.
    pub fn get_service(&self, id: &str) -> (r: Option<&ServiceInfo>)
        ensures
            match r {
                Some(s) => s.id@ == id@ && self.entries().contains(*s),
                None => !has_id(self.entries(), id@),
            },
    {
        match self.position(id) {
            Some(i) => Some(&self.services[i]),
            None => None,
        }
    }

    /// Sets the health of the entry with id `id` and marks it seen at `now`.
    /// Fails with `InvalidFormat`, changing nothing, when there is no such entry.
    pub fn update_health_at(&mut self, id: &str, status: HealthStatus, now: u64) -> (r: Result<
        (),
        ProtocolError,
    >)
        ensures
            old(self).wf() ==> final(self).wf(),
            final(self).ttl_micros() == old(self).ttl_micros(),
            final(self).entries().len() == old(self).entries().len(),
            (r is Ok) <==> has_id(old(self).entries(), id@),
            r matches Err(e) ==> e is InvalidFormat,
            r is Err ==> final(self).entries() == old(self).entries(),
            forall|i: int|
                0 <= i < old(self).entries().len() ==> #[trigger] final(self).entries()[i]
                    == refreshed(old(self).entries()[i], id@, status, now),
    {
        let key = id.to_owned();
        let ghost o = self.services@;
        let mut found = false;
        let mut j: usize = 0;
        while j < self.services.len()
            invariant
                self.services@.len() == o.len(),
                j <= o.len(),
                key@ == id@,
                self.ttl == old(self).ttl,
                forall|k: int| 0 <= k < j ==> #[trigger] self.services@[k] == refreshed(o[k], id@, status, now),
                forall|k: int| j <= k < o.len() ==> #[trigger] self.services@[k] == o[k],
                found == exists|k: int| 0 <= k < j && #[trigger] o[k].id@ == id@,
            decreases o.len() - j,
        {
            if self.services[j].id == key {
                let ghost prev = self.services@;
                let mut s = self.services.remove(j);
                s.health_status = status;
                s.last_seen = now;
                self.services.insert(j, s);
                proof {
                    assert(self.services@ =~= prev.update(j as int, s));
                }
                found = true;
            }
            proof {
                assert(o[j as int].id@ == id@ ==> exists|k: int| 0 <= k < j + 1 && #[trigger] o[k].id@ == id@);
            }
            j = j + 1;
        }
        proof {
            let n = self.services@;
            assert forall|a: int, b: int|
                0 <= a < n.len() && 0 <= b < n.len() && a != b && unique_ids(o) implies
                #[trigger] n[a].id@ != #[trigger] n[b].id@ by {
                assert(n[a].id@ == o[a].id@ && n[b].id@ == o[b].id@);
            }
            assert forall|a: int| 0 <= a < n.len() && all_wf(o) implies #[trigger] n[a].wf() by {
                assert(n[a] == refreshed(o[a], id@, status, now));
                assert(n[a].metadata@ == o[a].metadata@);
                assert(o[a].wf());
            }
        }
        if found {
            Ok(())
        } else {
            proof {
                assert forall|k: int| 0 <= k < o.len() implies o[k].id@ != id@ by {
                    if o[k].id@ == id@ {
                        assert(exists|m: int| 0 <= m < j && #[trigger] o[m].id@ == id@);
                    }
                }
                assert(self.services@ =~= o);
            }
            Err(ProtocolError::InvalidFormat(String::from_str("Service not found")))
        }
    }

    /// The services for which `filter` holds, in registry order, each once.
    pub fn query<F: Fn(&ServiceInfo) -> bool>(&self, filter: F) -> (r: Vec<&ServiceInfo>)
        requires
            forall|s: &ServiceInfo| #[trigger] filter.requires((s,)),
        ensures
            filtered(self.entries(), derefs(r@), answers(filter)),
    {
        let mut r: Vec<&ServiceInfo> = Vec::new();
        let mut i: usize = 0;
        while i < self.services.len()
            invariant
                i <= self.services@.len(),
                forall|s: &ServiceInfo| #[trigger] filter.requires((s,)),
                filtered(self.services@.take(i as int), derefs(r@), answers(filter)),
            decreases self.services@.len() - i,
        {
            let s = &self.services[i];
            let ghost prev = r@;
            let keep = filter(s);
            if keep {
                r.push(s);
            }
            proof {
                let t = self.services@.take(i + 1);
                assert(t.drop_last() =~= self.services@.take(i as int));
                assert(t.last() == self.services@[i as int]);
                assert(answers(filter)(self.services@[i as int], keep));
                if keep {
                    assert(derefs(r@).drop_last() =~= derefs(prev));
                    assert(derefs(r@).last() == self.services@[i as int]);
                }
            }
            i = i + 1;
        }
        assert(self.services@.take(i as int) =~= self.services@);
        r
    }

    /// The healthy services, in registry order.
    pub fn get_healthy_services(&self) -> (r: Vec<&ServiceInfo>)
        ensures
            r@.map_values(|x: &ServiceInfo| *x) == kept(self.entries(), healthy()),
    {
        let mut r: Vec<&ServiceInfo> = Vec::new();
        let mut i: usize = 0;
        while i < self.services.len()
            invariant
                i <= self.services@.len(),
                r@.map_values(|x: &ServiceInfo| *x) == kept(self.services@.take(i as int), healthy()),
            decreases self.services@.len() - i,
        {
            proof {
                assert(self.services@.take(i + 1).drop_last() =~= self.services@.take(i as int));
                assert(self.services@.take(i + 1).last() == self.services@[i as int]);
            }
            if self.services[i].health_status == HealthStatus::Healthy {
                r.push(&self.services[i]);
            }
            assert(r@.map_values(|x: &ServiceInfo| *x) =~= kept(
                self.services@.take(i + 1),
                healthy(),
            ));
            i = i + 1;
        }
        assert(self.services@.take(i as int) =~= self.services@);
        r
    }

    /// `update_health_at` at the current time.
    pub fn update_health(&mut self, id: &str, status: HealthStatus) -> (r: Result<(), ProtocolError>)
        ensures
            old(self).wf() ==> final(self).wf(),
            final(self).ttl_micros() == old(self).ttl_micros(),
            final(self).entries().len() == old(self).entries().len(),
            (r is Ok) <==> has_id(old(self).entries(), id@),
            r matches Err(e) ==> e is InvalidFormat,
            forall|i: int|
                0 <= i < old(self).entries().len() ==> #[trigger] final(self).entries()[i]
                    == refreshed(old(self).entries()[i], id@, status, final(self).entries()[i].last_seen),
    {
        let now = now_micros();
        let r = self.update_health_at(id, status, now);
        assert forall|i: int| 0 <= i < old(self).entries().len() implies #[trigger] self.entries()[i]
            == refreshed(old(self).entries()[i], id@, status, self.entries()[i].last_seen) by {
            assert(self.entries()[i] == refreshed(old(self).entries()[i], id@, status, now));
        }
        r
    }

    /// `cleanup_expired_at` at the current time.
    pub fn cleanup_expired(&mut self)
        ensures
            old(self).wf() ==> final(self).wf(),
            final(self).ttl_micros() == old(self).ttl_micros(),
            exists|now: u64|
                final(self).entries() == kept(
                    old(self).entries(),
                    #[trigger] fresh_at(now, old(self).ttl_micros()),
                ),
    {
        let now = now_micros();
        self.cleanup_expired_at(now);
        assert(self.entries() == kept(old(self).entries(), fresh_at(now, old(self).ttl_micros())));
    }

    /// Removes the entries that are no longer fresh at `now`.
    pub fn cleanup_expired_at(&mut self, now: u64)
        ensures
            old(self).wf() ==> final(self).wf(),
            final(self).ttl_micros() == old(self).ttl_micros(),
            final(self).entries() == kept(old(self).entries(), fresh_at(now, old(self).ttl_micros())),
    {
        let ttl = self.ttl;
        let ghost o = self.services@;
        let ghost keep = fresh_at(now, ttl);
        let ghost mut i: int = 0;
        let mut j: usize = 0;
        while j < self.services.len()
            invariant
                0 <= i <= o.len(),
                j == kept(o.take(i), keep).len(),
                self.services@ == kept(o.take(i), keep) + o.skip(i),
                self.ttl == ttl,
                keep == fresh_at(now, ttl),
            decreases self.services@.len() - j,
        {
            proof {
                assert(o.take(i + 1).drop_last() =~= o.take(i));
                assert(o.take(i + 1).last() == o[i]);
                assert(self.services@[j as int] == o[i]);
                assert(o.skip(i) =~= seq![o[i]] + o.skip(i + 1));
            }
            let last_seen = self.services[j].last_seen;
            if last_seen <= now && now - last_seen < ttl {
                j = j + 1;
            } else {
                self.services.remove(j);
            }
            proof {
                i = i + 1;
                assert(self.services@ =~= kept(o.take(i), keep) + o.skip(i));
            }
        }
        proof {
            assert(o.take(i) =~= o);
            lemma_kept_props(o, keep);
        }
    }
}

} // verus!
