//! A key/value store of byte strings with a bounded log of versions, each
//! stamped with a SHA-256 checksum of the value it produced.
use vstd::prelude::*;
use crate::error::ProtocolError;
use crate::message::now_micros;
use crate::wire::copy_range;
use sha2::Digest;

verus! {

/// A version of the store: its number, when it was made (seconds since the
/// epoch) and the checksum of the value it produced.
#[derive(Clone, Copy, Debug, PartialEq, Eq)]
pub struct StateVersion {
    pub version: u64,
    pub timestamp: u64,
    pub checksum: [u8; 32],
}

/// The SHA-256 digest of `data`.
pub uninterp spec fn sha256_of(data: Seq<u8>) -> Seq<u8>;

/// Relies on `sha2::Sha256::digest`: the SHA-256 digest of `data`.
#[verifier::external_body]
fn sha256(data: &[u8]) -> (r: [u8; 32])
    ensures
        r@ == sha256_of(data@),
{
    sha2::Sha256::digest(data).into()
}

/// The value stored under `key` in `s`; a later entry hides an earlier one.
pub open spec fn lookup(s: Seq<(String, Vec<u8>)>, key: Seq<char>) -> Option<Seq<u8>>
    decreases s.len(),
{
    if s.len() == 0 {
        None
    } else if s.last().0@ == key {
        Some(s.last().1@)
    } else {
        lookup(s.drop_last(), key)
    }
}

/// Index of the last entry of `s` under `key`, if any.
pub open spec fn last_index(s: Seq<(String, Vec<u8>)>, key: Seq<char>) -> int
    decreases s.len(),
{
    if s.len() == 0 {
        -1
    } else if s.last().0@ == key {
        s.len() - 1
    } else {
        last_index(s.drop_last(), key)
    }
}

/// Replacing the last entry under `key` changes what `key` maps to and nothing else.
proof fn lemma_lookup_update(s: Seq<(String, Vec<u8>)>, key: Seq<char>, e: (String, Vec<u8>))
    requires
        0 <= last_index(s, key) < s.len(),
        e.0@ == key,
    ensures
        lookup(s.update(last_index(s, key), e), key) == Some(e.1@),
        forall|k: Seq<char>|
            k != key ==> #[trigger] lookup(s.update(last_index(s, key), e), k) == lookup(s, k),
    decreases s.len(),
{
    let i = last_index(s, key);
    let t = s.update(i, e);
    if s.last().0@ == key {
        assert(t.drop_last() =~= s.drop_last());
        assert(t.last() == e);
    } else {
        lemma_last_index(s.drop_last(), key);
        lemma_lookup_update(s.drop_last(), key, e);
        assert(t.drop_last() =~= s.drop_last().update(i, e));
        assert(t.last() == s.last());
    }
    assert forall|k: Seq<char>| k != key implies #[trigger] lookup(t, k) == lookup(s, k) by {
        if s.last().0@ == key {
            assert(t.drop_last() =~= s.drop_last());
        } else {
            assert(t.drop_last() =~= s.drop_last().update(i, e));
            assert(t.last() == s.last());
            assert(last_index(s.drop_last(), key) == i);
            assert(lookup(s.drop_last().update(i, e), k) == lookup(s.drop_last(), k));
        }
    }
}

/// `lookup` finds a value exactly where `last_index` finds an entry.
proof fn lemma_last_index(s: Seq<(String, Vec<u8>)>, key: Seq<char>)
    ensures
        -1 <= last_index(s, key) < s.len(),
        last_index(s, key) == -1 <==> lookup(s, key) is None,
        last_index(s, key) >= 0 ==> s[last_index(s, key)].0@ == key && lookup(s, key) == Some(
            s[last_index(s, key)].1@,
        ),
    decreases s.len(),
{
    if s.len() > 0 && s.last().0@ != key {
        lemma_last_index(s.drop_last(), key);
    }
}

/// The log after adding `v` to `h` under a cap of `max` entries.
pub open spec fn log_after(h: Seq<StateVersion>, v: StateVersion, max: usize) -> Seq<StateVersion> {
    if h.len() + 1 > max {
        h.push(v).skip(1)
    } else {
        h.push(v)
    }
}

/// Values by key and the recent versions.
pub struct StateManager {
    state: Vec<(String, Vec<u8>)>,
    versions: Vec<StateVersion>,
    max_versions: usize,
    applied: u64,
}

impl StateManager {
    /// What each key maps to.
    pub closed spec fn value(&self, key: Seq<char>) -> Option<Seq<u8>> {
        lookup(self.state@, key)
    }

    /// The kept versions, oldest first.
    pub closed spec fn history(&self) -> Seq<StateVersion> {
        self.versions@
    }

    /// The cap on kept versions.
    pub closed spec fn cap(&self) -> usize {
        self.max_versions
    }

    /// Number of deltas applied so far.
    pub closed spec fn applied_count(&self) -> u64 {
        self.applied
    }

    /// An empty store that keeps at most `max_versions` versions.
    pub fn new(max_versions: usize) -> (r: StateManager)
        ensures
            forall|k: Seq<char>| #[trigger] r.value(k) is None,
            r.history() == Seq::<StateVersion>::empty(),
            r.cap() == max_versions,
            r.applied_count() == 0,
    {
        StateManager { state: Vec::new(), versions: Vec::new(), max_versions, applied: 0 }
    }

    /// Position of the last entry under `key`.
    fn find(&self, key: &str) -> (r: Option<usize>)
        ensures
            match r {
                Some(i) => i == last_index(self.state@, key@),
                None => last_index(self.state@, key@) == -1,
            },
    {
        let wanted = key.to_owned();
        let mut i: usize = self.state.len();
        assert(self.state@.take(i as int) =~= self.state@);
        while i > 0
            invariant
                i <= self.state@.len(),
                wanted@ == key@,
                last_index(self.state@, key@) == last_index(self.state@.take(i as int), key@),
            decreases i,
        {
            proof {
                assert(self.state@.take(i as int).drop_last() =~= self.state@.take(i - 1));
            }
            if self.state[i - 1].0 == wanted {
                return Some(i - 1);
            }
            i = i - 1;
        }
        None
    }

    /// Appends `delta` to the value under `key` (or stores it, for a new
    /// key) and logs a version numbered one past the number of deltas
    /// applied before, stamped `now` and with the checksum of the new value.
    /// The oldest version is dropped once more than the cap are kept.
    /// Fails with `InvalidFormat`, changing nothing, when the version
    /// numbers are used up.
    pub fn apply_delta_at(&mut self, key: String, delta: Vec<u8>, now: u64) -> (r: Result<
        StateVersion,
        ProtocolError,
    >)
        ensures
            (r is Ok) <==> old(self).applied_count() < u64::MAX,
            r matches Err(e) ==> e is InvalidFormat,
            r is Err ==> final(self).history() == old(self).history() && final(self).applied_count()
                == old(self).applied_count() && forall|k: Seq<char>| #[trigger] final(self).value(k)
                == old(self).value(k),
            final(self).cap() == old(self).cap(),
            r matches Ok(v) ==> {
                let new_value = match old(self).value(key@) {
                    Some(cur) => cur + delta@,
                    None => delta@,
                };
                &&& final(self).value(key@) == Some(new_value)
                &&& forall|k: Seq<char>|
                    k != key@ ==> #[trigger] final(self).value(k) == old(self).value(k)
                &&& v.version == old(self).applied_count() + 1
                &&& v.timestamp == now
                &&& v.checksum@ == sha256_of(new_value)
                &&& final(self).applied_count() == v.version
                &&& final(self).history() == log_after(old(self).history(), v, old(self).cap())
            },
    {
        if self.applied == u64::MAX {
            return Err(ProtocolError::InvalidFormat(String::from_str("Version numbers exhausted")));
        }
        proof {
            lemma_last_index(self.state@, key@);
        }
        let checksum;
        match self.find(key.as_str()) {
            Some(i) => {
                let (k, mut value) = self.state.remove(i);
                let mut d = delta;
                value.append(&mut d);
                checksum = sha256(value.as_slice());
                self.state.insert(i, (k, value));
                proof {
                    let o = old(self).state@;
                    assert(self.state@ =~= o.update(i as int, self.state@[i as int]));
                    lemma_lookup_update(o, key@, self.state@[i as int]);
                }
            },
            None => {
                checksum = sha256(delta.as_slice());
                self.state.push((key, delta));
                proof {
                    assert(self.state@.drop_last() =~= old(self).state@);
                }
            },
        }
        self.applied = self.applied + 1;
        let v = StateVersion { version: self.applied, timestamp: now, checksum };
        self.versions.push(v);
        if self.versions.len() > self.max_versions {
            self.versions.remove(0);
        }
        proof {
            assert(self.versions@ =~= log_after(old(self).history(), v, self.max_versions));
        }
        Ok(v)
    }

    /// `apply_delta_at` stamped with the current time.
    pub fn apply_delta(&mut self, key: String, delta: Vec<u8>) -> (r: Result<
        StateVersion,
        ProtocolError,
    >)
        ensures
            (r is Ok) <==> old(self).applied_count() < u64::MAX,
            r matches Err(e) ==> e is InvalidFormat,
            r is Err ==> final(self).history() == old(self).history() && final(self).applied_count()
                == old(self).applied_count() && forall|k: Seq<char>| #[trigger] final(self).value(k)
                == old(self).value(k),
            final(self).cap() == old(self).cap(),
            r matches Ok(v) ==> {
                let new_value = match old(self).value(key@) {
                    Some(cur) => cur + delta@,
                    None => delta@,
                };
                &&& final(self).value(key@) == Some(new_value)
                &&& forall|k: Seq<char>|
                    k != key@ ==> #[trigger] final(self).value(k) == old(self).value(k)
                &&& v.version == old(self).applied_count() + 1
                &&& v.checksum@ == sha256_of(new_value)
                &&& final(self).applied_count() == v.version
                &&& final(self).history() == log_after(old(self).history(), v, old(self).cap())
            },
    {
        let now = now_micros() / 1000000;
        self.apply_delta_at(key, delta, now)
    }

    /// The value under `key`.
    pub fn get_state(&self, key: &str) -> (r: Option<Vec<u8>>)
        ensures
            match r {
                Some(v) => self.value(key@) == Some(v@),
                None => self.value(key@) is None,
            },
    {
        proof {
            lemma_last_index(self.state@, key@);
        }
        match self.find(key) {
            Some(i) => {
                let v = &self.state[i].1;
                let r = copy_range(v.as_slice(), 0, v.len());
                assert(r@ =~= v@);
                Some(r)
            },
            None => None,
        }
    }

    /// A kept version has `version`'s number and checksum.
    pub fn validate_version(&self, version: &StateVersion) -> (r: bool)
        ensures
            r == exists|i: int|
                0 <= i < self.history().len() && #[trigger] self.history()[i].version
                    == version.version && self.history()[i].checksum@ == version.checksum@,
    {
        let mut i: usize = 0;
        while i < self.versions.len()
            invariant
                i <= self.versions@.len(),
                forall|j: int|
                    0 <= j < i ==> !(#[trigger] self.versions@[j].version == version.version
                        && self.versions@[j].checksum@ == version.checksum@),
            decreases self.versions@.len() - i,
        {
            if self.versions[i].version == version.version && same_digest(
                &self.versions[i].checksum,
                &version.checksum,
            ) {
                assert(self.history()[i as int].version == version.version);
                return true;
            }
            i = i + 1;
        }
        false
    }

    /// The kept versions, oldest first.
    pub fn get_version_history(&self) -> (r: Vec<StateVersion>)
        ensures
            r@ == self.history(),
    {
        let mut r: Vec<StateVersion> = Vec::new();
        let mut i: usize = 0;
        while i < self.versions.len()
            invariant
                i <= self.versions@.len(),
                r@ == self.versions@.take(i as int),
            decreases self.versions@.len() - i,
        {
            r.push(self.versions[i]);
            i = i + 1;
            assert(r@ =~= self.versions@.take(i as int));
        }
        assert(self.versions@.take(i as int) =~= self.versions@);
        r
    }

    /// Drops every value and every version.
    pub fn clear_state(&mut self)
        ensures
            forall|k: Seq<char>| #[trigger] final(self).value(k) is None,
            final(self).history() == Seq::<StateVersion>::empty(),
            final(self).cap() == old(self).cap(),
            final(self).applied_count() == old(self).applied_count(),
    {
        self.state.clear();
        self.versions.clear();
    }
}

/// The two digests are equal.
fn same_digest(a: &[u8; 32], b: &[u8; 32]) -> (r: bool)
    ensures
        r == (a@ == b@),
{
    let mut i: usize = 0;
    while i < 32
        invariant
            i <= 32,
            a@.len() == 32 && b@.len() == 32,
            forall|j: int| 0 <= j < i ==> a@[j] == b@[j],
        decreases 32 - i,
    {
        if a[i] != b[i] {
            return false;
        }
        i = i + 1;
    }
    assert(a@ =~= b@);
    true
}

} // verus!
