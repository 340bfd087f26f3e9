//! The process-wide record of who is online: a concurrent map from identity
//! to the numeric handle of that connection's outbound queue. Registration is
//! last-writer-wins; deregistration is guarded, so an old connection's cleanup
//! never evicts a newer connection's entry (see `lemma_registry_exclusive`).

use vstd::prelude::*;
use dashmap::DashMap;

verus! {

#[verifier::external_type_specification]
#[verifier::external_body]
#[verifier::reject_recursive_types(K)]
#[verifier::reject_recursive_types(V)]
#[verifier::reject_recursive_types(S)]
pub struct ExDashMap<K, V, S>(DashMap<K, V, S>);

/// What the map holds, as a mathematical map from identity to handle.
pub uninterp spec fn dash_contents(m: DashMap<String, u64>) -> Map<Seq<char>, u64>;

/// Relies on dashmap::DashMap::new: a fresh map holds nothing.
#[verifier::external_body]
fn dash_new() -> (r: DashMap<String, u64>)
    ensures
        (dash_contents(r) == Map::<Seq<char>, u64>::empty()),
{
    DashMap::new()
}

/// Relies on dashmap::DashMap::insert: maps the key to the value and returns
/// what the key held before, if anything.
#[verifier::external_body]
fn dash_insert(m: &mut DashMap<String, u64>, k: String, v: u64) -> (prior: Option<u64>)
    ensures
        dash_contents(*final(m)) == dash_contents(*old(m)).insert(k@, v),
        prior == if dash_contents(*old(m)).contains_key(k@) {
            Some(dash_contents(*old(m))[k@])
        } else {
            None::<u64>
        },
{
    m.insert(k, v)
}

/// Relies on dashmap::DashMap::get: the value stored under the key, if any.
#[verifier::external_body]
fn dash_get(m: &DashMap<String, u64>, k: &String) -> (r: Option<u64>)
    ensures
        r == if dash_contents(*m).contains_key(k@) {
            Some(dash_contents(*m)[k@])
        } else {
            None::<u64>
        },
{
    match m.get(k) {
        Some(entry) => Some(*entry),
        None => None,
    }
}

/// Relies on dashmap::DashMap::remove: afterwards the key holds nothing.
#[verifier::external_body]
fn dash_remove(m: &mut DashMap<String, u64>, k: &String)
    ensures
        dash_contents(*final(m)) == dash_contents(*old(m)).remove(k@),
{
    m.remove(k);
}

/// What a guarded deregistration leaves behind: the entry goes only if it
/// still holds the departing connection's own handle.
pub open spec fn dereg(m: Map<Seq<char>, u64>, id: Seq<char>, h: u64) -> Map<Seq<char>, u64> {
    if m.contains_key(id) && m[id] == h {
        m.remove(id)
    } else {
        m
    }
}

/// The registry of live connections, keyed by identity.
pub struct Registry {
    map: DashMap<String, u64>,
}

impl View for Registry {
    type V = Map<Seq<char>, u64>;

    closed spec fn view(&self) -> Map<Seq<char>, u64> {
        dash_contents(self.map)
    }
}

impl Registry {
    /// An empty registry: nobody is online.
    pub fn new() -> (r: Registry)
        ensures
            r@ == Map::<Seq<char>, u64>::empty(),
    {
        Registry { map: dash_new() }
    }

    /// Binds the identity to this connection's handle, unconditionally
    /// overwriting any prior entry: the last writer wins.
    pub fn register(&mut self, identity: String, handle: u64)
        ensures
            final(self)@ == old(self)@.insert(identity@, handle),
    {
        let _ = dash_insert(&mut self.map, identity, handle);
    }

    /// The handle delivering to this identity, if it is online.
    pub fn lookup(&self, identity: &String) -> (r: Option<u64>)
        ensures
            r == if self@.contains_key(identity@) {
                Some(self@[identity@])
            } else {
                None::<u64>
            },
    {
        dash_get(&self.map, identity)
    }

    /// Removes the identity's entry only if it still holds the caller's own
    /// handle, so a stale connection's cleanup cannot evict the entry a newer
    /// connection for the same identity has since written.
    pub fn deregister(&mut self, identity: &String, handle: u64)
        ensures
            final(self)@ == dereg(old(self)@, identity@, handle),
    {
        match dash_get(&self.map, identity) {
            Some(h) => {
                if h == handle {
                    dash_remove(&mut self.map, identity);
                }
            },
            None => {},
        }
    }
}

/// Law: after registering `h1` and then `h2` under one identity, the identity
/// delivers to `h2`; the first connection's guarded deregistration is then a
/// no-op that leaves `h2` in place.
pub proof fn lemma_registry_exclusive(m: Map<Seq<char>, u64>, id: Seq<char>, h1: u64, h2: u64)
    ensures
        m.insert(id, h1).insert(id, h2).contains_key(id),
        m.insert(id, h1).insert(id, h2)[id] == h2,
        h1 != h2 ==> dereg(m.insert(id, h1).insert(id, h2), id, h1) == m.insert(id, h1).insert(
            id,
            h2,
        ),
{
}

/// Law: after a guarded deregistration the registry never still maps the
/// identity to the departing handle, whether or not it had been superseded.
pub proof fn lemma_dereg_self_absent(m: Map<Seq<char>, u64>, id: Seq<char>, h: u64)
    ensures
        !(dereg(m, id, h).contains_key(id) && dereg(m, id, h)[id] == h),
{
}

} // verus!
