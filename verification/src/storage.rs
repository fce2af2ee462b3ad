//! The concurrent key-value store: a mapping from key to byte-value backed by
//! a sharded concurrent map, modelled as a `Map` from key characters to value
//! bytes.
//!
//! The backing map mutates through shared references for concurrent callers;
//! here every mutation goes through `&mut self`, which is what lets the
//! contracts relate the map before and after a call.

use vstd::prelude::*;
use crate::operations::DbResult;

verus! {

#[verifier::external_type_specification]
#[verifier::external_body]
#[verifier::reject_recursive_types(K)]
#[verifier::reject_recursive_types(V)]
#[verifier::reject_recursive_types(S)]
pub struct ExDashMap<K, V, S>(dashmap::DashMap<K, V, S>);

/// The entries a concurrent map holds, as a map from key characters to value
/// bytes.
pub uninterp spec fn dash_contents(m: dashmap::DashMap<String, Vec<u8>>) -> Map<
    Seq<char>,
    Seq<u8>,
>;

/// The empty store contents.
pub open spec fn empty_contents() -> Map<Seq<char>, Seq<u8>> {
    Map::empty()
}

/// Relies on `DashMap::new`: a fresh map holds no entries.
#[verifier::external_body]
fn dash_new() -> (r: dashmap::DashMap<String, Vec<u8>>)
    ensures
        dash_contents(r) == empty_contents(),
{
    dashmap::DashMap::new()
}

/// Relies on `DashMap::get`: it returns the value stored under the key, or
/// nothing when the key is absent.
#[verifier::external_body]
fn dash_get(m: &dashmap::DashMap<String, Vec<u8>>, key: &str) -> (r: Option<Vec<u8>>)
    ensures
        r is Some <==> dash_contents(*m).contains_key(key@),
        r matches Some(v) ==> v@ == dash_contents(*m)[key@],
{
    match m.get(key) {
        Some(entry) => Some(entry.value().clone()),
        None => None,
    }
}

/// Relies on `DashMap::insert`: it stores the value under the key,
/// overwriting and returning any previous value.
#[verifier::external_body]
fn dash_insert(m: &mut dashmap::DashMap<String, Vec<u8>>, key: String, value: Vec<u8>) -> (r:
    Option<Vec<u8>>)
    ensures
        dash_contents(*final(m)) == dash_contents(*old(m)).insert(key@, value@),
        r is Some <==> dash_contents(*old(m)).contains_key(key@),
        r matches Some(v) ==> v@ == dash_contents(*old(m))[key@],
{
    m.insert(key, value)
}

/// Relies on `DashMap::remove`: it removes the entry under the key and
/// returns its value when one existed.
#[verifier::external_body]
fn dash_remove(m: &mut dashmap::DashMap<String, Vec<u8>>, key: &str) -> (r: Option<Vec<u8>>)
    ensures
        dash_contents(*final(m)) == dash_contents(*old(m)).remove(key@),
        r is Some <==> dash_contents(*old(m)).contains_key(key@),
        r matches Some(v) ==> v@ == dash_contents(*old(m))[key@],
{
    m.remove(key).map(|kv| kv.1)
}

/// Relies on `DashMap::contains_key`.
#[verifier::external_body]
fn dash_contains(m: &dashmap::DashMap<String, Vec<u8>>, key: &str) -> (r: bool)
    ensures
        r == dash_contents(*m).contains_key(key@),
{
    m.contains_key(key)
}

/// Relies on `DashMap::clear`: it removes every entry.
#[verifier::external_body]
fn dash_clear(m: &mut dashmap::DashMap<String, Vec<u8>>)
    ensures
        dash_contents(*final(m)) == empty_contents(),
{
    m.clear()
}

/// Relies on `DashMap::iter`: it visits each entry exactly once, in no
/// promised order.
#[verifier::external_body]
fn dash_keys(m: &dashmap::DashMap<String, Vec<u8>>) -> (r: Vec<String>)
    ensures
        key_list_matches(dash_contents(*m), r@),
{
    m.iter().map(|entry| entry.key().clone()).collect()
}

/// `ks` lists exactly the keys of `m`: every listed key is in the map, every
/// key of the map is listed, and no key is listed twice. No order is
/// promised.
pub open spec fn key_list_matches(m: Map<Seq<char>, Seq<u8>>, ks: Seq<String>) -> bool {
    &&& forall|i: int| 0 <= i < ks.len() ==> m.dom().contains(#[trigger] ks[i]@)
    &&& forall|k: Seq<char>|
        m.dom().contains(k) ==> exists|i: int| 0 <= i < ks.len() && (#[trigger] ks[i]@) == k
    &&& forall|i: int, j: int| 0 <= i < j < ks.len() ==> ks[i]@ != ks[j]@
}

/// The in-memory store: the full set of key-value pairs, with no ordering
/// over keys and no cardinality limit beyond memory.
pub struct NanoDb {
    data: dashmap::DashMap<String, Vec<u8>>,
}

impl View for NanoDb {
    type V = Map<Seq<char>, Seq<u8>>;

    closed spec fn view(&self) -> Map<Seq<char>, Seq<u8>> {
        dash_contents(self.data)
    }
}

impl NanoDb {
    /// An empty store.
    pub fn new() -> (r: NanoDb)
        ensures
            r@ == Map::<Seq<char>, Seq<u8>>::empty(),
    {
        NanoDb { data: dash_new() }
    }

    /// Look a key up: a copy of its value, or `NotFound` when absent.
    pub fn get(&self, key: &str) -> (r: DbResult<Vec<u8>>)
        ensures
            self@.contains_key(key@) ==> (r matches DbResult::Success(v) && v@ == self@[key@]),
            !self@.contains_key(key@) ==> r is NotFound,
    {
        match dash_get(&self.data, key) {
            Some(value) => DbResult::Success(value),
            None => DbResult::NotFound,
        }
    }

    /// Store a value under a key, overwriting any existing value. Always
    /// succeeds.
    pub fn set(&mut self, key: String, value: Vec<u8>) -> (r: DbResult<()>)
        ensures
            final(self)@ == old(self)@.insert(key@, value@),
            r is Success,
    {
        dash_insert(&mut self.data, key, value);
        DbResult::Success(())
    }

    /// Remove a key. Succeeds whether or not the key existed.
    pub fn delete(&mut self, key: &str) -> (r: DbResult<()>)
        ensures
            final(self)@ == old(self)@.remove(key@),
            r is Success,
    {
        dash_remove(&mut self.data, key);
        DbResult::Success(())
    }

    /// Empty the whole map.
    pub fn clear(&mut self) -> (r: DbResult<()>)
        ensures
            final(self)@ == Map::<Seq<char>, Seq<u8>>::empty(),
            r is Success,
    {
        dash_clear(&mut self.data);
        DbResult::Success(())
    }

    /// Whether a key is present.
    pub fn has_key(&self, key: &str) -> (r: DbResult<bool>)
        ensures
            r matches DbResult::Success(b) && b == self@.contains_key(key@),
    {
        DbResult::Success(dash_contains(&self.data, key))
    }

    /// A snapshot of the key set, in no promised order.
    pub fn keys(&self) -> (r: DbResult<Vec<String>>)
        ensures
            r matches DbResult::Success(ks) && key_list_matches(self@, ks@),
    {
        DbResult::Success(dash_keys(&self.data))
    }
}

/// After storing a value under a key, looking that key up finds exactly that
/// value.
pub proof fn lemma_get_after_set(m: Map<Seq<char>, Seq<u8>>, k: Seq<char>, v: Seq<u8>)
    ensures
        m.insert(k, v).contains_key(k),
        m.insert(k, v)[k] == v,
{
}

/// After deleting a key, looking it up finds nothing.
pub proof fn lemma_get_after_delete(m: Map<Seq<char>, Seq<u8>>, k: Seq<char>)
    ensures
        !m.remove(k).contains_key(k),
{
}

/// A key never stored is not found in an empty store.
pub proof fn lemma_get_never_set(k: Seq<char>)
    ensures
        !Map::<Seq<char>, Seq<u8>>::empty().contains_key(k),
{
}

/// Writes to distinct keys are independent: each is observable afterwards
/// with its own value, in either order of application.
pub proof fn lemma_disjoint_sets_independent(
    m: Map<Seq<char>, Seq<u8>>,
    k1: Seq<char>,
    v1: Seq<u8>,
    k2: Seq<char>,
    v2: Seq<u8>,
)
    requires
        k1 != k2,
    ensures
        m.insert(k1, v1).insert(k2, v2)[k1] == v1,
        m.insert(k1, v1).insert(k2, v2)[k2] == v2,
        m.insert(k1, v1).insert(k2, v2) == m.insert(k2, v2).insert(k1, v1),
{
    assert(m.insert(k1, v1).insert(k2, v2) =~= m.insert(k2, v2).insert(k1, v1));
}

/// Clearing empties the key set: any key list of the empty store is itself
/// empty, regardless of how many keys existed before.
pub proof fn lemma_keys_after_clear(ks: Seq<String>)
    requires
        key_list_matches(Map::<Seq<char>, Seq<u8>>::empty(), ks),
    ensures
        ks.len() == 0,
{
    if ks.len() > 0 {
        assert(Map::<Seq<char>, Seq<u8>>::empty().dom().contains(ks[0]@));
    }
}

} // verus!
