//! The responses that have arrived and wait for the request that asked for
//! them, by correlation id.

use multimap::MultiMap;
use vstd::prelude::*;

verus! {

/// `multimap::MultiMap`, a map from keys to vectors of values. The proofs
/// know what one holds through `held` alone.
#[verifier::external_type_specification]
#[verifier::external_body]
#[verifier::reject_recursive_types(K)]
#[verifier::reject_recursive_types(V)]
#[verifier::reject_recursive_types(S)]
pub struct ExMultiMap<K, V, S>(MultiMap<K, V, S>);

/// What the map holds: under each key the values that were inserted for it,
/// in the order of their insertion.
pub uninterp spec fn held(table: MultiMap<u64, String>) -> Map<u64, Seq<Seq<char>>>;

/// The map with `value` added under `key`, after the values that the key
/// already has.
pub open spec fn stored(table: Map<u64, Seq<Seq<char>>>, key: u64, value: Seq<char>) -> Map<
    u64,
    Seq<Seq<char>>,
> {
    if table.contains_key(key) {
        table.insert(key, table[key].push(value))
    } else {
        table.insert(key, seq![value])
    }
}

/// What a list of strings holds.
pub open spec fn texts(values: Seq<String>) -> Seq<Seq<char>> {
    Seq::new(values.len(), |i: int| values[i]@)
}

/// Calls `MultiMap::new`, which makes an empty map.
#[verifier::external_body]
fn table_new() -> (r: MultiMap<u64, String>)
    ensures
        held(r).dom() == Set::<u64>::empty(),
{
    MultiMap::new()
}

/// Calls `MultiMap::insert`, which pushes the value to the vector of the key,
/// or gives the key a vector of that one value where it had none.
#[verifier::external_body]
fn table_insert(table: &mut MultiMap<u64, String>, key: u64, value: String)
    ensures
        held(*final(table)) == stored(held(*old(table)), key, value@),
{
    table.insert(key, value)
}

/// Calls `MultiMap::get`, which returns the first value of the key's vector:
/// `None` where the key has no vector, or an empty one.
#[verifier::external_body]
fn table_get(table: &MultiMap<u64, String>, key: u64) -> (r: Option<&String>)
    ensures
        r is Some <==> (held(*table).contains_key(key) && held(*table)[key].len() > 0),
        r matches Some(value) ==> value@ == held(*table)[key][0],
{
    table.get(&key)
}

/// Calls `MultiMap::remove`, which takes the key out and returns its vector,
/// if it had one.
#[verifier::external_body]
fn table_remove(table: &mut MultiMap<u64, String>, key: u64) -> (r: Option<Vec<String>>)
    ensures
        held(*final(table)) == held(*old(table)).remove(key),
        r is Some <==> held(*old(table)).contains_key(key),
        r matches Some(values) ==> texts(values@) == held(*old(table))[key],
{
    table.remove(&key)
}

/// The pending-response table of one connector. The session loop stores what
/// arrives; the request path looks for its response and takes it out.
pub struct PendingResponses {
    table: MultiMap<u64, String>,
}

impl View for PendingResponses {
    type V = Map<u64, Seq<Seq<char>>>;

    closed spec fn view(&self) -> Map<u64, Seq<Seq<char>>> {
        held(self.table)
    }
}

impl PendingResponses {
    /// Every id that the table knows has at least one response.
    pub open spec fn wf(&self) -> bool {
        forall|id: u64| self@.contains_key(id) ==> (#[trigger] self@[id]).len() > 0
    }

    /// An empty table.
    pub fn new() -> (r: Self)
        ensures
            r.wf(),
            r@ == Map::<u64, Seq<Seq<char>>>::empty(),
    {
        let r = PendingResponses { table: table_new() };
        assert(r@ =~= Map::<u64, Seq<Seq<char>>>::empty());
        r
    }

    /// Stores a response under its correlation id, after those that the id
    /// already has.
    pub fn insert(&mut self, id: u64, payload: String)
        requires
            old(self).wf(),
        ensures
            final(self).wf(),
            final(self)@ == stored(old(self)@, id, payload@),
    {
        table_insert(&mut self.table, id, payload);
    }

    /// The first response that arrived for `id`, if one did.
    pub fn get(&self, id: u64) -> (r: Option<&String>)
        requires
            self.wf(),
        ensures
            r is Some <==> self@.contains_key(id),
            r matches Some(payload) ==> payload@ == self@[id][0],
    {
        table_get(&self.table, id)
    }

    /// Takes every response for `id` out of the table.
    pub fn remove(&mut self, id: u64) -> (r: Option<Vec<String>>)
        requires
            old(self).wf(),
        ensures
            final(self).wf(),
            final(self)@ == old(self)@.remove(id),
            r is Some <==> old(self)@.contains_key(id),
            r matches Some(payloads) ==> texts(payloads@) == old(self)@[id],
    {
        let r = table_remove(&mut self.table, id);
        proof {
            assert forall|k: u64| self@.contains_key(k) implies (#[trigger] self@[k]).len() > 0 by {
                assert(old(self)@.contains_key(k));
                assert(self@[k] == old(self)@[k]);
            }
        }
        r
    }
}

} // verus!
