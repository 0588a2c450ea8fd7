//! Maps and sets of the `hashbrown` crate, in the same wire form as the
//! standard ones: a sequence of their entries, read back by inserting the
//! entries one after the other.
//!
//! The library holds each such collection in a type of its own, beside a
//! ghost model of what it holds. Verus does not see the collection itself;
//! the wrappers below, which make the calls into `hashbrown`, state what
//! each call does to the model.
use crate::error::{Decoded, MemoryPackError};
use crate::reader::MemoryPackReader;
use crate::traits::collections::{decode_seq, deserialize_seq, models, seq_serializes_as};
use crate::traits::maps::{
    deref_items, deref_pairs, entries_fit, lemma_decoded_members_list, lemma_decoded_pairs_list,
    lemma_map_of_listing, lemma_set_of_listing, lists_entries, lists_members, map_of_pairs, members_fit,
    models_distinct, unit_of, write_entries, write_members,
};
use crate::traits::{MemoryPackDeserialize, MemoryPackRoundTrip, MemoryPackSerialize};
use crate::error::ErrorKind;
use crate::writer::MemoryPackWriter;
use std::hash::Hash;
use vstd::prelude::*;
use vstd::std_specs::hash::obeys_key_model;

verus! {

/// Keys of type `K` keep the laws of equality and hashing, so that a
/// `hashbrown` table of them behaves as a map (its default hasher hashes
/// equal keys alike).
pub open spec fn hashbrown_keys_obey<K>() -> bool {
    obeys_key_model::<K>()
}

/// The table of a `hashbrown::HashMap` with the default hasher.
#[verifier::external_body]
#[verifier::reject_recursive_types(K)]
#[verifier::reject_recursive_types(V)]
struct MapTable<K, V> {
    map: hashbrown::HashMap<K, V>,
}

/// The table of a `hashbrown::HashSet` with the default hasher.
#[verifier::external_body]
#[verifier::reject_recursive_types(T)]
struct SetTable<T> {
    set: hashbrown::HashSet<T>,
}

/// A `hashbrown::HashMap` with the default hasher, and the map it holds.
#[verifier::reject_recursive_types(K)]
#[verifier::reject_recursive_types(V)]
pub struct HashbrownMap<K, V> {
    table: MapTable<K, V>,
    contents: Ghost<Map<K, V>>,
}

/// A `hashbrown::HashSet` with the default hasher, and the set it holds.
#[verifier::reject_recursive_types(T)]
pub struct HashbrownSet<T> {
    table: SetTable<T>,
    contents: Ghost<Set<T>>,
}

impl<K, V> View for HashbrownMap<K, V> {
    type V = Map<K, V>;

    /// The keys held, each with its value.
    closed spec fn view(&self) -> Map<K, V> {
        self.contents@
    }
}

impl<T> View for HashbrownSet<T> {
    type V = Set<T>;

    /// The members held.
    closed spec fn view(&self) -> Set<T> {
        self.contents@
    }
}

/// `hashbrown::HashMap::new`: an empty map.
#[verifier::external_body]
fn hashbrown_map_new<K, V>() -> (r: HashbrownMap<K, V>)
    ensures
        (r@ == Map::<K, V>::empty()),
{
    HashbrownMap { table: MapTable { map: hashbrown::HashMap::new() }, contents: Ghost(Map::empty()) }
}

/// `hashbrown::HashMap::insert`, the value it replaces dropped: when the
/// keys keep their laws, `k` is bound to `v` and the other keys keep their
/// values.
#[verifier::external_body]
fn hashbrown_map_insert<K: Eq + Hash, V>(m: &mut HashbrownMap<K, V>, k: K, v: V)
    ensures
        hashbrown_keys_obey::<K>() ==> final(m)@ == old(m)@.insert(k, v),
{
    let _ = m.table.map.insert(k, v);
}

/// `hashbrown::HashMap::len`: when the keys keep their laws, the number of
/// keys held.
#[verifier::external_body]
fn hashbrown_map_len<K, V>(m: &HashbrownMap<K, V>) -> (r: usize)
    ensures
        hashbrown_keys_obey::<K>() ==> r == m@.len(),
{
    m.table.map.len()
}

/// `hashbrown::HashMap::iter`, gathered into a vector: when the keys keep
/// their laws, each entry once, in the order the table walks them, which is
/// not stated.
#[verifier::external_body]
fn hashbrown_map_entries<'a, K, V>(m: &'a HashbrownMap<K, V>) -> (r: Vec<(&'a K, &'a V)>)
    ensures
        hashbrown_keys_obey::<K>() ==> lists_entries(deref_pairs(r@), m@),
{
    m.table.map.iter().collect()
}

/// `hashbrown::HashSet::new`: an empty set.
#[verifier::external_body]
fn hashbrown_set_new<T>() -> (r: HashbrownSet<T>)
    ensures
        r@ == Set::<T>::empty(),
{
    HashbrownSet { table: SetTable { set: hashbrown::HashSet::new() }, contents: Ghost(Set::empty()) }
}

/// `hashbrown::HashSet::insert`: when the members keep their laws, `x` is
/// a member afterwards, beside the members before.
#[verifier::external_body]
fn hashbrown_set_insert<T: Eq + Hash>(s: &mut HashbrownSet<T>, x: T)
    ensures
        hashbrown_keys_obey::<T>() ==> final(s)@ == old(s)@.insert(x),
{
    let _ = s.table.set.insert(x);
}

/// `hashbrown::HashSet::len`: when the members keep their laws, the number
/// of members.
#[verifier::external_body]
fn hashbrown_set_len<T>(s: &HashbrownSet<T>) -> (r: usize)
    ensures
        hashbrown_keys_obey::<T>() ==> r == s@.len(),
{
    s.table.set.len()
}

/// `hashbrown::HashSet::iter`, gathered into a vector: when the members
/// keep their laws, each member once, in the order the table walks them,
/// which is not stated.
#[verifier::external_body]
fn hashbrown_set_members<'a, T>(s: &'a HashbrownSet<T>) -> (r: Vec<&'a T>)
    ensures
        hashbrown_keys_obey::<T>() ==> lists_members(deref_items(r@), s@),
{
    s.table.set.iter().collect()
}

impl<K, V> HashbrownMap<K, V> {
    /// An empty map.
    pub fn new() -> (r: Self)
        ensures
            (r@ == Map::<K, V>::empty()),
    {
        hashbrown_map_new()
    }

    /// Binds `k` to `v`, in place of any value it was bound to.
    pub fn insert(&mut self, k: K, v: V)
        where
            K: Eq + Hash,
        ensures
            hashbrown_keys_obey::<K>() ==> final(self)@ == old(self)@.insert(k, v),
    {
        hashbrown_map_insert(self, k, v)
    }

    /// The number of entries.
    pub fn len(&self) -> (r: usize)
        ensures
            hashbrown_keys_obey::<K>() ==> r == self@.len(),
    {
        hashbrown_map_len(self)
    }

    /// The entries, each once, in the order the map walks them.
    pub fn entries(&self) -> (r: Vec<(&K, &V)>)
        ensures
            hashbrown_keys_obey::<K>() ==> lists_entries(deref_pairs(r@), self@),
    {
        hashbrown_map_entries(self)
    }
}

impl<T> HashbrownSet<T> {
    /// An empty set.
    pub fn new() -> (r: Self)
        ensures
            r@ == Set::<T>::empty(),
    {
        hashbrown_set_new()
    }

    /// Adds `x`, if no equal member is there.
    pub fn insert(&mut self, x: T)
        where
            T: Eq + Hash,
        ensures
            hashbrown_keys_obey::<T>() ==> final(self)@ == old(self)@.insert(x),
    {
        hashbrown_set_insert(self, x)
    }

    /// The number of members.
    pub fn len(&self) -> (r: usize)
        ensures
            hashbrown_keys_obey::<T>() ==> r == self@.len(),
    {
        hashbrown_set_len(self)
    }

    /// The members, each once, in the order the set walks them.
    pub fn members(&self) -> (r: Vec<&T>)
        ensures
            hashbrown_keys_obey::<T>() ==> lists_members(deref_items(r@), self@),
    {
        hashbrown_set_members(self)
    }
}

impl<K: MemoryPackSerialize, V: MemoryPackSerialize> MemoryPackSerialize for HashbrownMap<K, V> {
    /// The entries as a sequence, each once when the keys keep their laws.
    open spec fn serializes_as(&self, bytes: Seq<u8>) -> bool {
        exists|pairs: Seq<(K, V)>|
            (hashbrown_keys_obey::<K>() ==> lists_entries(pairs, self@)) && #[trigger] seq_serializes_as(pairs, bytes)
    }

    fn serialize(&self, writer: &mut MemoryPackWriter) -> (r: Result<(), MemoryPackError>) {
        let entries = hashbrown_map_entries(self);
        let r = write_entries(writer, &entries);
        proof {
            let pairs = deref_pairs(entries@);
            assert(seq_serializes_as(pairs, crate::traits::written(*old(writer), *writer)));
        }
        r
    }
}

impl<K: MemoryPackDeserialize + Eq + Hash, V: MemoryPackDeserialize + Default> MemoryPackDeserialize for HashbrownMap<
    K,
    V,
> {
    type Model = ();

    open spec fn model(&self) -> () {
        ()
    }

    open spec fn spec_deserialize(bytes: Seq<u8>) -> Decoded<()> {
        unit_of(decode_seq::<(K, V)>(bytes))
    }

    /// When the keys keep their laws, the map holds the decoded pairs, a
    /// later pair replacing an earlier one of the same key.
    fn deserialize(reader: &mut MemoryPackReader) -> (r: Result<Self, MemoryPackError>)
        ensures
            r matches Ok(m) ==> (hashbrown_keys_obey::<K>() ==> exists|pairs: Seq<(K, V)>|
                decode_seq::<(K, V)>(old(reader).rest()).0 == Ok::<Seq<(K::Model, V::Model)>, ErrorKind>(models(pairs))
                    && #[trigger] map_of_pairs(pairs) == m@),
    {
        let pairs = match deserialize_seq::<(K, V)>(reader) {
            Ok(p) => p,
            Err(e) => return Err(e),
        };
        let ghost ps = pairs@;
        let mut map: HashbrownMap<K, V> = hashbrown_map_new();
        for p in it: pairs
            invariant
                it.seq() == ps,
                hashbrown_keys_obey::<K>() ==> map@ == map_of_pairs(ps.take(it.index())),
        {
            proof {
                assert(ps.take(it.index() + 1).drop_last() =~= ps.take(it.index()));
            }
            let (k, v) = p;
            hashbrown_map_insert(&mut map, k, v);
        }
        proof {
            assert(ps.take(ps.len() as int) =~= ps);
        }
        Ok(map)
    }
}

impl<T: MemoryPackSerialize> MemoryPackSerialize for HashbrownSet<T> {
    /// The members as a sequence, each once when they keep their laws.
    open spec fn serializes_as(&self, bytes: Seq<u8>) -> bool {
        exists|items: Seq<T>|
            (hashbrown_keys_obey::<T>() ==> lists_members(items, self@)) && #[trigger] seq_serializes_as(items, bytes)
    }

    fn serialize(&self, writer: &mut MemoryPackWriter) -> (r: Result<(), MemoryPackError>) {
        let members = hashbrown_set_members(self);
        let r = write_members(writer, &members);
        proof {
            let items = deref_items(members@);
            assert(seq_serializes_as(items, crate::traits::written(*old(writer), *writer)));
        }
        r
    }
}

impl<T: MemoryPackDeserialize + Eq + Hash> MemoryPackDeserialize for HashbrownSet<T> {
    type Model = ();

    open spec fn model(&self) -> () {
        ()
    }

    open spec fn spec_deserialize(bytes: Seq<u8>) -> Decoded<()> {
        unit_of(decode_seq::<T>(bytes))
    }

    /// When the members keep their laws, the set holds exactly the decoded
    /// members.
    fn deserialize(reader: &mut MemoryPackReader) -> (r: Result<Self, MemoryPackError>)
        ensures
            r matches Ok(s) ==> (hashbrown_keys_obey::<T>() ==> exists|items: Seq<T>|
                decode_seq::<T>(old(reader).rest()).0 == Ok::<Seq<T::Model>, ErrorKind>(models(items))
                    && #[trigger] items.to_set() == s@),
    {
        let items = match deserialize_seq::<T>(reader) {
            Ok(p) => p,
            Err(e) => return Err(e),
        };
        let ghost xs = items@;
        let mut set: HashbrownSet<T> = hashbrown_set_new();
        for x in it: items
            invariant
                it.seq() == xs,
                hashbrown_keys_obey::<T>() ==> set@ == xs.take(it.index()).to_set(),
        {
            proof {
                assert(xs.take(it.index() + 1) =~= xs.take(it.index()).push(xs[it.index()]));
                xs.take(it.index()).lemma_push_to_set_commute(xs[it.index()]);
            }
            hashbrown_set_insert(&mut set, x);
        }
        proof {
            assert(xs.take(xs.len() as int) =~= xs);
        }
        Ok(set)
    }
}

/// A `hashbrown` map written and read back is the same map, when its keys
/// keep their laws, its keys and values fit the format, and distinct keys,
/// and distinct values, have distinct models: the pairs that its serialized
/// form decodes to build it again.
pub proof fn lemma_hashbrown_map_contents_read_back<
    K: MemoryPackRoundTrip + Eq + Hash,
    V: MemoryPackRoundTrip + Default,
>(m: HashbrownMap<K, V>, bytes: Seq<u8>, rest: Seq<u8>, pairs: Seq<(K, V)>)
    requires
        hashbrown_keys_obey::<K>(),
        m@.len() <= i32::MAX,
        entries_fit(m@),
        models_distinct::<K>(),
        models_distinct::<V>(),
        m.serializes_as(bytes),
        decode_seq::<(K, V)>(bytes + rest).0 == Ok::<Seq<(K::Model, V::Model)>, ErrorKind>(models(pairs)),
    ensures
        map_of_pairs(pairs) == m@,
{
    let listed = choose|listed: Seq<(K, V)>|
        (hashbrown_keys_obey::<K>() ==> lists_entries(listed, m@)) && #[trigger] seq_serializes_as(listed, bytes);
    lemma_decoded_pairs_list(m@, listed, bytes, rest, pairs);
    lemma_map_of_listing(listed, m@);
}

/// A `hashbrown` set written and read back is the same set, when its
/// members keep their laws, fit the format and have distinct models: the
/// members that its serialized form decodes to make it again.
pub proof fn lemma_hashbrown_set_contents_read_back<T: MemoryPackRoundTrip + Eq + Hash>(
    s: HashbrownSet<T>,
    bytes: Seq<u8>,
    rest: Seq<u8>,
    items: Seq<T>,
)
    requires
        hashbrown_keys_obey::<T>(),
        s@.len() <= i32::MAX,
        members_fit(s@),
        models_distinct::<T>(),
        s.serializes_as(bytes),
        decode_seq::<T>(bytes + rest).0 == Ok::<Seq<T::Model>, ErrorKind>(models(items)),
    ensures
        items.to_set() == s@,
{
    let listed = choose|listed: Seq<T>|
        (hashbrown_keys_obey::<T>() ==> lists_members(listed, s@)) && #[trigger] seq_serializes_as(listed, bytes);
    lemma_decoded_members_list(s@, listed, bytes, rest, items);
    lemma_set_of_listing(listed, s@);
}

} // verus!
