//! Maps and sets: written as a sequence of their entries (a key then its
//! value, for a map), in the order the collection walks them; read by
//! inserting the entries one after the other, so that a later entry with a
//! key already seen replaces the earlier one.
use crate::error::{Decoded, ErrorKind, MemoryPackError};
use crate::encoding::encode_i32;
use crate::reader::MemoryPackReader;
use crate::traits::collections::{
    all_fit, decode_seq, deserialize_seq, items_serialize_as, lemma_items_empty, lemma_items_step,
    lemma_seq_round_trip, seq_serializes_as,
};
use crate::traits::{written, MemoryPackDeserialize, MemoryPackRoundTrip, MemoryPackSerialize};
use crate::writer::MemoryPackWriter;
use crate::traits::collections::models;
use std::collections::hash_map::RandomState;
use std::collections::{BTreeMap, BTreeSet, HashMap, HashSet};
use std::hash::Hash;
use vstd::laws_cmp::obeys_cmp;
use vstd::prelude::*;
use vstd::std_specs::btree::{increasing_seq, key_obeys_cmp_spec};
use vstd::std_specs::hash::{builds_valid_hashers, obeys_key_model};

verus! {

/// `pairs` lists the entries of `m`, each once.
pub open spec fn lists_entries<K, V>(pairs: Seq<(K, V)>, m: Map<K, V>) -> bool {
    &&& pairs.len() == m.len()
    &&& forall|i: int|
        0 <= i < pairs.len() ==> #[trigger] m.contains_key(pairs[i].0) && m[pairs[i].0] == pairs[i].1
    &&& forall|k: K| #[trigger] m.contains_key(k) ==> exists|i: int| 0 <= i < pairs.len() && pairs[i].0 == k
    &&& forall|i: int, j: int| 0 <= i < j < pairs.len() ==> #[trigger] pairs[i].0 != #[trigger] pairs[j].0
}

/// `items` lists the members of `s`, each once.
pub open spec fn lists_members<T>(items: Seq<T>, s: Set<T>) -> bool {
    &&& items.len() == s.len()
    &&& forall|i: int| 0 <= i < items.len() ==> #[trigger] s.contains(items[i])
    &&& forall|x: T| #[trigger] s.contains(x) ==> exists|i: int| 0 <= i < items.len() && items[i] == x
    &&& forall|i: int, j: int| 0 <= i < j < items.len() ==> #[trigger] items[i] != #[trigger] items[j]
}

/// The entries that borrowed pairs point to.
pub open spec fn deref_pairs<'a, K, V>(r: Seq<(&'a K, &'a V)>) -> Seq<(K, V)> {
    r.map_values(|p: (&'a K, &'a V)| (*p.0, *p.1))
}

/// The members that borrowed items point to.
pub open spec fn deref_items<'a, T>(r: Seq<&'a T>) -> Seq<T> {
    r.map_values(|p: &'a T| *p)
}

/// The outcome of a decoding, with the value dropped.
pub open spec fn unit_of<A>(d: Decoded<A>) -> Decoded<()> {
    match d.0 {
        Ok(_) => (Ok(()), d.1),
        Err(e) => (Err(e), d.1),
    }
}

/// Hashing with `K` keys follows the map model: their equality and hashing
/// keep their laws, and the default hasher is valid.
pub open spec fn hash_keys_obey<K>() -> bool {
    obeys_key_model::<K>() && builds_valid_hashers::<RandomState>()
}

/// Ordering `K` keys follows the map model: their comparisons keep the
/// laws of a total order.
pub open spec fn ordered_keys_obey<K>() -> bool {
    key_obeys_cmp_spec::<K>()
}

/// The map that inserting the pairs one after the other into an empty map
/// gives: each key of the pairs, bound to the value of its last pair.
pub open spec fn map_of_pairs<K, V>(pairs: Seq<(K, V)>) -> Map<K, V>
    decreases pairs.len(),
{
    if pairs.len() == 0 {
        Map::empty()
    } else {
        map_of_pairs(pairs.drop_last()).insert(pairs.last().0, pairs.last().1)
    }
}

/// Keys whose comparisons keep their laws obey the ordering laws that
/// `BTreeMap` and `BTreeSet` are specified under.
proof fn lemma_ordered_keys_obey<K: Ord>()
    ensures
        ordered_keys_obey::<K>() ==> obeys_cmp::<K>(),
{
    broadcast use vstd::std_specs::btree::axiom_key_obeys_cmp_spec_meaning;
}

/// The keys of the pairs.
pub open spec fn keys_of<K, V>(pairs: Seq<(K, V)>) -> Seq<K> {
    pairs.map_values(|p: (K, V)| p.0)
}

/// `HashMap::iter`, gathered into a vector: when the keys keep the laws of
/// equality and hashing, each entry once, in the order the map walks them,
/// which depends on its hasher and is not stated. For keys that break those
/// laws nothing is stated.
#[verifier::external_body]
fn hash_map_entries<'a, K, V>(m: &'a HashMap<K, V>) -> (r: Vec<(&'a K, &'a V)>)
    ensures
        hash_keys_obey::<K>() ==> lists_entries(deref_pairs(r@), m@),
{
    m.iter().collect()
}

/// `BTreeMap::iter`, gathered into a vector: when the keys keep the laws
/// of their ordering, each entry once, in increasing order of the keys. For
/// keys that break those laws nothing is stated.
#[verifier::external_body]
fn btree_map_entries<'a, K, V>(m: &'a BTreeMap<K, V>) -> (r: Vec<(&'a K, &'a V)>)
    ensures
        ordered_keys_obey::<K>() ==> lists_entries(deref_pairs(r@), m@) && increasing_seq(
            keys_of(deref_pairs(r@)),
        ),
{
    m.iter().collect()
}

/// `HashSet::iter`, gathered into a vector: when the members keep the laws
/// of equality and hashing, each member once, in the order the set walks
/// them, which depends on its hasher and is not stated. For members that
/// break those laws nothing is stated.
#[verifier::external_body]
fn hash_set_members<'a, T>(s: &'a HashSet<T>) -> (r: Vec<&'a T>)
    ensures
        hash_keys_obey::<T>() ==> lists_members(deref_items(r@), s@),
{
    s.iter().collect()
}

/// `BTreeSet::iter`, gathered into a vector: when the members keep the
/// laws of their ordering, each member once, in ascending order. For
/// members that break those laws nothing is stated.
#[verifier::external_body]
fn btree_set_members<'a, T>(s: &'a BTreeSet<T>) -> (r: Vec<&'a T>)
    ensures
        ordered_keys_obey::<T>() ==> lists_members(deref_items(r@), s@) && increasing_seq(
            deref_items(r@),
        ),
{
    s.iter().collect()
}

/// Two values written one after the other are the serialized form of the
/// pair.
pub proof fn lemma_pair_serializes_as<A: MemoryPackSerialize, B: MemoryPackSerialize>(
    a: A,
    b: B,
    x: Seq<u8>,
    y: Seq<u8>,
)
    requires
        a.serializes_as(x),
        b.serializes_as(y),
    ensures
        (a, b).serializes_as(x + y),
{
    let xy = x + y;
    assert(xy.subrange(0, x.len() as int) =~= x);
    assert(xy.subrange(x.len() as int, xy.len() as int) =~= y);
    let p = (a, b);
    assert(p.0.serializes_as(xy.subrange(0, x.len() as int)));
    assert(p.1.serializes_as(xy.subrange(x.len() as int, xy.len() as int)));
    assert(exists|j1: int| 0 <= j1 <= xy.len() && p.0.serializes_as(xy.subrange(0, j1)) && p.1.serializes_as(xy.subrange(j1, xy.len() as int)));
}

/// Writes the entries one after the other: each key, then its value.
fn serialize_entries<'a, K: MemoryPackSerialize, V: MemoryPackSerialize>(
    entries: &Vec<(&'a K, &'a V)>,
    writer: &mut MemoryPackWriter,
)
    ensures
        old(writer)@.is_prefix_of(final(writer)@),
        items_serialize_as(deref_pairs(entries@), written(*old(writer), *final(writer))),
{
    let ghost pairs = deref_pairs(entries@);
    let mut i: usize = 0;
    proof {
        assert(writer@.skip(old(writer)@.len() as int) =~= Seq::<u8>::empty());
        lemma_items_empty(pairs.take(0), writer@.skip(old(writer)@.len() as int));
        assert(old(writer)@ =~= writer@.subrange(0, old(writer)@.len() as int));
    }
    while i < entries.len()
        invariant
            i <= entries@.len(),
            pairs == deref_pairs(entries@),
            old(writer)@.is_prefix_of(writer@),
            items_serialize_as(pairs.take(i as int), writer@.skip(old(writer)@.len() as int)),
        decreases entries@.len() - i,
    {
        let ghost before = writer@;
        let (k, v) = entries[i];
        let _ = k.serialize(writer);
        let ghost mid = writer@;
        let _ = v.serialize(writer);
        proof {
            assert(before =~= mid.subrange(0, before.len() as int));
            assert(mid =~= writer@.subrange(0, mid.len() as int));
            let x = mid.skip(before.len() as int);
            let y = writer@.skip(mid.len() as int);
            lemma_pair_serializes_as(*k, *v, x, y);
            assert(writer@.skip(before.len() as int) =~= x + y);
            assert(pairs[i as int] == (*k, *v));
            lemma_items_step(pairs, i as int, before, writer@, old(writer)@.len() as int);
            assert(old(writer)@ =~= writer@.subrange(0, old(writer)@.len() as int));
        }
        i = i + 1;
    }
    proof {
        assert(pairs.take(entries@.len() as int) =~= pairs);
    }
}

/// Writes the members one after the other.
fn serialize_members<'a, T: MemoryPackSerialize>(members: &Vec<&'a T>, writer: &mut MemoryPackWriter)
    ensures
        old(writer)@.is_prefix_of(final(writer)@),
        items_serialize_as(deref_items(members@), written(*old(writer), *final(writer))),
{
    let ghost items = deref_items(members@);
    let mut i: usize = 0;
    proof {
        assert(writer@.skip(old(writer)@.len() as int) =~= Seq::<u8>::empty());
        lemma_items_empty(items.take(0), writer@.skip(old(writer)@.len() as int));
        assert(old(writer)@ =~= writer@.subrange(0, old(writer)@.len() as int));
    }
    while i < members.len()
        invariant
            i <= members@.len(),
            items == deref_items(members@),
            old(writer)@.is_prefix_of(writer@),
            items_serialize_as(items.take(i as int), writer@.skip(old(writer)@.len() as int)),
        decreases members@.len() - i,
    {
        let ghost before = writer@;
        let _ = members[i].serialize(writer);
        proof {
            assert(items[i as int] == *members@[i as int]);
            lemma_items_step(items, i as int, before, writer@, old(writer)@.len() as int);
            assert(old(writer)@ =~= writer@.subrange(0, old(writer)@.len() as int));
        }
        i = i + 1;
    }
    proof {
        assert(items.take(members@.len() as int) =~= items);
    }
}

/// A count written before the serialized forms of the items makes the
/// serialized form of the sequence.
pub proof fn lemma_counted_sequence<T: MemoryPackSerialize>(items: Seq<T>, w0: Seq<u8>, w1: Seq<u8>, w2: Seq<u8>)
    requires
        w1 == w0 + encode_i32(items.len() as i32),
        w1.is_prefix_of(w2),
        items_serialize_as(items, w2.skip(w1.len() as int)),
    ensures
        w0.is_prefix_of(w2),
        seq_serializes_as(items, w2.skip(w0.len() as int)),
{
    let n = w0.len() as int;
    crate::encoding::lemma_le_bytes_len(((items.len() as i32) as u32) as nat, 4);
    assert(w1 =~= w2.subrange(0, w1.len() as int));
    assert(w1.len() == n + 4);
    assert forall|k: int| 0 <= k < 4 implies w2.skip(n).take(4)[k] == encode_i32(items.len() as i32)[k] by {
        assert(w2.skip(n).take(4)[k] == w2[n + k]);
        assert(w2[n + k] == w1[n + k]);
        assert(w1[n + k] == encode_i32(items.len() as i32)[k]);
    }
    assert(w2.skip(n).take(4) =~= encode_i32(items.len() as i32));
    assert(w2.skip(n).skip(4) =~= w2.skip(w1.len() as int));
    assert(w0 =~= w2.subrange(0, n));
}

/// Writes a sequence of entries: their count, then each key followed by its
/// value.
pub fn write_entries<'a, K: MemoryPackSerialize, V: MemoryPackSerialize>(
    writer: &mut MemoryPackWriter,
    entries: &Vec<(&'a K, &'a V)>,
) -> (r: Result<(), MemoryPackError>)
    ensures
        r is Ok,
        old(writer)@.is_prefix_of(final(writer)@),
        seq_serializes_as(deref_pairs(entries@), written(*old(writer), *final(writer))),
{
    let ghost w0 = writer@;
    let _ = writer.write_i32(entries.len() as i32);
    let ghost w1 = writer@;
    serialize_entries(entries, writer);
    proof {
        assert(deref_pairs(entries@).len() == entries@.len());
        lemma_counted_sequence(deref_pairs(entries@), w0, w1, writer@);
    }
    Ok(())
}

/// Writes a sequence of members: their count, then each member.
pub fn write_members<'a, T: MemoryPackSerialize>(writer: &mut MemoryPackWriter, members: &Vec<&'a T>) -> (r: Result<(), MemoryPackError>)
    ensures
        r is Ok,
        old(writer)@.is_prefix_of(final(writer)@),
        seq_serializes_as(deref_items(members@), written(*old(writer), *final(writer))),
{
    let ghost w0 = writer@;
    let _ = writer.write_i32(members.len() as i32);
    let ghost w1 = writer@;
    serialize_members(members, writer);
    proof {
        assert(deref_items(members@).len() == members@.len());
        lemma_counted_sequence(deref_items(members@), w0, w1, writer@);
    }
    Ok(())
}

impl<K: MemoryPackSerialize, V: MemoryPackSerialize> MemoryPackSerialize for HashMap<K, V> {
    /// The entries as a sequence, each once when the keys keep their laws.
    open spec fn serializes_as(&self, bytes: Seq<u8>) -> bool {
        exists|pairs: Seq<(K, V)>|
            (hash_keys_obey::<K>() ==> lists_entries(pairs, self@)) && #[trigger] seq_serializes_as(pairs, bytes)
    }

    fn serialize(&self, writer: &mut MemoryPackWriter) -> (r: Result<(), MemoryPackError>) {
        let entries = hash_map_entries(self);
        write_entries(writer, &entries)
    }
}

impl<K: MemoryPackDeserialize + Eq + Hash, V: MemoryPackDeserialize + Default> MemoryPackDeserialize for HashMap<K, V> {
    type Model = ();

    open spec fn model(&self) -> () {
        ()
    }

    open spec fn spec_deserialize(bytes: Seq<u8>) -> Decoded<()> {
        unit_of(decode_seq::<(K, V)>(bytes))
    }

    /// When the keys keep the laws of equality and hashing, the map holds
    /// the decoded pairs, a later pair replacing an earlier one of the same
    /// key.
    fn deserialize(reader: &mut MemoryPackReader) -> (r: Result<Self, MemoryPackError>)
        ensures
            r matches Ok(m) ==> (hash_keys_obey::<K>() ==> exists|pairs: Seq<(K, V)>|
                decode_seq::<(K, V)>(old(reader).rest()).0 == Ok::<Seq<(K::Model, V::Model)>, ErrorKind>(models(pairs))
                    && #[trigger] map_of_pairs(pairs) == m@),
    {
        let pairs = match deserialize_seq::<(K, V)>(reader) {
            Ok(p) => p,
            Err(e) => return Err(e),
        };
        let ghost ps = pairs@;
        let mut map: HashMap<K, V> = HashMap::new();
        for p in it: pairs
            invariant
                it.seq() == ps,
                hash_keys_obey::<K>() ==> map@ == map_of_pairs(ps.take(it.index())),
        {
            proof {
                assert(ps.take(it.index() + 1).drop_last() =~= ps.take(it.index()));
            }
            let (k, v) = p;
            map.insert(k, v);
        }
        proof {
            assert(ps.take(ps.len() as int) =~= ps);
        }
        Ok(map)
    }
}

impl<K: MemoryPackSerialize, V: MemoryPackSerialize> MemoryPackSerialize for BTreeMap<K, V> {
    /// The entries as a sequence, each once and by increasing key when the
    /// keys keep the laws of their ordering.
    open spec fn serializes_as(&self, bytes: Seq<u8>) -> bool {
        exists|pairs: Seq<(K, V)>|
            (ordered_keys_obey::<K>() ==> lists_entries(pairs, self@) && increasing_seq(keys_of(pairs)))
                && #[trigger] seq_serializes_as(pairs, bytes)
    }

    fn serialize(&self, writer: &mut MemoryPackWriter) -> (r: Result<(), MemoryPackError>) {
        let entries = btree_map_entries(self);
        write_entries(writer, &entries)
    }
}

impl<K: MemoryPackDeserialize + Ord, V: MemoryPackDeserialize + Default> MemoryPackDeserialize for BTreeMap<K, V> {
    type Model = ();

    open spec fn model(&self) -> () {
        ()
    }

    open spec fn spec_deserialize(bytes: Seq<u8>) -> Decoded<()> {
        unit_of(decode_seq::<(K, V)>(bytes))
    }

    /// When the keys keep the laws of their ordering, the map holds the
    /// decoded pairs, a later pair replacing an earlier one of the same key.
    fn deserialize(reader: &mut MemoryPackReader) -> (r: Result<Self, MemoryPackError>)
        ensures
            r matches Ok(m) ==> (ordered_keys_obey::<K>() ==> exists|pairs: Seq<(K, V)>|
                decode_seq::<(K, V)>(old(reader).rest()).0 == Ok::<Seq<(K::Model, V::Model)>, ErrorKind>(models(pairs))
                    && #[trigger] map_of_pairs(pairs) == m@),
    {
        let pairs = match deserialize_seq::<(K, V)>(reader) {
            Ok(p) => p,
            Err(e) => return Err(e),
        };
        let ghost ps = pairs@;
        let mut map: BTreeMap<K, V> = BTreeMap::new();
        for p in it: pairs
            invariant
                it.seq() == ps,
                ordered_keys_obey::<K>() ==> map@ == map_of_pairs(ps.take(it.index())),
        {
            proof {
                assert(ps.take(it.index() + 1).drop_last() =~= ps.take(it.index()));
                lemma_ordered_keys_obey::<K>();
            }
            let (k, v) = p;
            map.insert(k, v);
        }
        proof {
            assert(ps.take(ps.len() as int) =~= ps);
        }
        Ok(map)
    }
}

impl<T: MemoryPackSerialize> MemoryPackSerialize for HashSet<T> {
    /// The members as a sequence, each once when they keep their laws.
    open spec fn serializes_as(&self, bytes: Seq<u8>) -> bool {
        exists|items: Seq<T>|
            (hash_keys_obey::<T>() ==> lists_members(items, self@)) && #[trigger] seq_serializes_as(items, bytes)
    }

    fn serialize(&self, writer: &mut MemoryPackWriter) -> (r: Result<(), MemoryPackError>) {
        let members = hash_set_members(self);
        write_members(writer, &members)
    }
}

impl<T: MemoryPackDeserialize + Eq + Hash> MemoryPackDeserialize for HashSet<T> {
    type Model = ();

    open spec fn model(&self) -> () {
        ()
    }

    open spec fn spec_deserialize(bytes: Seq<u8>) -> Decoded<()> {
        unit_of(decode_seq::<T>(bytes))
    }

    /// When the members keep the laws of equality and hashing, the set holds
    /// exactly the decoded members.
    fn deserialize(reader: &mut MemoryPackReader) -> (r: Result<Self, MemoryPackError>)
        ensures
            r matches Ok(s) ==> (hash_keys_obey::<T>() ==> exists|items: Seq<T>|
                decode_seq::<T>(old(reader).rest()).0 == Ok::<Seq<T::Model>, ErrorKind>(models(items))
                    && #[trigger] items.to_set() == s@),
    {
        let items = match deserialize_seq::<T>(reader) {
            Ok(p) => p,
            Err(e) => return Err(e),
        };
        let ghost xs = items@;
        let mut set: HashSet<T> = HashSet::new();
        for x in it: items
            invariant
                it.seq() == xs,
                hash_keys_obey::<T>() ==> set@ == xs.take(it.index()).to_set(),
        {
            proof {
                assert(xs.take(it.index() + 1) =~= xs.take(it.index()).push(xs[it.index()]));
                xs.take(it.index()).lemma_push_to_set_commute(xs[it.index()]);
            }
            set.insert(x);
        }
        proof {
            assert(xs.take(xs.len() as int) =~= xs);
        }
        Ok(set)
    }
}

impl<T: MemoryPackSerialize> MemoryPackSerialize for BTreeSet<T> {
    /// The members as a sequence, each once and in ascending order when they
    /// keep the laws of their ordering.
    open spec fn serializes_as(&self, bytes: Seq<u8>) -> bool {
        exists|items: Seq<T>|
            (ordered_keys_obey::<T>() ==> lists_members(items, self@) && increasing_seq(items))
                && #[trigger] seq_serializes_as(items, bytes)
    }

    fn serialize(&self, writer: &mut MemoryPackWriter) -> (r: Result<(), MemoryPackError>) {
        let members = btree_set_members(self);
        write_members(writer, &members)
    }
}

impl<T: MemoryPackDeserialize + Ord> MemoryPackDeserialize for BTreeSet<T> {
    type Model = ();

    open spec fn model(&self) -> () {
        ()
    }

    open spec fn spec_deserialize(bytes: Seq<u8>) -> Decoded<()> {
        unit_of(decode_seq::<T>(bytes))
    }

    /// When the members keep the laws of their ordering, the set holds
    /// exactly the decoded members.
    fn deserialize(reader: &mut MemoryPackReader) -> (r: Result<Self, MemoryPackError>)
        ensures
            r matches Ok(s) ==> (ordered_keys_obey::<T>() ==> exists|items: Seq<T>|
                decode_seq::<T>(old(reader).rest()).0 == Ok::<Seq<T::Model>, ErrorKind>(models(items))
                    && #[trigger] items.to_set() == s@),
    {
        let items = match deserialize_seq::<T>(reader) {
            Ok(p) => p,
            Err(e) => return Err(e),
        };
        let ghost xs = items@;
        let mut set: BTreeSet<T> = BTreeSet::new();
        for x in it: items
            invariant
                it.seq() == xs,
                ordered_keys_obey::<T>() ==> set@ == xs.take(it.index()).to_set(),
        {
            proof {
                assert(xs.take(it.index() + 1) =~= xs.take(it.index()).push(xs[it.index()]));
                xs.take(it.index()).lemma_push_to_set_commute(xs[it.index()]);
                lemma_ordered_keys_obey::<T>();
            }
            set.insert(x);
        }
        proof {
            assert(xs.take(xs.len() as int) =~= xs);
        }
        Ok(set)
    }
}

/// Every key and value of `m` fits the format.
pub open spec fn entries_fit<K: MemoryPackRoundTrip, V: MemoryPackRoundTrip>(m: Map<K, V>) -> bool {
    forall|k: K| #[trigger] m.contains_key(k) ==> k.fits_format() && m[k].fits_format()
}

/// Every member of `s` fits the format.
pub open spec fn members_fit<T: MemoryPackRoundTrip>(s: Set<T>) -> bool {
    forall|x: T| #[trigger] s.contains(x) ==> x.fits_format()
}

/// A listing of the entries of a map whose keys and values fit the format,
/// written as a sequence, reads back as a sequence of that many entries.
pub proof fn lemma_entries_read_back<K: MemoryPackRoundTrip, V: MemoryPackRoundTrip>(
    m: Map<K, V>,
    bytes: Seq<u8>,
    rest: Seq<u8>,
)
    requires
        m.len() <= i32::MAX,
        entries_fit(m),
        exists|pairs: Seq<(K, V)>| lists_entries(pairs, m) && #[trigger] seq_serializes_as(pairs, bytes),
    ensures
        unit_of(decode_seq::<(K, V)>(bytes + rest)) == (Ok::<(), ErrorKind>(()), bytes.len() as int),
{
    let pairs = choose|pairs: Seq<(K, V)>| lists_entries(pairs, m) && #[trigger] seq_serializes_as(pairs, bytes);
    assert forall|i: int| 0 <= i < pairs.len() implies #[trigger] pairs[i].fits_format() by {
        assert(m.contains_key(pairs[i].0));
    }
    assert(all_fit(pairs));
    lemma_seq_round_trip(pairs, bytes, rest);
}

/// A listing of the members of a set whose members fit the format, written
/// as a sequence, reads back as a sequence of that many members.
pub proof fn lemma_members_read_back<T: MemoryPackRoundTrip>(s: Set<T>, bytes: Seq<u8>, rest: Seq<u8>)
    requires
        s.len() <= i32::MAX,
        members_fit(s),
        exists|items: Seq<T>| lists_members(items, s) && #[trigger] seq_serializes_as(items, bytes),
    ensures
        unit_of(decode_seq::<T>(bytes + rest)) == (Ok::<(), ErrorKind>(()), bytes.len() as int),
{
    let items = choose|items: Seq<T>| lists_members(items, s) && #[trigger] seq_serializes_as(items, bytes);
    assert forall|i: int| 0 <= i < items.len() implies #[trigger] items[i].fits_format() by {
        assert(s.contains(items[i]));
    }
    assert(all_fit(items));
    lemma_seq_round_trip(items, bytes, rest);
}

/// A serialized hash map whose keys and values fit the format reads back,
/// consuming exactly its bytes, whatever follows.
pub proof fn lemma_hash_map_reads_back<
    K: MemoryPackRoundTrip + Eq + Hash,
    V: MemoryPackRoundTrip + Default,
>(m: HashMap<K, V>, bytes: Seq<u8>, rest: Seq<u8>)
    requires
        hash_keys_obey::<K>(),
        m@.len() <= i32::MAX,
        entries_fit(m@),
        m.serializes_as(bytes),
    ensures
        <HashMap<K, V> as MemoryPackDeserialize>::spec_deserialize(bytes + rest)
            == (Ok::<(), ErrorKind>(()), bytes.len() as int),
{
    let pairs = choose|pairs: Seq<(K, V)>|
        (hash_keys_obey::<K>() ==> lists_entries(pairs, m@)) && #[trigger] seq_serializes_as(pairs, bytes);
    assert(lists_entries(pairs, m@) && seq_serializes_as(pairs, bytes));
    lemma_entries_read_back(m@, bytes, rest);
}

/// A serialized ordered map whose keys and values fit the format reads
/// back, consuming exactly its bytes, whatever follows.
pub proof fn lemma_btree_map_reads_back<K: MemoryPackRoundTrip + Ord, V: MemoryPackRoundTrip + Default>(
    m: BTreeMap<K, V>,
    bytes: Seq<u8>,
    rest: Seq<u8>,
)
    requires
        ordered_keys_obey::<K>(),
        m@.len() <= i32::MAX,
        entries_fit(m@),
        m.serializes_as(bytes),
    ensures
        <BTreeMap<K, V> as MemoryPackDeserialize>::spec_deserialize(bytes + rest)
            == (Ok::<(), ErrorKind>(()), bytes.len() as int),
{
    let pairs = choose|pairs: Seq<(K, V)>|
        (ordered_keys_obey::<K>() ==> lists_entries(pairs, m@) && increasing_seq(keys_of(pairs)))
            && #[trigger] seq_serializes_as(pairs, bytes);
    assert(lists_entries(pairs, m@) && seq_serializes_as(pairs, bytes));
    lemma_entries_read_back(m@, bytes, rest);
}

/// A serialized hash set whose members fit the format reads back,
/// consuming exactly its bytes, whatever follows.
pub proof fn lemma_hash_set_reads_back<T: MemoryPackRoundTrip + Eq + Hash>(s: HashSet<T>, bytes: Seq<u8>, rest: Seq<u8>)
    requires
        hash_keys_obey::<T>(),
        s@.len() <= i32::MAX,
        members_fit(s@),
        s.serializes_as(bytes),
    ensures
        <HashSet<T> as MemoryPackDeserialize>::spec_deserialize(bytes + rest)
            == (Ok::<(), ErrorKind>(()), bytes.len() as int),
{
    let items = choose|items: Seq<T>|
        (hash_keys_obey::<T>() ==> lists_members(items, s@)) && #[trigger] seq_serializes_as(items, bytes);
    assert(lists_members(items, s@) && seq_serializes_as(items, bytes));
    lemma_members_read_back(s@, bytes, rest);
}

/// A serialized ordered set whose members fit the format reads back,
/// consuming exactly its bytes, whatever follows.
pub proof fn lemma_btree_set_reads_back<T: MemoryPackRoundTrip + Ord>(s: BTreeSet<T>, bytes: Seq<u8>, rest: Seq<u8>)
    requires
        ordered_keys_obey::<T>(),
        s@.len() <= i32::MAX,
        members_fit(s@),
        s.serializes_as(bytes),
    ensures
        <BTreeSet<T> as MemoryPackDeserialize>::spec_deserialize(bytes + rest)
            == (Ok::<(), ErrorKind>(()), bytes.len() as int),
{
    let items = choose|items: Seq<T>|
        (ordered_keys_obey::<T>() ==> lists_members(items, s@) && increasing_seq(items))
            && #[trigger] seq_serializes_as(items, bytes);
    assert(lists_members(items, s@) && seq_serializes_as(items, bytes));
    lemma_members_read_back(s@, bytes, rest);
}


/// Distinct values of `T` have distinct models.
pub open spec fn models_distinct<T: MemoryPackDeserialize>() -> bool {
    forall|a: T, b: T| #[trigger] a.model() == #[trigger] b.model() ==> a == b
}

/// Pairs of keys and values that have distinct models have distinct
/// models.
pub proof fn lemma_pair_models_distinct<K: MemoryPackDeserialize, V: MemoryPackDeserialize>()
    requires
        models_distinct::<K>(),
        models_distinct::<V>(),
    ensures
        models_distinct::<(K, V)>(),
{
    assert forall|a: (K, V), b: (K, V)| #[trigger] a.model() == #[trigger] b.model() implies a == b by {
        assert(a.0.model() == b.0.model());
        assert(a.1.model() == b.1.model());
    }
}

/// Items of a type whose values have distinct models are fixed by their
/// models.
pub proof fn lemma_same_models<T: MemoryPackDeserialize>(xs: Seq<T>, ys: Seq<T>)
    requires
        models_distinct::<T>(),
        models(xs) == models(ys),
    ensures
        xs == ys,
{
    assert(xs.len() == models(xs).len());
    assert(ys.len() == models(ys).len());
    assert forall|i: int| 0 <= i < xs.len() implies xs[i] == ys[i] by {
        assert(models(xs)[i] == xs[i].model());
        assert(models(ys)[i] == ys[i].model());
        assert(xs[i].model() == ys[i].model());
    }
    assert(xs =~= ys);
}

/// Inserting pairs with distinct keys one after the other binds each key to
/// its pair's value, and nothing else.
pub proof fn lemma_map_of_distinct_pairs<K, V>(pairs: Seq<(K, V)>)
    requires
        forall|i: int, j: int| 0 <= i < j < pairs.len() ==> #[trigger] pairs[i].0 != #[trigger] pairs[j].0,
    ensures
        map_of_pairs(pairs).dom() == keys_of(pairs).to_set(),
        forall|i: int| 0 <= i < pairs.len() ==> #[trigger] map_of_pairs(pairs)[pairs[i].0] == pairs[i].1,
    decreases pairs.len(),
{
    if pairs.len() == 0 {
        assert(keys_of(pairs).to_set() =~= Set::<K>::empty());
        assert(map_of_pairs(pairs).dom() =~= Set::<K>::empty());
    } else {
        let init = pairs.drop_last();
        let n = pairs.len() - 1;
        assert forall|i: int, j: int| 0 <= i < j < init.len() implies #[trigger] init[i].0 != #[trigger] init[j].0 by {
            assert(init[i] == pairs[i] && init[j] == pairs[j]);
        }
        lemma_map_of_distinct_pairs(init);
        assert(keys_of(pairs) =~= keys_of(init).push(pairs.last().0));
        keys_of(init).lemma_push_to_set_commute(pairs.last().0);
        assert forall|i: int| 0 <= i < pairs.len() implies #[trigger] map_of_pairs(pairs)[pairs[i].0] == pairs[i].1 by {
            if i < n {
                assert(init[i] == pairs[i]);
                assert(pairs[i].0 != pairs[n].0);
            }
        }
    }
}

/// Inserting, one after the other, the entries that a listing of a map
/// gives builds that map.
pub proof fn lemma_map_of_listing<K, V>(pairs: Seq<(K, V)>, m: Map<K, V>)
    requires
        lists_entries(pairs, m),
    ensures
        map_of_pairs(pairs) == m,
{
    lemma_map_of_distinct_pairs(pairs);
    let ks = keys_of(pairs);
    assert forall|k: K| ks.to_set().contains(k) implies m.dom().contains(k) by {
        let i = choose|i: int| 0 <= i < ks.len() && ks[i] == k;
        assert(m.contains_key(pairs[i].0));
    }
    assert forall|k: K| m.dom().contains(k) implies ks.to_set().contains(k) && map_of_pairs(pairs)[k] == m[k] by {
        let i = choose|i: int| 0 <= i < pairs.len() && pairs[i].0 == k;
        assert(ks[i] == k);
        assert(map_of_pairs(pairs)[pairs[i].0] == pairs[i].1);
    }
    assert(map_of_pairs(pairs).dom() =~= m.dom());
    assert(map_of_pairs(pairs) =~= m);
}

/// The members that a listing of a set gives are that set.
pub proof fn lemma_set_of_listing<T>(items: Seq<T>, s: Set<T>)
    requires
        lists_members(items, s),
    ensures
        items.to_set() == s,
{
    assert forall|x: T| items.to_set().contains(x) implies s.contains(x) by {
        let i = choose|i: int| 0 <= i < items.len() && items[i] == x;
        assert(s.contains(items[i]));
    }
    assert(items.to_set() =~= s);
}

/// The pairs that the serialized form of a map decodes to, when its keys
/// and values fit the format and have distinct models, list the map.
pub proof fn lemma_decoded_pairs_list<K: MemoryPackRoundTrip, V: MemoryPackRoundTrip>(
    m: Map<K, V>,
    listed: Seq<(K, V)>,
    bytes: Seq<u8>,
    rest: Seq<u8>,
    pairs: Seq<(K, V)>,
)
    requires
        m.len() <= i32::MAX,
        entries_fit(m),
        lists_entries(listed, m),
        seq_serializes_as(listed, bytes),
        models_distinct::<K>(),
        models_distinct::<V>(),
        decode_seq::<(K, V)>(bytes + rest).0 == Ok::<Seq<(K::Model, V::Model)>, ErrorKind>(models(pairs)),
    ensures
        pairs == listed,
{
    assert forall|i: int| 0 <= i < listed.len() implies #[trigger] listed[i].fits_format() by {
        assert(m.contains_key(listed[i].0));
    }
    assert(all_fit(listed));
    lemma_seq_round_trip(listed, bytes, rest);
    lemma_pair_models_distinct::<K, V>();
    lemma_same_models(pairs, listed);
}

/// A hash map written and read back is the same map, when its keys keep
/// the laws of equality and hashing, its keys and values fit the format,
/// and distinct keys, and distinct values, have distinct models: the pairs
/// that its serialized form decodes to build it again.
pub proof fn lemma_hash_map_contents_read_back<
    K: MemoryPackRoundTrip + Eq + Hash,
    V: MemoryPackRoundTrip + Default,
>(m: HashMap<K, V>, bytes: Seq<u8>, rest: Seq<u8>, pairs: Seq<(K, V)>)
    requires
        hash_keys_obey::<K>(),
        m@.len() <= i32::MAX,
        entries_fit(m@),
        models_distinct::<K>(),
        models_distinct::<V>(),
        m.serializes_as(bytes),
        decode_seq::<(K, V)>(bytes + rest).0 == Ok::<Seq<(K::Model, V::Model)>, ErrorKind>(models(pairs)),
    ensures
        map_of_pairs(pairs) == m@,
{
    let listed = choose|listed: Seq<(K, V)>|
        (hash_keys_obey::<K>() ==> lists_entries(listed, m@)) && #[trigger] seq_serializes_as(listed, bytes);
    lemma_decoded_pairs_list(m@, listed, bytes, rest, pairs);
    lemma_map_of_listing(listed, m@);
}

/// An ordered map written and read back is the same map, when its keys
/// keep the laws of their ordering, its keys and values fit the format, and
/// distinct keys, and distinct values, have distinct models: the pairs that
/// its serialized form decodes to build it again.
pub proof fn lemma_btree_map_contents_read_back<K: MemoryPackRoundTrip + Ord, V: MemoryPackRoundTrip + Default>(
    m: BTreeMap<K, V>,
    bytes: Seq<u8>,
    rest: Seq<u8>,
    pairs: Seq<(K, V)>,
)
    requires
        ordered_keys_obey::<K>(),
        m@.len() <= i32::MAX,
        entries_fit(m@),
        models_distinct::<K>(),
        models_distinct::<V>(),
        m.serializes_as(bytes),
        decode_seq::<(K, V)>(bytes + rest).0 == Ok::<Seq<(K::Model, V::Model)>, ErrorKind>(models(pairs)),
    ensures
        map_of_pairs(pairs) == m@,
{
    let listed = choose|listed: Seq<(K, V)>|
        (ordered_keys_obey::<K>() ==> lists_entries(listed, m@) && increasing_seq(keys_of(listed)))
            && #[trigger] seq_serializes_as(listed, bytes);
    lemma_decoded_pairs_list(m@, listed, bytes, rest, pairs);
    lemma_map_of_listing(listed, m@);
}


/// The members that the serialized form of a set decodes to, when they fit
/// the format and have distinct models, list the set.
pub proof fn lemma_decoded_members_list<T: MemoryPackRoundTrip>(
    s: Set<T>,
    listed: Seq<T>,
    bytes: Seq<u8>,
    rest: Seq<u8>,
    items: Seq<T>,
)
    requires
        s.len() <= i32::MAX,
        members_fit(s),
        lists_members(listed, s),
        seq_serializes_as(listed, bytes),
        models_distinct::<T>(),
        decode_seq::<T>(bytes + rest).0 == Ok::<Seq<T::Model>, ErrorKind>(models(items)),
    ensures
        items == listed,
{
    assert forall|i: int| 0 <= i < listed.len() implies #[trigger] listed[i].fits_format() by {
        assert(s.contains(listed[i]));
    }
    assert(all_fit(listed));
    lemma_seq_round_trip(listed, bytes, rest);
    lemma_same_models(items, listed);
}

/// A hash set written and read back is the same set, when its members keep
/// the laws of equality and hashing, fit the format and have distinct
/// models: the members that its serialized form decodes to make it again.
pub proof fn lemma_hash_set_contents_read_back<T: MemoryPackRoundTrip + Eq + Hash>(
    s: HashSet<T>,
    bytes: Seq<u8>,
    rest: Seq<u8>,
    items: Seq<T>,
)
    requires
        hash_keys_obey::<T>(),
        s@.len() <= i32::MAX,
        members_fit(s@),
        models_distinct::<T>(),
        s.serializes_as(bytes),
        decode_seq::<T>(bytes + rest).0 == Ok::<Seq<T::Model>, ErrorKind>(models(items)),
    ensures
        items.to_set() == s@,
{
    let listed = choose|listed: Seq<T>|
        (hash_keys_obey::<T>() ==> lists_members(listed, s@)) && #[trigger] seq_serializes_as(listed, bytes);
    lemma_decoded_members_list(s@, listed, bytes, rest, items);
    lemma_set_of_listing(listed, s@);
}

/// An ordered set written and read back is the same set, when its members
/// keep the laws of their ordering, fit the format and have distinct
/// models: the members that its serialized form decodes to make it again.
pub proof fn lemma_btree_set_contents_read_back<T: MemoryPackRoundTrip + Ord>(
    s: BTreeSet<T>,
    bytes: Seq<u8>,
    rest: Seq<u8>,
    items: Seq<T>,
)
    requires
        ordered_keys_obey::<T>(),
        s@.len() <= i32::MAX,
        members_fit(s@),
        models_distinct::<T>(),
        s.serializes_as(bytes),
        decode_seq::<T>(bytes + rest).0 == Ok::<Seq<T::Model>, ErrorKind>(models(items)),
    ensures
        items.to_set() == s@,
{
    let listed = choose|listed: Seq<T>|
        (ordered_keys_obey::<T>() ==> lists_members(listed, s@) && increasing_seq(listed))
            && #[trigger] seq_serializes_as(listed, bytes);
    lemma_decoded_members_list(s@, listed, bytes, rest, items);
    lemma_set_of_listing(listed, s@);
}
} // verus!
