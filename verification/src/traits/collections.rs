//! Sequences: a 32-bit element count (`-1` or `0` for none), then the
//! elements one after the other.
use crate::encoding::{decode_i32, encode_i32, lemma_i32_round_trip};
use crate::error::{Decoded, ErrorKind, MemoryPackError};
use crate::reader::{shifted, MemoryPackReader};
use crate::traits::{
    consumed, written, MemoryPackDeserialize, MemoryPackRoundTrip, MemoryPackSerialize,
};
use crate::writer::{appended, MemoryPackWriter};
use std::collections::VecDeque;
use vstd::prelude::*;

verus! {

/// `bytes` cut at the offsets `cuts` gives the serialized forms of `items`,
/// one after the other.
pub open spec fn items_split_at<T: MemoryPackSerialize>(items: Seq<T>, bytes: Seq<u8>, cuts: Seq<int>) -> bool {
    &&& cuts.len() == items.len() + 1
    &&& cuts[0] == 0
    &&& cuts[items.len() as int] == bytes.len()
    &&& forall|i: int, j: int| 0 <= i <= j <= items.len() ==> #[trigger] cuts[i] <= #[trigger] cuts[j]
    &&& forall|i: int|
        0 <= i < items.len() ==> #[trigger] items[i].serializes_as(bytes.subrange(cuts[i], cuts[i + 1]))
}

/// `bytes` is the serialized forms of `items`, one after the other.
pub open spec fn items_serialize_as<T: MemoryPackSerialize>(items: Seq<T>, bytes: Seq<u8>) -> bool {
    exists|cuts: Seq<int>| #[trigger] items_split_at(items, bytes, cuts)
}

/// Decoding of `n` values one after the other from the front of `b`.
pub open spec fn decode_items<T: MemoryPackDeserialize>(b: Seq<u8>, n: nat) -> Decoded<Seq<T::Model>>
    decreases n,
{
    if n == 0 {
        (Ok(Seq::empty()), 0)
    } else {
        let (prev, m) = decode_items::<T>(b, (n - 1) as nat);
        match prev {
            Err(e) => (Err(e), m),
            Ok(items) => {
                let (r, k) = T::spec_deserialize(b.skip(m));
                match r {
                    Err(e) => (Err(e), m + k),
                    Ok(v) => (Ok(items.push(v)), m + k),
                }
            },
        }
    }
}

/// The values that the items stand for.
pub open spec fn models<T: MemoryPackDeserialize>(items: Seq<T>) -> Seq<T::Model> {
    items.map_values(|x: T| x.model())
}

/// Every item fits the format.
pub open spec fn all_fit<T: MemoryPackRoundTrip>(items: Seq<T>) -> bool {
    forall|i: int| 0 <= i < items.len() ==> #[trigger] items[i].fits_format()
}

/// Decoding of a sequence: its count, then that many values. A count of
/// `-1` or `0` stands for an empty sequence; any other negative count is
/// refused.
pub open spec fn decode_seq<T: MemoryPackDeserialize>(b: Seq<u8>) -> Decoded<Seq<T::Model>> {
    match decode_i32(b).0 {
        Err(e) => (Err(e), 0),
        Ok(size) => if size == -1 || size == 0 {
            (Ok(Seq::empty()), 4)
        } else if size < 0 {
            (Err(ErrorKind::InvalidLength(size)), 4)
        } else {
            shifted(decode_items::<T>(b.skip(4), size as nat), 4)
        },
    }
}

/// `bytes` is a serialized form of the sequence `items`.
pub open spec fn seq_serializes_as<T: MemoryPackSerialize>(items: Seq<T>, bytes: Seq<u8>) -> bool {
    &&& bytes.len() >= 4
    &&& bytes.take(4) == encode_i32(items.len() as i32)
    &&& items_serialize_as(items, bytes.skip(4))
}

/// No items are serialized as no bytes.
pub proof fn lemma_items_empty<T: MemoryPackSerialize>(items: Seq<T>, bytes: Seq<u8>)
    requires
        items.len() == 0,
        bytes.len() == 0,
    ensures
        items_serialize_as(items, bytes),
{
    assert(items_split_at(items, bytes, seq![0int]));
}

/// Appending the serialized form of one more item.
pub proof fn lemma_items_step<T: MemoryPackSerialize>(items: Seq<T>, i: int, before: Seq<u8>, after: Seq<u8>, start: int)
    requires
        0 <= i < items.len(),
        0 <= start <= before.len(),
        before.is_prefix_of(after),
        items_serialize_as(items.take(i), before.skip(start)),
        items[i].serializes_as(after.skip(before.len() as int)),
    ensures
        items_serialize_as(items.take(i + 1), after.skip(start)),
{
    let cuts = choose|cuts: Seq<int>| #[trigger] items_split_at(items.take(i), before.skip(start), cuts);
    let t = items.take(i + 1);
    let b0 = before.skip(start);
    let b = after.skip(start);
    let j = before.len() - start;
    let cuts2 = cuts.push(b.len() as int);
    assert(before =~= after.subrange(0, before.len() as int));
    assert forall|x: int, y: int| 0 <= x <= y <= t.len() implies #[trigger] cuts2[x] <= #[trigger] cuts2[y] by {
        if y < t.len() {
            assert(cuts2[x] == cuts[x] && cuts2[y] == cuts[y]);
        } else if x < t.len() {
            assert(cuts[x] <= cuts[i]);
        }
    }
    assert forall|k: int| 0 <= k < t.len() implies #[trigger] t[k].serializes_as(b.subrange(cuts2[k], cuts2[k + 1])) by {
        if k < i {
            assert(cuts[k] <= cuts[k + 1]);
            assert(cuts[k + 1] <= cuts[i]);
            assert(t[k] == items.take(i)[k]);
            assert(b.subrange(cuts2[k], cuts2[k + 1]) =~= b0.subrange(cuts[k], cuts[k + 1]));
        } else {
            assert(b.subrange(cuts2[k], cuts2[k + 1]) =~= after.skip(before.len() as int));
        }
    }
    assert(items_split_at(t, b, cuts2));
}

/// Writes the serialized forms of the items one after the other.
pub(crate) fn serialize_items<T: MemoryPackSerialize>(items: &[T], writer: &mut MemoryPackWriter)
    ensures
        old(writer)@.is_prefix_of(final(writer)@),
        items_serialize_as(items@, written(*old(writer), *final(writer))),
{
    let mut i: usize = 0;
    proof {
        assert(writer@.skip(old(writer)@.len() as int) =~= Seq::<u8>::empty());
        lemma_items_empty(items@.take(0), writer@.skip(old(writer)@.len() as int));
        assert(old(writer)@ =~= writer@.subrange(0, old(writer)@.len() as int));
    }
    while i < items.len()
        invariant
            i <= items@.len(),
            old(writer)@.is_prefix_of(writer@),
            items_serialize_as(items@.take(i as int), writer@.skip(old(writer)@.len() as int)),
        decreases items@.len() - i,
    {
        let ghost before = writer@;
        let _ = items[i].serialize(writer);
        proof {
            lemma_items_step(items@, i as int, before, writer@, old(writer)@.len() as int);
            assert(old(writer)@ =~= writer@.subrange(0, old(writer)@.len() as int));
        }
        i = i + 1;
    }
    proof {
        assert(items@.take(items@.len() as int) =~= items@);
    }
}

/// Reads `count` values one after the other.
pub(crate) fn deserialize_items<T: MemoryPackDeserialize>(reader: &mut MemoryPackReader, count: usize) -> (r: Result<Vec<T>, MemoryPackError>)
    requires
        old(reader).wf(),
    ensures
        consumed(*old(reader), *final(reader), decode_items::<T>(old(reader).rest(), count as nat).1),
        match r {
            Ok(v) => decode_items::<T>(old(reader).rest(), count as nat).0 == Ok::<Seq<T::Model>, ErrorKind>(models(v@)),
            Err(e) => decode_items::<T>(old(reader).rest(), count as nat).0 == Err::<Seq<T::Model>, ErrorKind>(e@),
        },
{
    let ghost b = reader.rest();
    let mut result: Vec<T> = Vec::with_capacity(count);
    let mut i: usize = 0;
    proof {
        assert(models(result@) =~= Seq::<T::Model>::empty());
    }
    while i < count
        invariant
            i <= count,
            old(reader).wf(),
            b == old(reader).rest(),
            consumed(*old(reader), *reader, decode_items::<T>(b, i as nat).1),
            decode_items::<T>(b, i as nat).0 == Ok::<Seq<T::Model>, ErrorKind>(models(result@)),
        decreases count - i,
    {
        let ghost m = decode_items::<T>(b, i as nat).1;
        proof {
            assert(0 <= m);
            assert(reader.pos() == old(reader).pos() + m);
            assert(reader.data() == old(reader).data());
            assert(reader.rest().len() == b.skip(m).len());
            assert forall|k: int| 0 <= k < b.skip(m).len() implies reader.rest()[k] == b.skip(m)[k] by {
                assert(b.skip(m)[k] == b[m + k]);
                assert(b[m + k] == old(reader).data()[old(reader).pos() + m + k]);
            }
            assert(reader.rest() =~= b.skip(m));
        }
        match T::deserialize(reader) {
            Ok(v) => {
                proof {
                    assert(models(result@.push(v)) =~= models(result@).push(v.model()));
                }
                result.push(v);
            },
            Err(e) => {
                proof {
                    lemma_decode_items_stops::<T>(b, (i + 1) as nat, count as nat);
                }
                return Err(e);
            },
        }
        i = i + 1;
    }
    Ok(result)
}

/// Once decoding a run of values has failed, decoding more of them fails
/// in the same way.
pub proof fn lemma_decode_items_stops<T: MemoryPackDeserialize>(b: Seq<u8>, i: nat, n: nat)
    requires
        i <= n,
        decode_items::<T>(b, i).0 is Err,
    ensures
        decode_items::<T>(b, n) == decode_items::<T>(b, i),
    decreases n,
{
    if n > i {
        lemma_decode_items_stops::<T>(b, i, (n - 1) as nat);
    }
}

/// Deserializing the serialized forms of items that fit the format gives
/// them back, one after the other, whatever follows.
pub proof fn lemma_items_round_trip<T: MemoryPackRoundTrip>(items: Seq<T>, bytes: Seq<u8>, rest: Seq<u8>)
    requires
        all_fit(items),
        items_serialize_as(items, bytes),
    ensures
        decode_items::<T>(bytes + rest, items.len()) == (Ok::<Seq<T::Model>, ErrorKind>(models(items)), bytes.len() as int),
    decreases items.len(),
{
    let cuts = choose|cuts: Seq<int>| #[trigger] items_split_at(items, bytes, cuts);
    let n = items.len() as int;
    if n == 0 {
        assert(models(items) =~= Seq::<T::Model>::empty());
    } else {
        let c = cuts[n - 1];
        let front = items.drop_last();
        let fb = bytes.take(c);
        assert(cuts[0] <= cuts[n - 1] && cuts[n - 1] <= cuts[n]);
        let fcuts = cuts.drop_last();
        assert forall|x: int, y: int| 0 <= x <= y <= front.len() implies #[trigger] fcuts[x] <= #[trigger] fcuts[y] by {
            assert(cuts[x] <= cuts[y]);
        }
        assert forall|k: int| 0 <= k < front.len() implies #[trigger] front[k].serializes_as(fb.subrange(fcuts[k], fcuts[k + 1])) by {
            assert(cuts[k] <= cuts[k + 1] && cuts[k + 1] <= cuts[n - 1]);
            assert(front[k] == items[k]);
            assert(items[k].serializes_as(bytes.subrange(cuts[k], cuts[k + 1])));
            assert(fb.subrange(fcuts[k], fcuts[k + 1]) =~= bytes.subrange(cuts[k], cuts[k + 1]));
        }
        assert(items_split_at(front, fb, fcuts));
        assert forall|i: int| 0 <= i < front.len() implies #[trigger] front[i].fits_format() by {
            assert(front[i] == items[i]);
        }
        lemma_items_round_trip(front, fb, bytes.skip(c) + rest);
        assert(fb + (bytes.skip(c) + rest) =~= bytes + rest);
        assert(items[n - 1].fits_format());
        assert(items[n - 1].serializes_as(bytes.subrange(cuts[n - 1], cuts[n])));
        assert(bytes.subrange(cuts[n - 1], cuts[n]) =~= bytes.skip(c));
        items[n - 1].lemma_round_trip(bytes.skip(c), rest);
        assert((bytes + rest).skip(c) =~= bytes.skip(c) + rest);
        assert(models(front).push(items[n - 1].model()) =~= models(items));
    }
}

/// A sequence of items that fit the format reads back as itself from a
/// serialized form, whatever follows.
pub proof fn lemma_seq_round_trip<T: MemoryPackRoundTrip>(items: Seq<T>, bytes: Seq<u8>, rest: Seq<u8>)
    requires
        items.len() <= i32::MAX,
        all_fit(items),
        seq_serializes_as(items, bytes),
    ensures
        decode_seq::<T>(bytes + rest) == (Ok::<Seq<T::Model>, ErrorKind>(models(items)), bytes.len() as int),
{
    let all = bytes + rest;
    assert(all =~= encode_i32(items.len() as i32) + (bytes.skip(4) + rest));
    lemma_i32_round_trip(items.len() as i32, bytes.skip(4) + rest);
    assert(all.skip(4) =~= bytes.skip(4) + rest);
    lemma_items_round_trip(items, bytes.skip(4), rest);
    if items.len() == 0 {
        assert(models(items) =~= Seq::<T::Model>::empty());
    }
}

/// Checks a sequence count: `-1` and `0` stand for no elements, any other
/// negative count is refused.
fn validate_size(size: i32) -> (r: Result<Option<usize>, MemoryPackError>)
    ensures
        (size == -1 || size == 0) ==> r == Ok::<Option<usize>, MemoryPackError>(None),
        (size < -1) ==> (r matches Err(e) && e@ == ErrorKind::InvalidLength(size)),
        (size > 0) ==> r == Ok::<Option<usize>, MemoryPackError>(Some(size as usize)),
{
    if size == -1 || size == 0 {
        Ok(None)
    } else if size < 0 {
        Err(MemoryPackError::InvalidLength(size))
    } else {
        Ok(Some(size as usize))
    }
}

/// Writes the element count of a sequence.
fn write_collection_header(writer: &mut MemoryPackWriter, len: usize) -> (r: Result<(), MemoryPackError>)
    ensures
        r is Ok,
        appended(*old(writer), *final(writer), encode_i32(len as i32)),
{
    writer.write_i32(len as i32)
}

/// Reads a sequence: its count, then that many values.
pub(crate) fn deserialize_seq<T: MemoryPackDeserialize>(reader: &mut MemoryPackReader) -> (r: Result<Vec<T>, MemoryPackError>)
    requires
        old(reader).wf(),
    ensures
        consumed(*old(reader), *final(reader), decode_seq::<T>(old(reader).rest()).1),
        match r {
            Ok(v) => decode_seq::<T>(old(reader).rest()).0 == Ok::<Seq<T::Model>, ErrorKind>(models(v@)),
            Err(e) => decode_seq::<T>(old(reader).rest()).0 == Err::<Seq<T::Model>, ErrorKind>(e@),
        },
{
    let ghost b = reader.rest();
    let size = match reader.read_i32() {
        Ok(s) => s,
        Err(e) => return Err(e),
    };
    proof {
        assert(reader.rest() =~= b.skip(4));
    }
    match validate_size(size) {
        Err(e) => Err(e),
        Ok(None) => {
            let v: Vec<T> = Vec::new();
            proof {
                assert(models(v@) =~= Seq::<T::Model>::empty());
            }
            Ok(v)
        },
        Ok(Some(capacity)) => deserialize_items(reader, capacity),
    }
}

impl<T: MemoryPackSerialize> MemoryPackSerialize for Vec<T> {
    open spec fn serializes_as(&self, bytes: Seq<u8>) -> bool {
        seq_serializes_as(self@, bytes)
    }

    fn serialize(&self, writer: &mut MemoryPackWriter) -> (r: Result<(), MemoryPackError>) {
        let _ = write_collection_header(writer, self.len());
        let ghost mid = *writer;
        serialize_items(self.as_slice(), writer);
        proof {
            crate::encoding::lemma_le_bytes_len((self@.len() as i32 as u32) as nat, 4);
            let enc = encode_i32(self@.len() as i32);
            assert(enc.len() == 4);
            assert(mid@ == old(writer)@ + enc);
            assert(mid@ =~= writer@.subrange(0, mid@.len() as int));
            let w = written(*old(writer), *writer);
            assert(w.take(4) =~= mid@.subrange(old(writer)@.len() as int, old(writer)@.len() + 4int));
            assert(w.take(4) =~= encode_i32(self@.len() as i32));
            assert(w.skip(4) =~= written(mid, *writer));
            assert(old(writer)@ =~= writer@.subrange(0, old(writer)@.len() as int));
        }
        Ok(())
    }
}

impl<T: MemoryPackDeserialize> MemoryPackDeserialize for Vec<T> {
    type Model = Seq<T::Model>;

    open spec fn model(&self) -> Seq<T::Model> {
        models(self@)
    }

    open spec fn spec_deserialize(bytes: Seq<u8>) -> Decoded<Seq<T::Model>> {
        decode_seq::<T>(bytes)
    }

    fn deserialize(reader: &mut MemoryPackReader) -> (r: Result<Self, MemoryPackError>) {
        deserialize_seq(reader)
    }
}

impl<T: MemoryPackRoundTrip> MemoryPackRoundTrip for Vec<T> {
    open spec fn fits_format(&self) -> bool {
        self@.len() <= i32::MAX && all_fit(self@)
    }

    proof fn lemma_round_trip(&self, bytes: Seq<u8>, rest: Seq<u8>) {
        lemma_seq_round_trip(self@, bytes, rest);
    }
}

impl<T: MemoryPackSerialize> MemoryPackSerialize for VecDeque<T> {
    open spec fn serializes_as(&self, bytes: Seq<u8>) -> bool {
        seq_serializes_as(self@, bytes)
    }

    fn serialize(&self, writer: &mut MemoryPackWriter) -> (r: Result<(), MemoryPackError>) {
        let _ = write_collection_header(writer, self.len());
        let ghost start = writer@.len() as int;
        let mut i: usize = 0;
        proof {
            crate::encoding::lemma_le_bytes_len((self@.len() as i32 as u32) as nat, 4);
            assert(writer@.skip(start) =~= Seq::<u8>::empty());
            lemma_items_empty(self@.take(0), writer@.skip(start));
        }
        while i < self.len()
            invariant
                i <= self@.len(),
                start == old(writer)@.len() + 4,
                old(writer)@.is_prefix_of(writer@),
                writer@.len() >= start,
                writer@.subrange(old(writer)@.len() as int, start) == encode_i32(self@.len() as i32),
                items_serialize_as(self@.take(i as int), writer@.skip(start)),
            decreases self@.len() - i,
        {
            let ghost before = writer@;
            let _ = self[i].serialize(writer);
            proof {
                lemma_items_step(self@, i as int, before, writer@, start);
                assert(old(writer)@ =~= writer@.subrange(0, old(writer)@.len() as int));
                assert(writer@.subrange(old(writer)@.len() as int, start) =~= before.subrange(old(writer)@.len() as int, start));
            }
            i = i + 1;
        }
        proof {
            let w = written(*old(writer), *writer);
            assert(self@.take(self@.len() as int) =~= self@);
            assert(w.take(4) =~= writer@.subrange(old(writer)@.len() as int, start));
            assert(w.skip(4) =~= writer@.skip(start));
        }
        Ok(())
    }
}

impl<T: MemoryPackDeserialize> MemoryPackDeserialize for VecDeque<T> {
    type Model = Seq<T::Model>;

    open spec fn model(&self) -> Seq<T::Model> {
        models(self@)
    }

    open spec fn spec_deserialize(bytes: Seq<u8>) -> Decoded<Seq<T::Model>> {
        decode_seq::<T>(bytes)
    }

    fn deserialize(reader: &mut MemoryPackReader) -> (r: Result<Self, MemoryPackError>) {
        let ghost b = reader.rest();
        let size = match reader.read_i32() {
            Ok(s) => s,
            Err(e) => return Err(e),
        };
        proof {
            assert(reader.rest() =~= b.skip(4));
        }
        match validate_size(size) {
            Err(e) => Err(e),
            Ok(None) => {
                let v: VecDeque<T> = VecDeque::new();
                proof {
                    assert(models(v@) =~= Seq::<T::Model>::empty());
                }
                Ok(v)
            },
            Ok(Some(capacity)) => {
                let ghost c = reader.rest();
                let ghost p0 = reader.pos();
                let mut result: VecDeque<T> = VecDeque::with_capacity(capacity);
                let mut i: usize = 0;
                proof {
                    assert(models(result@) =~= Seq::<T::Model>::empty());
                }
                while i < capacity
                    invariant
                        i <= capacity,
                        old(reader).wf(),
                        b == old(reader).rest(),
                        c == b.skip(4),
                        reader.wf(),
                        reader.data() == old(reader).data(),
                        p0 == old(reader).pos() + 4,
                        0 <= decode_items::<T>(c, i as nat).1,
                        decode_i32(b).0 == Ok::<i32, ErrorKind>(size),
                        size > 0,
                        capacity == size as usize,
                        reader.pos() == p0 + decode_items::<T>(c, i as nat).1,
                        decode_items::<T>(c, i as nat).0 == Ok::<Seq<T::Model>, ErrorKind>(models(result@)),
                    decreases capacity - i,
                {
                    let ghost m = decode_items::<T>(c, i as nat).1;
                    proof {
                        assert(reader.rest() =~= c.skip(m));
                    }
                    match T::deserialize(reader) {
                        Ok(v) => {
                            proof {
                                assert(models(result@.push(v)) =~= models(result@).push(v.model()));
                            }
                            result.push_back(v);
                        },
                        Err(e) => {
                            proof {
                                assert(decode_items::<T>(c, (i + 1) as nat).0 == Err::<Seq<T::Model>, ErrorKind>(e@));
                                lemma_decode_items_stops::<T>(c, (i + 1) as nat, capacity as nat);
                                assert(decode_items::<T>(c, capacity as nat).0 == Err::<Seq<T::Model>, ErrorKind>(e@));
                            }
                            return Err(e);
                        },
                    }
                    i = i + 1;
                }
                Ok(result)
            },
        }
    }
}

impl<T: MemoryPackRoundTrip> MemoryPackRoundTrip for VecDeque<T> {
    open spec fn fits_format(&self) -> bool {
        self@.len() <= i32::MAX && all_fit(self@)
    }

    proof fn lemma_round_trip(&self, bytes: Seq<u8>, rest: Seq<u8>) {
        lemma_seq_round_trip(self@, bytes, rest);
    }
}

} // verus!
