//! Multi-dimensional arrays: the rank plus one as a byte, each dimension,
//! the element count, then the elements in order.
use crate::encoding::{decode_i32, decode_u8, encode_i32, encode_u8, lemma_i32_round_trip, lemma_u8_round_trip};
use crate::error::{refused_with, Decoded, ErrorKind, MemoryPackError};
use crate::reader::{str_to_string, MemoryPackReader};
use crate::traits::collections::{
    all_fit, decode_items, deserialize_items, items_serialize_as, lemma_items_round_trip, models,
    serialize_items,
};
use crate::traits::{
    consumed, written, MemoryPackDeserialize, MemoryPackRoundTrip, MemoryPackSerialize,
};
use crate::writer::MemoryPackWriter;
use vstd::prelude::*;

verus! {

/// The product of the dimensions.
pub open spec fn dims_product(dims: Seq<usize>) -> nat
    decreases dims.len(),
{
    if dims.len() == 0 {
        1
    } else {
        dims_product(dims.drop_last()) * (dims.last() as nat)
    }
}

/// The dimensions written one after the other as 32-bit integers.
pub open spec fn dims_bytes(dims: Seq<usize>) -> Seq<u8>
    decreases dims.len(),
{
    if dims.len() == 0 {
        Seq::empty()
    } else {
        dims_bytes(dims.drop_last()) + encode_i32(dims.last() as i32)
    }
}

/// The bytes before the elements: the rank plus one (as a byte), the
/// dimensions, and the element count.
pub open spec fn multidim_header(dims: Seq<usize>, count: nat) -> Seq<u8> {
    encode_u8(((dims.len() + 1) % 256) as u8) + dims_bytes(dims) + encode_i32(count as i32)
}

/// Decoding of `n` dimensions; a negative one is refused.
pub open spec fn decode_dims(b: Seq<u8>, n: nat) -> Decoded<Seq<usize>>
    decreases n,
{
    if n == 0 {
        (Ok(Seq::empty()), 0)
    } else {
        let (prev, m) = decode_dims(b, (n - 1) as nat);
        match prev {
            Err(e) => (Err(e), m),
            Ok(ds) => {
                let (r, k) = decode_i32(b.skip(m));
                match r {
                    Err(e) => (Err(e), m + k),
                    Ok(d) => if d < 0 {
                        (Err(ErrorKind::InvalidLength(d)), m + k)
                    } else {
                        (Ok(ds.push(d as usize)), m + k)
                    },
                }
            },
        }
    }
}

/// Decoding of a multi-dimensional array: a rank of zero is refused, as are
/// negative dimensions and a negative element count.
pub open spec fn decode_multidim<T: MemoryPackDeserialize>(b: Seq<u8>) -> Decoded<(Seq<usize>, Seq<T::Model>)> {
    match decode_u8(b).0 {
        Err(e) => (Err(e), 0),
        Ok(rank_plus_1) => {
            let rank: nat = if rank_plus_1 == 0 { 0 } else { (rank_plus_1 - 1) as nat };
            if rank == 0 {
                (Err(ErrorKind::DeserializationError), 1)
            } else {
                let (dr, dm) = decode_dims(b.skip(1), rank);
                match dr {
                    Err(e) => (Err(e), 1 + dm),
                    Ok(dims) => {
                        let after = 1 + dm;
                        let (tr, tk) = decode_i32(b.skip(after));
                        match tr {
                            Err(e) => (Err(e), after + tk),
                            Ok(total) => if total < 0 {
                                (Err(ErrorKind::InvalidLength(total)), after + tk)
                            } else {
                                let (ir, ik) = decode_items::<T>(b.skip(after + tk), total as nat);
                                match ir {
                                    Err(e) => (Err(e), after + tk + ik),
                                    Ok(items) => (Ok((dims, items)), after + tk + ik),
                                }
                            },
                        }
                    },
                }
            }
        },
    }
}

/// An array of any rank, its elements stored in a flat vector.
#[derive(Debug, Clone, PartialEq, Eq)]
pub struct MultiDimArray<T> {
    pub dimensions: Vec<usize>,
    pub data: Vec<T>,
}

impl<T> MultiDimArray<T> {
    /// An array with the given dimensions and elements; there must be as
    /// many elements as the product of the dimensions.
    pub fn new(dimensions: Vec<usize>, data: Vec<T>) -> (a: Self)
        requires
            dims_product(dimensions@) == data@.len(),
        ensures
            a.dimensions@ == dimensions@,
            a.data@ == data@,
    {
        Self { dimensions, data }
    }

    /// The number of dimensions.
    pub fn rank(&self) -> (r: usize)
        ensures
            r == self.dimensions@.len(),
    {
        self.dimensions.len()
    }

    fn total_elements(&self) -> (n: usize)
        ensures
            n == self.data@.len(),
    {
        self.data.len()
    }
}

proof fn lemma_dims_bytes_len(dims: Seq<usize>)
    ensures
        dims_bytes(dims).len() == 4 * dims.len(),
    decreases dims.len(),
{
    if dims.len() > 0 {
        lemma_dims_bytes_len(dims.drop_last());
        crate::encoding::lemma_le_bytes_len(((dims.last() as i32) as u32) as nat, 4);
    }
}

/// Once decoding dimensions has failed, decoding more of them fails in the
/// same way.
proof fn lemma_decode_dims_stops(b: Seq<u8>, i: nat, n: nat)
    requires
        i <= n,
        decode_dims(b, i).0 is Err,
    ensures
        decode_dims(b, n) == decode_dims(b, i),
    decreases n,
{
    if n > i {
        lemma_decode_dims_stops(b, i, (n - 1) as nat);
    }
}

/// Dimensions that fit 32 bits read back as themselves, whatever follows.
proof fn lemma_dims_round_trip(dims: Seq<usize>, rest: Seq<u8>)
    requires
        forall|i: int| 0 <= i < dims.len() ==> #[trigger] dims[i] <= i32::MAX,
    ensures
        decode_dims(dims_bytes(dims) + rest, dims.len()) == (Ok::<Seq<usize>, ErrorKind>(dims), 4 * dims.len() as int),
    decreases dims.len(),
{
    if dims.len() == 0 {
        assert(dims =~= Seq::<usize>::empty());
    } else {
        let front = dims.drop_last();
        let last = dims.last();
        let tail = encode_i32(last as i32) + rest;
        assert forall|i: int| 0 <= i < front.len() implies #[trigger] front[i] <= i32::MAX by {
            assert(front[i] == dims[i]);
        }
        lemma_dims_round_trip(front, tail);
        assert(dims_bytes(dims) + rest =~= dims_bytes(front) + tail);
        lemma_dims_bytes_len(front);
        assert((dims_bytes(front) + tail).skip(4 * front.len() as int) =~= tail);
        assert(dims[dims.len() - 1] <= i32::MAX);
        lemma_i32_round_trip(last as i32, rest);
        assert(front.push((last as i32) as usize) =~= dims);
    }
}

impl<T: MemoryPackSerialize> MemoryPackSerialize for MultiDimArray<T> {
    open spec fn serializes_as(&self, bytes: Seq<u8>) -> bool {
        let h = multidim_header(self.dimensions@, self.data@.len());
        &&& bytes.len() >= h.len()
        &&& bytes.take(h.len() as int) == h
        &&& items_serialize_as(self.data@, bytes.skip(h.len() as int))
    }

    fn serialize(&self, writer: &mut MemoryPackWriter) -> (r: Result<(), MemoryPackError>) {
        let rank = self.rank();
        let _ = writer.write_u8(((rank % 256 + 1) % 256) as u8);
        let ghost w1 = writer@;
        let mut i: usize = 0;
        proof {
            assert(writer@ =~= w1 + dims_bytes(self.dimensions@.take(0)));
        }
        while i < rank
            invariant
                rank == self.dimensions@.len(),
                i <= rank,
                writer@ == w1 + dims_bytes(self.dimensions@.take(i as int)),
            decreases rank - i,
        {
            let dim = self.dimensions[i];
            let _ = writer.write_i32(dim as i32);
            proof {
                let t = self.dimensions@.take(i + 1);
                assert(t.drop_last() =~= self.dimensions@.take(i as int));
                assert(writer@ =~= w1 + dims_bytes(t));
            }
            i = i + 1;
        }
        let _ = writer.write_i32(self.total_elements() as i32);
        let ghost mid = *writer;
        serialize_items(self.data.as_slice(), writer);
        proof {
            let dims = self.dimensions@;
            assert(dims.take(rank as int) =~= dims);
            let h = multidim_header(dims, self.data@.len());
            assert(mid@ =~= old(writer)@ + h);
            assert(mid@ =~= writer@.subrange(0, mid@.len() as int));
            let w = written(*old(writer), *writer);
            assert(w.take(h.len() as int) =~= mid@.subrange(old(writer)@.len() as int, old(writer)@.len() + h.len() as int));
            assert(w.take(h.len() as int) =~= h);
            assert(w.skip(h.len() as int) =~= written(mid, *writer));
            assert(old(writer)@ =~= writer@.subrange(0, old(writer)@.len() as int));
        }
        Ok(())
    }
}

impl<T: MemoryPackDeserialize> MemoryPackDeserialize for MultiDimArray<T> {
    type Model = (Seq<usize>, Seq<T::Model>);

    open spec fn model(&self) -> (Seq<usize>, Seq<T::Model>) {
        (self.dimensions@, models(self.data@))
    }

    open spec fn spec_deserialize(bytes: Seq<u8>) -> Decoded<(Seq<usize>, Seq<T::Model>)> {
        decode_multidim::<T>(bytes)
    }

    /// A rank of zero is refused with its own message.
    fn deserialize(reader: &mut MemoryPackReader) -> (r: Result<Self, MemoryPackError>)
        ensures
            decode_u8(old(reader).rest()).0 matches Ok(v) && v <= 1 ==> refused_with(r, "Invalid array rank"@),
    {
        let ghost b = reader.rest();
        let rank_plus_1 = match reader.read_u8() {
            Ok(v) => v,
            Err(e) => return Err(e),
        };
        let rank = (rank_plus_1 as usize).saturating_sub(1);
        if rank == 0 {
            return Err(MemoryPackError::DeserializationError(str_to_string("Invalid array rank")));
        }
        let ghost c = b.skip(1);
        proof {
            assert(reader.rest() =~= c);
        }
        let mut dimensions: Vec<usize> = Vec::with_capacity(rank);
        let mut i: usize = 0;
        while i < rank
            invariant
                i <= rank,
                rank == rank_plus_1 - 1,
                decode_u8(b).0 == Ok::<u8, ErrorKind>(rank_plus_1),
                old(reader).wf(),
                b == old(reader).rest(),
                c == b.skip(1),
                0 <= decode_dims(c, i as nat).1,
                consumed(*old(reader), *reader, 1 + decode_dims(c, i as nat).1),
                decode_dims(c, i as nat).0 == Ok::<Seq<usize>, ErrorKind>(dimensions@),
            decreases rank - i,
        {
            let ghost m = decode_dims(c, i as nat).1;
            proof {
                assert(reader.rest() =~= c.skip(m));
            }
            let dim = match reader.read_i32() {
                Ok(d) => d,
                Err(e) => {
                    proof {
                        lemma_decode_dims_stops(c, (i + 1) as nat, rank as nat);
                    }
                    return Err(e);
                },
            };
            if dim < 0 {
                proof {
                    lemma_decode_dims_stops(c, (i + 1) as nat, rank as nat);
                }
                return Err(MemoryPackError::InvalidLength(dim));
            }
            dimensions.push(dim as usize);
            i = i + 1;
        }
        let ghost after = 1 + decode_dims(c, rank as nat).1;
        proof {
            assert(reader.rest() =~= b.skip(after));
        }
        let total = match reader.read_i32() {
            Ok(t) => t,
            Err(e) => return Err(e),
        };
        if total < 0 {
            return Err(MemoryPackError::InvalidLength(total));
        }
        proof {
            assert(reader.rest() =~= b.skip(after + 4));
        }
        let data = match deserialize_items(reader, total as usize) {
            Ok(d) => d,
            Err(e) => return Err(e),
        };
        Ok(MultiDimArray { dimensions, data })
    }
}

impl<T: MemoryPackRoundTrip> MemoryPackRoundTrip for MultiDimArray<T> {
    /// The rank is from 1 to 254, and every dimension, the element count
    /// and every element fit the format.
    open spec fn fits_format(&self) -> bool {
        &&& 1 <= self.dimensions@.len() <= 254
        &&& forall|i: int| 0 <= i < self.dimensions@.len() ==> #[trigger] self.dimensions@[i] <= i32::MAX
        &&& self.data@.len() <= i32::MAX
        &&& all_fit(self.data@)
    }

    proof fn lemma_round_trip(&self, bytes: Seq<u8>, rest: Seq<u8>) {
        let dims = self.dimensions@;
        let n = dims.len();
        let count = self.data@.len();
        let h = multidim_header(dims, count);
        let items_bytes = bytes.skip(h.len() as int);
        let all = bytes + rest;
        lemma_dims_bytes_len(dims);
        crate::encoding::lemma_le_bytes_len(((count as i32) as u32) as nat, 4);
        let hb = ((n + 1) % 256) as u8;
        assert(hb == n + 1);
        assert(bytes =~= h + items_bytes);
        let after_dims = encode_i32(count as i32) + (items_bytes + rest);
        assert(all =~= encode_u8(hb) + (dims_bytes(dims) + after_dims));
        lemma_u8_round_trip(hb, dims_bytes(dims) + after_dims);
        assert(all.skip(1) =~= dims_bytes(dims) + after_dims);
        lemma_dims_round_trip(dims, after_dims);
        assert(all.skip(1 + 4 * n as int) =~= after_dims);
        lemma_i32_round_trip(count as i32, items_bytes + rest);
        assert(all.skip(1 + 4 * n as int + 4) =~= items_bytes + rest);
        lemma_items_round_trip(self.data@, items_bytes, rest);
    }
}

} // verus!
