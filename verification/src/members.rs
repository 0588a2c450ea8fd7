//! Member frames: how the version-tolerant and circular layouts of the
//! derive frame the members of a struct. Each member is serialized on its
//! own; the frame gives the member count, the byte length of each member as
//! a variable-length integer, and then the members' bytes, so that a reader
//! can skip the members it does not know.
use crate::encoding::{decode_u8, encode_u8, lemma_u8_round_trip};
use crate::error::{Decoded, ErrorKind, MemoryPackError};
use crate::reader::{advanced, read_as, shifted, MemoryPackReader};
use crate::traits::{consumed, MemoryPackDeserialize, MemoryPackRoundTrip};
use crate::varint::{decode_varint, lemma_varint_round_trip, read_varint, varint_bytes, write_varint};
use crate::writer::{append_bytes, appended, MemoryPackWriter};
use vstd::prelude::*;

verus! {

broadcast use Seq::lemma_flatten_push;

/// The bytes of each buffer.
pub open spec fn buffer_views(bufs: Seq<Vec<u8>>) -> Seq<Seq<u8>> {
    bufs.map_values(|b: Vec<u8>| b@)
}

/// The values `xs` as variable-length integers, one after the other.
pub open spec fn varint_run(xs: Seq<i64>) -> Seq<u8> {
    xs.map_values(|x: i64| varint_bytes(x)).flatten()
}

/// The byte length of each member.
pub open spec fn member_sizes(members: Seq<Seq<u8>>) -> Seq<i64> {
    members.map_values(|m: Seq<u8>| m.len() as i64)
}

/// The byte length of each member, each as a variable-length integer.
pub open spec fn length_varints(members: Seq<Seq<u8>>) -> Seq<u8> {
    varint_run(member_sizes(members))
}

/// The frame of the version-tolerant layout: the member count in one byte,
/// the members' lengths, then the members.
pub open spec fn tolerant_frame(members: Seq<Seq<u8>>) -> Seq<u8> {
    seq![members.len() as u8] + length_varints(members) + members.flatten()
}

/// The lengths that the circular layout gives for `count` members, where
/// `members` holds the written ones first: a member without bytes counts 0.
pub open spec fn circular_sizes(count: nat, members: Seq<Seq<u8>>) -> Seq<i64> {
    Seq::new(count, |i: int| if i < members.len() { members[i].len() as i64 } else { 0 })
}

/// The lengths of the circular layout, as variable-length integers.
pub open spec fn circular_lengths(count: nat, members: Seq<Seq<u8>>) -> Seq<u8> {
    varint_run(circular_sizes(count, members))
}

/// The frame of the circular layout for an object seen for the first time:
/// the member count in one byte, the members' lengths, the object's
/// reference id, then the members.
pub open spec fn circular_frame(count: nat, members: Seq<Seq<u8>>, ref_id: i64) -> Seq<u8> {
    seq![count as u8] + circular_lengths(count, members) + varint_bytes(ref_id) + members.flatten()
}

/// The marker byte of a reference to an object written before.
pub const REFERENCE_MARKER: u8 = 250;

/// The frame of the circular layout for an object written before: the
/// marker, then the object's reference id.
pub open spec fn reference_frame(ref_id: i64) -> Seq<u8> {
    seq![REFERENCE_MARKER] + varint_bytes(ref_id)
}

/// Writes the version-tolerant frame of the members.
pub fn write_tolerant_frame(writer: &mut MemoryPackWriter, members: &Vec<Vec<u8>>) -> (r: Result<(), MemoryPackError>)
    ensures
        r is Ok,
        appended(*old(writer), *final(writer), tolerant_frame(buffer_views(members@))),
{
    let ghost views = buffer_views(members@);
    let _ = writer.write_u8(members.len() as u8);
    let ghost head = writer@;
    let mut i: usize = 0;
    proof {
        assert(member_sizes(views.take(0)).map_values(|x: i64| varint_bytes(x)) =~= Seq::<Seq<u8>>::empty());
        assert(head =~= head + length_varints(views.take(0)));
    }
    while i < members.len()
        invariant
            i <= members@.len(),
            views == buffer_views(members@),
            writer@ == head + length_varints(views.take(i as int)),
            writer.optional_state == old(writer).optional_state,
        decreases members@.len() - i,
    {
        let ghost before = writer@;
        let _ = write_varint(writer, members[i].len() as i64);
        proof {
            let x = views[i as int].len() as i64;
            assert(member_sizes(views.take(i + 1)) =~= member_sizes(views.take(i as int)).push(x));
            lemma_varint_run_push(member_sizes(views.take(i as int)), x);
            assert(writer@ =~= head + length_varints(views.take(i + 1)));
        }
        i = i + 1;
    }
    let ghost lens = writer@;
    let mut j: usize = 0;
    proof {
        assert(views.take(members@.len() as int) =~= views);
        assert(views.take(0).flatten() =~= Seq::<u8>::empty());
        assert(lens =~= lens + views.take(0).flatten());
    }
    while j < members.len()
        invariant
            j <= members@.len(),
            views == buffer_views(members@),
            writer@ == lens + views.take(j as int).flatten(),
            writer.optional_state == old(writer).optional_state,
        decreases members@.len() - j,
    {
        append_bytes(&mut writer.buffer, members[j].as_slice());
        proof {
            assert(views.take(j + 1) =~= views.take(j as int).push(views[j as int]));
            assert(writer@ =~= lens + views.take(j + 1).flatten());
        }
        j = j + 1;
    }
    proof {
        assert(views.take(members@.len() as int) =~= views);
        assert(writer@ =~= old(writer)@ + tolerant_frame(views));
    }
    Ok(())
}

/// Decoding of `count` variable-length integers, one after the other, each
/// taken as a `usize`.
pub open spec fn decode_lengths(b: Seq<u8>, count: nat) -> Decoded<Seq<usize>>
    decreases count,
{
    if count == 0 {
        (Ok(Seq::empty()), 0)
    } else {
        let (prev, m) = decode_lengths(b, (count - 1) as nat);
        match prev {
            Err(e) => (Err(e), m),
            Ok(ls) => {
                let (r, k) = decode_varint(b.skip(m));
                match r {
                    Err(e) => (Err(e), m + k),
                    Ok(v) => (Ok(ls.push(v as usize)), m + k),
                }
            },
        }
    }
}

/// Decoding of the head of a version-tolerant frame: the member count,
/// then that many lengths.
pub open spec fn decode_tolerant_head(b: Seq<u8>) -> Decoded<Seq<usize>> {
    match decode_u8(b).0 {
        Err(e) => (Err(e), 0),
        Ok(count) => shifted(decode_lengths(b.skip(1), count as nat), 1),
    }
}

/// Once decoding a run of lengths has failed, decoding more of them fails
/// in the same way.
pub proof fn lemma_decode_lengths_stops(b: Seq<u8>, i: nat, n: nat)
    requires
        i <= n,
        decode_lengths(b, i).0 is Err,
    ensures
        decode_lengths(b, n) == decode_lengths(b, i),
    decreases n,
{
    if n > i {
        lemma_decode_lengths_stops(b, i, (n - 1) as nat);
    }
}

/// Decoding lengths consumes no negative number of bytes.
pub proof fn lemma_decode_lengths_nonneg(b: Seq<u8>, n: nat)
    ensures
        decode_lengths(b, n).1 >= 0,
    decreases n,
{
    if n > 0 {
        lemma_decode_lengths_nonneg(b, (n - 1) as nat);
    }
}

/// Reads `count` lengths.
fn read_lengths(reader: &mut MemoryPackReader, count: usize) -> (r: Result<Vec<usize>, MemoryPackError>)
    requires
        old(reader).wf(),
    ensures
        advanced(*old(reader), *final(reader), decode_lengths(old(reader).rest(), count as nat).1),
        match r {
            Ok(v) => decode_lengths(old(reader).rest(), count as nat).0 == Ok::<Seq<usize>, ErrorKind>(v@),
            Err(e) => decode_lengths(old(reader).rest(), count as nat).0 == Err::<Seq<usize>, ErrorKind>(e@),
        },
{
    let ghost b = reader.rest();
    let mut result: Vec<usize> = Vec::new();
    let mut i: usize = 0;
    while i < count
        invariant
            i <= count,
            old(reader).wf(),
            b == old(reader).rest(),
            0 <= decode_lengths(b, i as nat).1,
            advanced(*old(reader), *reader, decode_lengths(b, i as nat).1),
            decode_lengths(b, i as nat).0 == Ok::<Seq<usize>, ErrorKind>(result@),
        decreases count - i,
    {
        let ghost m = decode_lengths(b, i as nat).1;
        proof {
            assert(0 <= m);
            assert(reader.rest().len() == b.skip(m).len());
            assert forall|k: int| 0 <= k < b.skip(m).len() implies reader.rest()[k] == b.skip(m)[k] by {
                assert(b.skip(m)[k] == b[m + k]);
                assert(b[m + k] == old(reader).data()[old(reader).pos() + m + k]);
            }
            assert(reader.rest() =~= b.skip(m));
        }
        match read_varint(reader) {
            Ok(v) => {
                result.push(#[verifier::truncate] (v as usize));
            },
            Err(e) => {
                proof {
                    lemma_decode_lengths_stops(b, (i + 1) as nat, count as nat);
                }
                return Err(e);
            },
        }
        i = i + 1;
    }
    Ok(result)
}

/// Reads the head of a version-tolerant frame: the members' lengths.
pub fn read_tolerant_head(reader: &mut MemoryPackReader) -> (r: Result<Vec<usize>, MemoryPackError>)
    requires
        old(reader).wf(),
    ensures
        advanced(*old(reader), *final(reader), decode_tolerant_head(old(reader).rest()).1),
        match r {
            Ok(v) => decode_tolerant_head(old(reader).rest()).0 == Ok::<Seq<usize>, ErrorKind>(v@),
            Err(e) => decode_tolerant_head(old(reader).rest()).0 == Err::<Seq<usize>, ErrorKind>(e@),
        },
{
    let ghost b = reader.rest();
    let count = match reader.read_u8() {
        Ok(c) => c,
        Err(e) => return Err(e),
    };
    proof {
        assert(reader.rest() =~= b.skip(1));
    }
    read_lengths(reader, count as usize)
}

/// Appending a value appends its variable-length form.
pub proof fn lemma_varint_run_push(xs: Seq<i64>, x: i64)
    ensures
        varint_run(xs.push(x)) == varint_run(xs) + varint_bytes(x),
{
    assert(xs.push(x).map_values(|y: i64| varint_bytes(y)) =~= xs.map_values(|y: i64| varint_bytes(y)).push(
        varint_bytes(x),
    ));
}

/// The values as `usize`.
pub open spec fn as_lengths(xs: Seq<i64>) -> Seq<usize> {
    xs.map_values(|x: i64| x as usize)
}

/// A run of variable-length integers reads back as the values, whatever
/// follows.
pub proof fn lemma_lengths_round_trip(xs: Seq<i64>, rest: Seq<u8>)
    ensures
        decode_lengths(varint_run(xs) + rest, xs.len()) == (Ok::<Seq<usize>, ErrorKind>(as_lengths(xs)), varint_run(xs).len() as int),
    decreases xs.len(),
{
    if xs.len() == 0 {
        assert(as_lengths(xs) =~= Seq::<usize>::empty());
        assert(xs.map_values(|y: i64| varint_bytes(y)) =~= Seq::<Seq<u8>>::empty());
    } else {
        let init = xs.drop_last();
        let x = xs.last();
        assert(init.push(x) =~= xs);
        lemma_varint_run_push(init, x);
        let tail = varint_bytes(x) + rest;
        let b = varint_run(xs) + rest;
        assert(b =~= varint_run(init) + tail);
        lemma_lengths_round_trip(init, tail);
        assert(b.skip(varint_run(init).len() as int) =~= tail);
        lemma_varint_round_trip(x, rest);
        assert(as_lengths(xs) =~= as_lengths(init).push(x as usize));
    }
}

/// The lengths of the members, as `usize`.
pub open spec fn member_lengths(members: Seq<Seq<u8>>) -> Seq<usize> {
    as_lengths(member_sizes(members))
}

/// The head of a version-tolerant frame reads back as the members'
/// lengths, whatever follows, when there are at most 255 members (the
/// count has one byte) and each length fits a 64-bit integer.
pub proof fn lemma_tolerant_head_round_trip(members: Seq<Seq<u8>>, rest: Seq<u8>)
    requires
        members.len() <= 255,
    ensures
        decode_tolerant_head(tolerant_frame(members) + rest)
            == (Ok::<Seq<usize>, ErrorKind>(member_lengths(members)), 1 + length_varints(members).len() as int),
{
    let c = members.len() as u8;
    let tail = length_varints(members) + (members.flatten() + rest);
    let b = tolerant_frame(members) + rest;
    assert(b =~= encode_u8(c) + tail);
    lemma_u8_round_trip(c, tail);
    assert(b.skip(1) =~= tail);
    lemma_lengths_round_trip(member_sizes(members), members.flatten() + rest);
}

/// What the head of a circular frame says.
pub enum CircularHeadView {
    /// The object was written before, under this reference id.
    Reference(u32),
    /// The object's members' lengths and its reference id.
    Members(Seq<usize>, u32),
}

/// The head of a circular frame, as read.
pub enum CircularHead {
    Reference(u32),
    Members { lengths: Vec<usize>, ref_id: u32 },
}

impl View for CircularHead {
    type V = CircularHeadView;

    open spec fn view(&self) -> CircularHeadView {
        match self {
            CircularHead::Reference(id) => CircularHeadView::Reference(*id),
            CircularHead::Members { lengths, ref_id } => CircularHeadView::Members(lengths@, *ref_id),
        }
    }
}

/// Decoding of the head of a circular frame: the marker and a reference
/// id, or the member count, the lengths and the object's reference id. The
/// ids are taken as `u32`.
pub open spec fn decode_circular_head(b: Seq<u8>) -> Decoded<CircularHeadView> {
    match decode_u8(b).0 {
        Err(e) => (Err(e), 0),
        Ok(first) => if first == REFERENCE_MARKER {
            let d = decode_varint(b.skip(1));
            match d.0 {
                Err(e) => (Err(e), 1 + d.1),
                Ok(id) => (Ok(CircularHeadView::Reference(id as u32)), 1 + d.1),
            }
        } else {
            let (ls, m) = decode_lengths(b.skip(1), first as nat);
            match ls {
                Err(e) => (Err(e), 1 + m),
                Ok(lengths) => {
                    let d = decode_varint(b.skip(1 + m));
                    match d.0 {
                        Err(e) => (Err(e), 1 + m + d.1),
                        Ok(id) => (Ok(CircularHeadView::Members(lengths, id as u32)), 1 + m + d.1),
                    }
                },
            }
        },
    }
}

/// Writes the circular frame of an object written before.
pub fn write_reference_frame(writer: &mut MemoryPackWriter, ref_id: u32) -> (r: Result<(), MemoryPackError>)
    ensures
        r is Ok,
        appended(*old(writer), *final(writer), reference_frame(ref_id as i64)),
{
    let _ = writer.write_u8(REFERENCE_MARKER);
    let _ = write_varint(writer, ref_id as i64);
    proof {
        assert(writer@ =~= old(writer)@ + reference_frame(ref_id as i64));
    }
    Ok(())
}

/// Writes the circular frame of an object seen for the first time: `count`
/// members, of which `members` holds the written ones first.
pub fn write_circular_frame(writer: &mut MemoryPackWriter, count: usize, members: &Vec<Vec<u8>>, ref_id: u32) -> (r: Result<(), MemoryPackError>)
    ensures
        r is Ok,
        appended(*old(writer), *final(writer), circular_frame(count as nat, buffer_views(members@), ref_id as i64)),
{
    let ghost views = buffer_views(members@);
    let _ = writer.write_u8(count as u8);
    let ghost head = writer@;
    let ghost sizes = circular_sizes(count as nat, views);
    let mut i: usize = 0;
    proof {
        assert(sizes.take(0).map_values(|x: i64| varint_bytes(x)) =~= Seq::<Seq<u8>>::empty());
        assert(head =~= head + varint_run(sizes.take(0)));
    }
    while i < count
        invariant
            i <= count,
            views == buffer_views(members@),
            sizes == circular_sizes(count as nat, views),
            writer@ == head + varint_run(sizes.take(i as int)),
            writer.optional_state == old(writer).optional_state,
        decreases count - i,
    {
        let len: i64 = if i < members.len() {
            members[i].len() as i64
        } else {
            0
        };
        let _ = write_varint(writer, len);
        proof {
            assert(sizes[i as int] == len);
            assert(sizes.take(i + 1) =~= sizes.take(i as int).push(len));
            lemma_varint_run_push(sizes.take(i as int), len);
        }
        i = i + 1;
    }
    proof {
        assert(sizes.take(count as int) =~= sizes);
        assert(writer@ == old(writer)@ + seq![count as u8] + varint_run(sizes));
    }
    let _ = write_varint(writer, ref_id as i64);
    let ghost lens = writer@;
    assert(lens == old(writer)@ + seq![count as u8] + varint_run(sizes) + varint_bytes(ref_id as i64));
    let mut j: usize = 0;
    proof {
        assert(views.take(0).flatten() =~= Seq::<u8>::empty());
        assert(lens =~= lens + views.take(0).flatten());
    }
    while j < members.len()
        invariant
            j <= members@.len(),
            views == buffer_views(members@),
            writer@ == lens + views.take(j as int).flatten(),
            writer.optional_state == old(writer).optional_state,
        decreases members@.len() - j,
    {
        append_bytes(&mut writer.buffer, members[j].as_slice());
        proof {
            assert(views.take(j + 1) =~= views.take(j as int).push(views[j as int]));
        }
        j = j + 1;
    }
    proof {
        assert(views.take(members@.len() as int) =~= views);
        assert(writer@ =~= old(writer)@ + circular_frame(count as nat, views, ref_id as i64));
    }
    Ok(())
}

/// Reads the head of a circular frame.
pub fn read_circular_head(reader: &mut MemoryPackReader) -> (r: Result<CircularHead, MemoryPackError>)
    requires
        old(reader).wf(),
    ensures
        advanced(*old(reader), *final(reader), decode_circular_head(old(reader).rest()).1),
        match r {
            Ok(h) => decode_circular_head(old(reader).rest()).0 == Ok::<CircularHeadView, ErrorKind>(h@),
            Err(e) => decode_circular_head(old(reader).rest()).0 == Err::<CircularHeadView, ErrorKind>(e@),
        },
{
    let ghost b = reader.rest();
    let first = match reader.read_u8() {
        Ok(c) => c,
        Err(e) => return Err(e),
    };
    proof {
        assert(reader.rest() =~= b.skip(1));
    }
    if first == REFERENCE_MARKER {
        return match read_varint(reader) {
            Ok(id) => Ok(CircularHead::Reference(#[verifier::truncate] (id as u32))),
            Err(e) => Err(e),
        };
    }
    let lengths = match read_lengths(reader, first as usize) {
        Ok(v) => v,
        Err(e) => return Err(e),
    };
    let ghost m = decode_lengths(b.skip(1), first as nat).1;
    proof {
        lemma_decode_lengths_nonneg(b.skip(1), first as nat);
        assert(reader.rest().len() == b.skip(1 + m).len());
        assert forall|k: int| 0 <= k < b.skip(1 + m).len() implies reader.rest()[k] == b.skip(1 + m)[k] by {
            assert(b.skip(1 + m)[k] == b[1 + m + k]);
            assert(b[1 + m + k] == old(reader).data()[old(reader).pos() + 1 + m + k]);
        }
        assert(reader.rest() =~= b.skip(1 + m));
    }
    match read_varint(reader) {
        Ok(id) => Ok(CircularHead::Members { lengths, ref_id: #[verifier::truncate] (id as u32) }),
        Err(e) => Err(e),
    }
}

/// The lengths that a circular frame gives.
pub open spec fn circular_member_lengths(count: nat, members: Seq<Seq<u8>>) -> Seq<usize> {
    as_lengths(circular_sizes(count, members))
}

/// The head of a circular frame for an object seen for the first time
/// reads back as its lengths and reference id, whatever follows, when the
/// member count fits its byte and is not the reference marker.
pub proof fn lemma_circular_head_round_trip(count: nat, members: Seq<Seq<u8>>, ref_id: u32, rest: Seq<u8>)
    requires
        count <= 255,
        count != REFERENCE_MARKER,
    ensures
        decode_circular_head(circular_frame(count, members, ref_id as i64) + rest) == (
            Ok::<CircularHeadView, ErrorKind>(
                CircularHeadView::Members(circular_member_lengths(count, members), ref_id),
            ),
            1 + circular_lengths(count, members).len() + varint_bytes(ref_id as i64).len() as int,
        ),
{
    let c = count as u8;
    let vid = varint_bytes(ref_id as i64);
    let tail = circular_lengths(count, members) + (vid + (members.flatten() + rest));
    let b = circular_frame(count, members, ref_id as i64) + rest;
    assert(b =~= encode_u8(c) + tail);
    lemma_u8_round_trip(c, tail);
    assert(b.skip(1) =~= tail);
    lemma_lengths_round_trip(circular_sizes(count, members), vid + (members.flatten() + rest));
    let m = circular_lengths(count, members).len() as int;
    assert(b.skip(1 + m) =~= vid + (members.flatten() + rest));
    lemma_varint_round_trip(ref_id as i64, members.flatten() + rest);
}

/// The circular frame of an object written before reads back as its
/// reference id, whatever follows.
pub proof fn lemma_reference_round_trip(ref_id: u32, rest: Seq<u8>)
    ensures
        decode_circular_head(reference_frame(ref_id as i64) + rest) == (
            Ok::<CircularHeadView, ErrorKind>(CircularHeadView::Reference(ref_id)),
            1 + varint_bytes(ref_id as i64).len() as int,
        ),
{
    let tail = varint_bytes(ref_id as i64) + rest;
    let b = reference_frame(ref_id as i64) + rest;
    assert(b =~= encode_u8(REFERENCE_MARKER) + tail);
    lemma_u8_round_trip(REFERENCE_MARKER, tail);
    assert(b.skip(1) =~= tail);
    lemma_varint_round_trip(ref_id as i64, rest);
}

/// The member of order `order` is in the frame with some bytes.
pub open spec fn member_present(lengths: Seq<usize>, order: int) -> bool {
    0 <= order < lengths.len() && lengths[order] > 0
}

/// Decoding of the member of order `order` of a frame with the given
/// lengths: its value when it is present, and nothing, with no byte read,
/// when it is absent or empty.
pub open spec fn decode_member<T: MemoryPackDeserialize>(b: Seq<u8>, lengths: Seq<usize>, order: int) -> Decoded<Option<T::Model>> {
    if member_present(lengths, order) {
        let d = T::spec_deserialize(b);
        match d.0 {
            Ok(v) => (Ok(Some(v)), d.1),
            Err(e) => (Err(e), d.1),
        }
    } else {
        (Ok(None), 0)
    }
}

/// The value of an optional member, as a model.
pub open spec fn optional_model<T: MemoryPackDeserialize>(o: Option<T>) -> Option<T::Model> {
    match o {
        Some(v) => Some(v.model()),
        None => None,
    }
}

/// Reads the member of order `order`: its value when the frame has it with
/// some bytes, and `None` otherwise.
pub fn read_member<T: MemoryPackDeserialize>(reader: &mut MemoryPackReader, lengths: &[usize], order: usize) -> (r: Result<Option<T>, MemoryPackError>)
    requires
        old(reader).wf(),
    ensures
        consumed(*old(reader), *final(reader), decode_member::<T>(old(reader).rest(), lengths@, order as int).1),
        match r {
            Ok(o) => decode_member::<T>(old(reader).rest(), lengths@, order as int).0 == Ok::<Option<T::Model>, ErrorKind>(optional_model(o)),
            Err(e) => decode_member::<T>(old(reader).rest(), lengths@, order as int).0 == Err::<Option<T::Model>, ErrorKind>(e@),
        },
{
    if order < lengths.len() && lengths[order] > 0 {
        match T::deserialize(reader) {
            Ok(v) => Ok(Some(v)),
            Err(e) => Err(e),
        }
    } else {
        Ok(None)
    }
}

/// The marker that stands for an absent boxed member.
pub const ABSENT_MARKER: u8 = 255;

/// Decoding of an optional boxed member of order `order`: when present, a
/// first byte of 255 stands for `None`; otherwise the value is read from
/// the member's first byte on.
pub open spec fn decode_boxed_member<T: MemoryPackDeserialize>(b: Seq<u8>, lengths: Seq<usize>, order: int) -> Decoded<Option<T::Model>> {
    if member_present(lengths, order) {
        match crate::encoding::decode_u8(b).0 {
            Err(e) => (Err(e), 0),
            Ok(first) => if first == ABSENT_MARKER {
                (Ok(None), 1)
            } else {
                let d = T::spec_deserialize(b);
                match d.0 {
                    Ok(v) => (Ok(Some(v)), d.1),
                    Err(e) => (Err(e), d.1),
                }
            },
        }
    } else {
        (Ok(None), 0)
    }
}

/// Reads an optional boxed member of order `order`.
pub fn read_boxed_member<T: MemoryPackDeserialize>(reader: &mut MemoryPackReader, lengths: &[usize], order: usize) -> (r: Result<Option<Box<T>>, MemoryPackError>)
    requires
        old(reader).wf(),
    ensures
        consumed(*old(reader), *final(reader), decode_boxed_member::<T>(old(reader).rest(), lengths@, order as int).1),
        match r {
            Ok(o) => decode_boxed_member::<T>(old(reader).rest(), lengths@, order as int).0 == Ok::<Option<T::Model>, ErrorKind>(
                match o {
                    Some(v) => Some((*v).model()),
                    None => None,
                },
            ),
            Err(e) => decode_boxed_member::<T>(old(reader).rest(), lengths@, order as int).0 == Err::<Option<T::Model>, ErrorKind>(e@),
        },
{
    if order < lengths.len() && lengths[order] > 0 {
        let ghost r0 = *reader;
        let first = match reader.read_u8() {
            Ok(b) => b,
            Err(e) => return Err(e),
        };
        if first == ABSENT_MARKER {
            return Ok(None);
        }
        match reader.rewind(1) {
            Ok(()) => {},
            Err(e) => return Err(e),
        }
        proof {
            assert(reader.rest() =~= r0.rest());
        }
        match T::deserialize(reader) {
            Ok(v) => Ok(Some(Box::new(v))),
            Err(e) => Err(e),
        }
    } else {
        Ok(None)
    }
}

/// Decoding of a run of skipped members with the given lengths.
pub open spec fn decode_skips(b: Seq<u8>, lengths: Seq<usize>) -> Decoded<()>
    decreases lengths.len(),
{
    if lengths.len() == 0 {
        (Ok(()), 0)
    } else if lengths[0] > b.len() {
        (Err(ErrorKind::UnexpectedEndOfBuffer), 0)
    } else {
        shifted(decode_skips(b.skip(lengths[0] as int), lengths.drop_first()), lengths[0] as int)
    }
}

/// The lengths from order `from` on.
pub open spec fn lengths_from(lengths: Seq<usize>, from: int) -> Seq<usize> {
    if from < lengths.len() {
        lengths.skip(from)
    } else {
        Seq::empty()
    }
}

/// Skips the members from order `from` on.
pub fn skip_members(reader: &mut MemoryPackReader, lengths: &[usize], from: usize) -> (r: Result<(), MemoryPackError>)
    requires
        old(reader).wf(),
    ensures
        advanced(*old(reader), *final(reader), decode_skips(old(reader).rest(), lengths_from(lengths@, from as int)).1),
        matches_unit(r, decode_skips(old(reader).rest(), lengths_from(lengths@, from as int)).0),
{
    let ghost b = old(reader).rest();
    let ghost all = lengths_from(lengths@, from as int);
    let mut i: usize = from;
    let ghost mut m: int = 0;
    if from >= lengths.len() {
        return Ok(());
    }
    proof {
        assert(b.skip(0) =~= b);
    }
    while i < lengths.len()
        invariant
            from <= i <= lengths@.len(),
            b == old(reader).rest(),
            all == lengths_from(lengths@, from as int),
            0 <= m <= b.len(),
            advanced(*old(reader), *reader, m),
            reader.rest() == b.skip(m),
            decode_skips(b, all) == shifted(decode_skips(b.skip(m), lengths@.skip(i as int)), m),
        decreases lengths@.len() - i,
    {
        let n = lengths[i];
        let ghost rest_l = lengths@.skip(i as int);
        proof {
            assert(rest_l[0] == n);
            assert(rest_l.drop_first() =~= lengths@.skip(i + 1));
        }
        let ghost before = *reader;
        match reader.skip(n) {
            Ok(()) => {},
            Err(e) => {
                return Err(e);
            },
        }
        proof {
            assert(n <= before.rest().len());
            assert(b.skip(m).skip(n as int) =~= b.skip(m + n));
            m = m + n;
            assert(reader.rest() =~= b.skip(m));
        }
        i = i + 1;
    }
    proof {
        assert(lengths@.skip(i as int).len() == 0);
    }
    Ok(())
}

/// `r` is the run-time counterpart of a unit outcome.
pub open spec fn matches_unit(r: Result<(), MemoryPackError>, o: Result<(), ErrorKind>) -> bool {
    match r {
        Ok(_) => o is Ok,
        Err(e) => o == Err::<(), ErrorKind>(e@),
    }
}

/// A value written as a member of a frame that records its length reads
/// back as that member, consuming exactly its bytes, whatever follows.
pub proof fn lemma_member_round_trip<T: MemoryPackRoundTrip>(
    v: T,
    bytes: Seq<u8>,
    rest: Seq<u8>,
    lengths: Seq<usize>,
    order: int,
)
    requires
        v.fits_format(),
        v.serializes_as(bytes),
        0 <= order < lengths.len(),
        lengths[order] == bytes.len(),
        bytes.len() > 0,
    ensures
        decode_member::<T>(bytes + rest, lengths, order)
            == (Ok::<Option<T::Model>, ErrorKind>(Some(v.model())), bytes.len() as int),
{
    v.lemma_round_trip(bytes, rest);
}

/// The members of a frame, whatever they hold, are skipped by their
/// lengths, consuming exactly their bytes, whatever follows.
pub proof fn lemma_skip_round_trip(members: Seq<Seq<u8>>, rest: Seq<u8>)
    requires
        forall|i: int| 0 <= i < members.len() ==> #[trigger] members[i].len() <= i64::MAX && members[i].len() <= usize::MAX,
    ensures
        decode_skips(members.flatten() + rest, member_lengths(members))
            == (Ok::<(), ErrorKind>(()), members.flatten().len() as int),
    decreases members.len(),
{
    if members.len() > 0 {
        let m0 = members[0];
        let tail = members.drop_first();
        assert forall|i: int| 0 <= i < tail.len() implies #[trigger] tail[i].len() <= i64::MAX && tail[i].len() <= usize::MAX by {
            assert(tail[i] == members[i + 1]);
        }
        lemma_skip_round_trip(tail, rest);
        let b = members.flatten() + rest;
        assert(members.flatten() == m0 + tail.flatten());
        assert(b =~= m0 + (tail.flatten() + rest));
        assert(member_sizes(members)[0] == m0.len() as i64);
        assert(member_lengths(members)[0] == m0.len());
        assert(b.skip(m0.len() as int) =~= tail.flatten() + rest);
        assert(member_lengths(members).drop_first() =~= member_lengths(tail));
    } else {
        assert(member_lengths(members) =~= Seq::<usize>::empty());
    }
}

} // verus!
