//! Tuples: the elements one after the other.
use crate::error::{Decoded, MemoryPackError};
use crate::reader::MemoryPackReader;
use crate::traits::{MemoryPackDeserialize, MemoryPackRoundTrip, MemoryPackSerialize};
use crate::writer::MemoryPackWriter;
use vstd::prelude::*;

verus! {

impl<T1: MemoryPackSerialize> MemoryPackSerialize for (T1,) {
    open spec fn serializes_as(&self, bytes: Seq<u8>) -> bool {
        self.0.serializes_as(bytes)
    }

    fn serialize(&self, writer: &mut MemoryPackWriter) -> (r: Result<(), MemoryPackError>) {
        let ghost w0 = writer@;
        let _ = self.0.serialize(writer);
        let ghost w1 = writer@;
        proof {
            assert(w0 =~= w1.subrange(0, w0.len() as int));
        }
        proof {
            let w = w1.skip(w0.len() as int);
            assert(w.subrange(0, w1.len() - w0.len()) =~= w1.skip(w0.len() as int));
            assert(w.subrange(0, w.len() as int) =~= w);
        }
        Ok(())
    }
}

impl<T1: MemoryPackDeserialize> MemoryPackDeserialize for (T1,) {
    type Model = (T1::Model,);

    open spec fn model(&self) -> (T1::Model,) {
        (self.0.model(),)
    }

    open spec fn spec_deserialize(bytes: Seq<u8>) -> Decoded<(T1::Model,)> {
        { let (r0, k0) = T1::spec_deserialize(bytes); match r0 { Err(e) => (Err(e), k0), Ok(v0) => (Ok((v0,)), k0) } }
    }

    fn deserialize(reader: &mut MemoryPackReader) -> (r: Result<Self, MemoryPackError>) {
        let ghost b = reader.rest();
        let ghost p0 = reader.pos();
        proof {
            assert(reader.rest() =~= b.skip(reader.pos() - p0));
        }
        let v0 = match T1::deserialize(reader) {
            Ok(v) => v,
            Err(e) => return Err(e),
        };
        Ok((v0,))
    }
}

impl<T1: MemoryPackRoundTrip> MemoryPackRoundTrip for (T1,) {
    open spec fn fits_format(&self) -> bool {
        self.0.fits_format()
    }

    proof fn lemma_round_trip(&self, bytes: Seq<u8>, rest: Seq<u8>) {
        self.0.lemma_round_trip(bytes, rest);
    }
}

impl<T1: MemoryPackSerialize, T2: MemoryPackSerialize> MemoryPackSerialize for (T1, T2) {
    open spec fn serializes_as(&self, bytes: Seq<u8>) -> bool {
        exists|j1: int| #![trigger self.0.serializes_as(bytes.subrange(0, j1)), self.1.serializes_as(bytes.subrange(j1, bytes.len() as int))] 0 <= j1 <= bytes.len() && self.0.serializes_as(bytes.subrange(0, j1)) && self.1.serializes_as(bytes.subrange(j1, bytes.len() as int))
    }

    fn serialize(&self, writer: &mut MemoryPackWriter) -> (r: Result<(), MemoryPackError>) {
        let ghost w0 = writer@;
        let _ = self.0.serialize(writer);
        let ghost w1 = writer@;
        proof {
            assert(w0 =~= w1.subrange(0, w0.len() as int));
        }
        let _ = self.1.serialize(writer);
        let ghost w2 = writer@;
        proof {
            assert(w1 =~= w2.subrange(0, w1.len() as int));
        }
        proof {
            assert(w0 =~= w2.subrange(0, w0.len() as int));
            let w = w2.skip(w0.len() as int);
            assert(w.subrange(0, w1.len() - w0.len()) =~= w1.skip(w0.len() as int));
            assert(w.subrange(w1.len() - w0.len(), w2.len() - w0.len()) =~= w2.skip(w1.len() as int));
            let j1 = w1.len() - w0.len();
            assert(self.0.serializes_as(w.subrange(0, j1)) && self.1.serializes_as(w.subrange(j1, w.len() as int)));
        }
        Ok(())
    }
}

impl<T1: MemoryPackDeserialize, T2: MemoryPackDeserialize> MemoryPackDeserialize for (T1, T2) {
    type Model = (T1::Model, T2::Model);

    open spec fn model(&self) -> (T1::Model, T2::Model) {
        (self.0.model(), self.1.model())
    }

    open spec fn spec_deserialize(bytes: Seq<u8>) -> Decoded<(T1::Model, T2::Model)> {
        { let (r0, k0) = T1::spec_deserialize(bytes); match r0 { Err(e) => (Err(e), k0), Ok(v0) => { let (r1, k1) = T2::spec_deserialize(bytes.skip(k0)); match r1 { Err(e) => (Err(e), k0 + k1), Ok(v1) => (Ok((v0, v1)), k0 + k1) } } } }
    }

    fn deserialize(reader: &mut MemoryPackReader) -> (r: Result<Self, MemoryPackError>) {
        let ghost b = reader.rest();
        let ghost p0 = reader.pos();
        proof {
            assert(reader.rest() =~= b.skip(reader.pos() - p0));
        }
        let v0 = match T1::deserialize(reader) {
            Ok(v) => v,
            Err(e) => return Err(e),
        };
        proof {
            assert(reader.rest() =~= b.skip(reader.pos() - p0));
        }
        let v1 = match T2::deserialize(reader) {
            Ok(v) => v,
            Err(e) => return Err(e),
        };
        Ok((v0, v1))
    }
}

impl<T1: MemoryPackRoundTrip, T2: MemoryPackRoundTrip> MemoryPackRoundTrip for (T1, T2) {
    open spec fn fits_format(&self) -> bool {
        self.0.fits_format() && self.1.fits_format()
    }

    proof fn lemma_round_trip(&self, bytes: Seq<u8>, rest: Seq<u8>) {
        let j1 = choose|j1: int| #![trigger self.0.serializes_as(bytes.subrange(0, j1)), self.1.serializes_as(bytes.subrange(j1, bytes.len() as int))] 0 <= j1 <= bytes.len() && self.0.serializes_as(bytes.subrange(0, j1)) && self.1.serializes_as(bytes.subrange(j1, bytes.len() as int));
        let all = bytes + rest;
        assert(all =~= bytes.subrange(0, j1) + (bytes.skip(j1) + rest));
        self.0.lemma_round_trip(bytes.subrange(0, j1), bytes.skip(j1) + rest);
        assert(all.skip(j1) =~= bytes.subrange(j1, bytes.len() as int) + (bytes.skip(bytes.len() as int) + rest));
        self.1.lemma_round_trip(bytes.subrange(j1, bytes.len() as int), bytes.skip(bytes.len() as int) + rest);
    }
}

impl<T1: MemoryPackSerialize, T2: MemoryPackSerialize, T3: MemoryPackSerialize> MemoryPackSerialize for (T1, T2, T3) {
    open spec fn serializes_as(&self, bytes: Seq<u8>) -> bool {
        exists|j1: int, j2: int| #![trigger self.0.serializes_as(bytes.subrange(0, j1)), self.1.serializes_as(bytes.subrange(j1, j2)), self.2.serializes_as(bytes.subrange(j2, bytes.len() as int))] 0 <= j1 <= j2 <= bytes.len() && self.0.serializes_as(bytes.subrange(0, j1)) && self.1.serializes_as(bytes.subrange(j1, j2)) && self.2.serializes_as(bytes.subrange(j2, bytes.len() as int))
    }

    fn serialize(&self, writer: &mut MemoryPackWriter) -> (r: Result<(), MemoryPackError>) {
        let ghost w0 = writer@;
        let _ = self.0.serialize(writer);
        let ghost w1 = writer@;
        proof {
            assert(w0 =~= w1.subrange(0, w0.len() as int));
        }
        let _ = self.1.serialize(writer);
        let ghost w2 = writer@;
        proof {
            assert(w1 =~= w2.subrange(0, w1.len() as int));
        }
        let _ = self.2.serialize(writer);
        let ghost w3 = writer@;
        proof {
            assert(w2 =~= w3.subrange(0, w2.len() as int));
        }
        proof {
            assert(w1 =~= w3.subrange(0, w1.len() as int));
            assert(w0 =~= w3.subrange(0, w0.len() as int));
            let w = w3.skip(w0.len() as int);
            assert(w.subrange(0, w1.len() - w0.len()) =~= w1.skip(w0.len() as int));
            assert(w.subrange(w1.len() - w0.len(), w2.len() - w0.len()) =~= w2.skip(w1.len() as int));
            assert(w.subrange(w2.len() - w0.len(), w3.len() - w0.len()) =~= w3.skip(w2.len() as int));
            let (j1, j2) = (w1.len() - w0.len(), w2.len() - w0.len());
            assert(self.0.serializes_as(w.subrange(0, j1)) && self.1.serializes_as(w.subrange(j1, j2)) && self.2.serializes_as(w.subrange(j2, w.len() as int)));
        }
        Ok(())
    }
}

impl<T1: MemoryPackDeserialize, T2: MemoryPackDeserialize, T3: MemoryPackDeserialize> MemoryPackDeserialize for (T1, T2, T3) {
    type Model = (T1::Model, T2::Model, T3::Model);

    open spec fn model(&self) -> (T1::Model, T2::Model, T3::Model) {
        (self.0.model(), self.1.model(), self.2.model())
    }

    open spec fn spec_deserialize(bytes: Seq<u8>) -> Decoded<(T1::Model, T2::Model, T3::Model)> {
        { let (r0, k0) = T1::spec_deserialize(bytes); match r0 { Err(e) => (Err(e), k0), Ok(v0) => { let (r1, k1) = T2::spec_deserialize(bytes.skip(k0)); match r1 { Err(e) => (Err(e), k0 + k1), Ok(v1) => { let (r2, k2) = T3::spec_deserialize(bytes.skip(k0 + k1)); match r2 { Err(e) => (Err(e), k0 + k1 + k2), Ok(v2) => (Ok((v0, v1, v2)), k0 + k1 + k2) } } } } } }
    }

    fn deserialize(reader: &mut MemoryPackReader) -> (r: Result<Self, MemoryPackError>) {
        let ghost b = reader.rest();
        let ghost p0 = reader.pos();
        proof {
            assert(reader.rest() =~= b.skip(reader.pos() - p0));
        }
        let v0 = match T1::deserialize(reader) {
            Ok(v) => v,
            Err(e) => return Err(e),
        };
        proof {
            assert(reader.rest() =~= b.skip(reader.pos() - p0));
        }
        let v1 = match T2::deserialize(reader) {
            Ok(v) => v,
            Err(e) => return Err(e),
        };
        proof {
            assert(reader.rest() =~= b.skip(reader.pos() - p0));
        }
        let v2 = match T3::deserialize(reader) {
            Ok(v) => v,
            Err(e) => return Err(e),
        };
        Ok((v0, v1, v2))
    }
}

impl<T1: MemoryPackRoundTrip, T2: MemoryPackRoundTrip, T3: MemoryPackRoundTrip> MemoryPackRoundTrip for (T1, T2, T3) {
    open spec fn fits_format(&self) -> bool {
        self.0.fits_format() && self.1.fits_format() && self.2.fits_format()
    }

    proof fn lemma_round_trip(&self, bytes: Seq<u8>, rest: Seq<u8>) {
        let (j1, j2) = choose|j1: int, j2: int| #![trigger self.0.serializes_as(bytes.subrange(0, j1)), self.1.serializes_as(bytes.subrange(j1, j2)), self.2.serializes_as(bytes.subrange(j2, bytes.len() as int))] 0 <= j1 <= j2 <= bytes.len() && self.0.serializes_as(bytes.subrange(0, j1)) && self.1.serializes_as(bytes.subrange(j1, j2)) && self.2.serializes_as(bytes.subrange(j2, bytes.len() as int));
        let all = bytes + rest;
        assert(all =~= bytes.subrange(0, j1) + (bytes.skip(j1) + rest));
        self.0.lemma_round_trip(bytes.subrange(0, j1), bytes.skip(j1) + rest);
        assert(all.skip(j1) =~= bytes.subrange(j1, j2) + (bytes.skip(j2) + rest));
        self.1.lemma_round_trip(bytes.subrange(j1, j2), bytes.skip(j2) + rest);
        assert(all.skip(j2) =~= bytes.subrange(j2, bytes.len() as int) + (bytes.skip(bytes.len() as int) + rest));
        self.2.lemma_round_trip(bytes.subrange(j2, bytes.len() as int), bytes.skip(bytes.len() as int) + rest);
    }
}

impl<T1: MemoryPackSerialize, T2: MemoryPackSerialize, T3: MemoryPackSerialize, T4: MemoryPackSerialize> MemoryPackSerialize for (T1, T2, T3, T4) {
    open spec fn serializes_as(&self, bytes: Seq<u8>) -> bool {
        exists|j1: int, j2: int, j3: int| #![trigger self.0.serializes_as(bytes.subrange(0, j1)), self.1.serializes_as(bytes.subrange(j1, j2)), self.2.serializes_as(bytes.subrange(j2, j3)), self.3.serializes_as(bytes.subrange(j3, bytes.len() as int))] 0 <= j1 <= j2 <= j3 <= bytes.len() && self.0.serializes_as(bytes.subrange(0, j1)) && self.1.serializes_as(bytes.subrange(j1, j2)) && self.2.serializes_as(bytes.subrange(j2, j3)) && self.3.serializes_as(bytes.subrange(j3, bytes.len() as int))
    }

    fn serialize(&self, writer: &mut MemoryPackWriter) -> (r: Result<(), MemoryPackError>) {
        let ghost w0 = writer@;
        let _ = self.0.serialize(writer);
        let ghost w1 = writer@;
        proof {
            assert(w0 =~= w1.subrange(0, w0.len() as int));
        }
        let _ = self.1.serialize(writer);
        let ghost w2 = writer@;
        proof {
            assert(w1 =~= w2.subrange(0, w1.len() as int));
        }
        let _ = self.2.serialize(writer);
        let ghost w3 = writer@;
        proof {
            assert(w2 =~= w3.subrange(0, w2.len() as int));
        }
        let _ = self.3.serialize(writer);
        let ghost w4 = writer@;
        proof {
            assert(w3 =~= w4.subrange(0, w3.len() as int));
        }
        proof {
            assert(w2 =~= w4.subrange(0, w2.len() as int));
            assert(w1 =~= w4.subrange(0, w1.len() as int));
            assert(w0 =~= w4.subrange(0, w0.len() as int));
            let w = w4.skip(w0.len() as int);
            assert(w.subrange(0, w1.len() - w0.len()) =~= w1.skip(w0.len() as int));
            assert(w.subrange(w1.len() - w0.len(), w2.len() - w0.len()) =~= w2.skip(w1.len() as int));
            assert(w.subrange(w2.len() - w0.len(), w3.len() - w0.len()) =~= w3.skip(w2.len() as int));
            assert(w.subrange(w3.len() - w0.len(), w4.len() - w0.len()) =~= w4.skip(w3.len() as int));
            let (j1, j2, j3) = (w1.len() - w0.len(), w2.len() - w0.len(), w3.len() - w0.len());
            assert(self.0.serializes_as(w.subrange(0, j1)) && self.1.serializes_as(w.subrange(j1, j2)) && self.2.serializes_as(w.subrange(j2, j3)) && self.3.serializes_as(w.subrange(j3, w.len() as int)));
        }
        Ok(())
    }
}

impl<T1: MemoryPackDeserialize, T2: MemoryPackDeserialize, T3: MemoryPackDeserialize, T4: MemoryPackDeserialize> MemoryPackDeserialize for (T1, T2, T3, T4) {
    type Model = (T1::Model, T2::Model, T3::Model, T4::Model);

    open spec fn model(&self) -> (T1::Model, T2::Model, T3::Model, T4::Model) {
        (self.0.model(), self.1.model(), self.2.model(), self.3.model())
    }

    open spec fn spec_deserialize(bytes: Seq<u8>) -> Decoded<(T1::Model, T2::Model, T3::Model, T4::Model)> {
        { let (r0, k0) = T1::spec_deserialize(bytes); match r0 { Err(e) => (Err(e), k0), Ok(v0) => { let (r1, k1) = T2::spec_deserialize(bytes.skip(k0)); match r1 { Err(e) => (Err(e), k0 + k1), Ok(v1) => { let (r2, k2) = T3::spec_deserialize(bytes.skip(k0 + k1)); match r2 { Err(e) => (Err(e), k0 + k1 + k2), Ok(v2) => { let (r3, k3) = T4::spec_deserialize(bytes.skip(k0 + k1 + k2)); match r3 { Err(e) => (Err(e), k0 + k1 + k2 + k3), Ok(v3) => (Ok((v0, v1, v2, v3)), k0 + k1 + k2 + k3) } } } } } } } }
    }

    fn deserialize(reader: &mut MemoryPackReader) -> (r: Result<Self, MemoryPackError>) {
        let ghost b = reader.rest();
        let ghost p0 = reader.pos();
        proof {
            assert(reader.rest() =~= b.skip(reader.pos() - p0));
        }
        let v0 = match T1::deserialize(reader) {
            Ok(v) => v,
            Err(e) => return Err(e),
        };
        proof {
            assert(reader.rest() =~= b.skip(reader.pos() - p0));
        }
        let v1 = match T2::deserialize(reader) {
            Ok(v) => v,
            Err(e) => return Err(e),
        };
        proof {
            assert(reader.rest() =~= b.skip(reader.pos() - p0));
        }
        let v2 = match T3::deserialize(reader) {
            Ok(v) => v,
            Err(e) => return Err(e),
        };
        proof {
            assert(reader.rest() =~= b.skip(reader.pos() - p0));
        }
        let v3 = match T4::deserialize(reader) {
            Ok(v) => v,
            Err(e) => return Err(e),
        };
        Ok((v0, v1, v2, v3))
    }
}

impl<T1: MemoryPackRoundTrip, T2: MemoryPackRoundTrip, T3: MemoryPackRoundTrip, T4: MemoryPackRoundTrip> MemoryPackRoundTrip for (T1, T2, T3, T4) {
    open spec fn fits_format(&self) -> bool {
        self.0.fits_format() && self.1.fits_format() && self.2.fits_format() && self.3.fits_format()
    }

    proof fn lemma_round_trip(&self, bytes: Seq<u8>, rest: Seq<u8>) {
        let (j1, j2, j3) = choose|j1: int, j2: int, j3: int| #![trigger self.0.serializes_as(bytes.subrange(0, j1)), self.1.serializes_as(bytes.subrange(j1, j2)), self.2.serializes_as(bytes.subrange(j2, j3)), self.3.serializes_as(bytes.subrange(j3, bytes.len() as int))] 0 <= j1 <= j2 <= j3 <= bytes.len() && self.0.serializes_as(bytes.subrange(0, j1)) && self.1.serializes_as(bytes.subrange(j1, j2)) && self.2.serializes_as(bytes.subrange(j2, j3)) && self.3.serializes_as(bytes.subrange(j3, bytes.len() as int));
        let all = bytes + rest;
        assert(all =~= bytes.subrange(0, j1) + (bytes.skip(j1) + rest));
        self.0.lemma_round_trip(bytes.subrange(0, j1), bytes.skip(j1) + rest);
        assert(all.skip(j1) =~= bytes.subrange(j1, j2) + (bytes.skip(j2) + rest));
        self.1.lemma_round_trip(bytes.subrange(j1, j2), bytes.skip(j2) + rest);
        assert(all.skip(j2) =~= bytes.subrange(j2, j3) + (bytes.skip(j3) + rest));
        self.2.lemma_round_trip(bytes.subrange(j2, j3), bytes.skip(j3) + rest);
        assert(all.skip(j3) =~= bytes.subrange(j3, bytes.len() as int) + (bytes.skip(bytes.len() as int) + rest));
        self.3.lemma_round_trip(bytes.subrange(j3, bytes.len() as int), bytes.skip(bytes.len() as int) + rest);
    }
}

impl<T1: MemoryPackSerialize, T2: MemoryPackSerialize, T3: MemoryPackSerialize, T4: MemoryPackSerialize, T5: MemoryPackSerialize> MemoryPackSerialize for (T1, T2, T3, T4, T5) {
    open spec fn serializes_as(&self, bytes: Seq<u8>) -> bool {
        exists|j1: int, j2: int, j3: int, j4: int| #![trigger self.0.serializes_as(bytes.subrange(0, j1)), self.1.serializes_as(bytes.subrange(j1, j2)), self.2.serializes_as(bytes.subrange(j2, j3)), self.3.serializes_as(bytes.subrange(j3, j4)), self.4.serializes_as(bytes.subrange(j4, bytes.len() as int))] 0 <= j1 <= j2 <= j3 <= j4 <= bytes.len() && self.0.serializes_as(bytes.subrange(0, j1)) && self.1.serializes_as(bytes.subrange(j1, j2)) && self.2.serializes_as(bytes.subrange(j2, j3)) && self.3.serializes_as(bytes.subrange(j3, j4)) && self.4.serializes_as(bytes.subrange(j4, bytes.len() as int))
    }

    fn serialize(&self, writer: &mut MemoryPackWriter) -> (r: Result<(), MemoryPackError>) {
        let ghost w0 = writer@;
        let _ = self.0.serialize(writer);
        let ghost w1 = writer@;
        proof {
            assert(w0 =~= w1.subrange(0, w0.len() as int));
        }
        let _ = self.1.serialize(writer);
        let ghost w2 = writer@;
        proof {
            assert(w1 =~= w2.subrange(0, w1.len() as int));
        }
        let _ = self.2.serialize(writer);
        let ghost w3 = writer@;
        proof {
            assert(w2 =~= w3.subrange(0, w2.len() as int));
        }
        let _ = self.3.serialize(writer);
        let ghost w4 = writer@;
        proof {
            assert(w3 =~= w4.subrange(0, w3.len() as int));
        }
        let _ = self.4.serialize(writer);
        let ghost w5 = writer@;
        proof {
            assert(w4 =~= w5.subrange(0, w4.len() as int));
        }
        proof {
            assert(w3 =~= w5.subrange(0, w3.len() as int));
            assert(w2 =~= w5.subrange(0, w2.len() as int));
            assert(w1 =~= w5.subrange(0, w1.len() as int));
            assert(w0 =~= w5.subrange(0, w0.len() as int));
            let w = w5.skip(w0.len() as int);
            assert(w.subrange(0, w1.len() - w0.len()) =~= w1.skip(w0.len() as int));
            assert(w.subrange(w1.len() - w0.len(), w2.len() - w0.len()) =~= w2.skip(w1.len() as int));
            assert(w.subrange(w2.len() - w0.len(), w3.len() - w0.len()) =~= w3.skip(w2.len() as int));
            assert(w.subrange(w3.len() - w0.len(), w4.len() - w0.len()) =~= w4.skip(w3.len() as int));
            assert(w.subrange(w4.len() - w0.len(), w5.len() - w0.len()) =~= w5.skip(w4.len() as int));
            let (j1, j2, j3, j4) = (w1.len() - w0.len(), w2.len() - w0.len(), w3.len() - w0.len(), w4.len() - w0.len());
            assert(self.0.serializes_as(w.subrange(0, j1)) && self.1.serializes_as(w.subrange(j1, j2)) && self.2.serializes_as(w.subrange(j2, j3)) && self.3.serializes_as(w.subrange(j3, j4)) && self.4.serializes_as(w.subrange(j4, w.len() as int)));
        }
        Ok(())
    }
}

impl<T1: MemoryPackDeserialize, T2: MemoryPackDeserialize, T3: MemoryPackDeserialize, T4: MemoryPackDeserialize, T5: MemoryPackDeserialize> MemoryPackDeserialize for (T1, T2, T3, T4, T5) {
    type Model = (T1::Model, T2::Model, T3::Model, T4::Model, T5::Model);

    open spec fn model(&self) -> (T1::Model, T2::Model, T3::Model, T4::Model, T5::Model) {
        (self.0.model(), self.1.model(), self.2.model(), self.3.model(), self.4.model())
    }

    open spec fn spec_deserialize(bytes: Seq<u8>) -> Decoded<(T1::Model, T2::Model, T3::Model, T4::Model, T5::Model)> {
        { let (r0, k0) = T1::spec_deserialize(bytes); match r0 { Err(e) => (Err(e), k0), Ok(v0) => { let (r1, k1) = T2::spec_deserialize(bytes.skip(k0)); match r1 { Err(e) => (Err(e), k0 + k1), Ok(v1) => { let (r2, k2) = T3::spec_deserialize(bytes.skip(k0 + k1)); match r2 { Err(e) => (Err(e), k0 + k1 + k2), Ok(v2) => { let (r3, k3) = T4::spec_deserialize(bytes.skip(k0 + k1 + k2)); match r3 { Err(e) => (Err(e), k0 + k1 + k2 + k3), Ok(v3) => { let (r4, k4) = T5::spec_deserialize(bytes.skip(k0 + k1 + k2 + k3)); match r4 { Err(e) => (Err(e), k0 + k1 + k2 + k3 + k4), Ok(v4) => (Ok((v0, v1, v2, v3, v4)), k0 + k1 + k2 + k3 + k4) } } } } } } } } } }
    }

    fn deserialize(reader: &mut MemoryPackReader) -> (r: Result<Self, MemoryPackError>) {
        let ghost b = reader.rest();
        let ghost p0 = reader.pos();
        proof {
            assert(reader.rest() =~= b.skip(reader.pos() - p0));
        }
        let v0 = match T1::deserialize(reader) {
            Ok(v) => v,
            Err(e) => return Err(e),
        };
        proof {
            assert(reader.rest() =~= b.skip(reader.pos() - p0));
        }
        let v1 = match T2::deserialize(reader) {
            Ok(v) => v,
            Err(e) => return Err(e),
        };
        proof {
            assert(reader.rest() =~= b.skip(reader.pos() - p0));
        }
        let v2 = match T3::deserialize(reader) {
            Ok(v) => v,
            Err(e) => return Err(e),
        };
        proof {
            assert(reader.rest() =~= b.skip(reader.pos() - p0));
        }
        let v3 = match T4::deserialize(reader) {
            Ok(v) => v,
            Err(e) => return Err(e),
        };
        proof {
            assert(reader.rest() =~= b.skip(reader.pos() - p0));
        }
        let v4 = match T5::deserialize(reader) {
            Ok(v) => v,
            Err(e) => return Err(e),
        };
        Ok((v0, v1, v2, v3, v4))
    }
}

impl<T1: MemoryPackRoundTrip, T2: MemoryPackRoundTrip, T3: MemoryPackRoundTrip, T4: MemoryPackRoundTrip, T5: MemoryPackRoundTrip> MemoryPackRoundTrip for (T1, T2, T3, T4, T5) {
    open spec fn fits_format(&self) -> bool {
        self.0.fits_format() && self.1.fits_format() && self.2.fits_format() && self.3.fits_format() && self.4.fits_format()
    }

    proof fn lemma_round_trip(&self, bytes: Seq<u8>, rest: Seq<u8>) {
        let (j1, j2, j3, j4) = choose|j1: int, j2: int, j3: int, j4: int| #![trigger self.0.serializes_as(bytes.subrange(0, j1)), self.1.serializes_as(bytes.subrange(j1, j2)), self.2.serializes_as(bytes.subrange(j2, j3)), self.3.serializes_as(bytes.subrange(j3, j4)), self.4.serializes_as(bytes.subrange(j4, bytes.len() as int))] 0 <= j1 <= j2 <= j3 <= j4 <= bytes.len() && self.0.serializes_as(bytes.subrange(0, j1)) && self.1.serializes_as(bytes.subrange(j1, j2)) && self.2.serializes_as(bytes.subrange(j2, j3)) && self.3.serializes_as(bytes.subrange(j3, j4)) && self.4.serializes_as(bytes.subrange(j4, bytes.len() as int));
        let all = bytes + rest;
        assert(all =~= bytes.subrange(0, j1) + (bytes.skip(j1) + rest));
        self.0.lemma_round_trip(bytes.subrange(0, j1), bytes.skip(j1) + rest);
        assert(all.skip(j1) =~= bytes.subrange(j1, j2) + (bytes.skip(j2) + rest));
        self.1.lemma_round_trip(bytes.subrange(j1, j2), bytes.skip(j2) + rest);
        assert(all.skip(j2) =~= bytes.subrange(j2, j3) + (bytes.skip(j3) + rest));
        self.2.lemma_round_trip(bytes.subrange(j2, j3), bytes.skip(j3) + rest);
        assert(all.skip(j3) =~= bytes.subrange(j3, j4) + (bytes.skip(j4) + rest));
        self.3.lemma_round_trip(bytes.subrange(j3, j4), bytes.skip(j4) + rest);
        assert(all.skip(j4) =~= bytes.subrange(j4, bytes.len() as int) + (bytes.skip(bytes.len() as int) + rest));
        self.4.lemma_round_trip(bytes.subrange(j4, bytes.len() as int), bytes.skip(bytes.len() as int) + rest);
    }
}

impl<T1: MemoryPackSerialize, T2: MemoryPackSerialize, T3: MemoryPackSerialize, T4: MemoryPackSerialize, T5: MemoryPackSerialize, T6: MemoryPackSerialize> MemoryPackSerialize for (T1, T2, T3, T4, T5, T6) {
    open spec fn serializes_as(&self, bytes: Seq<u8>) -> bool {
        exists|j1: int, j2: int, j3: int, j4: int, j5: int| #![trigger self.0.serializes_as(bytes.subrange(0, j1)), self.1.serializes_as(bytes.subrange(j1, j2)), self.2.serializes_as(bytes.subrange(j2, j3)), self.3.serializes_as(bytes.subrange(j3, j4)), self.4.serializes_as(bytes.subrange(j4, j5)), self.5.serializes_as(bytes.subrange(j5, bytes.len() as int))] 0 <= j1 <= j2 <= j3 <= j4 <= j5 <= bytes.len() && self.0.serializes_as(bytes.subrange(0, j1)) && self.1.serializes_as(bytes.subrange(j1, j2)) && self.2.serializes_as(bytes.subrange(j2, j3)) && self.3.serializes_as(bytes.subrange(j3, j4)) && self.4.serializes_as(bytes.subrange(j4, j5)) && self.5.serializes_as(bytes.subrange(j5, bytes.len() as int))
    }

    fn serialize(&self, writer: &mut MemoryPackWriter) -> (r: Result<(), MemoryPackError>) {
        let ghost w0 = writer@;
        let _ = self.0.serialize(writer);
        let ghost w1 = writer@;
        proof {
            assert(w0 =~= w1.subrange(0, w0.len() as int));
        }
        let _ = self.1.serialize(writer);
        let ghost w2 = writer@;
        proof {
            assert(w1 =~= w2.subrange(0, w1.len() as int));
        }
        let _ = self.2.serialize(writer);
        let ghost w3 = writer@;
        proof {
            assert(w2 =~= w3.subrange(0, w2.len() as int));
        }
        let _ = self.3.serialize(writer);
        let ghost w4 = writer@;
        proof {
            assert(w3 =~= w4.subrange(0, w3.len() as int));
        }
        let _ = self.4.serialize(writer);
        let ghost w5 = writer@;
        proof {
            assert(w4 =~= w5.subrange(0, w4.len() as int));
        }
        let _ = self.5.serialize(writer);
        let ghost w6 = writer@;
        proof {
            assert(w5 =~= w6.subrange(0, w5.len() as int));
        }
        proof {
            assert(w4 =~= w6.subrange(0, w4.len() as int));
            assert(w3 =~= w6.subrange(0, w3.len() as int));
            assert(w2 =~= w6.subrange(0, w2.len() as int));
            assert(w1 =~= w6.subrange(0, w1.len() as int));
            assert(w0 =~= w6.subrange(0, w0.len() as int));
            let w = w6.skip(w0.len() as int);
            assert(w.subrange(0, w1.len() - w0.len()) =~= w1.skip(w0.len() as int));
            assert(w.subrange(w1.len() - w0.len(), w2.len() - w0.len()) =~= w2.skip(w1.len() as int));
            assert(w.subrange(w2.len() - w0.len(), w3.len() - w0.len()) =~= w3.skip(w2.len() as int));
            assert(w.subrange(w3.len() - w0.len(), w4.len() - w0.len()) =~= w4.skip(w3.len() as int));
            assert(w.subrange(w4.len() - w0.len(), w5.len() - w0.len()) =~= w5.skip(w4.len() as int));
            assert(w.subrange(w5.len() - w0.len(), w6.len() - w0.len()) =~= w6.skip(w5.len() as int));
            let (j1, j2, j3, j4, j5) = (w1.len() - w0.len(), w2.len() - w0.len(), w3.len() - w0.len(), w4.len() - w0.len(), w5.len() - w0.len());
            assert(self.0.serializes_as(w.subrange(0, j1)) && self.1.serializes_as(w.subrange(j1, j2)) && self.2.serializes_as(w.subrange(j2, j3)) && self.3.serializes_as(w.subrange(j3, j4)) && self.4.serializes_as(w.subrange(j4, j5)) && self.5.serializes_as(w.subrange(j5, w.len() as int)));
        }
        Ok(())
    }
}

impl<T1: MemoryPackDeserialize, T2: MemoryPackDeserialize, T3: MemoryPackDeserialize, T4: MemoryPackDeserialize, T5: MemoryPackDeserialize, T6: MemoryPackDeserialize> MemoryPackDeserialize for (T1, T2, T3, T4, T5, T6) {
    type Model = (T1::Model, T2::Model, T3::Model, T4::Model, T5::Model, T6::Model);

    open spec fn model(&self) -> (T1::Model, T2::Model, T3::Model, T4::Model, T5::Model, T6::Model) {
        (self.0.model(), self.1.model(), self.2.model(), self.3.model(), self.4.model(), self.5.model())
    }

    open spec fn spec_deserialize(bytes: Seq<u8>) -> Decoded<(T1::Model, T2::Model, T3::Model, T4::Model, T5::Model, T6::Model)> {
        { let (r0, k0) = T1::spec_deserialize(bytes); match r0 { Err(e) => (Err(e), k0), Ok(v0) => { let (r1, k1) = T2::spec_deserialize(bytes.skip(k0)); match r1 { Err(e) => (Err(e), k0 + k1), Ok(v1) => { let (r2, k2) = T3::spec_deserialize(bytes.skip(k0 + k1)); match r2 { Err(e) => (Err(e), k0 + k1 + k2), Ok(v2) => { let (r3, k3) = T4::spec_deserialize(bytes.skip(k0 + k1 + k2)); match r3 { Err(e) => (Err(e), k0 + k1 + k2 + k3), Ok(v3) => { let (r4, k4) = T5::spec_deserialize(bytes.skip(k0 + k1 + k2 + k3)); match r4 { Err(e) => (Err(e), k0 + k1 + k2 + k3 + k4), Ok(v4) => { let (r5, k5) = T6::spec_deserialize(bytes.skip(k0 + k1 + k2 + k3 + k4)); match r5 { Err(e) => (Err(e), k0 + k1 + k2 + k3 + k4 + k5), Ok(v5) => (Ok((v0, v1, v2, v3, v4, v5)), k0 + k1 + k2 + k3 + k4 + k5) } } } } } } } } } } } }
    }

    fn deserialize(reader: &mut MemoryPackReader) -> (r: Result<Self, MemoryPackError>) {
        let ghost b = reader.rest();
        let ghost p0 = reader.pos();
        proof {
            assert(reader.rest() =~= b.skip(reader.pos() - p0));
        }
        let v0 = match T1::deserialize(reader) {
            Ok(v) => v,
            Err(e) => return Err(e),
        };
        proof {
            assert(reader.rest() =~= b.skip(reader.pos() - p0));
        }
        let v1 = match T2::deserialize(reader) {
            Ok(v) => v,
            Err(e) => return Err(e),
        };
        proof {
            assert(reader.rest() =~= b.skip(reader.pos() - p0));
        }
        let v2 = match T3::deserialize(reader) {
            Ok(v) => v,
            Err(e) => return Err(e),
        };
        proof {
            assert(reader.rest() =~= b.skip(reader.pos() - p0));
        }
        let v3 = match T4::deserialize(reader) {
            Ok(v) => v,
            Err(e) => return Err(e),
        };
        proof {
            assert(reader.rest() =~= b.skip(reader.pos() - p0));
        }
        let v4 = match T5::deserialize(reader) {
            Ok(v) => v,
            Err(e) => return Err(e),
        };
        proof {
            assert(reader.rest() =~= b.skip(reader.pos() - p0));
        }
        let v5 = match T6::deserialize(reader) {
            Ok(v) => v,
            Err(e) => return Err(e),
        };
        Ok((v0, v1, v2, v3, v4, v5))
    }
}

impl<T1: MemoryPackRoundTrip, T2: MemoryPackRoundTrip, T3: MemoryPackRoundTrip, T4: MemoryPackRoundTrip, T5: MemoryPackRoundTrip, T6: MemoryPackRoundTrip> MemoryPackRoundTrip for (T1, T2, T3, T4, T5, T6) {
    open spec fn fits_format(&self) -> bool {
        self.0.fits_format() && self.1.fits_format() && self.2.fits_format() && self.3.fits_format() && self.4.fits_format() && self.5.fits_format()
    }

    proof fn lemma_round_trip(&self, bytes: Seq<u8>, rest: Seq<u8>) {
        let (j1, j2, j3, j4, j5) = choose|j1: int, j2: int, j3: int, j4: int, j5: int| #![trigger self.0.serializes_as(bytes.subrange(0, j1)), self.1.serializes_as(bytes.subrange(j1, j2)), self.2.serializes_as(bytes.subrange(j2, j3)), self.3.serializes_as(bytes.subrange(j3, j4)), self.4.serializes_as(bytes.subrange(j4, j5)), self.5.serializes_as(bytes.subrange(j5, bytes.len() as int))] 0 <= j1 <= j2 <= j3 <= j4 <= j5 <= bytes.len() && self.0.serializes_as(bytes.subrange(0, j1)) && self.1.serializes_as(bytes.subrange(j1, j2)) && self.2.serializes_as(bytes.subrange(j2, j3)) && self.3.serializes_as(bytes.subrange(j3, j4)) && self.4.serializes_as(bytes.subrange(j4, j5)) && self.5.serializes_as(bytes.subrange(j5, bytes.len() as int));
        let all = bytes + rest;
        assert(all =~= bytes.subrange(0, j1) + (bytes.skip(j1) + rest));
        self.0.lemma_round_trip(bytes.subrange(0, j1), bytes.skip(j1) + rest);
        assert(all.skip(j1) =~= bytes.subrange(j1, j2) + (bytes.skip(j2) + rest));
        self.1.lemma_round_trip(bytes.subrange(j1, j2), bytes.skip(j2) + rest);
        assert(all.skip(j2) =~= bytes.subrange(j2, j3) + (bytes.skip(j3) + rest));
        self.2.lemma_round_trip(bytes.subrange(j2, j3), bytes.skip(j3) + rest);
        assert(all.skip(j3) =~= bytes.subrange(j3, j4) + (bytes.skip(j4) + rest));
        self.3.lemma_round_trip(bytes.subrange(j3, j4), bytes.skip(j4) + rest);
        assert(all.skip(j4) =~= bytes.subrange(j4, j5) + (bytes.skip(j5) + rest));
        self.4.lemma_round_trip(bytes.subrange(j4, j5), bytes.skip(j5) + rest);
        assert(all.skip(j5) =~= bytes.subrange(j5, bytes.len() as int) + (bytes.skip(bytes.len() as int) + rest));
        self.5.lemma_round_trip(bytes.subrange(j5, bytes.len() as int), bytes.skip(bytes.len() as int) + rest);
    }
}

impl<T1: MemoryPackSerialize, T2: MemoryPackSerialize, T3: MemoryPackSerialize, T4: MemoryPackSerialize, T5: MemoryPackSerialize, T6: MemoryPackSerialize, T7: MemoryPackSerialize> MemoryPackSerialize for (T1, T2, T3, T4, T5, T6, T7) {
    open spec fn serializes_as(&self, bytes: Seq<u8>) -> bool {
        exists|j1: int, j2: int, j3: int, j4: int, j5: int, j6: int| #![trigger self.0.serializes_as(bytes.subrange(0, j1)), self.1.serializes_as(bytes.subrange(j1, j2)), self.2.serializes_as(bytes.subrange(j2, j3)), self.3.serializes_as(bytes.subrange(j3, j4)), self.4.serializes_as(bytes.subrange(j4, j5)), self.5.serializes_as(bytes.subrange(j5, j6)), self.6.serializes_as(bytes.subrange(j6, bytes.len() as int))] 0 <= j1 <= j2 <= j3 <= j4 <= j5 <= j6 <= bytes.len() && self.0.serializes_as(bytes.subrange(0, j1)) && self.1.serializes_as(bytes.subrange(j1, j2)) && self.2.serializes_as(bytes.subrange(j2, j3)) && self.3.serializes_as(bytes.subrange(j3, j4)) && self.4.serializes_as(bytes.subrange(j4, j5)) && self.5.serializes_as(bytes.subrange(j5, j6)) && self.6.serializes_as(bytes.subrange(j6, bytes.len() as int))
    }

    fn serialize(&self, writer: &mut MemoryPackWriter) -> (r: Result<(), MemoryPackError>) {
        let ghost w0 = writer@;
        let _ = self.0.serialize(writer);
        let ghost w1 = writer@;
        proof {
            assert(w0 =~= w1.subrange(0, w0.len() as int));
        }
        let _ = self.1.serialize(writer);
        let ghost w2 = writer@;
        proof {
            assert(w1 =~= w2.subrange(0, w1.len() as int));
        }
        let _ = self.2.serialize(writer);
        let ghost w3 = writer@;
        proof {
            assert(w2 =~= w3.subrange(0, w2.len() as int));
        }
        let _ = self.3.serialize(writer);
        let ghost w4 = writer@;
        proof {
            assert(w3 =~= w4.subrange(0, w3.len() as int));
        }
        let _ = self.4.serialize(writer);
        let ghost w5 = writer@;
        proof {
            assert(w4 =~= w5.subrange(0, w4.len() as int));
        }
        let _ = self.5.serialize(writer);
        let ghost w6 = writer@;
        proof {
            assert(w5 =~= w6.subrange(0, w5.len() as int));
        }
        let _ = self.6.serialize(writer);
        let ghost w7 = writer@;
        proof {
            assert(w6 =~= w7.subrange(0, w6.len() as int));
        }
        proof {
            assert(w5 =~= w7.subrange(0, w5.len() as int));
            assert(w4 =~= w7.subrange(0, w4.len() as int));
            assert(w3 =~= w7.subrange(0, w3.len() as int));
            assert(w2 =~= w7.subrange(0, w2.len() as int));
            assert(w1 =~= w7.subrange(0, w1.len() as int));
            assert(w0 =~= w7.subrange(0, w0.len() as int));
            let w = w7.skip(w0.len() as int);
            assert(w.subrange(0, w1.len() - w0.len()) =~= w1.skip(w0.len() as int));
            assert(w.subrange(w1.len() - w0.len(), w2.len() - w0.len()) =~= w2.skip(w1.len() as int));
            assert(w.subrange(w2.len() - w0.len(), w3.len() - w0.len()) =~= w3.skip(w2.len() as int));
            assert(w.subrange(w3.len() - w0.len(), w4.len() - w0.len()) =~= w4.skip(w3.len() as int));
            assert(w.subrange(w4.len() - w0.len(), w5.len() - w0.len()) =~= w5.skip(w4.len() as int));
            assert(w.subrange(w5.len() - w0.len(), w6.len() - w0.len()) =~= w6.skip(w5.len() as int));
            assert(w.subrange(w6.len() - w0.len(), w7.len() - w0.len()) =~= w7.skip(w6.len() as int));
            let (j1, j2, j3, j4, j5, j6) = (w1.len() - w0.len(), w2.len() - w0.len(), w3.len() - w0.len(), w4.len() - w0.len(), w5.len() - w0.len(), w6.len() - w0.len());
            assert(self.0.serializes_as(w.subrange(0, j1)) && self.1.serializes_as(w.subrange(j1, j2)) && self.2.serializes_as(w.subrange(j2, j3)) && self.3.serializes_as(w.subrange(j3, j4)) && self.4.serializes_as(w.subrange(j4, j5)) && self.5.serializes_as(w.subrange(j5, j6)) && self.6.serializes_as(w.subrange(j6, w.len() as int)));
        }
        Ok(())
    }
}

impl<T1: MemoryPackDeserialize, T2: MemoryPackDeserialize, T3: MemoryPackDeserialize, T4: MemoryPackDeserialize, T5: MemoryPackDeserialize, T6: MemoryPackDeserialize, T7: MemoryPackDeserialize> MemoryPackDeserialize for (T1, T2, T3, T4, T5, T6, T7) {
    type Model = (T1::Model, T2::Model, T3::Model, T4::Model, T5::Model, T6::Model, T7::Model);

    open spec fn model(&self) -> (T1::Model, T2::Model, T3::Model, T4::Model, T5::Model, T6::Model, T7::Model) {
        (self.0.model(), self.1.model(), self.2.model(), self.3.model(), self.4.model(), self.5.model(), self.6.model())
    }

    open spec fn spec_deserialize(bytes: Seq<u8>) -> Decoded<(T1::Model, T2::Model, T3::Model, T4::Model, T5::Model, T6::Model, T7::Model)> {
        { let (r0, k0) = T1::spec_deserialize(bytes); match r0 { Err(e) => (Err(e), k0), Ok(v0) => { let (r1, k1) = T2::spec_deserialize(bytes.skip(k0)); match r1 { Err(e) => (Err(e), k0 + k1), Ok(v1) => { let (r2, k2) = T3::spec_deserialize(bytes.skip(k0 + k1)); match r2 { Err(e) => (Err(e), k0 + k1 + k2), Ok(v2) => { let (r3, k3) = T4::spec_deserialize(bytes.skip(k0 + k1 + k2)); match r3 { Err(e) => (Err(e), k0 + k1 + k2 + k3), Ok(v3) => { let (r4, k4) = T5::spec_deserialize(bytes.skip(k0 + k1 + k2 + k3)); match r4 { Err(e) => (Err(e), k0 + k1 + k2 + k3 + k4), Ok(v4) => { let (r5, k5) = T6::spec_deserialize(bytes.skip(k0 + k1 + k2 + k3 + k4)); match r5 { Err(e) => (Err(e), k0 + k1 + k2 + k3 + k4 + k5), Ok(v5) => { let (r6, k6) = T7::spec_deserialize(bytes.skip(k0 + k1 + k2 + k3 + k4 + k5)); match r6 { Err(e) => (Err(e), k0 + k1 + k2 + k3 + k4 + k5 + k6), Ok(v6) => (Ok((v0, v1, v2, v3, v4, v5, v6)), k0 + k1 + k2 + k3 + k4 + k5 + k6) } } } } } } } } } } } } } }
    }

    fn deserialize(reader: &mut MemoryPackReader) -> (r: Result<Self, MemoryPackError>) {
        let ghost b = reader.rest();
        let ghost p0 = reader.pos();
        proof {
            assert(reader.rest() =~= b.skip(reader.pos() - p0));
        }
        let v0 = match T1::deserialize(reader) {
            Ok(v) => v,
            Err(e) => return Err(e),
        };
        proof {
            assert(reader.rest() =~= b.skip(reader.pos() - p0));
        }
        let v1 = match T2::deserialize(reader) {
            Ok(v) => v,
            Err(e) => return Err(e),
        };
        proof {
            assert(reader.rest() =~= b.skip(reader.pos() - p0));
        }
        let v2 = match T3::deserialize(reader) {
            Ok(v) => v,
            Err(e) => return Err(e),
        };
        proof {
            assert(reader.rest() =~= b.skip(reader.pos() - p0));
        }
        let v3 = match T4::deserialize(reader) {
            Ok(v) => v,
            Err(e) => return Err(e),
        };
        proof {
            assert(reader.rest() =~= b.skip(reader.pos() - p0));
        }
        let v4 = match T5::deserialize(reader) {
            Ok(v) => v,
            Err(e) => return Err(e),
        };
        proof {
            assert(reader.rest() =~= b.skip(reader.pos() - p0));
        }
        let v5 = match T6::deserialize(reader) {
            Ok(v) => v,
            Err(e) => return Err(e),
        };
        proof {
            assert(reader.rest() =~= b.skip(reader.pos() - p0));
        }
        let v6 = match T7::deserialize(reader) {
            Ok(v) => v,
            Err(e) => return Err(e),
        };
        Ok((v0, v1, v2, v3, v4, v5, v6))
    }
}

impl<T1: MemoryPackRoundTrip, T2: MemoryPackRoundTrip, T3: MemoryPackRoundTrip, T4: MemoryPackRoundTrip, T5: MemoryPackRoundTrip, T6: MemoryPackRoundTrip, T7: MemoryPackRoundTrip> MemoryPackRoundTrip for (T1, T2, T3, T4, T5, T6, T7) {
    open spec fn fits_format(&self) -> bool {
        self.0.fits_format() && self.1.fits_format() && self.2.fits_format() && self.3.fits_format() && self.4.fits_format() && self.5.fits_format() && self.6.fits_format()
    }

    proof fn lemma_round_trip(&self, bytes: Seq<u8>, rest: Seq<u8>) {
        let (j1, j2, j3, j4, j5, j6) = choose|j1: int, j2: int, j3: int, j4: int, j5: int, j6: int| #![trigger self.0.serializes_as(bytes.subrange(0, j1)), self.1.serializes_as(bytes.subrange(j1, j2)), self.2.serializes_as(bytes.subrange(j2, j3)), self.3.serializes_as(bytes.subrange(j3, j4)), self.4.serializes_as(bytes.subrange(j4, j5)), self.5.serializes_as(bytes.subrange(j5, j6)), self.6.serializes_as(bytes.subrange(j6, bytes.len() as int))] 0 <= j1 <= j2 <= j3 <= j4 <= j5 <= j6 <= bytes.len() && self.0.serializes_as(bytes.subrange(0, j1)) && self.1.serializes_as(bytes.subrange(j1, j2)) && self.2.serializes_as(bytes.subrange(j2, j3)) && self.3.serializes_as(bytes.subrange(j3, j4)) && self.4.serializes_as(bytes.subrange(j4, j5)) && self.5.serializes_as(bytes.subrange(j5, j6)) && self.6.serializes_as(bytes.subrange(j6, bytes.len() as int));
        let all = bytes + rest;
        assert(all =~= bytes.subrange(0, j1) + (bytes.skip(j1) + rest));
        self.0.lemma_round_trip(bytes.subrange(0, j1), bytes.skip(j1) + rest);
        assert(all.skip(j1) =~= bytes.subrange(j1, j2) + (bytes.skip(j2) + rest));
        self.1.lemma_round_trip(bytes.subrange(j1, j2), bytes.skip(j2) + rest);
        assert(all.skip(j2) =~= bytes.subrange(j2, j3) + (bytes.skip(j3) + rest));
        self.2.lemma_round_trip(bytes.subrange(j2, j3), bytes.skip(j3) + rest);
        assert(all.skip(j3) =~= bytes.subrange(j3, j4) + (bytes.skip(j4) + rest));
        self.3.lemma_round_trip(bytes.subrange(j3, j4), bytes.skip(j4) + rest);
        assert(all.skip(j4) =~= bytes.subrange(j4, j5) + (bytes.skip(j5) + rest));
        self.4.lemma_round_trip(bytes.subrange(j4, j5), bytes.skip(j5) + rest);
        assert(all.skip(j5) =~= bytes.subrange(j5, j6) + (bytes.skip(j6) + rest));
        self.5.lemma_round_trip(bytes.subrange(j5, j6), bytes.skip(j6) + rest);
        assert(all.skip(j6) =~= bytes.subrange(j6, bytes.len() as int) + (bytes.skip(bytes.len() as int) + rest));
        self.6.lemma_round_trip(bytes.subrange(j6, bytes.len() as int), bytes.skip(bytes.len() as int) + rest);
    }
}

impl<T1: MemoryPackSerialize, T2: MemoryPackSerialize, T3: MemoryPackSerialize, T4: MemoryPackSerialize, T5: MemoryPackSerialize, T6: MemoryPackSerialize, T7: MemoryPackSerialize, T8: MemoryPackSerialize> MemoryPackSerialize for (T1, T2, T3, T4, T5, T6, T7, T8) {
    open spec fn serializes_as(&self, bytes: Seq<u8>) -> bool {
        exists|j1: int, j2: int, j3: int, j4: int, j5: int, j6: int, j7: int| #![trigger self.0.serializes_as(bytes.subrange(0, j1)), self.1.serializes_as(bytes.subrange(j1, j2)), self.2.serializes_as(bytes.subrange(j2, j3)), self.3.serializes_as(bytes.subrange(j3, j4)), self.4.serializes_as(bytes.subrange(j4, j5)), self.5.serializes_as(bytes.subrange(j5, j6)), self.6.serializes_as(bytes.subrange(j6, j7)), self.7.serializes_as(bytes.subrange(j7, bytes.len() as int))] 0 <= j1 <= j2 <= j3 <= j4 <= j5 <= j6 <= j7 <= bytes.len() && self.0.serializes_as(bytes.subrange(0, j1)) && self.1.serializes_as(bytes.subrange(j1, j2)) && self.2.serializes_as(bytes.subrange(j2, j3)) && self.3.serializes_as(bytes.subrange(j3, j4)) && self.4.serializes_as(bytes.subrange(j4, j5)) && self.5.serializes_as(bytes.subrange(j5, j6)) && self.6.serializes_as(bytes.subrange(j6, j7)) && self.7.serializes_as(bytes.subrange(j7, bytes.len() as int))
    }

    fn serialize(&self, writer: &mut MemoryPackWriter) -> (r: Result<(), MemoryPackError>) {
        let ghost w0 = writer@;
        let _ = self.0.serialize(writer);
        let ghost w1 = writer@;
        proof {
            assert(w0 =~= w1.subrange(0, w0.len() as int));
        }
        let _ = self.1.serialize(writer);
        let ghost w2 = writer@;
        proof {
            assert(w1 =~= w2.subrange(0, w1.len() as int));
        }
        let _ = self.2.serialize(writer);
        let ghost w3 = writer@;
        proof {
            assert(w2 =~= w3.subrange(0, w2.len() as int));
        }
        let _ = self.3.serialize(writer);
        let ghost w4 = writer@;
        proof {
            assert(w3 =~= w4.subrange(0, w3.len() as int));
        }
        let _ = self.4.serialize(writer);
        let ghost w5 = writer@;
        proof {
            assert(w4 =~= w5.subrange(0, w4.len() as int));
        }
        let _ = self.5.serialize(writer);
        let ghost w6 = writer@;
        proof {
            assert(w5 =~= w6.subrange(0, w5.len() as int));
        }
        let _ = self.6.serialize(writer);
        let ghost w7 = writer@;
        proof {
            assert(w6 =~= w7.subrange(0, w6.len() as int));
        }
        let _ = self.7.serialize(writer);
        let ghost w8 = writer@;
        proof {
            assert(w7 =~= w8.subrange(0, w7.len() as int));
        }
        proof {
            assert(w6 =~= w8.subrange(0, w6.len() as int));
            assert(w5 =~= w8.subrange(0, w5.len() as int));
            assert(w4 =~= w8.subrange(0, w4.len() as int));
            assert(w3 =~= w8.subrange(0, w3.len() as int));
            assert(w2 =~= w8.subrange(0, w2.len() as int));
            assert(w1 =~= w8.subrange(0, w1.len() as int));
            assert(w0 =~= w8.subrange(0, w0.len() as int));
            let w = w8.skip(w0.len() as int);
            assert(w.subrange(0, w1.len() - w0.len()) =~= w1.skip(w0.len() as int));
            assert(w.subrange(w1.len() - w0.len(), w2.len() - w0.len()) =~= w2.skip(w1.len() as int));
            assert(w.subrange(w2.len() - w0.len(), w3.len() - w0.len()) =~= w3.skip(w2.len() as int));
            assert(w.subrange(w3.len() - w0.len(), w4.len() - w0.len()) =~= w4.skip(w3.len() as int));
            assert(w.subrange(w4.len() - w0.len(), w5.len() - w0.len()) =~= w5.skip(w4.len() as int));
            assert(w.subrange(w5.len() - w0.len(), w6.len() - w0.len()) =~= w6.skip(w5.len() as int));
            assert(w.subrange(w6.len() - w0.len(), w7.len() - w0.len()) =~= w7.skip(w6.len() as int));
            assert(w.subrange(w7.len() - w0.len(), w8.len() - w0.len()) =~= w8.skip(w7.len() as int));
            let (j1, j2, j3, j4, j5, j6, j7) = (w1.len() - w0.len(), w2.len() - w0.len(), w3.len() - w0.len(), w4.len() - w0.len(), w5.len() - w0.len(), w6.len() - w0.len(), w7.len() - w0.len());
            assert(self.0.serializes_as(w.subrange(0, j1)) && self.1.serializes_as(w.subrange(j1, j2)) && self.2.serializes_as(w.subrange(j2, j3)) && self.3.serializes_as(w.subrange(j3, j4)) && self.4.serializes_as(w.subrange(j4, j5)) && self.5.serializes_as(w.subrange(j5, j6)) && self.6.serializes_as(w.subrange(j6, j7)) && self.7.serializes_as(w.subrange(j7, w.len() as int)));
        }
        Ok(())
    }
}

impl<T1: MemoryPackDeserialize, T2: MemoryPackDeserialize, T3: MemoryPackDeserialize, T4: MemoryPackDeserialize, T5: MemoryPackDeserialize, T6: MemoryPackDeserialize, T7: MemoryPackDeserialize, T8: MemoryPackDeserialize> MemoryPackDeserialize for (T1, T2, T3, T4, T5, T6, T7, T8) {
    type Model = (T1::Model, T2::Model, T3::Model, T4::Model, T5::Model, T6::Model, T7::Model, T8::Model);

    open spec fn model(&self) -> (T1::Model, T2::Model, T3::Model, T4::Model, T5::Model, T6::Model, T7::Model, T8::Model) {
        (self.0.model(), self.1.model(), self.2.model(), self.3.model(), self.4.model(), self.5.model(), self.6.model(), self.7.model())
    }

    open spec fn spec_deserialize(bytes: Seq<u8>) -> Decoded<(T1::Model, T2::Model, T3::Model, T4::Model, T5::Model, T6::Model, T7::Model, T8::Model)> {
        { let (r0, k0) = T1::spec_deserialize(bytes); match r0 { Err(e) => (Err(e), k0), Ok(v0) => { let (r1, k1) = T2::spec_deserialize(bytes.skip(k0)); match r1 { Err(e) => (Err(e), k0 + k1), Ok(v1) => { let (r2, k2) = T3::spec_deserialize(bytes.skip(k0 + k1)); match r2 { Err(e) => (Err(e), k0 + k1 + k2), Ok(v2) => { let (r3, k3) = T4::spec_deserialize(bytes.skip(k0 + k1 + k2)); match r3 { Err(e) => (Err(e), k0 + k1 + k2 + k3), Ok(v3) => { let (r4, k4) = T5::spec_deserialize(bytes.skip(k0 + k1 + k2 + k3)); match r4 { Err(e) => (Err(e), k0 + k1 + k2 + k3 + k4), Ok(v4) => { let (r5, k5) = T6::spec_deserialize(bytes.skip(k0 + k1 + k2 + k3 + k4)); match r5 { Err(e) => (Err(e), k0 + k1 + k2 + k3 + k4 + k5), Ok(v5) => { let (r6, k6) = T7::spec_deserialize(bytes.skip(k0 + k1 + k2 + k3 + k4 + k5)); match r6 { Err(e) => (Err(e), k0 + k1 + k2 + k3 + k4 + k5 + k6), Ok(v6) => { let (r7, k7) = T8::spec_deserialize(bytes.skip(k0 + k1 + k2 + k3 + k4 + k5 + k6)); match r7 { Err(e) => (Err(e), k0 + k1 + k2 + k3 + k4 + k5 + k6 + k7), Ok(v7) => (Ok((v0, v1, v2, v3, v4, v5, v6, v7)), k0 + k1 + k2 + k3 + k4 + k5 + k6 + k7) } } } } } } } } } } } } } } } }
    }

    fn deserialize(reader: &mut MemoryPackReader) -> (r: Result<Self, MemoryPackError>) {
        let ghost b = reader.rest();
        let ghost p0 = reader.pos();
        proof {
            assert(reader.rest() =~= b.skip(reader.pos() - p0));
        }
        let v0 = match T1::deserialize(reader) {
            Ok(v) => v,
            Err(e) => return Err(e),
        };
        proof {
            assert(reader.rest() =~= b.skip(reader.pos() - p0));
        }
        let v1 = match T2::deserialize(reader) {
            Ok(v) => v,
            Err(e) => return Err(e),
        };
        proof {
            assert(reader.rest() =~= b.skip(reader.pos() - p0));
        }
        let v2 = match T3::deserialize(reader) {
            Ok(v) => v,
            Err(e) => return Err(e),
        };
        proof {
            assert(reader.rest() =~= b.skip(reader.pos() - p0));
        }
        let v3 = match T4::deserialize(reader) {
            Ok(v) => v,
            Err(e) => return Err(e),
        };
        proof {
            assert(reader.rest() =~= b.skip(reader.pos() - p0));
        }
        let v4 = match T5::deserialize(reader) {
            Ok(v) => v,
            Err(e) => return Err(e),
        };
        proof {
            assert(reader.rest() =~= b.skip(reader.pos() - p0));
        }
        let v5 = match T6::deserialize(reader) {
            Ok(v) => v,
            Err(e) => return Err(e),
        };
        proof {
            assert(reader.rest() =~= b.skip(reader.pos() - p0));
        }
        let v6 = match T7::deserialize(reader) {
            Ok(v) => v,
            Err(e) => return Err(e),
        };
        proof {
            assert(reader.rest() =~= b.skip(reader.pos() - p0));
        }
        let v7 = match T8::deserialize(reader) {
            Ok(v) => v,
            Err(e) => return Err(e),
        };
        Ok((v0, v1, v2, v3, v4, v5, v6, v7))
    }
}

impl<T1: MemoryPackRoundTrip, T2: MemoryPackRoundTrip, T3: MemoryPackRoundTrip, T4: MemoryPackRoundTrip, T5: MemoryPackRoundTrip, T6: MemoryPackRoundTrip, T7: MemoryPackRoundTrip, T8: MemoryPackRoundTrip> MemoryPackRoundTrip for (T1, T2, T3, T4, T5, T6, T7, T8) {
    open spec fn fits_format(&self) -> bool {
        self.0.fits_format() && self.1.fits_format() && self.2.fits_format() && self.3.fits_format() && self.4.fits_format() && self.5.fits_format() && self.6.fits_format() && self.7.fits_format()
    }

    proof fn lemma_round_trip(&self, bytes: Seq<u8>, rest: Seq<u8>) {
        let (j1, j2, j3, j4, j5, j6, j7) = choose|j1: int, j2: int, j3: int, j4: int, j5: int, j6: int, j7: int| #![trigger self.0.serializes_as(bytes.subrange(0, j1)), self.1.serializes_as(bytes.subrange(j1, j2)), self.2.serializes_as(bytes.subrange(j2, j3)), self.3.serializes_as(bytes.subrange(j3, j4)), self.4.serializes_as(bytes.subrange(j4, j5)), self.5.serializes_as(bytes.subrange(j5, j6)), self.6.serializes_as(bytes.subrange(j6, j7)), self.7.serializes_as(bytes.subrange(j7, bytes.len() as int))] 0 <= j1 <= j2 <= j3 <= j4 <= j5 <= j6 <= j7 <= bytes.len() && self.0.serializes_as(bytes.subrange(0, j1)) && self.1.serializes_as(bytes.subrange(j1, j2)) && self.2.serializes_as(bytes.subrange(j2, j3)) && self.3.serializes_as(bytes.subrange(j3, j4)) && self.4.serializes_as(bytes.subrange(j4, j5)) && self.5.serializes_as(bytes.subrange(j5, j6)) && self.6.serializes_as(bytes.subrange(j6, j7)) && self.7.serializes_as(bytes.subrange(j7, bytes.len() as int));
        let all = bytes + rest;
        assert(all =~= bytes.subrange(0, j1) + (bytes.skip(j1) + rest));
        self.0.lemma_round_trip(bytes.subrange(0, j1), bytes.skip(j1) + rest);
        assert(all.skip(j1) =~= bytes.subrange(j1, j2) + (bytes.skip(j2) + rest));
        self.1.lemma_round_trip(bytes.subrange(j1, j2), bytes.skip(j2) + rest);
        assert(all.skip(j2) =~= bytes.subrange(j2, j3) + (bytes.skip(j3) + rest));
        self.2.lemma_round_trip(bytes.subrange(j2, j3), bytes.skip(j3) + rest);
        assert(all.skip(j3) =~= bytes.subrange(j3, j4) + (bytes.skip(j4) + rest));
        self.3.lemma_round_trip(bytes.subrange(j3, j4), bytes.skip(j4) + rest);
        assert(all.skip(j4) =~= bytes.subrange(j4, j5) + (bytes.skip(j5) + rest));
        self.4.lemma_round_trip(bytes.subrange(j4, j5), bytes.skip(j5) + rest);
        assert(all.skip(j5) =~= bytes.subrange(j5, j6) + (bytes.skip(j6) + rest));
        self.5.lemma_round_trip(bytes.subrange(j5, j6), bytes.skip(j6) + rest);
        assert(all.skip(j6) =~= bytes.subrange(j6, j7) + (bytes.skip(j7) + rest));
        self.6.lemma_round_trip(bytes.subrange(j6, j7), bytes.skip(j7) + rest);
        assert(all.skip(j7) =~= bytes.subrange(j7, bytes.len() as int) + (bytes.skip(bytes.len() as int) + rest));
        self.7.lemma_round_trip(bytes.subrange(j7, bytes.len() as int), bytes.skip(bytes.len() as int) + rest);
    }
}

impl<T1: MemoryPackSerialize, T2: MemoryPackSerialize, T3: MemoryPackSerialize, T4: MemoryPackSerialize, T5: MemoryPackSerialize, T6: MemoryPackSerialize, T7: MemoryPackSerialize, T8: MemoryPackSerialize, T9: MemoryPackSerialize> MemoryPackSerialize for (T1, T2, T3, T4, T5, T6, T7, T8, T9) {
    open spec fn serializes_as(&self, bytes: Seq<u8>) -> bool {
        exists|j1: int, j2: int, j3: int, j4: int, j5: int, j6: int, j7: int, j8: int| #![trigger self.0.serializes_as(bytes.subrange(0, j1)), self.1.serializes_as(bytes.subrange(j1, j2)), self.2.serializes_as(bytes.subrange(j2, j3)), self.3.serializes_as(bytes.subrange(j3, j4)), self.4.serializes_as(bytes.subrange(j4, j5)), self.5.serializes_as(bytes.subrange(j5, j6)), self.6.serializes_as(bytes.subrange(j6, j7)), self.7.serializes_as(bytes.subrange(j7, j8)), self.8.serializes_as(bytes.subrange(j8, bytes.len() as int))] 0 <= j1 <= j2 <= j3 <= j4 <= j5 <= j6 <= j7 <= j8 <= bytes.len() && self.0.serializes_as(bytes.subrange(0, j1)) && self.1.serializes_as(bytes.subrange(j1, j2)) && self.2.serializes_as(bytes.subrange(j2, j3)) && self.3.serializes_as(bytes.subrange(j3, j4)) && self.4.serializes_as(bytes.subrange(j4, j5)) && self.5.serializes_as(bytes.subrange(j5, j6)) && self.6.serializes_as(bytes.subrange(j6, j7)) && self.7.serializes_as(bytes.subrange(j7, j8)) && self.8.serializes_as(bytes.subrange(j8, bytes.len() as int))
    }

    fn serialize(&self, writer: &mut MemoryPackWriter) -> (r: Result<(), MemoryPackError>) {
        let ghost w0 = writer@;
        let _ = self.0.serialize(writer);
        let ghost w1 = writer@;
        proof {
            assert(w0 =~= w1.subrange(0, w0.len() as int));
        }
        let _ = self.1.serialize(writer);
        let ghost w2 = writer@;
        proof {
            assert(w1 =~= w2.subrange(0, w1.len() as int));
        }
        let _ = self.2.serialize(writer);
        let ghost w3 = writer@;
        proof {
            assert(w2 =~= w3.subrange(0, w2.len() as int));
        }
        let _ = self.3.serialize(writer);
        let ghost w4 = writer@;
        proof {
            assert(w3 =~= w4.subrange(0, w3.len() as int));
        }
        let _ = self.4.serialize(writer);
        let ghost w5 = writer@;
        proof {
            assert(w4 =~= w5.subrange(0, w4.len() as int));
        }
        let _ = self.5.serialize(writer);
        let ghost w6 = writer@;
        proof {
            assert(w5 =~= w6.subrange(0, w5.len() as int));
        }
        let _ = self.6.serialize(writer);
        let ghost w7 = writer@;
        proof {
            assert(w6 =~= w7.subrange(0, w6.len() as int));
        }
        let _ = self.7.serialize(writer);
        let ghost w8 = writer@;
        proof {
            assert(w7 =~= w8.subrange(0, w7.len() as int));
        }
        let _ = self.8.serialize(writer);
        let ghost w9 = writer@;
        proof {
            assert(w8 =~= w9.subrange(0, w8.len() as int));
        }
        proof {
            assert(w7 =~= w9.subrange(0, w7.len() as int));
            assert(w6 =~= w9.subrange(0, w6.len() as int));
            assert(w5 =~= w9.subrange(0, w5.len() as int));
            assert(w4 =~= w9.subrange(0, w4.len() as int));
            assert(w3 =~= w9.subrange(0, w3.len() as int));
            assert(w2 =~= w9.subrange(0, w2.len() as int));
            assert(w1 =~= w9.subrange(0, w1.len() as int));
            assert(w0 =~= w9.subrange(0, w0.len() as int));
            let w = w9.skip(w0.len() as int);
            assert(w.subrange(0, w1.len() - w0.len()) =~= w1.skip(w0.len() as int));
            assert(w.subrange(w1.len() - w0.len(), w2.len() - w0.len()) =~= w2.skip(w1.len() as int));
            assert(w.subrange(w2.len() - w0.len(), w3.len() - w0.len()) =~= w3.skip(w2.len() as int));
            assert(w.subrange(w3.len() - w0.len(), w4.len() - w0.len()) =~= w4.skip(w3.len() as int));
            assert(w.subrange(w4.len() - w0.len(), w5.len() - w0.len()) =~= w5.skip(w4.len() as int));
            assert(w.subrange(w5.len() - w0.len(), w6.len() - w0.len()) =~= w6.skip(w5.len() as int));
            assert(w.subrange(w6.len() - w0.len(), w7.len() - w0.len()) =~= w7.skip(w6.len() as int));
            assert(w.subrange(w7.len() - w0.len(), w8.len() - w0.len()) =~= w8.skip(w7.len() as int));
            assert(w.subrange(w8.len() - w0.len(), w9.len() - w0.len()) =~= w9.skip(w8.len() as int));
            let (j1, j2, j3, j4, j5, j6, j7, j8) = (w1.len() - w0.len(), w2.len() - w0.len(), w3.len() - w0.len(), w4.len() - w0.len(), w5.len() - w0.len(), w6.len() - w0.len(), w7.len() - w0.len(), w8.len() - w0.len());
            assert(self.0.serializes_as(w.subrange(0, j1)) && self.1.serializes_as(w.subrange(j1, j2)) && self.2.serializes_as(w.subrange(j2, j3)) && self.3.serializes_as(w.subrange(j3, j4)) && self.4.serializes_as(w.subrange(j4, j5)) && self.5.serializes_as(w.subrange(j5, j6)) && self.6.serializes_as(w.subrange(j6, j7)) && self.7.serializes_as(w.subrange(j7, j8)) && self.8.serializes_as(w.subrange(j8, w.len() as int)));
        }
        Ok(())
    }
}

impl<T1: MemoryPackDeserialize, T2: MemoryPackDeserialize, T3: MemoryPackDeserialize, T4: MemoryPackDeserialize, T5: MemoryPackDeserialize, T6: MemoryPackDeserialize, T7: MemoryPackDeserialize, T8: MemoryPackDeserialize, T9: MemoryPackDeserialize> MemoryPackDeserialize for (T1, T2, T3, T4, T5, T6, T7, T8, T9) {
    type Model = (T1::Model, T2::Model, T3::Model, T4::Model, T5::Model, T6::Model, T7::Model, T8::Model, T9::Model);

    open spec fn model(&self) -> (T1::Model, T2::Model, T3::Model, T4::Model, T5::Model, T6::Model, T7::Model, T8::Model, T9::Model) {
        (self.0.model(), self.1.model(), self.2.model(), self.3.model(), self.4.model(), self.5.model(), self.6.model(), self.7.model(), self.8.model())
    }

    open spec fn spec_deserialize(bytes: Seq<u8>) -> Decoded<(T1::Model, T2::Model, T3::Model, T4::Model, T5::Model, T6::Model, T7::Model, T8::Model, T9::Model)> {
        { let (r0, k0) = T1::spec_deserialize(bytes); match r0 { Err(e) => (Err(e), k0), Ok(v0) => { let (r1, k1) = T2::spec_deserialize(bytes.skip(k0)); match r1 { Err(e) => (Err(e), k0 + k1), Ok(v1) => { let (r2, k2) = T3::spec_deserialize(bytes.skip(k0 + k1)); match r2 { Err(e) => (Err(e), k0 + k1 + k2), Ok(v2) => { let (r3, k3) = T4::spec_deserialize(bytes.skip(k0 + k1 + k2)); match r3 { Err(e) => (Err(e), k0 + k1 + k2 + k3), Ok(v3) => { let (r4, k4) = T5::spec_deserialize(bytes.skip(k0 + k1 + k2 + k3)); match r4 { Err(e) => (Err(e), k0 + k1 + k2 + k3 + k4), Ok(v4) => { let (r5, k5) = T6::spec_deserialize(bytes.skip(k0 + k1 + k2 + k3 + k4)); match r5 { Err(e) => (Err(e), k0 + k1 + k2 + k3 + k4 + k5), Ok(v5) => { let (r6, k6) = T7::spec_deserialize(bytes.skip(k0 + k1 + k2 + k3 + k4 + k5)); match r6 { Err(e) => (Err(e), k0 + k1 + k2 + k3 + k4 + k5 + k6), Ok(v6) => { let (r7, k7) = T8::spec_deserialize(bytes.skip(k0 + k1 + k2 + k3 + k4 + k5 + k6)); match r7 { Err(e) => (Err(e), k0 + k1 + k2 + k3 + k4 + k5 + k6 + k7), Ok(v7) => { let (r8, k8) = T9::spec_deserialize(bytes.skip(k0 + k1 + k2 + k3 + k4 + k5 + k6 + k7)); match r8 { Err(e) => (Err(e), k0 + k1 + k2 + k3 + k4 + k5 + k6 + k7 + k8), Ok(v8) => (Ok((v0, v1, v2, v3, v4, v5, v6, v7, v8)), k0 + k1 + k2 + k3 + k4 + k5 + k6 + k7 + k8) } } } } } } } } } } } } } } } } } }
    }

    fn deserialize(reader: &mut MemoryPackReader) -> (r: Result<Self, MemoryPackError>) {
        let ghost b = reader.rest();
        let ghost p0 = reader.pos();
        proof {
            assert(reader.rest() =~= b.skip(reader.pos() - p0));
        }
        let v0 = match T1::deserialize(reader) {
            Ok(v) => v,
            Err(e) => return Err(e),
        };
        proof {
            assert(reader.rest() =~= b.skip(reader.pos() - p0));
        }
        let v1 = match T2::deserialize(reader) {
            Ok(v) => v,
            Err(e) => return Err(e),
        };
        proof {
            assert(reader.rest() =~= b.skip(reader.pos() - p0));
        }
        let v2 = match T3::deserialize(reader) {
            Ok(v) => v,
            Err(e) => return Err(e),
        };
        proof {
            assert(reader.rest() =~= b.skip(reader.pos() - p0));
        }
        let v3 = match T4::deserialize(reader) {
            Ok(v) => v,
            Err(e) => return Err(e),
        };
        proof {
            assert(reader.rest() =~= b.skip(reader.pos() - p0));
        }
        let v4 = match T5::deserialize(reader) {
            Ok(v) => v,
            Err(e) => return Err(e),
        };
        proof {
            assert(reader.rest() =~= b.skip(reader.pos() - p0));
        }
        let v5 = match T6::deserialize(reader) {
            Ok(v) => v,
            Err(e) => return Err(e),
        };
        proof {
            assert(reader.rest() =~= b.skip(reader.pos() - p0));
        }
        let v6 = match T7::deserialize(reader) {
            Ok(v) => v,
            Err(e) => return Err(e),
        };
        proof {
            assert(reader.rest() =~= b.skip(reader.pos() - p0));
        }
        let v7 = match T8::deserialize(reader) {
            Ok(v) => v,
            Err(e) => return Err(e),
        };
        proof {
            assert(reader.rest() =~= b.skip(reader.pos() - p0));
        }
        let v8 = match T9::deserialize(reader) {
            Ok(v) => v,
            Err(e) => return Err(e),
        };
        Ok((v0, v1, v2, v3, v4, v5, v6, v7, v8))
    }
}

impl<T1: MemoryPackRoundTrip, T2: MemoryPackRoundTrip, T3: MemoryPackRoundTrip, T4: MemoryPackRoundTrip, T5: MemoryPackRoundTrip, T6: MemoryPackRoundTrip, T7: MemoryPackRoundTrip, T8: MemoryPackRoundTrip, T9: MemoryPackRoundTrip> MemoryPackRoundTrip for (T1, T2, T3, T4, T5, T6, T7, T8, T9) {
    open spec fn fits_format(&self) -> bool {
        self.0.fits_format() && self.1.fits_format() && self.2.fits_format() && self.3.fits_format() && self.4.fits_format() && self.5.fits_format() && self.6.fits_format() && self.7.fits_format() && self.8.fits_format()
    }

    proof fn lemma_round_trip(&self, bytes: Seq<u8>, rest: Seq<u8>) {
        let (j1, j2, j3, j4, j5, j6, j7, j8) = choose|j1: int, j2: int, j3: int, j4: int, j5: int, j6: int, j7: int, j8: int| #![trigger self.0.serializes_as(bytes.subrange(0, j1)), self.1.serializes_as(bytes.subrange(j1, j2)), self.2.serializes_as(bytes.subrange(j2, j3)), self.3.serializes_as(bytes.subrange(j3, j4)), self.4.serializes_as(bytes.subrange(j4, j5)), self.5.serializes_as(bytes.subrange(j5, j6)), self.6.serializes_as(bytes.subrange(j6, j7)), self.7.serializes_as(bytes.subrange(j7, j8)), self.8.serializes_as(bytes.subrange(j8, bytes.len() as int))] 0 <= j1 <= j2 <= j3 <= j4 <= j5 <= j6 <= j7 <= j8 <= bytes.len() && self.0.serializes_as(bytes.subrange(0, j1)) && self.1.serializes_as(bytes.subrange(j1, j2)) && self.2.serializes_as(bytes.subrange(j2, j3)) && self.3.serializes_as(bytes.subrange(j3, j4)) && self.4.serializes_as(bytes.subrange(j4, j5)) && self.5.serializes_as(bytes.subrange(j5, j6)) && self.6.serializes_as(bytes.subrange(j6, j7)) && self.7.serializes_as(bytes.subrange(j7, j8)) && self.8.serializes_as(bytes.subrange(j8, bytes.len() as int));
        let all = bytes + rest;
        assert(all =~= bytes.subrange(0, j1) + (bytes.skip(j1) + rest));
        self.0.lemma_round_trip(bytes.subrange(0, j1), bytes.skip(j1) + rest);
        assert(all.skip(j1) =~= bytes.subrange(j1, j2) + (bytes.skip(j2) + rest));
        self.1.lemma_round_trip(bytes.subrange(j1, j2), bytes.skip(j2) + rest);
        assert(all.skip(j2) =~= bytes.subrange(j2, j3) + (bytes.skip(j3) + rest));
        self.2.lemma_round_trip(bytes.subrange(j2, j3), bytes.skip(j3) + rest);
        assert(all.skip(j3) =~= bytes.subrange(j3, j4) + (bytes.skip(j4) + rest));
        self.3.lemma_round_trip(bytes.subrange(j3, j4), bytes.skip(j4) + rest);
        assert(all.skip(j4) =~= bytes.subrange(j4, j5) + (bytes.skip(j5) + rest));
        self.4.lemma_round_trip(bytes.subrange(j4, j5), bytes.skip(j5) + rest);
        assert(all.skip(j5) =~= bytes.subrange(j5, j6) + (bytes.skip(j6) + rest));
        self.5.lemma_round_trip(bytes.subrange(j5, j6), bytes.skip(j6) + rest);
        assert(all.skip(j6) =~= bytes.subrange(j6, j7) + (bytes.skip(j7) + rest));
        self.6.lemma_round_trip(bytes.subrange(j6, j7), bytes.skip(j7) + rest);
        assert(all.skip(j7) =~= bytes.subrange(j7, j8) + (bytes.skip(j8) + rest));
        self.7.lemma_round_trip(bytes.subrange(j7, j8), bytes.skip(j8) + rest);
        assert(all.skip(j8) =~= bytes.subrange(j8, bytes.len() as int) + (bytes.skip(bytes.len() as int) + rest));
        self.8.lemma_round_trip(bytes.subrange(j8, bytes.len() as int), bytes.skip(bytes.len() as int) + rest);
    }
}

impl<T1: MemoryPackSerialize, T2: MemoryPackSerialize, T3: MemoryPackSerialize, T4: MemoryPackSerialize, T5: MemoryPackSerialize, T6: MemoryPackSerialize, T7: MemoryPackSerialize, T8: MemoryPackSerialize, T9: MemoryPackSerialize, T10: MemoryPackSerialize> MemoryPackSerialize for (T1, T2, T3, T4, T5, T6, T7, T8, T9, T10) {
    open spec fn serializes_as(&self, bytes: Seq<u8>) -> bool {
        exists|j1: int, j2: int, j3: int, j4: int, j5: int, j6: int, j7: int, j8: int, j9: int| #![trigger self.0.serializes_as(bytes.subrange(0, j1)), self.1.serializes_as(bytes.subrange(j1, j2)), self.2.serializes_as(bytes.subrange(j2, j3)), self.3.serializes_as(bytes.subrange(j3, j4)), self.4.serializes_as(bytes.subrange(j4, j5)), self.5.serializes_as(bytes.subrange(j5, j6)), self.6.serializes_as(bytes.subrange(j6, j7)), self.7.serializes_as(bytes.subrange(j7, j8)), self.8.serializes_as(bytes.subrange(j8, j9)), self.9.serializes_as(bytes.subrange(j9, bytes.len() as int))] 0 <= j1 <= j2 <= j3 <= j4 <= j5 <= j6 <= j7 <= j8 <= j9 <= bytes.len() && self.0.serializes_as(bytes.subrange(0, j1)) && self.1.serializes_as(bytes.subrange(j1, j2)) && self.2.serializes_as(bytes.subrange(j2, j3)) && self.3.serializes_as(bytes.subrange(j3, j4)) && self.4.serializes_as(bytes.subrange(j4, j5)) && self.5.serializes_as(bytes.subrange(j5, j6)) && self.6.serializes_as(bytes.subrange(j6, j7)) && self.7.serializes_as(bytes.subrange(j7, j8)) && self.8.serializes_as(bytes.subrange(j8, j9)) && self.9.serializes_as(bytes.subrange(j9, bytes.len() as int))
    }

    fn serialize(&self, writer: &mut MemoryPackWriter) -> (r: Result<(), MemoryPackError>) {
        let ghost w0 = writer@;
        let _ = self.0.serialize(writer);
        let ghost w1 = writer@;
        proof {
            assert(w0 =~= w1.subrange(0, w0.len() as int));
        }
        let _ = self.1.serialize(writer);
        let ghost w2 = writer@;
        proof {
            assert(w1 =~= w2.subrange(0, w1.len() as int));
        }
        let _ = self.2.serialize(writer);
        let ghost w3 = writer@;
        proof {
            assert(w2 =~= w3.subrange(0, w2.len() as int));
        }
        let _ = self.3.serialize(writer);
        let ghost w4 = writer@;
        proof {
            assert(w3 =~= w4.subrange(0, w3.len() as int));
        }
        let _ = self.4.serialize(writer);
        let ghost w5 = writer@;
        proof {
            assert(w4 =~= w5.subrange(0, w4.len() as int));
        }
        let _ = self.5.serialize(writer);
        let ghost w6 = writer@;
        proof {
            assert(w5 =~= w6.subrange(0, w5.len() as int));
        }
        let _ = self.6.serialize(writer);
        let ghost w7 = writer@;
        proof {
            assert(w6 =~= w7.subrange(0, w6.len() as int));
        }
        let _ = self.7.serialize(writer);
        let ghost w8 = writer@;
        proof {
            assert(w7 =~= w8.subrange(0, w7.len() as int));
        }
        let _ = self.8.serialize(writer);
        let ghost w9 = writer@;
        proof {
            assert(w8 =~= w9.subrange(0, w8.len() as int));
        }
        let _ = self.9.serialize(writer);
        let ghost w10 = writer@;
        proof {
            assert(w9 =~= w10.subrange(0, w9.len() as int));
        }
        proof {
            assert(w8 =~= w10.subrange(0, w8.len() as int));
            assert(w7 =~= w10.subrange(0, w7.len() as int));
            assert(w6 =~= w10.subrange(0, w6.len() as int));
            assert(w5 =~= w10.subrange(0, w5.len() as int));
            assert(w4 =~= w10.subrange(0, w4.len() as int));
            assert(w3 =~= w10.subrange(0, w3.len() as int));
            assert(w2 =~= w10.subrange(0, w2.len() as int));
            assert(w1 =~= w10.subrange(0, w1.len() as int));
            assert(w0 =~= w10.subrange(0, w0.len() as int));
            let w = w10.skip(w0.len() as int);
            assert(w.subrange(0, w1.len() - w0.len()) =~= w1.skip(w0.len() as int));
            assert(w.subrange(w1.len() - w0.len(), w2.len() - w0.len()) =~= w2.skip(w1.len() as int));
            assert(w.subrange(w2.len() - w0.len(), w3.len() - w0.len()) =~= w3.skip(w2.len() as int));
            assert(w.subrange(w3.len() - w0.len(), w4.len() - w0.len()) =~= w4.skip(w3.len() as int));
            assert(w.subrange(w4.len() - w0.len(), w5.len() - w0.len()) =~= w5.skip(w4.len() as int));
            assert(w.subrange(w5.len() - w0.len(), w6.len() - w0.len()) =~= w6.skip(w5.len() as int));
            assert(w.subrange(w6.len() - w0.len(), w7.len() - w0.len()) =~= w7.skip(w6.len() as int));
            assert(w.subrange(w7.len() - w0.len(), w8.len() - w0.len()) =~= w8.skip(w7.len() as int));
            assert(w.subrange(w8.len() - w0.len(), w9.len() - w0.len()) =~= w9.skip(w8.len() as int));
            assert(w.subrange(w9.len() - w0.len(), w10.len() - w0.len()) =~= w10.skip(w9.len() as int));
            let (j1, j2, j3, j4, j5, j6, j7, j8, j9) = (w1.len() - w0.len(), w2.len() - w0.len(), w3.len() - w0.len(), w4.len() - w0.len(), w5.len() - w0.len(), w6.len() - w0.len(), w7.len() - w0.len(), w8.len() - w0.len(), w9.len() - w0.len());
            assert(self.0.serializes_as(w.subrange(0, j1)) && self.1.serializes_as(w.subrange(j1, j2)) && self.2.serializes_as(w.subrange(j2, j3)) && self.3.serializes_as(w.subrange(j3, j4)) && self.4.serializes_as(w.subrange(j4, j5)) && self.5.serializes_as(w.subrange(j5, j6)) && self.6.serializes_as(w.subrange(j6, j7)) && self.7.serializes_as(w.subrange(j7, j8)) && self.8.serializes_as(w.subrange(j8, j9)) && self.9.serializes_as(w.subrange(j9, w.len() as int)));
        }
        Ok(())
    }
}

impl<T1: MemoryPackDeserialize, T2: MemoryPackDeserialize, T3: MemoryPackDeserialize, T4: MemoryPackDeserialize, T5: MemoryPackDeserialize, T6: MemoryPackDeserialize, T7: MemoryPackDeserialize, T8: MemoryPackDeserialize, T9: MemoryPackDeserialize, T10: MemoryPackDeserialize> MemoryPackDeserialize for (T1, T2, T3, T4, T5, T6, T7, T8, T9, T10) {
    type Model = (T1::Model, T2::Model, T3::Model, T4::Model, T5::Model, T6::Model, T7::Model, T8::Model, T9::Model, T10::Model);

    open spec fn model(&self) -> (T1::Model, T2::Model, T3::Model, T4::Model, T5::Model, T6::Model, T7::Model, T8::Model, T9::Model, T10::Model) {
        (self.0.model(), self.1.model(), self.2.model(), self.3.model(), self.4.model(), self.5.model(), self.6.model(), self.7.model(), self.8.model(), self.9.model())
    }

    open spec fn spec_deserialize(bytes: Seq<u8>) -> Decoded<(T1::Model, T2::Model, T3::Model, T4::Model, T5::Model, T6::Model, T7::Model, T8::Model, T9::Model, T10::Model)> {
        { let (r0, k0) = T1::spec_deserialize(bytes); match r0 { Err(e) => (Err(e), k0), Ok(v0) => { let (r1, k1) = T2::spec_deserialize(bytes.skip(k0)); match r1 { Err(e) => (Err(e), k0 + k1), Ok(v1) => { let (r2, k2) = T3::spec_deserialize(bytes.skip(k0 + k1)); match r2 { Err(e) => (Err(e), k0 + k1 + k2), Ok(v2) => { let (r3, k3) = T4::spec_deserialize(bytes.skip(k0 + k1 + k2)); match r3 { Err(e) => (Err(e), k0 + k1 + k2 + k3), Ok(v3) => { let (r4, k4) = T5::spec_deserialize(bytes.skip(k0 + k1 + k2 + k3)); match r4 { Err(e) => (Err(e), k0 + k1 + k2 + k3 + k4), Ok(v4) => { let (r5, k5) = T6::spec_deserialize(bytes.skip(k0 + k1 + k2 + k3 + k4)); match r5 { Err(e) => (Err(e), k0 + k1 + k2 + k3 + k4 + k5), Ok(v5) => { let (r6, k6) = T7::spec_deserialize(bytes.skip(k0 + k1 + k2 + k3 + k4 + k5)); match r6 { Err(e) => (Err(e), k0 + k1 + k2 + k3 + k4 + k5 + k6), Ok(v6) => { let (r7, k7) = T8::spec_deserialize(bytes.skip(k0 + k1 + k2 + k3 + k4 + k5 + k6)); match r7 { Err(e) => (Err(e), k0 + k1 + k2 + k3 + k4 + k5 + k6 + k7), Ok(v7) => { let (r8, k8) = T9::spec_deserialize(bytes.skip(k0 + k1 + k2 + k3 + k4 + k5 + k6 + k7)); match r8 { Err(e) => (Err(e), k0 + k1 + k2 + k3 + k4 + k5 + k6 + k7 + k8), Ok(v8) => { let (r9, k9) = T10::spec_deserialize(bytes.skip(k0 + k1 + k2 + k3 + k4 + k5 + k6 + k7 + k8)); match r9 { Err(e) => (Err(e), k0 + k1 + k2 + k3 + k4 + k5 + k6 + k7 + k8 + k9), Ok(v9) => (Ok((v0, v1, v2, v3, v4, v5, v6, v7, v8, v9)), k0 + k1 + k2 + k3 + k4 + k5 + k6 + k7 + k8 + k9) } } } } } } } } } } } } } } } } } } } }
    }

    fn deserialize(reader: &mut MemoryPackReader) -> (r: Result<Self, MemoryPackError>) {
        let ghost b = reader.rest();
        let ghost p0 = reader.pos();
        proof {
            assert(reader.rest() =~= b.skip(reader.pos() - p0));
        }
        let v0 = match T1::deserialize(reader) {
            Ok(v) => v,
            Err(e) => return Err(e),
        };
        proof {
            assert(reader.rest() =~= b.skip(reader.pos() - p0));
        }
        let v1 = match T2::deserialize(reader) {
            Ok(v) => v,
            Err(e) => return Err(e),
        };
        proof {
            assert(reader.rest() =~= b.skip(reader.pos() - p0));
        }
        let v2 = match T3::deserialize(reader) {
            Ok(v) => v,
            Err(e) => return Err(e),
        };
        proof {
            assert(reader.rest() =~= b.skip(reader.pos() - p0));
        }
        let v3 = match T4::deserialize(reader) {
            Ok(v) => v,
            Err(e) => return Err(e),
        };
        proof {
            assert(reader.rest() =~= b.skip(reader.pos() - p0));
        }
        let v4 = match T5::deserialize(reader) {
            Ok(v) => v,
            Err(e) => return Err(e),
        };
        proof {
            assert(reader.rest() =~= b.skip(reader.pos() - p0));
        }
        let v5 = match T6::deserialize(reader) {
            Ok(v) => v,
            Err(e) => return Err(e),
        };
        proof {
            assert(reader.rest() =~= b.skip(reader.pos() - p0));
        }
        let v6 = match T7::deserialize(reader) {
            Ok(v) => v,
            Err(e) => return Err(e),
        };
        proof {
            assert(reader.rest() =~= b.skip(reader.pos() - p0));
        }
        let v7 = match T8::deserialize(reader) {
            Ok(v) => v,
            Err(e) => return Err(e),
        };
        proof {
            assert(reader.rest() =~= b.skip(reader.pos() - p0));
        }
        let v8 = match T9::deserialize(reader) {
            Ok(v) => v,
            Err(e) => return Err(e),
        };
        proof {
            assert(reader.rest() =~= b.skip(reader.pos() - p0));
        }
        let v9 = match T10::deserialize(reader) {
            Ok(v) => v,
            Err(e) => return Err(e),
        };
        Ok((v0, v1, v2, v3, v4, v5, v6, v7, v8, v9))
    }
}

impl<T1: MemoryPackRoundTrip, T2: MemoryPackRoundTrip, T3: MemoryPackRoundTrip, T4: MemoryPackRoundTrip, T5: MemoryPackRoundTrip, T6: MemoryPackRoundTrip, T7: MemoryPackRoundTrip, T8: MemoryPackRoundTrip, T9: MemoryPackRoundTrip, T10: MemoryPackRoundTrip> MemoryPackRoundTrip for (T1, T2, T3, T4, T5, T6, T7, T8, T9, T10) {
    open spec fn fits_format(&self) -> bool {
        self.0.fits_format() && self.1.fits_format() && self.2.fits_format() && self.3.fits_format() && self.4.fits_format() && self.5.fits_format() && self.6.fits_format() && self.7.fits_format() && self.8.fits_format() && self.9.fits_format()
    }

    proof fn lemma_round_trip(&self, bytes: Seq<u8>, rest: Seq<u8>) {
        let (j1, j2, j3, j4, j5, j6, j7, j8, j9) = choose|j1: int, j2: int, j3: int, j4: int, j5: int, j6: int, j7: int, j8: int, j9: int| #![trigger self.0.serializes_as(bytes.subrange(0, j1)), self.1.serializes_as(bytes.subrange(j1, j2)), self.2.serializes_as(bytes.subrange(j2, j3)), self.3.serializes_as(bytes.subrange(j3, j4)), self.4.serializes_as(bytes.subrange(j4, j5)), self.5.serializes_as(bytes.subrange(j5, j6)), self.6.serializes_as(bytes.subrange(j6, j7)), self.7.serializes_as(bytes.subrange(j7, j8)), self.8.serializes_as(bytes.subrange(j8, j9)), self.9.serializes_as(bytes.subrange(j9, bytes.len() as int))] 0 <= j1 <= j2 <= j3 <= j4 <= j5 <= j6 <= j7 <= j8 <= j9 <= bytes.len() && self.0.serializes_as(bytes.subrange(0, j1)) && self.1.serializes_as(bytes.subrange(j1, j2)) && self.2.serializes_as(bytes.subrange(j2, j3)) && self.3.serializes_as(bytes.subrange(j3, j4)) && self.4.serializes_as(bytes.subrange(j4, j5)) && self.5.serializes_as(bytes.subrange(j5, j6)) && self.6.serializes_as(bytes.subrange(j6, j7)) && self.7.serializes_as(bytes.subrange(j7, j8)) && self.8.serializes_as(bytes.subrange(j8, j9)) && self.9.serializes_as(bytes.subrange(j9, bytes.len() as int));
        let all = bytes + rest;
        assert(all =~= bytes.subrange(0, j1) + (bytes.skip(j1) + rest));
        self.0.lemma_round_trip(bytes.subrange(0, j1), bytes.skip(j1) + rest);
        assert(all.skip(j1) =~= bytes.subrange(j1, j2) + (bytes.skip(j2) + rest));
        self.1.lemma_round_trip(bytes.subrange(j1, j2), bytes.skip(j2) + rest);
        assert(all.skip(j2) =~= bytes.subrange(j2, j3) + (bytes.skip(j3) + rest));
        self.2.lemma_round_trip(bytes.subrange(j2, j3), bytes.skip(j3) + rest);
        assert(all.skip(j3) =~= bytes.subrange(j3, j4) + (bytes.skip(j4) + rest));
        self.3.lemma_round_trip(bytes.subrange(j3, j4), bytes.skip(j4) + rest);
        assert(all.skip(j4) =~= bytes.subrange(j4, j5) + (bytes.skip(j5) + rest));
        self.4.lemma_round_trip(bytes.subrange(j4, j5), bytes.skip(j5) + rest);
        assert(all.skip(j5) =~= bytes.subrange(j5, j6) + (bytes.skip(j6) + rest));
        self.5.lemma_round_trip(bytes.subrange(j5, j6), bytes.skip(j6) + rest);
        assert(all.skip(j6) =~= bytes.subrange(j6, j7) + (bytes.skip(j7) + rest));
        self.6.lemma_round_trip(bytes.subrange(j6, j7), bytes.skip(j7) + rest);
        assert(all.skip(j7) =~= bytes.subrange(j7, j8) + (bytes.skip(j8) + rest));
        self.7.lemma_round_trip(bytes.subrange(j7, j8), bytes.skip(j8) + rest);
        assert(all.skip(j8) =~= bytes.subrange(j8, j9) + (bytes.skip(j9) + rest));
        self.8.lemma_round_trip(bytes.subrange(j8, j9), bytes.skip(j9) + rest);
        assert(all.skip(j9) =~= bytes.subrange(j9, bytes.len() as int) + (bytes.skip(bytes.len() as int) + rest));
        self.9.lemma_round_trip(bytes.subrange(j9, bytes.len() as int), bytes.skip(bytes.len() as int) + rest);
    }
}

impl<T1: MemoryPackSerialize, T2: MemoryPackSerialize, T3: MemoryPackSerialize, T4: MemoryPackSerialize, T5: MemoryPackSerialize, T6: MemoryPackSerialize, T7: MemoryPackSerialize, T8: MemoryPackSerialize, T9: MemoryPackSerialize, T10: MemoryPackSerialize, T11: MemoryPackSerialize> MemoryPackSerialize for (T1, T2, T3, T4, T5, T6, T7, T8, T9, T10, T11) {
    open spec fn serializes_as(&self, bytes: Seq<u8>) -> bool {
        exists|j1: int, j2: int, j3: int, j4: int, j5: int, j6: int, j7: int, j8: int, j9: int, j10: int| #![trigger self.0.serializes_as(bytes.subrange(0, j1)), self.1.serializes_as(bytes.subrange(j1, j2)), self.2.serializes_as(bytes.subrange(j2, j3)), self.3.serializes_as(bytes.subrange(j3, j4)), self.4.serializes_as(bytes.subrange(j4, j5)), self.5.serializes_as(bytes.subrange(j5, j6)), self.6.serializes_as(bytes.subrange(j6, j7)), self.7.serializes_as(bytes.subrange(j7, j8)), self.8.serializes_as(bytes.subrange(j8, j9)), self.9.serializes_as(bytes.subrange(j9, j10)), self.10.serializes_as(bytes.subrange(j10, bytes.len() as int))] 0 <= j1 <= j2 <= j3 <= j4 <= j5 <= j6 <= j7 <= j8 <= j9 <= j10 <= bytes.len() && self.0.serializes_as(bytes.subrange(0, j1)) && self.1.serializes_as(bytes.subrange(j1, j2)) && self.2.serializes_as(bytes.subrange(j2, j3)) && self.3.serializes_as(bytes.subrange(j3, j4)) && self.4.serializes_as(bytes.subrange(j4, j5)) && self.5.serializes_as(bytes.subrange(j5, j6)) && self.6.serializes_as(bytes.subrange(j6, j7)) && self.7.serializes_as(bytes.subrange(j7, j8)) && self.8.serializes_as(bytes.subrange(j8, j9)) && self.9.serializes_as(bytes.subrange(j9, j10)) && self.10.serializes_as(bytes.subrange(j10, bytes.len() as int))
    }

    fn serialize(&self, writer: &mut MemoryPackWriter) -> (r: Result<(), MemoryPackError>) {
        let ghost w0 = writer@;
        let _ = self.0.serialize(writer);
        let ghost w1 = writer@;
        proof {
            assert(w0 =~= w1.subrange(0, w0.len() as int));
        }
        let _ = self.1.serialize(writer);
        let ghost w2 = writer@;
        proof {
            assert(w1 =~= w2.subrange(0, w1.len() as int));
        }
        let _ = self.2.serialize(writer);
        let ghost w3 = writer@;
        proof {
            assert(w2 =~= w3.subrange(0, w2.len() as int));
        }
        let _ = self.3.serialize(writer);
        let ghost w4 = writer@;
        proof {
            assert(w3 =~= w4.subrange(0, w3.len() as int));
        }
        let _ = self.4.serialize(writer);
        let ghost w5 = writer@;
        proof {
            assert(w4 =~= w5.subrange(0, w4.len() as int));
        }
        let _ = self.5.serialize(writer);
        let ghost w6 = writer@;
        proof {
            assert(w5 =~= w6.subrange(0, w5.len() as int));
        }
        let _ = self.6.serialize(writer);
        let ghost w7 = writer@;
        proof {
            assert(w6 =~= w7.subrange(0, w6.len() as int));
        }
        let _ = self.7.serialize(writer);
        let ghost w8 = writer@;
        proof {
            assert(w7 =~= w8.subrange(0, w7.len() as int));
        }
        let _ = self.8.serialize(writer);
        let ghost w9 = writer@;
        proof {
            assert(w8 =~= w9.subrange(0, w8.len() as int));
        }
        let _ = self.9.serialize(writer);
        let ghost w10 = writer@;
        proof {
            assert(w9 =~= w10.subrange(0, w9.len() as int));
        }
        let _ = self.10.serialize(writer);
        let ghost w11 = writer@;
        proof {
            assert(w10 =~= w11.subrange(0, w10.len() as int));
        }
        proof {
            assert(w9 =~= w11.subrange(0, w9.len() as int));
            assert(w8 =~= w11.subrange(0, w8.len() as int));
            assert(w7 =~= w11.subrange(0, w7.len() as int));
            assert(w6 =~= w11.subrange(0, w6.len() as int));
            assert(w5 =~= w11.subrange(0, w5.len() as int));
            assert(w4 =~= w11.subrange(0, w4.len() as int));
            assert(w3 =~= w11.subrange(0, w3.len() as int));
            assert(w2 =~= w11.subrange(0, w2.len() as int));
            assert(w1 =~= w11.subrange(0, w1.len() as int));
            assert(w0 =~= w11.subrange(0, w0.len() as int));
            let w = w11.skip(w0.len() as int);
            assert(w.subrange(0, w1.len() - w0.len()) =~= w1.skip(w0.len() as int));
            assert(w.subrange(w1.len() - w0.len(), w2.len() - w0.len()) =~= w2.skip(w1.len() as int));
            assert(w.subrange(w2.len() - w0.len(), w3.len() - w0.len()) =~= w3.skip(w2.len() as int));
            assert(w.subrange(w3.len() - w0.len(), w4.len() - w0.len()) =~= w4.skip(w3.len() as int));
            assert(w.subrange(w4.len() - w0.len(), w5.len() - w0.len()) =~= w5.skip(w4.len() as int));
            assert(w.subrange(w5.len() - w0.len(), w6.len() - w0.len()) =~= w6.skip(w5.len() as int));
            assert(w.subrange(w6.len() - w0.len(), w7.len() - w0.len()) =~= w7.skip(w6.len() as int));
            assert(w.subrange(w7.len() - w0.len(), w8.len() - w0.len()) =~= w8.skip(w7.len() as int));
            assert(w.subrange(w8.len() - w0.len(), w9.len() - w0.len()) =~= w9.skip(w8.len() as int));
            assert(w.subrange(w9.len() - w0.len(), w10.len() - w0.len()) =~= w10.skip(w9.len() as int));
            assert(w.subrange(w10.len() - w0.len(), w11.len() - w0.len()) =~= w11.skip(w10.len() as int));
            let (j1, j2, j3, j4, j5, j6, j7, j8, j9, j10) = (w1.len() - w0.len(), w2.len() - w0.len(), w3.len() - w0.len(), w4.len() - w0.len(), w5.len() - w0.len(), w6.len() - w0.len(), w7.len() - w0.len(), w8.len() - w0.len(), w9.len() - w0.len(), w10.len() - w0.len());
            assert(self.0.serializes_as(w.subrange(0, j1)) && self.1.serializes_as(w.subrange(j1, j2)) && self.2.serializes_as(w.subrange(j2, j3)) && self.3.serializes_as(w.subrange(j3, j4)) && self.4.serializes_as(w.subrange(j4, j5)) && self.5.serializes_as(w.subrange(j5, j6)) && self.6.serializes_as(w.subrange(j6, j7)) && self.7.serializes_as(w.subrange(j7, j8)) && self.8.serializes_as(w.subrange(j8, j9)) && self.9.serializes_as(w.subrange(j9, j10)) && self.10.serializes_as(w.subrange(j10, w.len() as int)));
        }
        Ok(())
    }
}

impl<T1: MemoryPackDeserialize, T2: MemoryPackDeserialize, T3: MemoryPackDeserialize, T4: MemoryPackDeserialize, T5: MemoryPackDeserialize, T6: MemoryPackDeserialize, T7: MemoryPackDeserialize, T8: MemoryPackDeserialize, T9: MemoryPackDeserialize, T10: MemoryPackDeserialize, T11: MemoryPackDeserialize> MemoryPackDeserialize for (T1, T2, T3, T4, T5, T6, T7, T8, T9, T10, T11) {
    type Model = (T1::Model, T2::Model, T3::Model, T4::Model, T5::Model, T6::Model, T7::Model, T8::Model, T9::Model, T10::Model, T11::Model);

    open spec fn model(&self) -> (T1::Model, T2::Model, T3::Model, T4::Model, T5::Model, T6::Model, T7::Model, T8::Model, T9::Model, T10::Model, T11::Model) {
        (self.0.model(), self.1.model(), self.2.model(), self.3.model(), self.4.model(), self.5.model(), self.6.model(), self.7.model(), self.8.model(), self.9.model(), self.10.model())
    }

    open spec fn spec_deserialize(bytes: Seq<u8>) -> Decoded<(T1::Model, T2::Model, T3::Model, T4::Model, T5::Model, T6::Model, T7::Model, T8::Model, T9::Model, T10::Model, T11::Model)> {
        { let (r0, k0) = T1::spec_deserialize(bytes); match r0 { Err(e) => (Err(e), k0), Ok(v0) => { let (r1, k1) = T2::spec_deserialize(bytes.skip(k0)); match r1 { Err(e) => (Err(e), k0 + k1), Ok(v1) => { let (r2, k2) = T3::spec_deserialize(bytes.skip(k0 + k1)); match r2 { Err(e) => (Err(e), k0 + k1 + k2), Ok(v2) => { let (r3, k3) = T4::spec_deserialize(bytes.skip(k0 + k1 + k2)); match r3 { Err(e) => (Err(e), k0 + k1 + k2 + k3), Ok(v3) => { let (r4, k4) = T5::spec_deserialize(bytes.skip(k0 + k1 + k2 + k3)); match r4 { Err(e) => (Err(e), k0 + k1 + k2 + k3 + k4), Ok(v4) => { let (r5, k5) = T6::spec_deserialize(bytes.skip(k0 + k1 + k2 + k3 + k4)); match r5 { Err(e) => (Err(e), k0 + k1 + k2 + k3 + k4 + k5), Ok(v5) => { let (r6, k6) = T7::spec_deserialize(bytes.skip(k0 + k1 + k2 + k3 + k4 + k5)); match r6 { Err(e) => (Err(e), k0 + k1 + k2 + k3 + k4 + k5 + k6), Ok(v6) => { let (r7, k7) = T8::spec_deserialize(bytes.skip(k0 + k1 + k2 + k3 + k4 + k5 + k6)); match r7 { Err(e) => (Err(e), k0 + k1 + k2 + k3 + k4 + k5 + k6 + k7), Ok(v7) => { let (r8, k8) = T9::spec_deserialize(bytes.skip(k0 + k1 + k2 + k3 + k4 + k5 + k6 + k7)); match r8 { Err(e) => (Err(e), k0 + k1 + k2 + k3 + k4 + k5 + k6 + k7 + k8), Ok(v8) => { let (r9, k9) = T10::spec_deserialize(bytes.skip(k0 + k1 + k2 + k3 + k4 + k5 + k6 + k7 + k8)); match r9 { Err(e) => (Err(e), k0 + k1 + k2 + k3 + k4 + k5 + k6 + k7 + k8 + k9), Ok(v9) => { let (r10, k10) = T11::spec_deserialize(bytes.skip(k0 + k1 + k2 + k3 + k4 + k5 + k6 + k7 + k8 + k9)); match r10 { Err(e) => (Err(e), k0 + k1 + k2 + k3 + k4 + k5 + k6 + k7 + k8 + k9 + k10), Ok(v10) => (Ok((v0, v1, v2, v3, v4, v5, v6, v7, v8, v9, v10)), k0 + k1 + k2 + k3 + k4 + k5 + k6 + k7 + k8 + k9 + k10) } } } } } } } } } } } } } } } } } } } } } }
    }

    fn deserialize(reader: &mut MemoryPackReader) -> (r: Result<Self, MemoryPackError>) {
        let ghost b = reader.rest();
        let ghost p0 = reader.pos();
        proof {
            assert(reader.rest() =~= b.skip(reader.pos() - p0));
        }
        let v0 = match T1::deserialize(reader) {
            Ok(v) => v,
            Err(e) => return Err(e),
        };
        proof {
            assert(reader.rest() =~= b.skip(reader.pos() - p0));
        }
        let v1 = match T2::deserialize(reader) {
            Ok(v) => v,
            Err(e) => return Err(e),
        };
        proof {
            assert(reader.rest() =~= b.skip(reader.pos() - p0));
        }
        let v2 = match T3::deserialize(reader) {
            Ok(v) => v,
            Err(e) => return Err(e),
        };
        proof {
            assert(reader.rest() =~= b.skip(reader.pos() - p0));
        }
        let v3 = match T4::deserialize(reader) {
            Ok(v) => v,
            Err(e) => return Err(e),
        };
        proof {
            assert(reader.rest() =~= b.skip(reader.pos() - p0));
        }
        let v4 = match T5::deserialize(reader) {
            Ok(v) => v,
            Err(e) => return Err(e),
        };
        proof {
            assert(reader.rest() =~= b.skip(reader.pos() - p0));
        }
        let v5 = match T6::deserialize(reader) {
            Ok(v) => v,
            Err(e) => return Err(e),
        };
        proof {
            assert(reader.rest() =~= b.skip(reader.pos() - p0));
        }
        let v6 = match T7::deserialize(reader) {
            Ok(v) => v,
            Err(e) => return Err(e),
        };
        proof {
            assert(reader.rest() =~= b.skip(reader.pos() - p0));
        }
        let v7 = match T8::deserialize(reader) {
            Ok(v) => v,
            Err(e) => return Err(e),
        };
        proof {
            assert(reader.rest() =~= b.skip(reader.pos() - p0));
        }
        let v8 = match T9::deserialize(reader) {
            Ok(v) => v,
            Err(e) => return Err(e),
        };
        proof {
            assert(reader.rest() =~= b.skip(reader.pos() - p0));
        }
        let v9 = match T10::deserialize(reader) {
            Ok(v) => v,
            Err(e) => return Err(e),
        };
        proof {
            assert(reader.rest() =~= b.skip(reader.pos() - p0));
        }
        let v10 = match T11::deserialize(reader) {
            Ok(v) => v,
            Err(e) => return Err(e),
        };
        Ok((v0, v1, v2, v3, v4, v5, v6, v7, v8, v9, v10))
    }
}

impl<T1: MemoryPackRoundTrip, T2: MemoryPackRoundTrip, T3: MemoryPackRoundTrip, T4: MemoryPackRoundTrip, T5: MemoryPackRoundTrip, T6: MemoryPackRoundTrip, T7: MemoryPackRoundTrip, T8: MemoryPackRoundTrip, T9: MemoryPackRoundTrip, T10: MemoryPackRoundTrip, T11: MemoryPackRoundTrip> MemoryPackRoundTrip for (T1, T2, T3, T4, T5, T6, T7, T8, T9, T10, T11) {
    open spec fn fits_format(&self) -> bool {
        self.0.fits_format() && self.1.fits_format() && self.2.fits_format() && self.3.fits_format() && self.4.fits_format() && self.5.fits_format() && self.6.fits_format() && self.7.fits_format() && self.8.fits_format() && self.9.fits_format() && self.10.fits_format()
    }

    proof fn lemma_round_trip(&self, bytes: Seq<u8>, rest: Seq<u8>) {
        let (j1, j2, j3, j4, j5, j6, j7, j8, j9, j10) = choose|j1: int, j2: int, j3: int, j4: int, j5: int, j6: int, j7: int, j8: int, j9: int, j10: int| #![trigger self.0.serializes_as(bytes.subrange(0, j1)), self.1.serializes_as(bytes.subrange(j1, j2)), self.2.serializes_as(bytes.subrange(j2, j3)), self.3.serializes_as(bytes.subrange(j3, j4)), self.4.serializes_as(bytes.subrange(j4, j5)), self.5.serializes_as(bytes.subrange(j5, j6)), self.6.serializes_as(bytes.subrange(j6, j7)), self.7.serializes_as(bytes.subrange(j7, j8)), self.8.serializes_as(bytes.subrange(j8, j9)), self.9.serializes_as(bytes.subrange(j9, j10)), self.10.serializes_as(bytes.subrange(j10, bytes.len() as int))] 0 <= j1 <= j2 <= j3 <= j4 <= j5 <= j6 <= j7 <= j8 <= j9 <= j10 <= bytes.len() && self.0.serializes_as(bytes.subrange(0, j1)) && self.1.serializes_as(bytes.subrange(j1, j2)) && self.2.serializes_as(bytes.subrange(j2, j3)) && self.3.serializes_as(bytes.subrange(j3, j4)) && self.4.serializes_as(bytes.subrange(j4, j5)) && self.5.serializes_as(bytes.subrange(j5, j6)) && self.6.serializes_as(bytes.subrange(j6, j7)) && self.7.serializes_as(bytes.subrange(j7, j8)) && self.8.serializes_as(bytes.subrange(j8, j9)) && self.9.serializes_as(bytes.subrange(j9, j10)) && self.10.serializes_as(bytes.subrange(j10, bytes.len() as int));
        let all = bytes + rest;
        assert(all =~= bytes.subrange(0, j1) + (bytes.skip(j1) + rest));
        self.0.lemma_round_trip(bytes.subrange(0, j1), bytes.skip(j1) + rest);
        assert(all.skip(j1) =~= bytes.subrange(j1, j2) + (bytes.skip(j2) + rest));
        self.1.lemma_round_trip(bytes.subrange(j1, j2), bytes.skip(j2) + rest);
        assert(all.skip(j2) =~= bytes.subrange(j2, j3) + (bytes.skip(j3) + rest));
        self.2.lemma_round_trip(bytes.subrange(j2, j3), bytes.skip(j3) + rest);
        assert(all.skip(j3) =~= bytes.subrange(j3, j4) + (bytes.skip(j4) + rest));
        self.3.lemma_round_trip(bytes.subrange(j3, j4), bytes.skip(j4) + rest);
        assert(all.skip(j4) =~= bytes.subrange(j4, j5) + (bytes.skip(j5) + rest));
        self.4.lemma_round_trip(bytes.subrange(j4, j5), bytes.skip(j5) + rest);
        assert(all.skip(j5) =~= bytes.subrange(j5, j6) + (bytes.skip(j6) + rest));
        self.5.lemma_round_trip(bytes.subrange(j5, j6), bytes.skip(j6) + rest);
        assert(all.skip(j6) =~= bytes.subrange(j6, j7) + (bytes.skip(j7) + rest));
        self.6.lemma_round_trip(bytes.subrange(j6, j7), bytes.skip(j7) + rest);
        assert(all.skip(j7) =~= bytes.subrange(j7, j8) + (bytes.skip(j8) + rest));
        self.7.lemma_round_trip(bytes.subrange(j7, j8), bytes.skip(j8) + rest);
        assert(all.skip(j8) =~= bytes.subrange(j8, j9) + (bytes.skip(j9) + rest));
        self.8.lemma_round_trip(bytes.subrange(j8, j9), bytes.skip(j9) + rest);
        assert(all.skip(j9) =~= bytes.subrange(j9, j10) + (bytes.skip(j10) + rest));
        self.9.lemma_round_trip(bytes.subrange(j9, j10), bytes.skip(j10) + rest);
        assert(all.skip(j10) =~= bytes.subrange(j10, bytes.len() as int) + (bytes.skip(bytes.len() as int) + rest));
        self.10.lemma_round_trip(bytes.subrange(j10, bytes.len() as int), bytes.skip(bytes.len() as int) + rest);
    }
}

impl<T1: MemoryPackSerialize, T2: MemoryPackSerialize, T3: MemoryPackSerialize, T4: MemoryPackSerialize, T5: MemoryPackSerialize, T6: MemoryPackSerialize, T7: MemoryPackSerialize, T8: MemoryPackSerialize, T9: MemoryPackSerialize, T10: MemoryPackSerialize, T11: MemoryPackSerialize, T12: MemoryPackSerialize> MemoryPackSerialize for (T1, T2, T3, T4, T5, T6, T7, T8, T9, T10, T11, T12) {
    open spec fn serializes_as(&self, bytes: Seq<u8>) -> bool {
        exists|j1: int, j2: int, j3: int, j4: int, j5: int, j6: int, j7: int, j8: int, j9: int, j10: int, j11: int| #![trigger self.0.serializes_as(bytes.subrange(0, j1)), self.1.serializes_as(bytes.subrange(j1, j2)), self.2.serializes_as(bytes.subrange(j2, j3)), self.3.serializes_as(bytes.subrange(j3, j4)), self.4.serializes_as(bytes.subrange(j4, j5)), self.5.serializes_as(bytes.subrange(j5, j6)), self.6.serializes_as(bytes.subrange(j6, j7)), self.7.serializes_as(bytes.subrange(j7, j8)), self.8.serializes_as(bytes.subrange(j8, j9)), self.9.serializes_as(bytes.subrange(j9, j10)), self.10.serializes_as(bytes.subrange(j10, j11)), self.11.serializes_as(bytes.subrange(j11, bytes.len() as int))] 0 <= j1 <= j2 <= j3 <= j4 <= j5 <= j6 <= j7 <= j8 <= j9 <= j10 <= j11 <= bytes.len() && self.0.serializes_as(bytes.subrange(0, j1)) && self.1.serializes_as(bytes.subrange(j1, j2)) && self.2.serializes_as(bytes.subrange(j2, j3)) && self.3.serializes_as(bytes.subrange(j3, j4)) && self.4.serializes_as(bytes.subrange(j4, j5)) && self.5.serializes_as(bytes.subrange(j5, j6)) && self.6.serializes_as(bytes.subrange(j6, j7)) && self.7.serializes_as(bytes.subrange(j7, j8)) && self.8.serializes_as(bytes.subrange(j8, j9)) && self.9.serializes_as(bytes.subrange(j9, j10)) && self.10.serializes_as(bytes.subrange(j10, j11)) && self.11.serializes_as(bytes.subrange(j11, bytes.len() as int))
    }

    fn serialize(&self, writer: &mut MemoryPackWriter) -> (r: Result<(), MemoryPackError>) {
        let ghost w0 = writer@;
        let _ = self.0.serialize(writer);
        let ghost w1 = writer@;
        proof {
            assert(w0 =~= w1.subrange(0, w0.len() as int));
        }
        let _ = self.1.serialize(writer);
        let ghost w2 = writer@;
        proof {
            assert(w1 =~= w2.subrange(0, w1.len() as int));
        }
        let _ = self.2.serialize(writer);
        let ghost w3 = writer@;
        proof {
            assert(w2 =~= w3.subrange(0, w2.len() as int));
        }
        let _ = self.3.serialize(writer);
        let ghost w4 = writer@;
        proof {
            assert(w3 =~= w4.subrange(0, w3.len() as int));
        }
        let _ = self.4.serialize(writer);
        let ghost w5 = writer@;
        proof {
            assert(w4 =~= w5.subrange(0, w4.len() as int));
        }
        let _ = self.5.serialize(writer);
        let ghost w6 = writer@;
        proof {
            assert(w5 =~= w6.subrange(0, w5.len() as int));
        }
        let _ = self.6.serialize(writer);
        let ghost w7 = writer@;
        proof {
            assert(w6 =~= w7.subrange(0, w6.len() as int));
        }
        let _ = self.7.serialize(writer);
        let ghost w8 = writer@;
        proof {
            assert(w7 =~= w8.subrange(0, w7.len() as int));
        }
        let _ = self.8.serialize(writer);
        let ghost w9 = writer@;
        proof {
            assert(w8 =~= w9.subrange(0, w8.len() as int));
        }
        let _ = self.9.serialize(writer);
        let ghost w10 = writer@;
        proof {
            assert(w9 =~= w10.subrange(0, w9.len() as int));
        }
        let _ = self.10.serialize(writer);
        let ghost w11 = writer@;
        proof {
            assert(w10 =~= w11.subrange(0, w10.len() as int));
        }
        let _ = self.11.serialize(writer);
        let ghost w12 = writer@;
        proof {
            assert(w11 =~= w12.subrange(0, w11.len() as int));
        }
        proof {
            assert(w10 =~= w12.subrange(0, w10.len() as int));
            assert(w9 =~= w12.subrange(0, w9.len() as int));
            assert(w8 =~= w12.subrange(0, w8.len() as int));
            assert(w7 =~= w12.subrange(0, w7.len() as int));
            assert(w6 =~= w12.subrange(0, w6.len() as int));
            assert(w5 =~= w12.subrange(0, w5.len() as int));
            assert(w4 =~= w12.subrange(0, w4.len() as int));
            assert(w3 =~= w12.subrange(0, w3.len() as int));
            assert(w2 =~= w12.subrange(0, w2.len() as int));
            assert(w1 =~= w12.subrange(0, w1.len() as int));
            assert(w0 =~= w12.subrange(0, w0.len() as int));
            let w = w12.skip(w0.len() as int);
            assert(w.subrange(0, w1.len() - w0.len()) =~= w1.skip(w0.len() as int));
            assert(w.subrange(w1.len() - w0.len(), w2.len() - w0.len()) =~= w2.skip(w1.len() as int));
            assert(w.subrange(w2.len() - w0.len(), w3.len() - w0.len()) =~= w3.skip(w2.len() as int));
            assert(w.subrange(w3.len() - w0.len(), w4.len() - w0.len()) =~= w4.skip(w3.len() as int));
            assert(w.subrange(w4.len() - w0.len(), w5.len() - w0.len()) =~= w5.skip(w4.len() as int));
            assert(w.subrange(w5.len() - w0.len(), w6.len() - w0.len()) =~= w6.skip(w5.len() as int));
            assert(w.subrange(w6.len() - w0.len(), w7.len() - w0.len()) =~= w7.skip(w6.len() as int));
            assert(w.subrange(w7.len() - w0.len(), w8.len() - w0.len()) =~= w8.skip(w7.len() as int));
            assert(w.subrange(w8.len() - w0.len(), w9.len() - w0.len()) =~= w9.skip(w8.len() as int));
            assert(w.subrange(w9.len() - w0.len(), w10.len() - w0.len()) =~= w10.skip(w9.len() as int));
            assert(w.subrange(w10.len() - w0.len(), w11.len() - w0.len()) =~= w11.skip(w10.len() as int));
            assert(w.subrange(w11.len() - w0.len(), w12.len() - w0.len()) =~= w12.skip(w11.len() as int));
            let (j1, j2, j3, j4, j5, j6, j7, j8, j9, j10, j11) = (w1.len() - w0.len(), w2.len() - w0.len(), w3.len() - w0.len(), w4.len() - w0.len(), w5.len() - w0.len(), w6.len() - w0.len(), w7.len() - w0.len(), w8.len() - w0.len(), w9.len() - w0.len(), w10.len() - w0.len(), w11.len() - w0.len());
            assert(self.0.serializes_as(w.subrange(0, j1)) && self.1.serializes_as(w.subrange(j1, j2)) && self.2.serializes_as(w.subrange(j2, j3)) && self.3.serializes_as(w.subrange(j3, j4)) && self.4.serializes_as(w.subrange(j4, j5)) && self.5.serializes_as(w.subrange(j5, j6)) && self.6.serializes_as(w.subrange(j6, j7)) && self.7.serializes_as(w.subrange(j7, j8)) && self.8.serializes_as(w.subrange(j8, j9)) && self.9.serializes_as(w.subrange(j9, j10)) && self.10.serializes_as(w.subrange(j10, j11)) && self.11.serializes_as(w.subrange(j11, w.len() as int)));
        }
        Ok(())
    }
}

impl<T1: MemoryPackDeserialize, T2: MemoryPackDeserialize, T3: MemoryPackDeserialize, T4: MemoryPackDeserialize, T5: MemoryPackDeserialize, T6: MemoryPackDeserialize, T7: MemoryPackDeserialize, T8: MemoryPackDeserialize, T9: MemoryPackDeserialize, T10: MemoryPackDeserialize, T11: MemoryPackDeserialize, T12: MemoryPackDeserialize> MemoryPackDeserialize for (T1, T2, T3, T4, T5, T6, T7, T8, T9, T10, T11, T12) {
    type Model = (T1::Model, T2::Model, T3::Model, T4::Model, T5::Model, T6::Model, T7::Model, T8::Model, T9::Model, T10::Model, T11::Model, T12::Model);

    open spec fn model(&self) -> (T1::Model, T2::Model, T3::Model, T4::Model, T5::Model, T6::Model, T7::Model, T8::Model, T9::Model, T10::Model, T11::Model, T12::Model) {
        (self.0.model(), self.1.model(), self.2.model(), self.3.model(), self.4.model(), self.5.model(), self.6.model(), self.7.model(), self.8.model(), self.9.model(), self.10.model(), self.11.model())
    }

    open spec fn spec_deserialize(bytes: Seq<u8>) -> Decoded<(T1::Model, T2::Model, T3::Model, T4::Model, T5::Model, T6::Model, T7::Model, T8::Model, T9::Model, T10::Model, T11::Model, T12::Model)> {
        { let (r0, k0) = T1::spec_deserialize(bytes); match r0 { Err(e) => (Err(e), k0), Ok(v0) => { let (r1, k1) = T2::spec_deserialize(bytes.skip(k0)); match r1 { Err(e) => (Err(e), k0 + k1), Ok(v1) => { let (r2, k2) = T3::spec_deserialize(bytes.skip(k0 + k1)); match r2 { Err(e) => (Err(e), k0 + k1 + k2), Ok(v2) => { let (r3, k3) = T4::spec_deserialize(bytes.skip(k0 + k1 + k2)); match r3 { Err(e) => (Err(e), k0 + k1 + k2 + k3), Ok(v3) => { let (r4, k4) = T5::spec_deserialize(bytes.skip(k0 + k1 + k2 + k3)); match r4 { Err(e) => (Err(e), k0 + k1 + k2 + k3 + k4), Ok(v4) => { let (r5, k5) = T6::spec_deserialize(bytes.skip(k0 + k1 + k2 + k3 + k4)); match r5 { Err(e) => (Err(e), k0 + k1 + k2 + k3 + k4 + k5), Ok(v5) => { let (r6, k6) = T7::spec_deserialize(bytes.skip(k0 + k1 + k2 + k3 + k4 + k5)); match r6 { Err(e) => (Err(e), k0 + k1 + k2 + k3 + k4 + k5 + k6), Ok(v6) => { let (r7, k7) = T8::spec_deserialize(bytes.skip(k0 + k1 + k2 + k3 + k4 + k5 + k6)); match r7 { Err(e) => (Err(e), k0 + k1 + k2 + k3 + k4 + k5 + k6 + k7), Ok(v7) => { let (r8, k8) = T9::spec_deserialize(bytes.skip(k0 + k1 + k2 + k3 + k4 + k5 + k6 + k7)); match r8 { Err(e) => (Err(e), k0 + k1 + k2 + k3 + k4 + k5 + k6 + k7 + k8), Ok(v8) => { let (r9, k9) = T10::spec_deserialize(bytes.skip(k0 + k1 + k2 + k3 + k4 + k5 + k6 + k7 + k8)); match r9 { Err(e) => (Err(e), k0 + k1 + k2 + k3 + k4 + k5 + k6 + k7 + k8 + k9), Ok(v9) => { let (r10, k10) = T11::spec_deserialize(bytes.skip(k0 + k1 + k2 + k3 + k4 + k5 + k6 + k7 + k8 + k9)); match r10 { Err(e) => (Err(e), k0 + k1 + k2 + k3 + k4 + k5 + k6 + k7 + k8 + k9 + k10), Ok(v10) => { let (r11, k11) = T12::spec_deserialize(bytes.skip(k0 + k1 + k2 + k3 + k4 + k5 + k6 + k7 + k8 + k9 + k10)); match r11 { Err(e) => (Err(e), k0 + k1 + k2 + k3 + k4 + k5 + k6 + k7 + k8 + k9 + k10 + k11), Ok(v11) => (Ok((v0, v1, v2, v3, v4, v5, v6, v7, v8, v9, v10, v11)), k0 + k1 + k2 + k3 + k4 + k5 + k6 + k7 + k8 + k9 + k10 + k11) } } } } } } } } } } } } } } } } } } } } } } } }
    }

    fn deserialize(reader: &mut MemoryPackReader) -> (r: Result<Self, MemoryPackError>) {
        let ghost b = reader.rest();
        let ghost p0 = reader.pos();
        proof {
            assert(reader.rest() =~= b.skip(reader.pos() - p0));
        }
        let v0 = match T1::deserialize(reader) {
            Ok(v) => v,
            Err(e) => return Err(e),
        };
        proof {
            assert(reader.rest() =~= b.skip(reader.pos() - p0));
        }
        let v1 = match T2::deserialize(reader) {
            Ok(v) => v,
            Err(e) => return Err(e),
        };
        proof {
            assert(reader.rest() =~= b.skip(reader.pos() - p0));
        }
        let v2 = match T3::deserialize(reader) {
            Ok(v) => v,
            Err(e) => return Err(e),
        };
        proof {
            assert(reader.rest() =~= b.skip(reader.pos() - p0));
        }
        let v3 = match T4::deserialize(reader) {
            Ok(v) => v,
            Err(e) => return Err(e),
        };
        proof {
            assert(reader.rest() =~= b.skip(reader.pos() - p0));
        }
        let v4 = match T5::deserialize(reader) {
            Ok(v) => v,
            Err(e) => return Err(e),
        };
        proof {
            assert(reader.rest() =~= b.skip(reader.pos() - p0));
        }
        let v5 = match T6::deserialize(reader) {
            Ok(v) => v,
            Err(e) => return Err(e),
        };
        proof {
            assert(reader.rest() =~= b.skip(reader.pos() - p0));
        }
        let v6 = match T7::deserialize(reader) {
            Ok(v) => v,
            Err(e) => return Err(e),
        };
        proof {
            assert(reader.rest() =~= b.skip(reader.pos() - p0));
        }
        let v7 = match T8::deserialize(reader) {
            Ok(v) => v,
            Err(e) => return Err(e),
        };
        proof {
            assert(reader.rest() =~= b.skip(reader.pos() - p0));
        }
        let v8 = match T9::deserialize(reader) {
            Ok(v) => v,
            Err(e) => return Err(e),
        };
        proof {
            assert(reader.rest() =~= b.skip(reader.pos() - p0));
        }
        let v9 = match T10::deserialize(reader) {
            Ok(v) => v,
            Err(e) => return Err(e),
        };
        proof {
            assert(reader.rest() =~= b.skip(reader.pos() - p0));
        }
        let v10 = match T11::deserialize(reader) {
            Ok(v) => v,
            Err(e) => return Err(e),
        };
        proof {
            assert(reader.rest() =~= b.skip(reader.pos() - p0));
        }
        let v11 = match T12::deserialize(reader) {
            Ok(v) => v,
            Err(e) => return Err(e),
        };
        Ok((v0, v1, v2, v3, v4, v5, v6, v7, v8, v9, v10, v11))
    }
}

impl<T1: MemoryPackRoundTrip, T2: MemoryPackRoundTrip, T3: MemoryPackRoundTrip, T4: MemoryPackRoundTrip, T5: MemoryPackRoundTrip, T6: MemoryPackRoundTrip, T7: MemoryPackRoundTrip, T8: MemoryPackRoundTrip, T9: MemoryPackRoundTrip, T10: MemoryPackRoundTrip, T11: MemoryPackRoundTrip, T12: MemoryPackRoundTrip> MemoryPackRoundTrip for (T1, T2, T3, T4, T5, T6, T7, T8, T9, T10, T11, T12) {
    open spec fn fits_format(&self) -> bool {
        self.0.fits_format() && self.1.fits_format() && self.2.fits_format() && self.3.fits_format() && self.4.fits_format() && self.5.fits_format() && self.6.fits_format() && self.7.fits_format() && self.8.fits_format() && self.9.fits_format() && self.10.fits_format() && self.11.fits_format()
    }

    proof fn lemma_round_trip(&self, bytes: Seq<u8>, rest: Seq<u8>) {
        let (j1, j2, j3, j4, j5, j6, j7, j8, j9, j10, j11) = choose|j1: int, j2: int, j3: int, j4: int, j5: int, j6: int, j7: int, j8: int, j9: int, j10: int, j11: int| #![trigger self.0.serializes_as(bytes.subrange(0, j1)), self.1.serializes_as(bytes.subrange(j1, j2)), self.2.serializes_as(bytes.subrange(j2, j3)), self.3.serializes_as(bytes.subrange(j3, j4)), self.4.serializes_as(bytes.subrange(j4, j5)), self.5.serializes_as(bytes.subrange(j5, j6)), self.6.serializes_as(bytes.subrange(j6, j7)), self.7.serializes_as(bytes.subrange(j7, j8)), self.8.serializes_as(bytes.subrange(j8, j9)), self.9.serializes_as(bytes.subrange(j9, j10)), self.10.serializes_as(bytes.subrange(j10, j11)), self.11.serializes_as(bytes.subrange(j11, bytes.len() as int))] 0 <= j1 <= j2 <= j3 <= j4 <= j5 <= j6 <= j7 <= j8 <= j9 <= j10 <= j11 <= bytes.len() && self.0.serializes_as(bytes.subrange(0, j1)) && self.1.serializes_as(bytes.subrange(j1, j2)) && self.2.serializes_as(bytes.subrange(j2, j3)) && self.3.serializes_as(bytes.subrange(j3, j4)) && self.4.serializes_as(bytes.subrange(j4, j5)) && self.5.serializes_as(bytes.subrange(j5, j6)) && self.6.serializes_as(bytes.subrange(j6, j7)) && self.7.serializes_as(bytes.subrange(j7, j8)) && self.8.serializes_as(bytes.subrange(j8, j9)) && self.9.serializes_as(bytes.subrange(j9, j10)) && self.10.serializes_as(bytes.subrange(j10, j11)) && self.11.serializes_as(bytes.subrange(j11, bytes.len() as int));
        let all = bytes + rest;
        assert(all =~= bytes.subrange(0, j1) + (bytes.skip(j1) + rest));
        self.0.lemma_round_trip(bytes.subrange(0, j1), bytes.skip(j1) + rest);
        assert(all.skip(j1) =~= bytes.subrange(j1, j2) + (bytes.skip(j2) + rest));
        self.1.lemma_round_trip(bytes.subrange(j1, j2), bytes.skip(j2) + rest);
        assert(all.skip(j2) =~= bytes.subrange(j2, j3) + (bytes.skip(j3) + rest));
        self.2.lemma_round_trip(bytes.subrange(j2, j3), bytes.skip(j3) + rest);
        assert(all.skip(j3) =~= bytes.subrange(j3, j4) + (bytes.skip(j4) + rest));
        self.3.lemma_round_trip(bytes.subrange(j3, j4), bytes.skip(j4) + rest);
        assert(all.skip(j4) =~= bytes.subrange(j4, j5) + (bytes.skip(j5) + rest));
        self.4.lemma_round_trip(bytes.subrange(j4, j5), bytes.skip(j5) + rest);
        assert(all.skip(j5) =~= bytes.subrange(j5, j6) + (bytes.skip(j6) + rest));
        self.5.lemma_round_trip(bytes.subrange(j5, j6), bytes.skip(j6) + rest);
        assert(all.skip(j6) =~= bytes.subrange(j6, j7) + (bytes.skip(j7) + rest));
        self.6.lemma_round_trip(bytes.subrange(j6, j7), bytes.skip(j7) + rest);
        assert(all.skip(j7) =~= bytes.subrange(j7, j8) + (bytes.skip(j8) + rest));
        self.7.lemma_round_trip(bytes.subrange(j7, j8), bytes.skip(j8) + rest);
        assert(all.skip(j8) =~= bytes.subrange(j8, j9) + (bytes.skip(j9) + rest));
        self.8.lemma_round_trip(bytes.subrange(j8, j9), bytes.skip(j9) + rest);
        assert(all.skip(j9) =~= bytes.subrange(j9, j10) + (bytes.skip(j10) + rest));
        self.9.lemma_round_trip(bytes.subrange(j9, j10), bytes.skip(j10) + rest);
        assert(all.skip(j10) =~= bytes.subrange(j10, j11) + (bytes.skip(j11) + rest));
        self.10.lemma_round_trip(bytes.subrange(j10, j11), bytes.skip(j11) + rest);
        assert(all.skip(j11) =~= bytes.subrange(j11, bytes.len() as int) + (bytes.skip(bytes.len() as int) + rest));
        self.11.lemma_round_trip(bytes.subrange(j11, bytes.len() as int), bytes.skip(bytes.len() as int) + rest);
    }
}

} // verus!
