//! Boxed and shared values: written and read as the value they hold.
use crate::error::{Decoded, MemoryPackError};
use crate::reader::MemoryPackReader;
use crate::traits::{MemoryPackDeserialize, MemoryPackRoundTrip, MemoryPackSerialize};
use crate::writer::MemoryPackWriter;
use std::rc::Rc;
use std::sync::Arc;
use vstd::prelude::*;

verus! {

impl<T: MemoryPackSerialize> MemoryPackSerialize for Box<T> {
    open spec fn serializes_as(&self, bytes: Seq<u8>) -> bool {
        (**self).serializes_as(bytes)
    }

    fn serialize(&self, writer: &mut MemoryPackWriter) -> (r: Result<(), MemoryPackError>) {
        (**self).serialize(writer)
    }
}

impl<T: MemoryPackDeserialize> MemoryPackDeserialize for Box<T> {
    type Model = T::Model;

    open spec fn model(&self) -> T::Model {
        (**self).model()
    }

    open spec fn spec_deserialize(bytes: Seq<u8>) -> Decoded<T::Model> {
        T::spec_deserialize(bytes)
    }

    fn deserialize(reader: &mut MemoryPackReader) -> (r: Result<Self, MemoryPackError>) {
        match T::deserialize(reader) {
            Ok(v) => Ok(Box::new(v)),
            Err(e) => Err(e),
        }
    }
}

impl<T: MemoryPackRoundTrip> MemoryPackRoundTrip for Box<T> {
    open spec fn fits_format(&self) -> bool {
        (**self).fits_format()
    }

    proof fn lemma_round_trip(&self, bytes: Seq<u8>, rest: Seq<u8>) {
        (**self).lemma_round_trip(bytes, rest);
    }
}

impl<T: MemoryPackSerialize> MemoryPackSerialize for Rc<T> {
    open spec fn serializes_as(&self, bytes: Seq<u8>) -> bool {
        (**self).serializes_as(bytes)
    }

    fn serialize(&self, writer: &mut MemoryPackWriter) -> (r: Result<(), MemoryPackError>) {
        (**self).serialize(writer)
    }
}

impl<T: MemoryPackDeserialize> MemoryPackDeserialize for Rc<T> {
    type Model = T::Model;

    open spec fn model(&self) -> T::Model {
        (**self).model()
    }

    open spec fn spec_deserialize(bytes: Seq<u8>) -> Decoded<T::Model> {
        T::spec_deserialize(bytes)
    }

    fn deserialize(reader: &mut MemoryPackReader) -> (r: Result<Self, MemoryPackError>) {
        match T::deserialize(reader) {
            Ok(v) => Ok(Rc::new(v)),
            Err(e) => Err(e),
        }
    }
}

impl<T: MemoryPackRoundTrip> MemoryPackRoundTrip for Rc<T> {
    open spec fn fits_format(&self) -> bool {
        (**self).fits_format()
    }

    proof fn lemma_round_trip(&self, bytes: Seq<u8>, rest: Seq<u8>) {
        (**self).lemma_round_trip(bytes, rest);
    }
}

impl<T: MemoryPackSerialize> MemoryPackSerialize for Arc<T> {
    open spec fn serializes_as(&self, bytes: Seq<u8>) -> bool {
        (**self).serializes_as(bytes)
    }

    fn serialize(&self, writer: &mut MemoryPackWriter) -> (r: Result<(), MemoryPackError>) {
        (**self).serialize(writer)
    }
}

impl<T: MemoryPackDeserialize> MemoryPackDeserialize for Arc<T> {
    type Model = T::Model;

    open spec fn model(&self) -> T::Model {
        (**self).model()
    }

    open spec fn spec_deserialize(bytes: Seq<u8>) -> Decoded<T::Model> {
        T::spec_deserialize(bytes)
    }

    fn deserialize(reader: &mut MemoryPackReader) -> (r: Result<Self, MemoryPackError>) {
        match T::deserialize(reader) {
            Ok(v) => Ok(Arc::new(v)),
            Err(e) => Err(e),
        }
    }
}

impl<T: MemoryPackRoundTrip> MemoryPackRoundTrip for Arc<T> {
    open spec fn fits_format(&self) -> bool {
        (**self).fits_format()
    }

    proof fn lemma_round_trip(&self, bytes: Seq<u8>, rest: Seq<u8>) {
        (**self).lemma_round_trip(bytes, rest);
    }
}

} // verus!
