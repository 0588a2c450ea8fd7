//! A verified implementation of the MemoryPack binary serialization format.
pub mod derive_plan;
pub mod encoding;
pub mod error;
pub mod members;
pub mod prelude;
pub mod reader;
pub mod serializer;
pub mod state;
pub mod tags;
pub mod text;
pub mod traits;
pub mod varint;
pub mod writer;

pub use error::MemoryPackError;
pub use reader::MemoryPackReader;
pub use serializer::MemoryPackSerializer;
pub use state::{MemoryPackReaderOptionalState, MemoryPackWriterOptionalState};
pub use traits::multidim::MultiDimArray;
pub use traits::options::{NullableString, NullableVec};
pub use traits::{MemoryPackDeserialize, MemoryPackDeserializeZeroCopy, MemoryPackSerialize};
pub use writer::MemoryPackWriter;
