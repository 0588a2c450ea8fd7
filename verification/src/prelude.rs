//! The items most users need, for a glob import.
pub use crate::error::MemoryPackError;
pub use crate::reader::MemoryPackReader;
pub use crate::serializer::MemoryPackSerializer;
pub use crate::traits::{MemoryPackDeserialize, MemoryPackSerialize};
pub use crate::writer::MemoryPackWriter;
