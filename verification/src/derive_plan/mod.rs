//! The decisions of the `MemoryPackable` derive, made over plain
//! descriptions of the item that the derive is applied to: which attributes
//! it carries, which fields are written and in what order, and which wire
//! layout the generated code uses.
pub mod text;
pub mod attributes;
pub mod fields;
pub mod plan;
