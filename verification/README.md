# memorypack

A Rust implementation of the MemoryPack binary serialization format, verified
with Verus.

- `src/` is the verified library: the wire encodings (`encoding`, `text`,
  `varint`), the reader and writer, the serialization traits and their
  implementations for primitives, strings, sequences, options, tuples, smart
  pointers, multidimensional arrays, maps and sets (those of `std` and of
  `hashbrown`), decimals, big integers, UUIDs and URLs (`traits`), the
  reference-tracking state of circular object graphs (`state`), the member
  frames of the version-tolerant and circular layouts (`members`), the tags
  of unions and discriminants of C-like enums (`tags`), and the decisions
  of the `MemoryPackable` derive (`derive_plan`). Round trips and the other
  laws of the format are proof functions. Where a value's contents come
  from another crate's code, the contracts speak of them through named
  results of that code; the order in which hashed collections are walked is
  not stated.
- `tests/` exercises the library on concrete values.
- `app/` holds what stays outside the verified library: floating-point
  values, `serde` and `thiserror` forms of the library's types, `LinkedList`
  (carried by the library as a `Vec`), and the code generation of the derive.
