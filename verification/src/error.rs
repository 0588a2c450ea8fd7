//! The errors of the library, and their kinds as used in contracts.
use vstd::prelude::*;

verus! {

#[verifier::external_type_specification]
#[verifier::external_body]
pub struct ExIoError(std::io::Error);

#[verifier::external_type_specification]
#[verifier::external_body]
pub struct ExFromUtf8Error(std::string::FromUtf8Error);

/// Errors reported while writing or reading the MemoryPack wire format.
#[derive(Debug)]
pub enum MemoryPackError {
    Io(std::io::Error),
    Utf8Error(std::string::FromUtf8Error),
    InvalidUtf8,
    InvalidLength(i32),
    SerializationError(String),
    DeserializationError(String),
    BufferTooSmall,
    UnexpectedEnd,
    UnexpectedEndOfBuffer,
    Utf16NotSupportedForZeroCopy,
    InvalidCodePoint,
}

/// The kind of a `MemoryPackError`: its variant together with the plain
/// data it carries (the message strings are not part of the kind).
#[derive(Debug, Clone, Copy, PartialEq, Eq)]
pub enum ErrorKind {
    Io,
    Utf8Error,
    InvalidUtf8,
    InvalidLength(i32),
    SerializationError,
    DeserializationError,
    BufferTooSmall,
    UnexpectedEnd,
    UnexpectedEndOfBuffer,
    Utf16NotSupportedForZeroCopy,
    InvalidCodePoint,
}

impl View for MemoryPackError {
    type V = ErrorKind;

    open spec fn view(&self) -> ErrorKind {
        match self {
            MemoryPackError::Io(_) => ErrorKind::Io,
            MemoryPackError::Utf8Error(_) => ErrorKind::Utf8Error,
            MemoryPackError::InvalidUtf8 => ErrorKind::InvalidUtf8,
            MemoryPackError::InvalidLength(n) => ErrorKind::InvalidLength(*n),
            MemoryPackError::SerializationError(_) => ErrorKind::SerializationError,
            MemoryPackError::DeserializationError(_) => ErrorKind::DeserializationError,
            MemoryPackError::BufferTooSmall => ErrorKind::BufferTooSmall,
            MemoryPackError::UnexpectedEnd => ErrorKind::UnexpectedEnd,
            MemoryPackError::UnexpectedEndOfBuffer => ErrorKind::UnexpectedEndOfBuffer,
            MemoryPackError::Utf16NotSupportedForZeroCopy => ErrorKind::Utf16NotSupportedForZeroCopy,
            MemoryPackError::InvalidCodePoint => ErrorKind::InvalidCodePoint,
        }
    }
}

/// The message that an error carries, where it carries one.
pub open spec fn message_of(e: MemoryPackError) -> Option<Seq<char>> {
    match e {
        MemoryPackError::SerializationError(m) => Some(m@),
        MemoryPackError::DeserializationError(m) => Some(m@),
        _ => None,
    }
}

/// When `r` failed with a deserialization error, its message is `m`.
pub open spec fn refused_with<T>(r: Result<T, MemoryPackError>, m: Seq<char>) -> bool {
    match r {
        Err(e) => e@ == ErrorKind::DeserializationError ==> message_of(e) == Some(m),
        Ok(_) => true,
    }
}

/// The outcome of decoding from the front of a byte sequence: what was
/// decoded (or the kind of error met) and how many bytes were consumed.
pub type Decoded<T> = (Result<T, ErrorKind>, int);

/// `r` is the run-time counterpart of the decoded outcome `o`.
pub open spec fn matches_outcome<T>(r: Result<T, MemoryPackError>, o: Result<T, ErrorKind>) -> bool {
    match r {
        Ok(v) => o == Ok::<T, ErrorKind>(v),
        Err(e) => o == Err::<T, ErrorKind>(e@),
    }
}

} // verus!
