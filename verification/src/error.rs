//! The errors of this library.
use vstd::prelude::*;

verus! {

/// Why an operation of this library failed.
#[derive(Debug, Clone, Copy, PartialEq, Eq, Structural)]
pub enum GitError {
    /// A hash text that is not 40 bytes long.
    UnexpectedShaLength,
    /// Raw hash bytes that are not 20 bytes long.
    ShaChunkLength,
    /// Fewer than 20 bytes left where a raw hash was expected.
    NotEnoughData,
    /// An object kind name other than `blob`, `tree` or `commit`.
    UnknownKind,
    /// An object kind that has no name to write.
    UnsupportedKind,
    /// A header without a valid decimal size.
    MissingSize,
    /// Object data without the NUL that ends its header.
    MissingHeaderEnd,
    /// An object header without a space after its kind.
    MissingKind,
    /// Text that is not valid UTF-8.
    InvalidUtf8,
    /// An object that is not a blob where one was expected.
    NotABlob,
    /// An object that is not a tree where one was expected.
    NotATree,
    /// A tree listing asked for with more than names.
    OnlyNamesSupported,
    /// A zlib stream that could not be read.
    Decompress,
    /// A zlib stream that could not be written.
    Compress,
    /// A ref line without a space between hash and name.
    RefFormat,
    /// A ref line whose length prefix is no hexadecimal number.
    RefSize,
    /// A pack shorter than its header or checksum.
    PackTooShort,
    /// A pack that does not start with `PACK`.
    PackSignature,
    /// A pack entry cut off inside its descriptor.
    PackEntryTruncated,
    /// A pack entry of a type this library does not read.
    PackEntryUnsupported,
}

} // verus!
