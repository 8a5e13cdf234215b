//! The error taxonomy of the importer. Resolution is fail-fast: the first
//! error encountered in document order aborts the whole import.

use vstd::prelude::*;

verus! {

/// Spec-level mirror of `ImportError`, over character sequences.
pub ghost enum ErrorV {
    /// A reference uses a scheme the importer cannot resolve.
    UnsupportedScheme,
    /// The embedded binary blob was needed but not available.
    MissingBlob,
    /// A base64 payload failed to decode.
    InvalidEncoding,
    /// A buffer's bytes fell short of its declared length.
    BufferLength { index: usize, expected: usize, actual: usize },
    /// Encoded image bytes matched no recognized format.
    UnsupportedImageEncoding,
    /// An image references an external file but no base directory was given.
    ExternalReferenceInSliceImport,
    /// The batch loader reported a failure for a fetched path.
    IoError(Seq<char>),
    /// The image codec rejected encoded bytes.
    CodecError(Seq<char>),
}

/// Why an import failed.
#[derive(Clone, Debug, PartialEq, Eq)]
pub enum ImportError {
    /// A reference uses a scheme the importer cannot resolve.
    UnsupportedScheme,
    /// The embedded binary blob was needed but not available.
    MissingBlob,
    /// A base64 payload failed to decode.
    InvalidEncoding,
    /// A buffer's bytes fell short of its declared length.
    BufferLength { index: usize, expected: usize, actual: usize },
    /// Encoded image bytes matched no recognized format.
    UnsupportedImageEncoding,
    /// An image references an external file but no base directory was given.
    ExternalReferenceInSliceImport,
    /// The batch loader reported a failure for a fetched path.
    IoError(String),
    /// The image codec rejected encoded bytes.
    CodecError(String),
}

impl View for ImportError {
    type V = ErrorV;

    open spec fn view(&self) -> ErrorV {
        match self {
            ImportError::UnsupportedScheme => ErrorV::UnsupportedScheme,
            ImportError::MissingBlob => ErrorV::MissingBlob,
            ImportError::InvalidEncoding => ErrorV::InvalidEncoding,
            ImportError::BufferLength { index, expected, actual } => ErrorV::BufferLength {
                index: *index,
                expected: *expected,
                actual: *actual,
            },
            ImportError::UnsupportedImageEncoding => ErrorV::UnsupportedImageEncoding,
            ImportError::ExternalReferenceInSliceImport => ErrorV::ExternalReferenceInSliceImport,
            ImportError::IoError(m) => ErrorV::IoError(m@),
            ImportError::CodecError(m) => ErrorV::CodecError(m@),
        }
    }
}

} // verus!
