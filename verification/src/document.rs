//! The read-only view of a parsed scene document that resolution works on:
//! the buffer and image entries, each with its index and declared source.

use vstd::prelude::*;

verus! {

/// Spec-level mirror of `BufferSource`.
pub ghost enum BufferSourceV {
    /// The single binary blob embedded beside the document.
    Bin,
    /// A URI-like reference.
    Uri(Seq<char>),
}

/// Spec-level mirror of `BufferEntry`.
pub ghost struct BufferEntryV {
    pub index: usize,
    pub source: BufferSourceV,
    pub length: usize,
}

/// Spec-level mirror of `ImageSource`.
pub ghost enum ImageSourceV {
    /// A URI-like reference with an optional media-type hint.
    Uri { uri: Seq<char>, mime_type: Option<Seq<char>> },
    /// A byte range inside a resolved buffer.
    BufferView { buffer_index: usize, offset: usize, length: usize, mime_type: Seq<char> },
}

/// Spec-level mirror of `ImageEntry`.
pub ghost struct ImageEntryV {
    pub index: usize,
    pub source: ImageSourceV,
}

/// Spec-level mirror of `Doc`.
pub ghost struct DocV {
    pub buffers: Seq<BufferEntryV>,
    pub images: Seq<ImageEntryV>,
}

/// Where a document buffer's bytes come from.
#[derive(Clone, Debug, PartialEq, Eq)]
pub enum BufferSource {
    /// The single binary blob embedded beside the document.
    Bin,
    /// A URI-like reference.
    Uri(String),
}

/// One entry of the document's buffer list.
#[derive(Clone, Debug, PartialEq, Eq)]
pub struct BufferEntry {
    /// The buffer's index in the document.
    pub index: usize,
    /// Where its bytes come from.
    pub source: BufferSource,
    /// The byte length the document declares for it.
    pub length: usize,
}

/// Where a document image's encoded bytes come from.
#[derive(Clone, Debug, PartialEq, Eq)]
pub enum ImageSource {
    /// A URI-like reference with an optional media-type hint.
    Uri { uri: String, mime_type: Option<String> },
    /// A byte range inside a resolved buffer.
    BufferView { buffer_index: usize, offset: usize, length: usize, mime_type: String },
}

/// One entry of the document's image list.
#[derive(Clone, Debug, PartialEq, Eq)]
pub struct ImageEntry {
    /// The image's index in the document.
    pub index: usize,
    /// Where its encoded bytes come from.
    pub source: ImageSource,
}

/// The buffer and image entries of a parsed scene document.
#[derive(Clone, Debug, PartialEq, Eq)]
pub struct Doc {
    /// The document's buffer entries.
    pub buffers: Vec<BufferEntry>,
    /// The document's image entries.
    pub images: Vec<ImageEntry>,
}

impl View for BufferEntry {
    type V = BufferEntryV;

    open spec fn view(&self) -> BufferEntryV {
        BufferEntryV {
            index: self.index,
            source: match &self.source {
                BufferSource::Bin => BufferSourceV::Bin,
                BufferSource::Uri(u) => BufferSourceV::Uri(u@),
            },
            length: self.length,
        }
    }
}

impl View for ImageEntry {
    type V = ImageEntryV;

    open spec fn view(&self) -> ImageEntryV {
        ImageEntryV {
            index: self.index,
            source: match &self.source {
                ImageSource::Uri { uri, mime_type } => ImageSourceV::Uri {
                    uri: uri@,
                    mime_type: match mime_type {
                        Some(m) => Some(m@),
                        None => None,
                    },
                },
                ImageSource::BufferView { buffer_index, offset, length, mime_type } => {
                    ImageSourceV::BufferView {
                        buffer_index: *buffer_index,
                        offset: *offset,
                        length: *length,
                        mime_type: mime_type@,
                    }
                },
            },
        }
    }
}

/// The views of a sequence of buffer entries.
pub open spec fn buffer_entries_view(s: Seq<BufferEntry>) -> Seq<BufferEntryV> {
    Seq::new(s.len(), |i: int| s[i]@)
}

/// The views of a sequence of image entries.
pub open spec fn image_entries_view(s: Seq<ImageEntry>) -> Seq<ImageEntryV> {
    Seq::new(s.len(), |i: int| s[i]@)
}

impl View for Doc {
    type V = DocV;

    open spec fn view(&self) -> DocV {
        DocV {
            buffers: buffer_entries_view(self.buffers@),
            images: image_entries_view(self.images@),
        }
    }
}

/// The view of an optional embedded blob.
pub open spec fn opt_bytes_view(b: Option<Vec<u8>>) -> Option<Seq<u8>> {
    match b {
        Some(v) => Some(v@),
        None => None,
    }
}

/// The view of an optional base directory.
pub open spec fn opt_string_view(s: Option<String>) -> Option<Seq<char>> {
    match s {
        Some(x) => Some(x@),
        None => None,
    }
}

/// No two buffer entries share an index. The document format assigns each
/// buffer its position in the buffer list as its index, so this holds of
/// every document an external parser produces.
pub open spec fn buffer_indices_distinct(bufs: Seq<BufferEntryV>) -> bool {
    forall|i: int, j: int|
        0 <= i < j < bufs.len() ==> #[trigger] bufs[i].index != #[trigger] bufs[j].index
}

/// Every image sourced from a byte range of a buffer stays within that
/// buffer's declared length.
///
/// The range is read out of the buffer's resolved bytes, which are known
/// only once fetching is done; before any fetch, the declared length is
/// the only bound a caller can check, and resolved bytes always cover it.
/// This is deliberately a little stronger than the loosest workable
/// bound: a view that fits the resolved bytes while overrunning the
/// declared length is rejected up front rather than read. The document
/// format itself keeps views within the declared length.
pub open spec fn views_within_declared(doc: DocV) -> bool {
    forall|i: int|
        0 <= i < doc.images.len() ==> match #[trigger] doc.images[i].source {
            ImageSourceV::BufferView { buffer_index, offset, length, .. } => forall|j: int|
                0 <= j < doc.buffers.len() && (#[trigger] doc.buffers[j]).index == buffer_index
                    ==> offset + length <= doc.buffers[j].length,
            _ => true,
        }
}

/// A well-formed document: distinct buffer indices, and buffer-view images
/// that stay within the declared length of the buffer they reference.
pub open spec fn doc_wf(doc: DocV) -> bool {
    buffer_indices_distinct(doc.buffers) && views_within_declared(doc)
}

} // verus!
