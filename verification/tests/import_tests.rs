use gltf_import::document::{BufferEntry, BufferSource, Doc, ImageEntry, ImageSource};
use gltf_import::error::ImportError;
use gltf_import::fetch::FetchBundle;
use gltf_import::import::{GltfImporter, ImportStep, ImportedGltfModel};

fn empty_doc() -> Doc {
    Doc { buffers: Vec::new(), images: Vec::new() }
}

fn buffer_doc(entries: Vec<BufferEntry>) -> Doc {
    Doc { buffers: entries, images: Vec::new() }
}

fn done(step: ImportStep) -> Result<ImportedGltfModel, ImportError> {
    match step {
        ImportStep::Done { result } => result,
        ImportStep::Fetch { .. } => panic!("expected the import to complete"),
    }
}

fn fetch(step: ImportStep) -> (Vec<String>, gltf_import::import::ImportState) {
    match step {
        ImportStep::Fetch { paths, state } => (paths, state),
        ImportStep::Done { .. } => panic!("expected the import to suspend on a fetch"),
    }
}

#[test]
fn empty_document_yields_empty_model_without_fetch() {
    let step = GltfImporter::import(empty_doc(), None, None);
    let model = done(step).unwrap();
    assert_eq!(model.buffers().len(), 0);
    assert_eq!(model.images().len(), 0);
}

#[test]
fn blob_supplied_but_unclaimed_is_not_an_error() {
    let step = GltfImporter::import(empty_doc(), Some(vec![1, 2, 3]), None);
    let model = done(step).unwrap();
    assert_eq!(model.buffers().len(), 0);
}

#[test]
fn relative_buffer_resolves_against_base_directory() {
    let doc = buffer_doc(vec![BufferEntry {
        index: 0,
        source: BufferSource::Uri("data.bin".to_string()),
        length: 4,
    }]);
    let step = GltfImporter::import(doc, None, Some("/assets".to_string()));
    let (paths, state) = fetch(step);
    assert_eq!(paths, vec!["/assets/data.bin".to_string()]);

    let mut bundle = FetchBundle::new();
    bundle.push("/assets/data.bin".to_string(), Ok(vec![1, 2, 3, 4]));
    let model = done(GltfImporter::resume(state, &bundle)).unwrap();
    assert_eq!(model.buffers().len(), 1);
    assert_eq!(model.images().len(), 0);
    assert_eq!(model.buffers().get(&0).unwrap(), &vec![1u8, 2, 3, 4]);
}

#[test]
fn buffers_sharing_a_path_are_fetched_once() {
    let doc = buffer_doc(vec![
        BufferEntry { index: 0, source: BufferSource::Uri("shared.bin".to_string()), length: 2 },
        BufferEntry { index: 1, source: BufferSource::Uri("shared.bin".to_string()), length: 4 },
    ]);
    let (paths, state) = fetch(GltfImporter::import(doc, None, Some("/a".to_string())));
    assert_eq!(paths, vec!["/a/shared.bin".to_string()]);

    let mut bundle = FetchBundle::new();
    bundle.push("/a/shared.bin".to_string(), Ok(vec![1, 2, 3, 4]));
    let model = done(GltfImporter::resume(state, &bundle)).unwrap();
    assert_eq!(model.buffers().len(), 2);
    assert_eq!(model.buffers().get(&0).unwrap(), &vec![1u8, 2, 3, 4]);
    assert_eq!(model.buffers().get(&1).unwrap(), &vec![1u8, 2, 3, 4]);
}

#[test]
fn base_with_trailing_separator_is_not_doubled() {
    let doc = buffer_doc(vec![BufferEntry {
        index: 0,
        source: BufferSource::Uri("data.bin".to_string()),
        length: 0,
    }]);
    let step = GltfImporter::import(doc, None, Some("/assets/".to_string()));
    let (paths, _) = fetch(step);
    assert_eq!(paths, vec!["/assets/data.bin".to_string()]);
}

#[test]
fn inline_binary_buffer_consumes_the_blob() {
    let doc = buffer_doc(vec![BufferEntry { index: 0, source: BufferSource::Bin, length: 4 }]);
    let step = GltfImporter::import(doc, Some(vec![9, 8, 7, 6]), None);
    let model = done(step).unwrap();
    assert_eq!(model.buffers().get(&0).unwrap(), &vec![9u8, 8, 7, 6]);
}

#[test]
fn inline_binary_buffer_without_blob_is_missing_blob() {
    let doc = buffer_doc(vec![BufferEntry { index: 0, source: BufferSource::Bin, length: 4 }]);
    let err = done(GltfImporter::import(doc, None, None)).unwrap_err();
    assert_eq!(err, ImportError::MissingBlob);
}

#[test]
fn second_blob_claim_is_missing_blob() {
    let doc = buffer_doc(vec![
        BufferEntry { index: 0, source: BufferSource::Bin, length: 1 },
        BufferEntry { index: 1, source: BufferSource::Bin, length: 1 },
    ]);
    let err = done(GltfImporter::import(doc, Some(vec![1, 2, 3, 4]), None)).unwrap_err();
    assert_eq!(err, ImportError::MissingBlob);
}

#[test]
fn data_uri_buffer_decodes_and_pads_to_four_bytes() {
    // "QUJD" is the base64 encoding of the three bytes "ABC".
    let doc = buffer_doc(vec![BufferEntry {
        index: 0,
        source: BufferSource::Uri("data:application/octet-stream;base64,QUJD".to_string()),
        length: 2,
    }]);
    let model = done(GltfImporter::import(doc, None, None)).unwrap();
    let bytes = model.buffers().get(&0).unwrap();
    assert_eq!(bytes, &vec![65u8, 66, 67, 0]);
    assert_eq!(bytes.len() % 4, 0);
}

#[test]
fn declared_length_beyond_actual_bytes_is_a_buffer_length_error() {
    let doc = buffer_doc(vec![BufferEntry {
        index: 0,
        source: BufferSource::Uri("data:application/octet-stream;base64,QUJD".to_string()),
        length: 10,
    }]);
    let err = done(GltfImporter::import(doc, None, None)).unwrap_err();
    assert_eq!(err, ImportError::BufferLength { index: 0, expected: 10, actual: 3 });
}

#[test]
fn declared_length_beyond_fetched_bytes_is_a_buffer_length_error() {
    let doc = buffer_doc(vec![BufferEntry {
        index: 0,
        source: BufferSource::Uri("big.bin".to_string()),
        length: 10,
    }]);
    let (_, state) = fetch(GltfImporter::import(doc, None, Some("/a".to_string())));
    let mut bundle = FetchBundle::new();
    bundle.push("/a/big.bin".to_string(), Ok(vec![1, 2, 3, 4, 5]));
    let err = done(GltfImporter::resume(state, &bundle)).unwrap_err();
    assert_eq!(err, ImportError::BufferLength { index: 0, expected: 10, actual: 5 });
}

#[test]
fn malformed_base64_payload_is_invalid_encoding() {
    let doc = buffer_doc(vec![BufferEntry {
        index: 0,
        source: BufferSource::Uri("data:application/octet-stream;base64,!!!".to_string()),
        length: 0,
    }]);
    let err = done(GltfImporter::import(doc, None, None)).unwrap_err();
    assert_eq!(err, ImportError::InvalidEncoding);
}

#[test]
fn unsupported_buffer_scheme_is_rejected() {
    let doc = buffer_doc(vec![BufferEntry {
        index: 0,
        source: BufferSource::Uri("ftp://x/y.bin".to_string()),
        length: 0,
    }]);
    let err = done(GltfImporter::import(doc, None, None)).unwrap_err();
    assert_eq!(err, ImportError::UnsupportedScheme);
}

#[test]
fn data_uri_buffer_without_marker_is_rejected() {
    let doc = buffer_doc(vec![BufferEntry {
        index: 0,
        source: BufferSource::Uri("data:QUJD".to_string()),
        length: 0,
    }]);
    let err = done(GltfImporter::import(doc, None, None)).unwrap_err();
    assert_eq!(err, ImportError::UnsupportedScheme);
}

#[test]
fn relative_buffer_without_base_is_unsupported() {
    let doc = buffer_doc(vec![BufferEntry {
        index: 0,
        source: BufferSource::Uri("data.bin".to_string()),
        length: 0,
    }]);
    let err = done(GltfImporter::import(doc, None, None)).unwrap_err();
    assert_eq!(err, ImportError::UnsupportedScheme);
}

#[test]
fn loader_failure_surfaces_as_io_error() {
    let doc = buffer_doc(vec![BufferEntry {
        index: 0,
        source: BufferSource::Uri("gone.bin".to_string()),
        length: 0,
    }]);
    let (_, state) = fetch(GltfImporter::import(doc, None, Some("/a".to_string())));
    let mut bundle = FetchBundle::new();
    bundle.push("/a/gone.bin".to_string(), Err("no such file".to_string()));
    let err = done(GltfImporter::resume(state, &bundle)).unwrap_err();
    assert_eq!(err, ImportError::IoError("no such file".to_string()));
}

#[test]
fn path_absent_from_bundle_is_missing_blob() {
    let doc = buffer_doc(vec![BufferEntry {
        index: 0,
        source: BufferSource::Uri("gone.bin".to_string()),
        length: 0,
    }]);
    let (_, state) = fetch(GltfImporter::import(doc, None, Some("/a".to_string())));
    let bundle = FetchBundle::new();
    let err = done(GltfImporter::resume(state, &bundle)).unwrap_err();
    assert_eq!(err, ImportError::MissingBlob);
}

#[test]
fn bundle_lookup_takes_the_first_entry_for_a_path() {
    let mut bundle = FetchBundle::new();
    bundle.push("a".to_string(), Ok(vec![1]));
    bundle.push("a".to_string(), Ok(vec![2]));
    assert_eq!(bundle.lookup(&"a".to_string()), Some(Ok(vec![1u8])));
    assert_eq!(bundle.lookup(&"b".to_string()), None);
}

#[test]
fn external_image_without_base_fails_whole_import() {
    let doc = Doc {
        buffers: Vec::new(),
        images: vec![ImageEntry {
            index: 0,
            source: ImageSource::Uri { uri: "https://x/y.png".to_string(), mime_type: None },
        }],
    };
    let err = done(GltfImporter::import(doc, None, None)).unwrap_err();
    assert_eq!(err, ImportError::ExternalReferenceInSliceImport);
}

#[test]
fn buffer_view_into_unresolved_buffer_is_missing_blob() {
    let doc = Doc {
        buffers: Vec::new(),
        images: vec![ImageEntry {
            index: 0,
            source: ImageSource::BufferView {
                buffer_index: 3,
                offset: 0,
                length: 0,
                mime_type: "image/png".to_string(),
            },
        }],
    };
    let err = done(GltfImporter::import(doc, None, None)).unwrap_err();
    assert_eq!(err, ImportError::MissingBlob);
}
