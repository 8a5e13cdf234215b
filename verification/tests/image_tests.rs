use gltf_import::codec::{resolve_format, ImageFormat, PixelFormat};
use gltf_import::document::{BufferEntry, BufferSource, Doc, ImageEntry, ImageSource};
use gltf_import::error::ImportError;
use gltf_import::fetch::FetchBundle;
use gltf_import::import::{GltfImporter, ImportStep, ImportedGltfModel};

fn png_1x1() -> Vec<u8> {
    let img = image::DynamicImage::new_rgba8(1, 1);
    let mut buf: Vec<u8> = Vec::new();
    img.write_to(&mut std::io::Cursor::new(&mut buf), image::ImageFormat::Png).unwrap();
    buf
}

fn done(step: ImportStep) -> Result<ImportedGltfModel, ImportError> {
    match step {
        ImportStep::Done { result } => result,
        ImportStep::Fetch { .. } => panic!("expected the import to complete"),
    }
}

#[test]
fn png_data_uri_round_trip_decodes_one_by_one_pixel() {
    let uri = format!("data:image/png;base64,{}", base64::encode(png_1x1()));
    let doc = Doc {
        buffers: Vec::new(),
        images: vec![ImageEntry { index: 0, source: ImageSource::Uri { uri, mime_type: None } }],
    };
    let model = done(GltfImporter::import(doc, None, Some("/b".to_string()))).unwrap();
    assert_eq!(model.images().len(), 1);
    let img = model.images().get(&0).unwrap();
    assert_eq!(img.width, 1);
    assert_eq!(img.height, 1);
    assert_eq!(img.format, PixelFormat::Rgba8);
    assert_eq!(img.pixels.len(), 4);
}

#[test]
fn inline_binary_buffer_feeds_a_buffer_view_image_without_fetch() {
    let png = png_1x1();
    let doc = Doc {
        buffers: vec![BufferEntry { index: 0, source: BufferSource::Bin, length: png.len() }],
        images: vec![ImageEntry {
            index: 0,
            source: ImageSource::BufferView {
                buffer_index: 0,
                offset: 0,
                length: png.len(),
                mime_type: "image/png".to_string(),
            },
        }],
    };
    let model = done(GltfImporter::import(doc, Some(png), None)).unwrap();
    assert_eq!(model.buffers().len(), 1);
    assert_eq!(model.images().len(), 1);
    let img = model.images().get(&0).unwrap();
    assert_eq!((img.width, img.height), (1, 1));
}

#[test]
fn buffer_view_respects_its_offset() {
    let png = png_1x1();
    let mut blob = vec![0u8, 0];
    blob.extend_from_slice(&png);
    let doc = Doc {
        buffers: vec![BufferEntry { index: 0, source: BufferSource::Bin, length: blob.len() }],
        images: vec![ImageEntry {
            index: 0,
            source: ImageSource::BufferView {
                buffer_index: 0,
                offset: 2,
                length: png.len(),
                mime_type: "image/png".to_string(),
            },
        }],
    };
    let model = done(GltfImporter::import(doc, Some(blob), None)).unwrap();
    let img = model.images().get(&0).unwrap();
    assert_eq!((img.width, img.height), (1, 1));
}

#[test]
fn fetched_image_bytes_are_decoded() {
    let doc = Doc {
        buffers: Vec::new(),
        images: vec![ImageEntry {
            index: 0,
            source: ImageSource::Uri { uri: "tex.png".to_string(), mime_type: None },
        }],
    };
    let step = GltfImporter::import(doc, None, Some("/a".to_string()));
    let (paths, state) = match step {
        ImportStep::Fetch { paths, state } => (paths, state),
        ImportStep::Done { .. } => panic!("expected a fetch for the image"),
    };
    assert_eq!(paths, vec!["/a/tex.png".to_string()]);
    let mut bundle = FetchBundle::new();
    bundle.push("/a/tex.png".to_string(), Ok(png_1x1()));
    let model = done(GltfImporter::resume(state, &bundle)).unwrap();
    let img = model.images().get(&0).unwrap();
    assert_eq!((img.width, img.height), (1, 1));
}

#[test]
fn data_uri_media_type_wins_over_document_hint() {
    let uri = format!("data:image/png;base64,{}", base64::encode(png_1x1()));
    let doc = Doc {
        buffers: Vec::new(),
        images: vec![ImageEntry {
            index: 0,
            source: ImageSource::Uri { uri, mime_type: Some("image/jpeg".to_string()) },
        }],
    };
    let model = done(GltfImporter::import(doc, None, Some("/b".to_string()))).unwrap();
    assert_eq!(model.images().len(), 1);
}

#[test]
fn unrecognized_bytes_are_an_unsupported_encoding() {
    // "QUJD" decodes to "ABC": no recognized media type, no magic bytes.
    let doc = Doc {
        buffers: Vec::new(),
        images: vec![ImageEntry {
            index: 0,
            source: ImageSource::Uri {
                uri: "data:;base64,QUJD".to_string(),
                mime_type: None,
            },
        }],
    };
    let err = done(GltfImporter::import(doc, None, Some("/b".to_string()))).unwrap_err();
    assert_eq!(err, ImportError::UnsupportedImageEncoding);
}

#[test]
fn corrupt_png_bytes_are_a_codec_error() {
    let corrupt: Vec<u8> = vec![0x89, 0x50, 0x4e, 0x47, 0x0d, 0x0a, 0x1a, 0x0a, 1, 2, 3, 4];
    let uri = format!("data:image/png;base64,{}", base64::encode(&corrupt));
    let doc = Doc {
        buffers: Vec::new(),
        images: vec![ImageEntry { index: 0, source: ImageSource::Uri { uri, mime_type: None } }],
    };
    let err = done(GltfImporter::import(doc, None, Some("/b".to_string()))).unwrap_err();
    assert!(matches!(err, ImportError::CodecError(_)));
}

#[test]
fn format_detection_trusts_a_recognized_hint() {
    let png = png_1x1();
    assert_eq!(resolve_format(&png, Some(&"image/jpeg".to_string())), Ok(ImageFormat::Jpeg));
    assert_eq!(resolve_format(&png, Some(&"image/png".to_string())), Ok(ImageFormat::Png));
}

#[test]
fn format_detection_falls_back_to_magic_bytes() {
    let png = png_1x1();
    assert_eq!(resolve_format(&png, None), Ok(ImageFormat::Png));
    assert_eq!(resolve_format(&png, Some(&"image/webp".to_string())), Ok(ImageFormat::Png));
    let jpeg_magic: Vec<u8> = vec![0xff, 0xd8, 0xff, 0xe0];
    assert_eq!(resolve_format(&jpeg_magic, None), Ok(ImageFormat::Jpeg));
    assert_eq!(
        resolve_format(&[1, 2, 3], None),
        Err(ImportError::UnsupportedImageEncoding)
    );
}
