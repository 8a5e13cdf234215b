use gltf_import::scheme::Scheme;

#[test]
fn classify_data_uri_with_media_type() {
    let s = Scheme::parse("data:image/png;base64,QUJD");
    assert_eq!(s, Scheme::Data(Some("image/png".to_string()), "QUJD".to_string()));
}

#[test]
fn classify_relative_path() {
    assert_eq!(Scheme::parse("../x.bin"), Scheme::Relative);
}

#[test]
fn classify_external_url() {
    assert_eq!(Scheme::parse("https://x/y.bin"), Scheme::External("https://x/y.bin".to_string()));
    assert_eq!(Scheme::parse("http://x/y.bin"), Scheme::External("http://x/y.bin".to_string()));
}

#[test]
fn classify_unsupported_scheme() {
    assert_eq!(Scheme::parse("ftp://x"), Scheme::Unsupported);
}

#[test]
fn classify_file_uris() {
    assert_eq!(Scheme::parse("file:///tmp/a.bin"), Scheme::File("/tmp/a.bin".to_string()));
    assert_eq!(Scheme::parse("file:/tmp/a.bin"), Scheme::File("/tmp/a.bin".to_string()));
}

#[test]
fn classify_data_uri_without_marker_is_unsupported() {
    assert_eq!(Scheme::parse("data:QUJD"), Scheme::Unsupported);
    assert_eq!(Scheme::parse("data:"), Scheme::Unsupported);
}

#[test]
fn classify_data_uri_empty_media_type() {
    assert_eq!(Scheme::parse("data:;base64,QQ=="), Scheme::Data(Some(String::new()), "QQ==".to_string()));
}

#[test]
fn classify_data_uri_splits_at_first_marker_only() {
    let s = Scheme::parse("data:a;base64,b;base64,c");
    assert_eq!(s, Scheme::Data(Some("a".to_string()), "b;base64,c".to_string()));
}

#[test]
fn classify_plain_name_is_relative() {
    assert_eq!(Scheme::parse("model.bin"), Scheme::Relative);
}
