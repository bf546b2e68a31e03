use wapm_cli::bundle::{
    add_asset_from_pattern, asset_actions, bundle_parts, classify_asset, header_from_bytes, header_to_bytes,
    into_custom_section, ArchiveType, AssetAction, AssetsError, BuilderError, CompressionType,
    HeaderVersion, NoCompression, ZStdCompression,
};

#[test]
fn does_it_work() {
    let bytes = header_to_bytes(HeaderVersion::Version1, CompressionType::NONE, ArchiveType::TAR);
    assert_eq!(bytes, [1, 0, 0, 0]);
    let bytes = header_to_bytes(HeaderVersion::Version1, CompressionType::ZSTD, ArchiveType::TAR);
    assert_eq!(bytes, [1, 1, 0, 0]);
}

#[test]
fn header_reads_back() {
    let bytes = header_to_bytes(HeaderVersion::Version1, CompressionType::ZSTD, ArchiveType::TAR);
    assert_eq!(
        header_from_bytes(&bytes),
        Some((HeaderVersion::Version1, CompressionType::ZSTD, ArchiveType::TAR))
    );
    assert_eq!(header_from_bytes(&[2, 0, 0, 0]), None);
    assert_eq!(header_from_bytes(&[1, 0]), None);
}

#[test]
fn empty_custom_section() {
    let section = into_custom_section::<NoCompression>(None);
    assert!(matches!(section, Ok(None)), "Custom section was non-empty for empty assets");
}

#[test]
fn uncompressed_section_is_header_then_archive() {
    let section = into_custom_section::<NoCompression>(Some(b"archive".to_vec()))
        .ok()
        .flatten()
        .expect("Custom section was none when given an asset.");
    assert_eq!(section.name, "wasmer:fs");
    assert_eq!(section.value, b"\x01\x00\x00\x00archive".to_vec());
}

#[test]
fn zstd_section_decodes_to_archive() {
    let data = b"foo foo foo\n".repeat(20);
    let section = into_custom_section::<ZStdCompression>(Some(data.clone()))
        .ok()
        .flatten()
        .expect("Custom section was none when given an asset.");
    assert_eq!(&section.value[..4], &[1, 1, 0, 0]);
    assert_ne!(&section.value[4..], &data[..]);
    let decoded = zstd::stream::decode_all(&section.value[4..]).unwrap();
    assert_eq!(decoded, data);
}

#[test]
fn asset_patterns_split_at_last_colon() {
    let pairs = add_asset_from_pattern(
        "/base",
        vec!["foo.txt:foo.txt".to_string(), "C:/dir/bar.txt:/bar.txt".to_string()],
    );
    assert_eq!(
        pairs,
        vec![
            ("/base/foo.txt".to_string(), "foo.txt".to_string()),
            ("/base/C:/dir/bar.txt".to_string(), "/bar.txt".to_string()),
        ]
    );
    let pairs = add_asset_from_pattern("/base", vec!["/abs/file:virt".to_string()]);
    assert_eq!(pairs, vec![("/abs/file".to_string(), "virt".to_string())]);
    let pairs = add_asset_from_pattern("/base", vec!["x\na:b".to_string()]);
    assert_eq!(pairs, vec![("/base/a".to_string(), "b".to_string())]);
}

#[test]
fn assets_are_classified() {
    assert_eq!(
        classify_asset(true, false, "a".to_string(), "b".to_string()),
        Ok(AssetAction::AppendFile { local_path: "a".to_string(), virtual_path: "b".to_string() })
    );
    assert_eq!(
        classify_asset(false, true, "a".to_string(), "b".to_string()),
        Ok(AssetAction::AppendDir { local_path: "a".to_string(), virtual_path: "b".to_string() })
    );
    assert_eq!(
        classify_asset(false, false, "a".to_string(), "b".to_string()),
        Err(AssetsError::InvalidAsset("a".to_string()))
    );
}

#[test]
fn bundle_needs_source_then_target() {
    assert_eq!(bundle_parts(None, None), Err(BuilderError::MissingSource));
    assert_eq!(bundle_parts(Some("s".to_string()), None), Err(BuilderError::MissingTarget));
    assert_eq!(
        bundle_parts(Some("s".to_string()), Some("t".to_string())),
        Ok(("s".to_string(), "t".to_string()))
    );
}

#[test]
fn assets_are_added_in_order_up_to_the_first_refusal() {
    let pairs = add_asset_from_pattern("/base", vec!["a.txt:a".to_string(), "d:d".to_string(), "x:x".to_string()]);
    let s = |x: &str| x.to_string();
    assert_eq!(
        asset_actions(pairs.clone(), &vec![(true, false), (false, true), (true, false)]),
        Ok(vec![
            AssetAction::AppendFile { local_path: s("/base/a.txt"), virtual_path: s("a") },
            AssetAction::AppendDir { local_path: s("/base/d"), virtual_path: s("d") },
            AssetAction::AppendFile { local_path: s("/base/x"), virtual_path: s("x") },
        ])
    );
    assert_eq!(
        asset_actions(pairs, &vec![(true, false), (false, false), (false, false)]),
        Err(AssetsError::InvalidAsset(s("/base/d")))
    );
}
