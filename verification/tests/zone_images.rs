use omicron::zone_images::{
    boot_paths, compute_hash, dataset_missing_error, dataset_not_dir_error, deserialize_error,
    non_boot_2_paths, non_boot_3_paths, non_boot_paths, ArtifactHash, ArtifactReadResult,
    FileContents, FileType, InstallMetadataReadError, OmicronZoneManifestSource, OverridePaths,
    WriteInstallDatasetContext, ZoneContents,
};

/// SHA-256 of "abc".
const ABC: [u8; 32] = [
    0xba, 0x78, 0x16, 0xbf, 0x8f, 0x01, 0xcf, 0xea, 0x41, 0x41, 0x40, 0xde, 0x5d, 0xae, 0x22, 0x23,
    0xb0, 0x03, 0x61, 0xa3, 0x96, 0x17, 0x7a, 0x9c, 0xb4, 0x10, 0xff, 0x61, 0xf2, 0x00, 0x15, 0xad,
];

#[test]
fn hashes_are_sha256() {
    let hash = compute_hash(b"abc");
    assert_eq!(hash.0, ABC);
    assert!(hash.same(&ArtifactHash(ABC)));
    assert!(!hash.same(&compute_hash(b"abd")));
}

#[test]
fn override_paths_lie_in_the_install_dataset() {
    let paths = OverridePaths::for_uuid(0x12345678_9abc_4def_8000_000000000001);
    let dataset = "pool/int/12345678-9abc-4def-8000-000000000001/install";
    assert_eq!(paths.install_dataset, dataset);
    assert_eq!(paths.zones_json, format!("{dataset}/zones.json"));
    assert_eq!(paths.mupdate_override_json, format!("{dataset}/mupdate-override.json"));
    assert_eq!(
        boot_paths().install_dataset,
        "pool/int/d3e7205d-4efe-493b-ac5e-9175584907cd/install"
    );
    assert_eq!(
        non_boot_paths().install_dataset,
        "pool/int/4854189f-b290-47cd-b076-374d0e1748ec/install"
    );
    assert_eq!(
        non_boot_2_paths().install_dataset,
        "pool/int/72201e1e-9fee-4231-81cd-4e2d514cb632/install"
    );
    assert_eq!(
        non_boot_3_paths().install_dataset,
        "pool/int/d0d04947-93c5-40fd-97ab-4648b8cc28d6/install"
    );
}

#[test]
fn a_basic_context_has_no_errors() {
    let context = WriteInstallDatasetContext::new_basic();
    assert_ne!(context.mupdate_id, context.mupdate_override_uuid);
    let result = context.expected_result("/install");
    assert_eq!(result.data.len(), 5);
    for (i, zone) in result.data.iter().enumerate() {
        assert_eq!(zone.file_name, format!("zone{}.tar.gz", i + 1));
        assert_eq!(zone.path, format!("/install/zone{}.tar.gz", i + 1));
        assert_eq!(zone.expected_size, 5);
        assert_eq!(zone.expected_hash, compute_hash(format!("zone{}", i + 1).as_bytes()));
        assert_eq!(zone.status, ArtifactReadResult::Valid);
    }
    let files = context.write_to("M".to_string(), "O".to_string());
    let names: Vec<&str> = files.iter().map(|f| f.name.as_str()).collect();
    assert_eq!(
        names,
        vec![
            "zone1.tar.gz",
            "zone2.tar.gz",
            "zone3.tar.gz",
            "zone4.tar.gz",
            "zone5.tar.gz",
            "zones.json",
            "mupdate-override.json",
        ]
    );
    assert_eq!(files[0].contents, FileContents::Binary(b"zone1".to_vec()));
    assert_eq!(files[5].contents, FileContents::Text("M".to_string()));
    assert_eq!(files[6].contents, FileContents::Text("O".to_string()));
    // The manifest lists the zone files that are there.
    let listed: Vec<&str> = result.manifest.zones.iter().map(|z| z.file_name.as_str()).collect();
    assert_eq!(listed, names[..5]);
}

#[test]
fn error_cases_are_expected() {
    let mut context = WriteInstallDatasetContext::new_basic();
    context.make_error_cases();
    let result = context.expected_result("/install");
    let names: Vec<&str> = result.data.iter().map(|z| z.file_name.as_str()).collect();
    assert_eq!(names, vec!["zone1.tar.gz", "zone2.tar.gz", "zone3.tar.gz", "zone4.tar.gz"]);
    assert_eq!(result.data[0].status, ArtifactReadResult::Valid);
    assert_eq!(result.data[1].expected_size, 1024);
    assert_eq!(
        result.data[1].status,
        ArtifactReadResult::Mismatch { actual_size: 5, actual_hash: compute_hash(b"zone2") }
    );
    assert_eq!(result.data[2].expected_hash, ArtifactHash([0; 32]));
    assert_eq!(
        result.data[2].status,
        ArtifactReadResult::Mismatch { actual_size: 5, actual_hash: compute_hash(b"zone3") }
    );
    assert!(matches!(
        &result.data[3].status,
        ArtifactReadResult::Error(error) if error.message.as_deref() == Some("file not found")
    ));
    let files = context.write_to(String::new(), String::new());
    let names: Vec<&str> = files.iter().map(|f| f.name.as_str()).collect();
    assert!(!names.contains(&"zone4.tar.gz"));
    assert!(names.contains(&"zone5.tar.gz"));
}

#[test]
fn the_manifest_need_not_be_written() {
    let mut context = WriteInstallDatasetContext::new_basic();
    let mupdate_id = context.mupdate_id;
    assert_eq!(
        context.zone_manifest().source,
        OmicronZoneManifestSource::Installinator { mupdate_id }
    );
    context.write_zone_manifest_to_disk(false);
    assert_eq!(context.zone_manifest().source, OmicronZoneManifestSource::SledAgent);
    assert_eq!(context.zone_manifest().zones.len(), 5);
    let files = context.write_to("M".to_string(), "O".to_string());
    assert_eq!(files.len(), 6);
    assert_eq!(files[5].name, "mupdate-override.json");
    let info = context.override_info();
    assert_eq!(info.mupdate_uuid, context.mupdate_override_uuid);
    assert!(info.hash_ids.is_empty());
}

#[test]
fn zones_are_kept_in_the_order_of_their_names() {
    let mut context = WriteInstallDatasetContext::new_basic();
    context.zones.insert_overwrite(ZoneContents::new("zone10.tar.gz", b"ten"));
    context.zones.insert_overwrite(ZoneContents::new("a.tar.gz", b"a"));
    context.zones.insert_overwrite(ZoneContents::new("zone1.tar.gz", b"another"));
    let zones = context.zone_manifest().zones;
    let names: Vec<&str> = zones.iter().map(|z| z.file_name.as_str()).collect();
    assert_eq!(names[..3], ["a.tar.gz", "zone1.tar.gz", "zone10.tar.gz"]);
    assert_eq!(zones[1].file_size, 7);
    assert_eq!(names.len(), 7);
}

#[test]
fn zones_are_read_where_they_lie() {
    let zone = ZoneContents::new("zone.tar.gz", b"abc");
    assert_eq!(zone.expected_result("/a/b").path, "/a/b/zone.tar.gz");
    assert_eq!(ZoneContents::new("/z", b"").expected_result("/a/b").path, "/z");
    assert_eq!(zone.expected_result("/a").expected_hash, ArtifactHash(ABC));
    assert_eq!(zone.expected_result("/a/").path, "/a/zone.tar.gz");
    assert_eq!(zone.expected_result("").path, "zone.tar.gz");
}

#[test]
fn zones_are_read_by_their_hash() {
    let zone = ZoneContents::new("zone.tar.gz", b"abc");
    assert_eq!(zone.read_status(ArtifactHash(ABC)), ArtifactReadResult::Valid);
    let other = || ArtifactHash([0; 32]);
    assert_eq!(
        zone.read_status(other()),
        ArtifactReadResult::Mismatch { actual_size: 3, actual_hash: other() }
    );
}

#[test]
fn contexts_can_be_copied() {
    let context = WriteInstallDatasetContext::new_basic();
    let copy = context.clone();
    assert_eq!(copy.mupdate_id, context.mupdate_id);
    assert_eq!(copy.zone_manifest().zones, context.zone_manifest().zones);
}

#[test]
fn errors_name_the_dataset() {
    assert!(matches!(
        dataset_missing_error("/dir"),
        InstallMetadataReadError::DatasetDirMetadata { dataset_dir, error }
            if dataset_dir == "/dir" && error.message.is_none()
    ));
    assert_eq!(
        dataset_not_dir_error("/dir", FileType::File),
        InstallMetadataReadError::DatasetNotDirectory {
            dataset_dir: "/dir".to_string(),
            file_type: FileType::File,
        }
    );
    assert_eq!(
        deserialize_error("/dir", "zones.json", "{", "EOF"),
        InstallMetadataReadError::Deserialize {
            path: "/dir/zones.json".to_string(),
            contents: "{".to_string(),
            error: "EOF".to_string(),
        }
    );
}
