use magiccollection::version::{
    captured_ymd_from_iso, captured_ymd_from_sync_version, normalize_catalog_dataset,
    sync_version_from_iso, sync_version_of,
};

#[test]
fn sync_version_comes_from_the_date_of_a_timestamp() {
    assert_eq!(sync_version_from_iso("2026-02-03T10:11:12+00:00"), "v260203");
    assert_eq!(sync_version_of("2026-02-03T10:11:12+00:00"), Some("v260203".to_string()));
}

#[test]
fn sync_version_of_a_short_timestamp_is_absent() {
    assert_eq!(sync_version_of("2026-02"), None);
    assert_eq!(sync_version_of(""), None);
}

#[test]
fn sync_version_falls_back_to_today() {
    let label = sync_version_from_iso("garbage");
    assert_eq!(label.len(), 7);
    assert!(label.starts_with('v'));
    assert!(label[1..].chars().all(|ch| ch.is_ascii_digit()));
}

#[test]
fn sync_version_needs_six_bytes_after_the_hyphens_go() {
    // no hyphens at all: eight bytes are left, which is not a date
    assert_eq!(sync_version_of("2026020310"), None);
    assert_eq!(sync_version_of("20xx-yy-zzT"), Some("vxxyyzz".to_string()));
}

#[test]
fn captured_ymd_comes_from_the_first_ten_bytes() {
    assert_eq!(captured_ymd_from_iso("2026-02-03T10:11:12Z"), Some(20260203));
    assert_eq!(captured_ymd_from_iso("2026-02-0"), None);
    assert_eq!(captured_ymd_from_iso("2026-0x-03T"), None);
    assert_eq!(captured_ymd_from_iso("-2026-02-0"), Some(2026020));
}

#[test]
fn captured_ymd_comes_from_a_dated_version() {
    assert_eq!(captured_ymd_from_sync_version("v260203"), Some(20260203));
    assert_eq!(captured_ymd_from_sync_version("v26020"), None);
    assert_eq!(captured_ymd_from_sync_version("x260203"), None);
    assert_eq!(captured_ymd_from_sync_version("v26o203"), None);
    assert_eq!(captured_ymd_from_sync_version("v1"), None);
}

#[test]
fn dataset_names_are_normalised() {
    assert_eq!(normalize_catalog_dataset(None), Ok("default_cards".to_string()));
    assert_eq!(normalize_catalog_dataset(Some("  Default_Cards ")), Ok("default_cards".to_string()));
    assert_eq!(normalize_catalog_dataset(Some("   ")), Ok("default_cards".to_string()));
}

#[test]
fn other_dataset_names_are_refused() {
    assert_eq!(
        normalize_catalog_dataset(Some(" Tokens ")),
        Err("Unsupported dataset 'tokens'. Only 'default_cards' is currently supported.".to_string())
    );
}
