use magiccollection::catalog::{count_catalog_records, load_catalog_sync_state, Catalog};
use magiccollection::error::{CatalogError, ErrorKind};
use magiccollection::patch::{apply_catalog_patch, PatchInput};
use magiccollection::price::Reading;
use magiccollection::record::CatalogRecord;
use magiccollection::snapshot::{apply_catalog_snapshot, SnapshotInput};
use sha2::{Digest, Sha256};

fn record(id: &str, micros: i64) -> CatalogRecord {
    CatalogRecord {
        scryfall_id: id.to_string(),
        name: format!("Card {}", id),
        set_code: "NEO".to_string(),
        collector_number: " 12 ".to_string(),
        image_url: None,
        market_price: Reading::Amount(micros),
        low_price: None,
        mid_price: None,
        high_price: None,
        updated_at: "2026-01-02T03:04:05Z".to_string(),
    }
}

fn snapshot(version: &str, records: Vec<CatalogRecord>) -> SnapshotInput {
    SnapshotInput {
        dataset: None,
        version: version.to_string(),
        records,
        snapshot_hash: None,
        strategy: None,
    }
}

fn patch(from: &str, to: &str) -> PatchInput {
    PatchInput {
        dataset: None,
        from_version: from.to_string(),
        to_version: to.to_string(),
        added: Vec::new(),
        updated: Vec::new(),
        removed: Vec::new(),
        patch_hash: None,
        strategy: None,
    }
}

fn market_of(catalog: &Catalog, id: &str, version: &str) -> Option<u64> {
    let (at, found) = catalog.prices.locate(version, id, Some(1), Some(1));
    if found {
        catalog.prices.row(at).channels.tcg_market
    } else {
        None
    }
}

#[test]
fn snapshot_then_patch_scenario() {
    let mut catalog = Catalog::new();
    let first = apply_catalog_snapshot(&mut catalog, &snapshot("v1", vec![record("abc", 1_000_000)]))
        .expect("snapshot applies");
    assert_eq!(first.total_records, 1);
    assert_eq!(first.to_version, "v1");
    assert_eq!(first.from_version, None);
    assert_eq!(first.added_count, 1);
    assert_eq!(first.updated_count, 0);
    assert_eq!(first.removed_count, 0);
    assert_eq!(first.strategy, "full");
    let state = load_catalog_sync_state(&catalog, "default_cards");
    assert_eq!(state.current_version.as_deref(), Some("v1"));
    assert_eq!(state.state_hash.as_deref(), Some(first.state_hash.as_str()));
    assert_eq!(state.total_records, 1);

    let mut delta = patch("v1", "v2");
    delta.updated = vec![record("abc", 1_500_000)];
    let second = apply_catalog_patch(&mut catalog, &delta).expect("patch applies");
    assert_eq!(second.total_records, 1);
    assert_eq!(second.from_version.as_deref(), Some("v1"));
    assert_eq!(second.to_version, "v2");
    assert_eq!(second.updated_count, 1);
    assert_eq!(second.strategy, "chain");
    assert_eq!(market_of(&catalog, "abc", "v2"), Some(1_500_000));
    assert_eq!(market_of(&catalog, "abc", "v1"), Some(1_000_000));
    assert_eq!(count_catalog_records(&catalog, "default_cards"), 1);
}

#[test]
fn state_hash_is_the_digest_of_the_sorted_lines() {
    let mut catalog = Catalog::new();
    let mut second = record("b2", 2_500_000);
    second.image_url = Some("https://img/b2.png".to_string());
    let out = apply_catalog_snapshot(
        &mut catalog,
        &snapshot("v1", vec![second, record("a1", 1_000_001)]),
    )
    .expect("snapshot applies");
    let mut hasher = Sha256::new();
    hasher.update(b"default_cards\n");
    hasher.update(b"a1|Card a1|neo|12||1.000001|2026-01-02T03:04:05Z\n");
    hasher.update(b"b2|Card b2|neo|12|https://img/b2.png|2.500000|2026-01-02T03:04:05Z\n");
    assert_eq!(out.state_hash, format!("{:x}", hasher.finalize()));
}

#[test]
fn state_hash_does_not_depend_on_the_order_of_the_records() {
    let mut one = Catalog::new();
    let mut two = Catalog::new();
    let a = apply_catalog_snapshot(
        &mut one,
        &snapshot("v1", vec![record("a", 1), record("b", 2), record("c", 3)]),
    )
    .unwrap();
    let b = apply_catalog_snapshot(
        &mut two,
        &snapshot("v1", vec![record("c", 3), record("a", 1), record("b", 2)]),
    )
    .unwrap();
    assert_eq!(a.state_hash, b.state_hash);
    assert_eq!(a.total_records, 3);
    assert_eq!(b.total_records, 3);
}

#[test]
fn hash_of_an_empty_dataset_covers_its_name_only() {
    let catalog = Catalog::new();
    let hash = magiccollection::catalog::compute_catalog_state_hash(&catalog, "default_cards");
    let mut hasher = Sha256::new();
    hasher.update(b"default_cards\n");
    assert_eq!(hash, format!("{:x}", hasher.finalize()));
}

#[test]
fn reapplying_a_snapshot_gives_the_same_hash_and_count() {
    let mut catalog = Catalog::new();
    let input = snapshot("v1", vec![record("a", 1_000_000), record("b", 2_000_000)]);
    let first = apply_catalog_snapshot(&mut catalog, &input).unwrap();
    let second = apply_catalog_snapshot(&mut catalog, &input).unwrap();
    assert_eq!(first.state_hash, second.state_hash);
    assert_eq!(first.total_records, second.total_records);
    assert_eq!(second.from_version.as_deref(), Some("v1"));
    assert_eq!(catalog.prices.len(), 2);
    assert_eq!(catalog.ledger.audits.len(), 2);
    assert_eq!(catalog.ledger.versions.len(), 1);
}

#[test]
fn a_replay_doubles_no_row_even_where_records_carry_no_time() {
    let mut catalog = Catalog::new();
    let mut untimed = record("a", 1_000_000);
    untimed.updated_at = "  ".to_string();
    let input = snapshot(" v1 ", vec![untimed, record("b", 2_000_000)]);
    let first = apply_catalog_snapshot(&mut catalog, &input).unwrap();
    let second = apply_catalog_snapshot(&mut catalog, &input).unwrap();
    assert_eq!(first.total_records, 2);
    assert_eq!(second.total_records, 2);
    assert_eq!(catalog.prices.len(), 2);
    let state = load_catalog_sync_state(&catalog, "default_cards");
    assert_eq!(state.current_version.as_deref(), Some("v1"));
    assert_eq!(state.total_records, 2);
    assert_eq!(state.state_hash.as_deref(), Some(second.state_hash.as_str()));
    assert_eq!(catalog.ledger.versions.len(), 1);
    assert_eq!(catalog.ledger.versions[0].record_count, 2);
}

#[test]
fn snapshot_with_a_wrong_hash_is_refused_and_changes_nothing() {
    let mut catalog = Catalog::new();
    let good = apply_catalog_snapshot(&mut catalog, &snapshot("v1", vec![record("a", 1_000_000)]))
        .unwrap();
    let mut input = snapshot("v2", vec![record("b", 2_000_000)]);
    input.snapshot_hash = Some("0000".to_string());
    let error = apply_catalog_snapshot(&mut catalog, &input).unwrap_err();
    match &error {
        CatalogError::HashMismatch { expected, computed } => {
            assert_eq!(expected, "0000");
            assert_eq!(computed.len(), 64);
        }
        other => panic!("unexpected error {:?}", other),
    }
    assert_eq!(error.kind(), ErrorKind::Consistency);
    assert!(error.message().starts_with("Snapshot hash mismatch. expected 0000, computed "));
    let state = load_catalog_sync_state(&catalog, "default_cards");
    assert_eq!(state.current_version.as_deref(), Some("v1"));
    assert_eq!(state.state_hash.as_deref(), Some(good.state_hash.as_str()));
    assert_eq!(catalog.prices.len(), 1);
    assert_eq!(catalog.printings.len(), 1);
    assert_eq!(catalog.ledger.audits.len(), 1);
}

#[test]
fn snapshot_with_the_right_hash_is_accepted() {
    let mut probe = Catalog::new();
    let expected = apply_catalog_snapshot(&mut probe, &snapshot("v1", vec![record("a", 5)]))
        .unwrap()
        .state_hash;
    let mut catalog = Catalog::new();
    let mut input = snapshot("v1", vec![record("a", 5)]);
    input.snapshot_hash = Some(expected.clone());
    let out = apply_catalog_snapshot(&mut catalog, &input).unwrap();
    assert_eq!(out.state_hash, expected);
    assert_eq!(out.patch_hash, Some(expected));
}

#[test]
fn blank_expected_hash_is_not_enforced() {
    let mut catalog = Catalog::new();
    let mut input = snapshot("v1", vec![record("a", 5)]);
    input.snapshot_hash = Some("   ".to_string());
    assert!(apply_catalog_snapshot(&mut catalog, &input).is_ok());
}

#[test]
fn patch_against_another_version_is_refused_and_changes_nothing() {
    let mut catalog = Catalog::new();
    apply_catalog_snapshot(&mut catalog, &snapshot("v1", vec![record("a", 1_000_000)])).unwrap();
    let mut delta = patch("v0", "v2");
    delta.added = vec![record("b", 2_000_000)];
    let error = apply_catalog_patch(&mut catalog, &delta).unwrap_err();
    assert_eq!(
        error.message(),
        "Catalog version mismatch. Local is v1, patch expects v0."
    );
    assert_eq!(error.kind(), ErrorKind::Consistency);
    let state = load_catalog_sync_state(&catalog, "default_cards");
    assert_eq!(state.current_version.as_deref(), Some("v1"));
    assert_eq!(catalog.prices.len(), 1);
    assert_eq!(catalog.printings.len(), 1);
    assert_eq!(catalog.ledger.audits.len(), 1);
    assert_eq!(catalog.ledger.versions.len(), 1);
}

#[test]
fn patch_on_a_catalog_without_version_is_refused() {
    let mut catalog = Catalog::new();
    let error = apply_catalog_patch(&mut catalog, &patch("v1", "v2")).unwrap_err();
    assert_eq!(
        error.message(),
        "Catalog version mismatch. Local is none, patch expects v1."
    );
    assert!(matches!(error, CatalogError::VersionMismatch { local: None, .. }));
}

#[test]
fn a_missing_version_is_not_the_word_none() {
    let mut catalog = Catalog::new();
    let mut from_none = patch("none", "v2");
    from_none.added = vec![record("a", 1)];
    let error = apply_catalog_patch(&mut catalog, &from_none).unwrap_err();
    assert_eq!(error.kind(), ErrorKind::Consistency);
    assert_eq!(
        error.message(),
        "Catalog version mismatch. Local is none, patch expects none."
    );
    let state = load_catalog_sync_state(&catalog, "default_cards");
    assert_eq!(state.current_version, None);
    assert_eq!(state.total_records, 0);
    assert_eq!(catalog.prices.len(), 0);
    assert_eq!(catalog.printings.len(), 0);
    assert_eq!(catalog.ledger.states.len(), 0);
    assert_eq!(catalog.ledger.audits.len(), 0);
}

#[test]
fn a_replica_at_the_version_named_none_takes_a_patch_from_it() {
    let mut catalog = Catalog::new();
    apply_catalog_snapshot(&mut catalog, &snapshot("none", vec![record("a", 1)])).unwrap();
    let out = apply_catalog_patch(&mut catalog, &patch("none", "v2")).unwrap();
    assert_eq!(out.from_version.as_deref(), Some("none"));
    assert_eq!(out.total_records, 1);
}

#[test]
fn patch_carries_untouched_rows_forward_and_removes_the_removed() {
    let mut catalog = Catalog::new();
    apply_catalog_snapshot(
        &mut catalog,
        &snapshot("v260101", vec![record("a", 1_000_000), record("b", 2_000_000), record("c", 3_000_000)]),
    )
    .unwrap();
    let mut delta = patch("v260101", "v260102");
    delta.removed = vec![" B ".to_string(), "  ".to_string()];
    delta.added = vec![record("d", 4_000_000)];
    let out = apply_catalog_patch(&mut catalog, &delta).unwrap();
    assert_eq!(out.total_records, 3);
    assert_eq!(out.removed_count, 2);
    assert_eq!(out.added_count, 1);
    assert_eq!(market_of(&catalog, "a", "v260102"), Some(1_000_000));
    assert_eq!(market_of(&catalog, "b", "v260102"), None);
    assert_eq!(market_of(&catalog, "c", "v260102"), Some(3_000_000));
    assert_eq!(market_of(&catalog, "d", "v260102"), Some(4_000_000));
    assert_eq!(market_of(&catalog, "b", "v260101"), Some(2_000_000));
    let (at, found) = catalog.prices.locate("v260102", "a", Some(1), Some(1));
    assert!(found);
    assert_eq!(catalog.prices.row(at).captured_ymd, 20260102);
}

#[test]
fn invalid_inputs_are_refused_before_anything_is_written() {
    let mut catalog = Catalog::new();
    let mut input = snapshot("v1", vec![record("a", 1)]);
    input.dataset = Some("tokens".to_string());
    let error = apply_catalog_snapshot(&mut catalog, &input).unwrap_err();
    assert_eq!(
        error.message(),
        "Unsupported dataset 'tokens'. Only 'default_cards' is currently supported."
    );
    assert_eq!(error.kind(), ErrorKind::Validation);

    let error = apply_catalog_snapshot(&mut catalog, &snapshot("  ", vec![record("a", 1)])).unwrap_err();
    assert!(matches!(error, CatalogError::MissingSnapshotVersion));
    assert_eq!(error.message(), "Catalog snapshot apply requires version.");

    let error = apply_catalog_patch(&mut catalog, &patch("v1", " ")).unwrap_err();
    assert!(matches!(error, CatalogError::MissingPatchVersions));
    assert_eq!(error.message(), "Catalog patch apply requires fromVersion and toVersion.");

    let error =
        apply_catalog_snapshot(&mut catalog, &snapshot("v1", vec![record("a", 1), record("  ", 1)]))
            .unwrap_err();
    assert!(matches!(error, CatalogError::EmptyRecordId));
    assert_eq!(error.message(), "Catalog row has empty scryfallId.");

    let error =
        apply_catalog_snapshot(&mut catalog, &snapshot("v1", vec![record("a", 1), record("B", -1_500_000)]))
            .unwrap_err();
    assert_eq!(error.message(), "Catalog row B has invalid marketPrice: -1.500000");

    let mut bad = record("c", 0);
    bad.market_price = Reading::NotFinite;
    let error = apply_catalog_snapshot(&mut catalog, &snapshot("v1", vec![bad])).unwrap_err();
    assert_eq!(error.message(), "Catalog row c has invalid marketPrice: NaN");
    assert_eq!(error.kind(), ErrorKind::Validation);

    assert_eq!(catalog.prices.len(), 0);
    assert_eq!(catalog.printings.len(), 0);
    assert_eq!(catalog.ledger.states.len(), 0);
    assert_eq!(catalog.ledger.audits.len(), 0);
}

#[test]
fn record_without_low_and_high_takes_the_market_price_for_both() {
    let mut catalog = Catalog::new();
    let mut with_low = record("b", 2_000_000);
    with_low.low_price = Some(Reading::Amount(1_500_000));
    with_low.high_price = Some(Reading::Amount(-1));
    apply_catalog_snapshot(&mut catalog, &snapshot("v1", vec![record("A ", 1_000_000), with_low])).unwrap();
    let (at, found) = catalog.prices.locate("v1", "a", Some(1), Some(1));
    assert!(found);
    let row = catalog.prices.row(at);
    assert_eq!(row.channels.tcg_low, Some(1_000_000));
    assert_eq!(row.channels.tcg_high, Some(1_000_000));
    assert_eq!(row.captured_at, "2026-01-02T03:04:05Z");
    assert_eq!(row.captured_ymd, 20260102);
    let (at, _) = catalog.prices.locate("v1", "b", Some(1), Some(1));
    let row = catalog.prices.row(at);
    assert_eq!(row.channels.tcg_low, Some(1_500_000));
    assert_eq!(row.channels.tcg_high, None);
}
