use magiccollection::catalog::{load_catalog_sync_state, Catalog};
use magiccollection::price::{Channels, Reading};
use magiccollection::query::reset_catalog_sync_state_for_test;
use magiccollection::record::CatalogRecord;
use magiccollection::snapshot::{apply_catalog_snapshot, SnapshotInput};
use magiccollection::store::{PriceRow, PriceStore};
use magiccollection::tags::{dedup_tags, derive_tags, order_tags};
use magiccollection::text::contains_text;
use magiccollection::tokens::{
    extract_primary_type, primary_type_of, push_filter_token, FilterToken, TokenBucket,
};

fn list(items: &[&str]) -> Vec<String> {
    items.iter().map(|s| s.to_string()).collect()
}

fn derive_tags_with_std(quantity: i64, foil_quantity: i64, existing: Vec<String>) -> Vec<String> {
    let mut tags = existing;
    let has_tag = |all: &[String], needle: &str| all.iter().any(|tag| tag.eq_ignore_ascii_case(needle));
    if foil_quantity > 0 && !has_tag(&tags, "foil") {
        tags.push("foil".to_string());
    }
    if quantity + foil_quantity >= 4 && !has_tag(&tags, "playset") {
        tags.push("playset".to_string());
    }
    if quantity + foil_quantity > 0 && !has_tag(&tags, "owned") {
        tags.push("owned".to_string());
    }
    tags.sort_by(|a, b| a.to_lowercase().cmp(&b.to_lowercase()));
    tags.dedup_by(|a, b| a.eq_ignore_ascii_case(b));
    tags
}

#[test]
fn system_tags_are_added_by_their_rules() {
    assert_eq!(derive_tags(0, 0, list(&[])), list(&[]));
    assert_eq!(derive_tags(1, 0, list(&[])), list(&["owned"]));
    assert_eq!(derive_tags(0, 1, list(&[])), list(&["foil", "owned"]));
    assert_eq!(derive_tags(3, 1, list(&[])), list(&["foil", "owned", "playset"]));
    assert_eq!(derive_tags(4, 0, list(&["Trade"])), list(&["owned", "playset", "Trade"]));
    assert_eq!(derive_tags(1, 1, list(&["FOIL", "Owned"])), list(&["FOIL", "Owned"]));
    assert_eq!(derive_tags(i64::MAX, 0, list(&[])), list(&["owned", "playset"]));
}

#[test]
fn tags_are_ordered_and_repeats_dropped() {
    assert_eq!(
        derive_tags(0, 0, list(&["b", "A", "a", "B", "c", "a"])),
        list(&["A", "b", "c"])
    );
    assert_eq!(order_tags(list(&["b", "A", "a", "B"])), list(&["A", "a", "b", "B"]));
    assert_eq!(dedup_tags(list(&["x", "X", "y", "x", "x"])), list(&["x", "y", "x"]));
    assert_eq!(dedup_tags(list(&[])), list(&[]));
}

#[test]
fn derived_tags_agree_with_a_sort_and_dedup_of_the_standard_library() {
    let samples: Vec<(i64, i64, Vec<String>)> = vec![
        (0, 0, list(&["zeta", "Alpha", "alpha", "ALPHA", "beta", "Ünï", "ünï", "éa", "Ea"])),
        (2, 2, list(&["Playset", "owned", "x", "foil", "X", "2", "10", "_", "~", "A"])),
        (1, 0, list(&["b", "a", "B", "A", "b", "a", "", " ", "ab", "aB", "Ab"])),
        (-5, 3, list(&["q"])),
        (5, -3, list(&["Σ", "σ", "ς", "İ", "i", "I"])),
    ];
    for (quantity, foil_quantity, existing) in samples {
        assert_eq!(
            derive_tags(quantity, foil_quantity, existing.clone()),
            derive_tags_with_std(quantity, foil_quantity, existing)
        );
    }
}

#[test]
fn type_lines_are_classed() {
    assert_eq!(extract_primary_type(None), None);
    assert_eq!(extract_primary_type(Some("   ")), None);
    assert_eq!(extract_primary_type(Some("Legendary Creature — Elf Druid")), Some("creature".to_string()));
    assert_eq!(extract_primary_type(Some("Artifact Creature — Golem")), Some("artifact".to_string()));
    assert_eq!(extract_primary_type(Some("  INSTANT ")), Some("instant".to_string()));
    assert_eq!(extract_primary_type(Some("Basic Land — Forest")), Some("land".to_string()));
    assert_eq!(extract_primary_type(Some("Conspiracy — Creature")), Some("conspiracy".to_string()));
    assert_eq!(extract_primary_type(Some("Legendary Planeswalker — Jace")), Some("planeswalker".to_string()));
    assert_eq!(extract_primary_type(Some("— Land")), None);
    assert_eq!(extract_primary_type(Some("Scheme")), Some("scheme".to_string()));
    assert_eq!(extract_primary_type(Some("Tribal Sorcery — Goblin")), Some("sorcery".to_string()));
    assert_eq!(primary_type_of(""), None);
    assert_eq!(primary_type_of("host  thing"), Some("host".to_string()));
    assert_eq!(primary_type_of("island"), Some("land".to_string()));
}

#[test]
fn texts_hold_parts() {
    assert!(contains_text("abcdef", "cde"));
    assert!(contains_text("abcdef", ""));
    assert!(contains_text("abcdef", "abcdef"));
    assert!(contains_text("", ""));
    assert!(!contains_text("abcdef", "abcdefg"));
    assert!(!contains_text("abcdef", "ce"));
    assert!(contains_text("aab", "ab"));
    assert!(!contains_text("", "a"));
}

fn offers(bucket: &TokenBucket) -> Vec<(String, String, String, String, i64)> {
    bucket
        .into_values()
        .into_iter()
        .map(|t: FilterToken| (t.kind, t.token, t.label, t.source, t.priority))
        .collect()
}

#[test]
fn tokens_are_filed_under_kind_and_text() {
    let mut bucket = TokenBucket::new();
    push_filter_token(&mut bucket, " Set:NEO ", " Set NEO ", " SET ", " Derived ", 50);
    push_filter_token(&mut bucket, "t:", "Type line", "syntax", "seed", 2);
    push_filter_token(&mut bucket, "  ", "nothing typed", "syntax", "seed", 3);
    push_filter_token(&mut bucket, "x:", "   ", "syntax", "seed", 4);
    push_filter_token(&mut bucket, "set:", "Set code", "syntax", "seed", 1);
    push_filter_token(&mut bucket, "SET:neo", "Set Neo again", "set", "derived", 51);
    assert_eq!(bucket.len(), 3);
    assert_eq!(
        offers(&bucket),
        vec![
            ("set".to_string(), "set:neo".to_string(), "Set Neo again".to_string(), "derived".to_string(), 51),
            ("syntax".to_string(), "set:".to_string(), "Set code".to_string(), "seed".to_string(), 1),
            ("syntax".to_string(), "t:".to_string(), "Type line".to_string(), "seed".to_string(), 2),
        ]
    );
    assert_eq!(bucket.token(0).label, "Set Neo again");
}

#[test]
fn tokens_come_out_as_from_a_sorted_map() {
    let entries = [
        ("b", "k2"), ("a", "k2"), ("c", "k1"), ("a", "k1"), ("Z", "k1"), ("a:b", "k"), ("b", "k:a"),
    ];
    let mut bucket = TokenBucket::new();
    let mut map = std::collections::BTreeMap::new();
    for (i, (token, kind)) in entries.iter().enumerate() {
        push_filter_token(&mut bucket, token, "label", kind, "s", i as i64);
        map.insert(format!("{}:{}", kind, token.to_lowercase()), i as i64);
    }
    let got: Vec<i64> = bucket.into_values().iter().map(|t| t.priority).collect();
    let expected: Vec<i64> = map.into_values().collect();
    assert_eq!(got, expected);
}

#[test]
fn a_reset_empties_the_replica_for_the_dataset() {
    let mut catalog = Catalog::new();
    apply_catalog_snapshot(
        &mut catalog,
        &SnapshotInput {
            dataset: None,
            version: "v1".to_string(),
            records: vec![CatalogRecord {
                scryfall_id: "a".to_string(),
                name: "A".to_string(),
                set_code: "neo".to_string(),
                collector_number: "1".to_string(),
                image_url: None,
                market_price: Reading::Amount(1),
                low_price: None,
                mid_price: None,
                high_price: None,
                updated_at: "t".to_string(),
            }],
            snapshot_hash: None,
            strategy: None,
        },
    )
    .unwrap();
    magiccollection::cycle::write_source_sync_record(&mut catalog.ledger, "s", "other", "v9", 1, None, "t");
    assert!(reset_catalog_sync_state_for_test(&mut catalog, &Some("nope".to_string())).is_err());
    assert_eq!(catalog.prices.len(), 1);
    let state = reset_catalog_sync_state_for_test(&mut catalog, &None).unwrap();
    assert_eq!(state.dataset, "default_cards");
    assert_eq!(state.current_version, None);
    assert_eq!(state.state_hash, None);
    assert_eq!(state.synced_at, None);
    assert_eq!(state.total_records, 0);
    assert_eq!(catalog.prices.len(), 0);
    assert_eq!(catalog.printings.len(), 1);
    assert_eq!(catalog.ledger.audits.len(), 0);
    assert_eq!(catalog.ledger.versions.len(), 1);
    assert_eq!(catalog.ledger.states.len(), 1);
    assert_eq!(catalog.ledger.states[0].dataset, "other");
    assert_eq!(load_catalog_sync_state(&catalog, "other").current_version.as_deref(), Some("v9"));
}

#[test]
fn rows_are_added_as_they_are_unless_empty() {
    let row = |id: &str, market: Option<u64>| PriceRow {
        printing_id: id.to_string(),
        condition_id: Some(1),
        finish_id: Some(1),
        sync_version: "v1".to_string(),
        channels: Channels {
            tcg_low: None,
            tcg_market: market,
            tcg_high: None,
            ck_sell: None,
            ck_buylist: None,
            ck_buylist_quantity_cap: None,
        },
        captured_ymd: 1,
        captured_at: "t".to_string(),
    };
    let mut store = PriceStore::new();
    store.add_row(row("b", Some(2)));
    store.add_row(row("a", Some(1)));
    store.add_row(row("c", None));
    assert_eq!(store.len(), 2);
    assert_eq!(store.row(0).printing_id, "a");
    assert_eq!(store.row(0).duplicate().channels.tcg_market, Some(1));
}
