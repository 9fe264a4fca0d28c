use magiccollection::catalog::Catalog;
use magiccollection::changes::{
    audit_kept, printing_kept, row_kept, same_audit, same_kept_text, same_printing, same_row,
    same_state, same_version_record, state_kept, version_kept,
};
use magiccollection::ledger::{AuditRecord, Ledger, SyncState, VersionRecord};
use magiccollection::price::{Channels, Reading};
use magiccollection::printing::{Printing, Printings};
use magiccollection::record::CatalogRecord;
use magiccollection::snapshot::{apply_catalog_snapshot, SnapshotInput};
use magiccollection::store::{PriceRow, PriceStore};

fn price_row(id: &str, version: &str, market: u64) -> PriceRow {
    PriceRow {
        printing_id: id.to_string(),
        condition_id: Some(1),
        finish_id: Some(1),
        sync_version: version.to_string(),
        channels: Channels {
            tcg_low: None,
            tcg_market: Some(market),
            tcg_high: None,
            ck_sell: None,
            ck_buylist: None,
            ck_buylist_quantity_cap: None,
        },
        captured_ymd: 20260203,
        captured_at: "2026-02-03T00:00:00Z".to_string(),
    }
}

fn printing_named(id: &str, name: &str) -> Printing {
    Printing {
        id: id.to_string(),
        oracle_id: None,
        name: name.to_string(),
        mana_cost: Some("{1}".to_string()),
        cmc: Some(1_000_000),
        type_line: None,
        oracle_text: None,
        reserved: false,
        keywords_json: None,
        colors_json: None,
        color_identity_json: None,
        latest_released_at: None,
        set_code: "set".to_string(),
        collector_number: "1".to_string(),
        lang: "en".to_string(),
        rarity: None,
        layout: None,
        released_at: None,
        artist: None,
        image_normal_url: None,
        image_small_url: None,
        image_art_crop_url: None,
        is_digital: false,
        is_foil_available: false,
        is_nonfoil_available: true,
        tcgplayer_id: Some(7),
        cardmarket_id: None,
        mtgo_id: None,
        mtgo_foil_id: None,
        updated_at: "t".to_string(),
    }
}

fn state(dataset: &str, version: Option<&str>) -> SyncState {
    SyncState {
        dataset: dataset.to_string(),
        current_version: version.map(|v| v.to_string()),
        state_hash: None,
        synced_at: "t".to_string(),
    }
}

fn version_record(id: &str, count: u64) -> VersionRecord {
    VersionRecord {
        id: id.to_string(),
        source_id: "source".to_string(),
        dataset: "default_cards".to_string(),
        version: "v1".to_string(),
        state_hash: Some("hash".to_string()),
        record_count: count,
        created_at: "t".to_string(),
    }
}

fn audit(patch_id: &str, total: u64) -> AuditRecord {
    AuditRecord {
        patch_id: patch_id.to_string(),
        history_id: format!("h-{}", patch_id),
        dataset: "default_cards".to_string(),
        from_version: None,
        to_version: "v1".to_string(),
        strategy: "full".to_string(),
        patch_hash: None,
        added_count: total,
        updated_count: 0,
        removed_count: 0,
        total_records: total,
        applied_at: "t".to_string(),
    }
}

#[test]
fn optional_texts_are_compared_as_they_are() {
    assert!(same_kept_text(&None, &None));
    assert!(same_kept_text(&Some("a".to_string()), &Some("a".to_string())));
    assert!(!same_kept_text(&Some(String::new()), &None));
    assert!(!same_kept_text(&Some("a".to_string()), &Some("A".to_string())));
}

#[test]
fn rows_are_the_same_only_field_by_field() {
    let row = price_row("a", "v1", 5);
    assert!(same_row(&row, &price_row("a", "v1", 5)));
    assert!(!same_row(&row, &price_row("b", "v1", 5)));
    assert!(!same_row(&row, &price_row("a", "v2", 5)));
    assert!(!same_row(&row, &price_row("a", "v1", 6)));
    let mut other = price_row("a", "v1", 5);
    other.condition_id = None;
    assert!(!same_row(&row, &other));
    let mut other = price_row("a", "v1", 5);
    other.finish_id = Some(2);
    assert!(!same_row(&row, &other));
    let mut other = price_row("a", "v1", 5);
    other.channels.ck_buylist_quantity_cap = Some(0);
    assert!(!same_row(&row, &other));
    let mut other = price_row("a", "v1", 5);
    other.captured_ymd = 20260204;
    assert!(!same_row(&row, &other));
    let mut other = price_row("a", "v1", 5);
    other.captured_at = "later".to_string();
    assert!(!same_row(&row, &other));
}

#[test]
fn a_store_keeps_a_row_only_as_it_is() {
    let mut store = PriceStore::new();
    store.add_row(price_row("a", "v1", 5));
    store.add_row(price_row("b", "v1", 6));
    store.add_row(price_row("a", "v2", 7));
    assert!(row_kept(&store, &price_row("a", "v1", 5)));
    assert!(row_kept(&store, &price_row("a", "v2", 7)));
    assert!(!row_kept(&store, &price_row("a", "v1", 7)));
    assert!(!row_kept(&store, &price_row("c", "v1", 5)));
    assert!(!row_kept(&PriceStore::new(), &price_row("a", "v1", 5)));
    let mut keyed_alike = price_row("b", "v1", 6);
    keyed_alike.captured_at = "later".to_string();
    assert!(!row_kept(&store, &keyed_alike));
}

#[test]
fn printings_are_the_same_only_field_by_field() {
    let known = printing_named("a", "Card");
    assert!(same_printing(&known, &printing_named("a", "Card")));
    assert!(!same_printing(&known, &printing_named("a", "card")));
    assert!(!same_printing(&known, &printing_named("b", "Card")));
    let mut other = printing_named("a", "Card");
    other.mana_cost = Some(String::new());
    assert!(!same_printing(&known, &other));
    let mut other = printing_named("a", "Card");
    other.mana_cost = None;
    assert!(!same_printing(&known, &other));
    let mut other = printing_named("a", "Card");
    other.is_foil_available = true;
    assert!(!same_printing(&known, &other));
    let mut other = printing_named("a", "Card");
    other.artist = Some("someone".to_string());
    assert!(!same_printing(&known, &other));
    let mut other = printing_named("a", "Card");
    other.tcgplayer_id = None;
    assert!(!same_printing(&known, &other));
    let mut other = printing_named("a", "Card");
    other.updated_at = "later".to_string();
    assert!(!same_printing(&known, &other));
}

#[test]
fn printings_keep_a_printing_only_as_it_is() {
    let mut printings = Printings::new();
    printings.place(printing_named("b", "Second"));
    printings.place(printing_named("a", "First"));
    assert!(printing_kept(&printings, &printing_named("a", "First")));
    assert!(printing_kept(&printings, &printing_named("b", "Second")));
    assert!(!printing_kept(&printings, &printing_named("a", "Second")));
    assert!(!printing_kept(&printings, &printing_named("c", "First")));
    assert!(!printing_kept(&Printings::new(), &printing_named("a", "First")));
}

#[test]
fn a_ledger_keeps_its_entries_only_as_they_are() {
    let mut ledger = Ledger::new();
    ledger.put_state(state("default_cards", Some("v1")));
    ledger.put_version(version_record("one", 3));
    ledger.append_audit(audit("p1", 3));
    ledger.append_audit(audit("p2", 4));

    assert!(same_state(&state("x", None), &state("x", None)));
    assert!(!same_state(&state("x", None), &state("x", Some(""))));
    assert!(state_kept(&ledger, &state("default_cards", Some("v1"))));
    assert!(!state_kept(&ledger, &state("default_cards", Some("v2"))));
    assert!(!state_kept(&ledger, &state("other", Some("v1"))));

    assert!(same_version_record(&version_record("one", 3), &version_record("one", 3)));
    assert!(!same_version_record(&version_record("one", 3), &version_record("one", 4)));
    assert!(version_kept(&ledger, &version_record("one", 3)));
    assert!(!version_kept(&ledger, &version_record("one", 4)));
    assert!(!version_kept(&ledger, &version_record("two", 3)));

    assert!(same_audit(&audit("p1", 3), &audit("p1", 3)));
    assert!(!same_audit(&audit("p1", 3), &audit("p1", 4)));
    assert!(audit_kept(&ledger, &audit("p1", 3)));
    assert!(audit_kept(&ledger, &audit("p2", 4)));
    assert!(!audit_kept(&ledger, &audit("p2", 3)));
    assert!(!audit_kept(&ledger, &audit("p3", 3)));
    assert!(!audit_kept(&Ledger::new(), &audit("p1", 3)));
}

fn is_drawn(id: &str) -> bool {
    let bytes = id.as_bytes();
    bytes.len() == 36
        && bytes.iter().enumerate().all(|(at, byte)| match at {
            8 | 13 | 18 | 23 => *byte == b'-',
            _ => byte.is_ascii_digit() || (b'a'..=b'f').contains(byte),
        })
}

#[test]
fn the_entries_of_the_log_carry_drawn_identifiers() {
    let mut catalog = Catalog { printings: Printings::new(), prices: PriceStore::new(), ledger: Ledger::new() };
    let input = SnapshotInput {
        dataset: None,
        version: "v1".to_string(),
        records: vec![CatalogRecord {
            scryfall_id: "a".to_string(),
            name: "Card".to_string(),
            set_code: "set".to_string(),
            collector_number: "1".to_string(),
            image_url: None,
            market_price: Reading::Amount(1_000_000),
            low_price: None,
            mid_price: None,
            high_price: None,
            updated_at: "t".to_string(),
        }],
        snapshot_hash: None,
        strategy: None,
    };
    let result = apply_catalog_snapshot(&mut catalog, &input).unwrap();
    assert_eq!(result.dataset, "default_cards");
    assert_eq!(result.strategy, "full");
    assert_eq!(catalog.ledger.audits.len(), 1);
    let entry = &catalog.ledger.audits[0];
    assert!(is_drawn(&entry.patch_id), "patch id {:?}", entry.patch_id);
    assert!(is_drawn(&entry.history_id), "history id {:?}", entry.history_id);
    assert_ne!(entry.patch_id, entry.history_id);
    assert!(!is_drawn("0123456789abcdef0123456789abcdef0123"));
    let applied = entry.applied_at.as_bytes();
    assert_eq!(applied[4], b'-');
    assert_eq!(applied[10], b'T');
}
