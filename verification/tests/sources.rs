use magiccollection::catalog::{compute_catalog_state_hash, Catalog};
use magiccollection::ck::{
    is_yield_due, make_ck_source_url, merge_ck_pricelist, normalize_line,
    sync_ck_prices_into_card_data, CkPricelistItem,
};
use magiccollection::cycle::{
    action_after, begin_sync_cycle, finish_sync_cycle, first_action, is_set_yield_due,
    merge_tcg_set, refresh_oracle_cards, start_sync_cycle, take_oracle_card,
    write_source_sync_record, CycleAction, Feed, OracleCounts,
};
use magiccollection::ledger::Ledger;
use magiccollection::oracle::{
    compare_card_data, normalize_card, set_of_card, upsert_scryfall_oracle_if_changed, ImageUris,
    OracleCard,
};
use magiccollection::price::Reading;
use magiccollection::printing::Printings;
use magiccollection::record::CatalogRecord;
use magiccollection::snapshot::{apply_catalog_snapshot, SnapshotInput};
use sha2::{Digest, Sha256};
use magiccollection::tcg::{
    mark_sku, pick_high, select_readings, SkuMark, TcgPricePoint, TcgPricing, TcgProduct, TcgSet,
    TcgSku, TcgSkuGroup,
};

fn known(ids: &[&str]) -> Catalog {
    let mut catalog = Catalog::new();
    let records = ids
        .iter()
        .map(|id| CatalogRecord {
            scryfall_id: id.to_string(),
            name: "Card".to_string(),
            set_code: "neo".to_string(),
            collector_number: "1".to_string(),
            image_url: None,
            market_price: Reading::Amount(1_000_000),
            low_price: None,
            mid_price: None,
            high_price: None,
            updated_at: "2026-01-01T00:00:00Z".to_string(),
        })
        .collect();
    apply_catalog_snapshot(
        &mut catalog,
        &SnapshotInput {
            dataset: None,
            version: "v0".to_string(),
            records,
            snapshot_hash: None,
            strategy: None,
        },
    )
    .unwrap();
    catalog
}

fn line(id: Option<&str>, foil: Option<&str>, buy: i64, sell: i64, qty: Option<i64>) -> CkPricelistItem {
    CkPricelistItem {
        scryfall_id: id.map(|id| id.to_string()),
        is_foil: foil.map(|flag| flag.to_string()),
        price_buy: Reading::Amount(buy),
        price_sell: Reading::Amount(sell),
        qty_buying: qty,
        url: None,
    }
}

#[test]
fn price_list_lines_are_merged_and_counted() {
    let mut catalog = known(&["a", "b"]);
    let items = vec![
        line(Some(" A "), Some("false"), 1_000_000, 2_000_000, Some(4)),
        line(Some("a"), Some("TRUE"), 3_000_000, 0, None),
        line(Some("b"), None, 0, 0, Some(1)),
        line(Some("zzz"), None, 1, 1, None),
        line(None, None, 1, 1, None),
        line(Some("  "), None, 1, 1, None),
        line(Some("b"), Some("no"), -5, 6_000_000, None),
    ];
    let counts = merge_ck_pricelist(&mut catalog, &items, "v1", 20260101, "2026-01-01T10:00:00Z");
    assert_eq!(counts.scanned, 7);
    assert_eq!(counts.upserted_buylist, 2);
    assert_eq!(counts.upserted_sell, 2);
    assert_eq!(counts.skipped, 4);

    let (at, found) = catalog.prices.locate("v1", "a", Some(1), Some(1));
    assert!(found);
    let row = catalog.prices.row(at);
    assert_eq!(row.channels.ck_buylist, Some(1_000_000));
    assert_eq!(row.channels.ck_sell, Some(2_000_000));
    assert_eq!(row.channels.ck_buylist_quantity_cap, Some(4));
    assert_eq!(row.channels.tcg_market, None);

    let (at, found) = catalog.prices.locate("v1", "a", Some(1), Some(2));
    assert!(found);
    let row = catalog.prices.row(at);
    assert_eq!(row.channels.ck_buylist, Some(3_000_000));
    assert_eq!(row.channels.ck_sell, None);
    assert_eq!(row.channels.ck_buylist_quantity_cap, Some(0));

    let (at, found) = catalog.prices.locate("v1", "b", Some(1), Some(1));
    assert!(found);
    assert_eq!(catalog.prices.row(at).channels.ck_sell, Some(6_000_000));
    assert_eq!(catalog.prices.row(at).channels.ck_buylist, None);
    assert_eq!(catalog.printings.len(), 2);
}

#[test]
fn an_empty_price_list_counts_nothing() {
    let mut catalog = known(&["a"]);
    let counts = sync_ck_prices_into_card_data(&mut catalog, &Vec::new());
    assert_eq!(counts.scanned, 0);
    assert_eq!(counts.skipped, 0);
    assert_eq!(catalog.prices.len(), 1);
}

#[test]
fn a_price_list_is_merged_under_todays_version() {
    let mut catalog = known(&["a"]);
    let counts =
        sync_ck_prices_into_card_data(&mut catalog, &vec![line(Some("a"), None, 1_000_000, 0, None)]);
    assert_eq!(counts.upserted_buylist, 1);
    assert_eq!(catalog.prices.len(), 2);
    let row = catalog.prices.row(1);
    assert!(row.sync_version.starts_with('v'));
    assert_eq!(row.sync_version.len(), 7);
    assert_eq!(row.channels.ck_buylist, Some(1_000_000));
}

#[test]
fn price_list_lines_are_normalised() {
    let normal = normalize_line(&line(Some("  AbC "), Some(" Yes "), 1, 2, Some(3)));
    assert_eq!(normal.printing_id, "abc");
    assert!(normal.foil);
    let normal = normalize_line(&line(None, None, 1, 2, None));
    assert_eq!(normal.printing_id, "");
    assert!(!normal.foil);
}

#[test]
fn scans_pause_every_five_hundred_rows_and_every_ten_sets() {
    assert!(is_yield_due(500));
    assert!(is_yield_due(1000));
    assert!(!is_yield_due(499));
    assert!(!is_yield_due(1));
    assert!(is_set_yield_due(10));
    assert!(!is_set_yield_due(11));
}

#[test]
fn vendor_links_become_addresses() {
    assert_eq!(make_ck_source_url(None), "https://www.cardkingdom.com/");
    assert_eq!(make_ck_source_url(Some("  ")), "https://www.cardkingdom.com/");
    assert_eq!(make_ck_source_url(Some("///")), "https://www.cardkingdom.com/");
    assert_eq!(
        make_ck_source_url(Some(" //mtg/neo/card ")),
        "https://www.cardkingdom.com/mtg/neo/card"
    );
    assert_eq!(make_ck_source_url(Some("mtg/x/")), "https://www.cardkingdom.com/mtg/x/");
}

fn sku(cnd: &str, var: Option<&str>, lng: &str, hi: Option<i64>) -> TcgSku {
    TcgSku {
        cnd: Some(cnd.to_string()),
        var: var.map(|v| v.to_string()),
        lng: Some(lng.to_string()),
        hi: hi.map(Reading::Amount),
    }
}

#[test]
fn stock_keeping_units_are_marked() {
    let mark = mark_sku(&sku(" nm ", None, "en", Some(5)));
    assert_eq!(
        mark,
        SkuMark { near_mint_english: true, normal_variant: true, hi: Some(Reading::Amount(5)) }
    );
    let mark = mark_sku(&sku("NM", Some(" f "), "EN", None));
    assert_eq!(mark, SkuMark { near_mint_english: true, normal_variant: false, hi: None });
    let mark = mark_sku(&sku("LP", Some("N"), "EN", Some(1)));
    assert!(!mark.near_mint_english);
    let mark = mark_sku(&TcgSku { cnd: None, var: None, lng: None, hi: None });
    assert!(!mark.near_mint_english);
    assert!(mark.normal_variant);
}

fn mark(nm_en: bool, normal: bool, hi: Option<i64>) -> SkuMark {
    SkuMark { near_mint_english: nm_en, normal_variant: normal, hi: hi.map(Reading::Amount) }
}

#[test]
fn the_high_price_prefers_the_normal_variant() {
    assert_eq!(pick_high(&vec![]), None);
    assert_eq!(
        pick_high(&vec![mark(true, false, Some(1)), mark(true, true, Some(2)), mark(true, true, Some(3))]),
        Some(Reading::Amount(2))
    );
    assert_eq!(
        pick_high(&vec![mark(true, false, Some(1)), mark(true, false, Some(4)), mark(false, true, Some(9))]),
        Some(Reading::Amount(4))
    );
    assert_eq!(pick_high(&vec![mark(true, true, None), mark(false, false, Some(4))]), None);
    assert_eq!(
        pick_high(&vec![mark(true, true, None), mark(true, false, Some(4))]),
        Some(Reading::Amount(4))
    );
}

#[test]
fn market_and_low_stand_in_for_each_other() {
    let point = TcgPricePoint { low: Some(Reading::Amount(1)), market: None };
    let foil = TcgPricePoint { low: None, market: Some(Reading::Amount(9)) };
    let readings = select_readings(
        Some(TcgPricing { product_id: 1, normal: Some(point), foil: Some(foil) }),
        &vec![],
    )
    .unwrap();
    assert_eq!(readings.tcg_low, Some(Reading::Amount(1)));
    assert_eq!(readings.tcg_market, Some(Reading::Amount(1)));
    assert_eq!(readings.tcg_high, None);
    let readings =
        select_readings(Some(TcgPricing { product_id: 1, normal: None, foil: Some(foil) }), &vec![])
            .unwrap();
    assert_eq!(readings.tcg_low, Some(Reading::Amount(9)));
    assert_eq!(readings.tcg_market, Some(Reading::Amount(9)));
    assert!(select_readings(Some(TcgPricing { product_id: 1, normal: None, foil: None }), &vec![]).is_none());
    assert!(select_readings(None, &vec![mark(true, true, Some(1))]).is_none());
}

fn tcg_set() -> TcgSet {
    TcgSet {
        products: vec![
            TcgProduct { id: 10, scryfall_id: Some(" A ".to_string()) },
            TcgProduct { id: 11, scryfall_id: Some("unknown".to_string()) },
            TcgProduct { id: 12, scryfall_id: None },
            TcgProduct { id: 13, scryfall_id: Some("b".to_string()) },
            TcgProduct { id: 14, scryfall_id: Some("b".to_string()) },
        ],
        prices: vec![
            TcgPricing {
                product_id: 10,
                normal: Some(TcgPricePoint {
                    low: Some(Reading::Amount(1_000_000)),
                    market: Some(Reading::Amount(1_500_000)),
                }),
                foil: None,
            },
            TcgPricing {
                product_id: 14,
                normal: Some(TcgPricePoint { low: None, market: None }),
                foil: None,
            },
        ],
        skus: vec![TcgSkuGroup {
            product_id: 10,
            skus: vec![sku("NM", Some("F"), "EN", Some(4_000_000)), sku("NM", Some("N"), "EN", Some(3_000_000))],
        }],
    }
}

#[test]
fn a_set_of_the_tracker_is_merged_and_counted() {
    let mut catalog = known(&["a", "b"]);
    let mut cycle = start_sync_cycle("2026-01-05T00:00:00Z".to_string(), "v260105".to_string(), 20260105);
    merge_tcg_set(&mut catalog, &mut cycle, Some(&tcg_set()));
    merge_tcg_set(&mut catalog, &mut cycle, None);
    assert_eq!(cycle.tcg.sets_scanned, 2);
    assert_eq!(cycle.tcg.products_matched, 3);
    assert_eq!(cycle.tcg.price_upserts, 3);
    let (at, found) = catalog.prices.locate("v260105", "a", Some(1), Some(1));
    assert!(found);
    let row = catalog.prices.row(at);
    assert_eq!(row.channels.tcg_low, Some(1_000_000));
    assert_eq!(row.channels.tcg_market, Some(1_500_000));
    assert_eq!(row.channels.tcg_high, Some(3_000_000));
    assert_eq!(row.captured_at, "2026-01-05T00:00:00Z");
    assert_eq!(row.captured_ymd, 20260105);
    let (_, found) = catalog.prices.locate("v260105", "b", Some(1), Some(1));
    assert!(!found);
}

fn card(id: &str) -> OracleCard {
    OracleCard {
        id: id.to_string(),
        name: Some("  Lightning Bolt ".to_string()),
        oracle_id: Some("oracle-1".to_string()),
        set: Some(" LEA ".to_string()),
        set_name: Some("Alpha".to_string()),
        collector_number: Some(" 161 ".to_string()),
        released_at: Some("1993-08-05".to_string()),
        lang: Some("EN".to_string()),
        mana_cost: Some("{R}".to_string()),
        type_line: Some("Instant".to_string()),
        oracle_text: Some("  ".to_string()),
        reserved: None,
        keywords: Some(vec![]),
        colors: Some(vec!["R".to_string()]),
        color_identity: Some(vec!["R".to_string(), "a\"b".to_string()]),
        cmc: Some(Reading::Amount(1_000_000)),
        rarity: Some(" Common ".to_string()),
        layout: Some("normal".to_string()),
        artist: None,
        tcgplayer_id: Some(42),
        cardmarket_id: None,
        mtgo_id: None,
        mtgo_foil_id: None,
        digital: Some(false),
        finishes: Some(vec!["NonFoil".to_string(), "etched".to_string()]),
        image_uris: None,
        card_faces: Some(vec![
            Some(ImageUris {
                normal: Some("face-normal".to_string()),
                small: None,
                art_crop: Some("face-art".to_string()),
            }),
            None,
        ]),
    }
}

#[test]
fn a_card_is_brought_into_normal_form() {
    let printing = normalize_card(&card(" ABC-1 "), "now").unwrap();
    assert_eq!(printing.id, "abc-1");
    assert_eq!(printing.name, "Lightning Bolt");
    assert_eq!(printing.set_code, "lea");
    assert_eq!(printing.collector_number, "161");
    assert_eq!(printing.lang, "en");
    assert_eq!(printing.rarity.as_deref(), Some("common"));
    assert_eq!(printing.oracle_text, None);
    assert_eq!(printing.artist, None);
    assert_eq!(printing.cmc, Some(1_000_000));
    assert_eq!(printing.keywords_json.as_deref(), Some("[]"));
    assert_eq!(printing.colors_json.as_deref(), Some("[\"R\"]"));
    assert_eq!(printing.color_identity_json.as_deref(), Some("[\"R\",\"a\\\"b\"]"));
    assert_eq!(printing.released_at.as_deref(), Some("1993-08-05"));
    assert_eq!(printing.latest_released_at.as_deref(), Some("1993-08-05"));
    assert!(!printing.is_foil_available);
    assert!(printing.is_nonfoil_available);
    assert!(!printing.is_digital);
    assert!(!printing.reserved);
    assert_eq!(printing.image_normal_url.as_deref(), Some("face-normal"));
    assert_eq!(printing.image_small_url, None);
    assert_eq!(printing.image_art_crop_url.as_deref(), Some("face-art"));
    assert_eq!(printing.tcgplayer_id, Some(42));
    assert_eq!(printing.updated_at, "now");
    assert!(normalize_card(&card("   "), "now").is_none());

    let mut bare = card("x");
    bare.name = None;
    bare.set = None;
    bare.collector_number = Some(" ".to_string());
    bare.lang = None;
    bare.cmc = Some(Reading::Amount(-1));
    bare.colors = None;
    bare.finishes = None;
    bare.card_faces = None;
    bare.image_uris = Some(ImageUris { normal: Some("own".to_string()), small: None, art_crop: None });
    let printing = normalize_card(&bare, "now").unwrap();
    assert_eq!(printing.name, "Unknown Card");
    assert_eq!(printing.set_code, "unknown");
    assert_eq!(printing.collector_number, "0");
    assert_eq!(printing.lang, "en");
    assert_eq!(printing.cmc, None);
    assert_eq!(printing.colors_json, None);
    assert!(!printing.is_nonfoil_available);
    assert_eq!(printing.image_normal_url.as_deref(), Some("own"));
}

#[test]
fn card_data_are_written_only_where_they_changed() {
    let mut printings = Printings::new();
    assert!(upsert_scryfall_oracle_if_changed(&mut printings, &card("abc"), "t1"));
    assert_eq!(printings.len(), 1);
    assert_eq!(printings.get(0).updated_at, "t1");

    // a scan that finds nothing new writes nothing
    assert!(!upsert_scryfall_oracle_if_changed(&mut printings, &card(" ABC "), "t2"));
    assert_eq!(printings.len(), 1);
    assert_eq!(printings.get(0).updated_at, "t1");

    // the oracle identifier alone is not compared
    let mut other_oracle = card("abc");
    other_oracle.oracle_id = Some("oracle-2".to_string());
    assert!(!upsert_scryfall_oracle_if_changed(&mut printings, &other_oracle, "t3"));
    assert_eq!(printings.get(0).oracle_id.as_deref(), Some("oracle-1"));

    let mut renamed = card("abc");
    renamed.name = Some("Bolt".to_string());
    renamed.oracle_id = Some("oracle-2".to_string());
    assert!(upsert_scryfall_oracle_if_changed(&mut printings, &renamed, "t4"));
    assert_eq!(printings.len(), 1);
    assert_eq!(printings.get(0).name, "Bolt");
    assert_eq!(printings.get(0).oracle_id.as_deref(), Some("oracle-2"));
    assert_eq!(printings.get(0).updated_at, "t4");

    assert!(!upsert_scryfall_oracle_if_changed(&mut printings, &card("  "), "t5"));
    assert_eq!(printings.len(), 1);
}

#[test]
fn missing_and_empty_fields_compare_as_equal() {
    let a = normalize_card(&card("abc"), "t1").unwrap();
    let mut b = normalize_card(&card("abc"), "t2").unwrap();
    b.artist = Some(String::new());
    b.cardmarket_id = Some(-1);
    b.oracle_id = None;
    assert!(compare_card_data(&a, &b));
    b.cardmarket_id = Some(7);
    assert!(!compare_card_data(&a, &b));
    let mut c = normalize_card(&card("abc"), "t2").unwrap();
    c.cmc = None;
    assert!(!compare_card_data(&a, &c));
}

#[test]
fn a_pass_over_the_cards_counts_written_and_unwritten() {
    let mut printings = Printings::new();
    let mut renamed = card("b");
    renamed.name = Some("Other".to_string());
    let cards = vec![card("a"), card("b"), card("A"), card(" "), renamed];
    let counts = refresh_oracle_cards(&mut printings, &cards, "t");
    assert_eq!(counts.scanned, 5);
    assert_eq!(counts.updated, 3);
    assert_eq!(counts.unchanged, 2);
    assert_eq!(printings.len(), 2);
    assert_eq!(printings.get(1).name, "Other");
}

#[test]
fn the_set_of_a_card_is_listed_by_code_and_name() {
    assert_eq!(set_of_card(&card("a")), ("lea".to_string(), "Alpha".to_string()));
    let mut bare = card("a");
    bare.set = None;
    bare.set_name = Some("  ".to_string());
    assert_eq!(set_of_card(&bare), ("unknown".to_string(), "UNKNOWN".to_string()));
    bare.set_name = None;
    assert_eq!(set_of_card(&bare).1, "UNKNOWN");
}

#[test]
fn cards_are_counted_one_by_one() {
    let mut printings = Printings::new();
    let mut counts = OracleCounts { scanned: 0, updated: 0, unchanged: 0 };
    take_oracle_card(&mut printings, &mut counts, &card("a"), "t1");
    take_oracle_card(&mut printings, &mut counts, &card("a"), "t2");
    take_oracle_card(&mut printings, &mut counts, &card("  "), "t3");
    assert_eq!(counts, OracleCounts { scanned: 3, updated: 1, unchanged: 2 });
    assert_eq!(printings.len(), 1);
    assert_eq!(printings.get(0).updated_at, "t1");
}

#[test]
fn a_failed_feed_stops_no_other_feed() {
    assert_eq!(first_action(), CycleAction::Fetch(Feed::Tracker));
    for delivered in [true, false] {
        assert_eq!(action_after(Feed::Tracker, delivered), CycleAction::Fetch(Feed::Buylist));
        assert_eq!(action_after(Feed::Buylist, delivered), CycleAction::Fetch(Feed::CardData));
        assert_eq!(action_after(Feed::CardData, delivered), CycleAction::Close);
    }
    // a cycle of which every feed failed still closes, with nothing counted
    let mut catalog = known(&["a"]);
    let cycle = start_sync_cycle("2026-01-05T00:00:00Z".to_string(), "v260105".to_string(), 20260105);
    let report = finish_sync_cycle(&mut catalog, cycle, "t", "t".to_string());
    assert_eq!(report.tcg_sets_scanned, 0);
    assert_eq!(report.ck_scanned, 0);
    assert_eq!(report.scryfall_scanned, 0);
    let (version, hash, _) = catalog.ledger.read_catalog_sync_row("default_cards");
    assert_eq!(version.as_deref(), Some("v260105"));
    let mut hasher = Sha256::new();
    hasher.update(b"default_cards\n");
    assert_eq!(hash, Some(format!("{:x}", hasher.finalize())));
}

#[test]
fn a_source_record_moves_the_datasets_state() {
    let mut ledger = Ledger::new();
    write_source_sync_record(&mut ledger, "src", "data_live", "v260105", 12, None, "t1");
    write_source_sync_record(&mut ledger, "src", "data_live", "v260105", 15, Some("h"), "t2");
    write_source_sync_record(&mut ledger, "src", "data_live", "v260106", 1, None, "t3");
    assert_eq!(ledger.versions.len(), 2);
    assert_eq!(ledger.versions[0].id, "src:data_live:v260105");
    assert_eq!(ledger.versions[0].record_count, 15);
    assert_eq!(ledger.versions[0].state_hash.as_deref(), Some("h"));
    assert_eq!(ledger.versions[0].created_at, "t2");
    assert_eq!(ledger.states.len(), 1);
    assert_eq!(ledger.states[0].current_version.as_deref(), Some("v260106"));
    assert_eq!(ledger.states[0].state_hash, None);
    let (version, hash, at) = ledger.read_catalog_sync_row("data_live");
    assert_eq!(version.as_deref(), Some("v260106"));
    assert_eq!(hash, None);
    assert_eq!(at.as_deref(), Some("t3"));
    assert_eq!(ledger.read_catalog_sync_row("other"), (None, None, None));
}

#[test]
fn a_cycle_records_its_sources_and_moves_the_pointer() {
    let mut catalog = known(&["a"]);
    let mut cycle = start_sync_cycle("2026-01-05T00:00:00Z".to_string(), "v260105".to_string(), 20260105);
    merge_tcg_set(&mut catalog, &mut cycle, Some(&tcg_set()));
    cycle.ck = merge_ck_pricelist(
        &mut catalog,
        &vec![line(Some("a"), None, 1_000_000, 0, None)],
        "v260105",
        20260105,
        "t",
    );
    cycle.oracle = refresh_oracle_cards(&mut catalog.printings, &vec![card("a"), card("c")], "t");
    let report = finish_sync_cycle(&mut catalog, cycle, "t-end", "t-finished".to_string());
    assert_eq!(report.started_at, "2026-01-05T00:00:00Z");
    assert_eq!(report.finished_at, "t-finished");
    assert_eq!(report.sync_version, "v260105");
    assert_eq!(report.scryfall_scanned, 2);
    assert_eq!(report.scryfall_updated, 2);
    assert_eq!(report.scryfall_unchanged, 0);
    assert_eq!(report.scryfall_price_snapshots, 0);
    assert_eq!(report.tcg_sets_scanned, 1);
    assert_eq!(report.tcg_products_matched, 1);
    assert_eq!(report.tcg_price_upserts, 3);
    assert_eq!(report.ck_scanned, 1);
    assert_eq!(report.ck_upserted_buylist, 1);
    assert_eq!(report.ck_upserted_sell, 0);
    let ids: Vec<&str> = catalog.ledger.versions.iter().map(|v| v.id.as_str()).collect();
    assert_eq!(
        ids,
        vec![
            "default_cards:v0",
            "scryfall_default_cards:default_cards_live:v260105",
            "tcgtracking_tcgplayer:tcgtracking_tcgplayer_live:v260105",
            "ck_buylist:ck_pricelist_live:v260105",
            "default_cards:v260105",
        ]
    );
    assert_eq!(catalog.ledger.versions[4].record_count, 1);
    let (version, hash, _) = catalog.ledger.read_catalog_sync_row("default_cards");
    assert_eq!(version.as_deref(), Some("v260105"));
    // the stored hash is that of the rows now under the cycle's version
    let expected = compute_catalog_state_hash(&catalog, "default_cards");
    assert_eq!(hash.as_deref(), Some(expected.as_str()));
    assert_eq!(catalog.ledger.versions[4].state_hash.as_deref(), Some(expected.as_str()));
    let mut hasher = Sha256::new();
    hasher.update(b"default_cards\n");
    // the buylist merge came last and brought its capture time
    hasher.update(b"a|Lightning Bolt|lea|161|face-normal|1.500000|t\n");
    assert_eq!(expected, format!("{:x}", hasher.finalize()));
}

#[test]
fn a_cycle_begins_under_todays_version() {
    let cycle = begin_sync_cycle();
    assert_eq!(cycle.sync_version.len(), 7);
    assert_eq!(cycle.sync_version, format!("v{}", &cycle.started_at[2..10].replace('-', "")));
    assert_eq!(
        cycle.captured_ymd.to_string(),
        cycle.started_at[0..10].replace('-', "")
    );
    assert_eq!(cycle.tcg.sets_scanned, 0);
    assert_eq!(cycle.ck.scanned, 0);
    assert_eq!(cycle.oracle.scanned, 0);
}
