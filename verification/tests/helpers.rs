use magiccollection::catalog::Catalog;
use magiccollection::digits::{ascii_string, parse_i64, push_decimal, push_padded, push_price, to_hex_lower};
use magiccollection::error::render_reading;
use magiccollection::price::Reading;
use magiccollection::query::get_catalog_price_records;
use magiccollection::rank::{rank_bytes, rank_i64, rank_text, Rank};
use magiccollection::printing::inferred_set_name;
use magiccollection::record::{
    check_record, find_fault, normalize_record, normalize_records, CatalogRecord, RecordFault,
};
use magiccollection::snapshot::{apply_catalog_snapshot, SnapshotInput};
use magiccollection::text::{
    any_names, before_first, first_word, is_blank, normalize, same_ignoring_ascii_case,
    same_optional_text, same_text,
};
use magiccollection::tokens::normalize_color_symbols;
use magiccollection::version::{
    current_captured_ymd, current_sync_version, day_from_digits, stamp_now, stamp_of,
};

#[test]
fn integers_parse_as_they_do_from_text() {
    for text in [
        "0", "7", "-7", "+7", "007", "20260203", "9223372036854775807", "9223372036854775808",
        "-9223372036854775808", "-9223372036854775809", "", "+", "-", "1x", " 1", "1 ", "--1",
        "99999999999999999999999", "-0", "+0", "１２",
    ] {
        assert_eq!(parse_i64(text.as_bytes()), text.parse::<i64>().ok(), "parsing {:?}", text);
    }
}

#[test]
fn numbers_are_written_in_decimal() {
    for n in [0u64, 5, 10, 99, 100, 1234567890, u64::MAX] {
        let mut out = vec![b'>'];
        push_decimal(&mut out, n);
        assert_eq!(String::from_utf8(out).unwrap(), format!(">{}", n));
    }
    let mut out = Vec::new();
    push_padded(&mut out, 42, 6);
    assert_eq!(out, b"000042");
    let mut out = Vec::new();
    push_padded(&mut out, 1234567, 3);
    assert_eq!(out, b"567");
}

#[test]
fn prices_are_written_with_six_decimals() {
    for (micros, text) in [
        (0u64, "0.000000"),
        (1, "0.000001"),
        (1_000_000, "1.000000"),
        (1_500_000, "1.500000"),
        (12_345_678_900, "12345.678900"),
    ] {
        let mut out = Vec::new();
        push_price(&mut out, micros);
        assert_eq!(String::from_utf8(out).unwrap(), text);
    }
    assert_eq!(render_reading(Reading::Amount(2_250_000)), "2.250000");
    assert_eq!(render_reading(Reading::Amount(-2_250_000)), "-2.250000");
    assert_eq!(render_reading(Reading::Amount(i64::MIN)), "-9223372036854.775808");
    assert_eq!(render_reading(Reading::NotFinite), "NaN");
}

#[test]
fn bytes_are_written_in_lower_case_hexadecimal() {
    assert_eq!(to_hex_lower(&[]), "");
    assert_eq!(to_hex_lower(&[0x00, 0x0f, 0xa0, 0xff, 0x9b]), "000fa0ff9b");
    assert_eq!(ascii_string(b"abc".to_vec()), "abc");
}

#[test]
fn texts_rank_by_their_bytes() {
    assert_eq!(rank_text("a", "b"), Rank::Before);
    assert_eq!(rank_text("b", "a"), Rank::After);
    assert_eq!(rank_text("a", "a"), Rank::Same);
    assert_eq!(rank_text("", ""), Rank::Same);
    assert_eq!(rank_text("", "a"), Rank::Before);
    assert_eq!(rank_text("ab", "a"), Rank::After);
    assert_eq!(rank_text("Z", "a"), Rank::Before);
    assert_eq!(rank_text("é", "z"), Rank::After);
    assert_eq!(rank_bytes(&[1, 2], &[1, 3]), Rank::Before);
    assert_eq!(rank_i64(-1, 1), Rank::Before);
    assert_eq!(rank_i64(1, 1), Rank::Same);
    assert_eq!(rank_i64(2, 1), Rank::After);
    for (a, b) in [("abc", "abd"), ("x", "xy"), ("ß", "s"), ("", "")] {
        let expected = match a.cmp(b) {
            std::cmp::Ordering::Less => Rank::Before,
            std::cmp::Ordering::Equal => Rank::Same,
            std::cmp::Ordering::Greater => Rank::After,
        };
        assert_eq!(rank_text(a, b), expected);
    }
}

#[test]
fn texts_are_compared_and_normalised() {
    assert!(same_text("abc", "abc"));
    assert!(!same_text("abc", "abd"));
    assert!(!same_text("abc", "ab"));
    assert!(same_optional_text(&None, &None));
    assert!(same_optional_text(&Some("a".to_string()), &Some("a".to_string())));
    assert!(!same_optional_text(&Some("a".to_string()), &None));
    assert_eq!(normalize("  MiXeD Ünïcode \t\n"), "mixed ünïcode");
    assert_eq!(normalize("\u{2003}x\u{00a0}"), "x");
    assert!(same_ignoring_ascii_case("FoIl", "foil"));
    assert!(!same_ignoring_ascii_case("foil", "foils"));
    assert!(!same_ignoring_ascii_case("É", "é"));
    assert!(same_ignoring_ascii_case("", ""));
    assert!(!same_ignoring_ascii_case("[", "{"));
    assert!(any_names(&vec!["a".to_string(), "W".to_string()], "w"));
    assert!(!any_names(&vec![], "w"));
}

#[test]
fn colours_become_a_code() {
    let list = |items: &[&str]| items.iter().map(|s| s.to_string()).collect::<Vec<String>>();
    assert_eq!(normalize_color_symbols(&list(&[])), Some("c".to_string()));
    assert_eq!(normalize_color_symbols(&list(&["G", "w"])), Some("wg".to_string()));
    assert_eq!(normalize_color_symbols(&list(&["R", "B", "U", "W", "G"])), Some("wubrg".to_string()));
    assert_eq!(normalize_color_symbols(&list(&["X", "blue"])), Some("c".to_string()));
    assert_eq!(normalize_color_symbols(&list(&["u", "U"])), Some("u".to_string()));
}

#[test]
fn the_version_and_the_day_of_today_agree() {
    let version = current_sync_version();
    assert_eq!(version.len(), 7);
    assert!(version.starts_with('v'));
    assert!(version[1..].chars().all(|ch| ch.is_ascii_digit()));
    let day = current_captured_ymd();
    assert!(day > 20_200_000);
    assert_eq!(format!("v{:06}", day % 1_000_000), version);
}

fn record(id: &str, micros: i64, at: &str) -> CatalogRecord {
    CatalogRecord {
        scryfall_id: id.to_string(),
        name: format!("Card {}", id),
        set_code: "NEO".to_string(),
        collector_number: "7".to_string(),
        image_url: Some(format!("img-{}", id)),
        market_price: Reading::Amount(micros),
        low_price: None,
        mid_price: None,
        high_price: None,
        updated_at: at.to_string(),
    }
}

#[test]
fn records_of_the_current_version_are_answered() {
    let mut catalog = Catalog::new();
    assert_eq!(
        get_catalog_price_records(&catalog, &None, &vec!["a".to_string()]).unwrap().len(),
        0
    );
    for (version, price) in [("v1", 1_000_000), ("v2", 2_000_000)] {
        apply_catalog_snapshot(
            &mut catalog,
            &SnapshotInput {
                dataset: None,
                version: version.to_string(),
                records: vec![record("a", price, "2026-01-01"), record("b", price + 1, "")],
                snapshot_hash: None,
                strategy: Some(" Full ".to_string()),
            },
        )
        .unwrap();
    }
    let found = get_catalog_price_records(
        &catalog,
        &Some("Default_Cards".to_string()),
        &vec![" A ".to_string(), "nope".to_string(), "b".to_string()],
    )
    .unwrap();
    assert_eq!(found.len(), 2);
    assert_eq!(found[0].scryfall_id, "a");
    assert_eq!(found[0].name, "Card a");
    assert_eq!(found[0].set_code, "neo");
    assert_eq!(found[0].collector_number, "7");
    assert_eq!(found[0].image_url.as_deref(), Some("img-a"));
    assert_eq!(found[0].market_price, 2_000_000);
    assert_eq!(found[0].updated_at, "2026-01-01");
    assert_eq!(found[1].scryfall_id, "b");
    assert_eq!(found[1].market_price, 2_000_001);
    assert!(found[1].updated_at.len() >= 20);
    assert!(get_catalog_price_records(&catalog, &Some("x".to_string()), &vec![]).is_err());
    assert_eq!(catalog.ledger.audits[0].strategy, "full");
    assert_eq!(catalog.ledger.audits[0].patch_id.len(), 36);
    assert_ne!(catalog.ledger.audits[0].patch_id, catalog.ledger.audits[0].history_id);
    assert_eq!(catalog.ledger.audits[1].from_version.as_deref(), Some("v1"));
    assert_eq!(catalog.ledger.audits[1].total_records, 2);
}

#[test]
fn set_names_are_inferred_from_codes() {
    assert_eq!(inferred_set_name(""), "UNKNOWN");
    assert_eq!(inferred_set_name("neo"), "NEO");
    assert_eq!(inferred_set_name("m21"), "M21");
}

#[test]
fn a_day_is_read_from_digits() {
    assert_eq!(day_from_digits("20260203"), 20260203);
    assert_eq!(day_from_digits("2026-02-03"), 0);
    assert_eq!(day_from_digits(""), 0);
}

#[test]
fn records_are_normalised_and_checked() {
    let mut raw = record(" AbC ", 5, "  ");
    raw.name = "  Name ".to_string();
    raw.set_code = " NeO ".to_string();
    raw.collector_number = " 7a ".to_string();
    let normal = normalize_record(&raw, "now");
    assert_eq!(normal.id, "abc");
    assert_eq!(normal.given_id, " AbC ");
    assert_eq!(normal.name, "Name");
    assert_eq!(normal.set_code, "neo");
    assert_eq!(normal.collector_number, "7a");
    assert_eq!(normal.updated_at, "now");
    assert_eq!(check_record(&normal), None);
    let timed = normalize_record(&record("x", 5, " 2026-01-01 "), "now");
    assert_eq!(timed.updated_at, "2026-01-01");

    let batch = normalize_records(
        &vec![record("a", 1, "t"), record("b", -1, "t"), record(" ", 1, "t"), record("", -1, "t")],
        "now",
    );
    assert_eq!(batch.len(), 4);
    assert_eq!(find_fault(&batch), Some((1, RecordFault::InvalidPrice)));
    assert_eq!(check_record(&batch[2]), Some(RecordFault::EmptyId));
    assert_eq!(check_record(&batch[3]), Some(RecordFault::EmptyId));
    assert_eq!(find_fault(&normalize_records(&vec![record("a", 0, "t")], "now")), None);
}

#[test]
fn the_audit_log_names_what_was_applied() {
    let mut catalog = Catalog::new();
    let out = apply_catalog_snapshot(
        &mut catalog,
        &SnapshotInput {
            dataset: Some(" DEFAULT_CARDS ".to_string()),
            version: " v7 ".to_string(),
            records: vec![record("a", 1, "t"), record("a", 2, "t")],
            snapshot_hash: Some(" ".to_string()),
            strategy: None,
        },
    )
    .unwrap();
    assert_eq!(out.dataset, "default_cards");
    assert_eq!(out.to_version, "v7");
    assert_eq!(out.added_count, 2);
    assert_eq!(out.total_records, 1);
    assert_eq!(out.patch_hash.as_deref(), Some(" "));
    let audit = &catalog.ledger.audits[0];
    assert_eq!(audit.dataset, "default_cards");
    assert_eq!(audit.from_version, None);
    assert_eq!(audit.to_version, "v7");
    assert_eq!(audit.strategy, "full");
    assert_eq!(audit.patch_hash.as_deref(), Some(" "));
    assert_eq!(audit.added_count, 2);
    assert_eq!(audit.updated_count, 0);
    assert_eq!(audit.removed_count, 0);
    assert_eq!(audit.total_records, 1);
    assert_eq!(audit.applied_at, catalog.ledger.states[0].synced_at);
    let version = &catalog.ledger.versions[0];
    assert_eq!(version.id, "default_cards:v7");
    assert_eq!(version.source_id, "scryfall_default_cards");
    assert_eq!(version.record_count, 1);
    assert_eq!(version.state_hash.as_deref(), Some(out.state_hash.as_str()));
    assert_eq!(catalog.prices.row(0).channels.tcg_market, Some(2));
    assert_eq!(catalog.printings.len(), 1);
}

#[test]
fn printings_are_kept_in_the_order_of_their_identifiers() {
    let mut catalog = Catalog::new();
    apply_catalog_snapshot(
        &mut catalog,
        &SnapshotInput {
            dataset: None,
            version: "v1".to_string(),
            records: vec![record("m", 1, "t"), record("b", 1, "t"), record("z", 1, "t"), record("a", 1, "t"), record("B", 2, "t2")],
            snapshot_hash: None,
            strategy: None,
        },
    )
    .unwrap();
    let ids: Vec<String> = (0..catalog.printings.len()).map(|at| catalog.printings.get(at).id.clone()).collect();
    assert_eq!(ids, vec!["a", "b", "m", "z"]);
    assert_eq!(catalog.printings.find("m"), Some(2));
    assert_eq!(catalog.printings.find("c"), None);
    assert_eq!(catalog.printings.locate("c"), (2, false));
    assert_eq!(catalog.printings.locate("zz"), (4, false));
    assert_eq!(catalog.printings.get(1).updated_at, "t2");
    let copy = catalog.printings.duplicate();
    assert_eq!(copy.len(), 4);
    let mut renamed = copy.get(0).duplicate();
    renamed.name = "Renamed".to_string();
    let mut table = copy;
    table.place(renamed);
    assert_eq!(table.len(), 4);
    assert_eq!(table.get(0).name, "Renamed");
}

#[test]
fn white_space_is_what_the_standard_library_takes_for_it() {
    for code in 0u32..=0x10FFFF {
        if let Some(c) = char::from_u32(code) {
            assert_eq!(is_blank(c), c.is_whitespace(), "U+{:04X}", code);
        }
    }
}

#[test]
fn words_and_trimmed_texts_follow_the_white_space() {
    assert_eq!(first_word("  two\u{2003}words "), Some("two"));
    assert_eq!(first_word("one"), Some("one"));
    assert_eq!(first_word("\u{00a0}\t\n"), None);
    assert_eq!(first_word(""), None);
    assert_eq!(first_word("a\u{200b}b c"), Some("a\u{200b}b"));
    assert_eq!(before_first("left \u{2014} right", '\u{2014}'), "left ");
    assert_eq!(before_first("no dash", '\u{2014}'), "no dash");
    assert_eq!(normalize("\u{3000}V1\u{0085}"), "v1");
    assert_eq!(normalize("\u{200b}x"), "\u{200b}x");
}

#[test]
fn a_time_gives_its_version_and_its_day() {
    let stamp = stamp_of("2026-02-03T10:11:12+00:00".to_string());
    assert_eq!(stamp.at, "2026-02-03T10:11:12+00:00");
    assert_eq!(stamp.sync_version, "v260203");
    assert_eq!(stamp.captured_ymd, 20260203);
    let fallback = stamp_of("soon".to_string());
    assert_eq!(fallback.at, "soon");
    assert_eq!(fallback.sync_version, current_sync_version());
    assert_eq!(fallback.captured_ymd, current_captured_ymd());
    let now = stamp_now();
    assert_eq!(now.sync_version, format!("v{}", &now.at[2..10].replace('-', "")));
    assert_eq!(now.captured_ymd.to_string(), now.at[0..10].replace('-', ""));
}
