use magiccollection::ck::{normalize_line, CkPricelistItem};
use magiccollection::cycle::begin_sync_cycle;
use magiccollection::oracle::{keep_lower, list_code};
use magiccollection::price::Reading;
use magiccollection::record::{check_record, normalize_record, CatalogRecord, RecordFault};
use magiccollection::snapshot::{normalize_dataset, normalize_strategy};
use magiccollection::tcg::code_upper;
use magiccollection::text::normalize;
use magiccollection::tokens::{push_filter_token, TokenBucket};
use magiccollection::vendor::parse_ck_bool;
use magiccollection::version::{
    current_captured_ymd, current_sync_version, normalize_catalog_dataset, stamp_now,
    sync_version_from_iso,
};

fn record_named(id: &str, micros: i64) -> CatalogRecord {
    CatalogRecord {
        scryfall_id: id.to_string(),
        name: "Card".to_string(),
        set_code: "SET".to_string(),
        collector_number: "1".to_string(),
        image_url: None,
        market_price: Reading::Amount(micros),
        low_price: None,
        mid_price: None,
        high_price: None,
        updated_at: String::new(),
    }
}

#[test]
fn a_blank_text_has_an_empty_normal_form() {
    assert_eq!(normalize(""), "");
    assert_eq!(normalize(" \t\u{3000}\n"), "");
    assert_eq!(normalize("  MiXed Case "), "mixed case");
    assert_eq!(normalize("\u{0130}"), "\u{0130}".to_lowercase());
}

#[test]
fn a_record_is_refused_for_a_blank_identifier_only() {
    for (id, fault) in [
        ("", Some(RecordFault::EmptyId)),
        ("   ", Some(RecordFault::EmptyId)),
        ("\u{2003}\t", Some(RecordFault::EmptyId)),
        (" A ", None),
        ("\u{200b}", None),
    ] {
        let normal = normalize_record(&record_named(id, 1), "now");
        assert_eq!(check_record(&normal), fault, "identifier {:?}", id);
    }
    let priced = normalize_record(&record_named("   ", -1), "now");
    assert_eq!(check_record(&priced), Some(RecordFault::EmptyId));
    let unpriced = normalize_record(&record_named("a", -1), "now");
    assert_eq!(check_record(&unpriced), Some(RecordFault::InvalidPrice));
}

#[test]
fn a_missing_dataset_is_the_default_one() {
    assert_eq!(normalize_catalog_dataset(None), Ok("default_cards".to_string()));
    assert_eq!(normalize_catalog_dataset(Some("")), Ok("default_cards".to_string()));
    assert_eq!(normalize_catalog_dataset(Some(" \n ")), Ok("default_cards".to_string()));
    assert_eq!(normalize_catalog_dataset(Some(" Default_Cards ")), Ok("default_cards".to_string()));
    assert_eq!(
        normalize_catalog_dataset(Some(" Oracle_Cards ")),
        Err("Unsupported dataset 'oracle_cards'. Only 'default_cards' is currently supported.".to_string())
    );
    assert_eq!(normalize_dataset(&None).ok(), Some("default_cards".to_string()));
    assert!(normalize_dataset(&Some("all".to_string())).is_err());
}

#[test]
fn a_missing_strategy_is_the_fallback_as_it_stands() {
    assert_eq!(normalize_strategy(&None, "full"), "full");
    assert_eq!(normalize_strategy(&None, "chain"), "chain");
    assert_eq!(normalize_strategy(&Some("  Compacted ".to_string()), "full"), "compacted");
    assert_eq!(normalize_strategy(&Some("   ".to_string()), "full"), "");
}

#[test]
fn a_blank_optional_text_is_dropped() {
    assert_eq!(keep_lower(&None), None);
    assert_eq!(keep_lower(&Some(" \t".to_string())), None);
    assert_eq!(keep_lower(&Some(" EN ".to_string())), Some("en".to_string()));
}

#[test]
fn a_flag_that_is_missing_says_no() {
    assert!(!parse_ck_bool(None));
    assert!(!parse_ck_bool(Some("")));
    assert!(!parse_ck_bool(Some("no")));
    assert!(parse_ck_bool(Some(" YES ")));
    assert!(parse_ck_bool(Some("1")));
}

#[test]
fn a_line_names_a_printing_unless_its_identifier_is_blank() {
    let item = |id: Option<&str>| CkPricelistItem {
        scryfall_id: id.map(|id| id.to_string()),
        is_foil: None,
        price_buy: Reading::Amount(1),
        price_sell: Reading::Amount(2),
        qty_buying: None,
        url: None,
    };
    let missing = normalize_line(&item(None));
    assert!(!missing.named);
    assert_eq!(missing.printing_id, "");
    assert!(!missing.foil);
    let blank = normalize_line(&item(Some("  ")));
    assert!(!blank.named);
    assert_eq!(blank.printing_id, "");
    let given = normalize_line(&item(Some(" AbC ")));
    assert!(given.named);
    assert_eq!(given.printing_id, "abc");
}

#[test]
fn a_token_of_which_nothing_is_typed_is_not_filed() {
    let mut bucket = TokenBucket::new();
    push_filter_token(&mut bucket, "", "label", "kind", "source", 1);
    push_filter_token(&mut bucket, " \u{00a0} ", "label", "kind", "source", 2);
    push_filter_token(&mut bucket, "typed", "\t", "kind", "source", 3);
    assert_eq!(bucket.len(), 0);
    push_filter_token(&mut bucket, " Typed ", " Label ", "", "", 4);
    assert_eq!(bucket.len(), 1);
    assert_eq!(bucket.token(0).token, "typed");
    assert_eq!(bucket.token(0).label, "Label");
}

fn is_dated(version: &str) -> bool {
    let bytes = version.as_bytes();
    bytes.len() == 7 && bytes[0] == b'v' && bytes[1..].iter().all(|byte| byte.is_ascii_digit())
}

#[test]
fn the_clock_gives_a_dated_version_and_a_day_above_zero() {
    assert!(is_dated(&current_sync_version()));
    assert!(is_dated(&sync_version_from_iso("")));
    assert!(is_dated(&sync_version_from_iso("no date")));
    assert_eq!(sync_version_from_iso("1999-12-31"), "v991231");
    let day = current_captured_ymd();
    assert!(day >= 19_700_101);
    assert_eq!(day.to_string().len(), 8);
}

#[test]
fn a_stamp_of_the_clock_is_dated_by_its_time() {
    let stamp = stamp_now();
    let at = stamp.at.as_bytes();
    assert!(at.len() > 10);
    assert!(at[0..4].iter().all(|byte| byte.is_ascii_digit()));
    assert_eq!(at[4], b'-');
    assert_eq!(at[7], b'-');
    assert_eq!(at[10], b'T');
    assert!(is_dated(&stamp.sync_version));
    assert!(stamp.captured_ymd > 0);
    assert_eq!(stamp.sync_version[1..], stamp.captured_ymd.to_string()[2..]);
}

#[test]
fn a_cycle_begins_with_a_stamp_of_the_clock() {
    let cycle = begin_sync_cycle();
    assert!(is_dated(&cycle.sync_version));
    assert!(cycle.captured_ymd > 0);
    assert_eq!(cycle.sync_version, sync_version_from_iso(&cycle.started_at));
    assert_eq!(cycle.captured_ymd.to_string(), cycle.started_at[0..10].replace('-', ""));
    assert_eq!(cycle.tcg.sets_scanned, 0);
    assert_eq!(cycle.ck.scanned, 0);
    assert_eq!(cycle.oracle.scanned, 0);
}

#[test]
fn a_missing_code_is_its_fallback() {
    assert_eq!(code_upper(&None, "N"), "N");
    assert_eq!(code_upper(&None, ""), "");
    assert_eq!(code_upper(&Some(" nm ".to_string()), ""), "NM");
    assert_eq!(code_upper(&Some("  ".to_string()), "N"), "");
    assert_eq!(list_code(&None), "unknown");
    assert_eq!(list_code(&Some(" LEA ".to_string())), "lea");
    assert_eq!(list_code(&Some("  ".to_string())), "");
}
