use magiccollection::price::{clean_count, clean_price, coalesce, Channel, Channels, Reading, Readings};
use magiccollection::store::{upsert_compact_price_row, PriceStore};
use magiccollection::vendor::{
    channel_of_key, classify, column_name, maybe_insert_market_snapshot, parse_ck_bool,
    price_column_from_source_key, record_single_price,
};

fn only(channel: Channel, micros: i64) -> Readings {
    Readings::single(channel, Reading::Amount(micros))
}

fn observe(store: &mut PriceStore, id: &str, readings: Readings, version: &str, at: &str) {
    upsert_compact_price_row(store, id, Some(1), Some(1), readings, version, 20260101, at);
}

#[test]
fn two_observations_of_one_key_coalesce() {
    let mut store = PriceStore::new();
    observe(&mut store, "abc", only(Channel::TcgLow, 800_000), "v1", "t1");
    observe(&mut store, "abc", only(Channel::TcgMarket, 1_000_000), "v1", "t2");
    assert_eq!(store.len(), 1);
    let row = store.row(0);
    assert_eq!(row.channels.tcg_low, Some(800_000));
    assert_eq!(row.channels.tcg_market, Some(1_000_000));
    assert_eq!(row.channels.tcg_high, None);
    assert_eq!(row.captured_at, "t2");
}

#[test]
fn coalescing_does_not_depend_on_the_order_of_the_calls() {
    let mut one = PriceStore::new();
    observe(&mut one, "abc", only(Channel::CkSell, 500_000), "v1", "t");
    observe(&mut one, "abc", only(Channel::CkBuylist, 300_000), "v1", "t");
    let mut two = PriceStore::new();
    observe(&mut two, "abc", only(Channel::CkBuylist, 300_000), "v1", "t");
    observe(&mut two, "abc", only(Channel::CkSell, 500_000), "v1", "t");
    for store in [&one, &two] {
        assert_eq!(store.len(), 1);
        assert_eq!(store.row(0).channels.ck_sell, Some(500_000));
        assert_eq!(store.row(0).channels.ck_buylist, Some(300_000));
    }
}

#[test]
fn a_newer_value_replaces_the_older_in_its_own_channel_only() {
    let mut store = PriceStore::new();
    let mut all = Readings::none();
    all.tcg_low = Some(Reading::Amount(1));
    all.tcg_market = Some(Reading::Amount(2));
    all.ck_buylist_quantity_cap = Some(7);
    upsert_compact_price_row(&mut store, "abc", Some(1), Some(1), all, "v1", 20260101, "t1");
    observe(&mut store, "abc", only(Channel::TcgMarket, 3), "v1", "t2");
    let row = store.row(0);
    assert_eq!(row.channels.tcg_low, Some(1));
    assert_eq!(row.channels.tcg_market, Some(3));
    assert_eq!(row.channels.ck_buylist_quantity_cap, Some(7));
}

#[test]
fn an_observation_without_usable_values_changes_nothing() {
    let mut store = PriceStore::new();
    observe(&mut store, "abc", Readings::none(), "v1", "t1");
    assert_eq!(store.len(), 0);
    let mut bad = Readings::none();
    bad.tcg_low = Some(Reading::Amount(-1));
    bad.tcg_market = Some(Reading::NotFinite);
    bad.ck_buylist_quantity_cap = Some(-5);
    observe(&mut store, "abc", bad, "v1", "t1");
    assert_eq!(store.len(), 0);

    observe(&mut store, "abc", only(Channel::TcgHigh, 9), "v1", "t1");
    observe(&mut store, "abc", bad, "v1", "t2");
    assert_eq!(store.len(), 1);
    assert_eq!(store.row(0).channels.tcg_high, Some(9));
    assert_eq!(store.row(0).captured_at, "t1");
}

#[test]
fn freshness_fields_are_overwritten_by_the_latest_call() {
    let mut store = PriceStore::new();
    upsert_compact_price_row(&mut store, "abc", None, None, only(Channel::TcgLow, 1), "v1", 20260101, "t1");
    upsert_compact_price_row(&mut store, "abc", Some(0), Some(0), only(Channel::TcgHigh, 2), "v1", 20260102, "t2");
    assert_eq!(store.len(), 1);
    let row = store.row(0);
    assert_eq!(row.captured_ymd, 20260102);
    assert_eq!(row.captured_at, "t2");
    assert_eq!(row.condition_id, None);
    assert_eq!(row.channels.tcg_low, Some(1));
    assert_eq!(row.channels.tcg_high, Some(2));
}

#[test]
fn rows_are_kept_in_key_order() {
    let mut store = PriceStore::new();
    observe(&mut store, "b", only(Channel::TcgLow, 1), "v2", "t");
    observe(&mut store, "a", only(Channel::TcgLow, 1), "v2", "t");
    observe(&mut store, "z", only(Channel::TcgLow, 1), "v1", "t");
    upsert_compact_price_row(&mut store, "a", Some(1), Some(2), only(Channel::TcgLow, 1), "v2", 1, "t");
    upsert_compact_price_row(&mut store, "ab", Some(1), Some(1), only(Channel::TcgLow, 1), "v2", 1, "t");
    let keys: Vec<(String, String, Option<i64>)> = (0..store.len())
        .map(|i| {
            let row = store.row(i);
            (row.sync_version.clone(), row.printing_id.clone(), row.finish_id)
        })
        .collect();
    assert_eq!(
        keys,
        vec![
            ("v1".to_string(), "z".to_string(), Some(1)),
            ("v2".to_string(), "a".to_string(), Some(1)),
            ("v2".to_string(), "a".to_string(), Some(2)),
            ("v2".to_string(), "ab".to_string(), Some(1)),
            ("v2".to_string(), "b".to_string(), Some(1)),
        ]
    );
    assert_eq!(store.locate("v2", "a", Some(1), Some(2)), (2, true));
    assert_eq!(store.locate("v2", "aa", Some(1), Some(1)), (3, false));
}

#[test]
fn versions_and_printings_can_be_removed_and_carried_forward() {
    let mut store = PriceStore::new();
    observe(&mut store, "a", only(Channel::TcgMarket, 1), "v1", "t1");
    observe(&mut store, "b", only(Channel::TcgMarket, 2), "v1", "t1");
    observe(&mut store, "a", only(Channel::TcgMarket, 3), "v2", "t2");
    store.carry_forward("v1", "v3", 20260103, "t3");
    assert_eq!(store.len(), 5);
    assert_eq!(store.locate("v3", "b", Some(1), Some(1)), (4, true));
    assert_eq!(store.row(4).channels.tcg_market, Some(2));
    assert_eq!(store.row(4).captured_at, "t3");
    assert_eq!(store.row(4).captured_ymd, 20260103);
    store.remove_printing("v3", "a");
    assert_eq!(store.len(), 4);
    store.remove_version("v1");
    assert_eq!(store.len(), 2);
    assert_eq!(store.row(0).sync_version, "v2");
    assert_eq!(store.row(1).sync_version, "v3");
    let copy = store.duplicate();
    assert_eq!(copy.len(), 2);
    let picked = store.select("v2", None, true);
    assert_eq!(picked.len(), 1);
    assert_eq!(picked[0].printing_id, "a");
}

#[test]
fn readings_are_cleaned() {
    assert_eq!(clean_price(None), None);
    assert_eq!(clean_price(Some(Reading::Amount(0))), Some(0));
    assert_eq!(clean_price(Some(Reading::Amount(1_250_000))), Some(1_250_000));
    assert_eq!(clean_price(Some(Reading::Amount(-1))), None);
    assert_eq!(clean_price(Some(Reading::NotFinite)), None);
    assert_eq!(clean_count(Some(3)), Some(3));
    assert_eq!(clean_count(Some(-3)), None);
    assert_eq!(clean_count(None), None);
    assert_eq!(coalesce(Some(1), Some(2)), Some(1));
    assert_eq!(coalesce(None, Some(2)), Some(2));
    assert_eq!(coalesce(None, None), None);
}

#[test]
fn channels_merge_slot_by_slot() {
    let older = Channels {
        tcg_low: Some(1),
        tcg_market: None,
        tcg_high: Some(3),
        ck_sell: None,
        ck_buylist: Some(5),
        ck_buylist_quantity_cap: None,
    };
    let newer = Channels {
        tcg_low: None,
        tcg_market: Some(20),
        tcg_high: Some(30),
        ck_sell: None,
        ck_buylist: None,
        ck_buylist_quantity_cap: Some(60),
    };
    let merged = older.merge(&newer);
    assert_eq!(merged.tcg_low, Some(1));
    assert_eq!(merged.tcg_market, Some(20));
    assert_eq!(merged.tcg_high, Some(30));
    assert_eq!(merged.ck_sell, None);
    assert_eq!(merged.ck_buylist, Some(5));
    assert_eq!(merged.ck_buylist_quantity_cap, Some(60));
    assert!(!merged.has_nothing());
    assert_eq!(merged.price(Channel::TcgHigh), Some(30));
    assert!(Readings::none().clean().has_nothing());
}

#[test]
fn source_keys_name_channels() {
    assert_eq!(price_column_from_source_key("tcg-low"), Channel::TcgLow);
    assert_eq!(price_column_from_source_key(" TCG-Mid "), Channel::TcgMarket);
    assert_eq!(price_column_from_source_key("Tcg-High"), Channel::TcgHigh);
    assert_eq!(price_column_from_source_key("ck-sell"), Channel::CkSell);
    assert_eq!(price_column_from_source_key("CK-BUYLIST\n"), Channel::CkBuylist);
    assert_eq!(price_column_from_source_key("anything"), Channel::TcgMarket);
    assert_eq!(price_column_from_source_key(""), Channel::TcgMarket);
    assert_eq!(channel_of_key("TCG-LOW"), Channel::TcgMarket);
    assert_eq!(column_name(Channel::TcgLow), "tcg_low");
    assert_eq!(column_name(Channel::TcgMarket), "tcg_market");
    assert_eq!(column_name(Channel::TcgHigh), "tcg_high");
    assert_eq!(column_name(Channel::CkSell), "ck_sell");
    assert_eq!(column_name(Channel::CkBuylist), "ck_buylist");
}

#[test]
fn vendor_flags_are_read() {
    assert!(parse_ck_bool(Some("true")));
    assert!(parse_ck_bool(Some(" TRUE ")));
    assert!(parse_ck_bool(Some("1")));
    assert!(parse_ck_bool(Some("Yes")));
    assert!(parse_ck_bool(Some("y")));
    assert!(!parse_ck_bool(Some("false")));
    assert!(!parse_ck_bool(Some("0")));
    assert!(!parse_ck_bool(Some("")));
    assert!(!parse_ck_bool(Some("yes!")));
    assert!(!parse_ck_bool(None));
}

#[test]
fn vendors_and_hints_name_channels() {
    assert_eq!(classify("tcgplayer", "low"), Channel::TcgLow);
    assert_eq!(classify("tcgplayer", "mid"), Channel::TcgMarket);
    assert_eq!(classify("tcgplayer", "high"), Channel::TcgHigh);
    assert_eq!(classify("tcgplayer", "market"), Channel::TcgMarket);
    assert_eq!(classify("ck", "buy"), Channel::CkBuylist);
    assert_eq!(classify("card kingdom", "buylist"), Channel::CkBuylist);
    assert_eq!(classify("cardkingdom", "sell"), Channel::CkSell);
    assert_eq!(classify("ck", "sell"), Channel::CkSell);
    assert_eq!(classify("ck", "whatever"), Channel::TcgMarket);
    assert_eq!(classify("card kingdom", ""), Channel::TcgMarket);
    assert_eq!(classify("ck", "low"), Channel::TcgMarket);
    assert_eq!(classify("scryfall", "low"), Channel::TcgMarket);
}

#[test]
fn a_vendor_observation_fills_one_channel_of_todays_version() {
    let mut store = PriceStore::new();
    maybe_insert_market_snapshot(&mut store, "abc", Reading::Amount(2_000_000), " TCGPlayer ", " LOW ");
    maybe_insert_market_snapshot(&mut store, "abc", Reading::Amount(1_000_000), "Card Kingdom", "Buy");
    maybe_insert_market_snapshot(&mut store, "abc", Reading::Amount(-1), "tcgplayer", "high");
    maybe_insert_market_snapshot(&mut store, "abc", Reading::NotFinite, "tcgplayer", "mid");
    assert_eq!(store.len(), 1);
    let row = store.row(0);
    assert_eq!(row.channels.tcg_low, Some(2_000_000));
    assert_eq!(row.channels.ck_buylist, Some(1_000_000));
    assert_eq!(row.channels.tcg_high, None);
    assert_eq!(row.channels.tcg_market, None);
    assert_eq!(row.condition_id, Some(1));
    assert_eq!(row.finish_id, Some(1));
    assert_eq!(row.sync_version.len(), 7);
    assert!(row.sync_version.starts_with('v'));
    assert!(row.captured_ymd > 20200000);
    assert_eq!(format!("v{}", row.captured_ymd % 1_000_000), row.sync_version);
}

#[test]
fn an_unknown_hint_of_the_buylist_vendor_means_the_market_price() {
    let mut store = PriceStore::new();
    maybe_insert_market_snapshot(&mut store, "abc", Reading::Amount(2_000_000), "ck", "foo");
    assert_eq!(store.len(), 1);
    assert_eq!(store.row(0).channels.tcg_market, Some(2_000_000));
    assert_eq!(store.row(0).channels.ck_sell, None);
    maybe_insert_market_snapshot(&mut store, "abc", Reading::Amount(3_000_000), " CK ", " Sell ");
    assert_eq!(store.row(0).channels.ck_sell, Some(3_000_000));
    assert_eq!(store.row(0).channels.tcg_market, Some(2_000_000));
}

#[test]
fn a_single_price_is_recorded_in_its_channel() {
    let mut store = PriceStore::new();
    record_single_price(&mut store, "abc", Channel::CkSell, Reading::Amount(5), "v1", 20260101, "t");
    assert_eq!(store.row(0).channels.ck_sell, Some(5));
    assert_eq!(store.row(0).channels.tcg_market, None);
}
