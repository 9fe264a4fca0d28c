use magiccollection::price::{Channel, Reading, Readings};
use magiccollection::query::get_market_price_trends;
use magiccollection::store::{upsert_compact_price_row, PriceStore};
use magiccollection::trend::{
    build_price_trend, build_price_trend_by_column, classify_move, direction_label, Direction,
};

fn observe(store: &mut PriceStore, id: &str, channel: Channel, micros: i64, version: &str, at: &str) {
    upsert_compact_price_row(
        store,
        id,
        Some(1),
        Some(1),
        Readings::single(channel, Reading::Amount(micros)),
        version,
        20260101,
        at,
    );
}

#[test]
fn trend_over_two_observations_goes_up() {
    let mut store = PriceStore::new();
    observe(&mut store, "abc", Channel::TcgMarket, 2_000_000, "v1", "2026-01-01T00:00:00Z");
    observe(&mut store, "abc", Channel::TcgMarket, 2_500_000, "v2", "2026-01-02T00:00:00Z");
    let trend = build_price_trend(&store, "abc");
    assert_eq!(trend.current_price, Some(2_500_000));
    assert_eq!(trend.previous_price, Some(2_000_000));
    assert_eq!(trend.price_delta, Some(500_000));
    assert_eq!(trend.price_direction, Direction::Up);
    assert_eq!(direction_label(trend.price_direction), "up");
    assert_eq!(trend.last_price_at.as_deref(), Some("2026-01-02T00:00:00Z"));
}

#[test]
fn trend_with_one_observation_has_no_direction() {
    let mut store = PriceStore::new();
    observe(&mut store, "abc", Channel::TcgMarket, 2_000_000, "v1", "2026-01-01T00:00:00Z");
    let trend = build_price_trend(&store, "abc");
    assert_eq!(trend.current_price, Some(2_000_000));
    assert_eq!(trend.previous_price, None);
    assert_eq!(trend.price_delta, None);
    assert_eq!(trend.price_direction, Direction::Unknown);
    assert_eq!(direction_label(trend.price_direction), "none");
}

#[test]
fn trend_without_observations_is_empty() {
    let store = PriceStore::new();
    let trend = build_price_trend(&store, "abc");
    assert_eq!(trend.current_price, None);
    assert_eq!(trend.previous_price, None);
    assert_eq!(trend.last_price_at, None);
    assert_eq!(trend.price_direction, Direction::Unknown);
}

#[test]
fn trend_takes_the_two_latest_by_capture_time_across_versions() {
    let mut store = PriceStore::new();
    // key order is not capture order here
    observe(&mut store, "abc", Channel::CkSell, 3_000_000, "v1", "2026-01-03");
    observe(&mut store, "abc", Channel::CkSell, 1_000_000, "v2", "2026-01-01");
    observe(&mut store, "abc", Channel::CkSell, 2_000_000, "v3", "2026-01-02");
    observe(&mut store, "abc", Channel::TcgMarket, 9_000_000, "v4", "2026-01-09");
    observe(&mut store, "other", Channel::CkSell, 7_000_000, "v4", "2026-01-09");
    let trend = build_price_trend_by_column(&store, "abc", Channel::CkSell);
    assert_eq!(trend.current_price, Some(3_000_000));
    assert_eq!(trend.previous_price, Some(2_000_000));
    assert_eq!(trend.price_delta, Some(1_000_000));
    assert_eq!(trend.last_price_at.as_deref(), Some("2026-01-03"));
}

#[test]
fn moves_within_nine_thousandths_are_flat() {
    assert_eq!(classify_move(Some(9_000)), Direction::Flat);
    assert_eq!(classify_move(Some(9_001)), Direction::Up);
    assert_eq!(classify_move(Some(-9_000)), Direction::Flat);
    assert_eq!(classify_move(Some(-9_001)), Direction::Down);
    assert_eq!(classify_move(Some(0)), Direction::Flat);
    assert_eq!(classify_move(None), Direction::Unknown);
    assert_eq!(direction_label(Direction::Down), "down");
    assert_eq!(direction_label(Direction::Flat), "flat");
}

#[test]
fn trend_goes_down() {
    let mut store = PriceStore::new();
    observe(&mut store, "abc", Channel::TcgMarket, 2_000_000, "v1", "t1");
    observe(&mut store, "abc", Channel::TcgMarket, 1_500_000, "v2", "t2");
    let trend = build_price_trend(&store, "abc");
    assert_eq!(trend.price_delta, Some(-500_000));
    assert_eq!(trend.price_direction, Direction::Down);
}

#[test]
fn trends_are_answered_for_a_list_of_printings() {
    let mut store = PriceStore::new();
    observe(&mut store, "abc", Channel::TcgMarket, 2_000_000, "v1", "t1");
    observe(&mut store, "abc", Channel::TcgMarket, 2_005_000, "v2", "t2");
    let trends = get_market_price_trends(&store, &vec![" ABC ".to_string(), "nope".to_string()]);
    assert_eq!(trends.len(), 2);
    assert_eq!(trends[0].scryfall_id, "abc");
    assert_eq!(trends[0].trend.price_direction, Direction::Flat);
    assert_eq!(trends[0].trend.price_delta, Some(5_000));
    assert_eq!(trends[1].scryfall_id, "nope");
    assert_eq!(trends[1].trend.price_direction, Direction::Unknown);
}
