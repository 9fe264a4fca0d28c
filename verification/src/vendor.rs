use crate::price::{cleaned, Channel, Channels, Reading, Readings};
use crate::store::{observed, upsert_compact_price_row, PriceFact, PriceStore};
use crate::text::{normalize, normalized, same_text};
use crate::version::{clock_stamped, stamp_now};
use crate::{CONDITION_NM_ID, FINISH_NONFOIL_ID};
use vstd::prelude::*;
use vstd::string::*;

verus! {

/// The channel that a source key in normal form names. A key that is not
/// known names the market price.
pub open spec fn keyed_channel(key: Seq<char>) -> Channel {
    if key == "tcg-low"@ {
        Channel::TcgLow
    } else if key == "tcg-high"@ {
        Channel::TcgHigh
    } else if key == "ck-sell"@ {
        Channel::CkSell
    } else if key == "ck-buylist"@ {
        Channel::CkBuylist
    } else {
        Channel::TcgMarket
    }
}

/// Picks the channel that a source key in normal form names.
pub fn channel_of_key(key: &str) -> (channel: Channel)
    ensures
        channel == keyed_channel(key@),
{
    if same_text(key, "tcg-low") {
        Channel::TcgLow
    } else if same_text(key, "tcg-high") {
        Channel::TcgHigh
    } else if same_text(key, "ck-sell") {
        Channel::CkSell
    } else if same_text(key, "ck-buylist") {
        Channel::CkBuylist
    } else {
        Channel::TcgMarket
    }
}

/// Picks the channel that a source key names: `tcg-low`, `tcg-mid`,
/// `tcg-high`, `ck-sell` or `ck-buylist`, in any case and with blanks
/// around it. Any other key names the market price, as `tcg-mid` does.
pub fn price_column_from_source_key(source_id: &str) -> (channel: Channel)
    ensures
        channel == keyed_channel(normalized(source_id@)),
{
    let key = normalize(source_id);
    channel_of_key(key.as_str())
}

/// The name of the column that holds a channel.
pub fn column_name(channel: Channel) -> (name: &'static str)
    ensures
        name@ == match channel {
            Channel::TcgLow => "tcg_low"@,
            Channel::TcgMarket => "tcg_market"@,
            Channel::TcgHigh => "tcg_high"@,
            Channel::CkSell => "ck_sell"@,
            Channel::CkBuylist => "ck_buylist"@,
        },
{
    match channel {
        Channel::TcgLow => "tcg_low",
        Channel::TcgMarket => "tcg_market",
        Channel::TcgHigh => "tcg_high",
        Channel::CkSell => "ck_sell",
        Channel::CkBuylist => "ck_buylist",
    }
}

/// Whether a word in normal form says yes.
pub open spec fn says_yes(word: Seq<char>) -> bool {
    word == "true"@ || word == "1"@ || word == "yes"@ || word == "y"@
}

/// Tells whether a word in normal form says yes.
pub fn is_yes(word: &str) -> (yes: bool)
    ensures
        yes == says_yes(word@),
{
    same_text(word, "true") || same_text(word, "1") || same_text(word, "yes") || same_text(
        word,
        "y",
    )
}

/// Reads a vendor's flag: `true`, `1`, `yes` and `y` say yes, in any case
/// and with blanks around them; anything else, or nothing, says no.
pub fn parse_ck_bool(value: Option<&str>) -> (yes: bool)
    ensures
        yes == (value is Some && says_yes(normalized(value->0@))),
{
    match value {
        Some(word) => is_yes(normalize(word).as_str()),
        None => false,
    }
}

/// The channel that a vendor and its hint name, both in normal form. The
/// market aggregator's `low`, `mid` and `high` name its three prices; the
/// buylist vendor's `buy` and `buylist` name its buy price and `sell` its
/// sell price; where the vendor or the hint is not known, the market price
/// is meant.
pub open spec fn classified(vendor: Seq<char>, hint: Seq<char>) -> Channel {
    if vendor == "tcgplayer"@ {
        if hint == "low"@ {
            Channel::TcgLow
        } else if hint == "high"@ {
            Channel::TcgHigh
        } else {
            Channel::TcgMarket
        }
    } else if vendor == "ck"@ || vendor == "card kingdom"@ || vendor == "cardkingdom"@ {
        if hint == "buy"@ || hint == "buylist"@ {
            Channel::CkBuylist
        } else if hint == "sell"@ {
            Channel::CkSell
        } else {
            Channel::TcgMarket
        }
    } else {
        Channel::TcgMarket
    }
}

/// Picks the channel that a vendor and its hint name, both in normal form.
pub fn classify(vendor: &str, hint: &str) -> (channel: Channel)
    ensures
        channel == classified(vendor@, hint@),
{
    if same_text(vendor, "tcgplayer") {
        if same_text(hint, "low") {
            Channel::TcgLow
        } else if same_text(hint, "high") {
            Channel::TcgHigh
        } else {
            Channel::TcgMarket
        }
    } else if same_text(vendor, "ck") || same_text(vendor, "card kingdom") || same_text(
        vendor,
        "cardkingdom",
    ) {
        if same_text(hint, "buy") || same_text(hint, "buylist") {
            Channel::CkBuylist
        } else if same_text(hint, "sell") {
            Channel::CkSell
        } else {
            Channel::TcgMarket
        }
    } else {
        Channel::TcgMarket
    }
}

/// The observation that one price in one channel makes for the near-mint,
/// non-foil row of a printing.
pub open spec fn single_fact(
    printing_id: Seq<char>,
    channel: Channel,
    price: Reading,
    version: Seq<char>,
    ymd: i64,
    at: Seq<char>,
) -> PriceFact {
    PriceFact {
        printing_id,
        condition_id: Some(CONDITION_NM_ID),
        finish_id: Some(FINISH_NONFOIL_ID),
        sync_version: version,
        channels: Channels::empty().with(channel, cleaned(Some(price))),
        captured_ymd: ymd,
        captured_at: at,
    }
}

/// Records one price in one channel of the near-mint, non-foil row of a
/// printing. A price that is not finite or is negative changes nothing.
pub fn record_single_price(
    store: &mut PriceStore,
    printing_id: &str,
    channel: Channel,
    price: Reading,
    sync_version: &str,
    captured_ymd: i64,
    captured_at: &str,
)
    ensures
        final(store)@ == observed(
            old(store)@,
            single_fact(printing_id@, channel, price, sync_version@, captured_ymd, captured_at@),
        ),
{
    upsert_compact_price_row(
        store,
        printing_id,
        Some(CONDITION_NM_ID),
        Some(FINISH_NONFOIL_ID),
        Readings::single(channel, price),
        sync_version,
        captured_ymd,
        captured_at,
    );
}

/// Records one price that a vendor reported for a printing, in the channel
/// that the vendor and its hint name, at the clock's time and under the
/// sync version and capture day of that time. A price that is not finite or is
/// negative changes nothing.
pub fn maybe_insert_market_snapshot(
    store: &mut PriceStore,
    scryfall_id: &str,
    market_price: Reading,
    vendor: &str,
    channel: &str,
)
    ensures
        exists|version: Seq<char>, ymd: i64, at: Seq<char>|
            clock_stamped(at, version, ymd) && final(store)@ == observed(
                old(store)@,
                #[trigger] single_fact(
                    scryfall_id@,
                    classified(normalized(vendor@), normalized(channel@)),
                    market_price,
                    version,
                    ymd,
                    at,
                ),
            ),
{
    let vendor_name = normalize(vendor);
    let hint = normalize(channel);
    let picked = classify(vendor_name.as_str(), hint.as_str());
    let stamp = stamp_now();
    record_single_price(
        store,
        scryfall_id,
        picked,
        market_price,
        stamp.sync_version.as_str(),
        stamp.captured_ymd,
        stamp.at.as_str(),
    );
    assert(clock_stamped(stamp.at@, stamp.sync_version@, stamp.captured_ymd) && store@ == observed(
        old(store)@,
        single_fact(
            scryfall_id@,
            picked,
            market_price,
            stamp.sync_version@,
            stamp.captured_ymd,
            stamp.at@,
        ),
    ));
}

} // verus!
