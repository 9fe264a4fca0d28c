use crate::catalog::{Catalog, CatalogFacts};
use crate::model::{text_of, views};
use crate::price::{Reading, Readings};
use crate::printing::{printing_index, PrintingFact};
use crate::store::{observed, upsert_compact_price_row, PriceFact};
use crate::text::{normalize, normalized, trim, trim_start_matches, trimmed, without_leading};
use crate::vendor::{parse_ck_bool, says_yes};
use crate::version::{clock_stamped, stamp_now};
use crate::{CONDITION_NM_ID, FINISH_FOIL_ID, FINISH_NONFOIL_ID};
use vstd::prelude::*;
use vstd::string::*;

verus! {

/// After how many scanned rows a long scan pauses for a moment.
pub const SYNC_YIELD_EVERY_ROWS: u64 = 500;

/// How long such a pause lasts, in milliseconds.
pub const SYNC_YIELD_SLEEP_MS: u64 = 2;

/// Tells whether a scan that has seen `scanned` rows is due for a pause.
pub fn is_yield_due(scanned: u64) -> (due: bool)
    ensures
        due == (scanned % SYNC_YIELD_EVERY_ROWS == 0),
{
    scanned % SYNC_YIELD_EVERY_ROWS == 0
}

/// One line of the buylist vendor's price list. Prices count millionths of
/// a currency unit.
#[derive(Debug)]
pub struct CkPricelistItem {
    pub scryfall_id: Option<String>,
    pub is_foil: Option<String>,
    pub price_buy: Reading,
    pub price_sell: Reading,
    pub qty_buying: Option<i64>,
    pub url: Option<String>,
}

/// The mathematical value of a [`CkPricelistItem`].
pub struct CkItemFact {
    pub scryfall_id: Option<Seq<char>>,
    pub is_foil: Option<Seq<char>>,
    pub price_buy: Reading,
    pub price_sell: Reading,
    pub qty_buying: Option<i64>,
    pub url: Option<Seq<char>>,
}

impl View for CkPricelistItem {
    type V = CkItemFact;

    open spec fn view(&self) -> CkItemFact {
        CkItemFact {
            scryfall_id: text_of(self.scryfall_id),
            is_foil: text_of(self.is_foil),
            price_buy: self.price_buy,
            price_sell: self.price_sell,
            qty_buying: self.qty_buying,
            url: text_of(self.url),
        }
    }
}

/// A line of the price list in normal form: the printing's identifier
/// trimmed and lower-cased, the foil flag read. `named` tells whether the
/// line came with an identifier that was not blank.
#[derive(Debug)]
pub struct CkLine {
    pub printing_id: String,
    pub named: bool,
    pub foil: bool,
    pub price_buy: Reading,
    pub price_sell: Reading,
    pub qty_buying: Option<i64>,
}

/// The mathematical value of a [`CkLine`].
pub struct CkLineFact {
    pub printing_id: Seq<char>,
    pub named: bool,
    pub foil: bool,
    pub price_buy: Reading,
    pub price_sell: Reading,
    pub qty_buying: Option<i64>,
}

impl View for CkLine {
    type V = CkLineFact;

    open spec fn view(&self) -> CkLineFact {
        CkLineFact {
            printing_id: self.printing_id@,
            named: self.named,
            foil: self.foil,
            price_buy: self.price_buy,
            price_sell: self.price_sell,
            qty_buying: self.qty_buying,
        }
    }
}

/// What a sync of the price list counts.
#[derive(Clone, Copy, PartialEq, Eq, Structural, Debug)]
pub struct CkPriceSyncResult {
    pub scanned: u64,
    pub upserted_buylist: u64,
    pub upserted_sell: u64,
    pub skipped: u64,
}

/// The normal form of a line.
pub open spec fn normal_line(item: CkItemFact) -> CkLineFact {
    CkLineFact {
        printing_id: match item.scryfall_id {
            Some(id) => normalized(id),
            None => Seq::empty(),
        },
        named: item.scryfall_id is Some && trimmed(item.scryfall_id->0).len() > 0,
        foil: item.is_foil is Some && says_yes(normalized(item.is_foil->0)),
        price_buy: item.price_buy,
        price_sell: item.price_sell,
        qty_buying: item.qty_buying,
    }
}

/// Brings a line of the price list into normal form.
pub fn normalize_line(item: &CkPricelistItem) -> (line: CkLine)
    ensures
        line@ == normal_line(item@),
{
    let printing_id = match &item.scryfall_id {
        Some(id) => normalize(id.as_str()),
        None => String::new(),
    };
    let named = match &item.scryfall_id {
        Some(id) => !trim(id.as_str()).is_empty(),
        None => false,
    };
    let flag = match &item.is_foil {
        Some(flag) => Some(flag.as_str()),
        None => None,
    };
    CkLine {
        printing_id,
        named,
        foil: parse_ck_bool(flag),
        price_buy: item.price_buy,
        price_sell: item.price_sell,
        qty_buying: item.qty_buying,
    }
}

/// Whether a reading is a price above zero.
pub open spec fn is_positive(reading: Reading) -> bool {
    reading matches Reading::Amount(amount) && amount > 0
}

/// Tells whether a reading is a price above zero.
pub fn positive(reading: Reading) -> (yes: bool)
    ensures
        yes == is_positive(reading),
{
    match reading {
        Reading::Amount(amount) => amount > 0,
        Reading::NotFinite => false,
    }
}

/// Whether a line is matched: it names a printing that the replica knows.
pub open spec fn line_matches(printings: Seq<PrintingFact>, line: CkLineFact) -> bool {
    line.named && printing_index(printings, line.printing_id) is Some
}

/// Whether a line is skipped: it is not matched, or neither of its prices
/// is above zero.
pub open spec fn line_skipped(printings: Seq<PrintingFact>, line: CkLineFact) -> bool {
    !line_matches(printings, line) || (!is_positive(line.price_buy) && !is_positive(
        line.price_sell,
    ))
}

/// The finish that a line prices.
pub open spec fn line_finish(line: CkLineFact) -> i64 {
    if line.foil {
        FINISH_FOIL_ID
    } else {
        FINISH_NONFOIL_ID
    }
}

/// The observation of a line's buy price, with the quantity that the vendor
/// buys; a missing quantity counts as 0.
pub open spec fn buy_fact(line: CkLineFact, version: Seq<char>, ymd: i64, at: Seq<char>) -> PriceFact {
    PriceFact {
        printing_id: line.printing_id,
        condition_id: Some(CONDITION_NM_ID),
        finish_id: Some(line_finish(line)),
        sync_version: version,
        channels: (Readings {
            tcg_low: None,
            tcg_market: None,
            tcg_high: None,
            ck_sell: None,
            ck_buylist: Some(line.price_buy),
            ck_buylist_quantity_cap: Some(
                match line.qty_buying {
                    Some(count) => count,
                    None => 0i64,
                },
            ),
        }).cleaned(),
        captured_ymd: ymd,
        captured_at: at,
    }
}

/// The observation of a line's sell price.
pub open spec fn sell_fact(line: CkLineFact, version: Seq<char>, ymd: i64, at: Seq<char>) -> PriceFact {
    PriceFact {
        printing_id: line.printing_id,
        condition_id: Some(CONDITION_NM_ID),
        finish_id: Some(line_finish(line)),
        sync_version: version,
        channels: (Readings {
            tcg_low: None,
            tcg_market: None,
            tcg_high: None,
            ck_sell: Some(line.price_sell),
            ck_buylist: None,
            ck_buylist_quantity_cap: None,
        }).cleaned(),
        captured_ymd: ymd,
        captured_at: at,
    }
}

/// The rows after one line: for a matched line, its buy price merged where
/// it is above zero, then its sell price where that is above zero.
pub open spec fn line_merged(
    rows: Seq<PriceFact>,
    printings: Seq<PrintingFact>,
    line: CkLineFact,
    version: Seq<char>,
    ymd: i64,
    at: Seq<char>,
) -> Seq<PriceFact> {
    if !line_matches(printings, line) {
        rows
    } else {
        let bought = if is_positive(line.price_buy) {
            observed(rows, buy_fact(line, version, ymd, at))
        } else {
            rows
        };
        if is_positive(line.price_sell) {
            observed(bought, sell_fact(line, version, ymd, at))
        } else {
            bought
        }
    }
}

/// The counts after one line.
pub open spec fn line_counted(
    counts: CkPriceSyncResult,
    printings: Seq<PrintingFact>,
    line: CkLineFact,
) -> CkPriceSyncResult {
    let matched = line_matches(printings, line);
    CkPriceSyncResult {
        scanned: (counts.scanned + 1) as u64,
        upserted_buylist: if matched && is_positive(line.price_buy) {
            (counts.upserted_buylist + 1) as u64
        } else {
            counts.upserted_buylist
        },
        upserted_sell: if matched && is_positive(line.price_sell) {
            (counts.upserted_sell + 1) as u64
        } else {
            counts.upserted_sell
        },
        skipped: if line_skipped(printings, line) {
            (counts.skipped + 1) as u64
        } else {
            counts.skipped
        },
    }
}

/// Merges one line of the price list in normal form and counts it.
pub fn merge_ck_line(
    catalog: &mut Catalog,
    counts: &mut CkPriceSyncResult,
    line: &CkLine,
    sync_version: &str,
    captured_ymd: i64,
    captured_at: &str,
)
    requires
        old(counts).scanned < u64::MAX,
        old(counts).upserted_buylist <= old(counts).scanned,
        old(counts).upserted_sell <= old(counts).scanned,
        old(counts).skipped <= old(counts).scanned,
    ensures
        *final(counts) == line_counted(*old(counts), old(catalog)@.printings, line@),
        final(counts).upserted_buylist <= final(counts).scanned,
        final(counts).upserted_sell <= final(counts).scanned,
        final(counts).skipped <= final(counts).scanned,
        final(catalog)@ == (CatalogFacts {
            prices: line_merged(
                old(catalog)@.prices,
                old(catalog)@.printings,
                line@,
                sync_version@,
                captured_ymd,
                captured_at@,
            ),
            ..old(catalog)@
        }),
{
    counts.scanned = counts.scanned + 1;
    if !line.named {
        counts.skipped = counts.skipped + 1;
        return ;
    }
    if catalog.printings.find(line.printing_id.as_str()).is_none() {
        counts.skipped = counts.skipped + 1;
        return ;
    }
    let finish = if line.foil {
        FINISH_FOIL_ID
    } else {
        FINISH_NONFOIL_ID
    };
    let buys = positive(line.price_buy);
    let sells = positive(line.price_sell);
    if buys {
        let quantity: i64 = match line.qty_buying {
            Some(count) => count,
            None => 0,
        };
        upsert_compact_price_row(
            &mut catalog.prices,
            line.printing_id.as_str(),
            Some(CONDITION_NM_ID),
            Some(finish),
            Readings {
                tcg_low: None,
                tcg_market: None,
                tcg_high: None,
                ck_sell: None,
                ck_buylist: Some(line.price_buy),
                ck_buylist_quantity_cap: Some(quantity),
            },
            sync_version,
            captured_ymd,
            captured_at,
        );
        counts.upserted_buylist = counts.upserted_buylist + 1;
    }
    if sells {
        upsert_compact_price_row(
            &mut catalog.prices,
            line.printing_id.as_str(),
            Some(CONDITION_NM_ID),
            Some(finish),
            Readings {
                tcg_low: None,
                tcg_market: None,
                tcg_high: None,
                ck_sell: Some(line.price_sell),
                ck_buylist: None,
                ck_buylist_quantity_cap: None,
            },
            sync_version,
            captured_ymd,
            captured_at,
        );
        counts.upserted_sell = counts.upserted_sell + 1;
    }
    if !buys && !sells {
        counts.skipped = counts.skipped + 1;
    }
}

/// The rows after each line of a price list, in turn.
pub open spec fn pricelist_merged(
    rows: Seq<PriceFact>,
    printings: Seq<PrintingFact>,
    items: Seq<CkItemFact>,
    version: Seq<char>,
    ymd: i64,
    at: Seq<char>,
) -> Seq<PriceFact>
    decreases items.len(),
{
    if items.len() == 0 {
        rows
    } else {
        line_merged(
            pricelist_merged(rows, printings, items.drop_last(), version, ymd, at),
            printings,
            normal_line(items.last()),
            version,
            ymd,
            at,
        )
    }
}

/// The counts of a price list.
pub open spec fn pricelist_counted(printings: Seq<PrintingFact>, items: Seq<CkItemFact>) -> CkPriceSyncResult
    decreases items.len(),
{
    if items.len() == 0 {
        CkPriceSyncResult { scanned: 0, upserted_buylist: 0, upserted_sell: 0, skipped: 0 }
    } else {
        line_counted(
            pricelist_counted(printings, items.drop_last()),
            printings,
            normal_line(items.last()),
        )
    }
}

/// Merges a price list under a sync version, capture day and capture time:
/// for each line that names a known printing, the buy price into the
/// buylist channel and the sell price into the sell channel, where they are
/// above zero. Other lines are counted as skipped.
pub fn merge_ck_pricelist(
    catalog: &mut Catalog,
    items: &Vec<CkPricelistItem>,
    sync_version: &str,
    captured_ymd: i64,
    captured_at: &str,
) -> (counts: CkPriceSyncResult)
    ensures
        counts == pricelist_counted(old(catalog)@.printings, views(items@)),
        final(catalog)@ == (CatalogFacts {
            prices: pricelist_merged(
                old(catalog)@.prices,
                old(catalog)@.printings,
                views(items@),
                sync_version@,
                captured_ymd,
                captured_at@,
            ),
            ..old(catalog)@
        }),
{
    let ghost all = views(items@);
    let mut counts = CkPriceSyncResult {
        scanned: 0,
        upserted_buylist: 0,
        upserted_sell: 0,
        skipped: 0,
    };
    let mut i: usize = 0;
    assert(all.take(0) =~= Seq::<CkItemFact>::empty());
    while i < items.len()
        invariant
            i <= items@.len(),
            all == views(items@),
            counts.scanned == i,
            counts.upserted_buylist <= counts.scanned,
            counts.upserted_sell <= counts.scanned,
            counts.skipped <= counts.scanned,
            counts == pricelist_counted(old(catalog)@.printings, all.take(i as int)),
            catalog@ == (CatalogFacts {
                prices: pricelist_merged(
                    old(catalog)@.prices,
                    old(catalog)@.printings,
                    all.take(i as int),
                    sync_version@,
                    captured_ymd,
                    captured_at@,
                ),
                ..old(catalog)@
            }),
        decreases items@.len() - i,
    {
        proof {
            assert(all.take(i + 1).drop_last() =~= all.take(i as int));
            assert(all.take(i + 1).last() == items@[i as int]@);
        }
        let line = normalize_line(&items[i]);
        merge_ck_line(catalog, &mut counts, &line, sync_version, captured_ymd, captured_at);
        i = i + 1;
    }
    assert(all.take(i as int) =~= all);
    counts
}

/// Merges a price list at the clock's time, under the sync version and
/// capture day of that time.
pub fn sync_ck_prices_into_card_data(catalog: &mut Catalog, items: &Vec<CkPricelistItem>) -> (counts:
    CkPriceSyncResult)
    ensures
        counts == pricelist_counted(old(catalog)@.printings, views(items@)),
        exists|version: Seq<char>, ymd: i64, at: Seq<char>|
            clock_stamped(at, version, ymd) && final(catalog)@ == (CatalogFacts {
                prices: #[trigger] pricelist_merged(
                    old(catalog)@.prices,
                    old(catalog)@.printings,
                    views(items@),
                    version,
                    ymd,
                    at,
                ),
                ..old(catalog)@
            }),
{
    let stamp = stamp_now();
    let counts = merge_ck_pricelist(
        catalog,
        items,
        stamp.sync_version.as_str(),
        stamp.captured_ymd,
        stamp.at.as_str(),
    );
    assert(clock_stamped(stamp.at@, stamp.sync_version@, stamp.captured_ymd) && catalog@
        == (CatalogFacts {
        prices: pricelist_merged(
            old(catalog)@.prices,
            old(catalog)@.printings,
            views(items@),
            stamp.sync_version@,
            stamp.captured_ymd,
            stamp.at@,
        ),
        ..old(catalog)@
    }));
    counts
}

/// The address of the buylist vendor's site.
pub const CK_SITE: &'static str = "https://www.cardkingdom.com/";

/// The path that a vendor's link names: trimmed, without leading slashes.
pub open spec fn link_path(raw: Option<Seq<char>>) -> Seq<char> {
    without_leading(
        trimmed(
            match raw {
                Some(link) => link,
                None => ""@,
            },
        ),
        '/',
    )
}

/// Makes the address of a page of the buylist vendor from the path that a
/// line of its price list names. A missing or blank path gives the address
/// of the site.
pub fn make_ck_source_url(raw: Option<&str>) -> (url: String)
    ensures
        url@ == CK_SITE@ + link_path(
            match raw {
                Some(link) => Some(link@),
                None => None,
            },
        ),
{
    let given = match raw {
        Some(link) => link,
        None => "",
    };
    let path = trim_start_matches(trim(given), '/');
    let mut url = CK_SITE.to_owned();
    url.append(path);
    url
}

} // verus!
