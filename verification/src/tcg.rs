use crate::catalog::{Catalog, CatalogFacts};
use crate::model::{first_where, lemma_first_where_found, text_of, views};
use crate::price::{Reading, Readings};
use crate::printing::{printing_index, PrintingFact};
use crate::store::{observed, upsert_compact_price_row, PriceFact};
use crate::text::{normalize, normalized, same_text, to_uppercase, trim, trimmed, uppercased};
use crate::{CONDITION_NM_ID, FINISH_NONFOIL_ID};
use vstd::prelude::*;
use vstd::string::*;

verus! {

/// The low and market price of one finish of a product.
#[derive(Clone, Copy, Debug)]
pub struct TcgPricePoint {
    pub low: Option<Reading>,
    pub market: Option<Reading>,
}

/// One product of a set, as the market-price tracker lists it.
#[derive(Debug)]
pub struct TcgProduct {
    pub id: i64,
    pub scryfall_id: Option<String>,
}

/// The mathematical value of a [`TcgProduct`].
pub struct TcgProductFact {
    pub id: i64,
    pub scryfall_id: Option<Seq<char>>,
}

impl View for TcgProduct {
    type V = TcgProductFact;

    open spec fn view(&self) -> TcgProductFact {
        TcgProductFact { id: self.id, scryfall_id: text_of(self.scryfall_id) }
    }
}

/// The prices of one product, by finish.
#[derive(Clone, Copy, Debug)]
pub struct TcgPricing {
    pub product_id: i64,
    pub normal: Option<TcgPricePoint>,
    pub foil: Option<TcgPricePoint>,
}

/// One stock-keeping unit of a product: a condition, a variant and a
/// language, with the highest listed price.
#[derive(Debug)]
pub struct TcgSku {
    pub cnd: Option<String>,
    pub var: Option<String>,
    pub lng: Option<String>,
    pub hi: Option<Reading>,
}

/// A stock-keeping unit in normal form: whether it is near mint and
/// English, whether it is the normal variant, and its highest listed price.
#[derive(Clone, Copy, PartialEq, Eq, Structural, Debug)]
pub struct SkuMark {
    pub near_mint_english: bool,
    pub normal_variant: bool,
    pub hi: Option<Reading>,
}

/// The mathematical value of a [`TcgSku`].
pub struct TcgSkuFact {
    pub cnd: Option<Seq<char>>,
    pub var: Option<Seq<char>>,
    pub lng: Option<Seq<char>>,
    pub hi: Option<Reading>,
}

impl View for TcgSku {
    type V = TcgSkuFact;

    open spec fn view(&self) -> TcgSkuFact {
        TcgSkuFact {
            cnd: text_of(self.cnd),
            var: text_of(self.var),
            lng: text_of(self.lng),
            hi: self.hi,
        }
    }
}

/// The stock-keeping units of one product, in the order of their keys.
#[derive(Debug)]
pub struct TcgSkuGroup {
    pub product_id: i64,
    pub skus: Vec<TcgSku>,
}

/// The mathematical value of a [`TcgSkuGroup`].
pub struct TcgSkuGroupFact {
    pub product_id: i64,
    pub skus: Seq<TcgSkuFact>,
}

impl View for TcgSkuGroup {
    type V = TcgSkuGroupFact;

    open spec fn view(&self) -> TcgSkuGroupFact {
        TcgSkuGroupFact { product_id: self.product_id, skus: views(self.skus@) }
    }
}

/// What the tracker reports for one set: its products in the order of
/// their keys, their prices, and their stock-keeping units.
#[derive(Debug)]
pub struct TcgSet {
    pub products: Vec<TcgProduct>,
    pub prices: Vec<TcgPricing>,
    pub skus: Vec<TcgSkuGroup>,
}

/// The mathematical value of a [`TcgSet`].
pub struct TcgSetFact {
    pub products: Seq<TcgProductFact>,
    pub prices: Seq<TcgPricing>,
    pub skus: Seq<TcgSkuGroupFact>,
}

impl View for TcgSet {
    type V = TcgSetFact;

    open spec fn view(&self) -> TcgSetFact {
        TcgSetFact {
            products: views(self.products@),
            prices: self.prices@,
            skus: views(self.skus@),
        }
    }
}

/// A code trimmed and upper-cased; `fallback` stands in for a missing one
/// as it is.
pub open spec fn upper_code(code: Option<Seq<char>>, fallback: Seq<char>) -> Seq<char> {
    match code {
        Some(text) => uppercased(trimmed(text)),
        None => fallback,
    }
}

/// The normal form of a stock-keeping unit. A missing variant counts as
/// the normal one.
pub open spec fn sku_mark(sku: TcgSkuFact) -> SkuMark {
    SkuMark {
        near_mint_english: upper_code(sku.cnd, ""@) == "NM"@ && upper_code(sku.lng, ""@) == "EN"@,
        normal_variant: upper_code(sku.var, "N"@) == "N"@,
        hi: sku.hi,
    }
}

/// The normal forms of a product's stock-keeping units.
pub open spec fn sku_marks(skus: Seq<TcgSkuFact>) -> Seq<SkuMark> {
    Seq::new(skus.len(), |i: int| sku_mark(skus[i]))
}

/// Trims and upper-cases a code; a missing one is the fallback.
pub fn code_upper(code: &Option<String>, fallback: &str) -> (out: String)
    ensures
        code is None ==> out@ == fallback@,
        out@ == upper_code(text_of(*code), fallback@),
{
    match code {
        Some(text) => to_uppercase(trim(text.as_str())),
        None => fallback.to_owned(),
    }
}

/// Brings a stock-keeping unit into normal form.
pub fn mark_sku(sku: &TcgSku) -> (mark: SkuMark)
    ensures
        mark == sku_mark(sku@),
{
    let cnd = code_upper(&sku.cnd, "");
    let lng = code_upper(&sku.lng, "");
    let var = code_upper(&sku.var, "N");
    SkuMark {
        near_mint_english: same_text(cnd.as_str(), "NM") && same_text(lng.as_str(), "EN"),
        normal_variant: same_text(var.as_str(), "N"),
        hi: sku.hi,
    }
}

/// Brings the stock-keeping units of a product into normal form.
pub fn mark_skus(skus: &Vec<TcgSku>) -> (marks: Vec<SkuMark>)
    ensures
        marks@ == sku_marks(views(skus@)),
{
    let mut marks: Vec<SkuMark> = Vec::new();
    let mut i: usize = 0;
    while i < skus.len()
        invariant
            i <= skus@.len(),
            marks@.len() == i,
            forall|k: int| 0 <= k < i ==> #[trigger] marks@[k] == sku_mark(skus@[k]@),
        decreases skus@.len() - i,
    {
        marks.push(mark_sku(&skus[i]));
        i = i + 1;
    }
    assert(marks@ =~= sku_marks(views(skus@)));
    marks
}

/// The high price of a product: the highest listed price of its first
/// near-mint English unit of the normal variant; where there is none, that
/// of its last near-mint English unit with a price.
pub open spec fn preferred_high(marks: Seq<SkuMark>) -> Option<Reading>
    decreases marks.len(),
{
    if marks.len() == 0 {
        None
    } else {
        let mark = marks[0];
        let later = preferred_high(marks.drop_first());
        if mark.near_mint_english && mark.hi is Some {
            if mark.normal_variant || later is None {
                mark.hi
            } else {
                later
            }
        } else {
            later
        }
    }
}

/// Picks the high price of a product from its stock-keeping units.
pub fn pick_high(marks: &Vec<SkuMark>) -> (high: Option<Reading>)
    ensures
        high == preferred_high(marks@),
{
    let mut preferred: Option<Reading> = None;
    let mut i: usize = 0;
    assert(marks@.skip(0) =~= marks@);
    while i < marks.len()
        invariant
            i <= marks@.len(),
            preferred_high(marks@) == (if preferred_high(marks@.skip(i as int)) is Some {
                preferred_high(marks@.skip(i as int))
            } else {
                preferred
            }),
        decreases marks@.len() - i,
    {
        let mark = marks[i];
        proof {
            assert(marks@.skip(i as int)[0] == mark);
            assert(marks@.skip(i as int).drop_first() =~= marks@.skip(i + 1));
        }
        if mark.near_mint_english && mark.hi.is_some() {
            if mark.normal_variant {
                return mark.hi;
            }
            preferred = mark.hi;
        }
        i = i + 1;
    }
    preferred
}

/// The price point that is taken for a product: the normal finish before
/// the foil one.
pub open spec fn chosen_point(pricing: Option<TcgPricing>) -> Option<TcgPricePoint> {
    match pricing {
        Some(prices) => if prices.normal is Some {
            prices.normal
        } else {
            prices.foil
        },
        None => None,
    }
}

/// What a product reports for the three market channels: market and low
/// each stand in for the other where one is missing, and the high price
/// comes from the stock-keeping units. There is nothing to report where the
/// product has no price point.
pub open spec fn product_readings(pricing: Option<TcgPricing>, marks: Seq<SkuMark>) -> Option<
    Readings,
> {
    match chosen_point(pricing) {
        Some(point) => Some(
            Readings {
                tcg_low: if point.low is Some {
                    point.low
                } else {
                    point.market
                },
                tcg_market: if point.market is Some {
                    point.market
                } else {
                    point.low
                },
                tcg_high: preferred_high(marks),
                ck_sell: None,
                ck_buylist: None,
                ck_buylist_quantity_cap: None,
            },
        ),
        None => None,
    }
}

/// Selects what a product reports for the three market channels.
pub fn select_readings(pricing: Option<TcgPricing>, marks: &Vec<SkuMark>) -> (out: Option<Readings>)
    ensures
        out == product_readings(pricing, marks@),
{
    let point = match pricing {
        Some(prices) => match prices.normal {
            Some(normal) => Some(normal),
            None => prices.foil,
        },
        None => None,
    };
    match point {
        Some(chosen) => Some(
            Readings {
                tcg_low: match chosen.low {
                    Some(low) => Some(low),
                    None => chosen.market,
                },
                tcg_market: match chosen.market {
                    Some(market) => Some(market),
                    None => chosen.low,
                },
                tcg_high: pick_high(marks),
                ck_sell: None,
                ck_buylist: None,
                ck_buylist_quantity_cap: None,
            },
        ),
        None => None,
    }
}

/// The number of the three market channels that readings report.
pub open spec fn reported_count(readings: Readings) -> nat {
    (if readings.tcg_market is Some {
        1nat
    } else {
        0nat
    }) + (if readings.tcg_low is Some {
        1nat
    } else {
        0nat
    }) + (if readings.tcg_high is Some {
        1nat
    } else {
        0nat
    })
}

/// Counts the market channels that readings report.
pub fn count_reported(readings: &Readings) -> (count: u64)
    ensures
        count == reported_count(*readings),
{
    let mut count: u64 = 0;
    if readings.tcg_market.is_some() {
        count = count + 1;
    }
    if readings.tcg_low.is_some() {
        count = count + 1;
    }
    if readings.tcg_high.is_some() {
        count = count + 1;
    }
    count
}

/// The test that picks the prices of a product.
pub open spec fn prices_of(product_id: i64) -> spec_fn(TcgPricing) -> bool {
    |pricing: TcgPricing| pricing.product_id == product_id
}

/// The test that picks the stock-keeping units of a product.
pub open spec fn skus_of(product_id: i64) -> spec_fn(TcgSkuGroupFact) -> bool {
    |group: TcgSkuGroupFact| group.product_id == product_id
}

/// The prices listed for a product.
pub open spec fn pricing_for(prices: Seq<TcgPricing>, product_id: i64) -> Option<TcgPricing> {
    match first_where(prices, prices_of(product_id)) {
        Some(at) => Some(prices[at]),
        None => None,
    }
}

/// The stock-keeping units listed for a product, in normal form.
pub open spec fn marks_for(groups: Seq<TcgSkuGroupFact>, product_id: i64) -> Seq<SkuMark> {
    match first_where(groups, skus_of(product_id)) {
        Some(at) => sku_marks(groups[at].skus),
        None => Seq::empty(),
    }
}

/// Looks up the prices of a product.
pub fn find_pricing(prices: &Vec<TcgPricing>, product_id: i64) -> (found: Option<TcgPricing>)
    ensures
        found == pricing_for(prices@, product_id),
{
    let mut at: usize = 0;
    while at < prices.len()
        invariant
            at <= prices@.len(),
            forall|j: int| 0 <= j < at ==> !prices_of(product_id)(#[trigger] prices@[j]),
        decreases prices@.len() - at,
    {
        if prices[at].product_id == product_id {
            proof {
                lemma_first_where_found(prices@, prices_of(product_id), at as int);
            }
            return Some(prices[at]);
        }
        at = at + 1;
    }
    proof {
        lemma_first_where_found(prices@, prices_of(product_id), at as int);
    }
    None
}

/// Looks up the stock-keeping units of a product and brings them into
/// normal form.
pub fn find_marks(groups: &Vec<TcgSkuGroup>, product_id: i64) -> (marks: Vec<SkuMark>)
    ensures
        marks@ == marks_for(views(groups@), product_id),
{
    let mut at: usize = 0;
    while at < groups.len()
        invariant
            at <= groups@.len(),
            forall|j: int| 0 <= j < at ==> !skus_of(product_id)(#[trigger] views(groups@)[j]),
        decreases groups@.len() - at,
    {
        if groups[at].product_id == product_id {
            proof {
                assert(skus_of(product_id)(views(groups@)[at as int]));
                lemma_first_where_found(views(groups@), skus_of(product_id), at as int);
            }
            return mark_skus(&groups[at].skus);
        }
        at = at + 1;
    }
    proof {
        lemma_first_where_found(views(groups@), skus_of(product_id), at as int);
    }
    Vec::new()
}

/// What a scan of the tracker's sets counts.
#[derive(Clone, Copy, PartialEq, Eq, Structural, Debug)]
pub struct TcgCounts {
    pub sets_scanned: u64,
    pub products_matched: u64,
    pub price_upserts: u64,
}

/// The printing that a product names, in normal form, where the replica
/// knows it.
pub open spec fn matched_printing(printings: Seq<PrintingFact>, product: TcgProductFact) -> Option<
    Seq<char>,
> {
    match product.scryfall_id {
        Some(id) => if printing_index(printings, normalized(id)) is Some {
            Some(normalized(id))
        } else {
            None
        },
        None => None,
    }
}

/// What a matched product reports, where it reports anything: it has a
/// price point and at least one of its three channels is present.
pub open spec fn product_report(set: TcgSetFact, product: TcgProductFact) -> Option<Readings> {
    match product_readings(pricing_for(set.prices, product.id), marks_for(set.skus, product.id)) {
        Some(readings) => if reported_count(readings) > 0 {
            Some(readings)
        } else {
            None
        },
        None => None,
    }
}

/// The rows after one product of a set.
pub open spec fn product_merged(
    rows: Seq<PriceFact>,
    printings: Seq<PrintingFact>,
    set: TcgSetFact,
    product: TcgProductFact,
    version: Seq<char>,
    ymd: i64,
    at: Seq<char>,
) -> Seq<PriceFact> {
    match matched_printing(printings, product) {
        Some(id) => match product_report(set, product) {
            Some(readings) => observed(
                rows,
                PriceFact {
                    printing_id: id,
                    condition_id: Some(CONDITION_NM_ID),
                    finish_id: Some(FINISH_NONFOIL_ID),
                    sync_version: version,
                    channels: readings.cleaned(),
                    captured_ymd: ymd,
                    captured_at: at,
                },
            ),
            None => rows,
        },
        None => rows,
    }
}

/// The counts after one product of a set.
pub open spec fn product_counted(
    counts: TcgCounts,
    printings: Seq<PrintingFact>,
    set: TcgSetFact,
    product: TcgProductFact,
) -> TcgCounts {
    match matched_printing(printings, product) {
        Some(_) => TcgCounts {
            products_matched: (counts.products_matched + 1) as u64,
            price_upserts: match product_report(set, product) {
                Some(readings) => (counts.price_upserts + reported_count(readings)) as u64,
                None => counts.price_upserts,
            },
            ..counts
        },
        None => counts,
    }
}

/// Merges the prices of one product of a set into the near-mint, non-foil
/// row of the printing it names, and counts it. A product that names no
/// known printing is passed over.
pub fn merge_tcg_product(
    catalog: &mut Catalog,
    counts: &mut TcgCounts,
    set: &TcgSet,
    at: usize,
    sync_version: &str,
    captured_ymd: i64,
    captured_at: &str,
)
    requires
        at < set@.products.len(),
        old(counts).products_matched < u64::MAX,
        old(counts).price_upserts <= u64::MAX - 3,
    ensures
        *final(counts) == product_counted(
            *old(counts),
            old(catalog)@.printings,
            set@,
            set@.products[at as int],
        ),
        final(catalog)@ == (CatalogFacts {
            prices: product_merged(
                old(catalog)@.prices,
                old(catalog)@.printings,
                set@,
                set@.products[at as int],
                sync_version@,
                captured_ymd,
                captured_at@,
            ),
            ..old(catalog)@
        }),
{
    let product = &set.products[at];
    assert(set@.products[at as int] == product@);
    let id = match &product.scryfall_id {
        Some(id) => normalize(id.as_str()),
        None => {
            return ;
        },
    };
    if catalog.printings.find(id.as_str()).is_none() {
        return ;
    }
    counts.products_matched = counts.products_matched + 1;
    let pricing = find_pricing(&set.prices, product.id);
    let marks = find_marks(&set.skus, product.id);
    match select_readings(pricing, &marks) {
        Some(readings) => {
            let reported = count_reported(&readings);
            if reported > 0 {
                upsert_compact_price_row(
                    &mut catalog.prices,
                    id.as_str(),
                    Some(CONDITION_NM_ID),
                    Some(FINISH_NONFOIL_ID),
                    readings,
                    sync_version,
                    captured_ymd,
                    captured_at,
                );
                counts.price_upserts = counts.price_upserts + reported;
            }
        },
        None => {},
    }
}

} // verus!
