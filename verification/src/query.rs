use crate::catalog::{
    load_catalog_sync_state, total_records, Catalog, CatalogFacts, CatalogSyncState,
};
use crate::error::CatalogError;
use crate::ledger::{current_version_of, without_dataset};
use crate::model::{text_of, texts, views};
use crate::price::Channel;
use crate::printing::{copy_text, printing_of};
use crate::rank::{rank_text, Rank};
use crate::snapshot::{normal_dataset, normalize_dataset};
use crate::store::{PriceFact, PriceStore};
use crate::text::{normalize, normalized, same_text, trim, trimmed};
use crate::trend::{build_price_trend, is_later, trend_of, PriceTrend};
use vstd::prelude::*;
use vstd::string::*;

verus! {

/// What the replica answers for one printing of the current version: its
/// identity, its market price in millionths, and when the price was
/// captured.
#[derive(Debug)]
pub struct PriceRecord {
    pub scryfall_id: String,
    pub name: String,
    pub set_code: String,
    pub collector_number: String,
    pub image_url: Option<String>,
    pub market_price: u64,
    pub updated_at: String,
}

/// The mathematical value of a [`PriceRecord`].
pub struct PriceRecordFact {
    pub scryfall_id: Seq<char>,
    pub name: Seq<char>,
    pub set_code: Seq<char>,
    pub collector_number: Seq<char>,
    pub image_url: Option<Seq<char>>,
    pub market_price: u64,
    pub updated_at: Seq<char>,
}

impl View for PriceRecord {
    type V = PriceRecordFact;

    open spec fn view(&self) -> PriceRecordFact {
        PriceRecordFact {
            scryfall_id: self.scryfall_id@,
            name: self.name@,
            set_code: self.set_code@,
            collector_number: self.collector_number@,
            image_url: text_of(self.image_url),
            market_price: self.market_price,
            updated_at: self.updated_at@,
        }
    }
}

/// Whether a row gives a printing's market price under a version.
pub open spec fn is_quote(row: PriceFact, version: Seq<char>, printing_id: Seq<char>) -> bool {
    row.sync_version == version && row.printing_id == printing_id && row.channels.tcg_market
        is Some
}

/// The most recently captured row that gives a printing's market price
/// under a version. Of rows captured at the same time the one that stands
/// first counts.
pub open spec fn latest_quote(rows: Seq<PriceFact>, version: Seq<char>, printing_id: Seq<char>) -> Option<
    PriceFact,
>
    decreases rows.len(),
{
    if rows.len() == 0 {
        None
    } else {
        let before = latest_quote(rows.drop_last(), version, printing_id);
        let row = rows.last();
        if is_quote(row, version, printing_id) && (before is None || is_later(row, before->0)) {
            Some(row)
        } else {
            before
        }
    }
}

/// The record that is answered for a printing under a version: there is one
/// where the printing is known and has a market price under the version.
pub open spec fn record_for(catalog: CatalogFacts, version: Seq<char>, printing_id: Seq<char>) -> Option<
    PriceRecordFact,
> {
    match (
        latest_quote(catalog.prices, version, printing_id),
        printing_of(catalog.printings, printing_id),
    ) {
        (Some(row), Some(printing)) => Some(
            PriceRecordFact {
                scryfall_id: printing.id,
                name: printing.name,
                set_code: printing.set_code,
                collector_number: printing.collector_number,
                image_url: printing.image_normal_url,
                market_price: row.channels.tcg_market->0,
                updated_at: row.captured_at,
            },
        ),
        _ => None,
    }
}

/// The records that are answered for a list of identifiers, in the list's
/// order; identifiers without a record are passed over.
pub open spec fn records_for(catalog: CatalogFacts, version: Seq<char>, ids: Seq<Seq<char>>) -> Seq<
    PriceRecordFact,
>
    decreases ids.len(),
{
    if ids.len() == 0 {
        Seq::empty()
    } else {
        let before = records_for(catalog, version, ids.drop_last());
        match record_for(catalog, version, normalized(ids.last())) {
            Some(record) => before.push(record),
            None => before,
        }
    }
}

/// The version whose records are answered: the dataset's current version,
/// unless its trimmed form is empty.
pub open spec fn answered_version(catalog: CatalogFacts, dataset: Seq<char>) -> Option<Seq<char>> {
    match current_version_of(catalog.ledger.states, dataset) {
        Some(version) => if trimmed(version).len() == 0 {
            None
        } else {
            Some(version)
        },
        None => None,
    }
}

/// Finds the most recently captured row that gives a printing's market
/// price under a version.
pub fn find_latest_quote(prices: &PriceStore, version: &str, printing_id: &str) -> (found: Option<
    usize,
>)
    ensures
        match found {
            Some(at) => at < prices@.len() && latest_quote(prices@, version@, printing_id@)
                == Some(prices@[at as int]) && prices@[at as int].channels.tcg_market is Some,
            None => latest_quote(prices@, version@, printing_id@) is None,
        },
{
    let ghost rows = prices@;
    let mut best: Option<usize> = None;
    let mut i: usize = 0;
    assert(rows.take(0) =~= Seq::<PriceFact>::empty());
    while i < prices.len()
        invariant
            rows == prices@,
            i <= rows.len(),
            best is Some ==> best->0 < i && rows[best->0 as int].channels.tcg_market is Some,
            latest_quote(rows.take(i as int), version@, printing_id@) == (match best {
                Some(at) => Some(rows[at as int]),
                None => None,
            }),
        decreases rows.len() - i,
    {
        let row = prices.row(i);
        proof {
            assert(rows.take(i + 1).drop_last() =~= rows.take(i as int));
            assert(rows.take(i + 1).last() == row@);
        }
        if same_text(row.sync_version.as_str(), version) && same_text(
            row.printing_id.as_str(),
            printing_id,
        ) && row.channels.tcg_market.is_some() {
            let later = match best {
                Some(at) => rank_text(
                    row.captured_at.as_str(),
                    prices.row(at).captured_at.as_str(),
                ) == Rank::After,
                None => true,
            };
            if later {
                best = Some(i);
            }
        }
        i = i + 1;
    }
    assert(rows.take(i as int) =~= rows);
    best
}

/// Answers the records of the current version for a list of printings.
/// Identifiers are taken in normal form; those that are not known, or have
/// no market price under the current version, are passed over. A dataset
/// without a current version answers nothing.
pub fn get_catalog_price_records(
    catalog: &Catalog,
    dataset: &Option<String>,
    scryfall_ids: &Vec<String>,
) -> (out: Result<Vec<PriceRecord>, CatalogError>)
    ensures
        match normal_dataset(text_of(*dataset)) {
            Err(error) => out is Err && out->Err_0@ == error,
            Ok(name) => out is Ok && views(out->Ok_0@) == (match answered_version(catalog@, name) {
                Some(version) => records_for(catalog@, version, texts(scryfall_ids@)),
                None => Seq::empty(),
            }),
        },
{
    let name = match normalize_dataset(dataset) {
        Ok(name) => name,
        Err(error) => {
            return Err(error);
        },
    };
    let mut found: Vec<PriceRecord> = Vec::new();
    assert(views(found@) =~= Seq::<PriceRecordFact>::empty());
    let (current, _, _) = catalog.ledger.read_catalog_sync_row(name.as_str());
    let version = match current {
        Some(version) => version,
        None => {
            return Ok(found);
        },
    };
    if trim(version.as_str()).is_empty() {
        return Ok(found);
    }
    let ghost ids = texts(scryfall_ids@);
    let mut i: usize = 0;
    assert(ids.take(0) =~= Seq::<Seq<char>>::empty());
    while i < scryfall_ids.len()
        invariant
            i <= scryfall_ids@.len(),
            ids == texts(scryfall_ids@),
            views(found@) == records_for(catalog@, version@, ids.take(i as int)),
        decreases scryfall_ids@.len() - i,
    {
        proof {
            assert(ids.take(i + 1).drop_last() =~= ids.take(i as int));
            assert(ids.take(i + 1).last() == scryfall_ids@[i as int]@);
        }
        let ghost before = views(found@);
        let id = normalize(scryfall_ids[i].as_str());
        match find_latest_quote(&catalog.prices, version.as_str(), id.as_str()) {
            Some(at) => {
                match catalog.printings.find(id.as_str()) {
                    Some(place) => {
                        let row = catalog.prices.row(at);
                        let printing = catalog.printings.get(place);
                        match row.channels.tcg_market {
                            Some(price) => {
                                let record = PriceRecord {
                                    scryfall_id: printing.id.clone(),
                                    name: printing.name.clone(),
                                    set_code: printing.set_code.clone(),
                                    collector_number: printing.collector_number.clone(),
                                    image_url: copy_text(&printing.image_normal_url),
                                    market_price: price,
                                    updated_at: row.captured_at.clone(),
                                };
                                let ghost fact = record@;
                                found.push(record);
                                assert(views(found@) =~= before.push(fact));
                            },
                            None => {},
                        }
                    },
                    None => {},
                }
            },
            None => {},
        }
        i = i + 1;
    }
    assert(ids.take(i as int) =~= ids);
    Ok(found)
}

/// The movement of one printing's market price.
#[derive(Debug)]
pub struct MarketTrend {
    pub scryfall_id: String,
    pub trend: PriceTrend,
}

/// Derives the movement of the market price of each printing of a list.
/// Identifiers are taken in normal form.
pub fn get_market_price_trends(prices: &PriceStore, scryfall_ids: &Vec<String>) -> (out: Vec<
    MarketTrend,
>)
    ensures
        out@.len() == scryfall_ids@.len(),
        forall|i: int|
            0 <= i < out@.len() ==> (#[trigger] out@[i]).scryfall_id@ == normalized(
                scryfall_ids@[i]@,
            ) && out@[i].trend@ == trend_of(
                prices@,
                normalized(scryfall_ids@[i]@),
                Channel::TcgMarket,
            ),
{
    let mut out: Vec<MarketTrend> = Vec::new();
    let mut i: usize = 0;
    while i < scryfall_ids.len()
        invariant
            i <= scryfall_ids@.len(),
            out@.len() == i,
            forall|k: int|
                0 <= k < i ==> (#[trigger] out@[k]).scryfall_id@ == normalized(scryfall_ids@[k]@)
                    && out@[k].trend@ == trend_of(
                    prices@,
                    normalized(scryfall_ids@[k]@),
                    Channel::TcgMarket,
                ),
        decreases scryfall_ids@.len() - i,
    {
        let id = normalize(scryfall_ids[i].as_str());
        let trend = build_price_trend(prices, id.as_str());
        out.push(MarketTrend { scryfall_id: id, trend });
        i = i + 1;
    }
    out
}

/// Empties the replica for a dataset: drops every price row, and forgets
/// the dataset's sync state, version records and audit entries. Answers the
/// sync state that is left. What is known of printings stays.
pub fn reset_catalog_sync_state_for_test(catalog: &mut Catalog, dataset: &Option<String>) -> (out:
    Result<CatalogSyncState, CatalogError>)
    ensures
        match normal_dataset(text_of(*dataset)) {
            Err(error) => out is Err && out->Err_0@ == error && final(catalog)@ == old(catalog)@,
            Ok(name) => {
                &&& out is Ok
                &&& final(catalog)@ == (CatalogFacts {
                    prices: Seq::empty(),
                    ledger: without_dataset(old(catalog)@.ledger, name),
                    ..old(catalog)@
                })
                &&& out->Ok_0.dataset@ == name
                &&& out->Ok_0.total_records == total_records(final(catalog)@, name)
            },
        },
{
    let name = match normalize_dataset(dataset) {
        Ok(name) => name,
        Err(error) => {
            return Err(error);
        },
    };
    catalog.prices = PriceStore::new();
    catalog.ledger.forget_dataset(name.as_str());
    Ok(load_catalog_sync_state(catalog, name.as_str()))
}

} // verus!
