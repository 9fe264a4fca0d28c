use crate::count::{count_catalog_records_for_version, priced_count};
use crate::hash::{hash_state, state_hash};
use crate::ledger::{
    current_version_of, state_of, with_state, with_version, Ledger, LedgerFacts, SyncState,
    SyncStateFact, VersionFact, VersionRecord, SCRYFALL_SOURCE_ID,
};
use crate::model::{lemma_first_where, text_of};
use crate::price::{coalesced, Readings};
use crate::printing::{
    copy_text, has_id, id_slot, printing_index, Printing, PrintingFact, Printings,
};
use crate::record::{check_record, record_fault, NormalFact, NormalRecord, RecordFault};
use crate::store::{observed, upsert_compact_price_row, PriceFact, PriceStore};
use crate::text::{trim, trimmed};
use crate::version::{
    captured_ymd_from_iso, captured_ymd_from_sync_version, iso_captured_ymd, version_captured_ymd,
};
use crate::{CONDITION_NM_ID, FINISH_NONFOIL_ID};
use vstd::prelude::*;
use vstd::string::*;
use vstd::utf8::*;

verus! {

/// The local replica: the printings it knows, their price rows, and the
/// bookkeeping of what was synced.
pub struct Catalog {
    pub printings: Printings,
    pub prices: PriceStore,
    pub ledger: Ledger,
}

/// The mathematical value of a [`Catalog`].
pub struct CatalogFacts {
    pub printings: Seq<PrintingFact>,
    pub prices: Seq<PriceFact>,
    pub ledger: LedgerFacts,
}

impl View for Catalog {
    type V = CatalogFacts;

    open spec fn view(&self) -> CatalogFacts {
        CatalogFacts {
            printings: self.printings@,
            prices: self.prices@,
            ledger: self.ledger@,
        }
    }
}

/// A printing as a catalog record first makes it known: English, available
/// in both finishes, with nothing else known of the card.
pub open spec fn fresh_printing(record: NormalFact) -> PrintingFact {
    PrintingFact {
        id: record.id,
        oracle_id: None,
        name: record.name,
        mana_cost: None,
        cmc: None,
        type_line: None,
        oracle_text: None,
        reserved: false,
        keywords_json: None,
        colors_json: None,
        color_identity_json: None,
        latest_released_at: None,
        set_code: record.set_code,
        collector_number: record.collector_number,
        lang: "en"@,
        rarity: None,
        layout: None,
        released_at: None,
        artist: None,
        image_normal_url: record.image_url,
        image_small_url: None,
        image_art_crop_url: None,
        is_digital: false,
        is_foil_available: true,
        is_nonfoil_available: true,
        tcgplayer_id: None,
        cardmarket_id: None,
        mtgo_id: None,
        mtgo_foil_id: None,
        updated_at: record.updated_at,
    }
}

/// A known printing after a catalog record for it: name, set code,
/// collector number and update time are the record's, the image address is
/// the record's where it has one, and the rest is kept.
pub open spec fn revised_printing(known: PrintingFact, record: NormalFact) -> PrintingFact {
    PrintingFact {
        name: record.name,
        set_code: record.set_code,
        collector_number: record.collector_number,
        image_normal_url: coalesced(record.image_url, known.image_normal_url),
        updated_at: record.updated_at,
        ..known
    }
}

/// The printings after a catalog record.
pub open spec fn printings_recorded(printings: Seq<PrintingFact>, record: NormalFact) -> Seq<
    PrintingFact,
> {
    match printing_index(printings, record.id) {
        Some(at) => printings.update(at, revised_printing(printings[at], record)),
        None => printings.insert(id_slot(printings, record.id), fresh_printing(record)),
    }
}

/// The capture day of a record's price row: that of the sync version where
/// it is dated, else that of the record's update time, else today.
pub open spec fn record_ymd(version: Seq<char>, updated_at: Seq<char>, today: i64) -> i64 {
    match version_captured_ymd(encode_utf8(version)) {
        Some(day) => day,
        None => match iso_captured_ymd(encode_utf8(updated_at)) {
            Some(day) => day,
            None => today,
        },
    }
}

/// What a record reports for the six slots: its market price, and for low
/// and high its own values or, where it has none, the market price.
pub open spec fn record_readings(record: NormalFact) -> Readings {
    Readings {
        tcg_low: Some(
            match record.low_price {
                Some(low) => low,
                None => record.market_price,
            },
        ),
        tcg_market: Some(record.market_price),
        tcg_high: Some(
            match record.high_price {
                Some(high) => high,
                None => record.market_price,
            },
        ),
        ck_sell: None,
        ck_buylist: None,
        ck_buylist_quantity_cap: None,
    }
}

/// The price observation that a record makes under a sync version.
pub open spec fn record_fact(record: NormalFact, version: Seq<char>, today: i64) -> PriceFact {
    PriceFact {
        printing_id: record.id,
        condition_id: Some(CONDITION_NM_ID),
        finish_id: Some(FINISH_NONFOIL_ID),
        sync_version: version,
        channels: record_readings(record).cleaned(),
        captured_ymd: record_ymd(version, record.updated_at, today),
        captured_at: record.updated_at,
    }
}

/// The catalog after a record was written under a sync version.
pub open spec fn record_upserted(
    catalog: CatalogFacts,
    record: NormalFact,
    version: Seq<char>,
    today: i64,
) -> CatalogFacts {
    CatalogFacts {
        printings: printings_recorded(catalog.printings, record),
        prices: observed(catalog.prices, record_fact(record, version, today)),
        ledger: catalog.ledger,
    }
}

/// The catalog after each record of a batch was written, in turn.
pub open spec fn records_upserted(
    catalog: CatalogFacts,
    records: Seq<NormalFact>,
    version: Seq<char>,
    today: i64,
) -> CatalogFacts
    decreases records.len(),
{
    if records.len() == 0 {
        catalog
    } else {
        record_upserted(
            records_upserted(catalog, records.drop_last(), version, today),
            records.last(),
            version,
            today,
        )
    }
}

/// The identifier of the version record that the catalog keeps for a
/// dataset's version.
pub open spec fn catalog_version_id(dataset: Seq<char>, version: Seq<char>) -> Seq<char> {
    dataset + ":"@ + version
}

/// The ledger after the catalog's sync state was written: the dataset's
/// state replaced, and, where a version is named whose trimmed form is not
/// empty, a version record written for that form, with the count of its
/// records.
pub open spec fn sync_state_written(
    ledger: LedgerFacts,
    prices: Seq<PriceFact>,
    dataset: Seq<char>,
    version: Option<Seq<char>>,
    hash: Option<Seq<char>>,
    now: Seq<char>,
) -> LedgerFacts {
    let states = with_state(
        ledger.states,
        SyncStateFact { dataset, current_version: version, state_hash: hash, synced_at: now },
    );
    if version is Some && trimmed(version->0).len() > 0 {
        let label = trimmed(version->0);
        LedgerFacts {
            states,
            versions: with_version(
                ledger.versions,
                VersionFact {
                    id: catalog_version_id(dataset, label),
                    source_id: SCRYFALL_SOURCE_ID@,
                    dataset,
                    version: label,
                    state_hash: hash,
                    record_count: priced_count(prices, label) as u64,
                    created_at: now,
                },
            ),
            ..ledger
        }
    } else {
        LedgerFacts { states, ..ledger }
    }
}

/// The number of records under a dataset's current version; 0 where there
/// is none or its trimmed form is empty.
pub open spec fn total_records(catalog: CatalogFacts, dataset: Seq<char>) -> nat {
    match current_version_of(catalog.ledger.states, dataset) {
        Some(version) => if trimmed(version).len() == 0 {
            0
        } else {
            priced_count(catalog.prices, version)
        },
        None => 0,
    }
}

/// What a sync-state query answers.
#[derive(Debug)]
pub struct CatalogSyncState {
    pub dataset: String,
    pub current_version: Option<String>,
    pub state_hash: Option<String>,
    pub synced_at: Option<String>,
    pub total_records: u64,
}

impl Catalog {
    /// A replica that knows nothing yet.
    pub fn new() -> (catalog: Catalog)
        ensures
            catalog@.printings.len() == 0,
            catalog@.prices.len() == 0,
            catalog@.ledger.states.len() == 0,
            catalog@.ledger.versions.len() == 0,
            catalog@.ledger.audits.len() == 0,
    {
        Catalog { printings: Printings::new(), prices: PriceStore::new(), ledger: Ledger::new() }
    }
}

/// Makes a printing known, or revises the known one, from a catalog
/// record.
pub fn record_printing(printings: &mut Printings, record: &NormalRecord)
    ensures
        final(printings)@ == printings_recorded(old(printings)@, record@),
{
    let ghost before = printings@;
    match printings.find(record.id.as_str()) {
        Some(at) => {
            let mut revised = printings.get(at).duplicate();
            revised.name = record.name.clone();
            revised.set_code = record.set_code.clone();
            revised.collector_number = record.collector_number.clone();
            match &record.image_url {
                Some(address) => {
                    revised.image_normal_url = Some(address.clone());
                },
                None => {},
            }
            revised.updated_at = record.updated_at.clone();
            proof {
                lemma_first_where(before, has_id(record@.id));
                assert(revised@ == revised_printing(before[at as int], record@));
                assert(revised@.id == record@.id);
            }
            printings.place(revised);
        },
        None => {
            let fresh = Printing {
                id: record.id.clone(),
                oracle_id: None,
                name: record.name.clone(),
                mana_cost: None,
                cmc: None,
                type_line: None,
                oracle_text: None,
                reserved: false,
                keywords_json: None,
                colors_json: None,
                color_identity_json: None,
                latest_released_at: None,
                set_code: record.set_code.clone(),
                collector_number: record.collector_number.clone(),
                lang: "en".to_owned(),
                rarity: None,
                layout: None,
                released_at: None,
                artist: None,
                image_normal_url: copy_text(&record.image_url),
                image_small_url: None,
                image_art_crop_url: None,
                is_digital: false,
                is_foil_available: true,
                is_nonfoil_available: true,
                tcgplayer_id: None,
                cardmarket_id: None,
                mtgo_id: None,
                mtgo_foil_id: None,
                updated_at: record.updated_at.clone(),
            };
            assert(fresh@ == fresh_printing(record@));
            printings.place(fresh);
        },
    }
}

/// Picks the capture day of a record's price row.
pub fn capture_day(sync_version: &str, updated_at: &str, today: i64) -> (day: i64)
    ensures
        day == record_ymd(sync_version@, updated_at@, today),
{
    match captured_ymd_from_sync_version(sync_version) {
        Some(day) => day,
        None => match captured_ymd_from_iso(updated_at) {
            Some(day) => day,
            None => today,
        },
    }
}

/// Writes one catalog record under a sync version: makes its printing known
/// or revises it, and records its prices in the near-mint, non-foil row.
/// A record with a fault is refused and nothing is written.
pub fn upsert_catalog_record(
    catalog: &mut Catalog,
    record: &NormalRecord,
    sync_version: &str,
    today: i64,
) -> (out: Result<(), RecordFault>)
    ensures
        match record_fault(record@) {
            Some(fault) => out == Err::<(), RecordFault>(fault) && final(catalog)@ == old(catalog)@,
            None => out is Ok && final(catalog)@ == record_upserted(
                old(catalog)@,
                record@,
                sync_version@,
                today,
            ),
        },
{
    match check_record(record) {
        Some(fault) => {
            return Err(fault);
        },
        None => {},
    }
    let day = capture_day(sync_version, record.updated_at.as_str(), today);
    record_printing(&mut catalog.printings, record);
    let low = match record.low_price {
        Some(low) => low,
        None => record.market_price,
    };
    let high = match record.high_price {
        Some(high) => high,
        None => record.market_price,
    };
    upsert_compact_price_row(
        &mut catalog.prices,
        record.id.as_str(),
        Some(CONDITION_NM_ID),
        Some(FINISH_NONFOIL_ID),
        Readings {
            tcg_low: Some(low),
            tcg_market: Some(record.market_price),
            tcg_high: Some(high),
            ck_sell: None,
            ck_buylist: None,
            ck_buylist_quantity_cap: None,
        },
        sync_version,
        day,
        record.updated_at.as_str(),
    );
    Ok(())
}

/// Counts the records under a dataset's current version.
pub fn count_catalog_records(catalog: &Catalog, dataset: &str) -> (count: u64)
    ensures
        count == total_records(catalog@, dataset@),
{
    let (current, _, _) = catalog.ledger.read_catalog_sync_row(dataset);
    match current {
        Some(version) => {
            if trim(version.as_str()).is_empty() {
                0
            } else {
                count_catalog_records_for_version(&catalog.prices, version.as_str())
            }
        },
        None => 0,
    }
}

/// Computes the state hash of a dataset: the digest of its name and of the
/// rows under its current version.
pub fn compute_catalog_state_hash(catalog: &Catalog, dataset: &str) -> (hash: String)
    ensures
        hash@ == state_hash(
            dataset@,
            current_version_of(catalog@.ledger.states, dataset@),
            catalog@.prices,
            catalog@.printings,
        ),
        hash@.len() == 64,
{
    let (current, _, _) = catalog.ledger.read_catalog_sync_row(dataset);
    hash_state(dataset, &current, &catalog.prices, &catalog.printings)
}

/// Writes a dataset's sync state, and with it the version record of the
/// version that the state names.
pub fn write_catalog_sync_state(
    catalog: &mut Catalog,
    dataset: &str,
    current_version: Option<&str>,
    state_hash: Option<&str>,
    now: &str,
)
    ensures
        final(catalog)@ == (CatalogFacts {
            ledger: sync_state_written(
                old(catalog)@.ledger,
                old(catalog)@.prices,
                dataset@,
                match current_version {
                    Some(version) => Some(version@),
                    None => None,
                },
                match state_hash {
                    Some(hash) => Some(hash@),
                    None => None,
                },
                now@,
            ),
            ..old(catalog)@
        }),
{
    let version_text = match current_version {
        Some(version) => Some(version.to_owned()),
        None => None,
    };
    let hash_text = match state_hash {
        Some(hash) => Some(hash.to_owned()),
        None => None,
    };
    catalog.ledger.put_state(
        SyncState {
            dataset: dataset.to_owned(),
            current_version: version_text,
            state_hash: copy_text(&hash_text),
            synced_at: now.to_owned(),
        },
    );
    match current_version {
        Some(version) => {
            let label = trim(version);
            if !label.is_empty() {
                let count = count_catalog_records_for_version(&catalog.prices, label);
                let mut id = dataset.to_owned();
                id.append(":");
                id.append(label);
                catalog.ledger.put_version(
                    VersionRecord {
                        id,
                        source_id: SCRYFALL_SOURCE_ID.to_owned(),
                        dataset: dataset.to_owned(),
                        version: label.to_owned(),
                        state_hash: hash_text,
                        record_count: count,
                        created_at: now.to_owned(),
                    },
                );
            }
        },
        None => {},
    }
}

/// Answers a sync-state query for a dataset.
pub fn load_catalog_sync_state(catalog: &Catalog, dataset: &str) -> (out: CatalogSyncState)
    ensures
        out.dataset@ == dataset@,
        out.total_records == total_records(catalog@, dataset@),
        match state_of(catalog@.ledger.states, dataset@) {
            Some(state) => {
                &&& text_of(out.current_version) == state.current_version
                &&& text_of(out.state_hash) == state.state_hash
                &&& text_of(out.synced_at) == Some(state.synced_at)
            },
            None => out.current_version is None && out.state_hash is None && out.synced_at
                is None,
        },
{
    let (current_version, state_hash, synced_at) = catalog.ledger.read_catalog_sync_row(dataset);
    let total = count_catalog_records(catalog, dataset);
    CatalogSyncState {
        dataset: dataset.to_owned(),
        current_version,
        state_hash,
        synced_at,
        total_records: total,
    }
}

} // verus!
