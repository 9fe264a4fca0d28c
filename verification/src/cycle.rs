use crate::catalog::{sync_state_written, write_catalog_sync_state, Catalog, CatalogFacts};
use crate::ck::CkPriceSyncResult;
use crate::hash::{hash_state, state_hash};
use crate::ledger::{
    law_written_state_reads_back, state_of, with_state, with_version, Ledger, LedgerFacts,
    SyncState, SyncStateFact, VersionFact, VersionRecord, CK_SOURCE_ID, SCRYFALL_SOURCE_ID,
    TCGTRACKING_SOURCE_ID,
};
use crate::model::views;
use crate::oracle::{
    card_changes, card_upserted, normal_card, upsert_scryfall_oracle_if_changed, OracleCard,
    OracleFact,
};
use crate::printing::{PrintingFact, Printings};
use crate::store::PriceFact;
use crate::tcg::{
    merge_tcg_product, product_counted, product_merged, TcgCounts, TcgSet, TcgSetFact,
};
use crate::version::{clock_stamped, stamp_now, CATALOG_DATASET_DEFAULT};
use vstd::prelude::*;
use vstd::string::*;
use vstd::utf8::*;

verus! {

/// The dataset name under which the card-data source is recorded.
pub const SCRYFALL_LIVE_DATASET: &'static str = "default_cards_live";

/// The dataset name under which the market-price source is recorded.
pub const TCGTRACKING_LIVE_DATASET: &'static str = "tcgtracking_tcgplayer_live";

/// The dataset name under which the buylist source is recorded.
pub const CK_LIVE_DATASET: &'static str = "ck_pricelist_live";

/// After how many scanned sets the scan of the tracker pauses for a moment.
pub const SET_YIELD_EVERY: u64 = 10;

/// Tells whether a scan that has seen `sets_scanned` sets is due for a
/// pause.
pub fn is_set_yield_due(sets_scanned: u64) -> (due: bool)
    ensures
        due == (sets_scanned % SET_YIELD_EVERY == 0),
{
    sets_scanned % SET_YIELD_EVERY == 0
}

/// One of the three feeds of a refresh cycle.
#[derive(Clone, Copy, PartialEq, Eq, Structural, Debug)]
pub enum Feed {
    /// The market-price tracker.
    Tracker,
    /// The buylist vendor's price list.
    Buylist,
    /// The card-data provider.
    CardData,
}

/// What is done next in a refresh cycle.
#[derive(Clone, Copy, PartialEq, Eq, Structural, Debug)]
pub enum CycleAction {
    /// Fetch a feed and merge what it delivers.
    Fetch(Feed),
    /// Close the cycle: record the sources and move the version pointer.
    Close,
}

/// What follows a feed in a cycle: the tracker comes first, then the
/// buylist, then the card data, and then the cycle is closed.
pub open spec fn action_following(feed: Feed) -> CycleAction {
    match feed {
        Feed::Tracker => CycleAction::Fetch(Feed::Buylist),
        Feed::Buylist => CycleAction::Fetch(Feed::CardData),
        Feed::CardData => CycleAction::Close,
    }
}

/// The first thing a cycle does: it fetches the tracker.
pub fn first_action() -> (action: CycleAction)
    ensures
        action == CycleAction::Fetch(Feed::Tracker),
{
    CycleAction::Fetch(Feed::Tracker)
}

/// Decides what a cycle does after a feed. A feed's failure is its own:
/// whether the feed delivered or failed, the feeds behind it are fetched
/// all the same, and the cycle is closed after the last, so that a cycle
/// with a failed feed still reports what the others brought.
pub fn action_after(feed: Feed, delivered: bool) -> (action: CycleAction)
    ensures
        action == action_following(feed),
{
    match feed {
        Feed::Tracker => CycleAction::Fetch(Feed::Buylist),
        Feed::Buylist => CycleAction::Fetch(Feed::CardData),
        Feed::CardData => CycleAction::Close,
    }
}

/// The identifier of the version record that a source keeps for a dataset's
/// version.
pub open spec fn source_version_id(
    source_id: Seq<char>,
    dataset: Seq<char>,
    version: Seq<char>,
) -> Seq<char> {
    source_id + ":"@ + dataset + ":"@ + version
}

/// The ledger after a source recorded a build: a version record written for
/// it, and the dataset's sync state moved to it.
pub open spec fn source_recorded(
    ledger: LedgerFacts,
    source_id: Seq<char>,
    dataset: Seq<char>,
    version: Seq<char>,
    record_count: u64,
    hash: Option<Seq<char>>,
    now: Seq<char>,
) -> LedgerFacts {
    LedgerFacts {
        versions: with_version(
            ledger.versions,
            VersionFact {
                id: source_version_id(source_id, dataset, version),
                source_id,
                dataset,
                version,
                state_hash: hash,
                record_count,
                created_at: now,
            },
        ),
        states: with_state(
            ledger.states,
            SyncStateFact { dataset, current_version: Some(version), state_hash: hash, synced_at: now },
        ),
        ..ledger
    }
}

/// Records that a source delivered a build of a dataset: writes a version
/// record with its record count, and moves the dataset's sync state to the
/// build.
pub fn write_source_sync_record(
    ledger: &mut Ledger,
    source_id: &str,
    dataset_name: &str,
    build_version: &str,
    record_count: u64,
    state_hash: Option<&str>,
    now: &str,
)
    ensures
        final(ledger)@ == source_recorded(
            old(ledger)@,
            source_id@,
            dataset_name@,
            build_version@,
            record_count,
            match state_hash {
                Some(hash) => Some(hash@),
                None => None,
            },
            now@,
        ),
{
    let mut id = source_id.to_owned();
    id.append(":");
    id.append(dataset_name);
    id.append(":");
    id.append(build_version);
    let hash_text = match state_hash {
        Some(hash) => Some(hash.to_owned()),
        None => None,
    };
    let hash_copy = match state_hash {
        Some(hash) => Some(hash.to_owned()),
        None => None,
    };
    ledger.put_version(
        VersionRecord {
            id,
            source_id: source_id.to_owned(),
            dataset: dataset_name.to_owned(),
            version: build_version.to_owned(),
            state_hash: hash_text,
            record_count,
            created_at: now.to_owned(),
        },
    );
    ledger.put_state(
        SyncState {
            dataset: dataset_name.to_owned(),
            current_version: Some(build_version.to_owned()),
            state_hash: hash_copy,
            synced_at: now.to_owned(),
        },
    );
}

/// What a pass over the card-data provider's cards counts.
#[derive(Clone, Copy, PartialEq, Eq, Structural, Debug)]
pub struct OracleCounts {
    pub scanned: u64,
    pub updated: u64,
    pub unchanged: u64,
}

/// One refresh cycle over the three sources: when it started, the sync
/// version and capture day it writes under, and what it has counted so far.
#[derive(Debug)]
pub struct SyncCycle {
    pub started_at: String,
    pub sync_version: String,
    pub captured_ymd: i64,
    pub tcg: TcgCounts,
    pub ck: CkPriceSyncResult,
    pub oracle: OracleCounts,
}

/// What a full refresh cycle reports.
#[derive(Debug)]
pub struct FullSourceSyncResult {
    pub started_at: String,
    pub finished_at: String,
    pub sync_version: String,
    pub scryfall_scanned: u64,
    pub scryfall_updated: u64,
    pub scryfall_unchanged: u64,
    pub scryfall_price_snapshots: u64,
    pub tcg_sets_scanned: u64,
    pub tcg_products_matched: u64,
    pub tcg_price_upserts: u64,
    pub ck_scanned: u64,
    pub ck_upserted_buylist: u64,
    pub ck_upserted_sell: u64,
}

/// Starts a cycle at a given time, under a given sync version and capture
/// day, with nothing counted.
pub fn start_sync_cycle(started_at: String, sync_version: String, captured_ymd: i64) -> (cycle:
    SyncCycle)
    ensures
        cycle.started_at@ == started_at@,
        cycle.sync_version@ == sync_version@,
        cycle.captured_ymd == captured_ymd,
        cycle.tcg == (TcgCounts { sets_scanned: 0, products_matched: 0, price_upserts: 0 }),
        cycle.ck == (CkPriceSyncResult {
            scanned: 0,
            upserted_buylist: 0,
            upserted_sell: 0,
            skipped: 0,
        }),
        cycle.oracle == (OracleCounts { scanned: 0, updated: 0, unchanged: 0 }),
{
    SyncCycle {
        started_at,
        sync_version,
        captured_ymd,
        tcg: TcgCounts { sets_scanned: 0, products_matched: 0, price_upserts: 0 },
        ck: CkPriceSyncResult { scanned: 0, upserted_buylist: 0, upserted_sell: 0, skipped: 0 },
        oracle: OracleCounts { scanned: 0, updated: 0, unchanged: 0 },
    }
}

/// Starts a cycle now. The cycle's start is the clock's time; its sync
/// version and capture day are those of the date in that time, and so the
/// version is `v` and six digits and the day is above zero.
pub fn begin_sync_cycle() -> (cycle: SyncCycle)
    ensures
        clock_stamped(cycle.started_at@, cycle.sync_version@, cycle.captured_ymd),
        cycle.tcg == (TcgCounts { sets_scanned: 0, products_matched: 0, price_upserts: 0 }),
        cycle.ck == (CkPriceSyncResult {
            scanned: 0,
            upserted_buylist: 0,
            upserted_sell: 0,
            skipped: 0,
        }),
        cycle.oracle == (OracleCounts { scanned: 0, updated: 0, unchanged: 0 }),
{
    let stamp = stamp_now();
    start_sync_cycle(stamp.at, stamp.sync_version, stamp.captured_ymd)
}

/// The rows after the first `n` products of a set.
pub open spec fn set_merged(
    rows: Seq<PriceFact>,
    printings: Seq<PrintingFact>,
    set: TcgSetFact,
    n: int,
    version: Seq<char>,
    ymd: i64,
    at: Seq<char>,
) -> Seq<PriceFact>
    decreases n,
{
    if n <= 0 {
        rows
    } else {
        product_merged(
            set_merged(rows, printings, set, n - 1, version, ymd, at),
            printings,
            set,
            set.products[n - 1],
            version,
            ymd,
            at,
        )
    }
}

/// The counts after the first `n` products of a set.
pub open spec fn set_counted(
    counts: TcgCounts,
    printings: Seq<PrintingFact>,
    set: TcgSetFact,
    n: int,
) -> TcgCounts
    decreases n,
{
    if n <= 0 {
        counts
    } else {
        product_counted(
            set_counted(counts, printings, set, n - 1),
            printings,
            set,
            set.products[n - 1],
        )
    }
}

/// The counts once one more set was scanned.
pub open spec fn set_scanned(counts: TcgCounts) -> TcgCounts {
    TcgCounts { sets_scanned: (counts.sets_scanned + 1) as u64, ..counts }
}

/// The counts stay within three price writes per product.
pub proof fn lemma_set_counted_bound(
    counts: TcgCounts,
    printings: Seq<PrintingFact>,
    set: TcgSetFact,
    n: int,
)
    requires
        0 <= n <= set.products.len(),
        counts.products_matched + n <= u64::MAX,
        counts.price_upserts + 3 * n <= u64::MAX,
    ensures
        set_counted(counts, printings, set, n).products_matched <= counts.products_matched + n,
        set_counted(counts, printings, set, n).price_upserts <= counts.price_upserts + 3 * n,
        set_counted(counts, printings, set, n).sets_scanned == counts.sets_scanned,
    decreases n,
{
    if n > 0 {
        lemma_set_counted_bound(counts, printings, set, n - 1);
    }
}

/// Takes in what the tracker delivered for one set, or that it delivered
/// nothing. The set counts as scanned either way; where it was delivered,
/// each of its products is merged in turn under the cycle's sync version.
pub fn merge_tcg_set(catalog: &mut Catalog, cycle: &mut SyncCycle, fetched: Option<&TcgSet>)
    requires
        old(cycle).tcg.sets_scanned < u64::MAX,
        fetched is Some ==> old(cycle).tcg.products_matched + fetched->0@.products.len()
            <= u64::MAX,
        fetched is Some ==> old(cycle).tcg.price_upserts + 3 * fetched->0@.products.len()
            <= u64::MAX,
    ensures
        final(cycle).started_at == old(cycle).started_at,
        final(cycle).sync_version == old(cycle).sync_version,
        final(cycle).captured_ymd == old(cycle).captured_ymd,
        final(cycle).ck == old(cycle).ck,
        final(cycle).oracle == old(cycle).oracle,
        match fetched {
            Some(set) => {
                &&& final(cycle).tcg == set_counted(
                    set_scanned(old(cycle).tcg),
                    old(catalog)@.printings,
                    set@,
                    set@.products.len() as int,
                )
                &&& final(catalog)@ == (CatalogFacts {
                    prices: set_merged(
                        old(catalog)@.prices,
                        old(catalog)@.printings,
                        set@,
                        set@.products.len() as int,
                        old(cycle).sync_version@,
                        old(cycle).captured_ymd,
                        old(cycle).started_at@,
                    ),
                    ..old(catalog)@
                })
            },
            None => final(cycle).tcg == set_scanned(old(cycle).tcg) && final(catalog)@ == old(
                catalog,
            )@,
        },
{
    cycle.tcg.sets_scanned = cycle.tcg.sets_scanned + 1;
    match fetched {
        Some(set) => {
            let ghost start = cycle.tcg;
            let mut counts = cycle.tcg;
            let mut i: usize = 0;
            while i < set.products.len()
                invariant
                    i <= set@.products.len(),
                    set@.products.len() == set.products@.len(),
                    start.products_matched + set@.products.len() <= u64::MAX,
                    start.price_upserts + 3 * set@.products.len() <= u64::MAX,
                    counts == set_counted(start, old(catalog)@.printings, set@, i as int),
                    catalog@ == (CatalogFacts {
                        prices: set_merged(
                            old(catalog)@.prices,
                            old(catalog)@.printings,
                            set@,
                            i as int,
                            cycle.sync_version@,
                            cycle.captured_ymd,
                            cycle.started_at@,
                        ),
                        ..old(catalog)@
                    }),
                decreases set@.products.len() - i,
            {
                proof {
                    lemma_set_counted_bound(start, old(catalog)@.printings, set@, i as int);
                }
                merge_tcg_product(
                    catalog,
                    &mut counts,
                    set,
                    i,
                    cycle.sync_version.as_str(),
                    cycle.captured_ymd,
                    cycle.started_at.as_str(),
                );
                i = i + 1;
            }
            cycle.tcg = counts;
        },
        None => {},
    }
}

/// The printings after each card of a sequence, in turn.
pub open spec fn cards_upserted(
    printings: Seq<PrintingFact>,
    cards: Seq<OracleFact>,
    now: Seq<char>,
) -> Seq<PrintingFact>
    decreases cards.len(),
{
    if cards.len() == 0 {
        printings
    } else {
        let before = cards_upserted(printings, cards.drop_last(), now);
        match normal_card(cards.last(), now) {
            Some(card) => card_upserted(before, card),
            None => before,
        }
    }
}

/// The number of cards of a sequence that were written: those that were
/// new, or differed from what was known, when their turn came.
pub open spec fn cards_changed(printings: Seq<PrintingFact>, cards: Seq<OracleFact>, now: Seq<char>) -> nat
    decreases cards.len(),
{
    if cards.len() == 0 {
        0
    } else {
        let before = cards_upserted(printings, cards.drop_last(), now);
        cards_changed(printings, cards.drop_last(), now) + (match normal_card(cards.last(), now) {
            Some(card) => if card_changes(before, card) {
                1nat
            } else {
                0nat
            },
            None => 0nat,
        })
    }
}

/// The counts after one more card: it counts as scanned, and as updated or
/// unchanged as it was written or not.
pub open spec fn card_counted(counts: OracleCounts, changed: bool) -> OracleCounts {
    OracleCounts {
        scanned: (counts.scanned + 1) as u64,
        updated: if changed {
            (counts.updated + 1) as u64
        } else {
            counts.updated
        },
        unchanged: if changed {
            counts.unchanged
        } else {
            (counts.unchanged + 1) as u64
        },
    }
}

/// Takes over the card data of one card and counts it: as updated where
/// its printing was written, as unchanged where it was not. No price is
/// touched.
pub fn take_oracle_card(
    printings: &mut Printings,
    counts: &mut OracleCounts,
    card: &OracleCard,
    now: &str,
)
    requires
        old(counts).scanned < u64::MAX,
        old(counts).updated + old(counts).unchanged == old(counts).scanned,
    ensures
        final(counts).updated + final(counts).unchanged == final(counts).scanned,
        match normal_card(card@, now@) {
            Some(printing) => *final(counts) == card_counted(
                *old(counts),
                card_changes(old(printings)@, printing),
            ) && final(printings)@ == card_upserted(old(printings)@, printing),
            None => *final(counts) == card_counted(*old(counts), false) && final(printings)@
                == old(printings)@,
        },
{
    let changed = upsert_scryfall_oracle_if_changed(printings, card, now);
    counts.scanned = counts.scanned + 1;
    if changed {
        counts.updated = counts.updated + 1;
    } else {
        counts.unchanged = counts.unchanged + 1;
    }
}

/// Takes over the card data of each card in turn, and counts the cards that
/// were written and those that were not. No price is touched.
pub fn refresh_oracle_cards(printings: &mut Printings, cards: &Vec<OracleCard>, now: &str) -> (counts:
    OracleCounts)
    ensures
        counts.scanned == cards@.len(),
        counts.updated + counts.unchanged == counts.scanned,
        counts.updated == cards_changed(old(printings)@, views(cards@), now@),
        final(printings)@ == cards_upserted(old(printings)@, views(cards@), now@),
{
    let ghost all = views(cards@);
    let ghost start = printings@;
    let mut counts = OracleCounts { scanned: 0, updated: 0, unchanged: 0 };
    let mut i: usize = 0;
    assert(all.take(0) =~= Seq::<OracleFact>::empty());
    while i < cards.len()
        invariant
            i <= cards@.len(),
            all == views(cards@),
            counts.scanned == i,
            counts.updated + counts.unchanged == counts.scanned,
            printings@ == cards_upserted(start, all.take(i as int), now@),
            counts.updated == cards_changed(start, all.take(i as int), now@),
        decreases cards@.len() - i,
    {
        proof {
            assert(all.take(i + 1).drop_last() =~= all.take(i as int));
            assert(all.take(i + 1).last() == cards@[i as int]@);
        }
        take_oracle_card(printings, &mut counts, &cards[i], now);
        i = i + 1;
    }
    assert(all.take(i as int) =~= all);
    counts
}

/// The state hash that a cycle leaves: that of the rows which stand under
/// the cycle's version when it closes.
pub open spec fn cycle_hash(
    prices: Seq<PriceFact>,
    printings: Seq<PrintingFact>,
    version: Seq<char>,
) -> Seq<char> {
    state_hash(CATALOG_DATASET_DEFAULT@, Some(version), prices, printings)
}

/// The ledger at the end of a cycle: one version record per source, each
/// source's dataset moved to the cycle's version, and the catalog's own
/// sync state moved to it, with the hash of the rows under that version.
pub open spec fn cycle_recorded(
    ledger: LedgerFacts,
    prices: Seq<PriceFact>,
    printings: Seq<PrintingFact>,
    version: Seq<char>,
    scryfall_scanned: u64,
    tcg_matched: u64,
    ck_scanned: u64,
    now: Seq<char>,
) -> LedgerFacts {
    let first = source_recorded(
        ledger,
        SCRYFALL_SOURCE_ID@,
        SCRYFALL_LIVE_DATASET@,
        version,
        scryfall_scanned,
        None,
        now,
    );
    let second = source_recorded(
        first,
        TCGTRACKING_SOURCE_ID@,
        TCGTRACKING_LIVE_DATASET@,
        version,
        tcg_matched,
        None,
        now,
    );
    let third = source_recorded(
        second,
        CK_SOURCE_ID@,
        CK_LIVE_DATASET@,
        version,
        ck_scanned,
        None,
        now,
    );
    sync_state_written(
        third,
        prices,
        CATALOG_DATASET_DEFAULT@,
        Some(version),
        Some(cycle_hash(prices, printings, version)),
        now,
    )
}

/// Closes a cycle at a given time: records one version per source, moves
/// the catalog's version pointer to the cycle's version, stores with it the
/// hash of the rows that stand under that version, and reports what the
/// cycle counted.
pub fn finish_sync_cycle(catalog: &mut Catalog, cycle: SyncCycle, now: &str, finished_at: String) -> (report:
    FullSourceSyncResult)
    ensures
        final(catalog)@ == (CatalogFacts {
            ledger: cycle_recorded(
                old(catalog)@.ledger,
                old(catalog)@.prices,
                old(catalog)@.printings,
                cycle.sync_version@,
                cycle.oracle.scanned,
                cycle.tcg.products_matched,
                cycle.ck.scanned,
                now@,
            ),
            ..old(catalog)@
        }),
        state_of(final(catalog)@.ledger.states, CATALOG_DATASET_DEFAULT@) == Some(
            SyncStateFact {
                dataset: CATALOG_DATASET_DEFAULT@,
                current_version: Some(cycle.sync_version@),
                state_hash: Some(
                    state_hash(
                        CATALOG_DATASET_DEFAULT@,
                        Some(cycle.sync_version@),
                        final(catalog)@.prices,
                        final(catalog)@.printings,
                    ),
                ),
                synced_at: now@,
            },
        ),
        report.started_at@ == cycle.started_at@,
        report.finished_at@ == finished_at@,
        report.sync_version@ == cycle.sync_version@,
        report.scryfall_scanned == cycle.oracle.scanned,
        report.scryfall_updated == cycle.oracle.updated,
        report.scryfall_unchanged == cycle.oracle.unchanged,
        report.scryfall_price_snapshots == 0,
        report.tcg_sets_scanned == cycle.tcg.sets_scanned,
        report.tcg_products_matched == cycle.tcg.products_matched,
        report.tcg_price_upserts == cycle.tcg.price_upserts,
        report.ck_scanned == cycle.ck.scanned,
        report.ck_upserted_buylist == cycle.ck.upserted_buylist,
        report.ck_upserted_sell == cycle.ck.upserted_sell,
{
    let version = cycle.sync_version.as_str();
    write_source_sync_record(
        &mut catalog.ledger,
        SCRYFALL_SOURCE_ID,
        SCRYFALL_LIVE_DATASET,
        version,
        cycle.oracle.scanned,
        None,
        now,
    );
    write_source_sync_record(
        &mut catalog.ledger,
        TCGTRACKING_SOURCE_ID,
        TCGTRACKING_LIVE_DATASET,
        version,
        cycle.tcg.products_matched,
        None,
        now,
    );
    write_source_sync_record(
        &mut catalog.ledger,
        CK_SOURCE_ID,
        CK_LIVE_DATASET,
        version,
        cycle.ck.scanned,
        None,
        now,
    );
    let hash = hash_state(
        CATALOG_DATASET_DEFAULT,
        &Some(cycle.sync_version.clone()),
        &catalog.prices,
        &catalog.printings,
    );
    let ghost before = catalog@.ledger.states;
    write_catalog_sync_state(
        catalog,
        CATALOG_DATASET_DEFAULT,
        Some(version),
        Some(hash.as_str()),
        now,
    );
    proof {
        law_written_state_reads_back(
            before,
            SyncStateFact {
                dataset: CATALOG_DATASET_DEFAULT@,
                current_version: Some(cycle.sync_version@),
                state_hash: Some(hash@),
                synced_at: now@,
            },
        );
    }
    FullSourceSyncResult {
        started_at: cycle.started_at.clone(),
        finished_at,
        sync_version: cycle.sync_version.clone(),
        scryfall_scanned: cycle.oracle.scanned,
        scryfall_updated: cycle.oracle.updated,
        scryfall_unchanged: cycle.oracle.unchanged,
        scryfall_price_snapshots: 0,
        tcg_sets_scanned: cycle.tcg.sets_scanned,
        tcg_products_matched: cycle.tcg.products_matched,
        tcg_price_upserts: cycle.tcg.price_upserts,
        ck_scanned: cycle.ck.scanned,
        ck_upserted_buylist: cycle.ck.upserted_buylist,
        ck_upserted_sell: cycle.ck.upserted_sell,
    }
}

} // verus!
