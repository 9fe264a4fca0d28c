use crate::catalog::{catalog_version_id, total_records, CatalogFacts};
use crate::count::priced_count;
use crate::error::ErrorFact;
use crate::patch::{
    local_version, normal_patch, patch_applied, patch_outcome, patch_refusal, patch_report,
    patch_staged, NormalPatchFact, PatchFact,
};
use crate::price::{reading_is_valid, Channel, Readings};
use crate::rank::Rank;
use crate::snapshot::{
    snapshot_applied, snapshot_refusal, snapshot_report, NormalSnapshotFact,
};
use crate::record::first_fault;
use crate::hash::{hashed_lines, state_hash};
use crate::model::{ascending, lemma_ascending_unique};
use crate::printing::{printing_of, printings_sorted, PrintingFact};
use crate::rank::{lemma_bytes_rank_flip, lemma_text_rank_same, text_rank};
use crate::ledger::{
    current_version_of, law_written_state_reads_back, law_written_version_reads_back, state_of,
    version_of, SyncStateFact, VersionFact, SCRYFALL_SOURCE_ID,
};
use crate::text::{is_trim, lemma_trim_of_trim, lemma_trimmed_is_trim, trimmed};
use crate::snapshot::{
    committed, normal_snapshot, snapshot_outcome, snapshot_staged, staged_total, ApplyFact,
    SnapshotFact,
};
use crate::store::{
    holds, key_rank, law_stored_means_present, lemma_key_rank_flip, lemma_key_rank_same,
    lemma_position, lemma_position_found, lemma_upserted_wf, observed, position, rows_sorted,
    rows_wf, stored, upserted, PriceFact, PriceKey,
};
use vstd::prelude::*;
use vstd::utf8::*;

verus! {

/// After a fact is written, the fact stored under its key is the written
/// one, merged into what was stored there before.
pub proof fn lemma_upserted_stored(rows: Seq<PriceFact>, fact: PriceFact)
    ensures
        stored(upserted(rows, fact), fact.key()) == Some(
            match stored(rows, fact.key()) {
                Some(known) => known.absorbed(fact),
                None => fact,
            },
        ),
{
    let key = fact.key();
    let at = position(rows, key);
    let out = upserted(rows, fact);
    lemma_position(rows, key);
    lemma_key_rank_same(key, key);
    assert forall|j: int| 0 <= j < at implies key_rank(#[trigger] out[j].key(), key)
        == Rank::Before by {
        assert(out[j] == rows[j]);
    }
    assert(out[at].key() == key);
    lemma_position_found(out, key, at);
}

/// Whether an observation reports nothing usable: each of its prices is
/// missing, non-finite or negative, and so is its quantity cap.
pub open spec fn reports_nothing(readings: Readings) -> bool {
    &&& readings.tcg_low is Some ==> !reading_is_valid(readings.tcg_low->0)
    &&& readings.tcg_market is Some ==> !reading_is_valid(readings.tcg_market->0)
    &&& readings.tcg_high is Some ==> !reading_is_valid(readings.tcg_high->0)
    &&& readings.ck_sell is Some ==> !reading_is_valid(readings.ck_sell->0)
    &&& readings.ck_buylist is Some ==> !reading_is_valid(readings.ck_buylist->0)
    &&& readings.ck_buylist_quantity_cap is Some ==> readings.ck_buylist_quantity_cap->0 < 0
}

/// The fact that an observation makes.
pub open spec fn observation(
    printing_id: Seq<char>,
    condition_id: Option<i64>,
    finish_id: Option<i64>,
    readings: Readings,
    sync_version: Seq<char>,
    captured_ymd: i64,
    captured_at: Seq<char>,
) -> PriceFact {
    PriceFact {
        printing_id,
        condition_id,
        finish_id,
        sync_version,
        channels: readings.cleaned(),
        captured_ymd,
        captured_at,
    }
}

/// No-op law: an observation whose six values are all absent or invalid
/// neither creates a row nor changes one.
pub proof fn law_empty_observation_changes_nothing(
    rows: Seq<PriceFact>,
    printing_id: Seq<char>,
    condition_id: Option<i64>,
    finish_id: Option<i64>,
    readings: Readings,
    sync_version: Seq<char>,
    captured_ymd: i64,
    captured_at: Seq<char>,
)
    requires
        reports_nothing(readings),
    ensures
        observed(
            rows,
            observation(
                printing_id,
                condition_id,
                finish_id,
                readings,
                sync_version,
                captured_ymd,
                captured_at,
            ),
        ) == rows,
{
}

/// Coalesce law: when one observation fills channel `a` and another, for
/// the same key, fills channel `b`, the stored row has both channels
/// filled afterwards, whichever of the two came first. A channel that only
/// one of the two fills holds that observation's price.
pub proof fn law_observations_coalesce(
    rows: Seq<PriceFact>,
    first: PriceFact,
    second: PriceFact,
    a: Channel,
    b: Channel,
)
    requires
        rows_wf(rows),
        first.key() == second.key(),
        first.channels.get(a) is Some,
        second.channels.get(b) is Some,
    ensures
        ({
            let one_way = stored(observed(observed(rows, first), second), first.key());
            let other_way = stored(observed(observed(rows, second), first), first.key());
            &&& one_way is Some
            &&& other_way is Some
            &&& one_way->0.channels.get(a) is Some
            &&& one_way->0.channels.get(b) is Some
            &&& other_way->0.channels.get(a) is Some
            &&& other_way->0.channels.get(b) is Some
            &&& second.channels.get(a) is None ==> one_way->0.channels.get(a)
                == first.channels.get(a) && other_way->0.channels.get(a) == first.channels.get(a)
            &&& first.channels.get(b) is None ==> one_way->0.channels.get(b)
                == second.channels.get(b) && other_way->0.channels.get(b) == second.channels.get(
                b,
            )
        }),
{
    lemma_upserted_stored(rows, first);
    lemma_upserted_stored(upserted(rows, first), second);
    lemma_upserted_stored(rows, second);
    lemma_upserted_stored(upserted(rows, second), first);
}

/// Version-chain guard: a patch is refused with a version mismatch, and the
/// catalog stays as it was, whenever the replica's current version is not
/// the patch's base version; so too when the replica has no version at all,
/// whatever the patch names as its base.
pub proof fn law_patch_needs_current_version(
    catalog: CatalogFacts,
    patch: NormalPatchFact,
    now: Seq<char>,
    today: i64,
    patch_id: Seq<char>,
    history_id: Seq<char>,
)
    requires
        local_version(catalog, patch.dataset) != Some(patch.from_version),
    ensures
        patch_refusal(catalog, patch) == Some(
            ErrorFact::VersionMismatch {
                local: local_version(catalog, patch.dataset),
                expected: patch.from_version,
            },
        ),
        patch_applied(catalog, patch, now, today, patch_id, history_id) == catalog,
{
}

/// A refused patch request, whatever the reason, leaves the catalog as it
/// was.
pub proof fn law_refused_patch_changes_nothing(
    catalog: CatalogFacts,
    input: PatchFact,
    now: Seq<char>,
    today: i64,
    patch_id: Seq<char>,
    history_id: Seq<char>,
)
    requires
        patch_outcome(catalog, input, now, today, patch_id, history_id).0 is Err,
    ensures
        patch_outcome(catalog, input, now, today, patch_id, history_id).1 == catalog,
{
}

/// Hash-mismatch guard: a snapshot that comes with a hash which its rows do
/// not meet is refused with a hash mismatch, and the catalog stays as it
/// was.
pub proof fn law_snapshot_needs_matching_hash(
    catalog: CatalogFacts,
    snapshot: NormalSnapshotFact,
    now: Seq<char>,
    today: i64,
    patch_id: Seq<char>,
    history_id: Seq<char>,
)
    requires
        first_fault(snapshot.records) is None,
        snapshot.expected_hash is Some,
        snapshot.expected_hash->0 != snapshot_report(catalog, snapshot, today).state_hash,
    ensures
        snapshot_refusal(catalog, snapshot, today) == Some(
            ErrorFact::HashMismatch {
                expected: snapshot.expected_hash->0,
                computed: snapshot_report(catalog, snapshot, today).state_hash,
            },
        ),
        snapshot_applied(catalog, snapshot, now, today, patch_id, history_id) == catalog,
{
}

/// The order in which price rows are kept.
pub open spec fn row_before() -> spec_fn(PriceFact, PriceFact) -> bool {
    |a: PriceFact, b: PriceFact| key_rank(a.key(), b.key()) == Rank::Before
}

/// The order in which printings are kept.
pub open spec fn printing_before() -> spec_fn(PrintingFact, PrintingFact) -> bool {
    |a: PrintingFact, b: PrintingFact| text_rank(a.id, b.id) == Rank::Before
}

/// Sorted rows are determined by the set of rows they hold: two stores with
/// the same rows hold them in the same order, however they were filled.
pub proof fn lemma_sorted_rows_unique(a: Seq<PriceFact>, b: Seq<PriceFact>)
    requires
        rows_sorted(a),
        rows_sorted(b),
        a.to_set() == b.to_set(),
    ensures
        a == b,
{
    let before = row_before();
    assert forall|x: PriceFact| !#[trigger] before(x, x) by {
        lemma_key_rank_same(x.key(), x.key());
    }
    assert forall|x: PriceFact, y: PriceFact| #[trigger] before(x, y) implies !before(y, x) by {
        lemma_key_rank_flip(x.key(), y.key());
    }
    assert(ascending(a, before)) by {
        assert forall|i: int, j: int| 0 <= i < j < a.len() implies before(
            #[trigger] a[i],
            #[trigger] a[j],
        ) by {
            assert(key_rank(a[i].key(), a[j].key()) == Rank::Before);
        }
    }
    assert(ascending(b, before)) by {
        assert forall|i: int, j: int| 0 <= i < j < b.len() implies before(
            #[trigger] b[i],
            #[trigger] b[j],
        ) by {
            assert(key_rank(b[i].key(), b[j].key()) == Rank::Before);
        }
    }
    lemma_ascending_unique(a, b, before);
}

/// Sorted printings are determined by the set of printings they hold.
pub proof fn lemma_sorted_printings_unique(a: Seq<PrintingFact>, b: Seq<PrintingFact>)
    requires
        printings_sorted(a),
        printings_sorted(b),
        a.to_set() == b.to_set(),
    ensures
        a == b,
{
    let before = printing_before();
    assert forall|x: PrintingFact| !#[trigger] before(x, x) by {
        lemma_text_rank_same(x.id, x.id);
    }
    assert forall|x: PrintingFact, y: PrintingFact| #[trigger] before(x, y) implies !before(
        y,
        x,
    ) by {
        lemma_bytes_rank_flip(encode_utf8(x.id), encode_utf8(y.id));
    }
    assert(ascending(a, before)) by {
        assert forall|i: int, j: int| 0 <= i < j < a.len() implies before(
            #[trigger] a[i],
            #[trigger] a[j],
        ) by {
            assert(text_rank(a[i].id, a[j].id) == Rank::Before);
        }
    }
    assert(ascending(b, before)) by {
        assert forall|i: int, j: int| 0 <= i < j < b.len() implies before(
            #[trigger] b[i],
            #[trigger] b[j],
        ) by {
            assert(text_rank(b[i].id, b[j].id) == Rank::Before);
        }
    }
    lemma_ascending_unique(a, b, before);
}

/// The hashed lines of rows depend on the printings only through what is
/// found for each printing identifier.
pub proof fn lemma_hashed_lines_by_lookup(
    rows: Seq<PriceFact>,
    version: Seq<char>,
    one: Seq<PrintingFact>,
    other: Seq<PrintingFact>,
)
    requires
        forall|i: int|
            0 <= i < rows.len() ==> printing_of(one, (#[trigger] rows[i]).printing_id)
                == printing_of(other, rows[i].printing_id),
    ensures
        hashed_lines(rows, version, one) == hashed_lines(rows, version, other),
    decreases rows.len(),
{
    if rows.len() > 0 {
        let front = rows.drop_last();
        assert forall|i: int| 0 <= i < front.len() implies printing_of(
            one,
            (#[trigger] front[i]).printing_id,
        ) == printing_of(other, front[i].printing_id) by {
            assert(front[i] == rows[i]);
        }
        lemma_hashed_lines_by_lookup(front, version, one, other);
        assert(rows.last() == rows[rows.len() - 1]);
    }
}

/// Hash determinism: two replicas that hold the same set of price rows and
/// know the same printings have the same state hash, in whatever order
/// their rows and printings were written.
pub proof fn law_hash_ignores_insertion_order(
    dataset: Seq<char>,
    version: Option<Seq<char>>,
    rows: Seq<PriceFact>,
    other_rows: Seq<PriceFact>,
    printings: Seq<PrintingFact>,
    other_printings: Seq<PrintingFact>,
)
    requires
        rows_wf(rows),
        rows_wf(other_rows),
        rows.to_set() == other_rows.to_set(),
        forall|id: Seq<char>|
            #[trigger] printing_of(printings, id) == printing_of(other_printings, id),
    ensures
        state_hash(dataset, version, rows, printings) == state_hash(
            dataset,
            version,
            other_rows,
            other_printings,
        ),
{
    lemma_sorted_rows_unique(rows, other_rows);
    if version is Some {
        lemma_hashed_lines_by_lookup(rows, version->0, printings, other_printings);
    }
}

/// Writing a fact leaves what is stored under every other key as it was.
pub proof fn lemma_upserted_keeps_other_keys(rows: Seq<PriceFact>, fact: PriceFact, key: PriceKey)
    requires
        rows_wf(rows),
        !fact.channels.is_empty(),
        key != fact.key(),
    ensures
        stored(upserted(rows, fact), key) == stored(rows, key),
{
    let out = upserted(rows, fact);
    let at = position(rows, fact.key());
    lemma_position(rows, fact.key());
    lemma_upserted_wf(rows, fact);
    law_stored_means_present(rows, key);
    law_stored_means_present(out, key);
    lemma_position(rows, key);
    lemma_position(out, key);
    if holds(rows, key) {
        let i = position(rows, key);
        // the row stands in `out` too, at its own place or one further back
        if holds(rows, fact.key()) || i < at {
            assert(out[i] == rows[i]);
        } else {
            assert(out[i + 1] == rows[i]);
        }
    } else if holds(out, key) {
        let j = position(out, key);
        // a row with this key in `out` is a row of `rows`
        if holds(rows, fact.key()) {
            if j != at {
                assert(out[j] == rows[j]);
            }
            assert(rows[j].key() == key);
        } else if j < at {
            assert(out[j] == rows[j]);
        } else {
            assert(j != at);
            assert(out[j] == rows[j - 1]);
        }
    }
}

/// No observation clears a channel: a price that is stored under a key
/// stays stored under it, whatever is observed next, unless the observation
/// brings a newer price for that very key and channel.
pub proof fn law_observation_never_clears(
    rows: Seq<PriceFact>,
    fact: PriceFact,
    key: PriceKey,
    channel: Channel,
)
    requires
        rows_wf(rows),
        stored(rows, key) is Some,
        stored(rows, key)->0.channels.get(channel) is Some,
    ensures
        stored(observed(rows, fact), key) is Some,
        stored(observed(rows, fact), key)->0.channels.get(channel) is Some,
        key != fact.key() || fact.channels.get(channel) is None ==> stored(
            observed(rows, fact),
            key,
        )->0.channels.get(channel) == stored(rows, key)->0.channels.get(channel),
{
    if !fact.channels.is_empty() {
        if key == fact.key() {
            lemma_upserted_stored(rows, fact);
        } else {
            lemma_upserted_keeps_other_keys(rows, fact, key);
        }
    }
}

/// After a snapshot or patch was applied, the dataset's sync state names
/// the new version and holds the hash of exactly the rows now under it.
pub proof fn law_sync_state_holds_the_hash(
    staged: CatalogFacts,
    report: ApplyFact,
    now: Seq<char>,
    patch_id: Seq<char>,
    history_id: Seq<char>,
)
    ensures
        state_of(
            committed(staged, report, now, patch_id, history_id).ledger.states,
            report.dataset,
        ) == Some(
            SyncStateFact {
                dataset: report.dataset,
                current_version: Some(report.to_version),
                state_hash: Some(report.state_hash),
                synced_at: now,
            },
        ),
        committed(staged, report, now, patch_id, history_id).prices == staged.prices,
        committed(staged, report, now, patch_id, history_id).printings == staged.printings,
{
    law_written_state_reads_back(
        staged.ledger.states,
        SyncStateFact {
            dataset: report.dataset,
            current_version: Some(report.to_version),
            state_hash: Some(report.state_hash),
            synced_at: now,
        },
    );
}

/// Hash determinism, for whole replicas: two replicas that hold the same
/// price rows and the same printings are the same replica, row for row, in
/// whatever order they were filled; so they have the same state hash.
pub proof fn law_same_content_same_state(
    dataset: Seq<char>,
    version: Option<Seq<char>>,
    rows: Seq<PriceFact>,
    other_rows: Seq<PriceFact>,
    printings: Seq<PrintingFact>,
    other_printings: Seq<PrintingFact>,
)
    requires
        rows_wf(rows),
        rows_wf(other_rows),
        printings_sorted(printings),
        printings_sorted(other_printings),
        rows.to_set() == other_rows.to_set(),
        printings.to_set() == other_printings.to_set(),
    ensures
        rows == other_rows,
        printings == other_printings,
        state_hash(dataset, version, rows, printings) == state_hash(
            dataset,
            version,
            other_rows,
            other_printings,
        ),
{
    lemma_sorted_rows_unique(rows, other_rows);
    lemma_sorted_printings_unique(printings, other_printings);
}

/// What a report says is what the replica holds afterwards: the version
/// pointer names the report's version, a query for the number of records
/// gives the report's total, and the version record of that version holds
/// the same total and the report's hash.
pub proof fn law_report_is_what_is_stored(
    staged: CatalogFacts,
    report: ApplyFact,
    now: Seq<char>,
    patch_id: Seq<char>,
    history_id: Seq<char>,
)
    requires
        is_trim(report.to_version),
        report.to_version.len() > 0,
        report.total_records == staged_total(staged, report.dataset, report.to_version) as u64,
    ensures
        ({
            let after = committed(staged, report, now, patch_id, history_id);
            let record = version_of(
                after.ledger.versions,
                catalog_version_id(report.dataset, report.to_version),
            );
            &&& current_version_of(after.ledger.states, report.dataset) == Some(report.to_version)
            &&& total_records(after, report.dataset) as u64 == report.total_records
            &&& record is Some
            &&& record->0.record_count == report.total_records
            &&& record->0.state_hash == Some(report.state_hash)
        }),
{
    law_sync_state_holds_the_hash(staged, report, now, patch_id, history_id);
    lemma_trim_of_trim(report.to_version);
    law_written_version_reads_back(
        staged.ledger.versions,
        VersionFact {
            id: catalog_version_id(report.dataset, report.to_version),
            source_id: SCRYFALL_SOURCE_ID@,
            dataset: report.dataset,
            version: report.to_version,
            state_hash: Some(report.state_hash),
            record_count: priced_count(staged.prices, report.to_version) as u64,
            created_at: now,
        },
    );
}

/// For snapshot requests as they arrive: where a request is applied, the
/// replica afterwards holds what the report says.
pub proof fn law_snapshot_report_is_stored(
    catalog: CatalogFacts,
    input: SnapshotFact,
    now: Seq<char>,
    today: i64,
    patch_id: Seq<char>,
    history_id: Seq<char>,
)
    requires
        snapshot_outcome(catalog, input, now, today, patch_id, history_id).0 is Ok,
    ensures
        ({
            let outcome = snapshot_outcome(catalog, input, now, today, patch_id, history_id);
            let report = outcome.0->Ok_0;
            let record = version_of(
                outcome.1.ledger.versions,
                catalog_version_id(report.dataset, report.to_version),
            );
            &&& report.to_version == trimmed(input.version)
            &&& current_version_of(outcome.1.ledger.states, report.dataset) == Some(
                report.to_version,
            )
            &&& total_records(outcome.1, report.dataset) as u64 == report.total_records
            &&& record is Some
            &&& record->0.record_count == report.total_records
            &&& record->0.state_hash == Some(report.state_hash)
        }),
{
    let snapshot = normal_snapshot(input, now)->Ok_0;
    lemma_trimmed_is_trim(input.version);
    law_report_is_what_is_stored(
        snapshot_staged(catalog, snapshot, today),
        snapshot_report(catalog, snapshot, today),
        now,
        patch_id,
        history_id,
    );
}

/// For patch requests as they arrive: where a request is applied, the
/// replica afterwards holds what the report says.
pub proof fn law_patch_report_is_stored(
    catalog: CatalogFacts,
    input: PatchFact,
    now: Seq<char>,
    today: i64,
    patch_id: Seq<char>,
    history_id: Seq<char>,
)
    requires
        patch_outcome(catalog, input, now, today, patch_id, history_id).0 is Ok,
    ensures
        ({
            let outcome = patch_outcome(catalog, input, now, today, patch_id, history_id);
            let report = outcome.0->Ok_0;
            let record = version_of(
                outcome.1.ledger.versions,
                catalog_version_id(report.dataset, report.to_version),
            );
            &&& report.to_version == trimmed(input.to_version)
            &&& current_version_of(outcome.1.ledger.states, report.dataset) == Some(
                report.to_version,
            )
            &&& total_records(outcome.1, report.dataset) as u64 == report.total_records
            &&& record is Some
            &&& record->0.record_count == report.total_records
            &&& record->0.state_hash == Some(report.state_hash)
        }),
{
    let patch = normal_patch(input, now)->Ok_0;
    lemma_trimmed_is_trim(input.to_version);
    law_report_is_what_is_stored(
        patch_staged(catalog, patch, now, today),
        patch_report(catalog, patch, now, today),
        now,
        patch_id,
        history_id,
    );
}

} // verus!
