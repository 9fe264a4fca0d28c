use crate::catalog::{record_fact, CatalogFacts};
use crate::laws::{
    law_hash_ignores_insertion_order, lemma_sorted_rows_unique, lemma_upserted_keeps_other_keys,
    lemma_upserted_stored,
};
use crate::model::{lemma_first_where, lemma_first_where_found};
use crate::printing::printing_of;
use crate::record::{first_fault, is_faulty, normal_record, NormalFact, RecordFact};
use crate::replay::{
    is_timed, last_image_for, last_record_for, lemma_all_recorded_lookup,
    lemma_hashed_lines_dayless, lemma_known_at_once, lemma_priced_dayless, lemma_records_split,
    lemma_rows_recorded_any_day, rows_recorded,
};
use crate::snapshot::{
    normal_snapshot, snapshot_outcome, snapshot_refusal, snapshot_report, snapshot_staged,
    NormalSnapshotFact, SnapshotFact,
};
use crate::text::normalized;
use crate::store::{
    law_stored_means_present, lemma_filter_wf, lemma_upserted_wf, position, rows_wf, selects,
    stored, without_version, PriceFact, PriceKey,
};
use crate::{CONDITION_NM_ID, FINISH_NONFOIL_ID};
use vstd::prelude::*;

verus! {

/// Whether no two records of a batch are for the same printing.
pub open spec fn distinct_ids(records: Seq<NormalFact>) -> bool {
    forall|i: int, j: int|
        0 <= i < j < records.len() ==> (#[trigger] records[i]).id != (#[trigger] records[j]).id
}

/// Whether one batch is a rearrangement of another: both hold the same
/// records, and each holds a printing once only.
pub open spec fn rearranged(one: Seq<NormalFact>, other: Seq<NormalFact>) -> bool {
    &&& distinct_ids(one)
    &&& distinct_ids(other)
    &&& one.to_set() == other.to_set()
}

/// In a batch that holds each printing once, the last record for a printing
/// is the only one.
pub proof fn lemma_last_record_is_only(records: Seq<NormalFact>, id: Seq<char>)
    requires
        distinct_ids(records),
    ensures
        match last_record_for(records, id) {
            Some(record) => records.contains(record) && record.id == id,
            None => forall|i: int| 0 <= i < records.len() ==> (#[trigger] records[i]).id != id,
        },
        forall|i: int|
            0 <= i < records.len() && (#[trigger] records[i]).id == id ==> last_record_for(
                records,
                id,
            ) == Some(records[i]),
        last_image_for(records, id) == (match last_record_for(records, id) {
            Some(record) => record.image_url,
            None => None,
        }),
    decreases records.len(),
{
    if records.len() > 0 {
        let front = records.drop_last();
        let end = records.len() - 1;
        assert forall|i: int, j: int| 0 <= i < j < front.len() implies (#[trigger] front[i]).id
            != (#[trigger] front[j]).id by {
            assert(front[i] == records[i] && front[j] == records[j]);
        }
        lemma_last_record_is_only(front, id);
        assert(records.last() == records[end]);
        if records.last().id == id {
            assert forall|i: int| 0 <= i < front.len() implies (#[trigger] front[i]).id != id by {
                assert(front[i] == records[i]);
                assert(records[i].id != records[end].id);
            }
        } else {
            match last_record_for(front, id) {
                Some(record) => {
                    let i = choose|i: int| 0 <= i < front.len() && front[i] == record;
                    assert(records[i] == record);
                },
                None => {
                    assert forall|i: int| 0 <= i < records.len() implies (
                    #[trigger] records[i]).id != id by {
                        if i < end {
                            assert(front[i] == records[i]);
                        }
                    }
                },
            }
        }
        assert forall|i: int|
            0 <= i < records.len() && (#[trigger] records[i]).id == id implies last_record_for(
            records,
            id,
        ) == Some(records[i]) by {
            if i < end {
                assert(front[i] == records[i]);
            }
        }
    }
}

/// Rearranged batches have the same record for every printing.
pub proof fn lemma_rearranged_same_record(
    one: Seq<NormalFact>,
    other: Seq<NormalFact>,
    id: Seq<char>,
)
    requires
        rearranged(one, other),
    ensures
        last_record_for(one, id) == last_record_for(other, id),
        last_image_for(one, id) == last_image_for(other, id),
{
    lemma_last_record_is_only(one, id);
    lemma_last_record_is_only(other, id);
    match last_record_for(one, id) {
        Some(record) => {
            assert(one.to_set().contains(record));
            assert(other.contains(record));
            let j = choose|j: int| 0 <= j < other.len() && other[j] == record;
            assert(other[j].id == id);
        },
        None => {
            if last_record_for(other, id) is Some {
                let record = last_record_for(other, id)->0;
                assert(other.to_set().contains(record));
                assert(one.contains(record));
                let i = choose|i: int| 0 <= i < one.len() && one[i] == record;
                assert(one[i].id == id);
            }
        },
    }
}

/// Rearranged batches have their faults together: where one has none, the
/// other has none.
pub proof fn lemma_rearranged_same_faults(one: Seq<NormalFact>, other: Seq<NormalFact>)
    requires
        rearranged(one, other),
        first_fault(one) is None,
    ensures
        first_fault(other) is None,
{
    lemma_first_where(one, is_faulty());
    assert forall|j: int| 0 <= j < other.len() implies !is_faulty()(#[trigger] other[j]) by {
        assert(other.contains(other[j]));
        assert(other.to_set().contains(other[j]));
        assert(one.contains(other[j]));
        let i = choose|i: int| 0 <= i < one.len() && one[i] == other[j];
        assert(!is_faulty()(one[i]));
    }
    lemma_first_where_found(other, is_faulty(), other.len() as int);
}

/// The fact that the records of a batch leave under a key: that of the
/// last record for the key's printing, where the key is one of the
/// version's near-mint, non-foil rows.
pub open spec fn recorded_at(
    records: Seq<NormalFact>,
    version: Seq<char>,
    today: i64,
    key: PriceKey,
) -> Option<PriceFact> {
    if key.sync_version == version && key.condition == CONDITION_NM_ID && key.finish
        == FINISH_NONFOIL_ID {
        match last_record_for(records, key.printing_id) {
            Some(record) => Some(record_fact(record, version, today)),
            None => None,
        }
    } else {
        None
    }
}

/// Where a version has no rows yet, writing a batch that holds each
/// printing once leaves under every key the fact of the record for it, and
/// leaves every other key as it was.
pub proof fn lemma_rows_recorded_stored(
    rows: Seq<PriceFact>,
    records: Seq<NormalFact>,
    version: Seq<char>,
    today: i64,
    key: PriceKey,
)
    requires
        rows_wf(rows),
        forall|i: int| 0 <= i < rows.len() ==> (#[trigger] rows[i]).sync_version != version,
        first_fault(records) is None,
        distinct_ids(records),
    ensures
        rows_wf(rows_recorded(rows, records, version, today)),
        stored(rows_recorded(rows, records, version, today), key) == (match recorded_at(
            records,
            version,
            today,
            key,
        ) {
            Some(fact) => Some(fact),
            None => stored(rows, key),
        }),
    decreases records.len(),
{
    if records.len() > 0 {
        let front = records.drop_last();
        let last = records.last();
        let end = records.len() - 1;
        assert(last == records[end]);
        lemma_first_where(records, is_faulty());
        assert forall|j: int| 0 <= j < front.len() implies !is_faulty()(#[trigger] front[j]) by {
            assert(front[j] == records[j]);
        }
        lemma_first_where_found(front, is_faulty(), front.len() as int);
        assert forall|i: int, j: int| 0 <= i < j < front.len() implies (#[trigger] front[i]).id
            != (#[trigger] front[j]).id by {
            assert(front[i] == records[i] && front[j] == records[j]);
        }
        let fact = record_fact(last, version, today);
        let before = rows_recorded(rows, front, version, today);
        assert(!is_faulty()(records[end]));
        assert(!fact.channels.is_empty());
        lemma_rows_recorded_stored(rows, front, version, today, key);
        lemma_rows_recorded_stored(rows, front, version, today, fact.key());
        lemma_upserted_wf(before, fact);
        lemma_last_record_is_only(records, last.id);
        lemma_last_record_is_only(front, last.id);
        if key == fact.key() {
            // nothing stood under the key: the version had no rows, and no
            // earlier record is for this printing
            assert(last_record_for(front, last.id) is None) by {
                if last_record_for(front, last.id) is Some {
                    let record = last_record_for(front, last.id)->0;
                    let i = choose|i: int| 0 <= i < front.len() && front[i] == record;
                    assert(front[i] == records[i]);
                    assert(records[i].id != records[end].id);
                }
            }
            assert(stored(rows, key) is None) by {
                law_stored_means_present(rows, key);
                if stored(rows, key) is Some {
                    assert(rows[position(rows, key)].sync_version == version);
                }
            }
            lemma_upserted_stored(before, fact);
        } else {
            lemma_upserted_keeps_other_keys(before, fact, key);
        }
    }
}

/// Well-formed rows under whose every key the same fact is stored are the
/// same rows.
pub proof fn lemma_same_lookups_same_rows(one: Seq<PriceFact>, other: Seq<PriceFact>)
    requires
        rows_wf(one),
        rows_wf(other),
        forall|key: PriceKey| #[trigger] stored(one, key) == stored(other, key),
    ensures
        one == other,
{
    assert forall|fact: PriceFact| one.to_set().contains(fact) <==> other.to_set().contains(
        fact,
    ) by {
        law_stored_means_present(one, fact.key());
        law_stored_means_present(other, fact.key());
        assert(stored(one, fact.key()) == stored(other, fact.key()));
        if one.contains(fact) {
            let i = choose|i: int| 0 <= i < one.len() && one[i] == fact;
            assert(one[i].key() == fact.key());
            assert(other.contains(other[position(other, fact.key())]));
        }
        if other.contains(fact) {
            let i = choose|i: int| 0 <= i < other.len() && other[i] == fact;
            assert(other[i].key() == fact.key());
            assert(one.contains(one[position(one, fact.key())]));
        }
    }
    assert(one.to_set() =~= other.to_set());
    lemma_sorted_rows_unique(one, other);
}

/// Hash determinism, for snapshots: the order of the records in a snapshot
/// is immaterial. Two snapshots of the same version whose records are
/// rearrangements of each other, each printing held once, leave the same
/// rows, the same state hash and the same number of records, and where one
/// is accepted, so is the other.
pub proof fn law_snapshot_order_is_immaterial(
    catalog: CatalogFacts,
    one: NormalSnapshotFact,
    other: NormalSnapshotFact,
    today: i64,
)
    requires
        rows_wf(catalog.prices),
        other == (NormalSnapshotFact { records: other.records, ..one }),
        rearranged(one.records, other.records),
        snapshot_refusal(catalog, one, today) is None,
    ensures
        snapshot_refusal(catalog, other, today) is None,
        snapshot_staged(catalog, other, today).prices == snapshot_staged(
            catalog,
            one,
            today,
        ).prices,
        forall|id: Seq<char>|
            #[trigger] printing_of(snapshot_staged(catalog, other, today).printings, id)
                == printing_of(snapshot_staged(catalog, one, today).printings, id),
        snapshot_report(catalog, other, today).state_hash == snapshot_report(
            catalog,
            one,
            today,
        ).state_hash,
        snapshot_report(catalog, other, today).total_records == snapshot_report(
            catalog,
            one,
            today,
        ).total_records,
{
    let version = one.to_version;
    let cleared = without_version(catalog.prices, version);
    let base = CatalogFacts { prices: cleared, ..catalog };
    let staged = snapshot_staged(catalog, one, today);
    let again = snapshot_staged(catalog, other, today);
    lemma_rearranged_same_faults(one.records, other.records);
    lemma_records_split(base, one.records, version, today);
    lemma_records_split(base, other.records, version, today);
    // the rows
    lemma_filter_wf(catalog.prices, selects(version, None, false));
    assert forall|i: int| 0 <= i < cleared.len() implies (#[trigger] cleared[i]).sync_version
        != version by {
        catalog.prices.lemma_filter_pred(selects(version, None, false), i);
    }
    assert forall|key: PriceKey| #[trigger]
        stored(staged.prices, key) == stored(again.prices, key) by {
        lemma_rows_recorded_stored(cleared, one.records, version, today, key);
        lemma_rows_recorded_stored(cleared, other.records, version, today, key);
        lemma_rearranged_same_record(one.records, other.records, key.printing_id);
    }
    lemma_rows_recorded_stored(
        cleared,
        one.records,
        version,
        today,
        PriceKey { sync_version: version, printing_id: Seq::empty(), condition: 0, finish: 0 },
    );
    lemma_rows_recorded_stored(
        cleared,
        other.records,
        version,
        today,
        PriceKey { sync_version: version, printing_id: Seq::empty(), condition: 0, finish: 0 },
    );
    lemma_same_lookups_same_rows(staged.prices, again.prices);
    // the printings
    assert forall|id: Seq<char>| #[trigger]
        printing_of(again.printings, id) == printing_of(staged.printings, id) by {
        lemma_all_recorded_lookup(catalog.printings, one.records, id);
        lemma_all_recorded_lookup(catalog.printings, other.records, id);
        lemma_known_at_once(printing_of(catalog.printings, id), one.records, id);
        lemma_known_at_once(printing_of(catalog.printings, id), other.records, id);
        lemma_rearranged_same_record(one.records, other.records, id);
    }
    law_hash_ignores_insertion_order(
        one.dataset,
        Some(version),
        again.prices,
        staged.prices,
        again.printings,
        staged.printings,
    );
    // the same number of records
    assert(one.records.len() == other.records.len()) by {
        lemma_same_length(one.records, other.records);
    }
}

/// Rearranged batches are of the same length.
pub proof fn lemma_same_length(one: Seq<NormalFact>, other: Seq<NormalFact>)
    requires
        rearranged(one, other),
    ensures
        one.len() == other.len(),
{
    assert(one.no_duplicates()) by {
        assert forall|i: int, j: int| 0 <= i < one.len() && 0 <= j < one.len() && i != j implies one[i]
            != one[j] by {
            if i < j {
                assert(one[i].id != one[j].id);
            } else {
                assert(one[j].id != one[i].id);
            }
        }
    }
    assert(other.no_duplicates()) by {
        assert forall|i: int, j: int|
            0 <= i < other.len() && 0 <= j < other.len() && i != j implies other[i]
            != other[j] by {
            if i < j {
                assert(other[i].id != other[j].id);
            } else {
                assert(other[j].id != other[i].id);
            }
        }
    }
    one.unique_seq_to_set();
    other.unique_seq_to_set();
}

/// What a snapshot reports does not depend on the day on which it is
/// applied: the day enters the capture days of the rows only, which are
/// neither hashed nor counted.
pub proof fn lemma_snapshot_any_day(
    catalog: CatalogFacts,
    snapshot: NormalSnapshotFact,
    today: i64,
    other_day: i64,
)
    ensures
        snapshot_report(catalog, snapshot, other_day).state_hash == snapshot_report(
            catalog,
            snapshot,
            today,
        ).state_hash,
        snapshot_report(catalog, snapshot, other_day).total_records == snapshot_report(
            catalog,
            snapshot,
            today,
        ).total_records,
        snapshot_refusal(catalog, snapshot, other_day) is None <==> snapshot_refusal(
            catalog,
            snapshot,
            today,
        ) is None,
{
    let version = snapshot.to_version;
    let base = CatalogFacts { prices: without_version(catalog.prices, version), ..catalog };
    let staged = snapshot_staged(catalog, snapshot, today);
    let again = snapshot_staged(catalog, snapshot, other_day);
    lemma_records_split(base, snapshot.records, version, today);
    lemma_records_split(base, snapshot.records, version, other_day);
    lemma_rows_recorded_any_day(base.prices, snapshot.records, version, today, other_day);
    lemma_hashed_lines_dayless(staged.prices, version, staged.printings);
    lemma_hashed_lines_dayless(again.prices, version, staged.printings);
    lemma_priced_dayless(staged.prices, version);
    lemma_priced_dayless(again.prices, version);
}

/// Whether no two records of a request are for the same printing, once
/// their identifiers are brought into normal form.
pub open spec fn distinct_printings(records: Seq<RecordFact>) -> bool {
    forall|i: int, j: int|
        0 <= i < j < records.len() ==> normalized((#[trigger] records[i]).scryfall_id)
            != normalized((#[trigger] records[j]).scryfall_id)
}

/// Hash determinism, for requests as they arrive: two snapshot requests
/// that differ in the order of their records only, each printing named
/// once, applied to equal replicas, are accepted together and report the
/// same state hash and the same number of records. The two may be applied
/// at different times where every record carries an update time; a record
/// without one takes the time of the call, which is hashed.
pub proof fn law_snapshot_request_order_is_immaterial(
    catalog: CatalogFacts,
    input: SnapshotFact,
    other: SnapshotFact,
    now: Seq<char>,
    today: i64,
    patch_id: Seq<char>,
    history_id: Seq<char>,
    later: Seq<char>,
    later_day: i64,
    later_patch_id: Seq<char>,
    later_history_id: Seq<char>,
)
    requires
        rows_wf(catalog.prices),
        other == (SnapshotFact { records: other.records, ..input }),
        input.records.to_set() == other.records.to_set(),
        distinct_printings(input.records),
        distinct_printings(other.records),
        later == now || forall|i: int|
            0 <= i < input.records.len() ==> is_timed(#[trigger] input.records[i]),
        snapshot_outcome(catalog, input, now, today, patch_id, history_id).0 is Ok,
    ensures
        ({
            let first = snapshot_outcome(catalog, input, now, today, patch_id, history_id);
            let second = snapshot_outcome(
                catalog,
                other,
                later,
                later_day,
                later_patch_id,
                later_history_id,
            );
            &&& second.0 is Ok
            &&& second.0->Ok_0.state_hash == first.0->Ok_0.state_hash
            &&& second.0->Ok_0.total_records == first.0->Ok_0.total_records
        }),
{
    let one = normal_snapshot(input, now)->Ok_0;
    let two = normal_snapshot(other, later)->Ok_0;
    // every record of the one request is a record of the other, and has the
    // same normal form at either time
    assert forall|record: RecordFact|
        input.records.contains(record) || other.records.contains(record) implies normal_record(
        record,
        later,
    ) == normal_record(record, now) by {
        if later != now {
            if !input.records.contains(record) {
                assert(other.records.to_set().contains(record));
            }
            let i = choose|i: int| 0 <= i < input.records.len() && input.records[i] == record;
            assert(is_timed(input.records[i]));
        }
    }
    assert forall|fact: NormalFact| one.records.to_set().contains(fact) <==> two.records.to_set().contains(
        fact,
    ) by {
        if one.records.contains(fact) {
            let i = choose|i: int| 0 <= i < one.records.len() && one.records[i] == fact;
            let record = input.records[i];
            assert(input.records.contains(record));
            assert(input.records.to_set().contains(record));
            assert(other.records.contains(record));
            let j = choose|j: int| 0 <= j < other.records.len() && other.records[j] == record;
            assert(two.records[j] == fact);
        }
        if two.records.contains(fact) {
            let j = choose|j: int| 0 <= j < two.records.len() && two.records[j] == fact;
            let record = other.records[j];
            assert(other.records.contains(record));
            assert(other.records.to_set().contains(record));
            assert(input.records.contains(record));
            let i = choose|i: int| 0 <= i < input.records.len() && input.records[i] == record;
            assert(one.records[i] == fact);
        }
    }
    assert(one.records.to_set() =~= two.records.to_set());
    assert(distinct_ids(one.records)) by {
        assert forall|i: int, j: int| 0 <= i < j < one.records.len() implies (
        #[trigger] one.records[i]).id != (#[trigger] one.records[j]).id by {
            assert(normalized(input.records[i].scryfall_id) != normalized(
                input.records[j].scryfall_id,
            ));
        }
    }
    assert(distinct_ids(two.records)) by {
        assert forall|i: int, j: int| 0 <= i < j < two.records.len() implies (
        #[trigger] two.records[i]).id != (#[trigger] two.records[j]).id by {
            assert(normalized(other.records[i].scryfall_id) != normalized(
                other.records[j].scryfall_id,
            ));
        }
    }
    law_snapshot_order_is_immaterial(catalog, one, two, today);
    lemma_snapshot_any_day(catalog, two, today, later_day);
}

} // verus!
