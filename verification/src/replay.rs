use crate::catalog::{
    fresh_printing, printings_recorded, record_fact, records_upserted, revised_printing,
    CatalogFacts,
};
use crate::count::{is_priced, priced_printings};
use crate::hash::hashed_lines;
use crate::laws::lemma_hashed_lines_by_lookup;
use crate::catalog::total_records;
use crate::laws::law_snapshot_report_is_stored;
use crate::ledger::current_version_of;
use crate::model::{first_where, lemma_first_where, lemma_first_where_found};
use crate::record::{first_fault, is_faulty};
use crate::snapshot::enforced_hash;
use crate::price::coalesced;
use crate::printing::{has_id, id_slot, lemma_id_slot, printing_of, PrintingFact};
use crate::record::{normal_record, normal_records, NormalFact, RecordFact};
use crate::snapshot::{
    normal_snapshot, snapshot_applied, snapshot_outcome, snapshot_refusal, snapshot_report,
    snapshot_staged, NormalSnapshotFact, SnapshotFact,
};
use crate::text::trimmed;
use crate::store::{
    holds, key_rank, lemma_position, lemma_position_found, observed, position, selects, upserted,
    without_version, PriceFact, PriceKey,
};
use crate::rank::Rank;
use vstd::prelude::*;

verus! {

/// A fact without its capture day.
pub open spec fn dayless(fact: PriceFact) -> PriceFact {
    PriceFact { captured_ymd: 0, ..fact }
}

/// Rows without their capture days.
pub open spec fn all_dayless(rows: Seq<PriceFact>) -> Seq<PriceFact> {
    Seq::new(rows.len(), |i: int| dayless(rows[i]))
}

/// The capture day does not enter into where a key stands.
pub proof fn lemma_position_dayless(rows: Seq<PriceFact>, key: PriceKey)
    ensures
        position(all_dayless(rows), key) == position(rows, key),
{
    let plain = all_dayless(rows);
    let at = position(rows, key);
    lemma_position(rows, key);
    assert forall|j: int| 0 <= j < at implies key_rank(#[trigger] plain[j].key(), key)
        == Rank::Before by {
        assert(plain[j].key() == rows[j].key());
    }
    if at < rows.len() {
        assert(plain[at].key() == rows[at].key());
    }
    lemma_position_found(plain, key, at);
}

/// Writing a fact and dropping the capture days can be done in either
/// order.
pub proof fn lemma_observed_dayless(rows: Seq<PriceFact>, fact: PriceFact)
    ensures
        all_dayless(observed(rows, fact)) == observed(all_dayless(rows), dayless(fact)),
{
    if !fact.channels.is_empty() {
        let key = fact.key();
        let at = position(rows, key);
        lemma_position(rows, key);
        lemma_position_dayless(rows, key);
        assert(dayless(fact).key() == key);
        if at < rows.len() {
            assert(all_dayless(rows)[at].key() == rows[at].key());
        }
        assert(all_dayless(upserted(rows, fact)) =~= upserted(all_dayless(rows), dayless(fact)));
    }
}

/// The hashed lines of rows do not depend on their capture days.
pub proof fn lemma_hashed_lines_dayless(
    rows: Seq<PriceFact>,
    version: Seq<char>,
    printings: Seq<PrintingFact>,
)
    ensures
        hashed_lines(all_dayless(rows), version, printings) == hashed_lines(
            rows,
            version,
            printings,
        ),
    decreases rows.len(),
{
    if rows.len() > 0 {
        lemma_hashed_lines_dayless(rows.drop_last(), version, printings);
        assert(all_dayless(rows).drop_last() =~= all_dayless(rows.drop_last()));
        assert(all_dayless(rows).last() == dayless(rows.last()));
    }
}

/// The records of a version do not depend on the rows' capture days.
pub proof fn lemma_priced_dayless(rows: Seq<PriceFact>, version: Seq<char>)
    ensures
        priced_printings(all_dayless(rows), version) == priced_printings(rows, version),
{
    let plain = all_dayless(rows);
    assert forall|id: Seq<char>|
        priced_printings(plain, version).contains(id) <==> priced_printings(
            rows,
            version,
        ).contains(id) by {
        if priced_printings(plain, version).contains(id) {
            let i = choose|i: int|
                0 <= i < plain.len() && is_priced(#[trigger] plain[i], version)
                    && plain[i].printing_id == id;
            assert(is_priced(rows[i], version) && rows[i].printing_id == id);
        }
        if priced_printings(rows, version).contains(id) {
            let i = choose|i: int|
                0 <= i < rows.len() && is_priced(#[trigger] rows[i], version) && rows[i].printing_id
                    == id;
            assert(is_priced(plain[i], version) && plain[i].printing_id == id);
        }
    }
    assert(priced_printings(plain, version) =~= priced_printings(rows, version));
}

/// A sequence of one row that a test does not pick has nothing picked.
pub proof fn lemma_filter_one(fact: PriceFact, test: spec_fn(PriceFact) -> bool)
    ensures
        seq![fact].filter(test) == if test(fact) {
            seq![fact]
        } else {
            Seq::<PriceFact>::empty()
        },
{
    reveal(Seq::filter);
    let one = seq![fact];
    assert(one.drop_last() =~= Seq::<PriceFact>::empty());
    assert(one.drop_last().filter(test) =~= Seq::<PriceFact>::empty());
    assert(one.last() == fact);
    assert(Seq::<PriceFact>::empty().push(fact) =~= seq![fact]);
}

/// Writing a fact of a sync version leaves the rows of the other versions
/// as they were.
pub proof fn lemma_observed_keeps_others(rows: Seq<PriceFact>, fact: PriceFact)
    ensures
        without_version(observed(rows, fact), fact.sync_version) == without_version(
            rows,
            fact.sync_version,
        ),
{
    if !fact.channels.is_empty() {
        let test = selects(fact.sync_version, None, false);
        let key = fact.key();
        let at = position(rows, key);
        lemma_position(rows, key);
        let head = rows.take(at);
        if holds(rows, key) {
            let tail = rows.skip(at + 1);
            let merged = rows[at].absorbed(fact);
            assert(rows =~= head + seq![rows[at]] + tail);
            assert(rows.update(at, merged) =~= head + seq![merged] + tail);
            lemma_filter_one(rows[at], test);
            lemma_filter_one(merged, test);
            Seq::filter_distributes_over_add(head, seq![rows[at]], test);
            Seq::filter_distributes_over_add(head + seq![rows[at]], tail, test);
            Seq::filter_distributes_over_add(head, seq![merged], test);
            Seq::filter_distributes_over_add(head + seq![merged], tail, test);
            assert(!test(rows[at]));
            assert(!test(merged));
            assert(head.filter(test) + Seq::<PriceFact>::empty() =~= head.filter(test));
        } else {
            let tail = rows.skip(at);
            assert(rows =~= head + tail);
            assert(rows.insert(at, fact) =~= head + seq![fact] + tail);
            lemma_filter_one(fact, test);
            Seq::filter_distributes_over_add(head, tail, test);
            Seq::filter_distributes_over_add(head, seq![fact], test);
            Seq::filter_distributes_over_add(head + seq![fact], tail, test);
            assert(!test(fact));
            assert(head.filter(test) + Seq::<PriceFact>::empty() =~= head.filter(test));
        }
    }
}

/// Dropping the rows of a version twice is dropping them once.
pub proof fn lemma_without_version_twice(rows: Seq<PriceFact>, version: Seq<char>)
    ensures
        without_version(without_version(rows, version), version) == without_version(
            rows,
            version,
        ),
    decreases rows.len(),
{
    let test = selects(version, None, false);
    reveal(Seq::filter);
    if rows.len() > 0 {
        let front = rows.drop_last();
        lemma_without_version_twice(front, version);
        if test(rows.last()) {
            let kept = front.filter(test);
            assert(rows.filter(test) == kept.push(rows.last()));
            assert(kept.push(rows.last()).drop_last() =~= kept);
        }
    }
}

/// The rows after each record of a batch was written, in turn.
pub open spec fn rows_recorded(
    rows: Seq<PriceFact>,
    records: Seq<NormalFact>,
    version: Seq<char>,
    today: i64,
) -> Seq<PriceFact>
    decreases records.len(),
{
    if records.len() == 0 {
        rows
    } else {
        observed(
            rows_recorded(rows, records.drop_last(), version, today),
            record_fact(records.last(), version, today),
        )
    }
}

/// The printings after each record of a batch was written, in turn.
pub open spec fn printings_all_recorded(printings: Seq<PrintingFact>, records: Seq<NormalFact>) -> Seq<
    PrintingFact,
>
    decreases records.len(),
{
    if records.len() == 0 {
        printings
    } else {
        printings_recorded(printings_all_recorded(printings, records.drop_last()), records.last())
    }
}

/// Writing a batch of records writes their rows and their printings
/// independently of each other.
pub proof fn lemma_records_split(
    catalog: CatalogFacts,
    records: Seq<NormalFact>,
    version: Seq<char>,
    today: i64,
)
    ensures
        records_upserted(catalog, records, version, today).prices == rows_recorded(
            catalog.prices,
            records,
            version,
            today,
        ),
        records_upserted(catalog, records, version, today).printings == printings_all_recorded(
            catalog.printings,
            records,
        ),
    decreases records.len(),
{
    if records.len() > 0 {
        lemma_records_split(catalog, records.drop_last(), version, today);
    }
}

/// Writing a batch of records under a version leaves the rows of the other
/// versions as they were.
pub proof fn lemma_rows_recorded_keep_others(
    rows: Seq<PriceFact>,
    records: Seq<NormalFact>,
    version: Seq<char>,
    today: i64,
)
    ensures
        without_version(rows_recorded(rows, records, version, today), version) == without_version(
            rows,
            version,
        ),
    decreases records.len(),
{
    if records.len() > 0 {
        lemma_rows_recorded_keep_others(rows, records.drop_last(), version, today);
        lemma_observed_keeps_others(
            rows_recorded(rows, records.drop_last(), version, today),
            record_fact(records.last(), version, today),
        );
    }
}

/// But for the capture days, the rows that a batch of records leaves do not
/// depend on the day on which it is written.
pub proof fn lemma_rows_recorded_any_day(
    rows: Seq<PriceFact>,
    records: Seq<NormalFact>,
    version: Seq<char>,
    one_day: i64,
    other_day: i64,
)
    ensures
        all_dayless(rows_recorded(rows, records, version, one_day)) == all_dayless(
            rows_recorded(rows, records, version, other_day),
        ),
    decreases records.len(),
{
    if records.len() > 0 {
        let front = records.drop_last();
        lemma_rows_recorded_any_day(rows, front, version, one_day, other_day);
        lemma_observed_dayless(
            rows_recorded(rows, front, version, one_day),
            record_fact(records.last(), version, one_day),
        );
        lemma_observed_dayless(
            rows_recorded(rows, front, version, other_day),
            record_fact(records.last(), version, other_day),
        );
    }
}

/// What is known of a printing after a catalog record: where the record is
/// for that printing, the known printing revised or a fresh one; else what
/// was known before.
pub open spec fn known_after(known: Option<PrintingFact>, record: NormalFact, id: Seq<char>) -> Option<
    PrintingFact,
> {
    if record.id == id {
        Some(
            match known {
                Some(printing) => revised_printing(printing, record),
                None => fresh_printing(record),
            },
        )
    } else {
        known
    }
}

/// Looking a printing up after a catalog record gives what `known_after`
/// says.
pub proof fn lemma_recorded_lookup(printings: Seq<PrintingFact>, record: NormalFact, id: Seq<char>)
    ensures
        printing_of(printings_recorded(printings, record), id) == known_after(
            printing_of(printings, id),
            record,
            id,
        ),
{
    let out = printings_recorded(printings, record);
    let mine = has_id(record.id);
    let test = has_id(id);
    lemma_first_where(printings, mine);
    lemma_first_where(printings, test);
    match first_where(printings, mine) {
        Some(at) => {
            // the record's printing is revised in place; every identifier stays where it was
            assert(out[at].id == printings[at].id);
            match first_where(printings, test) {
                Some(found) => {
                    assert forall|j: int| 0 <= j < found implies !test(#[trigger] out[j]) by {
                        if j == at {
                            assert(out[j].id == printings[j].id);
                        } else {
                            assert(out[j] == printings[j]);
                        }
                    }
                    assert(test(out[found])) by {
                        if found == at {
                            assert(out[found].id == printings[found].id);
                        } else {
                            assert(out[found] == printings[found]);
                        }
                    }
                    lemma_first_where_found(out, test, found);
                    if record.id == id {
                        assert(found == at) by {
                            if found < at {
                                assert(!mine(printings[found]));
                            } else if at < found {
                                assert(!test(printings[at]));
                            }
                        }
                    } else {
                        assert(found != at);
                        assert(out[found] == printings[found]);
                    }
                },
                None => {
                    assert forall|j: int| 0 <= j < out.len() implies !test(#[trigger] out[j]) by {
                        if j == at {
                            assert(out[j].id == printings[j].id);
                        } else {
                            assert(out[j] == printings[j]);
                        }
                        assert(!test(printings[j]));
                    }
                    lemma_first_where_found(out, test, out.len() as int);
                    assert(record.id != id) by {
                        if record.id == id {
                            assert(test(printings[at]));
                        }
                    }
                },
            }
        },
        None => {
            // the record's printing is new and is put in its place in the order
            let slot = id_slot(printings, record.id);
            lemma_id_slot(printings, record.id);
            assert(out[slot] == fresh_printing(record));
            match first_where(printings, test) {
                Some(found) => {
                    assert(record.id != id) by {
                        if record.id == id {
                            assert(mine(printings[found]));
                        }
                    }
                    let shifted = if found < slot {
                        found
                    } else {
                        found + 1
                    };
                    assert forall|j: int| 0 <= j < shifted implies !test(#[trigger] out[j]) by {
                        if j < slot {
                            assert(out[j] == printings[j]);
                        } else if j > slot {
                            assert(out[j] == printings[j - 1]);
                        }
                    }
                    assert(out[shifted] == printings[found]);
                    lemma_first_where_found(out, test, shifted);
                },
                None => {
                    if record.id == id {
                        assert forall|j: int| 0 <= j < slot implies !test(#[trigger] out[j]) by {
                            assert(out[j] == printings[j]);
                        }
                        assert(test(out[slot]));
                        lemma_first_where_found(out, test, slot);
                    } else {
                        assert forall|j: int| 0 <= j < out.len() implies !test(
                            #[trigger] out[j],
                        ) by {
                            if j < slot {
                                assert(out[j] == printings[j]);
                            } else if j > slot {
                                assert(out[j] == printings[j - 1]);
                            }
                        }
                        lemma_first_where_found(out, test, out.len() as int);
                    }
                },
            }
        },
    }
}

/// What is known of a printing after each record of a batch, in turn.
pub open spec fn known_after_all(known: Option<PrintingFact>, records: Seq<NormalFact>, id: Seq<char>) -> Option<
    PrintingFact,
>
    decreases records.len(),
{
    if records.len() == 0 {
        known
    } else {
        known_after(known_after_all(known, records.drop_last(), id), records.last(), id)
    }
}

/// Looking a printing up after a batch of records gives what
/// `known_after_all` says.
pub proof fn lemma_all_recorded_lookup(
    printings: Seq<PrintingFact>,
    records: Seq<NormalFact>,
    id: Seq<char>,
)
    ensures
        printing_of(printings_all_recorded(printings, records), id) == known_after_all(
            printing_of(printings, id),
            records,
            id,
        ),
    decreases records.len(),
{
    if records.len() > 0 {
        lemma_all_recorded_lookup(printings, records.drop_last(), id);
        lemma_recorded_lookup(
            printings_all_recorded(printings, records.drop_last()),
            records.last(),
            id,
        );
    }
}

/// The last record of a batch that is for a printing.
pub open spec fn last_record_for(records: Seq<NormalFact>, id: Seq<char>) -> Option<NormalFact>
    decreases records.len(),
{
    if records.len() == 0 {
        None
    } else if records.last().id == id {
        Some(records.last())
    } else {
        last_record_for(records.drop_last(), id)
    }
}

/// The image address that the records of a batch leave for a printing: that
/// of the last record for it that has one.
pub open spec fn last_image_for(records: Seq<NormalFact>, id: Seq<char>) -> Option<Seq<char>>
    decreases records.len(),
{
    if records.len() == 0 {
        None
    } else if records.last().id == id && records.last().image_url is Some {
        records.last().image_url
    } else {
        last_image_for(records.drop_last(), id)
    }
}

/// A printing of which only the identifier is known, with the defaults of a
/// fresh one.
pub open spec fn blank_printing(id: Seq<char>) -> PrintingFact {
    PrintingFact {
        id,
        oracle_id: None,
        name: Seq::empty(),
        mana_cost: None,
        cmc: None,
        type_line: None,
        oracle_text: None,
        reserved: false,
        keywords_json: None,
        colors_json: None,
        color_identity_json: None,
        latest_released_at: None,
        set_code: Seq::empty(),
        collector_number: Seq::empty(),
        lang: "en"@,
        rarity: None,
        layout: None,
        released_at: None,
        artist: None,
        image_normal_url: None,
        image_small_url: None,
        image_art_crop_url: None,
        is_digital: false,
        is_foil_available: true,
        is_nonfoil_available: true,
        tcgplayer_id: None,
        cardmarket_id: None,
        mtgo_id: None,
        mtgo_foil_id: None,
        updated_at: Seq::empty(),
    }
}

/// What the records of a batch make of a printing, said at once: nothing
/// changes where no record is for it; else its name, set code, collector
/// number and update time are those of the last record for it, its image
/// address is the last that a record for it gave, or the one it had, and
/// the rest is as it was, or as in a fresh printing.
pub open spec fn known_at_once(known: Option<PrintingFact>, records: Seq<NormalFact>, id: Seq<char>) -> Option<
    PrintingFact,
> {
    match last_record_for(records, id) {
        Some(record) => {
            let base = match known {
                Some(printing) => printing,
                None => blank_printing(id),
            };
            Some(
                PrintingFact {
                    name: record.name,
                    set_code: record.set_code,
                    collector_number: record.collector_number,
                    image_normal_url: coalesced(last_image_for(records, id), base.image_normal_url),
                    updated_at: record.updated_at,
                    ..base
                },
            )
        },
        None => known,
    }
}

/// No record for a printing, no image address from the records.
pub proof fn lemma_no_record_no_image(records: Seq<NormalFact>, id: Seq<char>)
    requires
        last_record_for(records, id) is None,
    ensures
        last_image_for(records, id) is None,
    decreases records.len(),
{
    if records.len() > 0 {
        lemma_no_record_no_image(records.drop_last(), id);
    }
}

/// Writing the records one by one makes of a printing what `known_at_once`
/// says.
pub proof fn lemma_known_at_once(known: Option<PrintingFact>, records: Seq<NormalFact>, id: Seq<char>)
    ensures
        known_after_all(known, records, id) == known_at_once(known, records, id),
    decreases records.len(),
{
    if records.len() > 0 {
        let front = records.drop_last();
        lemma_known_at_once(known, front, id);
        if last_record_for(front, id) is None {
            lemma_no_record_no_image(front, id);
        }
    }
}

/// Writing a batch of records a second time makes nothing new of a
/// printing.
pub proof fn lemma_known_twice(known: Option<PrintingFact>, records: Seq<NormalFact>, id: Seq<char>)
    ensures
        known_after_all(known_after_all(known, records, id), records, id) == known_after_all(
            known,
            records,
            id,
        ),
{
    lemma_known_at_once(known, records, id);
    lemma_known_at_once(known_after_all(known, records, id), records, id);
}

/// Idempotence: a snapshot that was applied can be applied again, at any
/// later time, and reports the same state hash and the same number of
/// records.
pub proof fn law_snapshot_replay(
    catalog: CatalogFacts,
    snapshot: NormalSnapshotFact,
    now: Seq<char>,
    today: i64,
    patch_id: Seq<char>,
    history_id: Seq<char>,
    later_day: i64,
)
    requires
        snapshot_refusal(catalog, snapshot, today) is None,
    ensures
        ({
            let applied = snapshot_applied(catalog, snapshot, now, today, patch_id, history_id);
            let first = snapshot_report(catalog, snapshot, today);
            let second = snapshot_report(applied, snapshot, later_day);
            &&& snapshot_refusal(applied, snapshot, later_day) is None
            &&& second.state_hash == first.state_hash
            &&& second.total_records == first.total_records
        }),
{
    let version = snapshot.to_version;
    let records = snapshot.records;
    let applied = snapshot_applied(catalog, snapshot, now, today, patch_id, history_id);
    let base = CatalogFacts { prices: without_version(catalog.prices, version), ..catalog };
    let staged = snapshot_staged(catalog, snapshot, today);
    let again_base = CatalogFacts { prices: without_version(applied.prices, version), ..applied };
    let again = snapshot_staged(applied, snapshot, later_day);
    lemma_records_split(base, records, version, today);
    lemma_records_split(again_base, records, version, later_day);
    assert(applied.prices == staged.prices);
    assert(applied.printings == staged.printings);
    // the rows: the second pass starts from the same rows of other versions
    lemma_rows_recorded_keep_others(base.prices, records, version, today);
    lemma_without_version_twice(catalog.prices, version);
    assert(again_base.prices == base.prices);
    lemma_rows_recorded_any_day(base.prices, records, version, today, later_day);
    lemma_hashed_lines_dayless(staged.prices, version, again.printings);
    lemma_hashed_lines_dayless(again.prices, version, again.printings);
    lemma_priced_dayless(staged.prices, version);
    lemma_priced_dayless(again.prices, version);
    // the printings: a second pass finds for every identifier what the first left
    assert forall|i: int| 0 <= i < staged.prices.len() implies printing_of(
        again.printings,
        (#[trigger] staged.prices[i]).printing_id,
    ) == printing_of(staged.printings, staged.prices[i].printing_id) by {
        let id = staged.prices[i].printing_id;
        lemma_all_recorded_lookup(catalog.printings, records, id);
        lemma_all_recorded_lookup(staged.printings, records, id);
        lemma_known_twice(printing_of(catalog.printings, id), records, id);
    }
    lemma_hashed_lines_by_lookup(staged.prices, version, again.printings, staged.printings);
}

/// Whether a record comes with an update time of its own.
pub open spec fn is_timed(record: RecordFact) -> bool {
    trimmed(record.updated_at).len() > 0
}

/// Idempotence, for requests as they arrive: a snapshot request that was
/// applied can be sent again and reports the same state hash and the same
/// number of records. A record without an update time takes the time of
/// the call, which enters the hash; so this holds for requests whose
/// records all come with an update time, and for a request that is replayed
/// at the very same time.
pub proof fn law_snapshot_request_replay(
    catalog: CatalogFacts,
    input: SnapshotFact,
    now: Seq<char>,
    today: i64,
    patch_id: Seq<char>,
    history_id: Seq<char>,
    later: Seq<char>,
    later_day: i64,
    later_patch_id: Seq<char>,
    later_history_id: Seq<char>,
)
    requires
        snapshot_outcome(catalog, input, now, today, patch_id, history_id).0 is Ok,
        later == now || forall|i: int|
            0 <= i < input.records.len() ==> is_timed(#[trigger] input.records[i]),
    ensures
        ({
            let first = snapshot_outcome(catalog, input, now, today, patch_id, history_id);
            let second = snapshot_outcome(
                first.1,
                input,
                later,
                later_day,
                later_patch_id,
                later_history_id,
            );
            &&& second.0 is Ok
            &&& second.0->Ok_0.state_hash == first.0->Ok_0.state_hash
            &&& second.0->Ok_0.total_records == first.0->Ok_0.total_records
        }),
{
    assert(normal_records(input.records, later) =~= normal_records(input.records, now)) by {
        assert forall|i: int| 0 <= i < input.records.len() implies normal_record(
            input.records[i],
            later,
        ) == normal_record(input.records[i], now) by {
            if later != now {
                assert(is_timed(input.records[i]));
            }
        }
    }
    let snapshot = normal_snapshot(input, now)->Ok_0;
    assert(normal_snapshot(input, later) == normal_snapshot(input, now));
    law_snapshot_replay(catalog, snapshot, now, today, patch_id, history_id, later_day);
}

/// A fact without its capture day and time.
pub open spec fn timeless(fact: PriceFact) -> PriceFact {
    PriceFact { captured_ymd: 0, captured_at: Seq::empty(), ..fact }
}

/// Rows without their capture days and times.
pub open spec fn all_timeless(rows: Seq<PriceFact>) -> Seq<PriceFact> {
    Seq::new(rows.len(), |i: int| timeless(rows[i]))
}

/// Writing a fact and dropping the capture days and times can be done in
/// either order.
pub proof fn lemma_observed_timeless(rows: Seq<PriceFact>, fact: PriceFact)
    ensures
        all_timeless(observed(rows, fact)) == observed(all_timeless(rows), timeless(fact)),
{
    if !fact.channels.is_empty() {
        let key = fact.key();
        let plain = all_timeless(rows);
        let at = position(rows, key);
        lemma_position(rows, key);
        assert forall|j: int| 0 <= j < at implies key_rank(#[trigger] plain[j].key(), key)
            == Rank::Before by {
            assert(plain[j].key() == rows[j].key());
        }
        if at < rows.len() {
            assert(plain[at].key() == rows[at].key());
        }
        lemma_position_found(plain, key, at);
        assert(timeless(fact).key() == key);
        assert(all_timeless(upserted(rows, fact)) =~= upserted(plain, timeless(fact)));
    }
}

/// The records of a version do not depend on when the rows were captured.
pub proof fn lemma_priced_timeless(rows: Seq<PriceFact>, version: Seq<char>)
    ensures
        priced_printings(all_timeless(rows), version) == priced_printings(rows, version),
{
    let plain = all_timeless(rows);
    assert forall|id: Seq<char>|
        priced_printings(plain, version).contains(id) <==> priced_printings(
            rows,
            version,
        ).contains(id) by {
        if priced_printings(plain, version).contains(id) {
            let i = choose|i: int|
                0 <= i < plain.len() && is_priced(#[trigger] plain[i], version)
                    && plain[i].printing_id == id;
            assert(is_priced(rows[i], version) && rows[i].printing_id == id);
        }
        if priced_printings(rows, version).contains(id) {
            let i = choose|i: int|
                0 <= i < rows.len() && is_priced(#[trigger] rows[i], version) && rows[i].printing_id
                    == id;
            assert(is_priced(plain[i], version) && plain[i].printing_id == id);
        }
    }
    assert(priced_printings(plain, version) =~= priced_printings(rows, version));
}

/// Whether two batches of records agree but for their update times.
pub open spec fn same_but_for_time(one: Seq<NormalFact>, other: Seq<NormalFact>) -> bool {
    &&& one.len() == other.len()
    &&& forall|i: int|
        0 <= i < one.len() ==> (#[trigger] one[i]) == (NormalFact {
            updated_at: one[i].updated_at,
            ..other[i]
        })
}

/// But for the capture days and times, the rows that a batch of records
/// leaves depend neither on the update times of the records nor on the day
/// on which they are written.
pub proof fn lemma_rows_recorded_any_time(
    rows: Seq<PriceFact>,
    one: Seq<NormalFact>,
    other: Seq<NormalFact>,
    version: Seq<char>,
    one_day: i64,
    other_day: i64,
)
    requires
        same_but_for_time(one, other),
    ensures
        all_timeless(rows_recorded(rows, one, version, one_day)) == all_timeless(
            rows_recorded(rows, other, version, other_day),
        ),
    decreases one.len(),
{
    if one.len() > 0 {
        let one_front = one.drop_last();
        let other_front = other.drop_last();
        assert forall|i: int| 0 <= i < one_front.len() implies (#[trigger] one_front[i]) == (
        NormalFact { updated_at: one_front[i].updated_at, ..other_front[i] }) by {
            assert(one_front[i] == one[i] && other_front[i] == other[i]);
        }
        lemma_rows_recorded_any_time(rows, one_front, other_front, version, one_day, other_day);
        assert(one[one.len() - 1] == one.last() && other[other.len() - 1] == other.last());
        lemma_observed_timeless(
            rows_recorded(rows, one_front, version, one_day),
            record_fact(one.last(), version, one_day),
        );
        lemma_observed_timeless(
            rows_recorded(rows, other_front, version, other_day),
            record_fact(other.last(), version, other_day),
        );
    }
}

/// Batches that agree but for their update times have their first fault at
/// the same place, or none.
pub proof fn lemma_fault_any_time(one: Seq<NormalFact>, other: Seq<NormalFact>)
    requires
        same_but_for_time(one, other),
        first_fault(one) is None,
    ensures
        first_fault(other) is None,
{
    lemma_first_where(one, is_faulty());
    assert forall|j: int| 0 <= j < other.len() implies !is_faulty()(#[trigger] other[j]) by {
        assert(!is_faulty()(one[j]));
    }
    lemma_first_where_found(other, is_faulty(), other.len() as int);
}

/// Idempotence of the record count: a snapshot request that was applied and
/// is sent again leaves the same number of records under the same version,
/// whenever it is sent, and whether or not its records carry an update
/// time. No row is doubled. One kind of request is left out: one that comes
/// with a hash to enforce and holds a record without an update time, sent
/// again at another time. Such a record takes its time from the call, the
/// hash of the replay differs, and the replay is refused.
pub proof fn law_snapshot_replay_keeps_the_count(
    catalog: CatalogFacts,
    input: SnapshotFact,
    now: Seq<char>,
    today: i64,
    patch_id: Seq<char>,
    history_id: Seq<char>,
    later: Seq<char>,
    later_day: i64,
    later_patch_id: Seq<char>,
    later_history_id: Seq<char>,
)
    requires
        snapshot_outcome(catalog, input, now, today, patch_id, history_id).0 is Ok,
        enforced_hash(input.snapshot_hash) is None || later == now || forall|i: int|
            0 <= i < input.records.len() ==> is_timed(#[trigger] input.records[i]),
    ensures
        ({
            let first = snapshot_outcome(catalog, input, now, today, patch_id, history_id);
            let second = snapshot_outcome(
                first.1,
                input,
                later,
                later_day,
                later_patch_id,
                later_history_id,
            );
            &&& second.0 is Ok
            &&& second.0->Ok_0.total_records == first.0->Ok_0.total_records
            &&& second.0->Ok_0.to_version == first.0->Ok_0.to_version
            &&& current_version_of(first.1.ledger.states, first.0->Ok_0.dataset) == Some(
                first.0->Ok_0.to_version,
            )
            &&& current_version_of(second.1.ledger.states, first.0->Ok_0.dataset) == Some(
                first.0->Ok_0.to_version,
            )
            &&& total_records(first.1, first.0->Ok_0.dataset) as u64
                == first.0->Ok_0.total_records
            &&& total_records(second.1, first.0->Ok_0.dataset) as u64
                == first.0->Ok_0.total_records
        }),
{
    let snapshot = normal_snapshot(input, now)->Ok_0;
    let again = normal_snapshot(input, later)->Ok_0;
    let version = snapshot.to_version;
    let applied = snapshot_outcome(catalog, input, now, today, patch_id, history_id).1;
    if enforced_hash(input.snapshot_hash) is Some {
        law_snapshot_request_replay(
            catalog,
            input,
            now,
            today,
            patch_id,
            history_id,
            later,
            later_day,
            later_patch_id,
            later_history_id,
        );
    }
    assert(same_but_for_time(again.records, snapshot.records));
    assert(same_but_for_time(snapshot.records, again.records));
    lemma_fault_any_time(snapshot.records, again.records);
    // the second pass starts from the same rows of other versions
    let base = CatalogFacts { prices: without_version(catalog.prices, version), ..catalog };
    let staged = snapshot_staged(catalog, snapshot, today);
    let again_base = CatalogFacts { prices: without_version(applied.prices, version), ..applied };
    let again_staged = snapshot_staged(applied, again, later_day);
    lemma_records_split(base, snapshot.records, version, today);
    lemma_records_split(again_base, again.records, version, later_day);
    lemma_rows_recorded_keep_others(base.prices, snapshot.records, version, today);
    lemma_without_version_twice(catalog.prices, version);
    assert(again_base.prices == base.prices);
    lemma_rows_recorded_any_time(
        base.prices,
        snapshot.records,
        again.records,
        version,
        today,
        later_day,
    );
    lemma_priced_timeless(staged.prices, version);
    lemma_priced_timeless(again_staged.prices, version);
    law_snapshot_report_is_stored(catalog, input, now, today, patch_id, history_id);
    law_snapshot_report_is_stored(
        applied,
        input,
        later,
        later_day,
        later_patch_id,
        later_history_id,
    );
}

} // verus!
