use crate::catalog::{record_fact, records_upserted, CatalogFacts};
use crate::laws::{lemma_upserted_keeps_other_keys, lemma_upserted_stored};
use crate::patch::{carried_ymd, patch_rows, patch_staged, removed_all, NormalPatchFact};
use crate::record::NormalFact;
use crate::replay::{lemma_records_split, rows_recorded};
use crate::store::{
    carried_all, carried_forward, law_stored_means_present, lemma_filter_wf,
    lemma_key_rank_same, lemma_upserted_wf, of_version, position, rows_filled, rows_wf, selects,
    stored, upserted, without_version, PriceFact, PriceKey,
};
use vstd::prelude::*;

verus! {

/// A row that a test picks is stored among the picked rows as it was stored
/// among all.
pub proof fn lemma_filter_keeps_stored(
    rows: Seq<PriceFact>,
    test: spec_fn(PriceFact) -> bool,
    key: PriceKey,
)
    requires
        rows_wf(rows),
        stored(rows, key) is Some,
        test(stored(rows, key)->0),
    ensures
        stored(rows.filter(test), key) == stored(rows, key),
{
    let kept = rows.filter(test);
    let row = stored(rows, key)->0;
    let at = position(rows, key);
    lemma_filter_wf(rows, test);
    law_stored_means_present(rows, key);
    law_stored_means_present(kept, key);
    rows.lemma_filter_contains(test, at);
    let i = choose|i: int| 0 <= i < kept.len() && kept[i] == row;
    assert(kept[i].key() == key);
}

/// Among the rows that a test picks, no row of a kind is stored that the
/// test picks none of.
pub proof fn lemma_filter_drops(
    rows: Seq<PriceFact>,
    test: spec_fn(PriceFact) -> bool,
    key: PriceKey,
)
    requires
        rows_wf(rows),
        forall|i: int| 0 <= i < rows.len() && (#[trigger] rows[i]).key() == key ==> !test(rows[i]),
    ensures
        stored(rows.filter(test), key) is None,
{
    let kept = rows.filter(test);
    lemma_filter_wf(rows, test);
    law_stored_means_present(kept, key);
    if stored(kept, key) is Some {
        let i = position(kept, key);
        assert(kept.contains(kept[i]));
        rows.lemma_filter_contains_rev(test, kept[i]);
        rows.lemma_filter_pred(test, i);
        let j = choose|j: int| 0 <= j < rows.len() && rows[j] == kept[i];
        assert(rows[j].key() == key);
    }
}

/// The key of a row once it is carried into another sync version.
pub open spec fn carried_key(key: PriceKey, version: Seq<char>) -> PriceKey {
    PriceKey { sync_version: version, ..key }
}

/// Carrying rows forward, one after the other, leaves under the key of each
/// carried row that row, retagged; provided that the rows to carry have
/// keys of their own and that nothing stood under the new keys before.
pub proof fn lemma_carried_all_stored(
    rows: Seq<PriceFact>,
    carried: Seq<PriceFact>,
    version: Seq<char>,
    ymd: i64,
    at: Seq<char>,
    which: int,
)
    requires
        rows_wf(rows),
        rows_filled(carried),
        0 <= which < carried.len(),
        forall|i: int, j: int|
            0 <= i < j < carried.len() ==> (#[trigger] carried[i]).key() != (
            #[trigger] carried[j]).key(),
        forall|i: int|
            0 <= i < carried.len() ==> (#[trigger] carried[i]).sync_version
                == carried[which].sync_version,
        stored(rows, carried_key(carried[which].key(), version)) is None,
    ensures
        stored(
            carried_all(rows, carried, version, ymd, at),
            carried_key(carried[which].key(), version),
        ) == Some(carried[which].retagged(version, ymd, at)),
        rows_wf(carried_all(rows, carried, version, ymd, at)),
    decreases carried.len(),
{
    let target = carried_key(carried[which].key(), version);
    let first = carried[0].retagged(version, ymd, at);
    let next = upserted(rows, first);
    let rest = carried.drop_first();
    lemma_upserted_wf(rows, first);
    assert forall|i: int| 0 <= i < rest.len() implies !(#[trigger] rest[i]).channels.is_empty() by {
        assert(rest[i] == carried[i + 1]);
    }
    if which == 0 {
        lemma_upserted_stored(rows, first);
        assert(first.key() == target);
        lemma_carried_rest_keeps(next, rest, version, ymd, at, target);
        assert forall|i: int| 0 <= i < rest.len() implies carried_key(
            (#[trigger] rest[i]).key(),
            version,
        ) != target by {
            assert(rest[i] == carried[i + 1]);
            assert(carried[0].key() != carried[i + 1].key());
        }
    } else {
        assert(carried[0].key() != carried[which].key());
        assert(first.key() != target);
        lemma_upserted_keeps_other_keys(rows, first, target);
        assert(rest[which - 1] == carried[which]);
        assert forall|i: int, j: int| 0 <= i < j < rest.len() implies (#[trigger] rest[i]).key()
            != (#[trigger] rest[j]).key() by {
            assert(rest[i] == carried[i + 1] && rest[j] == carried[j + 1]);
        }
        assert forall|i: int| 0 <= i < rest.len() implies (#[trigger] rest[i]).sync_version
            == rest[which - 1].sync_version by {
            assert(rest[i] == carried[i + 1]);
        }
        lemma_carried_all_stored(next, rest, version, ymd, at, which - 1);
    }
}

/// Carrying rows forward leaves what is stored under a key as it was,
/// provided that none of the carried rows gets that key.
pub proof fn lemma_carried_rest_keeps(
    rows: Seq<PriceFact>,
    carried: Seq<PriceFact>,
    version: Seq<char>,
    ymd: i64,
    at: Seq<char>,
    key: PriceKey,
)
    requires
        rows_wf(rows),
        rows_filled(carried),
        forall|i: int|
            0 <= i < carried.len() ==> carried_key((#[trigger] carried[i]).key(), version) != key,
    ensures
        stored(carried_all(rows, carried, version, ymd, at), key) == stored(rows, key),
        rows_wf(carried_all(rows, carried, version, ymd, at)),
    decreases carried.len(),
{
    if carried.len() > 0 {
        let first = carried[0].retagged(version, ymd, at);
        let rest = carried.drop_first();
        lemma_upserted_wf(rows, first);
        assert(first.key() == carried_key(carried[0].key(), version));
        lemma_upserted_keeps_other_keys(rows, first, key);
        assert forall|i: int| 0 <= i < rest.len() implies !(#[trigger] rest[i]).channels.is_empty()
            && carried_key(rest[i].key(), version) != key by {
            assert(rest[i] == carried[i + 1]);
        }
        lemma_carried_rest_keeps(upserted(rows, first), rest, version, ymd, at, key);
    }
}

/// Removing printings under a version leaves what is stored of every other
/// printing as it was.
pub proof fn lemma_removed_all_keeps(
    rows: Seq<PriceFact>,
    version: Seq<char>,
    ids: Seq<Seq<char>>,
    key: PriceKey,
)
    requires
        rows_wf(rows),
        stored(rows, key) is Some,
        !ids.contains(key.printing_id),
    ensures
        stored(removed_all(rows, version, ids), key) == stored(rows, key),
        rows_wf(removed_all(rows, version, ids)),
    decreases ids.len(),
{
    if ids.len() > 0 {
        let front = ids.drop_last();
        assert(!front.contains(key.printing_id)) by {
            if front.contains(key.printing_id) {
                let i = choose|i: int| 0 <= i < front.len() && front[i] == key.printing_id;
                assert(ids[i] == key.printing_id);
            }
        }
        lemma_removed_all_keeps(rows, version, front, key);
        let before = removed_all(rows, version, front);
        let test = selects(version, Some(ids.last()), false);
        law_stored_means_present(before, key);
        assert(ids[ids.len() - 1] == ids.last());
        lemma_filter_keeps_stored(before, test, key);
        lemma_filter_wf(before, test);
    }
}

/// Writing records leaves what is stored of every printing that no record
/// is for as it was.
pub proof fn lemma_rows_recorded_keep(
    rows: Seq<PriceFact>,
    records: Seq<NormalFact>,
    version: Seq<char>,
    today: i64,
    key: PriceKey,
)
    requires
        rows_wf(rows),
        forall|i: int| 0 <= i < records.len() ==> (#[trigger] records[i]).id != key.printing_id,
    ensures
        stored(rows_recorded(rows, records, version, today), key) == stored(rows, key),
        rows_wf(rows_recorded(rows, records, version, today)),
    decreases records.len(),
{
    if records.len() > 0 {
        let front = records.drop_last();
        assert forall|i: int| 0 <= i < front.len() implies (#[trigger] front[i]).id
            != key.printing_id by {
            assert(front[i] == records[i]);
        }
        lemma_rows_recorded_keep(rows, front, version, today, key);
        let before = rows_recorded(rows, front, version, today);
        let fact = record_fact(records.last(), version, today);
        assert(records[records.len() - 1] == records.last());
        if !fact.channels.is_empty() {
            lemma_upserted_wf(before, fact);
            lemma_upserted_keeps_other_keys(before, fact, key);
        }
    }
}

/// Carry-forward: a patch leaves no untouched printing behind. A row of
/// the base version whose printing the patch neither removes nor has a
/// record for stands under the target version afterwards, with the same
/// prices, and with the capture day and time of the patch.
pub proof fn law_patch_carries_untouched_rows(
    catalog: CatalogFacts,
    patch: NormalPatchFact,
    now: Seq<char>,
    today: i64,
    key: PriceKey,
)
    requires
        rows_wf(catalog.prices),
        patch.from_version != patch.to_version,
        key.sync_version == patch.from_version,
        stored(catalog.prices, key) is Some,
        !patch.removed.contains(key.printing_id),
        forall|i: int|
            0 <= i < patch.added.len() ==> (#[trigger] patch.added[i]).id != key.printing_id,
        forall|i: int|
            0 <= i < patch.updated.len() ==> (#[trigger] patch.updated[i]).id != key.printing_id,
    ensures
        stored(
            patch_staged(catalog, patch, now, today).prices,
            carried_key(key, patch.to_version),
        ) == Some(
            stored(catalog.prices, key)->0.retagged(
                patch.to_version,
                carried_ymd(patch.to_version, today),
                now,
            ),
        ),
{
    let rows = catalog.prices;
    let from = patch.from_version;
    let to = patch.to_version;
    let ymd = carried_ymd(to, today);
    let target = carried_key(key, to);
    let row = stored(rows, key)->0;
    // the rows of the target version are dropped; the row of the base version stays
    let cleared = without_version(rows, to);
    lemma_filter_wf(rows, selects(to, None, false));
    law_stored_means_present(rows, key);
    lemma_filter_keeps_stored(rows, selects(to, None, false), key);
    assert(stored(cleared, target) is None) by {
        assert forall|i: int|
            0 <= i < rows.len() && (#[trigger] rows[i]).key() == target implies !selects(
            to,
            None,
            false,
        )(rows[i]) by {}
        lemma_filter_drops(rows, selects(to, None, false), target);
    }
    // the rows of the base version are carried forward
    let source = of_version(cleared, from);
    lemma_filter_wf(cleared, selects(from, None, true));
    lemma_filter_keeps_stored(cleared, selects(from, None, true), key);
    law_stored_means_present(source, key);
    let which = position(source, key);
    assert(source[which] == row);
    assert forall|i: int, j: int| 0 <= i < j < source.len() implies (#[trigger] source[i]).key()
        != (#[trigger] source[j]).key() by {
        lemma_key_rank_same(source[i].key(), source[j].key());
    }
    assert forall|i: int| 0 <= i < source.len() implies (#[trigger] source[i]).sync_version
        == source[which].sync_version by {
        cleared.lemma_filter_pred(selects(from, None, true), i);
        cleared.lemma_filter_pred(selects(from, None, true), which);
    }
    lemma_carried_all_stored(cleared, source, to, ymd, now, which);
    let carried = carried_forward(cleared, from, to, ymd, now);
    // the removed printings are taken out; this one is not among them
    lemma_removed_all_keeps(carried, to, patch.removed, target);
    let trimmed = patch_rows(rows, patch, now, today);
    // the records are written; none is for this printing
    let base = CatalogFacts { prices: trimmed, ..catalog };
    lemma_records_split(base, patch.added, to, today);
    lemma_rows_recorded_keep(trimmed, patch.added, to, today, target);
    let middle = records_upserted(base, patch.added, to, today);
    lemma_records_split(middle, patch.updated, to, today);
    lemma_rows_recorded_keep(middle.prices, patch.updated, to, today, target);
}

} // verus!
