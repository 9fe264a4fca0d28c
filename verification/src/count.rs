use crate::rank::{
    lemma_bytes_rank_flip, lemma_text_rank_same, text_rank, Rank,
};
use crate::store::{key_rank, rows_wf, PriceFact, PriceKey, PriceStore};
use crate::text::same_text;
use vstd::prelude::*;
use vstd::string::*;
use vstd::utf8::*;

verus! {

/// Whether a row counts as a record of a version: it belongs to the version
/// and has a market price.
pub open spec fn is_priced(row: PriceFact, version: Seq<char>) -> bool {
    row.sync_version == version && row.channels.tcg_market is Some
}

/// The printings that have a record under a version.
pub open spec fn priced_printings(rows: Seq<PriceFact>, version: Seq<char>) -> Set<Seq<char>> {
    Set::new(
        |id: Seq<char>|
            exists|i: int|
                0 <= i < rows.len() && is_priced(#[trigger] rows[i], version) && rows[i].printing_id
                    == id,
    )
}

/// The number of records of a version: the number of distinct printings
/// with a market price under it.
pub open spec fn priced_count(rows: Seq<PriceFact>, version: Seq<char>) -> nat {
    priced_printings(rows, version).len()
}

/// No rows, no records.
pub proof fn lemma_priced_printings_empty(version: Seq<char>)
    ensures
        priced_printings(Seq::<PriceFact>::empty(), version) == Set::<Seq<char>>::empty(),
{
    assert(priced_printings(Seq::<PriceFact>::empty(), version) =~= Set::<Seq<char>>::empty());
}

/// One more row adds its printing to the records of a version where it
/// counts, and nothing where it does not.
pub proof fn lemma_priced_printings_step(rows: Seq<PriceFact>, version: Seq<char>, i: int)
    requires
        0 <= i < rows.len(),
    ensures
        priced_printings(rows.take(i + 1), version) == if is_priced(rows[i], version) {
            priced_printings(rows.take(i), version).insert(rows[i].printing_id)
        } else {
            priced_printings(rows.take(i), version)
        },
{
    let shorter = rows.take(i);
    let longer = rows.take(i + 1);
    let before = priced_printings(shorter, version);
    let after = priced_printings(longer, version);
    let expected = if is_priced(rows[i], version) {
        before.insert(rows[i].printing_id)
    } else {
        before
    };
    assert forall|id: Seq<char>| after.contains(id) <==> expected.contains(id) by {
        if after.contains(id) {
            let k = choose|k: int|
                0 <= k < longer.len() && is_priced(#[trigger] longer[k], version)
                    && longer[k].printing_id == id;
            if k < i {
                assert(shorter[k] == longer[k]);
            } else {
                assert(longer[k] == rows[i]);
            }
        }
        if expected.contains(id) {
            if before.contains(id) {
                let k = choose|k: int|
                    0 <= k < shorter.len() && is_priced(#[trigger] shorter[k], version)
                        && shorter[k].printing_id == id;
                assert(longer[k] == shorter[k]);
            } else {
                assert(longer[i] == rows[i]);
            }
        }
    }
    assert(after =~= expected);
}

/// Under one sync version, an earlier key has no later printing.
pub proof fn lemma_version_order(a: PriceKey, b: PriceKey)
    requires
        key_rank(a, b) == Rank::Before,
        a.sync_version == b.sync_version,
    ensures
        text_rank(a.printing_id, b.printing_id) != Rank::After,
{
    reveal(key_rank);
    lemma_text_rank_same(a.sync_version, b.sync_version);
}

/// Counts the records of a version: the distinct printings that have a
/// market price under it.
pub fn count_catalog_records_for_version(prices: &PriceStore, version: &str) -> (count: u64)
    ensures
        count == priced_count(prices@, version@),
{
    prices.note_well_formed();
    let ghost rows = prices@;
    let mut count: u64 = 0;
    let mut any: bool = false;
    let mut last: usize = 0;
    let mut i: usize = 0;
    proof {
        assert(rows.take(0) =~= Seq::<PriceFact>::empty());
        lemma_priced_printings_empty(version@);
    }
    while i < prices.len()
        invariant
            rows == prices@,
            rows_wf(rows),
            i <= rows.len(),
            count <= i,
            priced_printings(rows.take(i as int), version@).finite(),
            priced_printings(rows.take(i as int), version@).len() == count,
            any ==> last < i && is_priced(rows[last as int], version@),
            forall|j: int|
                (if any {
                    last as int + 1
                } else {
                    0
                }) <= j < i ==> !is_priced(#[trigger] rows[j], version@),
        decreases rows.len() - i,
    {
        let row = prices.row(i);
        let ghost seen = priced_printings(rows.take(i as int), version@);
        proof {
            lemma_priced_printings_step(rows, version@, i as int);
        }
        if same_text(row.sync_version.as_str(), version) && row.channels.tcg_market.is_some() {
            let repeated = any && same_text(
                prices.row(last).printing_id.as_str(),
                row.printing_id.as_str(),
            );
            if repeated {
                proof {
                    assert(rows.take(i as int)[last as int] == rows[last as int]);
                    assert(seen.contains(row@.printing_id));
                    assert(seen.insert(row@.printing_id) =~= seen);
                }
            } else {
                proof {
                    if seen.contains(row@.printing_id) {
                        let j = choose|j: int|
                            0 <= j < rows.take(i as int).len() && is_priced(
                                #[trigger] rows.take(i as int)[j],
                                version@,
                            ) && rows.take(i as int)[j].printing_id == row@.printing_id;
                        assert(rows.take(i as int)[j] == rows[j]);
                        assert(any && j < last);
                        let (a, b, c) = (rows[j].key(), rows[last as int].key(), rows[i as int].key());
                        lemma_version_order(a, b);
                        lemma_version_order(b, c);
                        lemma_text_rank_same(a.printing_id, b.printing_id);
                        lemma_text_rank_same(b.printing_id, c.printing_id);
                        lemma_bytes_rank_flip(
                            encode_utf8(a.printing_id),
                            encode_utf8(b.printing_id),
                        );
                        assert(false);
                    }
                }
                count = count + 1;
            }
            any = true;
            last = i;
        }
        i = i + 1;
    }
    assert(rows.take(i as int) =~= rows);
    count
}

} // verus!
