use crate::price::{Channels, Readings};
use crate::text::same_text;
use crate::rank::{
    bytes_rank, int_rank, lemma_bytes_rank_flip, lemma_bytes_rank_trans, lemma_text_rank_same,
    rank_i64, rank_text, rank_then, text_rank, Rank,
};
use vstd::prelude::*;
use vstd::string::*;
use vstd::utf8::*;

verus! {

/// One stored price fact: what is known of one printing, in one condition
/// and finish, under one sync version.
#[derive(Debug)]
pub struct PriceRow {
    pub printing_id: String,
    pub condition_id: Option<i64>,
    pub finish_id: Option<i64>,
    pub sync_version: String,
    pub channels: Channels,
    pub captured_ymd: i64,
    pub captured_at: String,
}

/// The mathematical value of a [`PriceRow`].
pub struct PriceFact {
    pub printing_id: Seq<char>,
    pub condition_id: Option<i64>,
    pub finish_id: Option<i64>,
    pub sync_version: Seq<char>,
    pub channels: Channels,
    pub captured_ymd: i64,
    pub captured_at: Seq<char>,
}

/// The merge key of a price fact. A missing condition or finish counts as 0.
pub struct PriceKey {
    pub sync_version: Seq<char>,
    pub printing_id: Seq<char>,
    pub condition: int,
    pub finish: int,
}

/// The identifier that a missing condition or finish counts as.
pub open spec fn id_or_zero(id: Option<i64>) -> int {
    match id {
        Some(value) => value as int,
        None => 0,
    }
}

impl PriceFact {
    /// The key under which the fact is stored.
    pub open spec fn key(self) -> PriceKey {
        PriceKey {
            sync_version: self.sync_version,
            printing_id: self.printing_id,
            condition: id_or_zero(self.condition_id),
            finish: id_or_zero(self.finish_id),
        }
    }

    /// The stored fact after a newer observation for the same key: each slot
    /// coalesced, the freshness fields overwritten, the rest kept.
    pub open spec fn absorbed(self, newer: PriceFact) -> PriceFact {
        PriceFact {
            channels: self.channels.merged(newer.channels),
            captured_ymd: newer.captured_ymd,
            captured_at: newer.captured_at,
            ..self
        }
    }

    /// The fact as it is carried into another sync version.
    pub open spec fn retagged(self, version: Seq<char>, ymd: i64, at: Seq<char>) -> PriceFact {
        PriceFact { sync_version: version, captured_ymd: ymd, captured_at: at, ..self }
    }
}

impl View for PriceRow {
    type V = PriceFact;

    open spec fn view(&self) -> PriceFact {
        PriceFact {
            printing_id: self.printing_id@,
            condition_id: self.condition_id,
            finish_id: self.finish_id,
            sync_version: self.sync_version@,
            channels: self.channels,
            captured_ymd: self.captured_ymd,
            captured_at: self.captured_at@,
        }
    }
}

/// Order of keys: by sync version, then printing, then condition, then
/// finish.
#[verifier::opaque]
pub open spec fn key_rank(a: PriceKey, b: PriceKey) -> Rank {
    rank_then(
        text_rank(a.sync_version, b.sync_version),
        rank_then(
            text_rank(a.printing_id, b.printing_id),
            rank_then(int_rank(a.condition, b.condition), int_rank(a.finish, b.finish)),
        ),
    )
}

/// Keys rank `Same` exactly when they are equal.
pub proof fn lemma_key_rank_same(a: PriceKey, b: PriceKey)
    ensures
        key_rank(a, b) == Rank::Same <==> a == b,
{
    reveal(key_rank);
    lemma_text_rank_same(a.sync_version, b.sync_version);
    lemma_text_rank_same(a.printing_id, b.printing_id);
}

/// Swapping two keys mirrors their rank.
pub proof fn lemma_key_rank_flip(a: PriceKey, b: PriceKey)
    ensures
        key_rank(a, b) == Rank::Before <==> key_rank(b, a) == Rank::After,
{
    reveal(key_rank);
    lemma_bytes_rank_flip(encode_utf8(a.sync_version), encode_utf8(b.sync_version));
    lemma_bytes_rank_flip(encode_utf8(b.sync_version), encode_utf8(a.sync_version));
    lemma_bytes_rank_flip(encode_utf8(a.printing_id), encode_utf8(b.printing_id));
    lemma_bytes_rank_flip(encode_utf8(b.printing_id), encode_utf8(a.printing_id));
}

/// `Before` is transitive on keys.
pub proof fn lemma_key_rank_trans(a: PriceKey, b: PriceKey, c: PriceKey)
    requires
        key_rank(a, b) == Rank::Before,
        key_rank(b, c) == Rank::Before,
    ensures
        key_rank(a, c) == Rank::Before,
{
    reveal(key_rank);
    lemma_text_rank_same(a.sync_version, b.sync_version);
    lemma_text_rank_same(b.sync_version, c.sync_version);
    lemma_text_rank_same(a.sync_version, c.sync_version);
    lemma_text_rank_same(a.printing_id, b.printing_id);
    lemma_text_rank_same(b.printing_id, c.printing_id);
    lemma_text_rank_same(a.printing_id, c.printing_id);
    let (av, bv, cv) = (
        encode_utf8(a.sync_version),
        encode_utf8(b.sync_version),
        encode_utf8(c.sync_version),
    );
    let (ap, bp, cp) = (
        encode_utf8(a.printing_id),
        encode_utf8(b.printing_id),
        encode_utf8(c.printing_id),
    );
    if bytes_rank(av, bv) == Rank::Before && bytes_rank(bv, cv) == Rank::Before {
        lemma_bytes_rank_trans(av, bv, cv);
    }
    if bytes_rank(ap, bp) == Rank::Before && bytes_rank(bp, cp) == Rank::Before {
        lemma_bytes_rank_trans(ap, bp, cp);
    }
}

/// Whether the facts stand in strictly ascending key order.
pub open spec fn rows_sorted(rows: Seq<PriceFact>) -> bool {
    forall|i: int, j: int|
        0 <= i < j < rows.len() ==> key_rank(#[trigger] rows[i].key(), #[trigger] rows[j].key())
            == Rank::Before
}

/// Whether every fact fills at least one of its six slots.
pub open spec fn rows_filled(rows: Seq<PriceFact>) -> bool {
    forall|i: int| 0 <= i < rows.len() ==> !(#[trigger] rows[i]).channels.is_empty()
}

/// What holds of the facts of every store: ascending keys, none stored
/// twice, and no fact with all six slots absent.
pub open spec fn rows_wf(rows: Seq<PriceFact>) -> bool {
    rows_sorted(rows) && rows_filled(rows)
}

/// The number of leading facts whose key comes before `key`: the place
/// where a fact with that key stands, or would be put.
pub open spec fn position(rows: Seq<PriceFact>, key: PriceKey) -> int
    decreases rows.len(),
{
    if rows.len() == 0 || key_rank(rows[0].key(), key) != Rank::Before {
        0
    } else {
        1 + position(rows.drop_first(), key)
    }
}

/// Whether a fact with the given key is stored.
pub open spec fn holds(rows: Seq<PriceFact>, key: PriceKey) -> bool {
    let at = position(rows, key);
    at < rows.len() && rows[at].key() == key
}

/// The stored fact with the given key.
pub open spec fn stored(rows: Seq<PriceFact>, key: PriceKey) -> Option<PriceFact> {
    if holds(rows, key) {
        Some(rows[position(rows, key)])
    } else {
        None
    }
}

/// The facts after one more is written: merged into the stored fact of the
/// same key where there is one, put in its place in the order otherwise.
pub open spec fn upserted(rows: Seq<PriceFact>, fact: PriceFact) -> Seq<PriceFact> {
    let at = position(rows, fact.key());
    if holds(rows, fact.key()) {
        rows.update(at, rows[at].absorbed(fact))
    } else {
        rows.insert(at, fact)
    }
}

/// `position` is the first place whose key does not come before `key`.
pub proof fn lemma_position(rows: Seq<PriceFact>, key: PriceKey)
    ensures
        0 <= position(rows, key) <= rows.len(),
        forall|j: int|
            0 <= j < position(rows, key) ==> key_rank(#[trigger] rows[j].key(), key)
                == Rank::Before,
        position(rows, key) < rows.len() ==> key_rank(rows[position(rows, key)].key(), key)
            != Rank::Before,
    decreases rows.len(),
{
    if rows.len() == 0 || key_rank(rows[0].key(), key) != Rank::Before {
    } else {
        let rest = rows.drop_first();
        lemma_position(rest, key);
        assert forall|j: int| 0 <= j < position(rows, key) implies key_rank(
            #[trigger] rows[j].key(),
            key,
        ) == Rank::Before by {
            if j > 0 {
                assert(rows[j] == rest[j - 1]);
            }
        }
        if position(rows, key) < rows.len() {
            assert(rows[position(rows, key)] == rest[position(rest, key)]);
        }
    }
}

/// A place that has only earlier keys in front of it, and no earlier key at
/// it, is the `position`.
pub proof fn lemma_position_found(rows: Seq<PriceFact>, key: PriceKey, at: int)
    requires
        0 <= at <= rows.len(),
        forall|j: int| 0 <= j < at ==> key_rank(#[trigger] rows[j].key(), key) == Rank::Before,
        at < rows.len() ==> key_rank(rows[at].key(), key) != Rank::Before,
    ensures
        position(rows, key) == at,
    decreases rows.len(),
{
    if at == 0 {
    } else {
        let rest = rows.drop_first();
        assert(key_rank(rows[0].key(), key) == Rank::Before);
        assert forall|j: int| 0 <= j < at - 1 implies key_rank(#[trigger] rest[j].key(), key)
            == Rank::Before by {
            assert(rest[j] == rows[j + 1]);
        }
        if at - 1 < rest.len() {
            assert(rest[at - 1] == rows[at]);
        }
        lemma_position_found(rest, key, at - 1);
    }
}

/// In a sorted sequence a key is stored exactly when some fact has it, and
/// that fact stands at the key's `position`.
pub proof fn law_stored_means_present(rows: Seq<PriceFact>, key: PriceKey)
    requires
        rows_sorted(rows),
    ensures
        holds(rows, key) <==> exists|i: int| 0 <= i < rows.len() && #[trigger] rows[i].key() == key,
        forall|i: int|
            0 <= i < rows.len() && #[trigger] rows[i].key() == key ==> position(rows, key) == i,
{
    lemma_position(rows, key);
    let at = position(rows, key);
    assert forall|i: int| 0 <= i < rows.len() && #[trigger] rows[i].key() == key implies at
        == i by {
        lemma_key_rank_same(rows[i].key(), key);
        if i < at {
            assert(key_rank(rows[i].key(), key) == Rank::Before);
        } else if at < i {
            // rows[at] comes before rows[i] == key, yet it does not come before key
            assert(key_rank(rows[at].key(), rows[i].key()) == Rank::Before);
        }
    }
}

/// Writing a filled fact into well-formed facts leaves them well-formed.
pub proof fn lemma_upserted_wf(rows: Seq<PriceFact>, fact: PriceFact)
    requires
        rows_wf(rows),
        !fact.channels.is_empty(),
    ensures
        rows_wf(upserted(rows, fact)),
{
    let key = fact.key();
    let at = position(rows, key);
    let out = upserted(rows, fact);
    lemma_position(rows, key);
    if holds(rows, key) {
        assert(out[at].key() == key);
        assert forall|i: int, j: int| 0 <= i < j < out.len() implies key_rank(
            #[trigger] out[i].key(),
            #[trigger] out[j].key(),
        ) == Rank::Before by {
            assert(out[i].key() == rows[i].key());
            assert(out[j].key() == rows[j].key());
        }
        assert forall|i: int| 0 <= i < out.len() implies !(#[trigger] out[i]).channels.is_empty() by {
            if i != at {
                assert(out[i] == rows[i]);
            }
        }
    } else {
        assert forall|i: int, j: int| 0 <= i < j < out.len() implies key_rank(
            #[trigger] out[i].key(),
            #[trigger] out[j].key(),
        ) == Rank::Before by {
            if j < at {
                assert(out[i] == rows[i] && out[j] == rows[j]);
            } else if j == at {
                assert(out[i] == rows[i]);
            } else if i < at {
                // rows[i] < key and key <= rows[at] <= rows[j - 1]
                assert(out[i] == rows[i] && out[j] == rows[j - 1]);
                if at < j - 1 {
                    assert(key_rank(rows[at].key(), rows[j - 1].key()) == Rank::Before);
                } else {
                    assert(key_rank(rows[i].key(), rows[j - 1].key()) == Rank::Before);
                }
            } else if i == at {
                // key < rows[j - 1], since rows[at] is neither before key nor equal to it
                assert(out[j] == rows[j - 1]);
                lemma_key_rank_same(rows[at].key(), key);
                lemma_key_rank_flip(key, rows[at].key());
                lemma_key_rank_flip(rows[at].key(), key);
                assert(key_rank(key, rows[at].key()) == Rank::Before);
                if at < j - 1 {
                    assert(key_rank(rows[at].key(), rows[j - 1].key()) == Rank::Before);
                    lemma_key_rank_trans(key, rows[at].key(), rows[j - 1].key());
                }
            } else {
                assert(out[i] == rows[i - 1] && out[j] == rows[j - 1]);
            }
        }
        assert forall|i: int| 0 <= i < out.len() implies !(#[trigger] out[i]).channels.is_empty() by {
            if i < at {
                assert(out[i] == rows[i]);
            } else if i > at {
                assert(out[i] == rows[i - 1]);
            }
        }
    }
}


/// The facts that a sequence of rows stands for.
pub open spec fn facts_of(rows: Seq<PriceRow>) -> Seq<PriceFact> {
    Seq::new(rows.len(), |i: int| rows[i]@)
}

/// The test by which facts are picked out of a store: a fact is picked when
/// "it carries this sync version and, where a printing is named, belongs to
/// that printing" is as `matching` says.
pub open spec fn selects(
    version: Seq<char>,
    printing: Option<Seq<char>>,
    matching: bool,
) -> spec_fn(PriceFact) -> bool {
    |fact: PriceFact|
        (fact.sync_version == version && (printing is None || fact.printing_id == printing->0))
            == matching
}

/// The facts of one sync version.
pub open spec fn of_version(rows: Seq<PriceFact>, version: Seq<char>) -> Seq<PriceFact> {
    rows.filter(selects(version, None, true))
}

/// The facts without those of one sync version.
pub open spec fn without_version(rows: Seq<PriceFact>, version: Seq<char>) -> Seq<PriceFact> {
    rows.filter(selects(version, None, false))
}

/// The facts without those of one printing under one sync version.
pub open spec fn without_printing(
    rows: Seq<PriceFact>,
    version: Seq<char>,
    printing: Seq<char>,
) -> Seq<PriceFact> {
    rows.filter(selects(version, Some(printing), false))
}

/// The facts after an observation: unchanged where the observation fills no
/// slot, else with the observation written.
pub open spec fn observed(rows: Seq<PriceFact>, fact: PriceFact) -> Seq<PriceFact> {
    if fact.channels.is_empty() {
        rows
    } else {
        upserted(rows, fact)
    }
}

/// The facts after each fact of `carried` was written under another sync
/// version, in turn.
pub open spec fn carried_all(
    rows: Seq<PriceFact>,
    carried: Seq<PriceFact>,
    version: Seq<char>,
    ymd: i64,
    at: Seq<char>,
) -> Seq<PriceFact>
    decreases carried.len(),
{
    if carried.len() == 0 {
        rows
    } else {
        carried_all(
            upserted(rows, carried[0].retagged(version, ymd, at)),
            carried.drop_first(),
            version,
            ymd,
            at,
        )
    }
}

/// The facts after those of sync version `from` were copied forward to
/// `to`, with new freshness fields.
pub open spec fn carried_forward(
    rows: Seq<PriceFact>,
    from: Seq<char>,
    to: Seq<char>,
    ymd: i64,
    at: Seq<char>,
) -> Seq<PriceFact> {
    carried_all(rows, of_version(rows, from), to, ymd, at)
}

/// Well-formed facts without their last are well-formed.
pub proof fn lemma_wf_front(rows: Seq<PriceFact>)
    requires
        rows_wf(rows),
        rows.len() > 0,
    ensures
        rows_wf(rows.drop_last()),
{
    let front = rows.drop_last();
    assert forall|i: int, j: int| 0 <= i < j < front.len() implies key_rank(
        #[trigger] front[i].key(),
        #[trigger] front[j].key(),
    ) == Rank::Before by {
        assert(front[i] == rows[i] && front[j] == rows[j]);
    }
    assert forall|i: int| 0 <= i < front.len() implies !(#[trigger] front[i]).channels.is_empty() by {
        assert(front[i] == rows[i]);
    }
}

/// Well-formed facts stay well-formed when a filled fact with a later key
/// is put behind them.
pub proof fn lemma_wf_push(rows: Seq<PriceFact>, last: PriceFact)
    requires
        rows_wf(rows),
        !last.channels.is_empty(),
        forall|i: int| 0 <= i < rows.len() ==> key_rank(#[trigger] rows[i].key(), last.key())
            == Rank::Before,
    ensures
        rows_wf(rows.push(last)),
{
    let out = rows.push(last);
    assert forall|i: int, j: int| 0 <= i < j < out.len() implies key_rank(
        #[trigger] out[i].key(),
        #[trigger] out[j].key(),
    ) == Rank::Before by {
        assert(out[i] == rows[i]);
        if j < rows.len() {
            assert(out[j] == rows[j]);
        } else {
            assert(out[j] == last);
        }
    }
    assert forall|i: int| 0 <= i < out.len() implies !(#[trigger] out[i]).channels.is_empty() by {
        if i < rows.len() {
            assert(out[i] == rows[i]);
        }
    }
}

/// Picking facts out of well-formed facts leaves well-formed facts, each of
/// which stood among the original ones.
pub proof fn lemma_filter_wf(rows: Seq<PriceFact>, pred: spec_fn(PriceFact) -> bool)
    requires
        rows_wf(rows),
    ensures
        rows_wf(rows.filter(pred)),
    decreases rows.len(),
{
    if rows.len() == 0 {
        assert(rows.filter(pred) =~= rows) by {
            reveal(Seq::filter);
        }
    } else {
        let front = rows.drop_last();
        let sub = front.filter(pred);
        lemma_wf_front(rows);
        lemma_filter_wf(front, pred);
        assert(rows.filter(pred) == if pred(rows.last()) {
            sub.push(rows.last())
        } else {
            sub
        }) by {
            reveal(Seq::filter);
        }
        if pred(rows.last()) {
            assert forall|i: int| 0 <= i < sub.len() implies key_rank(
                #[trigger] sub[i].key(),
                rows.last().key(),
            ) == Rank::Before by {
                assert(sub.contains(sub[i]));
                front.lemma_filter_contains_rev(pred, sub[i]);
                let m = choose|m: int| 0 <= m < front.len() && front[m] == sub[i];
                assert(front[m] == rows[m]);
                assert(key_rank(rows[m].key(), rows[rows.len() - 1].key()) == Rank::Before);
            }
            lemma_wf_push(sub, rows.last());
        }
    }
}

/// The price facts of the local replica, kept in ascending key order.
pub struct PriceStore {
    rows: Vec<PriceRow>,
}

impl View for PriceStore {
    type V = Seq<PriceFact>;

    closed spec fn view(&self) -> Seq<PriceFact> {
        facts_of(self.rows@)
    }
}

impl PriceRow {
    /// A copy of the row.
    pub fn duplicate(&self) -> (copy: PriceRow)
        ensures
            copy@ == self@,
    {
        PriceRow {
            printing_id: self.printing_id.clone(),
            condition_id: self.condition_id,
            finish_id: self.finish_id,
            sync_version: self.sync_version.clone(),
            channels: self.channels,
            captured_ymd: self.captured_ymd,
            captured_at: self.captured_at.clone(),
        }
    }

    /// Ranks the row's key against a key given by its parts.
    pub fn rank_against(
        &self,
        sync_version: &str,
        printing_id: &str,
        condition_id: Option<i64>,
        finish_id: Option<i64>,
    ) -> (rank: Rank)
        ensures
            rank == key_rank(
                self@.key(),
                PriceKey {
                    sync_version: sync_version@,
                    printing_id: printing_id@,
                    condition: id_or_zero(condition_id),
                    finish: id_or_zero(finish_id),
                },
            ),
    {
        proof {
            reveal(key_rank);
        }
        let by_version = rank_text(self.sync_version.as_str(), sync_version);
        if by_version != Rank::Same {
            return by_version;
        }
        let by_printing = rank_text(self.printing_id.as_str(), printing_id);
        if by_printing != Rank::Same {
            return by_printing;
        }
        let by_condition = rank_i64(or_zero(self.condition_id), or_zero(condition_id));
        if by_condition != Rank::Same {
            return by_condition;
        }
        rank_i64(or_zero(self.finish_id), or_zero(finish_id))
    }
}

/// The identifier that a missing condition or finish counts as.
pub fn or_zero(id: Option<i64>) -> (value: i64)
    ensures
        value == id_or_zero(id),
{
    match id {
        Some(value) => value,
        None => 0,
    }
}

impl PriceStore {
    #[verifier::type_invariant]
    spec fn well_formed(self) -> bool {
        rows_wf(self@)
    }

    /// A store without facts.
    pub fn new() -> (store: PriceStore)
        ensures
            store@ == Seq::<PriceFact>::empty(),
    {
        let store = PriceStore { rows: Vec::new() };
        assert(store@ =~= Seq::<PriceFact>::empty());
        store
    }

    /// States what holds of every store's facts.
    pub fn note_well_formed(&self)
        ensures
            rows_wf(self@),
    {
        proof {
            use_type_invariant(self);
        }
    }

    /// The number of facts.
    pub fn len(&self) -> (n: usize)
        ensures
            n == self@.len(),
    {
        self.rows.len()
    }

    /// The fact at a place in key order.
    pub fn row(&self, at: usize) -> (row: &PriceRow)
        requires
            at < self@.len(),
        ensures
            row@ == self@[at as int],
    {
        &self.rows[at]
    }

    /// Finds the place of a key by binary search: where the fact with that
    /// key stands, or where it would be put.
    pub fn locate(
        &self,
        sync_version: &str,
        printing_id: &str,
        condition_id: Option<i64>,
        finish_id: Option<i64>,
    ) -> (found: (usize, bool))
        ensures
            found.0 == position(
                self@,
                PriceKey {
                    sync_version: sync_version@,
                    printing_id: printing_id@,
                    condition: id_or_zero(condition_id),
                    finish: id_or_zero(finish_id),
                },
            ),
            found.1 == holds(
                self@,
                PriceKey {
                    sync_version: sync_version@,
                    printing_id: printing_id@,
                    condition: id_or_zero(condition_id),
                    finish: id_or_zero(finish_id),
                },
            ),
    {
        let ghost key = PriceKey {
            sync_version: sync_version@,
            printing_id: printing_id@,
            condition: id_or_zero(condition_id),
            finish: id_or_zero(finish_id),
        };
        proof {
            use_type_invariant(self);
        }
        // halve the range in which the key's place lies
        let mut low: usize = 0;
        let mut high: usize = self.rows.len();
        while low < high
            invariant
                low <= high <= self@.len(),
                self@.len() == self.rows@.len(),
                rows_sorted(self@),
                forall|j: int|
                    0 <= j < low ==> key_rank(#[trigger] self@[j].key(), key) == Rank::Before,
                forall|j: int|
                    high <= j < self@.len() ==> key_rank(#[trigger] self@[j].key(), key)
                        != Rank::Before,
                key == (PriceKey {
                    sync_version: sync_version@,
                    printing_id: printing_id@,
                    condition: id_or_zero(condition_id),
                    finish: id_or_zero(finish_id),
                }),
            decreases high - low,
        {
            let middle: usize = low + (high - low) / 2;
            let rank = self.rows[middle].rank_against(
                sync_version,
                printing_id,
                condition_id,
                finish_id,
            );
            assert(self@[middle as int] == self.rows@[middle as int]@);
            if rank == Rank::Before {
                assert forall|j: int| 0 <= j < middle + 1 implies key_rank(
                    #[trigger] self@[j].key(),
                    key,
                ) == Rank::Before by {
                    if j < middle {
                        lemma_key_rank_trans(self@[j].key(), self@[middle as int].key(), key);
                    }
                }
                low = middle + 1;
            } else {
                assert forall|j: int| middle <= j < self@.len() implies key_rank(
                    #[trigger] self@[j].key(),
                    key,
                ) != Rank::Before by {
                    if middle < j && key_rank(self@[j].key(), key) == Rank::Before {
                        lemma_key_rank_trans(self@[middle as int].key(), self@[j].key(), key);
                    }
                }
                high = middle;
            }
        }
        let found = low < self.rows.len() && self.rows[low].rank_against(
            sync_version,
            printing_id,
            condition_id,
            finish_id,
        ) == Rank::Same;
        proof {
            lemma_position_found(self@, key, low as int);
            if low < self@.len() {
                assert(self@[low as int] == self.rows@[low as int]@);
                lemma_key_rank_same(self@[low as int].key(), key);
            }
        }
        (low, found)
    }

    /// Writes one fact: merges it into the stored fact of the same key, or
    /// puts it in its place.
    pub fn put(&mut self, row: PriceRow)
        requires
            !row@.channels.is_empty(),
        ensures
            final(self)@ == upserted(old(self)@, row@),
    {
        proof {
            use_type_invariant(&*self);
            lemma_upserted_wf(self@, row@);
        }
        let (at, found) = self.locate(
            row.sync_version.as_str(),
            row.printing_id.as_str(),
            row.condition_id,
            row.finish_id,
        );
        let ghost before = self@;
        let ghost fact = row@;
        proof {
            lemma_position(before, fact.key());
        }
        if found {
            let merged = PriceRow {
                printing_id: self.rows[at].printing_id.clone(),
                condition_id: self.rows[at].condition_id,
                finish_id: self.rows[at].finish_id,
                sync_version: self.rows[at].sync_version.clone(),
                channels: self.rows[at].channels.merge(&row.channels),
                captured_ymd: row.captured_ymd,
                captured_at: row.captured_at,
            };
            assert(merged@ == before[at as int].absorbed(fact));
            let mut rows: Vec<PriceRow> = Vec::new();
            assert(facts_of(rows@) =~= Seq::<PriceFact>::empty());
            core::mem::swap(&mut self.rows, &mut rows);
            assert(rows@.len() == before.len());
            assert(forall|i: int| 0 <= i < rows@.len() ==> (#[trigger] rows@[i])@ == before[i]);
            rows.set(at, merged);
            assert(facts_of(rows@) =~= upserted(before, fact));
            core::mem::swap(&mut self.rows, &mut rows);
        } else {
            let mut rows: Vec<PriceRow> = Vec::new();
            assert(facts_of(rows@) =~= Seq::<PriceFact>::empty());
            core::mem::swap(&mut self.rows, &mut rows);
            assert(rows@.len() == before.len());
            assert(forall|i: int| 0 <= i < rows@.len() ==> (#[trigger] rows@[i])@ == before[i]);
            rows.insert(at, row);
            assert(facts_of(rows@) =~= upserted(before, fact));
            core::mem::swap(&mut self.rows, &mut rows);
        }
    }

    /// Writes one row as it is, unless all of its six slots are absent.
    pub fn add_row(&mut self, row: PriceRow)
        ensures
            final(self)@ == observed(old(self)@, row@),
    {
        if !row.channels.has_nothing() {
            self.put(row);
        }
    }

    /// Copies of the facts that the test picks, in key order.
    pub fn select(&self, version: &str, printing_id: Option<&str>, matching: bool) -> (picked: Vec<
        PriceRow,
    >)
        ensures
            facts_of(picked@) == self@.filter(
                selects(
                    version@,
                    match printing_id {
                        Some(id) => Some(id@),
                        None => None,
                    },
                    matching,
                ),
            ),
    {
        let ghost printing: Option<Seq<char>> = match printing_id {
            Some(id) => Some(id@),
            None => None,
        };
        let ghost pred = selects(version@, printing, matching);
        let mut picked: Vec<PriceRow> = Vec::new();
        let mut i: usize = 0;
        proof {
            reveal(Seq::filter);
            assert(self@.take(0) =~= Seq::<PriceFact>::empty());
            assert(facts_of(picked@) =~= self@.take(0).filter(pred));
        }
        while i < self.rows.len()
            invariant
                i <= self.rows@.len(),
                self@ == facts_of(self.rows@),
                pred == selects(version@, printing, matching),
                printing == match printing_id {
                    Some(id) => Some(id@),
                    None => None,
                },
                facts_of(picked@) == self@.take(i as int).filter(pred),
            decreases self.rows@.len() - i,
        {
            let row = &self.rows[i];
            let in_version = same_text(row.sync_version.as_str(), version);
            let of_printing = match printing_id {
                Some(id) => same_text(row.printing_id.as_str(), id),
                None => true,
            };
            let ghost picked_before = facts_of(picked@);
            proof {
                reveal(Seq::filter);
                assert(self@.take(i + 1).drop_last() =~= self@.take(i as int));
                assert(self@.take(i + 1).last() == row@);
                assert(pred(row@) == ((in_version && of_printing) == matching));
            }
            if (in_version && of_printing) == matching {
                picked.push(row.duplicate());
                assert(facts_of(picked@) =~= picked_before.push(row@));
            }
            i = i + 1;
        }
        assert(self@.take(i as int) =~= self@);
        picked
    }

    /// A copy of the store.
    pub fn duplicate(&self) -> (copy: PriceStore)
        ensures
            copy@ == self@,
    {
        proof {
            use_type_invariant(self);
        }
        let mut rows: Vec<PriceRow> = Vec::new();
        let mut i: usize = 0;
        while i < self.rows.len()
            invariant
                i <= self.rows@.len(),
                rows@.len() == i,
                forall|k: int| 0 <= k < i ==> (#[trigger] rows@[k])@ == self.rows@[k]@,
            decreases self.rows@.len() - i,
        {
            rows.push(self.rows[i].duplicate());
            i = i + 1;
        }
        assert(facts_of(rows@) =~= self@);
        PriceStore { rows }
    }

    /// Replaces the facts by rows that are known to be well-formed.
    fn replace_rows(&mut self, rows: Vec<PriceRow>)
        requires
            rows_wf(facts_of(rows@)),
        ensures
            final(self)@ == facts_of(rows@),
    {
        let mut rows = rows;
        core::mem::swap(&mut self.rows, &mut rows);
    }

    /// Removes every fact of one sync version.
    pub fn remove_version(&mut self, version: &str)
        ensures
            final(self)@ == without_version(old(self)@, version@),
    {
        proof {
            use_type_invariant(&*self);
            lemma_filter_wf(self@, selects(version@, None, false));
        }
        let kept = self.select(version, None, false);
        self.replace_rows(kept);
    }

    /// Removes the facts of one printing under one sync version.
    pub fn remove_printing(&mut self, version: &str, printing_id: &str)
        ensures
            final(self)@ == without_printing(old(self)@, version@, printing_id@),
    {
        proof {
            use_type_invariant(&*self);
            lemma_filter_wf(self@, selects(version@, Some(printing_id@), false));
        }
        let kept = self.select(version, Some(printing_id), false);
        self.replace_rows(kept);
    }

    /// Copies every fact of sync version `from` forward to `to`, with new
    /// freshness fields. A fact already stored under `to` absorbs the copy.
    pub fn carry_forward(&mut self, from: &str, to: &str, captured_ymd: i64, captured_at: &str)
        ensures
            final(self)@ == carried_forward(old(self)@, from@, to@, captured_ymd, captured_at@),
    {
        proof {
            use_type_invariant(&*self);
            lemma_filter_wf(self@, selects(from@, None, true));
        }
        let carried = self.select(from, None, true);
        let ghost source = facts_of(carried@);
        let mut i: usize = 0;
        assert(source.skip(0) =~= source);
        while i < carried.len()
            invariant
                i <= carried@.len(),
                source == facts_of(carried@),
                rows_filled(source),
                carried_all(self@, source.skip(i as int), to@, captured_ymd, captured_at@)
                    == carried_forward(old(self)@, from@, to@, captured_ymd, captured_at@),
            decreases carried@.len() - i,
        {
            let row = &carried[i];
            let copy = PriceRow {
                printing_id: row.printing_id.clone(),
                condition_id: row.condition_id,
                finish_id: row.finish_id,
                sync_version: to.to_owned(),
                channels: row.channels,
                captured_ymd,
                captured_at: captured_at.to_owned(),
            };
            proof {
                assert(source.skip(i as int)[0] == row@);
                assert(source[i as int] == row@);
                assert(copy@ == row@.retagged(to@, captured_ymd, captured_at@));
                assert(source.skip(i as int).drop_first() =~= source.skip(i + 1));
            }
            self.put(copy);
            i = i + 1;
        }
    }
}

/// Records one price observation. Readings that are missing, non-finite or
/// negative count as absent. An observation that fills no slot changes
/// nothing; any other is merged, slot by slot, into the fact stored under
/// its key, or stored as a new fact.
pub fn upsert_compact_price_row(
    store: &mut PriceStore,
    printing_id: &str,
    condition_id: Option<i64>,
    finish_id: Option<i64>,
    readings: Readings,
    sync_version: &str,
    captured_ymd: i64,
    captured_at: &str,
)
    ensures
        final(store)@ == observed(
            old(store)@,
            PriceFact {
                printing_id: printing_id@,
                condition_id,
                finish_id,
                sync_version: sync_version@,
                channels: readings.cleaned(),
                captured_ymd,
                captured_at: captured_at@,
            },
        ),
{
    let channels = readings.clean();
    if channels.has_nothing() {
        return ;
    }
    store.put(
        PriceRow {
            printing_id: printing_id.to_owned(),
            condition_id,
            finish_id,
            sync_version: sync_version.to_owned(),
            channels,
            captured_ymd,
            captured_at: captured_at.to_owned(),
        },
    );
}

} // verus!
