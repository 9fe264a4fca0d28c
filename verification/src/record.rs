use crate::model::{first_where, lemma_first_where_found, text_of, views};
use crate::price::{reading_is_valid, Reading};
use crate::printing::copy_text;
use crate::text::{normalize, normalized, trim, trimmed};
use vstd::prelude::*;
use vstd::string::*;

verus! {

/// One record of a snapshot or patch as it arrives: a printing's identity
/// and its prices. Prices count millionths of a currency unit.
#[derive(Debug)]
pub struct CatalogRecord {
    pub scryfall_id: String,
    pub name: String,
    pub set_code: String,
    pub collector_number: String,
    pub image_url: Option<String>,
    pub market_price: Reading,
    pub low_price: Option<Reading>,
    pub mid_price: Option<Reading>,
    pub high_price: Option<Reading>,
    pub updated_at: String,
}

/// The mathematical value of a [`CatalogRecord`].
pub struct RecordFact {
    pub scryfall_id: Seq<char>,
    pub name: Seq<char>,
    pub set_code: Seq<char>,
    pub collector_number: Seq<char>,
    pub image_url: Option<Seq<char>>,
    pub market_price: Reading,
    pub low_price: Option<Reading>,
    pub mid_price: Option<Reading>,
    pub high_price: Option<Reading>,
    pub updated_at: Seq<char>,
}

impl View for CatalogRecord {
    type V = RecordFact;

    open spec fn view(&self) -> RecordFact {
        RecordFact {
            scryfall_id: self.scryfall_id@,
            name: self.name@,
            set_code: self.set_code@,
            collector_number: self.collector_number@,
            image_url: text_of(self.image_url),
            market_price: self.market_price,
            low_price: self.low_price,
            mid_price: self.mid_price,
            high_price: self.high_price,
            updated_at: self.updated_at@,
        }
    }
}

/// A record in normal form: the identifier and set code trimmed and
/// lower-cased, name and collector number trimmed, the update time trimmed
/// and never empty. `given_id` keeps the identifier as it arrived: it is
/// what messages quote, and what tells whether an identifier was given.
#[derive(Debug)]
pub struct NormalRecord {
    pub id: String,
    pub given_id: String,
    pub name: String,
    pub set_code: String,
    pub collector_number: String,
    pub image_url: Option<String>,
    pub market_price: Reading,
    pub low_price: Option<Reading>,
    pub high_price: Option<Reading>,
    pub updated_at: String,
}

/// The mathematical value of a [`NormalRecord`].
pub struct NormalFact {
    pub id: Seq<char>,
    pub given_id: Seq<char>,
    pub name: Seq<char>,
    pub set_code: Seq<char>,
    pub collector_number: Seq<char>,
    pub image_url: Option<Seq<char>>,
    pub market_price: Reading,
    pub low_price: Option<Reading>,
    pub high_price: Option<Reading>,
    pub updated_at: Seq<char>,
}

impl View for NormalRecord {
    type V = NormalFact;

    open spec fn view(&self) -> NormalFact {
        NormalFact {
            id: self.id@,
            given_id: self.given_id@,
            name: self.name@,
            set_code: self.set_code@,
            collector_number: self.collector_number@,
            image_url: text_of(self.image_url),
            market_price: self.market_price,
            low_price: self.low_price,
            high_price: self.high_price,
            updated_at: self.updated_at@,
        }
    }
}

/// The normal form of a record. A record without an update time takes the
/// time `now`.
pub open spec fn normal_record(record: RecordFact, now: Seq<char>) -> NormalFact {
    NormalFact {
        id: normalized(record.scryfall_id),
        given_id: record.scryfall_id,
        name: trimmed(record.name),
        set_code: normalized(record.set_code),
        collector_number: trimmed(record.collector_number),
        image_url: record.image_url,
        market_price: record.market_price,
        low_price: record.low_price,
        high_price: record.high_price,
        updated_at: if trimmed(record.updated_at).len() == 0 {
            now
        } else {
            trimmed(record.updated_at)
        },
    }
}

/// The normal forms of a sequence of records.
pub open spec fn normal_records(records: Seq<RecordFact>, now: Seq<char>) -> Seq<NormalFact> {
    Seq::new(records.len(), |i: int| normal_record(records[i], now))
}

/// Brings a record into normal form.
pub fn normalize_record(record: &CatalogRecord, now: &str) -> (out: NormalRecord)
    ensures
        out@ == normal_record(record@, now@),
{
    let updated = trim(record.updated_at.as_str());
    NormalRecord {
        id: normalize(record.scryfall_id.as_str()),
        given_id: record.scryfall_id.clone(),
        name: trim(record.name.as_str()).to_owned(),
        set_code: normalize(record.set_code.as_str()),
        collector_number: trim(record.collector_number.as_str()).to_owned(),
        image_url: copy_text(&record.image_url),
        market_price: record.market_price,
        low_price: record.low_price,
        high_price: record.high_price,
        updated_at: if updated.is_empty() {
            now.to_owned()
        } else {
            updated.to_owned()
        },
    }
}

/// Brings each record of a batch into normal form.
pub fn normalize_records(records: &Vec<CatalogRecord>, now: &str) -> (out: Vec<NormalRecord>)
    ensures
        views(out@) == normal_records(views(records@), now@),
{
    let mut out: Vec<NormalRecord> = Vec::new();
    let mut i: usize = 0;
    while i < records.len()
        invariant
            i <= records@.len(),
            out@.len() == i,
            forall|k: int|
                0 <= k < i ==> (#[trigger] out@[k])@ == normal_record(records@[k]@, now@),
        decreases records@.len() - i,
    {
        out.push(normalize_record(&records[i], now));
        i = i + 1;
    }
    assert(views(out@) =~= normal_records(views(records@), now@));
    out
}

/// Why a batch is refused before anything is written.
#[derive(Clone, Copy, PartialEq, Eq, Structural, Debug)]
pub enum RecordFault {
    /// The record's identifier is empty.
    EmptyId,
    /// The record's market price is not finite or is negative.
    InvalidPrice,
}

/// The fault of a record in normal form, if it has one. An identifier that
/// was given blank is reported before an unusable price.
pub open spec fn record_fault(record: NormalFact) -> Option<RecordFault> {
    if trimmed(record.given_id).len() == 0 {
        Some(RecordFault::EmptyId)
    } else if !reading_is_valid(record.market_price) {
        Some(RecordFault::InvalidPrice)
    } else {
        None
    }
}

/// The test that picks a record with a fault.
pub open spec fn is_faulty() -> spec_fn(NormalFact) -> bool {
    |record: NormalFact| record_fault(record) is Some
}

/// The place of the first record with a fault.
pub open spec fn first_fault(records: Seq<NormalFact>) -> Option<int> {
    first_where(records, is_faulty())
}

/// Looks for the fault of one record.
pub fn check_record(record: &NormalRecord) -> (fault: Option<RecordFault>)
    ensures
        fault == record_fault(record@),
{
    if trim(record.given_id.as_str()).is_empty() {
        return Some(RecordFault::EmptyId);
    }
    match record.market_price {
        Reading::Amount(amount) => {
            if amount >= 0 {
                None
            } else {
                Some(RecordFault::InvalidPrice)
            }
        },
        Reading::NotFinite => Some(RecordFault::InvalidPrice),
    }
}

/// Looks for the first record with a fault.
pub fn find_fault(records: &Vec<NormalRecord>) -> (found: Option<(usize, RecordFault)>)
    ensures
        match found {
            Some((at, fault)) => first_fault(views(records@)) == Some(at as int) && at
                < records@.len() && record_fault(records@[at as int]@) == Some(fault),
            None => first_fault(views(records@)) is None,
        },
{
    let mut at: usize = 0;
    while at < records.len()
        invariant
            at <= records@.len(),
            forall|j: int| 0 <= j < at ==> !is_faulty()(#[trigger] views(records@)[j]),
        decreases records@.len() - at,
    {
        match check_record(&records[at]) {
            Some(fault) => {
                proof {
                    assert(is_faulty()(views(records@)[at as int]));
                    lemma_first_where_found(views(records@), is_faulty(), at as int);
                }
                return Some((at, fault));
            },
            None => {},
        }
        at = at + 1;
    }
    proof {
        lemma_first_where_found(views(records@), is_faulty(), at as int);
    }
    None
}

/// A record is refused for its identifier exactly where that is blank as
/// it arrived, whatever lower-casing would make of it; and a record with an
/// identifier is refused for its price exactly where that is not a finite
/// amount of zero or more.
pub proof fn law_blank_identifier_is_refused(record: RecordFact, now: Seq<char>)
    ensures
        record_fault(normal_record(record, now)) == Some(RecordFault::EmptyId) <==> trimmed(
            record.scryfall_id,
        ).len() == 0,
        record_fault(normal_record(record, now)) == Some(RecordFault::InvalidPrice) <==> trimmed(
            record.scryfall_id,
        ).len() > 0 && !reading_is_valid(record.market_price),
        trimmed(record.scryfall_id).len() == 0 ==> normal_record(record, now).id.len() == 0,
{
}

} // verus!
